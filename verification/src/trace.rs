//! Data structures for execution traces.

use vstd::prelude::*;
use crate::registers::RegisterState;

verus! {

/// An account address: 32 raw bytes.
#[derive(Clone, Copy, Debug)]
pub struct Pubkey {
    /// The 32 bytes of the address.
    pub bytes: [u8; 32],
}

impl Pubkey {
    /// Create an address from its 32 raw bytes.
    pub fn from_array(bytes: [u8; 32]) -> (r: Pubkey)
        ensures
            r.bytes == bytes,
    {
        Pubkey { bytes }
    }

    /// The 32 raw bytes of the address.
    pub fn to_bytes(&self) -> (r: [u8; 32])
        ensures
            r == self.bytes,
    {
        self.bytes
    }
}

impl Default for Pubkey {
    fn default() -> (r: Self)
        ensures
            forall|i: int| 0 <= i < 32 ==> r.bytes@[i] == 0,
    {
        Pubkey { bytes: [0; 32] }
    }
}

impl PartialEq for Pubkey {
    fn eq(&self, other: &Pubkey) -> (r: bool)
        ensures
            r == (self.bytes@ == other.bytes@),
    {
        let mut i: usize = 0;
        while i < 32
            invariant
                0 <= i <= 32,
                forall|j: int| 0 <= j < i ==> self.bytes@[j] == other.bytes@[j],
            decreases 32 - i,
        {
            if self.bytes[i] != other.bytes[i] {
                return false;
            }
            i += 1;
        }
        proof {
            assert(self.bytes@ =~= other.bytes@);
        }
        true
    }
}

impl vstd::std_specs::cmp::PartialEqSpecImpl for Pubkey {
    open spec fn obeys_eq_spec() -> bool {
        true
    }

    open spec fn eq_spec(&self, other: &Pubkey) -> bool {
        self.bytes@ == other.bytes@
    }
}

/// Compare two byte vectors for equality.
pub fn bytes_eq(a: &Vec<u8>, b: &Vec<u8>) -> (r: bool)
    ensures
        r == (a@ == b@),
{
    if a.len() != b.len() {
        proof {
            assert(a@ != b@);
        }
        return false;
    }
    let mut i: usize = 0;
    while i < a.len()
        invariant
            0 <= i <= a@.len(),
            a@.len() == b@.len(),
            forall|j: int| 0 <= j < i ==> a@[j] == b@[j],
        decreases a@.len() - i,
    {
        if a[i] != b[i] {
            return false;
        }
        i += 1;
    }
    proof {
        assert(a@ =~= b@);
    }
    true
}

/// A Solana-style account state with all account fields.
#[derive(Clone, Debug)]
pub struct AccountState {
    /// Account public key (address).
    pub pubkey: Pubkey,
    /// Account balance in lamports.
    pub lamports: u64,
    /// Account data bytes.
    pub data: Vec<u8>,
    /// Program that owns this account.
    pub owner: Pubkey,
    /// Whether the account is executable.
    pub executable: bool,
    /// Epoch at which this account will next owe rent.
    pub rent_epoch: u64,
}

impl AccountState {
    /// True when the two states agree on every field.
    pub open spec fn same_state(self, other: AccountState) -> bool {
        &&& self.pubkey.bytes@ == other.pubkey.bytes@
        &&& self.lamports == other.lamports
        &&& self.data@ == other.data@
        &&& self.owner.bytes@ == other.owner.bytes@
        &&& self.executable == other.executable
        &&& self.rent_epoch == other.rent_epoch
    }

    /// Create a new account state.
    pub fn new(
        pubkey: Pubkey,
        lamports: u64,
        data: Vec<u8>,
        owner: Pubkey,
        executable: bool,
        rent_epoch: u64,
    ) -> (r: Self)
        ensures
            r.pubkey == pubkey,
            r.lamports == lamports,
            r.data == data,
            r.owner == owner,
            r.executable == executable,
            r.rent_epoch == rent_epoch,
    {
        Self { pubkey, lamports, data, owner, executable, rent_epoch }
    }

    /// Create an empty account state with the given pubkey.
    pub fn empty(pubkey: Pubkey) -> (r: Self)
        ensures
            r.pubkey == pubkey,
            r.lamports == 0,
            r.data@.len() == 0,
            forall|i: int| 0 <= i < 32 ==> r.owner.bytes@[i] == 0,
            !r.executable,
            r.rent_epoch == 0,
    {
        Self {
            pubkey,
            lamports: 0,
            data: Vec::new(),
            owner: Pubkey::default(),
            executable: false,
            rent_epoch: 0,
        }
    }
}

impl PartialEq for AccountState {
    fn eq(&self, other: &AccountState) -> (r: bool)
        ensures
            r == self.same_state(*other),
    {
        self.pubkey == other.pubkey && self.lamports == other.lamports
            && bytes_eq(&self.data, &other.data) && self.owner == other.owner
            && self.executable == other.executable && self.rent_epoch == other.rent_epoch
    }
}

impl vstd::std_specs::cmp::PartialEqSpecImpl for AccountState {
    open spec fn obeys_eq_spec() -> bool {
        true
    }

    open spec fn eq_spec(&self, other: &AccountState) -> bool {
        self.same_state(*other)
    }
}

/// State changes for a single account during one execution.
#[derive(Clone, Debug)]
pub struct AccountStateChange {
    /// Account public key.
    pub pubkey: Pubkey,
    /// State before execution.
    pub before: AccountState,
    /// State after execution.
    pub after: AccountState,
}

impl AccountStateChange {
    /// Create a new account state change.
    pub fn new(pubkey: Pubkey, before: AccountState, after: AccountState) -> (r: Self)
        ensures
            r.pubkey == pubkey,
            r.before == before,
            r.after == after,
    {
        Self { pubkey, before, after }
    }

    /// Check whether the account data changed.
    pub fn data_changed(&self) -> (r: bool)
        ensures
            r == (self.before.data@ != self.after.data@),
    {
        !bytes_eq(&self.before.data, &self.after.data)
    }

    /// Check whether the account balance changed.
    pub fn lamports_changed(&self) -> (r: bool)
        ensures
            r == (self.before.lamports != self.after.lamports),
    {
        self.before.lamports != self.after.lamports
    }
}

/// Trace of a single instruction execution.
#[derive(Clone, Debug)]
pub struct InstructionTrace {
    /// Program counter (instruction index).
    pub pc: u64,
    /// Raw instruction bytes (8 per instruction).
    pub instruction_bytes: Vec<u8>,
    /// Register state before the instruction executed.
    pub registers_before: RegisterState,
    /// Register state after the instruction executed.
    pub registers_after: RegisterState,
}

/// Complete execution trace of a BPF program.
#[derive(Clone, Debug)]
pub struct ExecutionTrace {
    /// Instruction traces in execution order.
    pub instructions: Vec<InstructionTrace>,
    /// Account state changes during execution.
    pub account_states: Vec<AccountStateChange>,
    /// Register state at program start.
    pub initial_registers: RegisterState,
    /// Register state at program exit.
    pub final_registers: RegisterState,
}

impl ExecutionTrace {
    /// Structural well-formedness: every entry carries exactly the 8 bytes
    /// of one encoded instruction.
    pub open spec fn wf(self) -> bool {
        forall|k: int|
            0 <= k < self.instructions@.len() ==> (
            #[trigger] self.instructions@[k]).instruction_bytes@.len() == 8
    }

    /// True when consecutive entries agree: the state after entry k is the
    /// state before entry k + 1.
    pub open spec fn is_chained(self) -> bool {
        forall|k: int|
            0 <= k < self.instructions@.len() - 1 ==> self.instructions@[k].registers_after
                == self.instructions@[k + 1].registers_before
    }

    /// Create a new empty execution trace.
    pub fn new() -> (t: Self)
        ensures
            t.instructions@.len() == 0,
            t.account_states@.len() == 0,
            t.initial_registers.is_zero(),
            t.final_registers.is_zero(),
    {
        Self {
            instructions: Vec::new(),
            account_states: Vec::new(),
            initial_registers: RegisterState::new(),
            final_registers: RegisterState::new(),
        }
    }

    /// The number of instructions executed.
    pub fn instruction_count(&self) -> (n: usize)
        ensures
            n == self.instructions@.len(),
    {
        self.instructions.len()
    }

    /// The number of account state changes.
    pub fn account_change_count(&self) -> (n: usize)
        ensures
            n == self.account_states@.len(),
    {
        self.account_states.len()
    }
}

impl Default for ExecutionTrace {
    fn default() -> (t: Self)
        ensures
            t.instructions@.len() == 0,
            t.account_states@.len() == 0,
            t.initial_registers.is_zero(),
            t.final_registers.is_zero(),
    {
        ExecutionTrace::new()
    }
}

} // verus!
