//! Witness generation: lowering an execution trace into the flat vectors
//! that the circuit addresses.

use vstd::prelude::*;
use crate::registers::RegisterState;
use crate::trace::{AccountStateChange, ExecutionTrace};

verus! {

/// Account state change in witness format.
#[derive(Clone, Debug)]
pub struct AccountChange {
    /// Account pubkey as raw bytes (32 bytes).
    pub pubkey: Vec<u8>,
    /// Account data before execution.
    pub data_before: Vec<u8>,
    /// Account data after execution.
    pub data_after: Vec<u8>,
    /// Balance before execution.
    pub lamports_before: u64,
    /// Balance after execution.
    pub lamports_after: u64,
}

/// Mathematical value of an [`AccountChange`].
pub struct AccountChangeView {
    /// Account pubkey bytes.
    pub pubkey: Seq<u8>,
    /// Account data before execution.
    pub data_before: Seq<u8>,
    /// Account data after execution.
    pub data_after: Seq<u8>,
    /// Balance before execution.
    pub lamports_before: u64,
    /// Balance after execution.
    pub lamports_after: u64,
}

impl View for AccountChange {
    type V = AccountChangeView;

    open spec fn view(&self) -> AccountChangeView {
        AccountChangeView {
            pubkey: self.pubkey@,
            data_before: self.data_before@,
            data_after: self.data_after@,
            lamports_before: self.lamports_before,
            lamports_after: self.lamports_after,
        }
    }
}

/// Circuit witness generated from an execution trace.
///
/// Holds all private witness data needed for circuit synthesis, organized
/// to match the circuit's constraint structure. Register vectors carry
/// r0-r10 only; the program counter is tracked separately.
#[derive(Clone, Debug)]
pub struct Witness {
    /// Initial register state (r0-r10).
    pub initial_registers: Vec<u64>,
    /// Register state after each instruction (r0-r10 each).
    pub instruction_register_states: Vec<Vec<u64>>,
    /// Final register state (r0-r10).
    pub final_registers: Vec<u64>,
    /// Program counter of each instruction.
    pub program_counters: Vec<u64>,
    /// Raw bytes of each executed instruction.
    pub instruction_bytes: Vec<Vec<u8>>,
    /// Account state changes in witness format.
    pub account_changes: Vec<AccountChange>,
}

/// Mathematical value of a [`Witness`].
pub struct WitnessView {
    /// Initial register state (r0-r10).
    pub initial_registers: Seq<u64>,
    /// Register state after each instruction (r0-r10 each).
    pub instruction_register_states: Seq<Seq<u64>>,
    /// Final register state (r0-r10).
    pub final_registers: Seq<u64>,
    /// Program counter of each instruction.
    pub program_counters: Seq<u64>,
    /// Raw bytes of each executed instruction.
    pub instruction_bytes: Seq<Seq<u8>>,
    /// Account state changes in witness format.
    pub account_changes: Seq<AccountChangeView>,
}

impl View for Witness {
    type V = WitnessView;

    open spec fn view(&self) -> WitnessView {
        WitnessView {
            initial_registers: self.initial_registers@,
            instruction_register_states: Seq::new(
                self.instruction_register_states@.len(),
                |k: int| self.instruction_register_states@[k]@,
            ),
            final_registers: self.final_registers@,
            program_counters: self.program_counters@,
            instruction_bytes: Seq::new(
                self.instruction_bytes@.len(),
                |k: int| self.instruction_bytes@[k]@,
            ),
            account_changes: Seq::new(
                self.account_changes@.len(),
                |k: int| self.account_changes@[k]@,
            ),
        }
    }
}

impl WitnessView {
    /// Structural well-formedness: register vectors carry exactly the 11
    /// general-purpose registers, the per-step vectors agree in length,
    /// and each instruction is 8 bytes.
    pub open spec fn wf(self) -> bool {
        &&& self.initial_registers.len() == 11
        &&& self.final_registers.len() == 11
        &&& self.instruction_register_states.len() == self.program_counters.len()
        &&& self.instruction_bytes.len() == self.program_counters.len()
        &&& forall|k: int|
            0 <= k < self.instruction_register_states.len() ==> (
            #[trigger] self.instruction_register_states[k]).len() == 11
        &&& forall|k: int|
            0 <= k < self.instruction_bytes.len() ==> (#[trigger] self.instruction_bytes[k]).len()
                == 8
    }
}

/// The witness that a given execution trace lowers to.
pub open spec fn spec_witness_of_trace(t: ExecutionTrace) -> WitnessView {
    WitnessView {
        initial_registers: t.initial_registers.regs@.subrange(0, 11),
        instruction_register_states: Seq::new(
            t.instructions@.len(),
            |k: int| t.instructions@[k].registers_after.regs@.subrange(0, 11),
        ),
        final_registers: t.final_registers.regs@.subrange(0, 11),
        program_counters: Seq::new(t.instructions@.len(), |k: int| t.instructions@[k].pc),
        instruction_bytes: Seq::new(
            t.instructions@.len(),
            |k: int| t.instructions@[k].instruction_bytes@,
        ),
        account_changes: Seq::new(
            t.account_states@.len(),
            |k: int| spec_account_change_of(t.account_states@[k]),
        ),
    }
}

/// The witness-format value of one account state change.
pub open spec fn spec_account_change_of(c: AccountStateChange) -> AccountChangeView {
    AccountChangeView {
        pubkey: c.pubkey.bytes@,
        data_before: c.before.data@,
        data_after: c.after.data@,
        lamports_before: c.before.lamports,
        lamports_after: c.after.lamports,
    }
}

/// Project the 11 general-purpose registers (r0-r10) out of a register
/// state, dropping the program counter.
pub fn register_state_to_field_elements(regs: &RegisterState) -> (r: Vec<u64>)
    ensures
        r@ == regs.regs@.subrange(0, 11),
{
    let mut out: Vec<u64> = Vec::new();
    let mut i: usize = 0;
    while i < 11
        invariant
            0 <= i <= 11,
            out@ =~= regs.regs@.subrange(0, i as int),
        decreases 11 - i,
    {
        out.push(regs.regs[i]);
        i += 1;
    }
    proof {
        assert(out@ =~= regs.regs@.subrange(0, 11));
    }
    out
}

/// Convert an account state change to witness format.
pub fn account_state_to_witness_format(change: &AccountStateChange) -> (r: AccountChange)
    ensures
        r@ == spec_account_change_of(*change),
{
    let key = change.pubkey.to_bytes();
    let mut pubkey: Vec<u8> = Vec::new();
    let mut i: usize = 0;
    while i < 32
        invariant
            0 <= i <= 32,
            pubkey@ =~= key@.subrange(0, i as int),
            key == change.pubkey.bytes,
        decreases 32 - i,
    {
        pubkey.push(key[i]);
        i += 1;
    }
    proof {
        assert(pubkey@ =~= change.pubkey.bytes@);
    }
    AccountChange {
        pubkey,
        data_before: change.before.data.clone(),
        data_after: change.after.data.clone(),
        lamports_before: change.before.lamports,
        lamports_after: change.after.lamports,
    }
}

/// Register projection: the witness lowered from a trace carries, as its
/// boundary vectors, exactly the first 11 registers of the trace's
/// boundary states; `Witness::from_trace` returns this witness.
pub proof fn lemma_register_projection(trace: ExecutionTrace)
    ensures
        spec_witness_of_trace(trace).initial_registers
            == trace.initial_registers.regs@.subrange(0, 11),
        spec_witness_of_trace(trace).final_registers == trace.final_registers.regs@.subrange(
            0,
            11,
        ),
{
}

impl Witness {
    /// Create a witness from an execution trace.
    ///
    /// Projects r0-r10 from each register snapshot, copies program
    /// counters and raw instruction bytes, and converts account state
    /// changes to witness format. In particular the witness boundary
    /// vectors are exactly the first 11 registers of the trace's boundary
    /// states.
    pub fn from_trace(trace: &ExecutionTrace) -> (w: Witness)
        ensures
            w@ == spec_witness_of_trace(*trace),
            trace.wf() ==> w@.wf(),
    {
        let initial_registers = register_state_to_field_elements(&trace.initial_registers);
        let final_registers = register_state_to_field_elements(&trace.final_registers);

        let n = trace.instructions.len();
        let mut instruction_register_states: Vec<Vec<u64>> = Vec::new();
        let mut program_counters: Vec<u64> = Vec::new();
        let mut instruction_bytes: Vec<Vec<u8>> = Vec::new();
        let mut k: usize = 0;
        while k < n
            invariant
                0 <= k <= n,
                n == trace.instructions@.len(),
                instruction_register_states@.len() == k,
                program_counters@.len() == k,
                instruction_bytes@.len() == k,
                forall|j: int|
                    0 <= j < k ==> (#[trigger] instruction_register_states@[j])@
                        == trace.instructions@[j].registers_after.regs@.subrange(0, 11),
                forall|j: int|
                    0 <= j < k ==> (#[trigger] program_counters@[j]) == trace.instructions@[j].pc,
                forall|j: int|
                    0 <= j < k ==> (#[trigger] instruction_bytes@[j])@
                        == trace.instructions@[j].instruction_bytes@,
            decreases n - k,
        {
            let entry = &trace.instructions[k];
            instruction_register_states.push(
                register_state_to_field_elements(&entry.registers_after),
            );
            program_counters.push(entry.pc);
            instruction_bytes.push(entry.instruction_bytes.clone());
            k += 1;
        }

        let m = trace.account_states.len();
        let mut account_changes: Vec<AccountChange> = Vec::new();
        let mut j: usize = 0;
        while j < m
            invariant
                0 <= j <= m,
                m == trace.account_states@.len(),
                account_changes@.len() == j,
                forall|i: int|
                    0 <= i < j ==> (#[trigger] account_changes@[i])@ == spec_account_change_of(
                        trace.account_states@[i],
                    ),
            decreases m - j,
        {
            account_changes.push(account_state_to_witness_format(&trace.account_states[j]));
            j += 1;
        }

        let w = Witness {
            initial_registers,
            instruction_register_states,
            final_registers,
            program_counters,
            instruction_bytes,
            account_changes,
        };
        proof {
            assert(w@.instruction_register_states =~= spec_witness_of_trace(
                *trace,
            ).instruction_register_states);
            assert(w@.instruction_bytes =~= spec_witness_of_trace(*trace).instruction_bytes);
            assert(w@.program_counters =~= spec_witness_of_trace(*trace).program_counters);
            assert(w@.account_changes =~= spec_witness_of_trace(*trace).account_changes);
            assert(trace.initial_registers.regs@.len() == 12);
            assert(trace.final_registers.regs@.len() == 12);
            assert forall|k: int|
                0 <= k < w@.instruction_register_states.len() implies (
            #[trigger] w@.instruction_register_states[k]).len() == 11 by {
                assert(trace.instructions@[k].registers_after.regs@.len() == 12);
            }
        }
        w
    }

    /// The number of instructions in this witness.
    pub fn instruction_count(&self) -> (n: usize)
        ensures
            n == self@.program_counters.len(),
    {
        self.program_counters.len()
    }

    /// The number of account state changes in this witness.
    pub fn account_change_count(&self) -> (n: usize)
        ensures
            n == self@.account_changes.len(),
    {
        self.account_changes.len()
    }
}

} // verus!
