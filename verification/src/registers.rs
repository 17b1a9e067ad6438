//! The register file captured at each execution step.

use vstd::prelude::*;

verus! {

/// State of all BPF registers (r0-r10) and the program counter.
///
/// Indices 0-10 are the general-purpose registers: r0 holds the return
/// value, r1-r5 the arguments, r6-r9 are callee-saved, and r10 is the
/// read-only frame pointer. Index 11 is the program counter.
#[derive(Clone, Copy, Debug)]
pub struct RegisterState {
    /// General purpose registers r0-r10 and the program counter at index 11.
    pub regs: [u64; 12],
}

impl RegisterState {
    /// True when every register, the program counter included, is zero.
    pub open spec fn is_zero(self) -> bool {
        forall|i: int| 0 <= i < 12 ==> self.regs@[i] == 0
    }

    /// Create a new register state with all registers zero.
    pub fn new() -> (r: RegisterState)
        ensures
            r.is_zero(),
    {
        RegisterState { regs: [0; 12] }
    }

    /// Create a register state from an array of raw register values.
    pub fn from_regs(regs: [u64; 12]) -> (r: RegisterState)
        ensures
            r.regs == regs,
    {
        RegisterState { regs }
    }
}

impl Default for RegisterState {
    fn default() -> (r: Self)
        ensures
            r.is_zero(),
    {
        RegisterState::new()
    }
}

} // verus!
