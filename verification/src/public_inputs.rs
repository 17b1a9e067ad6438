//! The verifier-visible statement: the boundary register states.

use vstd::prelude::*;
use crate::trace::ExecutionTrace;

verus! {

/// Public inputs of an execution proof: the claimed initial and final
/// general-purpose register states (r0-r10 each).
#[derive(Clone, Debug)]
pub struct PublicInputs {
    /// Claimed register state at program start (r0-r10).
    pub initial_registers: Vec<u64>,
    /// Claimed register state at program exit (r0-r10).
    pub final_registers: Vec<u64>,
}

/// Mathematical value of a [`PublicInputs`].
pub struct PublicInputsView {
    /// Claimed initial register state.
    pub initial_registers: Seq<u64>,
    /// Claimed final register state.
    pub final_registers: Seq<u64>,
}

impl View for PublicInputs {
    type V = PublicInputsView;

    open spec fn view(&self) -> PublicInputsView {
        PublicInputsView {
            initial_registers: self.initial_registers@,
            final_registers: self.final_registers@,
        }
    }
}

impl PublicInputsView {
    /// Both boundary vectors carry exactly the 11 general-purpose
    /// registers.
    pub open spec fn wf(self) -> bool {
        self.initial_registers.len() == 11 && self.final_registers.len() == 11
    }
}

impl PublicInputs {
    /// The statement claimed by a trace: its own boundary register
    /// states, with the program counter dropped.
    pub fn from_trace(trace: &ExecutionTrace) -> (p: PublicInputs)
        ensures
            p@.initial_registers == trace.initial_registers.regs@.subrange(0, 11),
            p@.final_registers == trace.final_registers.regs@.subrange(0, 11),
            p@.wf(),
    {
        let initial_registers = crate::witness::register_state_to_field_elements(
            &trace.initial_registers,
        );
        let final_registers = crate::witness::register_state_to_field_elements(
            &trace.final_registers,
        );
        proof {
            assert(trace.initial_registers.regs@.len() == 12);
            assert(trace.final_registers.regs@.len() == 12);
        }
        PublicInputs { initial_registers, final_registers }
    }
}

} // verus!
