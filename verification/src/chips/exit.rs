//! EXIT chip: terminate execution.
//!
//! The instruction modifies no register; the return value is already in
//! r0. The chip constrains every register to be unchanged.

use vstd::prelude::*;
use crate::chips::{cell_values, constrain_frame_except, frames_all, BpfInstructionChip};
use crate::cs::Cs;

verus! {

/// Chip for the exit instruction.
#[derive(Clone, Copy, Debug)]
pub struct ExitChip;

impl ExitChip {
    /// Create a new exit chip.
    pub fn new() -> (c: Self) {
        Self
    }
}

impl Default for ExitChip {
    fn default() -> Self {
        ExitChip::new()
    }
}

impl BpfInstructionChip for ExitChip {
    open spec fn valid(&self) -> bool {
        true
    }

    open spec fn transition(&self, before: Seq<u64>, after: Seq<u64>) -> bool {
        frames_all(before, after)
    }

    fn synthesize(&self, cs: &mut Cs, regs_before: &Vec<usize>, regs_after: &Vec<usize>) {
        let ghost pre = *cs;
        let ghost bv = cell_values(*cs, regs_before@);
        let ghost av = cell_values(*cs, regs_after@);
        constrain_frame_except(cs, regs_before, regs_after, 11);
        proof {
            assert forall|j: int| 0 <= j < 11 implies bv[j] == pre.val(
                #[trigger] regs_before@[j] as int,
            ) as u64 && av[j] == pre.val(regs_after@[j] as int) as u64 by {}
            if cs.ok() {
                assert forall|j: int| 0 <= j < 11 implies av[j] == bv[j] by {
                    assert(pre.val(regs_before@[j] as int) == pre.val(regs_after@[j] as int));
                }
                assert(self.transition(bv, av));
            } else {
                if pre.ok() && self.transition(bv, av) {
                    assert forall|j: int| 0 <= j < 11 && j != 11 implies pre.val(
                        #[trigger] regs_before@[j] as int,
                    ) == pre.val(regs_after@[j] as int) by {
                        assert(av[j] == bv[j]);
                    }
                    assert(cs.ok());
                    assert(false);
                }
            }
        }
    }
}

/// EXIT idempotence, stated both ways: an assignment that leaves every
/// register unchanged satisfies the chip's relation, and one that swaps
/// any register out of place falls outside it, so the chip's constraints
/// are unsatisfiable on such an assignment.
pub proof fn lemma_exit_idempotence(c: ExitChip, before: Seq<u64>, after: Seq<u64>, i: int)
    requires
        before.len() == 11,
        after.len() == 11,
        0 <= i < 11,
        after[i] != before[i],
    ensures
        c.transition(before, before),
        !c.transition(before, after),
{
}

} // verus!
