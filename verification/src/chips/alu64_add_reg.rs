//! ALU64 add-register chip: `dst <- dst + src`.
//!
//! Addition is expressed in the field, which agrees with machine addition
//! as long as the witnessed values fit in 64 bits; `dst == src` (doubling)
//! is handled naturally.

use vstd::prelude::*;
use crate::chips::{cell_values, constrain_frame_except, frames_except, BpfInstructionChip};
use crate::cs::Cs;

verus! {

/// Chip for the 64-bit add-register instruction.
#[derive(Clone, Copy, Debug)]
pub struct Alu64AddRegChip {
    /// Destination register index (0-10).
    pub dst_reg: usize,
    /// Source register index (0-10).
    pub src_reg: usize,
}

impl Alu64AddRegChip {
    /// Create a new add-register chip.
    pub fn new(dst_reg: usize, src_reg: usize) -> (c: Self)
        requires
            dst_reg < 11,
            src_reg < 11,
        ensures
            c.dst_reg == dst_reg,
            c.src_reg == src_reg,
    {
        Self { dst_reg, src_reg }
    }
}

impl BpfInstructionChip for Alu64AddRegChip {
    open spec fn valid(&self) -> bool {
        self.dst_reg < 11 && self.src_reg < 11
    }

    open spec fn transition(&self, before: Seq<u64>, after: Seq<u64>) -> bool {
        &&& after[self.dst_reg as int] == before[self.dst_reg as int]
            + before[self.src_reg as int]
        &&& frames_except(before, after, self.dst_reg as int)
    }

    fn synthesize(&self, cs: &mut Cs, regs_before: &Vec<usize>, regs_after: &Vec<usize>) {
        let ghost pre = *cs;
        let ghost bv = cell_values(*cs, regs_before@);
        let ghost av = cell_values(*cs, regs_after@);
        let expected = cs.add(regs_before[self.dst_reg], regs_before[self.src_reg]);
        cs.constrain_equal(expected, regs_after[self.dst_reg]);
        let ghost mid = *cs;
        constrain_frame_except(cs, regs_before, regs_after, self.dst_reg);
        proof {
            let d = self.dst_reg as int;
            let s = self.src_reg as int;
            assert forall|j: int| 0 <= j < 11 implies mid.val(#[trigger] regs_before@[j] as int)
                == pre.val(regs_before@[j] as int) && mid.val(regs_after@[j] as int) == pre.val(
                regs_after@[j] as int,
            ) && bv[j] == pre.val(regs_before@[j] as int) as u64 && av[j] == pre.val(
                regs_after@[j] as int,
            ) as u64 by {
                assert(mid.vals@ == pre.vals@.push(mid.val(expected as int)));
            }
            assert(mid.val(expected as int) == pre.val(regs_before@[d] as int) + pre.val(
                regs_before@[s] as int,
            ));
            if cs.ok() {
                assert(av[d] == bv[d] + bv[s]);
                assert forall|j: int| 0 <= j < 11 && j != d implies av[j] == bv[j] by {
                    assert(mid.val(regs_before@[j] as int) == mid.val(regs_after@[j] as int));
                }
                assert(self.transition(bv, av));
            } else {
                if pre.ok() && self.transition(bv, av) {
                    assert(av[d] == bv[d] + bv[s]);
                    assert(mid.val(expected as int) == mid.val(regs_after@[d] as int));
                    assert forall|j: int| 0 <= j < 11 && j != d implies mid.val(
                        #[trigger] regs_before@[j] as int,
                    ) == mid.val(regs_after@[j] as int) by {
                        assert(av[j] == bv[j]);
                    }
                    assert(cs.ok());
                    assert(false);
                }
            }
        }
    }
}

/// Non-interference: an assignment that changes any register other than
/// the destination is outside the chip's transition relation, so its
/// constraints are unsatisfiable on such an assignment.
pub proof fn lemma_add_reg_non_interference(
    c: Alu64AddRegChip,
    before: Seq<u64>,
    after: Seq<u64>,
    i: int,
)
    requires
        c.valid(),
        before.len() == 11,
        after.len() == 11,
        0 <= i < 11,
        i != c.dst_reg,
        after[i] != before[i],
    ensures
        !c.transition(before, after),
{
}

/// Chip correctness: the honest result of the instruction satisfies the
/// chip's transition relation whenever the sum fits in 64 bits. With
/// `dst == src` this doubles the register.
pub proof fn lemma_add_reg_honest(c: Alu64AddRegChip, before: Seq<u64>)
    requires
        c.valid(),
        before.len() == 11,
        before[c.dst_reg as int] + before[c.src_reg as int] <= u64::MAX,
    ensures
        c.transition(
            before,
            before.update(
                c.dst_reg as int,
                (before[c.dst_reg as int] + before[c.src_reg as int]) as u64,
            ),
        ),
{
}

} // verus!
