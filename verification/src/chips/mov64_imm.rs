//! MOV64 immediate chip: `dst <- imm`.
//!
//! The signed immediate is reinterpreted as its unsigned 64-bit bit
//! pattern before embedding into the field.

use vstd::prelude::*;
use crate::chips::{
    cell_values, constrain_frame_except, frames_except, i64_bits, i64_to_u64_bits,
    BpfInstructionChip,
};
use crate::cs::Cs;

verus! {

/// Chip for the 64-bit move-immediate instruction.
#[derive(Clone, Copy, Debug)]
pub struct Mov64ImmChip {
    /// Destination register index (0-10).
    pub dst_reg: usize,
    /// Immediate value to load.
    pub imm: i64,
}

impl Mov64ImmChip {
    /// Create a new move-immediate chip.
    pub fn new(dst_reg: usize, imm: i64) -> (c: Self)
        requires
            dst_reg < 11,
        ensures
            c.dst_reg == dst_reg,
            c.imm == imm,
    {
        Self { dst_reg, imm }
    }
}

impl BpfInstructionChip for Mov64ImmChip {
    open spec fn valid(&self) -> bool {
        self.dst_reg < 11
    }

    open spec fn transition(&self, before: Seq<u64>, after: Seq<u64>) -> bool {
        &&& after[self.dst_reg as int] == i64_bits(self.imm)
        &&& frames_except(before, after, self.dst_reg as int)
    }

    fn synthesize(&self, cs: &mut Cs, regs_before: &Vec<usize>, regs_after: &Vec<usize>) {
        let ghost pre = *cs;
        let ghost bv = cell_values(*cs, regs_before@);
        let ghost av = cell_values(*cs, regs_after@);
        let imm_word = i64_to_u64_bits(self.imm);
        let konst = cs.load_const(imm_word);
        cs.constrain_equal(konst, regs_after[self.dst_reg]);
        let ghost mid = *cs;
        constrain_frame_except(cs, regs_before, regs_after, self.dst_reg);
        proof {
            let d = self.dst_reg as int;
            assert forall|j: int| 0 <= j < 11 implies mid.val(#[trigger] regs_before@[j] as int)
                == pre.val(regs_before@[j] as int) && mid.val(regs_after@[j] as int) == pre.val(
                regs_after@[j] as int,
            ) && bv[j] == pre.val(regs_before@[j] as int) as u64 && av[j] == pre.val(
                regs_after@[j] as int,
            ) as u64 by {
                assert(mid.vals@ == pre.vals@.push(imm_word as u128));
            }
            assert(mid.val(konst as int) == imm_word as u128);
            if cs.ok() {
                assert(av[d] == i64_bits(self.imm));
                assert forall|j: int| 0 <= j < 11 && j != d implies av[j] == bv[j] by {
                    assert(mid.val(regs_before@[j] as int) == mid.val(regs_after@[j] as int));
                }
                assert(self.transition(bv, av));
            } else {
                if pre.ok() && self.transition(bv, av) {
                    assert(av[d] == i64_bits(self.imm));
                    assert(mid.val(konst as int) == mid.val(regs_after@[d] as int));
                    assert forall|j: int| 0 <= j < 11 && j != d implies mid.val(
                        #[trigger] regs_before@[j] as int,
                    ) == mid.val(regs_after@[j] as int) by {
                        assert(av[j] == bv[j]);
                    }
                    assert(cs.ok());
                    assert(false);
                }
            }
        }
    }
}

/// Non-interference: an assignment that changes any register other than
/// the destination is outside the chip's transition relation, so its
/// constraints are unsatisfiable on such an assignment.
pub proof fn lemma_mov_imm_non_interference(
    c: Mov64ImmChip,
    before: Seq<u64>,
    after: Seq<u64>,
    i: int,
)
    requires
        c.valid(),
        before.len() == 11,
        after.len() == 11,
        0 <= i < 11,
        i != c.dst_reg,
        after[i] != before[i],
    ensures
        !c.transition(before, after),
{
}

/// Chip correctness: the honest result of the instruction satisfies the
/// chip's transition relation.
pub proof fn lemma_mov_imm_honest(c: Mov64ImmChip, before: Seq<u64>)
    requires
        c.valid(),
        before.len() == 11,
    ensures
        c.transition(before, before.update(c.dst_reg as int, i64_bits(c.imm))),
{
}

} // verus!
