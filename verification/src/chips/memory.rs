//! Memory operation chips: load word and store word.
//!
//! Both chips compute the operand address `base + offset` in the field and
//! keep it as a hint for a future memory-trace argument; no constraint
//! binds loads to prior stores yet. The load chip constrains the
//! destination register to the witnessed loaded value; the store chip
//! constrains every register to be unchanged.

use vstd::prelude::*;
use crate::chips::{
    cell_values, constrain_frame_except, frames_all, frames_except, i16_to_u64_bits,
    BpfInstructionChip,
};
use crate::cs::Cs;

verus! {

/// Chip for the load-word instruction: `dst <- mem[src + offset]`.
#[derive(Clone, Copy, Debug)]
pub struct LdwChip {
    /// Destination register index (0-10).
    pub dst_reg: usize,
    /// Source register index holding the base address (0-10).
    pub src_reg: usize,
    /// Offset from the base address.
    pub offset: i16,
    /// The value loaded from memory (a witness).
    pub loaded_value: u64,
}

impl LdwChip {
    /// Create a new load-word chip.
    pub fn new(dst_reg: usize, src_reg: usize, offset: i16, loaded_value: u64) -> (c: Self)
        requires
            dst_reg < 11,
            src_reg < 11,
        ensures
            c.dst_reg == dst_reg,
            c.src_reg == src_reg,
            c.offset == offset,
            c.loaded_value == loaded_value,
    {
        Self { dst_reg, src_reg, offset, loaded_value }
    }
}

impl BpfInstructionChip for LdwChip {
    open spec fn valid(&self) -> bool {
        self.dst_reg < 11 && self.src_reg < 11
    }

    open spec fn transition(&self, before: Seq<u64>, after: Seq<u64>) -> bool {
        &&& after[self.dst_reg as int] == self.loaded_value
        &&& frames_except(before, after, self.dst_reg as int)
    }

    fn synthesize(&self, cs: &mut Cs, regs_before: &Vec<usize>, regs_after: &Vec<usize>) {
        let ghost pre = *cs;
        let ghost bv = cell_values(*cs, regs_before@);
        let ghost av = cell_values(*cs, regs_after@);
        let offset_word = i16_to_u64_bits(self.offset);
        let address = cs.add_const(regs_before[self.src_reg], offset_word);
        let ghost addr_val = cs.val(address as int);
        let loaded = cs.load(self.loaded_value);
        cs.constrain_equal(loaded, regs_after[self.dst_reg]);
        let ghost mid = *cs;
        constrain_frame_except(cs, regs_before, regs_after, self.dst_reg);
        proof {
            let d = self.dst_reg as int;
            assert forall|j: int| 0 <= j < 11 implies mid.val(#[trigger] regs_before@[j] as int)
                == pre.val(regs_before@[j] as int) && mid.val(regs_after@[j] as int) == pre.val(
                regs_after@[j] as int,
            ) && bv[j] == pre.val(regs_before@[j] as int) as u64 && av[j] == pre.val(
                regs_after@[j] as int,
            ) as u64 by {
                assert(mid.vals@ == pre.vals@.push(addr_val).push(self.loaded_value as u128));
            }
            assert(mid.val(loaded as int) == self.loaded_value as u128);
            if cs.ok() {
                assert(av[d] == self.loaded_value);
                assert forall|j: int| 0 <= j < 11 && j != d implies av[j] == bv[j] by {
                    assert(mid.val(regs_before@[j] as int) == mid.val(regs_after@[j] as int));
                }
                assert(self.transition(bv, av));
            } else {
                if pre.ok() && self.transition(bv, av) {
                    assert(av[d] == self.loaded_value);
                    assert(mid.val(loaded as int) == mid.val(regs_after@[d] as int));
                    assert forall|j: int| 0 <= j < 11 && j != d implies mid.val(
                        #[trigger] regs_before@[j] as int,
                    ) == mid.val(regs_after@[j] as int) by {
                        assert(av[j] == bv[j]);
                    }
                    assert(cs.ok());
                    assert(false);
                }
            }
        }
    }
}

/// Chip for the store-word instruction: `mem[dst + offset] <- src`.
#[derive(Clone, Copy, Debug)]
pub struct StwChip {
    /// Destination register index holding the base address (0-10).
    pub dst_reg: usize,
    /// Source register index holding the value to store (0-10).
    pub src_reg: usize,
    /// Offset from the base address.
    pub offset: i16,
}

impl StwChip {
    /// Create a new store-word chip.
    pub fn new(dst_reg: usize, src_reg: usize, offset: i16) -> (c: Self)
        requires
            dst_reg < 11,
            src_reg < 11,
        ensures
            c.dst_reg == dst_reg,
            c.src_reg == src_reg,
            c.offset == offset,
    {
        Self { dst_reg, src_reg, offset }
    }
}

impl BpfInstructionChip for StwChip {
    open spec fn valid(&self) -> bool {
        self.dst_reg < 11 && self.src_reg < 11
    }

    open spec fn transition(&self, before: Seq<u64>, after: Seq<u64>) -> bool {
        frames_all(before, after)
    }

    fn synthesize(&self, cs: &mut Cs, regs_before: &Vec<usize>, regs_after: &Vec<usize>) {
        let ghost pre = *cs;
        let ghost bv = cell_values(*cs, regs_before@);
        let ghost av = cell_values(*cs, regs_after@);
        let offset_word = i16_to_u64_bits(self.offset);
        let address = cs.add_const(regs_before[self.dst_reg], offset_word);
        let ghost addr_val = cs.val(address as int);
        let ghost mid = *cs;
        constrain_frame_except(cs, regs_before, regs_after, 11);
        proof {
            assert forall|j: int| 0 <= j < 11 implies mid.val(#[trigger] regs_before@[j] as int)
                == pre.val(regs_before@[j] as int) && mid.val(regs_after@[j] as int) == pre.val(
                regs_after@[j] as int,
            ) && bv[j] == pre.val(regs_before@[j] as int) as u64 && av[j] == pre.val(
                regs_after@[j] as int,
            ) as u64 by {
                assert(mid.vals@ == pre.vals@.push(addr_val));
            }
            if cs.ok() {
                assert forall|j: int| 0 <= j < 11 implies av[j] == bv[j] by {
                    assert(mid.val(regs_before@[j] as int) == mid.val(regs_after@[j] as int));
                }
                assert(self.transition(bv, av));
            } else {
                if pre.ok() && self.transition(bv, av) {
                    assert forall|j: int| 0 <= j < 11 && j != 11 implies mid.val(
                        #[trigger] regs_before@[j] as int,
                    ) == mid.val(regs_after@[j] as int) by {
                        assert(av[j] == bv[j]);
                    }
                    assert(cs.ok());
                    assert(false);
                }
            }
        }
    }
}

/// Non-interference for the load chip: an assignment that changes any
/// register other than the destination is outside its transition
/// relation; the honest loaded value always satisfies it.
pub proof fn lemma_ldw_non_interference(c: LdwChip, before: Seq<u64>, after: Seq<u64>, i: int)
    requires
        c.valid(),
        before.len() == 11,
        after.len() == 11,
        0 <= i < 11,
        i != c.dst_reg,
        after[i] != before[i],
    ensures
        !c.transition(before, after),
        c.transition(before, before.update(c.dst_reg as int, c.loaded_value)),
{
}

/// The store chip leaves every register unchanged: the identity
/// assignment satisfies its relation and any changed register falls
/// outside it.
pub proof fn lemma_stw_registers_unchanged(c: StwChip, before: Seq<u64>, after: Seq<u64>, i: int)
    requires
        c.valid(),
        before.len() == 11,
        after.len() == 11,
        0 <= i < 11,
        after[i] != before[i],
    ensures
        c.transition(before, before),
        !c.transition(before, after),
{
}

} // verus!
