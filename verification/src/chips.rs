//! BPF instruction chips.
//!
//! Each chip emits, for one executed instruction, the constraints relating
//! the 11 general-purpose register cells before the step to those after
//! it. A chip declares its register transition as a specification, and its
//! `synthesize` contract ties satisfaction of the emitted constraints to
//! exactly that transition: the system stays satisfiable on an honest
//! transition and becomes unsatisfiable on any other.

use vstd::prelude::*;
use crate::cs::Cs;

verus! {

/// The 64-bit values held by the given cells.
pub open spec fn cell_values(cs: Cs, ids: Seq<usize>) -> Seq<u64> {
    Seq::new(ids.len(), |i: int| cs.val(ids[i] as int) as u64)
}

/// The given cells are assigned, and hold values embedded from 64-bit
/// words.
pub open spec fn cells_ready(cs: Cs, ids: Seq<usize>) -> bool {
    &&& ids.len() == 11
    &&& forall|i: int| 0 <= i < 11 ==> (#[trigger] ids[i]) < cs.num_cells()
    &&& forall|i: int| 0 <= i < 11 ==> cs.val(#[trigger] ids[i] as int) < 0x1_0000_0000_0000_0000u128
}

/// Every register other than `d` is unchanged.
pub open spec fn frames_except(before: Seq<u64>, after: Seq<u64>, d: int) -> bool {
    forall|i: int| 0 <= i < 11 && i != d ==> after[i] == before[i]
}

/// Every register is unchanged.
pub open spec fn frames_all(before: Seq<u64>, after: Seq<u64>) -> bool {
    forall|i: int| 0 <= i < 11 ==> after[i] == before[i]
}

/// The unsigned 64-bit word with the same bits as `x` (two's complement).
pub open spec fn i64_bits(x: i64) -> u64 {
    if x >= 0 {
        x as u64
    } else {
        (x + 0x1_0000_0000_0000_0000) as u64
    }
}

/// The unsigned 64-bit word holding `x` sign-extended (two's complement).
pub open spec fn i16_bits(x: i16) -> u64 {
    if x >= 0 {
        x as u64
    } else {
        (x + 0x1_0000_0000_0000_0000) as u64
    }
}

/// Reinterpret a signed 64-bit value as its unsigned bit pattern.
pub fn i64_to_u64_bits(x: i64) -> (r: u64)
    ensures
        r == i64_bits(x),
{
    if x >= 0 {
        x as u64
    } else {
        let w: i128 = (x as i128) + 0x1_0000_0000_0000_0000i128;
        w as u64
    }
}

/// Sign-extend a signed 16-bit value into an unsigned 64-bit bit pattern.
pub fn i16_to_u64_bits(x: i16) -> (r: u64)
    ensures
        r == i16_bits(x),
{
    if x >= 0 {
        x as u64
    } else {
        let w: i128 = (x as i128) + 0x1_0000_0000_0000_0000i128;
        w as u64
    }
}

/// A constraint chip for one BPF instruction.
///
/// `transition` is the register relation the chip's constraints express;
/// `synthesize` emits those constraints. The contract states chip
/// correctness and non-interference at once: the resulting system is
/// satisfied exactly when it was satisfied before and the witnessed
/// register vectors stand in the chip's transition relation. In
/// particular, an assignment that changes any register the chip does not
/// write makes the system unsatisfiable.
pub trait BpfInstructionChip: Sized {
    /// The operand register indices are in range.
    spec fn valid(&self) -> bool;

    /// The register transition this chip's constraints express.
    spec fn transition(&self, before: Seq<u64>, after: Seq<u64>) -> bool;

    /// Emit the constraints for one step into `cs`.
    fn synthesize(&self, cs: &mut Cs, regs_before: &Vec<usize>, regs_after: &Vec<usize>)
        requires
            old(cs).wf(),
            self.valid(),
            cells_ready(*old(cs), regs_before@),
            cells_ready(*old(cs), regs_after@),
        ensures
            final(cs).wf(),
            old(cs).num_cells() <= final(cs).num_cells(),
            forall|i: int|
                0 <= i < old(cs).num_cells() ==> final(cs).val(i) == old(cs).val(i),
            final(cs).ok() == (old(cs).ok() && self.transition(
                cell_values(*old(cs), regs_before@),
                cell_values(*old(cs), regs_after@),
            )),
    ;
}

/// Constrain every register cell except index `skip` to be unchanged.
/// Passing 11 for `skip` constrains all eleven registers.
pub fn constrain_frame_except(
    cs: &mut Cs,
    regs_before: &Vec<usize>,
    regs_after: &Vec<usize>,
    skip: usize,
)
    requires
        old(cs).wf(),
        regs_before@.len() == 11,
        regs_after@.len() == 11,
        forall|i: int| 0 <= i < 11 ==> (#[trigger] regs_before@[i]) < old(cs).num_cells(),
        forall|i: int| 0 <= i < 11 ==> (#[trigger] regs_after@[i]) < old(cs).num_cells(),
    ensures
        final(cs).wf(),
        final(cs).num_cells() == old(cs).num_cells(),
        final(cs).vals@ == old(cs).vals@,
        final(cs).ok() == (old(cs).ok() && forall|j: int|
            0 <= j < 11 && j != skip ==> old(cs).val(#[trigger] regs_before@[j] as int) == old(
                cs,
            ).val(regs_after@[j] as int)),
{
    let mut i: usize = 0;
    while i < 11
        invariant
            0 <= i <= 11,
            cs.wf(),
            cs.num_cells() == old(cs).num_cells(),
            cs.vals@ == old(cs).vals@,
            regs_before@.len() == 11,
            regs_after@.len() == 11,
            forall|k: int| 0 <= k < 11 ==> (#[trigger] regs_before@[k]) < cs.num_cells(),
            forall|k: int| 0 <= k < 11 ==> (#[trigger] regs_after@[k]) < cs.num_cells(),
            cs.ok() == (old(cs).ok() && forall|j: int|
                0 <= j < i && j != skip ==> old(cs).val(#[trigger] regs_before@[j] as int) == old(
                    cs,
                ).val(regs_after@[j] as int)),
        decreases 11 - i,
    {
        if i != skip {
            cs.constrain_equal(regs_before[i], regs_after[i]);
        }
        i += 1;
    }
}

} // verus!

pub mod alu64_add_imm;
pub mod alu64_add_reg;
pub mod exit;
pub mod memory;
pub mod mov64_imm;

pub use alu64_add_imm::Alu64AddImmChip;
pub use alu64_add_reg::Alu64AddRegChip;
pub use exit::ExitChip;
pub use memory::{LdwChip, StwChip};
pub use mov64_imm::Mov64ImmChip;
