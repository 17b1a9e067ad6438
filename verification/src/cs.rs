//! A model of the circuit builder the chips emit constraints into.
//!
//! The builder records assigned cells and equality constraints, exactly the
//! interface the proving backend offers: witness assignment, constant
//! assignment, an addition gate, and copy constraints. Cell values are kept
//! as 128-bit integers. The backend's scalar field has a modulus far above
//! 2^128, and every value assigned here is a 64-bit witness or the sum of
//! two previously assigned values, so arithmetic in this model agrees
//! exactly with arithmetic in the field: no sum ever reaches the modulus.

use vstd::prelude::*;

verus! {

/// How a cell received its value.
#[derive(Clone, Copy, Debug)]
pub enum CellOp {
    /// A private witness value, embedded from a 64-bit machine word.
    Load(u64),
    /// A constant known to the verifier, embedded from a 64-bit word.
    LoadConst(u64),
    /// The sum of the two cells at the given indices.
    AddCells(usize, usize),
    /// The sum of the cell at the given index and a 64-bit constant.
    AddConst(usize, u64),
}

/// The recorded constraint system: assigned cells and copy constraints.
#[derive(Clone, Debug)]
pub struct Cs {
    /// The provenance of each cell, in assignment order.
    pub ops: Vec<CellOp>,
    /// The value of each cell.
    pub vals: Vec<u128>,
    /// Pairs of cells constrained to be equal.
    pub eqs: Vec<(usize, usize)>,
}

impl Cs {
    /// The number of assigned cells.
    pub open spec fn num_cells(self) -> nat {
        self.vals@.len()
    }

    /// The value of cell `i`.
    pub open spec fn val(self, i: int) -> u128 {
        self.vals@[i]
    }

    /// Cell values are consistent with their provenance, and every recorded
    /// index points at an earlier cell.
    pub open spec fn wf(self) -> bool {
        &&& self.ops@.len() == self.vals@.len()
        &&& forall|i: int|
            0 <= i < self.ops@.len() ==> match #[trigger] self.ops@[i] {
                CellOp::Load(v) => self.vals@[i] == v as u128,
                CellOp::LoadConst(v) => self.vals@[i] == v as u128,
                CellOp::AddCells(a, b) => a < i && b < i && self.vals@[i] == self.vals@[a as int]
                    + self.vals@[b as int],
                CellOp::AddConst(a, c) => a < i && self.vals@[i] == self.vals@[a as int]
                    + c as u128,
            }
        &&& forall|j: int|
            0 <= j < self.eqs@.len() ==> (#[trigger] self.eqs@[j]).0 < self.vals@.len() && self.eqs@[j].1
                < self.vals@.len()
    }

    /// The system is satisfied: every copy constraint holds of the assigned
    /// values.
    pub open spec fn ok(self) -> bool {
        forall|j: int|
            0 <= j < self.eqs@.len() ==> self.vals@[(#[trigger] self.eqs@[j]).0 as int]
                == self.vals@[self.eqs@[j].1 as int]
    }

    /// An empty constraint system.
    pub fn new() -> (cs: Cs)
        ensures
            cs.wf(),
            cs.num_cells() == 0,
            cs.eqs@.len() == 0,
            cs.ok(),
    {
        Cs { ops: Vec::new(), vals: Vec::new(), eqs: Vec::new() }
    }

    /// Assign a private witness cell.
    pub fn load(&mut self, v: u64) -> (id: usize)
        requires
            old(self).wf(),
        ensures
            final(self).wf(),
            id == old(self).num_cells(),
            final(self).vals@ == old(self).vals@.push(v as u128),
            final(self).eqs@ == old(self).eqs@,
            final(self).ok() == old(self).ok(),
            final(self).val(id as int) == v as u128,
    {
        let id = self.vals.len();
        self.ops.push(CellOp::Load(v));
        self.vals.push(v as u128);
        proof {
            lemma_push_keeps_ok(*old(self), *self);
        }
        id
    }

    /// Assign a constant cell, visible to the verifier.
    pub fn load_const(&mut self, v: u64) -> (id: usize)
        requires
            old(self).wf(),
        ensures
            final(self).wf(),
            id == old(self).num_cells(),
            final(self).vals@ == old(self).vals@.push(v as u128),
            final(self).eqs@ == old(self).eqs@,
            final(self).ok() == old(self).ok(),
            final(self).val(id as int) == v as u128,
    {
        let id = self.vals.len();
        self.ops.push(CellOp::LoadConst(v));
        self.vals.push(v as u128);
        proof {
            lemma_push_keeps_ok(*old(self), *self);
        }
        id
    }

    /// Assign a cell holding the sum of two cells, through the addition
    /// gate.
    pub fn add(&mut self, a: usize, b: usize) -> (id: usize)
        requires
            old(self).wf(),
            a < old(self).num_cells(),
            b < old(self).num_cells(),
            old(self).val(a as int) + old(self).val(b as int) <= u128::MAX,
        ensures
            final(self).wf(),
            id == old(self).num_cells(),
            final(self).vals@ == old(self).vals@.push(
                (old(self).val(a as int) + old(self).val(b as int)) as u128,
            ),
            final(self).eqs@ == old(self).eqs@,
            final(self).ok() == old(self).ok(),
            final(self).val(id as int) == old(self).val(a as int) + old(self).val(b as int),
    {
        let id = self.vals.len();
        let sum = self.vals[a] + self.vals[b];
        self.ops.push(CellOp::AddCells(a, b));
        self.vals.push(sum);
        proof {
            lemma_push_keeps_ok(*old(self), *self);
        }
        id
    }

    /// Assign a cell holding a cell plus a 64-bit constant, through the
    /// addition gate.
    pub fn add_const(&mut self, a: usize, c: u64) -> (id: usize)
        requires
            old(self).wf(),
            a < old(self).num_cells(),
            old(self).val(a as int) + c as u128 <= u128::MAX,
        ensures
            final(self).wf(),
            id == old(self).num_cells(),
            final(self).vals@ == old(self).vals@.push(
                (old(self).val(a as int) + c as u128) as u128,
            ),
            final(self).eqs@ == old(self).eqs@,
            final(self).ok() == old(self).ok(),
            final(self).val(id as int) == old(self).val(a as int) + c as u128,
    {
        let id = self.vals.len();
        let sum = self.vals[a] + (c as u128);
        self.ops.push(CellOp::AddConst(a, c));
        self.vals.push(sum);
        proof {
            lemma_push_keeps_ok(*old(self), *self);
        }
        id
    }

    /// Record a copy constraint between two cells.
    pub fn constrain_equal(&mut self, a: usize, b: usize)
        requires
            old(self).wf(),
            a < old(self).num_cells(),
            b < old(self).num_cells(),
        ensures
            final(self).wf(),
            final(self).vals@ == old(self).vals@,
            final(self).eqs@ == old(self).eqs@.push((a, b)),
            final(self).ok() == (old(self).ok() && old(self).val(a as int) == old(self).val(
                b as int,
            )),
    {
        self.eqs.push((a, b));
        proof {
            if old(self).ok() && old(self).val(a as int) == old(self).val(b as int) {
                assert forall|j: int|
                    0 <= j < self.eqs@.len() implies self.vals@[(#[trigger] self.eqs@[j]).0 as int]
                    == self.vals@[self.eqs@[j].1 as int] by {
                    if j < old(self).eqs@.len() {
                        assert(self.eqs@[j] == old(self).eqs@[j]);
                    } else {
                        assert(self.eqs@[j] == (a, b));
                    }
                }
            }
            if self.ok() {
                assert forall|j: int|
                    0 <= j < old(self).eqs@.len() implies old(self).vals@[(
                #[trigger] old(self).eqs@[j]).0 as int] == old(self).vals@[old(
                    self,
                ).eqs@[j].1 as int] by {
                    assert(self.eqs@[j] == old(self).eqs@[j]);
                    assert(self.vals@[self.eqs@[j].0 as int] == self.vals@[self.eqs@[j].1 as int]);
                }
                assert(self.eqs@[old(self).eqs@.len() as int] == (a, b));
                assert(old(self).val(a as int) == old(self).val(b as int));
            }
        }
    }

    /// Check whether every recorded constraint is satisfied by the
    /// assignment.
    pub fn satisfied(&self) -> (r: bool)
        requires
            self.wf(),
        ensures
            r == self.ok(),
    {
        let mut j: usize = 0;
        while j < self.eqs.len()
            invariant
                0 <= j <= self.eqs@.len(),
                self.wf(),
                forall|k: int|
                    0 <= k < j ==> self.vals@[(#[trigger] self.eqs@[k]).0 as int] == self.vals@[
                    self.eqs@[k].1 as int],
            decreases self.eqs@.len() - j,
        {
            let (a, b) = self.eqs[j];
            if self.vals[a] != self.vals[b] {
                return false;
            }
            j += 1;
        }
        true
    }
}

/// Appending cells without touching the constraints leaves satisfaction
/// unchanged.
proof fn lemma_push_keeps_ok(pre: Cs, post: Cs)
    requires
        pre.wf(),
        post.eqs@ == pre.eqs@,
        pre.vals@.len() <= post.vals@.len(),
        forall|i: int| 0 <= i < pre.vals@.len() ==> post.vals@[i] == pre.vals@[i],
    ensures
        post.ok() == pre.ok(),
{
    if pre.ok() {
        assert forall|j: int|
            0 <= j < post.eqs@.len() implies post.vals@[(#[trigger] post.eqs@[j]).0 as int]
            == post.vals@[post.eqs@[j].1 as int] by {
            assert(post.eqs@[j] == pre.eqs@[j]);
            assert(pre.vals@[pre.eqs@[j].0 as int] == pre.vals@[pre.eqs@[j].1 as int]);
        }
    }
    if post.ok() {
        assert forall|j: int|
            0 <= j < pre.eqs@.len() implies pre.vals@[(#[trigger] pre.eqs@[j]).0 as int]
            == pre.vals@[pre.eqs@[j].1 as int] by {
            assert(post.eqs@[j] == pre.eqs@[j]);
            assert(post.vals@[post.eqs@[j].0 as int] == post.vals@[post.eqs@[j].1 as int]);
        }
    }
}

} // verus!
