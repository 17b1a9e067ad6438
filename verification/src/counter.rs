//! The aggregate circuit: per-step chip dispatch and boundary binding.
//!
//! The circuit walks a witness linearly. It assigns the initial register
//! cells and binds them to the claimed public inputs, dispatches each
//! instruction to the chip registered for its opcode, threads the
//! register cells forward, and finally constrains the threaded state to
//! the witnessed final registers, which are bound to the claimed final
//! public inputs. The emitted system is satisfied exactly when every step
//! is an honest execution of its opcode and the claimed boundary pair
//! matches the witness.

use vstd::prelude::*;
use crate::chips::alu64_add_imm::Alu64AddImmChip;
use crate::chips::alu64_add_reg::Alu64AddRegChip;
use crate::chips::exit::ExitChip;
use crate::chips::memory::{LdwChip, StwChip};
use crate::chips::mov64_imm::Mov64ImmChip;
use crate::chips::{
    cell_values, cells_ready, constrain_frame_except, frames_all, frames_except, i16_bits,
    i64_bits, BpfInstructionChip,
};
use crate::cs::Cs;
use crate::errors::SynthesisError;
use crate::public_inputs::{PublicInputs, PublicInputsView};
use crate::trace::ExecutionTrace;
use crate::witness::{Witness, WitnessView};

verus! {

/// Opcode byte of the 64-bit add-immediate instruction.
pub const OPCODE_ALU64_ADD_IMM: u8 = 0x07;

/// Opcode byte of the 64-bit add-register instruction.
pub const OPCODE_ALU64_ADD_REG: u8 = 0x0f;

/// Opcode byte of the load-word instruction.
pub const OPCODE_LDW: u8 = 0x79;

/// Opcode byte of the store-word instruction.
pub const OPCODE_STW: u8 = 0x7b;

/// Opcode byte of the 64-bit move-immediate instruction.
pub const OPCODE_MOV64_IMM: u8 = 0xb7;

/// Opcode byte of the exit instruction.
pub const OPCODE_EXIT: u8 = 0x95;

// ---------------------------------------------------------------------------
// Instruction fields (op:1 | dst:4b | src:4b | off:i16 | imm:i32, all LE)
// ---------------------------------------------------------------------------
/// The opcode byte.
pub open spec fn insn_opcode(insn: Seq<u8>) -> u8 {
    insn[0]
}

/// The destination register field (low nibble of byte 1).
pub open spec fn insn_dst(insn: Seq<u8>) -> u8 {
    insn[1] & 0x0f
}

/// The source register field (high nibble of byte 1).
pub open spec fn insn_src(insn: Seq<u8>) -> u8 {
    insn[1] >> 4
}

/// The 16-bit offset field, sign-extended to its 64-bit bit pattern.
pub open spec fn insn_off_bits(insn: Seq<u8>) -> u64 {
    let w = insn[2] + insn[3] * 0x100;
    if w >= 0x8000 {
        (w + 0xFFFF_FFFF_FFFF_0000) as u64
    } else {
        w as u64
    }
}

/// The 32-bit immediate field, sign-extended to its 64-bit bit pattern.
pub open spec fn insn_imm_bits(insn: Seq<u8>) -> u64 {
    let w = insn[4] + insn[5] * 0x100 + insn[6] * 0x1_0000 + insn[7] * 0x100_0000;
    if w >= 0x8000_0000 {
        (w + 0xFFFF_FFFF_0000_0000) as u64
    } else {
        w as u64
    }
}

/// A chip is registered for this instruction and its operand register
/// fields are in range.
pub open spec fn spec_step_supported(insn: Seq<u8>) -> bool {
    let op = insn_opcode(insn);
    let d = insn_dst(insn);
    let s = insn_src(insn);
    if op == OPCODE_ALU64_ADD_IMM {
        d < 11
    } else if op == OPCODE_ALU64_ADD_REG {
        d < 11 && s < 11
    } else if op == OPCODE_MOV64_IMM {
        d < 11
    } else if op == OPCODE_LDW {
        d < 11 && s < 11
    } else if op == OPCODE_STW {
        d < 11 && s < 11
    } else if op == OPCODE_EXIT {
        true
    } else {
        false
    }
}

/// The error a step that no chip accepts is reported with: an unknown
/// opcode names the opcode, a known opcode with an operand register out
/// of range names that register.
pub open spec fn spec_step_error(insn: Seq<u8>) -> SynthesisError {
    let op = insn_opcode(insn);
    let d = insn_dst(insn);
    let s = insn_src(insn);
    if op == OPCODE_ALU64_ADD_IMM || op == OPCODE_ALU64_ADD_REG || op == OPCODE_MOV64_IMM || op
        == OPCODE_LDW || op == OPCODE_STW {
        if d >= 11 {
            SynthesisError::InvalidRegister(d)
        } else {
            SynthesisError::InvalidRegister(s)
        }
    } else {
        SynthesisError::UnsupportedOpcode(op)
    }
}

/// The register transition that the chip registered for this instruction
/// expresses. For the load-word chip the loaded value is a free witness,
/// so at the register level only non-interference is expressed.
pub open spec fn spec_step_transition(insn: Seq<u8>, before: Seq<u64>, after: Seq<u64>) -> bool {
    let op = insn_opcode(insn);
    let d = insn_dst(insn) as int;
    let s = insn_src(insn) as int;
    if op == OPCODE_ALU64_ADD_IMM {
        after[d] == before[d] + insn_imm_bits(insn) && frames_except(before, after, d)
    } else if op == OPCODE_ALU64_ADD_REG {
        after[d] == before[d] + before[s] && frames_except(before, after, d)
    } else if op == OPCODE_MOV64_IMM {
        after[d] == insn_imm_bits(insn) && frames_except(before, after, d)
    } else if op == OPCODE_LDW {
        frames_except(before, after, d)
    } else if op == OPCODE_STW {
        frames_all(before, after)
    } else if op == OPCODE_EXIT {
        frames_all(before, after)
    } else {
        false
    }
}

/// The chip dispatched for one instruction.
#[derive(Clone, Copy, Debug)]
pub enum BpfChip {
    /// 64-bit add immediate.
    AddImm(Alu64AddImmChip),
    /// 64-bit add register.
    AddReg(Alu64AddRegChip),
    /// 64-bit move immediate.
    MovImm(Mov64ImmChip),
    /// Load word.
    Ldw(LdwChip),
    /// Store word.
    Stw(StwChip),
    /// Exit.
    Exit(ExitChip),
}

impl BpfInstructionChip for BpfChip {
    open spec fn valid(&self) -> bool {
        match *self {
            BpfChip::AddImm(c) => c.valid(),
            BpfChip::AddReg(c) => c.valid(),
            BpfChip::MovImm(c) => c.valid(),
            BpfChip::Ldw(c) => c.valid(),
            BpfChip::Stw(c) => c.valid(),
            BpfChip::Exit(c) => c.valid(),
        }
    }

    open spec fn transition(&self, before: Seq<u64>, after: Seq<u64>) -> bool {
        match *self {
            BpfChip::AddImm(c) => c.transition(before, after),
            BpfChip::AddReg(c) => c.transition(before, after),
            BpfChip::MovImm(c) => c.transition(before, after),
            BpfChip::Ldw(c) => c.transition(before, after),
            BpfChip::Stw(c) => c.transition(before, after),
            BpfChip::Exit(c) => c.transition(before, after),
        }
    }

    fn synthesize(&self, cs: &mut Cs, regs_before: &Vec<usize>, regs_after: &Vec<usize>) {
        match self {
            BpfChip::AddImm(c) => c.synthesize(cs, regs_before, regs_after),
            BpfChip::AddReg(c) => c.synthesize(cs, regs_before, regs_after),
            BpfChip::MovImm(c) => c.synthesize(cs, regs_before, regs_after),
            BpfChip::Ldw(c) => c.synthesize(cs, regs_before, regs_after),
            BpfChip::Stw(c) => c.synthesize(cs, regs_before, regs_after),
            BpfChip::Exit(c) => c.synthesize(cs, regs_before, regs_after),
        }
    }
}

/// Reinterpret an unsigned 64-bit bit pattern as a signed value.
fn u64_bits_to_i64(bits: u64) -> (r: i64)
    ensures
        i64_bits(r) == bits,
{
    if bits >= 0x8000_0000_0000_0000 {
        ((bits as i128) - 0x1_0000_0000_0000_0000i128) as i64
    } else {
        bits as i64
    }
}

/// Decode the sign-extended immediate field as a signed value.
fn decode_imm(insn: &Vec<u8>) -> (r: i64)
    requires
        insn@.len() == 8,
    ensures
        i64_bits(r) == insn_imm_bits(insn@),
{
    let w: u64 = insn[4] as u64 + (insn[5] as u64) * 0x100 + (insn[6] as u64) * 0x1_0000 + (
    insn[7] as u64) * 0x100_0000;
    let bits: u64 = if w >= 0x8000_0000 {
        w + 0xFFFF_FFFF_0000_0000
    } else {
        w
    };
    u64_bits_to_i64(bits)
}

/// Decode the offset field as a signed 16-bit value.
fn decode_offset(insn: &Vec<u8>) -> (r: i16)
    requires
        insn@.len() == 8,
    ensures
        i16_bits(r) == insn_off_bits(insn@),
{
    let w: u64 = insn[2] as u64 + (insn[3] as u64) * 0x100;
    if w >= 0x8000 {
        ((w as i32) - 0x1_0000) as i16
    } else {
        w as i16
    }
}

/// Decode one instruction and build the chip registered for its opcode.
///
/// `loaded_value` is the witnessed memory value for a load-word step (the
/// register file after the step at the destination register); other
/// opcodes ignore it. Fails with `UnsupportedOpcode` when no chip is
/// registered for the opcode byte, and with `InvalidRegister` when an
/// operand register field is 11 or larger.
pub fn decode_instruction(insn: &Vec<u8>, loaded_value: u64) -> (r: Result<
    BpfChip,
    SynthesisError,
>)
    requires
        insn@.len() == 8,
    ensures
        r is Ok <==> spec_step_supported(insn@),
        r matches Err(e) ==> e == spec_step_error(insn@),
        r matches Ok(c) ==> c.valid() && forall|b: Seq<u64>, a: Seq<u64>|
            #![trigger c.transition(b, a)]
            b.len() == 11 && a.len() == 11 && (insn_opcode(insn@) == OPCODE_LDW ==> a[insn_dst(
                insn@,
            ) as int] == loaded_value) ==> c.transition(b, a) == spec_step_transition(insn@, b, a),
{
    let op = insn[0];
    let dst_field = insn[1] & 0x0f;
    let src_field = insn[1] >> 4;
    let dst = dst_field as usize;
    let src = src_field as usize;
    if op == OPCODE_ALU64_ADD_IMM {
        if dst >= 11 {
            return Err(SynthesisError::InvalidRegister(dst_field));
        }
        let imm = decode_imm(insn);
        Ok(BpfChip::AddImm(Alu64AddImmChip::new(dst, imm)))
    } else if op == OPCODE_ALU64_ADD_REG {
        if dst >= 11 {
            return Err(SynthesisError::InvalidRegister(dst_field));
        }
        if src >= 11 {
            return Err(SynthesisError::InvalidRegister(src_field));
        }
        Ok(BpfChip::AddReg(Alu64AddRegChip::new(dst, src)))
    } else if op == OPCODE_MOV64_IMM {
        if dst >= 11 {
            return Err(SynthesisError::InvalidRegister(dst_field));
        }
        let imm = decode_imm(insn);
        Ok(BpfChip::MovImm(Mov64ImmChip::new(dst, imm)))
    } else if op == OPCODE_LDW {
        if dst >= 11 {
            return Err(SynthesisError::InvalidRegister(dst_field));
        }
        if src >= 11 {
            return Err(SynthesisError::InvalidRegister(src_field));
        }
        let offset = decode_offset(insn);
        Ok(BpfChip::Ldw(LdwChip::new(dst, src, offset, loaded_value)))
    } else if op == OPCODE_STW {
        if dst >= 11 {
            return Err(SynthesisError::InvalidRegister(dst_field));
        }
        if src >= 11 {
            return Err(SynthesisError::InvalidRegister(src_field));
        }
        let offset = decode_offset(insn);
        Ok(BpfChip::Stw(StwChip::new(dst, src, offset)))
    } else if op == OPCODE_EXIT {
        Ok(BpfChip::Exit(ExitChip::new()))
    } else {
        Err(SynthesisError::UnsupportedOpcode(op))
    }
}

// ---------------------------------------------------------------------------
// The threaded register states of a witness
// ---------------------------------------------------------------------------
/// The register state before step `k`: the initial registers for step 0,
/// afterwards the witnessed state after the previous step.
pub open spec fn step_state(w: WitnessView, k: int) -> Seq<u64> {
    if k == 0 {
        w.initial_registers
    } else {
        w.instruction_register_states[k - 1]
    }
}

/// Every instruction of the witness has a registered chip and operand
/// registers in range.
pub open spec fn spec_steps_supported(w: WitnessView) -> bool {
    forall|k: int|
        0 <= k < w.instruction_bytes.len() ==> spec_step_supported(
            #[trigger] w.instruction_bytes[k],
        )
}

/// Every step of the witness is an honest execution of its opcode on the
/// threaded register states.
pub open spec fn spec_steps_honest(w: WitnessView) -> bool {
    forall|k: int|
        0 <= k < w.instruction_bytes.len() ==> spec_step_transition(
            #[trigger] w.instruction_bytes[k],
            step_state(w, k),
            step_state(w, k + 1),
        )
}

/// The constraint system the circuit emits is satisfied exactly when this
/// holds: the claimed initial state is the witness's, every step is
/// honest, the witnessed final state is the last threaded state, and the
/// claimed final state matches it. For an empty witness this reduces to
/// the identity statement `claimed initial = claimed final`.
pub open spec fn spec_circuit_satisfied(w: WitnessView, p: PublicInputsView) -> bool {
    &&& p.initial_registers == w.initial_registers
    &&& spec_steps_honest(w)
    &&& w.final_registers == step_state(w, w.instruction_bytes.len() as int)
    &&& p.final_registers == w.final_registers
}

/// Boundary binding: for a witness whose steps are honest and whose final
/// vector is the last threaded state, the emitted system is satisfiable
/// exactly when the claimed boundary pair matches the witness's own
/// boundaries.
pub proof fn lemma_boundary_binding(w: WitnessView, p: PublicInputsView)
    requires
        spec_steps_honest(w),
        w.final_registers == step_state(w, w.instruction_bytes.len() as int),
    ensures
        spec_circuit_satisfied(w, p) <==> (p.initial_registers == w.initial_registers
            && p.final_registers == w.final_registers),
{
}

// ---------------------------------------------------------------------------
// Building blocks of synthesis
// ---------------------------------------------------------------------------
/// Assign the 11 cells of one register state as private witnesses.
pub fn load_register_state(cs: &mut Cs, regs: &Vec<u64>) -> (ids: Vec<usize>)
    requires
        old(cs).wf(),
        regs@.len() == 11,
    ensures
        final(cs).wf(),
        old(cs).num_cells() <= final(cs).num_cells(),
        forall|i: int| 0 <= i < old(cs).num_cells() ==> final(cs).val(i) == old(cs).val(i),
        final(cs).eqs@ == old(cs).eqs@,
        final(cs).ok() == old(cs).ok(),
        cells_ready(*final(cs), ids@),
        cell_values(*final(cs), ids@) == regs@,
{
    let mut ids: Vec<usize> = Vec::new();
    let mut i: usize = 0;
    while i < 11
        invariant
            0 <= i <= 11,
            cs.wf(),
            regs@.len() == 11,
            ids@.len() == i,
            old(cs).num_cells() <= cs.num_cells(),
            forall|k: int| 0 <= k < old(cs).num_cells() ==> cs.val(k) == old(cs).val(k),
            cs.eqs@ == old(cs).eqs@,
            cs.ok() == old(cs).ok(),
            forall|k: int|
                0 <= k < i ==> (#[trigger] ids@[k]) < cs.num_cells() && cs.val(ids@[k] as int)
                    == regs@[k] as u128,
        decreases 11 - i,
    {
        let id = cs.load(regs[i]);
        ids.push(id);
        i += 1;
    }
    proof {
        assert(cell_values(*cs, ids@) =~= regs@);
    }
    ids
}

/// Bind assigned cells to verifier-known constants: the system stays
/// satisfied exactly when each cell holds its claimed value.
fn bind_to_constants(cs: &mut Cs, cells: &Vec<usize>, values: &Vec<u64>)
    requires
        old(cs).wf(),
        cells_ready(*old(cs), cells@),
        values@.len() == 11,
    ensures
        final(cs).wf(),
        old(cs).num_cells() <= final(cs).num_cells(),
        forall|i: int| 0 <= i < old(cs).num_cells() ==> final(cs).val(i) == old(cs).val(i),
        final(cs).ok() == (old(cs).ok() && cell_values(*old(cs), cells@) == values@),
{
    let mut i: usize = 0;
    while i < 11
        invariant
            0 <= i <= 11,
            cs.wf(),
            values@.len() == 11,
            cells_ready(*old(cs), cells@),
            old(cs).num_cells() <= cs.num_cells(),
            forall|k: int| 0 <= k < old(cs).num_cells() ==> cs.val(k) == old(cs).val(k),
            cs.ok() == (old(cs).ok() && forall|j: int|
                0 <= j < i ==> old(cs).val(#[trigger] cells@[j] as int) == values@[j] as u128),
        decreases 11 - i,
    {
        let konst = cs.load_const(values[i]);
        cs.constrain_equal(cells[i], konst);
        i += 1;
    }
    proof {
        let pre = *old(cs);
        if forall|j: int|
            0 <= j < 11 ==> pre.val(#[trigger] cells@[j] as int) == values@[j] as u128 {
            assert(cell_values(pre, cells@) =~= values@);
        }
        if cell_values(pre, cells@) == values@ {
            assert forall|j: int| 0 <= j < 11 implies pre.val(#[trigger] cells@[j] as int)
                == values@[j] as u128 by {
                assert(cell_values(pre, cells@)[j] == values@[j]);
            }
        }
    }
}

/// The aggregate circuit over one execution witness.
///
/// Satisfiability of the emitted system is equivalent to: the witness is
/// a valid execution from the claimed initial register state to the
/// claimed final one.
#[derive(Clone, Debug)]
pub struct CounterCircuit {
    /// The private execution witness.
    pub witness: Witness,
}

impl CounterCircuit {
    /// Create a circuit from an execution trace.
    pub fn from_trace(trace: ExecutionTrace) -> (c: Self)
        ensures
            c.witness@ == crate::witness::spec_witness_of_trace(trace),
            trace.wf() ==> c.witness@.wf(),
    {
        Self { witness: Witness::from_trace(&trace) }
    }

    /// A rough estimate of the circuit's size: each instruction needs
    /// about 50 constraints for its register checks and arithmetic.
    pub fn num_constraints(&self) -> (n: usize)
        requires
            self.witness@.program_counters.len() * 50 <= usize::MAX,
        ensures
            n == self.witness@.program_counters.len() * 50,
    {
        self.witness.instruction_count() * 50
    }

    /// Emit the whole circuit into `cs`, against the claimed public
    /// inputs.
    ///
    /// Fails, without a chip invocation for the offending step, exactly
    /// when some instruction has no registered chip or an operand
    /// register out of range; the reported error is the first such
    /// step's. On success, the emitted system is satisfied exactly when
    /// the witness is a valid execution matching the claimed boundaries.
    pub fn synthesize(&self, cs: &mut Cs, claimed: &PublicInputs) -> (r: Result<
        (),
        SynthesisError,
    >)
        requires
            old(cs).wf(),
            self.witness@.wf(),
            claimed@.wf(),
        ensures
            final(cs).wf(),
            r is Ok <==> spec_steps_supported(self.witness@),
            r matches Err(e) ==> exists|k: int|
                0 <= k < self.witness@.instruction_bytes.len() && !spec_step_supported(
                    #[trigger] self.witness@.instruction_bytes[k],
                ) && (forall|j: int|
                    0 <= j < k ==> spec_step_supported(self.witness@.instruction_bytes[j]))
                    && e == spec_step_error(self.witness@.instruction_bytes[k]),
            r is Ok ==> final(cs).ok() == (old(cs).ok() && spec_circuit_satisfied(
                self.witness@,
                claimed@,
            )),
    {
        let ghost w = self.witness@;
        let ghost p = claimed@;
        let mut current = load_register_state(cs, &self.witness.initial_registers);
        bind_to_constants(cs, &current, &claimed.initial_registers);
        let ghost base_ok = cs.ok();
        proof {
            assert(base_ok == (old(cs).ok() && p.initial_registers == w.initial_registers));
        }
        let n = self.witness.instruction_count();
        let mut k: usize = 0;
        while k < n
            invariant
                0 <= k <= n,
                cs.wf(),
                w == self.witness@,
                p == claimed@,
                w.wf(),
                p.wf(),
                n == w.instruction_bytes.len(),
                cells_ready(*cs, current@),
                cell_values(*cs, current@) == step_state(w, k as int),
                forall|j: int|
                    0 <= j < k ==> spec_step_supported(#[trigger] w.instruction_bytes[j]),
                cs.ok() == (base_ok && forall|j: int|
                    0 <= j < k ==> spec_step_transition(
                        #[trigger] w.instruction_bytes[j],
                        step_state(w, j),
                        step_state(w, j + 1),
                    )),
            decreases n - k,
        {
            let insn = &self.witness.instruction_bytes[k];
            let step_regs = &self.witness.instruction_register_states[k];
            proof {
                assert(w.instruction_bytes[k as int].len() == 8);
                assert(w.instruction_register_states[k as int].len() == 11);
                assert(insn@ == w.instruction_bytes[k as int]);
                assert(step_regs@ == w.instruction_register_states[k as int]);
            }
            let dst = (insn[1] & 0x0f) as usize;
            let loaded_value = if dst < 11 {
                step_regs[dst]
            } else {
                0
            };
            let chip = match decode_instruction(insn, loaded_value) {
                Ok(c) => c,
                Err(e) => {
                    proof {
                        assert(!spec_step_supported(w.instruction_bytes[k as int]));
                        assert(e == spec_step_error(w.instruction_bytes[k as int]));
                    }
                    return Err(e);
                },
            };
            let ghost cs_entry = *cs;
            let next = load_register_state(cs, step_regs);
            let ghost pre_chip = *cs;
            chip.synthesize(cs, &current, &next);
            proof {
                assert(cell_values(pre_chip, current@) =~= step_state(w, k as int));
                assert(cell_values(pre_chip, next@) == step_state(w, k + 1));
                assert(chip.transition(cell_values(pre_chip, current@), cell_values(
                    pre_chip,
                    next@,
                )) == spec_step_transition(
                    w.instruction_bytes[k as int],
                    step_state(w, k as int),
                    step_state(w, k + 1),
                ));
                assert forall|j: int| 0 <= j < 11 implies (#[trigger] cell_values(
                    *cs,
                    next@,
                )[j]) == cell_values(pre_chip, next@)[j] by {}
                assert(cell_values(*cs, next@) =~= cell_values(pre_chip, next@));
            }
            current = next;
            k += 1;
        }
        let fcells = load_register_state(cs, &self.witness.final_registers);
        let ghost cs_c = *cs;
        constrain_frame_except(cs, &current, &fcells, 11);
        let ghost cs_d = *cs;
        bind_to_constants(cs, &fcells, &claimed.final_registers);
        proof {
            assert(cell_values(cs_c, current@) =~= step_state(w, n as int));
            assert(cell_values(cs_c, fcells@) == w.final_registers);
            assert(cs_d.vals@ == cs_c.vals@);
            assert(cell_values(cs_d, fcells@) =~= cell_values(cs_c, fcells@));
            if cs.ok() {
                assert(cs_d.ok());
                assert(cs_c.ok());
                assert(base_ok);
                assert(old(cs).ok());
                assert(p.initial_registers == w.initial_registers);
                assert forall|k2: int| 0 <= k2 < w.instruction_bytes.len() implies
                    spec_step_transition(
                        #[trigger] w.instruction_bytes[k2],
                        step_state(w, k2),
                        step_state(w, k2 + 1),
                    ) by {}
                assert(spec_steps_honest(w));
                assert(w.final_registers =~= step_state(w, n as int)) by {
                    assert forall|j: int| 0 <= j < 11 implies step_state(w, n as int)[j]
                        == w.final_registers[j] by {
                        assert(cs_c.val(current@[j] as int) == cs_c.val(fcells@[j] as int));
                        assert(cell_values(cs_c, current@)[j] == cell_values(cs_c, fcells@)[j]);
                    }
                }
                assert(p.final_registers == w.final_registers);
                assert(spec_circuit_satisfied(w, p));
            } else {
                if old(cs).ok() && spec_circuit_satisfied(w, p) {
                    assert(base_ok);
                    assert(cs_c.ok());
                    assert forall|j: int| 0 <= j < 11 && j != 11 implies cs_c.val(
                        #[trigger] current@[j] as int,
                    ) == cs_c.val(fcells@[j] as int) by {
                        assert(cell_values(cs_c, current@)[j] == step_state(w, n as int)[j]);
                        assert(cell_values(cs_c, fcells@)[j] == w.final_registers[j]);
                    }
                    assert(cs_d.ok());
                    assert(cell_values(cs_d, fcells@) == p.final_registers);
                    assert(cs.ok());
                    assert(false);
                }
            }
        }
        Ok(())
    }
}

/// The statement a witness claims for itself: its own boundary vectors.
pub open spec fn spec_own_boundaries(w: WitnessView) -> PublicInputsView {
    PublicInputsView {
        initial_registers: w.initial_registers,
        final_registers: w.final_registers,
    }
}

impl CounterCircuit {
    /// Synthesize the whole circuit into a fresh recorded constraint
    /// system, against the witness's own boundary states as public
    /// inputs.
    ///
    /// The recorded system is what an unverified driver replays into the
    /// proving backend's builder, operation by operation; its
    /// satisfaction contract carries the circuit's meaning. Fails exactly
    /// as [`CounterCircuit::synthesize`] does.
    pub fn synthesize_recorded(&self) -> (r: Result<Cs, SynthesisError>)
        requires
            self.witness@.wf(),
        ensures
            r is Ok <==> spec_steps_supported(self.witness@),
            r matches Ok(cs) ==> cs.wf() && (cs.ok() == spec_circuit_satisfied(
                self.witness@,
                spec_own_boundaries(self.witness@),
            )),
            r matches Err(e) ==> exists|k: int|
                0 <= k < self.witness@.instruction_bytes.len() && !spec_step_supported(
                    #[trigger] self.witness@.instruction_bytes[k],
                ) && (forall|j: int|
                    0 <= j < k ==> spec_step_supported(self.witness@.instruction_bytes[j]))
                    && e == spec_step_error(self.witness@.instruction_bytes[k]),
    {
        let claimed = PublicInputs {
            initial_registers: self.witness.initial_registers.clone(),
            final_registers: self.witness.final_registers.clone(),
        };
        let mut cs = Cs::new();
        match self.synthesize(&mut cs, &claimed) {
            Ok(()) => Ok(cs),
            Err(e) => Err(e),
        }
    }
}

} // verus!
