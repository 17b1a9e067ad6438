//! Assembling an execution trace from captured register snapshots.
//!
//! The embedded virtual machine records, for every executed instruction,
//! the full register file as it stood before that instruction. This module
//! turns such a snapshot sequence, together with the program text and the
//! post-execution register file, into an [`ExecutionTrace`] whose entries
//! chain: the state after entry k is the state before entry k + 1.

use vstd::prelude::*;
use crate::registers::RegisterState;
use crate::trace::{ExecutionTrace, InstructionTrace};

verus! {

/// The 8 instruction bytes addressed by program counter `pc`, or 8 zero
/// bytes when the window lies outside the program text.
pub open spec fn spec_instruction_window(program: Seq<u8>, pc: u64) -> Seq<u8> {
    if pc * 8 + 8 <= program.len() {
        program.subrange(pc * 8, pc * 8 + 8)
    } else {
        Seq::new(8, |i: int| 0u8)
    }
}

/// Extract the instruction bytes addressed by `pc`, zero-filled when the
/// window lies outside the program text.
pub fn instruction_window(program: &Vec<u8>, pc: u64) -> (r: Vec<u8>)
    ensures
        r@ == spec_instruction_window(program@, pc),
{
    let offset: u128 = (pc as u128) * 8;
    let mut out: Vec<u8> = Vec::new();
    if offset + 8 <= program.len() as u128 {
        proof {
            assert(offset <= usize::MAX as u128);
        }
        let base: usize = offset as usize;
        let mut i: usize = 0;
        while i < 8
            invariant
                0 <= i <= 8,
                base == pc * 8,
                base + 8 <= program@.len(),
                out@ =~= program@.subrange(base as int, base + i),
            decreases 8 - i,
        {
            out.push(program[base + i]);
            i += 1;
        }
        proof {
            assert(out@ =~= spec_instruction_window(program@, pc));
        }
    } else {
        let mut i: usize = 0;
        while i < 8
            invariant
                0 <= i <= 8,
                out@ =~= Seq::new(i as nat, |j: int| 0u8),
            decreases 8 - i,
        {
            out.push(0);
            i += 1;
        }
        proof {
            assert(out@ =~= spec_instruction_window(program@, pc));
        }
    }
    out
}

/// Build an execution trace from per-step register snapshots.
///
/// `snapshots[k]` is the register file before the k-th executed
/// instruction; its index 11 is the program counter of that instruction.
/// `final_registers` is the register file after execution, with r0 already
/// overwritten by the returned value on a clean exit. The state after the
/// k-th entry is `snapshots[k + 1]`, or `final_registers` for the last
/// entry; the resulting trace therefore chains by construction.
pub fn build_trace(
    snapshots: &Vec<RegisterState>,
    program_bytes: &Vec<u8>,
    final_registers: RegisterState,
) -> (t: ExecutionTrace)
    ensures
        t.instructions@.len() == snapshots@.len(),
        t.account_states@.len() == 0,
        t.final_registers == final_registers,
        snapshots@.len() > 0 ==> t.initial_registers == snapshots@[0],
        snapshots@.len() == 0 ==> t.initial_registers.is_zero(),
        forall|k: int|
            0 <= k < snapshots@.len() ==> (#[trigger] t.instructions@[k]).registers_before
                == snapshots@[k],
        forall|k: int|
            0 <= k < snapshots@.len() - 1 ==> (#[trigger] t.instructions@[k]).registers_after
                == snapshots@[k + 1],
        snapshots@.len() > 0 ==> t.instructions@[snapshots@.len() - 1].registers_after
            == final_registers,
        forall|k: int|
            0 <= k < snapshots@.len() ==> (#[trigger] t.instructions@[k]).pc
                == snapshots@[k].regs@[11],
        forall|k: int|
            0 <= k < snapshots@.len() ==> (#[trigger] t.instructions@[k]).instruction_bytes@
                == spec_instruction_window(program_bytes@, snapshots@[k].regs@[11]),
        t.is_chained(),
        t.wf(),
{
    let n = snapshots.len();
    let mut instructions: Vec<InstructionTrace> = Vec::new();
    let mut k: usize = 0;
    while k < n
        invariant
            0 <= k <= n,
            n == snapshots@.len(),
            instructions@.len() == k,
            forall|j: int|
                0 <= j < k ==> (#[trigger] instructions@[j]).registers_before == snapshots@[j],
            forall|j: int|
                0 <= j < k && j < n - 1 ==> (#[trigger] instructions@[j]).registers_after
                    == snapshots@[j + 1],
            k == n && n > 0 ==> instructions@[n - 1].registers_after == final_registers,
            forall|j: int| 0 <= j < k ==> (#[trigger] instructions@[j]).pc == snapshots@[j].regs@[11],
            forall|j: int|
                0 <= j < k ==> (#[trigger] instructions@[j]).instruction_bytes@
                    == spec_instruction_window(program_bytes@, snapshots@[j].regs@[11]),
        decreases n - k,
    {
        let snapshot = snapshots[k];
        let pc = snapshot.regs[11];
        let registers_after = if k + 1 < n {
            snapshots[k + 1]
        } else {
            final_registers
        };
        instructions.push(
            InstructionTrace {
                pc,
                instruction_bytes: instruction_window(program_bytes, pc),
                registers_before: snapshot,
                registers_after,
            },
        );
        k += 1;
    }
    let initial_registers = if n > 0 {
        snapshots[0]
    } else {
        RegisterState::new()
    };
    let t = ExecutionTrace {
        instructions,
        account_states: Vec::new(),
        initial_registers,
        final_registers,
    };
    t
}

} // verus!
