use zkbpf::counter::{CounterCircuit, OPCODE_EXIT, OPCODE_MOV64_IMM};
use zkbpf::{decode_instruction, BpfChip, Cs, ExecutionTrace, InstructionTrace, PublicInputs,
    RegisterState, SynthesisError};

#[test]
fn test_counter_circuit_creation() {
    let trace = ExecutionTrace::new();
    let circuit = CounterCircuit::from_trace(trace);
    assert_eq!(circuit.num_constraints(), 0);
}

#[test]
fn test_counter_circuit_simple_trace() {
    // One instruction: ADD_IMM r1, 42 taking r1 from 10 to 52.
    let initial_regs = RegisterState::from_regs([0, 10, 20, 30, 40, 50, 60, 70, 80, 90, 100, 0]);
    let after_regs = RegisterState::from_regs([0, 52, 20, 30, 40, 50, 60, 70, 80, 90, 100, 8]);
    let final_regs = after_regs.clone();

    let instr = InstructionTrace {
        pc: 0,
        instruction_bytes: vec![0x07, 0x01, 0x00, 0x00, 0x2a, 0x00, 0x00, 0x00],
        registers_before: initial_regs.clone(),
        registers_after: after_regs,
    };

    let trace = ExecutionTrace {
        instructions: vec![instr],
        account_states: vec![],
        initial_registers: initial_regs,
        final_registers: final_regs,
    };

    let claimed = PublicInputs::from_trace(&trace);
    let circuit = CounterCircuit::from_trace(trace);
    let mut cs = Cs::new();
    circuit.synthesize(&mut cs, &claimed).unwrap();
    assert!(cs.satisfied());
}

#[test]
fn test_counter_circuit_rejects_wrong_boundary() {
    // The same honest step, but the claimed final r1 is 53 instead of 52.
    let initial_regs = RegisterState::from_regs([0, 10, 0, 0, 0, 0, 0, 0, 0, 0, 0, 0]);
    let after_regs = RegisterState::from_regs([0, 52, 0, 0, 0, 0, 0, 0, 0, 0, 0, 8]);

    let instr = InstructionTrace {
        pc: 0,
        instruction_bytes: vec![0x07, 0x01, 0x00, 0x00, 0x2a, 0x00, 0x00, 0x00],
        registers_before: initial_regs.clone(),
        registers_after: after_regs.clone(),
    };

    let trace = ExecutionTrace {
        instructions: vec![instr],
        account_states: vec![],
        initial_registers: initial_regs,
        final_registers: after_regs,
    };

    let mut claimed = PublicInputs::from_trace(&trace);
    claimed.final_registers[1] = 53;

    let circuit = CounterCircuit::from_trace(trace);
    let mut cs = Cs::new();
    circuit.synthesize(&mut cs, &claimed).unwrap();
    assert!(!cs.satisfied());
}

#[test]
fn test_counter_circuit_unsupported_opcode() {
    // An instruction whose opcode byte has no registered chip.
    let regs = RegisterState::new();
    let instr = InstructionTrace {
        pc: 0,
        instruction_bytes: vec![0xff, 0x00, 0x00, 0x00, 0x00, 0x00, 0x00, 0x00],
        registers_before: regs.clone(),
        registers_after: regs.clone(),
    };
    let trace = ExecutionTrace {
        instructions: vec![instr],
        account_states: vec![],
        initial_registers: regs.clone(),
        final_registers: regs,
    };

    let claimed = PublicInputs::from_trace(&trace);
    let circuit = CounterCircuit::from_trace(trace);
    let mut cs = Cs::new();
    let result = circuit.synthesize(&mut cs, &claimed);
    assert_eq!(result, Err(SynthesisError::UnsupportedOpcode(0xff)));
}

#[test]
fn test_counter_circuit_invalid_register() {
    // ADD_IMM with destination register field 12.
    let regs = RegisterState::new();
    let instr = InstructionTrace {
        pc: 0,
        instruction_bytes: vec![0x07, 0x0c, 0x00, 0x00, 0x01, 0x00, 0x00, 0x00],
        registers_before: regs.clone(),
        registers_after: regs.clone(),
    };
    let trace = ExecutionTrace {
        instructions: vec![instr],
        account_states: vec![],
        initial_registers: regs.clone(),
        final_registers: regs,
    };

    let claimed = PublicInputs::from_trace(&trace);
    let circuit = CounterCircuit::from_trace(trace);
    let mut cs = Cs::new();
    let result = circuit.synthesize(&mut cs, &claimed);
    assert_eq!(result, Err(SynthesisError::InvalidRegister(12)));
}

#[test]
fn test_decode_instruction_fields() {
    // ADD_IMM r3, -1: opcode 0x07, dst 3, imm 0xffffffff.
    let insn = vec![0x07, 0x03, 0x00, 0x00, 0xff, 0xff, 0xff, 0xff];
    match decode_instruction(&insn, 0).unwrap() {
        BpfChip::AddImm(chip) => {
            assert_eq!(chip.dst_reg, 3);
            assert_eq!(chip.imm, -1);
        },
        other => panic!("decoded the wrong chip: {:?}", other),
    }

    // ADD_REG r0, r1: opcode 0x0f, byte 1 holds src in the high nibble.
    let insn = vec![0x0f, 0x10, 0x00, 0x00, 0x00, 0x00, 0x00, 0x00];
    match decode_instruction(&insn, 0).unwrap() {
        BpfChip::AddReg(chip) => {
            assert_eq!(chip.dst_reg, 0);
            assert_eq!(chip.src_reg, 1);
        },
        other => panic!("decoded the wrong chip: {:?}", other),
    }

    // LDW r2 = *(r4 - 8): opcode 0x79, offset 0xfff8.
    let insn = vec![0x79, 0x42, 0xf8, 0xff, 0x00, 0x00, 0x00, 0x00];
    match decode_instruction(&insn, 77).unwrap() {
        BpfChip::Ldw(chip) => {
            assert_eq!(chip.dst_reg, 2);
            assert_eq!(chip.src_reg, 4);
            assert_eq!(chip.offset, -8);
            assert_eq!(chip.loaded_value, 77);
        },
        other => panic!("decoded the wrong chip: {:?}", other),
    }

    let exit = vec![OPCODE_EXIT, 0x00, 0x00, 0x00, 0x00, 0x00, 0x00, 0x00];
    assert!(matches!(decode_instruction(&exit, 0).unwrap(), BpfChip::Exit(_)));

    let mov = vec![OPCODE_MOV64_IMM, 0x00, 0x00, 0x00, 0x2a, 0x00, 0x00, 0x00];
    match decode_instruction(&mov, 0).unwrap() {
        BpfChip::MovImm(chip) => {
            assert_eq!(chip.dst_reg, 0);
            assert_eq!(chip.imm, 42);
        },
        other => panic!("decoded the wrong chip: {:?}", other),
    }
}
