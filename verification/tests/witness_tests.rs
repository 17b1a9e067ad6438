use zkbpf::{AccountState, AccountStateChange, ExecutionTrace, InstructionTrace, Pubkey, RegisterState, Witness};

#[test]
fn test_witness_from_empty_trace() {
    let trace = ExecutionTrace::new();
    let witness = Witness::from_trace(&trace);

    assert_eq!(witness.instruction_count(), 0);
    assert_eq!(witness.account_change_count(), 0);
    assert_eq!(witness.initial_registers.len(), 11);
    assert_eq!(witness.final_registers.len(), 11);
}

#[test]
fn test_witness_from_trace_with_instruction() {
    let initial_regs = RegisterState::from_regs([0, 10, 20, 30, 40, 50, 60, 70, 80, 90, 100, 0]);
    let after_regs = RegisterState::from_regs([0, 52, 20, 30, 40, 50, 60, 70, 80, 90, 100, 8]);
    let final_regs = after_regs.clone();

    let instr = InstructionTrace {
        pc: 0,
        instruction_bytes: vec![0x07, 0x01, 0x00, 0x00, 0x2a, 0x00, 0x00, 0x00],
        registers_before: initial_regs.clone(),
        registers_after: after_regs,
    };

    let trace = ExecutionTrace {
        instructions: vec![instr],
        account_states: vec![],
        initial_registers: initial_regs,
        final_registers: final_regs,
    };

    let witness = Witness::from_trace(&trace);

    assert_eq!(witness.instruction_count(), 1);
    assert_eq!(witness.initial_registers, vec![0, 10, 20, 30, 40, 50, 60, 70, 80, 90, 100]);
    assert_eq!(
        witness.instruction_register_states[0],
        vec![0, 52, 20, 30, 40, 50, 60, 70, 80, 90, 100]
    );
    assert_eq!(witness.final_registers, vec![0, 52, 20, 30, 40, 50, 60, 70, 80, 90, 100]);
    assert_eq!(witness.program_counters, vec![0]);
}

#[test]
fn test_witness_serialization() {
    let trace = ExecutionTrace::new();
    let witness = Witness::from_trace(&trace);

    let bytes = witness.to_bytes();
    let deserialized = Witness::from_bytes(&bytes).unwrap();

    assert_eq!(witness.instruction_count(), deserialized.instruction_count());
    assert_eq!(witness.initial_registers, deserialized.initial_registers);
}

#[test]
fn test_multiple_instructions() {
    let initial_regs = RegisterState::from_regs([0, 10, 20, 30, 40, 50, 60, 70, 80, 90, 100, 0]);
    let regs_after_1 = RegisterState::from_regs([0, 52, 20, 30, 40, 50, 60, 70, 80, 90, 100, 8]);
    let regs_after_2 = RegisterState::from_regs([0, 94, 20, 30, 40, 50, 60, 70, 80, 90, 100, 16]);
    let final_regs = regs_after_2.clone();

    let instr1 = InstructionTrace {
        pc: 0,
        instruction_bytes: vec![0x07, 0x01, 0x00, 0x00, 0x2a, 0x00, 0x00, 0x00],
        registers_before: initial_regs.clone(),
        registers_after: regs_after_1.clone(),
    };

    let instr2 = InstructionTrace {
        pc: 8,
        instruction_bytes: vec![0x07, 0x01, 0x00, 0x00, 0x2a, 0x00, 0x00, 0x00],
        registers_before: regs_after_1,
        registers_after: regs_after_2,
    };

    let trace = ExecutionTrace {
        instructions: vec![instr1, instr2],
        account_states: vec![],
        initial_registers: initial_regs,
        final_registers: final_regs,
    };

    let witness = Witness::from_trace(&trace);

    assert_eq!(witness.instruction_count(), 2);
    assert_eq!(witness.program_counters, vec![0, 8]);
    assert_eq!(witness.instruction_register_states.len(), 2);
    assert_eq!(
        witness.instruction_register_states[0],
        vec![0, 52, 20, 30, 40, 50, 60, 70, 80, 90, 100]
    );
    assert_eq!(
        witness.instruction_register_states[1],
        vec![0, 94, 20, 30, 40, 50, 60, 70, 80, 90, 100]
    );
}

#[test]
fn test_witness_roundtrip_with_account_changes() {
    let mut key_bytes = [0u8; 32];
    key_bytes[0] = 7;
    let pubkey = Pubkey::from_array(key_bytes);
    let owner = Pubkey::default();

    let before = AccountState::new(pubkey, 11, vec![1, 2], owner, false, 0);
    let after = AccountState::new(pubkey, 13, vec![3, 4, 5], owner, false, 0);

    let mut trace = ExecutionTrace::new();
    trace.account_states.push(AccountStateChange::new(pubkey, before, after));

    let witness = Witness::from_trace(&trace);
    let decoded = Witness::from_bytes(&witness.to_bytes()).unwrap();

    assert_eq!(decoded.account_change_count(), 1);
    assert_eq!(decoded.account_changes[0].pubkey, witness.account_changes[0].pubkey);
    assert_eq!(decoded.account_changes[0].data_before, vec![1, 2]);
    assert_eq!(decoded.account_changes[0].data_after, vec![3, 4, 5]);
    assert_eq!(decoded.account_changes[0].lamports_before, 11);
    assert_eq!(decoded.account_changes[0].lamports_after, 13);
}

#[test]
fn test_witness_from_bytes_rejects_truncated() {
    let trace = ExecutionTrace::new();
    let witness = Witness::from_trace(&trace);
    let bytes = witness.to_bytes();

    let truncated = &bytes[..bytes.len() - 1];
    assert!(matches!(Witness::from_bytes(truncated), Err(zkbpf::CodecError::Truncated)));

    let mut padded = bytes.clone();
    padded.push(0);
    assert!(matches!(Witness::from_bytes(&padded), Err(zkbpf::CodecError::Truncated)));
}

#[test]
fn test_witness_encoding_layout() {
    // The encoding starts with the initial register list: its length 11
    // as a little-endian word, then the registers themselves.
    let trace = ExecutionTrace::new();
    let witness = Witness::from_trace(&trace);
    let bytes = witness.to_bytes();

    assert_eq!(&bytes[0..8], &[11, 0, 0, 0, 0, 0, 0, 0]);
    assert_eq!(&bytes[8..16], &[0; 8]);
    // 6 length fields and 22 register words of 8 bytes each.
    assert_eq!(bytes.len(), 8 * 6 + 8 * 22);
}
