use zkbpf::{
    build_trace, prove_execution, verify_execution, ExecutionTrace, ProverError, RegisterState,
    SynthesisError, TracerError,
};

/// The trace of `mov64 r0, 42; exit` as the tracer would assemble it.
fn constant_return_trace() -> ExecutionTrace {
    let snapshots = vec![
        RegisterState::from_regs([0, 0, 0, 0, 0, 0, 0, 0, 0, 0, 0, 0]),
        RegisterState::from_regs([42, 0, 0, 0, 0, 0, 0, 0, 0, 0, 0, 1]),
    ];
    let program: Vec<u8> = vec![
        0xb7, 0x00, 0x00, 0x00, 0x2a, 0x00, 0x00, 0x00, // mov64 r0, 42
        0x95, 0x00, 0x00, 0x00, 0x00, 0x00, 0x00, 0x00, // exit
    ];
    let final_registers = RegisterState::from_regs([42, 0, 0, 0, 0, 0, 0, 0, 0, 0, 0, 1]);
    build_trace(&snapshots, &program, final_registers)
}

#[test]
fn test_build_trace_chains_and_extracts_instructions() {
    let trace = constant_return_trace();

    assert_eq!(trace.instruction_count(), 2);
    assert_eq!(trace.instructions[0].pc, 0);
    assert_eq!(trace.instructions[1].pc, 1);
    assert_eq!(
        trace.instructions[0].instruction_bytes,
        vec![0xb7, 0x00, 0x00, 0x00, 0x2a, 0x00, 0x00, 0x00]
    );
    assert_eq!(
        trace.instructions[1].instruction_bytes,
        vec![0x95, 0x00, 0x00, 0x00, 0x00, 0x00, 0x00, 0x00]
    );
    // The trace chains: after of entry 0 is before of entry 1.
    assert_eq!(
        trace.instructions[0].registers_after.regs,
        trace.instructions[1].registers_before.regs
    );
    assert_eq!(trace.initial_registers.regs[0], 0);
    assert_eq!(trace.final_registers.regs[0], 42);
}

#[test]
fn test_build_trace_zero_fills_out_of_range_pc() {
    let snapshots = vec![RegisterState::from_regs([0, 0, 0, 0, 0, 0, 0, 0, 0, 0, 0, 9])];
    let program: Vec<u8> = vec![0xb7, 0x00, 0x00, 0x00, 0x2a, 0x00, 0x00, 0x00];
    let trace = build_trace(&snapshots, &program, RegisterState::new());

    assert_eq!(trace.instructions[0].instruction_bytes, vec![0; 8]);
}

#[test]
fn test_prove_constant_return() {
    let trace = constant_return_trace();
    let (proof, public_inputs) = prove_execution(trace).unwrap();

    assert_eq!(public_inputs.initial_registers[0], 0);
    assert_eq!(public_inputs.final_registers[0], 42);
    assert_eq!(public_inputs.final_registers.len(), 11);
    assert_eq!(verify_execution(&proof, &public_inputs).unwrap(), true);
}

#[test]
fn test_prove_register_addition() {
    // r0 = 10; r1 = 20; r0 += r1; exit
    let snapshots = vec![
        RegisterState::from_regs([0, 0, 0, 0, 0, 0, 0, 0, 0, 0, 0, 0]),
        RegisterState::from_regs([10, 0, 0, 0, 0, 0, 0, 0, 0, 0, 0, 1]),
        RegisterState::from_regs([10, 20, 0, 0, 0, 0, 0, 0, 0, 0, 0, 2]),
        RegisterState::from_regs([30, 20, 0, 0, 0, 0, 0, 0, 0, 0, 0, 3]),
    ];
    let program: Vec<u8> = vec![
        0xb7, 0x00, 0x00, 0x00, 0x0a, 0x00, 0x00, 0x00, // mov64 r0, 10
        0xb7, 0x01, 0x00, 0x00, 0x14, 0x00, 0x00, 0x00, // mov64 r1, 20
        0x0f, 0x10, 0x00, 0x00, 0x00, 0x00, 0x00, 0x00, // add64 r0, r1
        0x95, 0x00, 0x00, 0x00, 0x00, 0x00, 0x00, 0x00, // exit
    ];
    let final_registers = RegisterState::from_regs([30, 20, 0, 0, 0, 0, 0, 0, 0, 0, 0, 3]);
    let trace = build_trace(&snapshots, &program, final_registers);

    assert_eq!(trace.instructions[2].registers_before.regs[0], 10);
    assert_eq!(trace.instructions[2].registers_before.regs[1], 20);
    assert_eq!(trace.instructions[2].registers_after.regs[0], 30);

    let (proof, public_inputs) = prove_execution(trace).unwrap();
    assert_eq!(public_inputs.final_registers[0], 30);
    assert_eq!(verify_execution(&proof, &public_inputs).unwrap(), true);
}

#[test]
fn test_prove_rejects_tampered_final_state() {
    // Mutate the claimed final r0 from 42 to 43: synthesis emits an
    // unsatisfiable system and proving fails before the backend runs.
    let mut trace = constant_return_trace();
    trace.final_registers.regs[0] = 43;

    let result = prove_execution(trace);
    assert!(matches!(
        result,
        Err(ProverError::Synthesis(SynthesisError::WitnessMismatch))
    ));
}

#[test]
fn test_prove_rejects_tampered_step() {
    // Corrupt the recorded state after the first step.
    let mut trace = constant_return_trace();
    trace.instructions[0].registers_after.regs[5] = 7;
    trace.instructions[1].registers_before.regs[5] = 7;
    trace.final_registers.regs[5] = 7;

    let result = prove_execution(trace);
    assert!(matches!(
        result,
        Err(ProverError::Synthesis(SynthesisError::WitnessMismatch))
    ));
}

#[test]
fn test_prove_rejects_unsupported_opcode() {
    let mut trace = constant_return_trace();
    trace.instructions[0].instruction_bytes[0] = 0x85; // a call, which has no chip

    let result = prove_execution(trace);
    assert!(matches!(
        result,
        Err(ProverError::Synthesis(SynthesisError::UnsupportedOpcode(0x85)))
    ));
}

#[test]
fn test_prove_empty_trace_is_identity_statement() {
    // An empty trace proves the identity transition.
    let trace = ExecutionTrace::new();
    let (proof, public_inputs) = prove_execution(trace).unwrap();
    assert_eq!(public_inputs.initial_registers, public_inputs.final_registers);
    assert_eq!(verify_execution(&proof, &public_inputs).unwrap(), true);
}

#[test]
fn test_tracer_error_variants_carry_diagnostics() {
    let load = TracerError::LoadError(String::from("empty program"));
    let run = TracerError::RuntimeError(String::from("access violation"));
    let budget = TracerError::ComputeExhausted;
    assert!(matches!(load, TracerError::LoadError(_)));
    assert!(matches!(run, TracerError::RuntimeError(_)));
    assert!(matches!(budget, TracerError::ComputeExhausted));
}
