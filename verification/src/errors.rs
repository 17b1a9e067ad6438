//! Error taxonomy for tracing, circuit synthesis, and proving.

use vstd::prelude::*;

verus! {

/// Errors surfaced while loading or executing a BPF program.
#[derive(Clone, Debug)]
pub enum TracerError {
    /// The bytecode was rejected by the loader or the static verifier.
    LoadError(String),
    /// Execution failed: access violation, divide by zero, unaligned store,
    /// stack overflow, or a similar runtime fault.
    RuntimeError(String),
    /// The instruction budget was exhausted before the program exited.
    ComputeExhausted,
}

/// Errors surfaced while synthesizing the aggregate circuit.
#[derive(Clone, Copy, Debug, PartialEq, Eq, Structural)]
pub enum SynthesisError {
    /// The decoder met an opcode with no registered chip.
    UnsupportedOpcode(u8),
    /// An operand register index was 11 or larger.
    InvalidRegister(u8),
    /// The witness assignment violates the emitted constraints.
    WitnessMismatch,
}

/// Errors surfaced by the proving entry points.
#[derive(Clone, Debug)]
pub enum ProverError {
    /// Circuit synthesis failed.
    Synthesis(SynthesisError),
    /// Opaque passthrough from the proving backend.
    Backend(String),
}

/// Errors surfaced while decoding a serialized witness.
#[derive(Clone, Copy, Debug, PartialEq, Eq, Structural)]
pub enum CodecError {
    /// The byte buffer does not hold exactly one well-formed witness.
    Truncated,
}

} // verus!
