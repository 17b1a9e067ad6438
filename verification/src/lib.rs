//! Verified core of a zero-knowledge prover for BPF program execution.
//!
//! The library covers the trace-to-constraint-system pipeline: building a
//! per-instruction execution trace from captured register snapshots,
//! lowering a trace into a witness, and composing per-opcode constraint
//! chips into one aggregate circuit whose satisfiability expresses that the
//! trace is a valid execution from the claimed initial register state to
//! the claimed final one.

pub mod chips;
pub mod codec;
pub mod counter;
pub mod cs;
pub mod errors;
pub mod keygen;
pub mod prover;
pub mod public_inputs;
pub mod registers;
pub mod trace;
pub mod tracer;
pub mod witness;

pub use chips::{Alu64AddImmChip, Alu64AddRegChip, BpfInstructionChip, ExitChip, LdwChip, Mov64ImmChip, StwChip};
pub use cs::{CellOp, Cs};
pub use counter::{decode_instruction, BpfChip, CounterCircuit};
pub use errors::{CodecError, ProverError, SynthesisError, TracerError};
pub use keygen::KeygenConfig;
pub use prover::{create_proof, generate_witness, prove_execution, verify_execution, verify_proof, Proof};
pub use public_inputs::PublicInputs;
pub use registers::RegisterState;
pub use trace::{AccountState, AccountStateChange, ExecutionTrace, InstructionTrace, Pubkey};
pub use tracer::build_trace;
pub use witness::{AccountChange, Witness};

use vstd::prelude::*;

verus! {

/// Number of registers captured per snapshot: r0-r10 plus the program counter.
pub const REGISTER_COUNT: usize = 12;

/// Number of general-purpose registers threaded through the circuit (r0-r10).
pub const GP_REGISTER_COUNT: usize = 11;

/// Size in bytes of one encoded BPF instruction.
pub const INSTRUCTION_SIZE: usize = 8;

} // verus!
