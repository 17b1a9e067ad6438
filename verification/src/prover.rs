//! High-level proving entry points.
//!
//! The proving backend itself is an external collaborator; until it is
//! wired in, `create_proof` returns a fixed placeholder and `verify_proof`
//! accepts every proof, and both say so in their contracts. What this
//! module does establish is everything up to the backend: witness
//! generation, circuit synthesis, and the satisfiability check that
//! rejects tampered witnesses before proving.

use vstd::prelude::*;
use crate::codec::spec_encode_witness;
use crate::counter::{
    spec_circuit_satisfied, spec_step_error, spec_step_supported, spec_steps_supported,
    step_state, CounterCircuit,
};
use crate::cs::Cs;
use crate::errors::{ProverError, SynthesisError};
use crate::public_inputs::{PublicInputs, PublicInputsView};
use crate::trace::ExecutionTrace;
use crate::witness::{spec_witness_of_trace, Witness};

verus! {

/// An opaque proof blob.
pub type Proof = Vec<u8>;

/// The placeholder proof returned until the backend is wired in.
pub open spec fn spec_stub_proof() -> Seq<u8> {
    seq![0xdeu8, 0xadu8, 0xbeu8, 0xefu8]
}

/// The statement a trace claims: its own boundary register states.
pub open spec fn spec_boundaries(trace: ExecutionTrace) -> PublicInputsView {
    PublicInputsView {
        initial_registers: trace.initial_registers.regs@.subrange(0, 11),
        final_registers: trace.final_registers.regs@.subrange(0, 11),
    }
}

/// Generate serialized witness data from an execution trace.
pub fn generate_witness(trace: &ExecutionTrace) -> (r: Vec<u8>)
    ensures
        r@ == spec_encode_witness(spec_witness_of_trace(*trace)),
{
    let witness = Witness::from_trace(trace);
    witness.to_bytes()
}

/// Create a proof from serialized witness data.
///
/// The backend is not wired in yet: this returns a fixed placeholder
/// blob, and its contract says no more than that.
pub fn create_proof(witness: Vec<u8>) -> (r: Result<Proof, ProverError>)
    ensures
        r matches Ok(p) && p@ == spec_stub_proof(),
{
    let mut p: Vec<u8> = Vec::new();
    p.push(0xde);
    p.push(0xad);
    p.push(0xbe);
    p.push(0xef);
    proof {
        assert(p@ =~= spec_stub_proof());
    }
    Ok(p)
}

/// Check a proof against public inputs.
///
/// The backend is not wired in yet: every proof is accepted, and the
/// contract says exactly that.
pub fn verify_proof(proof: &Proof, public_inputs: &PublicInputs) -> (r: Result<
    bool,
    ProverError,
>)
    ensures
        r matches Ok(b) && b == true,
{
    Ok(true)
}

/// Prove the execution recorded in a trace.
///
/// Builds the public inputs and witness from the trace, synthesizes the
/// aggregate circuit, and rejects the attempt before proving when a step
/// has no registered chip (the first such step's error is returned) or
/// when the emitted system is unsatisfiable, which means the trace was
/// altered between capture and proving.
pub fn prove_execution(trace: ExecutionTrace) -> (r: Result<(Proof, PublicInputs), ProverError>)
    requires
        trace.wf(),
    ensures
        r is Ok <==> spec_steps_supported(spec_witness_of_trace(trace))
            && spec_circuit_satisfied(spec_witness_of_trace(trace), spec_boundaries(trace)),
        r matches Ok(v) ==> v.0@ == spec_stub_proof() && v.1@ == spec_boundaries(trace),
        !spec_steps_supported(spec_witness_of_trace(trace)) ==> (r matches Err(pe)
            && pe matches ProverError::Synthesis(se) && exists|k: int|
            0 <= k < spec_witness_of_trace(trace).instruction_bytes.len()
                && !spec_step_supported(
                #[trigger] spec_witness_of_trace(trace).instruction_bytes[k],
            ) && se == spec_step_error(spec_witness_of_trace(trace).instruction_bytes[k])),
        spec_steps_supported(spec_witness_of_trace(trace)) && !spec_circuit_satisfied(
            spec_witness_of_trace(trace),
            spec_boundaries(trace),
        ) ==> (r matches Err(pe) && pe matches ProverError::Synthesis(se) && se
            == SynthesisError::WitnessMismatch),
{
    let ghost wv = spec_witness_of_trace(trace);
    let public_inputs = PublicInputs::from_trace(&trace);
    let witness_bytes = generate_witness(&trace);
    let circuit = CounterCircuit::from_trace(trace);
    let mut cs = Cs::new();
    match circuit.synthesize(&mut cs, &public_inputs) {
        Ok(()) => {},
        Err(e) => {
            return Err(ProverError::Synthesis(e));
        },
    }
    if !cs.satisfied() {
        return Err(ProverError::Synthesis(SynthesisError::WitnessMismatch));
    }
    let stub = match create_proof(witness_bytes) {
        Ok(p) => p,
        Err(e) => {
            return Err(e);
        },
    };
    Ok((stub, public_inputs))
}

/// Verify an execution proof against its public inputs.
pub fn verify_execution(proof: &Proof, public_inputs: &PublicInputs) -> (r: Result<
    bool,
    ProverError,
>)
    ensures
        r matches Ok(b) && b == true,
{
    verify_proof(proof, public_inputs)
}

} // verus!
