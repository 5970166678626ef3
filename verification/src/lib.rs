//! Constraint encodings and witness synthesis for confidential-bid attestations:
//! range membership of a bid, a commitment/nullifier pair bound to one secret,
//! and Merkle membership of a leaf.

pub mod builder;
pub mod decompose;
pub mod field;
pub mod merkle_circuit;
pub mod nullifier_circuit;
pub mod pipeline;
pub mod plonk;
pub mod range_circuit;
pub mod range_laws;
pub mod range_proof;
pub mod synthesis;

pub use nullifier_circuit::build_nullifier_circuit;
pub use range_circuit::RangeProofCircuit;
