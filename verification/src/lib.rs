//! Tamper-evident execution proofs, a snapshotting state store and a
//! weighted consensus validator for autonomous agents.

pub mod agent;
pub mod clock;
pub mod consensus;
pub mod digest;
pub mod execution_proof;
pub mod json;
pub mod sandbox;
pub mod state;
pub mod text;
