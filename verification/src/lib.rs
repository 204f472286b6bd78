//! Constraint-system logic for recursive proof verification.
//!
//! The crate models, over plain byte values, the outer circuit of a
//! decentralized-program scheme: a registry of program circuits committed as a
//! Merkle tree, a program orchestrator that produces per-record execution
//! bundles, and the outer constraint-synthesis routine that re-expresses the
//! inner verification predicate, the per-record program proofs, and the
//! binding equalities (program commitment, inner circuit identity,
//! cross-domain local-data-root equality) as one satisfiability condition.

pub mod bytes;
pub mod crh;
pub mod encode;
pub mod laws;
pub mod merkle;
pub mod outer_circuit;
pub mod program;
pub mod r1cs;
pub mod registry;
pub mod snark;

use vstd::prelude::*;

verus! {

/// Number of bytes in a hash digest.
pub const DIGEST_SIZE: usize = 32;

} // verus!
