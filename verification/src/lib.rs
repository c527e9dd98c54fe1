//! Fallback proof-of-spacetime in its vanilla form: a prover shows, by Merkle
//! inclusion proofs for challenged leaves, that it still holds the sealed
//! sectors it committed to.
//!
//! - `challenge`: which sector and which leaves are challenged, derived from
//!   public randomness.
//! - `merkle`: inclusion proofs as plain data, the shapes of sector trees, and
//!   what the prover needs of a tree.
//! - `prover`: proving all partitions of a window or winning proof, and the
//!   single-sector prover.
//! - `verify`: verifying partition proofs, and what a caller may require of
//!   the parameters.
//! - `laws`: what holds of proving and verifying together.
//! - `types`, `params`, `domain`, `hashing`, `faults`, `error`: the data they
//!   work on.
//! - `report`: the report of a benchmark run.

pub mod challenge;
pub mod domain;
pub mod error;
pub mod faults;
pub mod hashing;
pub mod laws;
pub mod merkle;
pub mod params;
pub mod prover;
pub mod report;
pub mod types;
pub mod verify;
