//! The ways in which proving and verifying can fail.

use vstd::prelude::*;

verus! {

/// Identifier of a sector.
pub type SectorId = u64;

/// Why a call was refused or a proof could not be produced.
#[derive(Debug, Clone, PartialEq, Eq)]
pub enum Error {
    /// A sector challenge was asked for over an empty sector set.
    EmptySectorSet,
    /// The numbers of private and of public sectors differ.
    SectorCountMismatch { private: usize, public: usize },
    /// More sectors were given than the partitions can hold.
    TooManySectors { sectors: usize, partitions: usize, sectors_per_partition: usize },
    /// A winning proof was asked for with a number of sectors that is zero or
    /// differs from the number of challenges.
    WinningChallengeCount { sectors: usize },
    /// A winning proof was asked for with more or less than one challenge per
    /// sector.
    WinningShape { challenge_count: usize },
    /// The single-sector prover was given more or less than one sector.
    NotSingleSector { sectors: usize },
    /// The tree of a sector could not produce an inclusion proof.
    TreeFailure { sector: SectorId },
    /// The tree of a sector produced an inclusion proof that does not hold.
    InvalidVanillaProof { sector: SectorId },
    /// These sectors, in ascending order, failed while proving.
    FaultySectors(Vec<SectorId>),
    /// The partition proofs cannot cover the public sectors.
    InconsistentSectors { sectors: usize, sectors_per_partition: usize, partitions: usize },
    /// A partition proof does not hold as many sector proofs as a partition
    /// has sectors.
    InvalidPartitionSize { partition: usize, found: usize, expected: usize },
    /// A sector proof holds no inclusion proof at all.
    NoInclusionProofs { partition: usize, position: usize },
    /// A sector proof does not hold one inclusion proof for each challenge.
    UnexpectedInclusionProofCount { expected: usize, found: usize },
    /// In a winning proof the position of a challenge is not that of its
    /// sector.
    WinningChallengeAssumption,
    /// The number of challenges does not fit the machine word.
    ChallengeCountOverflow,
}

} // verus!
