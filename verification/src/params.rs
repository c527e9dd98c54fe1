//! Parameters of the proof system and what a caller may require of them.

use vstd::prelude::*;
use crate::domain::NODE_SIZE;

verus! {

/// The two proof shapes.
#[derive(Debug, Copy, Clone, PartialEq, Eq, Structural)]
pub enum PoStShape {
    /// Many sectors, proven in partitions of a fixed number of sectors.
    Window,
    /// One sector, proven by several challenges that each fill the slot of a
    /// sector.
    Winning,
}

/// What the public parameters are made from.
#[derive(Debug, Clone)]
pub struct SetupParams {
    /// Size of the sector in bytes.
    pub sector_size: u64,
    /// Number of challenges per sector.
    pub challenge_count: usize,
    /// Number of challenged sectors.
    pub sector_count: usize,
    pub shape: PoStShape,
}

/// The parameters that prover and verifier share.
#[derive(Debug, Clone)]
pub struct PublicParams {
    /// Size of the sector in bytes.
    pub sector_size: u64,
    /// Number of challenges per sector.
    pub challenge_count: usize,
    /// Number of challenged sectors.
    pub sector_count: usize,
    pub shape: PoStShape,
}

/// The least number of challenges that a caller accepts.
#[derive(Debug)]
pub struct ChallengeRequirements {
    /// The sum of challenges across all challenged sectors, even across
    /// partitions.
    pub minimum_challenge_count: usize,
}

impl Default for ChallengeRequirements {
    fn default() -> (requirements: Self)
        ensures
            requirements.minimum_challenge_count == 0,
    {
        ChallengeRequirements { minimum_challenge_count: 0 }
    }
}

/// The decimal digits of `n`, most significant first.
pub open spec fn decimal(n: nat) -> Seq<char>
    decreases n,
{
    let last = seq![digit_char(n % 10)];
    if n < 10 {
        last
    } else {
        decimal(n / 10) + last
    }
}

/// The character of a single decimal digit.
pub open spec fn digit_char(d: nat) -> char {
    if d == 0 {
        '0'
    } else if d == 1 {
        '1'
    } else if d == 2 {
        '2'
    } else if d == 3 {
        '3'
    } else if d == 4 {
        '4'
    } else if d == 5 {
        '5'
    } else if d == 6 {
        '6'
    } else if d == 7 {
        '7'
    } else if d == 8 {
        '8'
    } else {
        '9'
    }
}

/// The identifier of a parameter set with the given three numbers.
pub open spec fn identifier_text(sector_size: nat, challenge_count: nat, sector_count: nat) -> Seq<
    char,
> {
    "FallbackPoSt::PublicParams{sector_size: "@ + decimal(sector_size) + ", challenge_count: "@
        + decimal(challenge_count) + ", sector_count: "@ + decimal(sector_count) + "}"@
}

/// `format!` with three integers in `{}` places: each is written in decimal,
/// without sign or padding, between the literal pieces of the text.
#[verifier::external_body]
fn format_identifier(sector_size: u64, challenge_count: usize, sector_count: usize) -> (text: String)
    ensures
        text@ == identifier_text(sector_size as nat, challenge_count as nat, sector_count as nat),
{
    format!(
        "FallbackPoSt::PublicParams{{sector_size: {}, challenge_count: {}, sector_count: {}}}",
        sector_size, challenge_count, sector_count,
    )
}

impl PublicParams {
    /// Number of tree leaves of a sector.
    pub open spec fn leaves(&self) -> nat {
        self.sector_size as nat / 32
    }

    /// The text by which a parameter set is told from others.
    pub fn identifier(&self) -> (text: String)
        ensures
            text@ == identifier_text(
                self.sector_size as nat,
                self.challenge_count as nat,
                self.sector_count as nat,
            ),
    {
        format_identifier(self.sector_size(), self.challenge_count, self.sector_count)
    }

    /// Size of the sector in bytes.
    pub fn sector_size(&self) -> (size: u64)
        ensures
            size == self.sector_size,
    {
        self.sector_size
    }

    /// Number of tree leaves of a sector.
    pub fn sector_leaves(&self) -> (leaves: u64)
        ensures
            leaves as nat == self.leaves(),
    {
        self.sector_size / (NODE_SIZE as u64)
    }
}

/// Number of chunks into which `n` sectors go, `per` to a chunk, the last of
/// which may be short.
pub open spec fn chunk_count(n: nat, per: nat) -> nat {
    if per == 0 {
        0
    } else if n % per == 0 {
        n / per
    } else {
        n / per + 1
    }
}

/// Number of chunks into which `n` sectors go, `per` to a chunk.
pub fn count_chunks(n: usize, per: usize) -> (parts: usize)
    ensures
        parts == chunk_count(n as nat, per as nat),
{
    if per == 0 {
        0
    } else if n % per == 0 {
        n / per
    } else {
        assert(n / per < usize::MAX) by (nonlinear_arith)
            requires
                per >= 1,
                n % per != 0,
                n <= usize::MAX,
        ;
        n / per + 1
    }
}

} // verus!
