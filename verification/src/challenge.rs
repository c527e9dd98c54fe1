//! Challenges: which sector, and which leaf of a sector, a prover has to
//! open. Both are derived from public randomness alone.

use vstd::prelude::*;
use crate::domain::{le_value, Domain};
use crate::error::Error;
use crate::hashing::{le_bytes, read_u64_le, sha256, sha256_digest, u64_le_bytes};
use crate::params::PublicParams;

verus! {

/// What is hashed for the `n`-th sector challenge: prover id, randomness,
/// then `n` on eight little-endian bytes.
pub open spec fn sector_challenge_preimage(randomness: Seq<u8>, n: nat, prover_id: Seq<u8>) -> Seq<
    u8,
> {
    prover_id + randomness + le_bytes(n, 8)
}

/// What is hashed for a leaf challenge: randomness, then the sector id and
/// the index of the challenge, each on eight little-endian bytes. The prover
/// id is not part of it.
pub open spec fn leaf_challenge_preimage(randomness: Seq<u8>, sector_id: u64, index: u64) -> Seq<
    u8,
> {
    randomness + le_bytes(sector_id as nat, 8) + le_bytes(index as nat, 8)
}

/// The number that a preimage stands for: the first eight bytes of its
/// SHA-256 digest, read as a little-endian number.
pub open spec fn challenge_seed(preimage: Seq<u8>) -> nat {
    le_value(sha256_digest(preimage).take(8))
}

/// The `n`-th challenged sector among `sector_set_len` sectors.
pub open spec fn sector_challenge(
    randomness: Seq<u8>,
    n: nat,
    sector_set_len: nat,
    prover_id: Seq<u8>,
) -> nat
    recommends
        sector_set_len > 0,
{
    challenge_seed(sector_challenge_preimage(randomness, n, prover_id)) % sector_set_len
}

/// The challenged leaf of sector `sector_id` for the challenge at `index`,
/// among `leaves` leaves.
pub open spec fn leaf_challenge(
    leaves: nat,
    randomness: Seq<u8>,
    sector_id: u64,
    index: u64,
) -> nat
    recommends
        leaves > 0,
{
    challenge_seed(leaf_challenge_preimage(randomness, sector_id, index)) % leaves
}

/// The first `count` leaf challenges of a sector, by index.
pub open spec fn leaf_challenges(
    leaves: nat,
    randomness: Seq<u8>,
    sector_id: u64,
    count: nat,
) -> Seq<nat> {
    Seq::new(count, |i: int| leaf_challenge(leaves, randomness, sector_id, i as u64))
}

/// Appends the bytes of `part` to `buf`.
fn append_bytes(buf: &mut Vec<u8>, part: &[u8])
    ensures
        final(buf)@ == old(buf)@ + part@,
{
    let mut i: usize = 0;
    while i < part.len()
        invariant
            i <= part.len(),
            buf@ == old(buf)@ + part@.take(i as int),
        decreases part.len() - i,
    {
        buf.push(part[i]);
        proof {
            assert(part@.take(i + 1) =~= part@.take(i as int).push(part@[i as int]));
            assert(old(buf)@ + part@.take(i + 1) =~= (old(buf)@ + part@.take(i as int)).push(
                part@[i as int],
            ));
        }
        i += 1;
    }
    proof {
        assert(part@.take(part@.len() as int) =~= part@);
    }
}

/// Hashes a preimage and reads the number it stands for.
fn seed_of(preimage: &Vec<u8>) -> (seed: u64)
    ensures
        seed as nat == challenge_seed(preimage@),
{
    let digest = sha256(preimage.as_slice());
    read_u64_le(digest.as_slice())
}

/// Generate a single sector challenge: the index, below `sector_set_len`, of
/// the `n`-th challenged sector. An empty sector set is refused.
pub fn generate_sector_challenge(
    randomness: Domain,
    n: usize,
    sector_set_len: u64,
    prover_id: Domain,
) -> (challenge: Result<u64, Error>)
    ensures
        challenge is Err <==> sector_set_len == 0,
        challenge is Err ==> challenge == Err::<u64, Error>(Error::EmptySectorSet),
        challenge is Ok ==> challenge->Ok_0 as nat == sector_challenge(
            randomness@,
            n as nat,
            sector_set_len as nat,
            prover_id@,
        ),
        challenge is Ok ==> challenge->Ok_0 < sector_set_len,
{
    if sector_set_len == 0 {
        return Err(Error::EmptySectorSet);
    }
    let mut preimage: Vec<u8> = Vec::new();
    append_bytes(&mut preimage, prover_id.bytes.as_slice());
    append_bytes(&mut preimage, randomness.bytes.as_slice());
    let index = u64_le_bytes(n as u64);
    append_bytes(&mut preimage, index.as_slice());
    proof {
        assert(preimage@ =~= sector_challenge_preimage(randomness@, n as nat, prover_id@));
    }
    let seed = seed_of(&preimage);
    Ok(seed % sector_set_len)
}

/// Generate the first `challenge_count` sector challenges. An empty sector
/// set is refused as soon as one challenge is asked for.
pub fn generate_sector_challenges(
    randomness: Domain,
    challenge_count: usize,
    sector_set_len: u64,
    prover_id: Domain,
) -> (challenges: Result<Vec<u64>, Error>)
    ensures
        challenges is Err <==> challenge_count > 0 && sector_set_len == 0,
        challenges is Err ==> challenges == Err::<Vec<u64>, Error>(Error::EmptySectorSet),
        challenges is Ok ==> {
            &&& challenges->Ok_0@.len() == challenge_count
            &&& forall|n: int|
                0 <= n < challenge_count ==> (#[trigger] challenges->Ok_0@[n]) as nat
                    == sector_challenge(randomness@, n as nat, sector_set_len as nat, prover_id@)
            &&& forall|n: int|
                0 <= n < challenge_count ==> (#[trigger] challenges->Ok_0@[n]) < sector_set_len
        },
{
    let mut challenges: Vec<u64> = Vec::new();
    let mut n: usize = 0;
    while n < challenge_count
        invariant
            n <= challenge_count,
            n > 0 ==> sector_set_len > 0,
            challenges@.len() == n,
            forall|k: int|
                0 <= k < n ==> (#[trigger] challenges@[k]) as nat == sector_challenge(
                    randomness@,
                    k as nat,
                    sector_set_len as nat,
                    prover_id@,
                ),
            forall|k: int| 0 <= k < n ==> (#[trigger] challenges@[k]) < sector_set_len,
        decreases challenge_count - n,
    {
        match generate_sector_challenge(randomness, n, sector_set_len, prover_id) {
            Ok(challenge) => {
                challenges.push(challenge);
            },
            Err(_) => {
                return Err(Error::EmptySectorSet);
            },
        }
        n += 1;
    }
    Ok(challenges)
}

/// Generates challenge, such that the range fits into the sector: the leaf,
/// among those of one sector, that the challenge at `leaf_challenge_index`
/// points at.
pub fn generate_leaf_challenge(
    pub_params: &PublicParams,
    randomness: Domain,
    sector_id: u64,
    leaf_challenge_index: u64,
) -> (challenge: u64)
    requires
        pub_params.leaves() > 0,
    ensures
        challenge as nat == leaf_challenge(
            pub_params.leaves(),
            randomness@,
            sector_id,
            leaf_challenge_index,
        ),
        (challenge as nat) < pub_params.leaves(),
{
    let mut preimage: Vec<u8> = Vec::new();
    append_bytes(&mut preimage, randomness.bytes.as_slice());
    let id = u64_le_bytes(sector_id);
    append_bytes(&mut preimage, id.as_slice());
    let index = u64_le_bytes(leaf_challenge_index);
    append_bytes(&mut preimage, index.as_slice());
    proof {
        assert(preimage@ =~= leaf_challenge_preimage(
            randomness@,
            sector_id,
            leaf_challenge_index,
        ));
    }
    let seed = seed_of(&preimage);
    seed % pub_params.sector_leaves()
}

/// Generate all challenged leaf ranges for a single sector, such that the
/// range fits into the sector: the leaf challenges at the indices below
/// `challenge_count`, in order.
pub fn generate_leaf_challenges(
    pub_params: &PublicParams,
    randomness: Domain,
    sector_id: u64,
    challenge_count: usize,
) -> (challenges: Vec<u64>)
    requires
        pub_params.leaves() > 0,
    ensures
        challenges@.len() == challenge_count,
        challenges@.map_values(|c: u64| c as nat) == leaf_challenges(
            pub_params.leaves(),
            randomness@,
            sector_id,
            challenge_count as nat,
        ),
        forall|i: int|
            0 <= i < challenge_count ==> ((#[trigger] challenges@[i]) as nat) < pub_params.leaves(),
{
    let mut challenges: Vec<u64> = Vec::new();
    let mut challenge_index: usize = 0;
    while challenge_index < challenge_count
        invariant
            challenge_index <= challenge_count,
            pub_params.leaves() > 0,
            challenges@.len() == challenge_index,
            forall|i: int|
                0 <= i < challenge_index ==> (#[trigger] challenges@[i]) as nat == leaf_challenge(
                    pub_params.leaves(),
                    randomness@,
                    sector_id,
                    i as u64,
                ),
        decreases challenge_count - challenge_index,
    {
        let challenge = generate_leaf_challenge(
            pub_params,
            randomness,
            sector_id,
            challenge_index as u64,
        );
        challenges.push(challenge);
        challenge_index += 1;
    }
    proof {
        assert(challenges@.map_values(|c: u64| c as nat) =~= leaf_challenges(
            pub_params.leaves(),
            randomness@,
            sector_id,
            challenge_count as nat,
        ));
    }
    challenges
}

} // verus!
