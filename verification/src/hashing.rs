//! The hash functions that the protocol is built on, and integers as
//! little-endian bytes.

use vstd::prelude::*;
use crate::domain::{is_scalar, le_value, Domain};

verus! {

/// The SHA-256 digest of `data`.
pub uninterp spec fn sha256_digest(data: Seq<u8>) -> Seq<u8>;

/// The Poseidon hash of the two scalars whose canonical bytes are `a` and
/// `b`, in canonical bytes.
pub uninterp spec fn poseidon_hash2(a: Seq<u8>, b: Seq<u8>) -> Seq<u8>;

/// `sha2::Sha256::digest`: the result is the SHA-256 digest of the input, a
/// function of the input bytes alone.
#[verifier::external_body]
pub(crate) fn sha256(data: &[u8]) -> (digest: [u8; 32])
    ensures
        digest@ == sha256_digest(data@),
{
    let mut out = [0u8; 32];
    out.copy_from_slice(&<sha2::Sha256 as sha2::Digest>::digest(data));
    out
}

/// `byteorder::LittleEndian::read_u64`: reads the first eight bytes of the
/// buffer as a little-endian number. It panics on a shorter buffer, which the
/// precondition excludes.
#[verifier::external_body]
pub(crate) fn read_u64_le(buf: &[u8]) -> (v: u64)
    requires
        buf@.len() >= 8,
    ensures
        v as nat == le_value(buf@.take(8)),
{
    <byteorder::LittleEndian as byteorder::ByteOrder>::read_u64(buf)
}

/// `filecoin_hashers::poseidon::PoseidonFunction::hash2`: hashes two domain
/// elements, a function of their bytes alone. It panics where an element is
/// not the canonical form of a scalar, which the precondition excludes.
#[verifier::external_body]
pub(crate) fn poseidon_hash2_of(a: &Domain, b: &Domain) -> (h: Domain)
    requires
        is_scalar(a@),
        is_scalar(b@),
    ensures
        h@ == poseidon_hash2(a@, b@),
{
    let x = filecoin_hashers::poseidon::PoseidonDomain::from(a.bytes);
    let y = filecoin_hashers::poseidon::PoseidonDomain::from(b.bytes);
    let h = <filecoin_hashers::poseidon::PoseidonFunction as filecoin_hashers::HashFunction<
        filecoin_hashers::poseidon::PoseidonDomain,
    >>::hash2(&x, &y);
    Domain { bytes: h.into() }
}

/// The hash of two domain elements, where both are canonical scalars.
pub open spec fn hash2_spec(a: Seq<u8>, b: Seq<u8>) -> Option<Seq<u8>> {
    if is_scalar(a) && is_scalar(b) {
        Some(poseidon_hash2(a, b))
    } else {
        None
    }
}

/// Hashes two domain elements into one. There is a hash exactly where both
/// elements are canonical scalars.
pub fn hash2(a: &Domain, b: &Domain) -> (h: Option<Domain>)
    ensures
        h is Some <==> is_scalar(a@) && is_scalar(b@),
        match h {
            Some(d) => hash2_spec(a@, b@) == Some(d@),
            None => hash2_spec(a@, b@) is None,
        },
{
    if a.is_field_element() && b.is_field_element() {
        Some(poseidon_hash2_of(a, b))
    } else {
        None
    }
}

/// The `len` low bytes of `x`, least significant first.
pub open spec fn le_bytes(x: nat, len: nat) -> Seq<u8>
    decreases len,
{
    if len == 0 {
        Seq::empty()
    } else {
        seq![(x % 256) as u8] + le_bytes(x / 256, (len - 1) as nat)
    }
}

/// Writes `x` on eight bytes, least significant first.
pub fn u64_le_bytes(x: u64) -> (bytes: [u8; 8])
    ensures
        bytes@ == le_bytes(x as nat, 8),
{
    let mut bytes = [0u8; 8];
    let mut rest: u64 = x;
    let mut i: usize = 0;
    proof {
        assert(le_bytes(x as nat, 0) =~= Seq::<u8>::empty());
    }
    while i < 8
        invariant
            i <= 8,
            bytes@.len() == 8,
            le_bytes(x as nat, 8) == bytes@.take(i as int) + le_bytes(rest as nat, (8 - i) as nat),
        decreases 8 - i,
    {
        let b: u8 = (rest % 256) as u8;
        bytes[i] = b;
        proof {
            let prev = rest as nat;
            assert(le_bytes(prev, (8 - i) as nat) == seq![(prev % 256) as u8] + le_bytes(
                prev / 256,
                (8 - i - 1) as nat,
            ));
            assert(bytes@.take(i + 1) =~= bytes@.take(i as int) + seq![b]);
            assert(bytes@.take(i as int) + (seq![b] + le_bytes(prev / 256, (8 - i - 1) as nat))
                =~= bytes@.take(i + 1) + le_bytes(prev / 256, (8 - i - 1) as nat));
        }
        rest = rest / 256;
        i += 1;
    }
    proof {
        assert(le_bytes(rest as nat, 0) =~= Seq::<u8>::empty());
        assert(bytes@.take(8) =~= bytes@);
        assert(bytes@ + Seq::<u8>::empty() =~= bytes@);
    }
    bytes
}

} // verus!
