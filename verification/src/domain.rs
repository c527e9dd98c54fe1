//! Domain elements: the 32-byte values that commitments, tree nodes and
//! randomness are made of.

use vstd::prelude::*;

verus! {

/// Number of bytes of a domain element, and of a tree node.
pub const NODE_SIZE: usize = 32;

/// A commitment, tree node or random value: 32 bytes, read as a little-endian
/// number where it is hashed as a field element.
#[derive(Debug, Clone, Copy, PartialEq, Eq)]
pub struct Domain {
    pub bytes: [u8; 32],
}

impl View for Domain {
    type V = Seq<u8>;

    open spec fn view(&self) -> Seq<u8> {
        self.bytes@
    }
}

/// The number that the bytes `s[k..]` spell in little-endian order.
pub open spec fn le_value_from(s: Seq<u8>, k: int) -> nat
    decreases s.len() - k,
{
    if 0 <= k < s.len() {
        s[k] as nat + 256 * le_value_from(s, k + 1)
    } else {
        0
    }
}

/// The number that the bytes `s` spell in little-endian order.
pub open spec fn le_value(s: Seq<u8>) -> nat {
    le_value_from(s, 0)
}

/// The order of the scalar field, in little-endian bytes.
pub open spec fn scalar_modulus_le() -> Seq<u8> {
    seq![
        0x01u8, 0x00, 0x00, 0x00, 0xff, 0xff, 0xff, 0xff,
        0xfe, 0x5b, 0xfe, 0xff, 0x02, 0xa4, 0xbd, 0x53,
        0x05, 0xd8, 0xa1, 0x09, 0x08, 0xd8, 0x39, 0x33,
        0x48, 0x7d, 0x9d, 0x29, 0x53, 0xa7, 0xed, 0x73,
    ]
}

/// Whether 32 bytes are the canonical form of a scalar: as a little-endian
/// number they lie below the order of the field.
pub open spec fn is_scalar(s: Seq<u8>) -> bool {
    s.len() == 32 && le_value(s) < le_value(scalar_modulus_le())
}

impl Domain {
    /// The element made of 32 zero bytes.
    pub fn zero() -> (d: Domain)
        ensures
            d@ == Seq::new(32, |i: int| 0u8),
    {
        let d = Domain { bytes: [0u8; 32] };
        assert(d@ =~= Seq::new(32, |i: int| 0u8));
        d
    }

    /// Reads an element from exactly 32 bytes.
    pub fn try_from_bytes(raw: &[u8]) -> (d: Option<Domain>)
        ensures
            d is Some <==> raw@.len() == 32,
            d is Some ==> d->0@ == raw@,
    {
        if raw.len() != 32 {
            return None;
        }
        let mut bytes = [0u8; 32];
        let mut i: usize = 0;
        while i < 32
            invariant
                i <= 32,
                raw@.len() == 32,
                forall|j: int| 0 <= j < i ==> bytes@[j] == raw@[j],
            decreases 32 - i,
        {
            bytes[i] = raw[i];
            i += 1;
        }
        assert(bytes@ =~= raw@);
        Some(Domain { bytes })
    }

    /// The bytes of the element.
    pub fn into_bytes(&self) -> (v: Vec<u8>)
        ensures
            v@ == self@,
    {
        let mut v: Vec<u8> = Vec::new();
        let mut i: usize = 0;
        while i < 32
            invariant
                i <= 32,
                v@ == self@.take(i as int),
            decreases 32 - i,
        {
            v.push(self.bytes[i]);
            assert(self@.take(i + 1) =~= self@.take(i as int).push(self@[i as int]));
            i += 1;
        }
        assert(self@.take(32) =~= self@);
        v
    }

    /// Byte-wise equality.
    pub fn same(&self, other: &Domain) -> (r: bool)
        ensures
            r == (self@ == other@),
    {
        let mut i: usize = 0;
        while i < 32
            invariant
                i <= 32,
                forall|j: int| 0 <= j < i ==> self@[j] == other@[j],
            decreases 32 - i,
        {
            if self.bytes[i] != other.bytes[i] {
                return false;
            }
            i += 1;
        }
        assert(self@ =~= other@);
        true
    }

    /// Whether the element is the canonical form of a scalar.
    pub fn is_field_element(&self) -> (r: bool)
        ensures
            r == is_scalar(self@),
    {
        let modulus: [u8; 32] = [
            0x01u8, 0x00, 0x00, 0x00, 0xff, 0xff, 0xff, 0xff,
            0xfe, 0x5b, 0xfe, 0xff, 0x02, 0xa4, 0xbd, 0x53,
            0x05, 0xd8, 0xa1, 0x09, 0x08, 0xd8, 0x39, 0x33,
            0x48, 0x7d, 0x9d, 0x29, 0x53, 0xa7, 0xed, 0x73,
        ];
        assert(modulus@ =~= scalar_modulus_le());
        let ghost a = self@;
        let ghost m = modulus@;
        // Walk from the most significant byte down; `below` records whether
        // the bytes read so far already decide the comparison.
        let mut k: usize = 32;
        let mut below = false;
        let mut equal = true;
        while k > 0
            invariant
                k <= 32,
                a == self@,
                m == modulus@,
                a.len() == 32,
                m.len() == 32,
                below ==> le_value_from(a, k as int) < le_value_from(m, k as int),
                equal ==> le_value_from(a, k as int) == le_value_from(m, k as int),
                !below && !equal ==> le_value_from(a, k as int) > le_value_from(m, k as int),
                !(below && equal),
            decreases k,
        {
            k -= 1;
            let x = self.bytes[k];
            let y = modulus[k];
            if equal {
                if x < y {
                    below = true;
                    equal = false;
                } else if x > y {
                    equal = false;
                }
            }
        }
        below
    }
}

} // verus!
