//! Random (version 4) generation: 122 bits drawn from the process random
//! source, with the version and variant fields forced to their RFC 4122
//! values by verified code.

use vstd::prelude::*;

use crate::value::{variant_of_byte, version_of_byte, Uuid, Variant};

verus! {

/// The byte image of a version-4 identifier built over the given entropy:
/// the entropy verbatim, except that the high nibble of byte 6 is forced to
/// `0100` (version 4) and the top two bits of byte 8 to `10` (RFC 4122).
pub open spec fn v4_layout(e: Seq<u8>) -> Seq<u8> {
    Seq::new(16, |i: int|
        if i == 6 {
            (e[6] % 16 + 0x40) as u8
        } else if i == 8 {
            (e[8] % 64 + 0x80) as u8
        } else {
            e[i]
        })
}

/// Relies on `uuid::Uuid::new_v4`, which draws a fresh identifier from a
/// cryptographically strong random source and hands back its 16 bytes;
/// nothing is assumed of a random result beyond the byte count.
#[verifier::external_body]
fn random_bytes_16() -> (r: Vec<u8>)
    ensures
        r@.len() == 16,
{
    uuid::Uuid::new_v4().into_bytes().to_vec()
}

impl Uuid {
    /// The version-4 identifier over the given 16 bytes of entropy: the
    /// entropy verbatim with the version and variant fields forced, so the
    /// result always reports version 4 and the RFC 4122 variant.
    pub fn from_random_bytes(entropy: &Vec<u8>) -> (r: Uuid)
        requires
            entropy@.len() == 16,
        ensures
            r.wf(),
            r@ == v4_layout(entropy@),
            version_of_byte(r@[6]) == Some(4u8),
            variant_of_byte(r@[8]) == Variant::Rfc4122,
    {
        let mut b: Vec<u8> = Vec::new();
        let mut i: usize = 0;
        while i < 16
            invariant
                i <= 16,
                entropy@.len() == 16,
                b@ == v4_layout(entropy@).take(i as int),
            decreases 16 - i,
        {
            let e = entropy[i];
            let forced: u8 = if i == 6 {
                e % 16 + 0x40
            } else if i == 8 {
                e % 64 + 0x80
            } else {
                e
            };
            b.push(forced);
            proof {
                assert(b@ =~= v4_layout(entropy@).take(i + 1));
            }
            i += 1;
        }
        proof {
            assert(b@ =~= v4_layout(entropy@));
        }
        Uuid::from_exact_bytes(b)
    }

    /// A fresh random identifier: version 4, RFC 4122 variant, the other
    /// 122 bits drawn from a cryptographically strong random source.
    pub fn new_v4() -> (r: Uuid)
        ensures
            r.wf(),
            version_of_byte(r@[6]) == Some(4u8),
            variant_of_byte(r@[8]) == Variant::Rfc4122,
    {
        let entropy = random_bytes_16();
        Uuid::from_random_bytes(&entropy)
    }
}

} // verus!
