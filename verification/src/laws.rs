//! The laws the value type obeys, stated over the byte-image model and
//! proved once for all values: the text and integer round trips, totality
//! of the order, hash consistency, and the nil/max identities.

use vstd::prelude::*;

use crate::bytes_be::{
    lemma_nat_of_bytes_injective, lemma_nat_of_bytes_lex, nat_of_bytes, pow256,
};
use crate::text::{
    bytes_of_hyphenated, bytes_of_text, digit_pos, hex_char, is_hex_digit, is_hyphen_pos,
    is_hyphenated, is_uuid_text, lemma_digit_pos, lemma_hex_char, lemma_undigit, nibble_of,
    text_of, undigit,
};
use crate::value::{max_bytes, nil_bytes};

verus! {

/// Text round trip: the canonical text of any 16-byte image is accepted by
/// the grammar and denotes exactly that image, so parsing what the
/// formatter emits gives back the value.
pub proof fn lemma_text_round_trip(b: Seq<u8>)
    requires
        b.len() == 16,
    ensures
        is_hyphenated(text_of(b)),
        is_uuid_text(text_of(b)),
        bytes_of_text(text_of(b)) == b,
{
    let t = text_of(b);
    assert forall|i: int| 0 <= i < 36 && !is_hyphen_pos(i) implies is_hex_digit(t[i]) by {
        lemma_undigit(i);
        lemma_hex_char(nibble_of(b, undigit(i)));
    }
    assert(is_hyphenated(t));
    let parsed = bytes_of_hyphenated(t);
    assert forall|i: int| 0 <= i < 16 implies parsed[i] == b[i] by {
        lemma_digit_pos(2 * i);
        lemma_digit_pos(2 * i + 1);
        lemma_hex_char(nibble_of(b, 2 * i));
        lemma_hex_char(nibble_of(b, 2 * i + 1));
        assert(t[digit_pos(2 * i)] == hex_char(nibble_of(b, 2 * i)));
        assert(t[digit_pos(2 * i + 1)] == hex_char(nibble_of(b, 2 * i + 1)));
        vstd::arithmetic::div_mod::lemma_fundamental_div_mod(b[i] as int, 16);
    }
    assert(parsed =~= b);
}

/// Integer round trip: two 16-byte images with the same unsigned
/// big-endian value are the same image, so a value rebuilt from its
/// 128-bit integer (or from its 64-bit pair, or from its bytes) is the
/// value itself.
pub proof fn lemma_integer_round_trip(a: Seq<u8>, b: Seq<u8>)
    requires
        a.len() == 16,
        b.len() == 16,
        nat_of_bytes(a) == nat_of_bytes(b),
    ensures
        a == b,
{
    lemma_nat_of_bytes_injective(a, b);
}

/// Ordering totality: of `a < b`, `a == b` and `b < a` (in the unsigned
/// big-endian integer order of the storage) exactly one holds for any two
/// 16-byte images.
pub proof fn lemma_order_trichotomy(a: Seq<u8>, b: Seq<u8>)
    requires
        a.len() == 16,
        b.len() == 16,
    ensures
        nat_of_bytes(a) < nat_of_bytes(b) || a == b || nat_of_bytes(b) < nat_of_bytes(a),
        nat_of_bytes(a) < nat_of_bytes(b) ==> a != b,
        nat_of_bytes(b) < nat_of_bytes(a) ==> a != b,
        !(nat_of_bytes(a) < nat_of_bytes(b) && nat_of_bytes(b) < nat_of_bytes(a)),
{
    if nat_of_bytes(a) == nat_of_bytes(b) {
        lemma_nat_of_bytes_injective(a, b);
    }
}

/// One byte sequence precedes another lexicographically: at the first
/// index where they differ, it holds the smaller byte.
pub open spec fn lex_lt(s: Seq<u8>, t: Seq<u8>) -> bool {
    exists|i: int|
        0 <= i < s.len() && s[i] < t[i] && (forall|j: int| 0 <= j < i ==> s[j] == t[j])
}

/// Where two distinct equal-length sequences first differ.
proof fn lemma_first_difference(s: Seq<u8>, t: Seq<u8>) -> (i: int)
    requires
        s.len() == t.len(),
        s != t,
    ensures
        0 <= i < s.len(),
        s[i] != t[i],
        forall|j: int| 0 <= j < i ==> s[j] == t[j],
    decreases s.len(),
{
    if s.len() == 0 {
        assert(s =~= t);
        0
    } else if s[0] != t[0] {
        0
    } else {
        let ss = s.skip(1);
        let ts = t.skip(1);
        assert(ss != ts) by {
            if ss == ts {
                assert forall|j: int| 0 <= j < s.len() implies s[j] == t[j] by {
                    if j > 0 {
                        assert(ss[j - 1] == s[j]);
                        assert(ts[j - 1] == t[j]);
                    }
                }
                assert(s =~= t);
            }
        }
        let k = lemma_first_difference(ss, ts);
        assert(s[k + 1] != t[k + 1]);
        assert forall|j: int| 0 <= j < k + 1 implies s[j] == t[j] by {
            if j > 0 {
                assert(ss[j - 1] == ts[j - 1]);
            }
        }
        k + 1
    }
}

/// Storage-order invariant: lexicographic comparison of two 16-byte images
/// is equivalent to comparison of their unsigned big-endian integers.
pub proof fn lemma_lex_order_equivalence(a: Seq<u8>, b: Seq<u8>)
    requires
        a.len() == 16,
        b.len() == 16,
    ensures
        lex_lt(a, b) <==> nat_of_bytes(a) < nat_of_bytes(b),
{
    if lex_lt(a, b) {
        let i = choose|i: int|
            0 <= i < a.len() && a[i] < b[i] && (forall|j: int| 0 <= j < i ==> a[j] == b[j]);
        lemma_nat_of_bytes_lex(a, b, i);
    }
    if nat_of_bytes(a) < nat_of_bytes(b) {
        assert(a != b);
        let i = lemma_first_difference(a, b);
        if b[i] < a[i] {
            lemma_nat_of_bytes_lex(b, a, i);
        }
        assert(a[i] < b[i]);
        assert(lex_lt(a, b));
    }
}

/// Hash consistency: the hash is a function of the byte image alone, so
/// equal values hash equal.
pub proof fn lemma_hash_consistency(a: Seq<u8>, b: Seq<u8>)
    requires
        a == b,
    ensures
        crate::value::fnv1a(a) == crate::value::fnv1a(b),
{
}

/// Nil and max identity: among 16-byte images, exactly the all-zero image
/// has integer value zero, and exactly the all-ones image has the largest
/// 128-bit value.
pub proof fn lemma_nil_max_identity(u: Seq<u8>)
    requires
        u.len() == 16,
    ensures
        (u == nil_bytes()) <==> nat_of_bytes(u) == 0,
        (u == max_bytes()) <==> nat_of_bytes(u) == pow256(16) - 1,
{
    crate::value::lemma_nat_of_zeros(16);
    crate::value::lemma_nat_of_ones(16);
    assert(nil_bytes().len() == 16);
    assert(max_bytes().len() == 16);
    if nat_of_bytes(u) == 0 {
        lemma_nat_of_bytes_injective(u, nil_bytes());
    }
    if nat_of_bytes(u) == pow256(16) - 1 {
        lemma_nat_of_bytes_injective(u, max_bytes());
    }
}

} // verus!
