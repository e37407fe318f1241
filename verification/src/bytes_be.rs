//! Big-endian interpretation of byte sequences as unsigned integers.
//!
//! The identifier type stores 16 bytes; equality, ordering and the integer
//! conversions are all specified against `nat_of_bytes`, the unsigned value
//! a byte sequence denotes when read most-significant byte first.

use vstd::prelude::*;
use vstd::arithmetic::div_mod::{
    lemma_div_denominator, lemma_fundamental_div_mod, lemma_small_mod,
};
use vstd::arithmetic::mul::{lemma_mul_inequality, lemma_mul_is_distributive_add_other_way};

verus! {

/// 256 raised to `k`.
pub open spec fn pow256(k: nat) -> nat
    decreases k,
{
    if k == 0 {
        1
    } else {
        256 * pow256((k - 1) as nat)
    }
}

/// The unsigned integer denoted by a byte sequence read big-endian.
pub open spec fn nat_of_bytes(s: Seq<u8>) -> nat
    decreases s.len(),
{
    if s.len() == 0 {
        0
    } else {
        (nat_of_bytes(s.drop_last()) * 256 + s.last()) as nat
    }
}

pub proof fn lemma_pow256_pos(k: nat)
    ensures
        pow256(k) >= 1,
    decreases k,
{
    if k > 0 {
        lemma_pow256_pos((k - 1) as nat);
    }
}

pub proof fn lemma_pow256_increases(a: nat, b: nat)
    requires
        a <= b,
    ensures
        pow256(a) <= pow256(b),
    decreases b,
{
    if a < b {
        lemma_pow256_increases(a, (b - 1) as nat);
        lemma_pow256_pos((b - 1) as nat);
    }
}

/// The concrete powers the 64- and 128-bit conversions need.
pub proof fn lemma_pow256_values()
    ensures
        pow256(0) == 1,
        pow256(1) == 0x100,
        pow256(2) == 0x10000,
        pow256(3) == 0x1000000,
        pow256(4) == 0x100000000,
        pow256(5) == 0x10000000000,
        pow256(6) == 0x1000000000000,
        pow256(7) == 0x100000000000000,
        pow256(8) == 0x10000000000000000,
        pow256(16) == 0x100000000000000000000000000000000,
{
    reveal_with_fuel(pow256, 17);
}

pub proof fn lemma_nat_of_bytes_bound(s: Seq<u8>)
    ensures
        nat_of_bytes(s) < pow256(s.len()),
    decreases s.len(),
{
    if s.len() > 0 {
        lemma_nat_of_bytes_bound(s.drop_last());
    }
}

/// Reading a concatenation big-endian: the left part is shifted past the right part.
pub proof fn lemma_nat_of_bytes_concat(s: Seq<u8>, t: Seq<u8>)
    ensures
        nat_of_bytes(s + t) == nat_of_bytes(s) * pow256(t.len()) + nat_of_bytes(t),
    decreases t.len(),
{
    if t.len() == 0 {
        assert(s + t =~= s);
        assert(pow256(t.len()) == 1);
        assert(nat_of_bytes(s) * pow256(t.len()) == nat_of_bytes(s)) by (nonlinear_arith)
            requires
                pow256(t.len()) == 1,
        ;
    } else {
        let tl = t.drop_last();
        lemma_nat_of_bytes_concat(s, tl);
        assert((s + t).drop_last() =~= s + tl);
        assert((s + t).last() == t.last());
        let a = nat_of_bytes(s);
        let p = pow256(tl.len());
        assert(pow256(t.len()) == 256 * p);
        assert(nat_of_bytes(s + t) == nat_of_bytes(s + tl) * 256 + t.last());
        assert(nat_of_bytes(s + tl) == a * p + nat_of_bytes(tl));
        assert(nat_of_bytes(t) == nat_of_bytes(tl) * 256 + t.last());
        assert((a * p + nat_of_bytes(tl)) * 256 == a * (256 * p) + nat_of_bytes(tl) * 256)
            by (nonlinear_arith);
        assert(a * (256 * p) >= 0) by (nonlinear_arith);
        assert(nat_of_bytes(s + t) == a * pow256(t.len()) + nat_of_bytes(t));
    }
}

/// Equal-length byte sequences with the same big-endian value are equal.
pub proof fn lemma_nat_of_bytes_injective(s: Seq<u8>, t: Seq<u8>)
    requires
        s.len() == t.len(),
        nat_of_bytes(s) == nat_of_bytes(t),
    ensures
        s == t,
    decreases s.len(),
{
    if s.len() > 0 {
        assert(s.last() == t.last() && nat_of_bytes(s.drop_last()) == nat_of_bytes(t.drop_last()));
        lemma_nat_of_bytes_injective(s.drop_last(), t.drop_last());
        assert forall|i: int| 0 <= i < s.len() implies s[i] == t[i] by {
            if i < s.len() - 1 {
                assert(s.drop_last()[i] == s[i]);
                assert(t.drop_last()[i] == t[i]);
                assert(s.drop_last() == t.drop_last());
            } else {
                assert(s.last() == t.last());
            }
        }
        assert(s =~= t);
    } else {
        assert(s =~= t);
    }
}

/// The first byte of a nonempty sequence carries the most significant weight.
proof fn lemma_nat_of_bytes_split_first(s: Seq<u8>)
    requires
        s.len() > 0,
    ensures
        nat_of_bytes(s) == s[0] * pow256((s.len() - 1) as nat) + nat_of_bytes(s.skip(1)),
{
    let head = seq![s[0]];
    assert(s =~= head + s.skip(1));
    assert(head.len() == 1);
    assert(head.drop_last() =~= Seq::<u8>::empty());
    assert(nat_of_bytes(Seq::<u8>::empty()) == 0);
    assert(nat_of_bytes(head) == nat_of_bytes(head.drop_last()) * 256 + head.last());
    assert(nat_of_bytes(head) == s[0]);
    lemma_nat_of_bytes_concat(head, s.skip(1));
}

/// Lexicographic comparison of equal-length byte sequences agrees with the
/// order of their big-endian values: if the sequences first differ at `i`,
/// the one with the smaller byte there has the smaller value.
pub proof fn lemma_nat_of_bytes_lex(s: Seq<u8>, t: Seq<u8>, i: int)
    requires
        s.len() == t.len(),
        0 <= i < s.len(),
        forall|j: int| 0 <= j < i ==> s[j] == t[j],
        s[i] < t[i],
    ensures
        nat_of_bytes(s) < nat_of_bytes(t),
{
    assert(s =~= s.take(i) + s.skip(i));
    assert(t =~= t.take(i) + t.skip(i));
    assert(s.take(i) =~= t.take(i));
    lemma_nat_of_bytes_concat(s.take(i), s.skip(i));
    lemma_nat_of_bytes_concat(t.take(i), t.skip(i));
    let ss = s.skip(i);
    let ts = t.skip(i);
    lemma_nat_of_bytes_split_first(ss);
    lemma_nat_of_bytes_split_first(ts);
    let p = pow256((ss.len() - 1) as nat);
    lemma_nat_of_bytes_bound(ss.skip(1));
    assert(nat_of_bytes(ss) < (ss[0] + 1) * p) by {
        lemma_mul_is_distributive_add_other_way(p as int, ss[0] as int, 1);
    }
    assert((ss[0] + 1) * p <= ts[0] * p) by {
        lemma_mul_inequality(ss[0] + 1, ts[0] as int, p as int);
    }
    assert(nat_of_bytes(ss) < nat_of_bytes(ts));
}

/// Exec table of the powers of 256 that fit in a `u64`.
pub(crate) fn pow256_u64(k: usize) -> (r: u64)
    requires
        k < 8,
    ensures
        r as nat == pow256(k as nat),
        r >= 1,
{
    proof {
        lemma_pow256_values();
    }
    if k == 0 {
        1
    } else if k == 1 {
        0x100
    } else if k == 2 {
        0x10000
    } else if k == 3 {
        0x1000000
    } else if k == 4 {
        0x100000000
    } else if k == 5 {
        0x10000000000
    } else if k == 6 {
        0x1000000000000
    } else {
        0x100000000000000
    }
}

/// Appends the 8 big-endian bytes of `x` to `out`.
pub(crate) fn push_be_u64(out: &mut Vec<u8>, x: u64)
    ensures
        final(out)@.len() == old(out)@.len() + 8,
        final(out)@.take(old(out)@.len() as int) == old(out)@,
        nat_of_bytes(final(out)@.skip(old(out)@.len() as int)) == x as nat,
{
    let base = out.len();
    proof {
        lemma_pow256_values();
        assert(out@.skip(base as int) =~= Seq::<u8>::empty());
        vstd::arithmetic::div_mod::lemma_basic_div(x as int, pow256(8) as int);
    }
    let mut j: usize = 8;
    while j > 0
        invariant
            j <= 8,
            base == old(out)@.len(),
            out@.len() == base + 8 - j,
            out@.take(base as int) == old(out)@,
            nat_of_bytes(out@.skip(base as int)) == (x as nat) / pow256(j as nat),
        decreases j,
    {
        let ghost suffix = out@.skip(base as int);
        j -= 1;
        let p = pow256_u64(j);
        let b = ((x / p) % 256) as u8;
        out.push(b);
        proof {
            assert(out@.take(base as int) =~= old(out)@);
            assert(out@.skip(base as int) =~= suffix.push(b));
            let q = (x as nat) / pow256(j as nat);
            assert((x as nat) / pow256((j + 1) as nat) == q / 256) by {
                lemma_pow256_pos(j as nat);
                lemma_div_denominator(x as int, pow256(j as nat) as int, 256);
                assert(pow256((j + 1) as nat) == 256 * pow256(j as nat));
                assert(pow256(j as nat) * 256 == 256 * pow256(j as nat)) by (nonlinear_arith);
            }
            lemma_fundamental_div_mod(q as int, 256);
            assert(b as nat == q % 256);
            assert(nat_of_bytes(suffix.push(b)) == nat_of_bytes(suffix) * 256 + b) by {
                assert(suffix.push(b).drop_last() =~= suffix);
            }
            assert(nat_of_bytes(out@.skip(base as int)) == q);
        }
    }
    proof {
        assert((x as nat) / pow256(0) == x as nat) by {
            lemma_small_mod(0, 1);
            assert((x as nat) / 1 == x as nat);
        }
    }
}

/// Reads 8 bytes of `v` starting at `start` as a big-endian `u64`.
pub(crate) fn be_u64_at(v: &Vec<u8>, start: usize) -> (x: u64)
    requires
        start + 8 <= v@.len(),
    ensures
        x as nat == nat_of_bytes(v@.subrange(start as int, start as int + 8)),
{
    let n = v.len();
    let mut acc: u64 = 0;
    let mut i: usize = 0;
    while i < 8
        invariant
            i <= 8,
            n == v@.len(),
            start + 8 <= n,
            acc as nat == nat_of_bytes(v@.subrange(start as int, start as int + i)),
            (acc as nat) < pow256(i as nat),
        decreases 8 - i,
    {
        proof {
            lemma_pow256_values();
            lemma_pow256_increases(i as nat, 7);
        }
        let b = v[start + i];
        acc = acc * 256 + b as u64;
        proof {
            let sub1 = v@.subrange(start as int, start as int + i + 1);
            assert(sub1.drop_last() =~= v@.subrange(start as int, start as int + i));
            assert(sub1.last() == v@[start as int + i]);
        }
        i += 1;
    }
    acc
}

} // verus!
