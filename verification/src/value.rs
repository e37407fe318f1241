//! The UUID value type: 16 bytes of big-endian storage with total
//! construction, inspection, comparison and hashing operations.

use vstd::prelude::*;

use crate::bytes_be::{
    be_u64_at, lemma_nat_of_bytes_concat, lemma_nat_of_bytes_lex, lemma_pow256_values,
    nat_of_bytes, pow256, push_be_u64,
};
use crate::error::UuidError;

verus! {

/// The all-zero byte image: the storage of the nil identifier.
pub open spec fn nil_bytes() -> Seq<u8> {
    Seq::new(16, |i: int| 0u8)
}

/// The all-ones byte image: the storage of the max identifier.
pub open spec fn max_bytes() -> Seq<u8> {
    Seq::new(16, |i: int| 0xFFu8)
}

/// The RFC 4122 layout family a value belongs to.
#[derive(Clone, Copy, Debug, PartialEq, Eq, Structural)]
pub enum Variant {
    Ncs,
    Rfc4122,
    Microsoft,
    Future,
}

impl Variant {
    /// The name the family goes by.
    pub fn name(&self) -> (r: &'static str)
        ensures
            self is Ncs ==> r@ == "NCS"@,
            self is Rfc4122 ==> r@ == "RFC4122"@,
            self is Microsoft ==> r@ == "Microsoft"@,
            self is Future ==> r@ == "Future"@,
    {
        match self {
            Variant::Ncs => "NCS",
            Variant::Rfc4122 => "RFC4122",
            Variant::Microsoft => "Microsoft",
            Variant::Future => "Future",
        }
    }
}

/// The family the top bits of byte 8 place a value in: `0xx` is NCS,
/// `10x` is RFC 4122, `110` is Microsoft, `111` is future/reserved.
pub open spec fn variant_of_byte(b: u8) -> Variant {
    if b < 0x80 {
        Variant::Ncs
    } else if b < 0xC0 {
        Variant::Rfc4122
    } else if b < 0xE0 {
        Variant::Microsoft
    } else {
        Variant::Future
    }
}

/// The version a value reports: the high nibble of byte 6 when it lies in
/// 1 through 8, and no version otherwise.
pub open spec fn version_of_byte(b: u8) -> Option<u8> {
    if 1 <= b / 16 && b / 16 <= 8 {
        Some(b / 16)
    } else {
        None
    }
}

/// FNV-1a over a byte sequence: the 64-bit hash of an identifier.
pub open spec fn fnv1a(s: Seq<u8>) -> u64
    decreases s.len(),
{
    if s.len() == 0 {
        0xcbf29ce484222325u64
    } else {
        ((((fnv1a(s.drop_last()) ^ s.last() as u64) as nat) * 0x100000001b3)
            % 0x10000000000000000) as u64
    }
}

/// An RFC 4122 universally unique identifier: an immutable 128-bit value
/// held as exactly 16 bytes in big-endian network order.
#[derive(Clone, Debug, Eq, Hash)]
pub struct Uuid {
    bytes: Vec<u8>,
}

impl View for Uuid {
    type V = Seq<u8>;

    closed spec fn view(&self) -> Seq<u8> {
        self.bytes@
    }
}

impl PartialEq for Uuid {
    /// Bytewise identity of the 16-byte storage.
    fn eq(&self, other: &Uuid) -> (r: bool) {
        if self.bytes.len() != other.bytes.len() {
            return false;
        }
        let n = self.bytes.len();
        let mut i: usize = 0;
        while i < n
            invariant
                i <= n,
                n == self.bytes@.len(),
                n == other.bytes@.len(),
                forall|j: int| 0 <= j < i ==> self.bytes@[j] == other.bytes@[j],
            decreases n - i,
        {
            if self.bytes[i] != other.bytes[i] {
                return false;
            }
            i += 1;
        }
        proof {
            assert(self@ =~= other@);
        }
        true
    }
}

impl vstd::std_specs::cmp::PartialEqSpecImpl for Uuid {
    open spec fn obeys_eq_spec() -> bool {
        true
    }

    open spec fn eq_spec(&self, other: &Uuid) -> bool {
        self@ == other@
    }
}

impl Uuid {
    /// The storage invariant: exactly 16 bytes at all times.
    pub open spec fn wf(&self) -> bool {
        self@.len() == 16
    }

    /// Wraps exactly 16 bytes of storage.
    pub(crate) fn from_exact_bytes(bytes: Vec<u8>) -> (r: Uuid)
        requires
            bytes@.len() == 16,
        ensures
            r.wf(),
            r@ == bytes@,
    {
        Uuid { bytes }
    }

    /// Copies the given bytes verbatim as big-endian storage; fails with the
    /// received length unless exactly 16 bytes are given.
    pub fn from_bytes(input: &[u8]) -> (r: Result<Uuid, UuidError>)
        ensures
            r is Ok <==> input@.len() == 16,
            r is Ok ==> r->Ok_0.wf() && r->Ok_0@ == input@,
            r is Err ==> r->Err_0 == (UuidError::MalformedBytes { len: input@.len() as usize }),
    {
        if input.len() != 16 {
            return Err(UuidError::MalformedBytes { len: input.len() });
        }
        let mut b: Vec<u8> = Vec::new();
        let mut i: usize = 0;
        while i < 16
            invariant
                i <= 16,
                input@.len() == 16,
                b@ == input@.take(i as int),
            decreases 16 - i,
        {
            b.push(input[i]);
            proof {
                assert(b@ =~= input@.take(i + 1));
            }
            i += 1;
        }
        proof {
            assert(b@ =~= input@);
        }
        Ok(Uuid { bytes: b })
    }

    /// The identifier whose first 8 bytes render `high` and whose last 8
    /// bytes render `low`, both big-endian.
    pub fn from_u64_pair(high: u64, low: u64) -> (r: Uuid)
        ensures
            r.wf(),
            nat_of_bytes(r@.subrange(0, 8)) == high as nat,
            nat_of_bytes(r@.subrange(8, 16)) == low as nat,
            nat_of_bytes(r@) == (high as nat) * 0x10000000000000000 + low as nat,
    {
        let mut b: Vec<u8> = Vec::new();
        push_be_u64(&mut b, high);
        let ghost first = b@;
        push_be_u64(&mut b, low);
        proof {
            assert(first.skip(0) =~= first);
            assert(b@.take(8) =~= first);
            assert(b@.subrange(0, 8) =~= first);
            assert(b@.subrange(8, 16) =~= b@.skip(8));
            assert(b@ =~= b@.subrange(0, 8) + b@.subrange(8, 16));
            lemma_nat_of_bytes_concat(b@.subrange(0, 8), b@.subrange(8, 16));
            lemma_pow256_values();
        }
        Uuid { bytes: b }
    }

    /// The identifier with the given 128-bit value, rendered as 16
    /// big-endian bytes.
    pub fn from_u128(value: u128) -> (r: Uuid)
        ensures
            r.wf(),
            nat_of_bytes(r@) == value as nat,
    {
        proof {
            vstd::arithmetic::div_mod::lemma_fundamental_div_mod(
                value as int,
                0x10000000000000000,
            );
        }
        let high = (value / 0x10000000000000000) as u64;
        let low = (value % 0x10000000000000000) as u64;
        Uuid::from_u64_pair(high, low)
    }

    /// The nil identifier: all 16 bytes zero.
    pub fn nil() -> (r: Uuid)
        ensures
            r.wf(),
            r@ == nil_bytes(),
            nat_of_bytes(r@) == 0,
    {
        let mut b: Vec<u8> = Vec::new();
        let mut i: usize = 0;
        while i < 16
            invariant
                i <= 16,
                b@ == nil_bytes().take(i as int),
            decreases 16 - i,
        {
            b.push(0);
            proof {
                assert(b@ =~= nil_bytes().take(i + 1));
            }
            i += 1;
        }
        proof {
            assert(b@ =~= nil_bytes());
            lemma_nat_of_zeros(16);
        }
        Uuid { bytes: b }
    }

    /// The max identifier: all 16 bytes `0xFF`.
    pub fn max() -> (r: Uuid)
        ensures
            r.wf(),
            r@ == max_bytes(),
            nat_of_bytes(r@) == pow256(16) - 1,
    {
        let mut b: Vec<u8> = Vec::new();
        let mut i: usize = 0;
        while i < 16
            invariant
                i <= 16,
                b@ == max_bytes().take(i as int),
            decreases 16 - i,
        {
            b.push(0xFF);
            proof {
                assert(b@ =~= max_bytes().take(i + 1));
            }
            i += 1;
        }
        proof {
            assert(b@ =~= max_bytes());
            lemma_nat_of_ones(16);
        }
        Uuid { bytes: b }
    }

    /// The DNS namespace identifier of RFC 4122 Appendix C.
    pub fn namespace_dns() -> (r: Uuid)
        ensures
            r.wf(),
            nat_of_bytes(r@) == 0x6ba7b8109dad11d180b400c04fd430c8,
    {
        Uuid::from_u128(0x6ba7b8109dad11d180b400c04fd430c8)
    }

    /// The URL namespace identifier of RFC 4122 Appendix C.
    pub fn namespace_url() -> (r: Uuid)
        ensures
            r.wf(),
            nat_of_bytes(r@) == 0x6ba7b8119dad11d180b400c04fd430c8,
    {
        Uuid::from_u128(0x6ba7b8119dad11d180b400c04fd430c8)
    }

    /// The OID namespace identifier of RFC 4122 Appendix C.
    pub fn namespace_oid() -> (r: Uuid)
        ensures
            r.wf(),
            nat_of_bytes(r@) == 0x6ba7b8129dad11d180b400c04fd430c8,
    {
        Uuid::from_u128(0x6ba7b8129dad11d180b400c04fd430c8)
    }

    /// The X.500 namespace identifier of RFC 4122 Appendix C.
    pub fn namespace_x500() -> (r: Uuid)
        ensures
            r.wf(),
            nat_of_bytes(r@) == 0x6ba7b8149dad11d180b400c04fd430c8,
    {
        Uuid::from_u128(0x6ba7b8149dad11d180b400c04fd430c8)
    }

    /// The raw 16-byte content.
    pub fn bytes(&self) -> (r: Vec<u8>)
        requires
            self.wf(),
        ensures
            r@ == self@,
    {
        let mut out: Vec<u8> = Vec::new();
        let mut i: usize = 0;
        while i < 16
            invariant
                i <= 16,
                self.wf(),
                out@ == self@.take(i as int),
            decreases 16 - i,
        {
            out.push(self.bytes[i]);
            proof {
                assert(out@ =~= self@.take(i + 1));
            }
            i += 1;
        }
        proof {
            assert(out@ =~= self@);
        }
        out
    }

    /// One byte of the storage.
    pub fn byte_at(&self, i: usize) -> (r: u8)
        requires
            self.wf(),
            i < 16,
        ensures
            r == self@[i as int],
    {
        self.bytes[i]
    }

    /// The value as an unsigned 128-bit integer, read big-endian.
    pub fn as_u128(&self) -> (r: u128)
        requires
            self.wf(),
        ensures
            r as nat == nat_of_bytes(self@),
    {
        let h = be_u64_at(&self.bytes, 0);
        let l = be_u64_at(&self.bytes, 8);
        proof {
            assert(self@ =~= self@.subrange(0, 8) + self@.subrange(8, 16));
            lemma_nat_of_bytes_concat(self@.subrange(0, 8), self@.subrange(8, 16));
            lemma_pow256_values();
        }
        (h as u128) * 0x10000000000000000 + (l as u128)
    }

    /// The first 8 bytes as `high` and the last 8 bytes as `low`, both
    /// read big-endian.
    pub fn as_u64_pair(&self) -> (r: (u64, u64))
        requires
            self.wf(),
        ensures
            r.0 as nat == nat_of_bytes(self@.subrange(0, 8)),
            r.1 as nat == nat_of_bytes(self@.subrange(8, 16)),
            nat_of_bytes(self@) == (r.0 as nat) * 0x10000000000000000 + r.1 as nat,
    {
        let h = be_u64_at(&self.bytes, 0);
        let l = be_u64_at(&self.bytes, 8);
        proof {
            assert(self@ =~= self@.subrange(0, 8) + self@.subrange(8, 16));
            lemma_nat_of_bytes_concat(self@.subrange(0, 8), self@.subrange(8, 16));
            lemma_pow256_values();
        }
        (h, l)
    }

    /// The version reported from the high nibble of byte 6.
    pub fn version(&self) -> (r: Option<u8>)
        requires
            self.wf(),
        ensures
            r == version_of_byte(self@[6]),
    {
        let n = self.bytes[6] / 16;
        if 1 <= n && n <= 8 {
            Some(n)
        } else {
            None
        }
    }

    /// The layout family read from the top bits of byte 8.
    pub fn variant(&self) -> (r: Variant)
        requires
            self.wf(),
        ensures
            r == variant_of_byte(self@[8]),
    {
        let b = self.bytes[8];
        if b < 0x80 {
            Variant::Ncs
        } else if b < 0xC0 {
            Variant::Rfc4122
        } else if b < 0xE0 {
            Variant::Microsoft
        } else {
            Variant::Future
        }
    }

    /// Whether this is the all-zero identifier.
    pub fn is_nil(&self) -> (r: bool)
        requires
            self.wf(),
        ensures
            r == (self@ == nil_bytes()),
    {
        let mut i: usize = 0;
        while i < 16
            invariant
                i <= 16,
                self.wf(),
                forall|j: int| 0 <= j < i ==> self@[j] == 0u8,
            decreases 16 - i,
        {
            if self.bytes[i] != 0 {
                proof {
                    assert(self@[i as int] != nil_bytes()[i as int]);
                }
                return false;
            }
            i += 1;
        }
        proof {
            assert(self@ =~= nil_bytes());
        }
        true
    }

    /// Whether this is the all-ones identifier.
    pub fn is_max(&self) -> (r: bool)
        requires
            self.wf(),
        ensures
            r == (self@ == max_bytes()),
    {
        let mut i: usize = 0;
        while i < 16
            invariant
                i <= 16,
                self.wf(),
                forall|j: int| 0 <= j < i ==> self@[j] == 0xFFu8,
            decreases 16 - i,
        {
            if self.bytes[i] != 0xFF {
                proof {
                    assert(self@[i as int] != max_bytes()[i as int]);
                }
                return false;
            }
            i += 1;
        }
        proof {
            assert(self@ =~= max_bytes());
        }
        true
    }

    /// Strictly less in the single total order: the unsigned big-endian
    /// integer order of the 16-byte storage.
    pub fn lt(&self, other: &Uuid) -> (r: bool)
        requires
            self.wf(),
            other.wf(),
        ensures
            r == (nat_of_bytes(self@) < nat_of_bytes(other@)),
    {
        let mut i: usize = 0;
        while i < 16
            invariant
                i <= 16,
                self.wf(),
                other.wf(),
                forall|j: int| 0 <= j < i ==> self@[j] == other@[j],
            decreases 16 - i,
        {
            let a = self.bytes[i];
            let b = other.bytes[i];
            if a < b {
                proof {
                    lemma_nat_of_bytes_lex(self@, other@, i as int);
                }
                return true;
            }
            if a > b {
                proof {
                    lemma_nat_of_bytes_lex(other@, self@, i as int);
                }
                return false;
            }
            i += 1;
        }
        proof {
            assert(self@ =~= other@);
        }
        false
    }

    /// Less or equal in the total order.
    pub fn le(&self, other: &Uuid) -> (r: bool)
        requires
            self.wf(),
            other.wf(),
        ensures
            r == (nat_of_bytes(self@) <= nat_of_bytes(other@)),
    {
        !other.lt(self)
    }

    /// Strictly greater in the total order.
    pub fn gt(&self, other: &Uuid) -> (r: bool)
        requires
            self.wf(),
            other.wf(),
        ensures
            r == (nat_of_bytes(self@) > nat_of_bytes(other@)),
    {
        other.lt(self)
    }

    /// Greater or equal in the total order.
    pub fn ge(&self, other: &Uuid) -> (r: bool)
        requires
            self.wf(),
            other.wf(),
        ensures
            r == (nat_of_bytes(self@) >= nat_of_bytes(other@)),
    {
        !self.lt(other)
    }

    /// A deterministic 64-bit hash of the value: FNV-1a over the 16 bytes.
    /// Equal values hash equal, since the hash is a function of the storage.
    pub fn hash64(&self) -> (r: u64)
        ensures
            r == fnv1a(self@),
    {
        let n = self.bytes.len();
        let mut acc: u64 = 0xcbf29ce484222325;
        let mut i: usize = 0;
        while i < n
            invariant
                i <= n,
                n == self@.len(),
                acc == fnv1a(self@.take(i as int)),
            decreases n - i,
        {
            let x = acc ^ (self.bytes[i] as u64);
            let wide: u128 = (x as u128) * 0x100000001b3;
            acc = (wide % 0x10000000000000000) as u64;
            proof {
                assert(self@.take(i + 1).drop_last() =~= self@.take(i as int));
                assert(self@.take(i + 1).last() == self@[i as int]);
            }
            i += 1;
        }
        proof {
            assert(self@.take(n as int) =~= self@);
        }
        acc
    }
}

/// The big-endian value of `n` zero bytes is zero.
pub proof fn lemma_nat_of_zeros(n: nat)
    ensures
        nat_of_bytes(Seq::new(n, |i: int| 0u8)) == 0,
    decreases n,
{
    if n > 0 {
        let s = Seq::new(n, |i: int| 0u8);
        assert(s.drop_last() =~= Seq::new((n - 1) as nat, |i: int| 0u8));
        lemma_nat_of_zeros((n - 1) as nat);
    }
}

/// The big-endian value of `n` bytes of `0xFF` is `256^n - 1`.
pub proof fn lemma_nat_of_ones(n: nat)
    ensures
        nat_of_bytes(Seq::new(n, |i: int| 0xFFu8)) == pow256(n) - 1,
    decreases n,
{
    if n > 0 {
        let s = Seq::new(n, |i: int| 0xFFu8);
        assert(s.drop_last() =~= Seq::new((n - 1) as nat, |i: int| 0xFFu8));
        lemma_nat_of_ones((n - 1) as nat);
        crate::bytes_be::lemma_pow256_pos((n - 1) as nat);
    }
}

} // verus!

