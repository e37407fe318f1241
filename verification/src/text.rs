//! The textual grammar of an identifier and its parser and formatter.
//!
//! The formatter always emits the canonical form: 36 lowercase characters,
//! hex digit groups of 8-4-4-4-12 separated by hyphens at indices 8, 13, 18
//! and 23. The parser accepts that form in either case, the 32-character
//! hyphen-free form, and the hyphenated form surrounded by braces.

use vstd::prelude::*;
use vstd::string::StrSliceExecFns;
use vstd::string::StringExecFns;

use crate::error::UuidError;
use crate::value::Uuid;

verus! {

/// The value of a hexadecimal digit character, in either case; 16 marks a
/// character that is no hex digit.
pub open spec fn hex_val(c: char) -> nat {
    if c == '0' { 0 }
    else if c == '1' { 1 }
    else if c == '2' { 2 }
    else if c == '3' { 3 }
    else if c == '4' { 4 }
    else if c == '5' { 5 }
    else if c == '6' { 6 }
    else if c == '7' { 7 }
    else if c == '8' { 8 }
    else if c == '9' { 9 }
    else if c == 'a' || c == 'A' { 10 }
    else if c == 'b' || c == 'B' { 11 }
    else if c == 'c' || c == 'C' { 12 }
    else if c == 'd' || c == 'D' { 13 }
    else if c == 'e' || c == 'E' { 14 }
    else if c == 'f' || c == 'F' { 15 }
    else { 16 }
}

pub open spec fn is_hex_digit(c: char) -> bool {
    hex_val(c) < 16
}

/// The lowercase character of a hex digit value below 16.
pub open spec fn hex_char(d: nat) -> char {
    if d == 0 { '0' }
    else if d == 1 { '1' }
    else if d == 2 { '2' }
    else if d == 3 { '3' }
    else if d == 4 { '4' }
    else if d == 5 { '5' }
    else if d == 6 { '6' }
    else if d == 7 { '7' }
    else if d == 8 { '8' }
    else if d == 9 { '9' }
    else if d == 10 { 'a' }
    else if d == 11 { 'b' }
    else if d == 12 { 'c' }
    else if d == 13 { 'd' }
    else if d == 14 { 'e' }
    else { 'f' }
}

pub proof fn lemma_hex_char(d: nat)
    requires
        d < 16,
    ensures
        is_hex_digit(hex_char(d)),
        hex_val(hex_char(d)) == d,
{
}

/// The four hyphen indices of the canonical 36-character form.
pub open spec fn is_hyphen_pos(i: int) -> bool {
    i == 8 || i == 13 || i == 18 || i == 23
}

/// The index in the hyphenated text at which hex digit number `k` stands.
pub open spec fn digit_pos(k: int) -> int {
    k + if k < 8 { 0int } else if k < 12 { 1int } else if k < 16 { 2int } else if k < 20 {
        3int
    } else {
        4int
    }
}

/// The hex digit number standing at a non-hyphen index of the text.
pub open spec fn undigit(i: int) -> int {
    i - if i < 8 { 0int } else if i < 13 { 1int } else if i < 18 { 2int } else if i < 23 {
        3int
    } else {
        4int
    }
}

pub proof fn lemma_digit_pos(k: int)
    requires
        0 <= k < 32,
    ensures
        0 <= digit_pos(k) < 36,
        !is_hyphen_pos(digit_pos(k)),
        undigit(digit_pos(k)) == k,
{
}

pub proof fn lemma_undigit(i: int)
    requires
        0 <= i < 36,
        !is_hyphen_pos(i),
    ensures
        0 <= undigit(i) < 32,
        digit_pos(undigit(i)) == i,
{
}

/// The canonical hyphenated form, in either case: hyphens at their four
/// fixed indices and hex digits everywhere else.
pub open spec fn is_hyphenated(s: Seq<char>) -> bool {
    &&& s.len() == 36
    &&& forall|i: int| 0 <= i < 36 && is_hyphen_pos(i) ==> s[i] == '-'
    &&& forall|i: int| 0 <= i < 36 && !is_hyphen_pos(i) ==> is_hex_digit(s[i])
}

pub open spec fn bytes_of_hyphenated(s: Seq<char>) -> Seq<u8> {
    Seq::new(16, |i: int|
        (hex_val(s[digit_pos(2 * i)]) * 16 + hex_val(s[digit_pos(2 * i + 1)])) as u8)
}

/// The hyphen-free 32-character form, in either case.
pub open spec fn is_simple(s: Seq<char>) -> bool {
    s.len() == 32 && (forall|i: int| 0 <= i < 32 ==> is_hex_digit(s[i]))
}

pub open spec fn bytes_of_simple(s: Seq<char>) -> Seq<u8> {
    Seq::new(16, |i: int| (hex_val(s[2 * i]) * 16 + hex_val(s[2 * i + 1])) as u8)
}

/// The hyphenated form surrounded by braces.
pub open spec fn is_braced(s: Seq<char>) -> bool {
    s.len() == 38 && s[0] == '{' && s[37] == '}' && is_hyphenated(s.subrange(1, 37))
}

/// What the parser accepts.
pub open spec fn is_uuid_text(s: Seq<char>) -> bool {
    is_hyphenated(s) || is_simple(s) || is_braced(s)
}

/// The 16 bytes an accepted text denotes. The three accepted forms have
/// three distinct lengths, so at most one case applies.
pub open spec fn bytes_of_text(s: Seq<char>) -> Seq<u8> {
    if is_hyphenated(s) {
        bytes_of_hyphenated(s)
    } else if is_simple(s) {
        bytes_of_simple(s)
    } else {
        bytes_of_hyphenated(s.subrange(1, 37))
    }
}

/// The nibble (high first) of a byte image at hex digit number `k`.
pub open spec fn nibble_of(b: Seq<u8>, k: int) -> nat {
    if k % 2 == 0 {
        (b[k / 2] as nat) / 16
    } else {
        (b[k / 2] as nat) % 16
    }
}

/// The canonical lowercase hyphenated text of a 16-byte image.
pub open spec fn text_of(b: Seq<u8>) -> Seq<char> {
    Seq::new(36, |i: int|
        if is_hyphen_pos(i) {
            '-'
        } else {
            hex_char(nibble_of(b, undigit(i)))
        })
}

/// The value of a hex digit character; 16 for any other character.
fn hex_val_of(c: char) -> (r: u8)
    ensures
        r as nat == hex_val(c),
{
    match c {
        '0' => 0,
        '1' => 1,
        '2' => 2,
        '3' => 3,
        '4' => 4,
        '5' => 5,
        '6' => 6,
        '7' => 7,
        '8' => 8,
        '9' => 9,
        'a' | 'A' => 10,
        'b' | 'B' => 11,
        'c' | 'C' => 12,
        'd' | 'D' => 13,
        'e' | 'E' => 14,
        'f' | 'F' => 15,
        _ => 16,
    }
}

/// The one-character string of a hex digit value, lowercase.
fn hex_char_str(d: u8) -> (r: &'static str)
    requires
        d < 16,
    ensures
        r@ == seq![hex_char(d as nat)],
{
    let r: &'static str = if d == 0 { "0" }
    else if d == 1 { "1" }
    else if d == 2 { "2" }
    else if d == 3 { "3" }
    else if d == 4 { "4" }
    else if d == 5 { "5" }
    else if d == 6 { "6" }
    else if d == 7 { "7" }
    else if d == 8 { "8" }
    else if d == 9 { "9" }
    else if d == 10 { "a" }
    else if d == 11 { "b" }
    else if d == 12 { "c" }
    else if d == 13 { "d" }
    else if d == 14 { "e" }
    else { "f" };
    proof {
        reveal_strlit("0");
        reveal_strlit("1");
        reveal_strlit("2");
        reveal_strlit("3");
        reveal_strlit("4");
        reveal_strlit("5");
        reveal_strlit("6");
        reveal_strlit("7");
        reveal_strlit("8");
        reveal_strlit("9");
        reveal_strlit("a");
        reveal_strlit("b");
        reveal_strlit("c");
        reveal_strlit("d");
        reveal_strlit("e");
        reveal_strlit("f");
        assert(r@ =~= seq![hex_char(d as nat)]);
    }
    r
}

/// The text index of hex digit number `k` in the hyphenated form.
fn digit_pos_of(k: usize) -> (r: usize)
    requires
        k < 32,
    ensures
        r as int == digit_pos(k as int),
        r < 36,
{
    k + if k < 8 { 0 } else if k < 12 { 1 } else if k < 16 { 2 } else if k < 20 { 3 } else { 4 }
}

/// The hex digit number at a non-hyphen text index.
fn undigit_of(i: usize) -> (r: usize)
    requires
        i < 36,
        !is_hyphen_pos(i as int),
    ensures
        r as int == undigit(i as int),
        r < 32,
{
    i - if i < 8 { 0 } else if i < 13 { 1 } else if i < 18 { 2 } else if i < 23 { 3 } else { 4 }
}

/// Reads the 36 characters of `s` starting at `off` as the hyphenated form.
fn parse_hyphenated(s: &str, off: usize) -> (r: Option<Vec<u8>>)
    requires
        off <= 2,
        off + 36 <= s@.len(),
    ensures
        r is Some <==> is_hyphenated(s@.subrange(off as int, off as int + 36)),
        r is Some ==> r->0@ == bytes_of_hyphenated(s@.subrange(off as int, off as int + 36)),
        r is Some ==> r->0@.len() == 16,
{
    let ghost sub = s@.subrange(off as int, off as int + 36);
    let h1 = s.get_char(off + 8);
    let h2 = s.get_char(off + 13);
    let h3 = s.get_char(off + 18);
    let h4 = s.get_char(off + 23);
    if h1 != '-' || h2 != '-' || h3 != '-' || h4 != '-' {
        proof {
            assert(sub[8] == h1 && sub[13] == h2 && sub[18] == h3 && sub[23] == h4);
            assert(is_hyphen_pos(8) && is_hyphen_pos(13) && is_hyphen_pos(18) && is_hyphen_pos(23));
            assert(!is_hyphenated(sub));
        }
        return None;
    }
    let mut out: Vec<u8> = Vec::new();
    let mut i: usize = 0;
    while i < 16
        invariant
            off <= 2,
            off + 36 <= s@.len(),
            sub == s@.subrange(off as int, off as int + 36),
            i <= 16,
            out@.len() == i,
            forall|k: int| 0 <= k < 2 * i ==> is_hex_digit(sub[digit_pos(k)]),
            forall|k: int| 0 <= k < i ==> out@[k] == bytes_of_hyphenated(sub)[k],
            sub[8] == '-' && sub[13] == '-' && sub[18] == '-' && sub[23] == '-',
        decreases 16 - i,
    {
        let p1 = digit_pos_of(2 * i);
        let p2 = digit_pos_of(2 * i + 1);
        let c1 = s.get_char(off + p1);
        let c2 = s.get_char(off + p2);
        proof {
            lemma_digit_pos(2 * i as int);
            lemma_digit_pos(2 * i as int + 1);
            assert(sub[digit_pos(2 * i as int)] == c1);
            assert(sub[digit_pos(2 * i as int + 1)] == c2);
        }
        let v1 = hex_val_of(c1);
        let v2 = hex_val_of(c2);
        if v1 >= 16 || v2 >= 16 {
            return None;
        }
        out.push(v1 * 16 + v2);
        i += 1;
    }
    proof {
        assert forall|p: int| 0 <= p < 36 && !is_hyphen_pos(p) implies is_hex_digit(sub[p]) by {
            lemma_undigit(p);
            assert(is_hex_digit(sub[digit_pos(undigit(p))]));
        }
        assert(is_hyphenated(sub));
        assert(out@ =~= bytes_of_hyphenated(sub));
    }
    Some(out)
}

/// Reads the 32 characters of `s` as the hyphen-free form.
fn parse_simple(s: &str) -> (r: Option<Vec<u8>>)
    requires
        s@.len() == 32,
    ensures
        r is Some <==> is_simple(s@),
        r is Some ==> r->0@ == bytes_of_simple(s@),
        r is Some ==> r->0@.len() == 16,
{
    let mut out: Vec<u8> = Vec::new();
    let mut i: usize = 0;
    while i < 16
        invariant
            s@.len() == 32,
            i <= 16,
            out@.len() == i,
            forall|k: int| 0 <= k < 2 * i ==> is_hex_digit(s@[k]),
            forall|k: int| 0 <= k < i ==> out@[k] == bytes_of_simple(s@)[k],
        decreases 16 - i,
    {
        let c1 = s.get_char(2 * i);
        let c2 = s.get_char(2 * i + 1);
        let v1 = hex_val_of(c1);
        let v2 = hex_val_of(c2);
        if v1 >= 16 || v2 >= 16 {
            return None;
        }
        out.push(v1 * 16 + v2);
        i += 1;
    }
    proof {
        assert(is_simple(s@));
        assert(out@ =~= bytes_of_simple(s@));
    }
    Some(out)
}

/// Parses a UUID from text: the canonical hyphenated form in either case,
/// the 32-character hyphen-free form, or the hyphenated form in braces.
pub fn parse_str(s: &str) -> (r: Result<Uuid, UuidError>)
    ensures
        r is Ok <==> is_uuid_text(s@),
        r is Ok ==> r->Ok_0.wf() && r->Ok_0@ == bytes_of_text(s@),
        r is Err ==> r->Err_0 == UuidError::MalformedText,
{
    let n = s.unicode_len();
    if n == 36 {
        proof {
            assert(s@.subrange(0, 36) =~= s@);
        }
        match parse_hyphenated(s, 0) {
            Some(b) => Ok(Uuid::from_exact_bytes(b)),
            None => Err(UuidError::MalformedText),
        }
    } else if n == 32 {
        match parse_simple(s) {
            Some(b) => Ok(Uuid::from_exact_bytes(b)),
            None => Err(UuidError::MalformedText),
        }
    } else if n == 38 {
        let c0 = s.get_char(0);
        let c37 = s.get_char(37);
        if c0 == '{' && c37 == '}' {
            match parse_hyphenated(s, 1) {
                Some(b) => Ok(Uuid::from_exact_bytes(b)),
                None => Err(UuidError::MalformedText),
            }
        } else {
            Err(UuidError::MalformedText)
        }
    } else {
        Err(UuidError::MalformedText)
    }
}

/// Whether the text would parse: the pure validity predicate.
pub fn is_valid(s: &str) -> (r: bool)
    ensures
        r == is_uuid_text(s@),
{
    parse_str(s).is_ok()
}

impl Uuid {
    /// Renders the canonical form: 36 lowercase characters, hex digit
    /// groups of 8-4-4-4-12 separated by hyphens.
    pub fn hyphenated(&self) -> (r: String)
        requires
            self.wf(),
        ensures
            r@ == text_of(self@),
    {
        let mut out = String::new();
        let mut p: usize = 0;
        while p < 36
            invariant
                self.wf(),
                p <= 36,
                out@ == text_of(self@).take(p as int),
            decreases 36 - p,
    {
            if p == 8 || p == 13 || p == 18 || p == 23 {
                out.append("-");
                proof {
                    reveal_strlit("-");
                    assert(out@ =~= text_of(self@).take(p + 1));
                }
            } else {
                let k = undigit_of(p);
                let byte = self.byte_at(k / 2);
                let d = if k % 2 == 0 {
                    byte / 16
                } else {
                    byte % 16
                };
                let h = hex_char_str(d);
                out.append(h);
                proof {
                    assert(text_of(self@)[p as int] == hex_char(nibble_of(self@, k as int)));
                    assert(out@ =~= text_of(self@).take(p + 1));
                }
            }
            p += 1;
        }
        proof {
            assert(text_of(self@).take(36) =~= text_of(self@));
        }
        out
    }

    /// A diagnostic rendering that names the type around the canonical
    /// text; not meant for round-trip parsing.
    pub fn repr(&self) -> (r: String)
        requires
            self.wf(),
        ensures
            r@ == "UUID('"@ + text_of(self@) + "')"@,
    {
        let mut out = String::from_str("UUID('");
        let h = self.hyphenated();
        out.append(h.as_str());
        out.append("')");
        out
    }
}

} // verus!
