//! Hexadecimal text of byte strings.
use vstd::prelude::*;

use crate::text::chars_of;

verus! {

/// The value of a hexadecimal digit, either case.
pub open spec fn hex_value(c: char) -> Option<nat> {
    if '0' <= c && c <= '9' {
        Some((c as nat - '0' as nat) as nat)
    } else if 'A' <= c && c <= 'F' {
        Some((c as nat - 'A' as nat + 10) as nat)
    } else if 'a' <= c && c <= 'f' {
        Some((c as nat - 'a' as nat + 10) as nat)
    } else {
        None
    }
}

/// The upper-case hexadecimal digit of `n < 16`.
pub open spec fn hex_char(n: nat) -> char {
    if n < 10 {
        (n + '0' as nat) as char
    } else {
        (n - 10 + 'A' as nat) as char
    }
}

/// Two upper-case hexadecimal digits per byte, high digit first.
pub open spec fn hex_encode(b: Seq<u8>) -> Seq<char>
    decreases b.len(),
{
    if b.len() == 0 {
        Seq::empty()
    } else {
        seq![hex_char((b[0] / 16) as nat), hex_char((b[0] % 16) as nat)] + hex_encode(b.skip(1))
    }
}

/// The bytes that a text of hexadecimal digit pairs denotes; `None` for a
/// text of odd length or with a character that is no hexadecimal digit.
pub open spec fn hex_decode(s: Seq<char>) -> Option<Seq<u8>>
    decreases s.len(),
{
    if s.len() == 0 {
        Some(Seq::empty())
    } else if s.len() == 1 {
        None
    } else {
        match (hex_value(s[0]), hex_value(s[1]), hex_decode(s.skip(2))) {
            (Some(h), Some(l), Some(rest)) => Some(seq![(h * 16 + l) as u8] + rest),
            _ => None,
        }
    }
}

fn hex_digit(n: u8) -> (c: char)
    requires
        n < 16,
    ensures
        c == hex_char(n as nat),
{
    if n < 10 {
        proof {
            assert((n as u32 + 48) as char == hex_char(n as nat));
        }
        (n + 48) as char
    } else {
        (n - 10 + 65) as char
    }
}

fn hex_digit_value(c: char) -> (r: Option<u8>)
    ensures
        r matches Some(v) ==> hex_value(c) == Some(v as nat) && v < 16,
        r is None ==> hex_value(c) is None,
{
    if '0' <= c && c <= '9' {
        Some((c as u32 - 48) as u8)
    } else if 'A' <= c && c <= 'F' {
        Some((c as u32 - 65 + 10) as u8)
    } else if 'a' <= c && c <= 'f' {
        Some((c as u32 - 97 + 10) as u8)
    } else {
        None
    }
}

/// The bytes `v` as upper-case hexadecimal text, two digits per byte.
pub fn dump_bytes(v: &[u8]) -> (s: String)
    ensures
        s@ == hex_encode(v@),
{
    let mut out = String::new();
    let mut i: usize = 0;
    assert(v@.skip(0) =~= v@);
    while i < v.len()
        invariant
            i <= v@.len(),
            hex_encode(v@) == out@ + hex_encode(v@.skip(i as int)),
        decreases v@.len() - i,
    {
        let b = v[i];
        out.push(hex_digit(b / 16));
        out.push(hex_digit(b % 16));
        assert(v@.skip(i as int).skip(1) =~= v@.skip(i + 1 as int));
        assert(v@.skip(i as int)[0] == b);
        i = i + 1;
        assert(hex_encode(v@) =~= out@ + hex_encode(v@.skip(i as int)));
    }
    assert(v@.skip(i as int) =~= Seq::<u8>::empty());
    assert(out@ =~= hex_encode(v@));
    out
}

/// The bytes that the hexadecimal text `v` denotes: one byte per pair of
/// digits, either case. `None` when `v` has an odd number of characters or a
/// character that is no hexadecimal digit.
pub fn read_bytes(v: &str) -> (r: Option<Vec<u8>>)
    ensures
        r matches Some(b) ==> hex_decode(v@) == Some(b@),
        r is None ==> hex_decode(v@) is None,
{
    let s = chars_of(v);
    let mut out: Vec<u8> = Vec::new();
    let mut i: usize = 0;
    assert(s@.skip(0) =~= s@);
    while i < s.len()
        invariant
            i <= s@.len(),
            s@ == v@,
            hex_decode(s@) == (match hex_decode(s@.skip(i as int)) {
                Some(rest) => Some(out@ + rest),
                None => None::<Seq<u8>>,
            }),
        decreases s@.len() - i,
    {
        let ghost rest = s@.skip(i as int);
        if s.len() - i < 2 {
            assert(rest.len() == 1);
            return None;
        }
        let hi = hex_digit_value(s[i]);
        let lo = hex_digit_value(s[i + 1]);
        assert(rest[0] == s@[i as int] && rest[1] == s@[i + 1]);
        assert(rest.skip(2) =~= s@.skip(i + 2));
        match (hi, lo) {
            (Some(h), Some(l)) => {
                out.push(h * 16 + l);
                i = i + 2;
                assert(hex_decode(s@) =~= (match hex_decode(s@.skip(i as int)) {
                    Some(r2) => Some(out@ + r2),
                    None => None::<Seq<u8>>,
                })) by {
                    match hex_decode(s@.skip(i as int)) {
                        Some(r2) => {
                            assert(out@ + r2 =~= out@.drop_last() + (seq![(h * 16 + l) as u8] + r2));
                        },
                        None => {},
                    }
                }
            },
            _ => {
                return None;
            },
        }
    }
    assert(s@.skip(i as int) =~= Seq::<char>::empty());
    assert(out@ + Seq::<u8>::empty() =~= out@);
    Some(out)
}

proof fn lemma_hex_digit_roundtrip(n: nat)
    requires
        n < 16,
    ensures
        hex_value(hex_char(n)) == Some(n),
{
}

/// Reading back the hexadecimal text of a byte string gives the byte string.
pub proof fn law_hex_roundtrip(b: Seq<u8>)
    ensures
        hex_decode(hex_encode(b)) == Some(b),
    decreases b.len(),
{
    if b.len() > 0 {
        let e = hex_encode(b);
        let hi = (b[0] / 16) as nat;
        let lo = (b[0] % 16) as nat;
        lemma_hex_digit_roundtrip(hi);
        lemma_hex_digit_roundtrip(lo);
        law_hex_roundtrip(b.skip(1));
        assert(e.skip(2) =~= hex_encode(b.skip(1)));
        assert(seq![(hi * 16 + lo) as u8] + b.skip(1) =~= b);
    }
}

/// The hexadecimal text of `n` bytes has `2 n` characters.
pub proof fn law_hex_length(b: Seq<u8>)
    ensures
        hex_encode(b).len() == 2 * b.len(),
    decreases b.len(),
{
    if b.len() > 0 {
        law_hex_length(b.skip(1));
    }
}

} // verus!
