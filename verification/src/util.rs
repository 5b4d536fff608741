//! Byte/hex conversions and the removal of control characters.
use vstd::prelude::*;

use regex::Regex;

use crate::text::{chars_to_string, str_chars};

verus! {

/// The upper-case hexadecimal digit for `d < 16`.
pub open spec fn hex_upper(d: nat) -> char {
    if d < 10 {
        crate::json::digit_char(d)
    } else if d == 10 {
        'A'
    } else if d == 11 {
        'B'
    } else if d == 12 {
        'C'
    } else if d == 13 {
        'D'
    } else if d == 14 {
        'E'
    } else {
        'F'
    }
}

/// Each byte of `v` written as two upper-case hexadecimal digits.
pub open spec fn hex_text(v: Seq<u8>) -> Seq<char>
    decreases v.len(),
{
    if v.len() == 0 {
        Seq::empty()
    } else {
        hex_text(v.drop_last()) + seq![hex_upper((v.last() / 16) as nat), hex_upper((v.last() % 16) as nat)]
    }
}

/// Whether `c` is a hexadecimal digit (either case).
pub open spec fn is_hex_digit(c: char) -> bool {
    ('0' <= c <= '9') || ('a' <= c <= 'f') || ('A' <= c <= 'F')
}

/// The value of a hexadecimal digit.
pub open spec fn hex_value(c: char) -> nat {
    if '0' <= c <= '9' {
        (c as u32 - '0' as u32) as nat
    } else if 'a' <= c <= 'f' {
        (c as u32 - 'a' as u32 + 10) as nat
    } else {
        (c as u32 - 'A' as u32 + 10) as nat
    }
}

/// Whether the two characters read as one byte in base 16: two hex digits,
/// or a `+` sign followed by one hex digit.
pub open spec fn is_hex_pair(a: char, b: char) -> bool {
    is_hex_digit(b) && (is_hex_digit(a) || a == '+')
}

/// The byte that a hex pair reads as.
pub open spec fn hex_pair_value(a: char, b: char) -> u8 {
    if a == '+' {
        hex_value(b) as u8
    } else {
        (hex_value(a) * 16 + hex_value(b)) as u8
    }
}

/// Whether `s` is a sequence of hex pairs.
pub open spec fn is_hex_pairs(s: Seq<char>) -> bool {
    &&& s.len() % 2 == 0
    &&& forall|i: int| 0 <= i < s.len() / 2 ==> #[trigger] is_hex_pair(s[2 * i], s[2 * i + 1])
}

/// The bytes that the hex pairs of `s` read as.
pub open spec fn hex_bytes(s: Seq<char>) -> Seq<u8> {
    Seq::new(s.len() / 2, |i: int| hex_pair_value(s[2 * i], s[2 * i + 1]))
}

/// `s` without its ASCII control characters (code points 0 to 31).
pub open spec fn without_control(s: Seq<char>) -> Seq<char> {
    s.filter(|c: char| (c as u32) >= 0x20)
}

fn hex_digit_upper(d: u8) -> (c: char)
    requires
        d < 16,
    ensures
        c == hex_upper(d as nat),
{
    if d < 10 {
        if d == 0 { '0' }
        else if d == 1 { '1' }
        else if d == 2 { '2' }
        else if d == 3 { '3' }
        else if d == 4 { '4' }
        else if d == 5 { '5' }
        else if d == 6 { '6' }
        else if d == 7 { '7' }
        else if d == 8 { '8' }
        else { '9' }
    } else if d == 10 {
        'A'
    } else if d == 11 {
        'B'
    } else if d == 12 {
        'C'
    } else if d == 13 {
        'D'
    } else if d == 14 {
        'E'
    } else {
        'F'
    }
}

/// Writes each byte as two upper-case hexadecimal digits.
pub fn dump_bytes(v: &[u8]) -> (r: String)
    ensures
        r@ == hex_text(v@),
{
    let mut out: Vec<char> = Vec::new();
    let mut i: usize = 0;
    while i < v.len()
        invariant
            0 <= i <= v.len(),
            out@ == hex_text(v@.subrange(0, i as int)),
        decreases v.len() - i,
    {
        assert(v@.subrange(0, i + 1).drop_last() =~= v@.subrange(0, i as int));
        let b = v[i];
        out.push(hex_digit_upper(b / 16));
        out.push(hex_digit_upper(b % 16));
        i = i + 1;
    }
    assert(v@.subrange(0, v.len() as int) =~= v@);
    chars_to_string(&out)
}

fn hex_digit_value(c: char) -> (r: u8)
    requires
        is_hex_digit(c),
    ensures
        r as nat == hex_value(c),
        r < 16,
{
    if '0' <= c && c <= '9' {
        ((c as u32) - ('0' as u32)) as u8
    } else if 'a' <= c && c <= 'f' {
        ((c as u32) - ('a' as u32) + 10) as u8
    } else {
        ((c as u32) - ('A' as u32) + 10) as u8
    }
}

/// Reads a text of hex pairs (as `dump_bytes` writes them) back into bytes.
pub fn read_bytes(v: String) -> (r: Vec<u8>)
    requires
        is_hex_pairs(v@),
    ensures
        r@ == hex_bytes(v@),
{
    let cs = str_chars(v.as_str());
    let mut out: Vec<u8> = Vec::new();
    let mut i: usize = 0;
    while i < cs.len() / 2
        invariant
            cs@ == v@,
            is_hex_pairs(cs@),
            0 <= i <= cs.len() / 2,
            out@ == hex_bytes(cs@).subrange(0, i as int),
        decreases cs.len() / 2 - i,
    {
        assert(is_hex_pair(cs@[2 * i], cs@[2 * i + 1]));
        let a = cs[2 * i];
        let b = cs[2 * i + 1];
        let byte: u8 = if a == '+' {
            hex_digit_value(b)
        } else {
            let hi = hex_digit_value(a);
            let lo = hex_digit_value(b);
            hi * 16 + lo
        };
        out.push(byte);
        i = i + 1;
        assert(out@ =~= hex_bytes(cs@).subrange(0, i as int));
    }
    assert(hex_bytes(cs@).subrange(0, i as int) =~= hex_bytes(cs@));
    out
}

fn is_hex_digit_exec(c: char) -> (r: bool)
    ensures
        r == is_hex_digit(c),
{
    ('0' <= c && c <= '9') || ('a' <= c && c <= 'f') || ('A' <= c && c <= 'F')
}

/// Whether `s` is a sequence of hex pairs that `read_bytes` can read.
pub fn hex_pairs(s: &str) -> (r: bool)
    ensures
        r == is_hex_pairs(s@),
{
    let cs = str_chars(s);
    if cs.len() % 2 != 0 {
        return false;
    }
    let mut i: usize = 0;
    while i < cs.len() / 2
        invariant
            cs@ == s@,
            cs.len() % 2 == 0,
            0 <= i <= cs.len() / 2,
            forall|j: int| 0 <= j < i ==> #[trigger] is_hex_pair(cs@[2 * j], cs@[2 * j + 1]),
        decreases cs.len() / 2 - i,
    {
        let a = cs[2 * i];
        let b = cs[2 * i + 1];
        if !(is_hex_digit_exec(b) && (is_hex_digit_exec(a) || a == '+')) {
            assert(!is_hex_pair(cs@[2 * i], cs@[2 * i + 1]));
            return false;
        }
        i = i + 1;
    }
    true
}

/// Removes the ASCII control characters (code points 0 to 31) from `s`,
/// as the regular expression `[\u0000-\u001F]` replaced by nothing does.
#[verifier::external_body]
pub fn strip_control_characters(s: String) -> (r: String)
    ensures
        r@ == without_control(s@),
{
    Regex::new(r"[\u0000-\u001F]").unwrap().replace_all(&s, "").to_string()
}

/// Reading the hex text of some bytes gives the bytes back.
pub proof fn lemma_read_dump_roundtrip(v: Seq<u8>)
    ensures
        is_hex_pairs(hex_text(v)),
        hex_bytes(hex_text(v)) == v,
    decreases v.len(),
{
    if v.len() > 0 {
        let u = v.drop_last();
        lemma_read_dump_roundtrip(u);
        let t = hex_text(v);
        let tu = hex_text(u);
        let b = v.last();
        assert(t == tu + seq![hex_upper((b / 16) as nat), hex_upper((b % 16) as nat)]);
        assert(hex_value(hex_upper((b / 16) as nat)) == (b / 16) as nat);
        assert(hex_value(hex_upper((b % 16) as nat)) == (b % 16) as nat);
        assert forall|i: int| 0 <= i < t.len() / 2 implies #[trigger] is_hex_pair(
            t[2 * i],
            t[2 * i + 1],
        ) by {
            if i < tu.len() / 2 {
                assert(t[2 * i] == tu[2 * i]);
                assert(t[2 * i + 1] == tu[2 * i + 1]);
            }
        }
        assert(hex_bytes(t) =~= v) by {
            assert forall|i: int| 0 <= i < v.len() implies #[trigger] hex_bytes(t)[i] == v[i] by {
                if i < u.len() {
                    assert(t[2 * i] == tu[2 * i]);
                    assert(t[2 * i + 1] == tu[2 * i + 1]);
                    assert(hex_bytes(tu)[i] == u[i]);
                }
            }
        }
    } else {
        assert(hex_bytes(hex_text(v)) =~= v);
    }
}

proof fn lemma_hex_digit_upper(c: char)
    requires
        is_hex_digit(c),
    ensures
        hex_value(c) < 16,
        hex_upper(hex_value(c)) == crate::signature::ascii_upper(c),
{
}

proof fn lemma_pair_digits(a: char, b: char)
    requires
        is_hex_digit(a),
        is_hex_digit(b),
    ensures
        hex_pair_value(a, b) / 16 == hex_value(a),
        hex_pair_value(a, b) % 16 == hex_value(b),
{
    lemma_hex_digit_upper(a);
    lemma_hex_digit_upper(b);
    let v = hex_value(a) * 16 + hex_value(b);
    assert(v < 256) by (nonlinear_arith)
        requires
            hex_value(a) < 16,
            hex_value(b) < 16,
            v == hex_value(a) * 16 + hex_value(b),
    ;
    assert(v / 16 == hex_value(a) && v % 16 == hex_value(b)) by (nonlinear_arith)
        requires
            hex_value(b) < 16,
            v == hex_value(a) * 16 + hex_value(b),
    ;
}

/// Writing the bytes read from hex text (hex digits only) gives back the text
/// in upper case.
pub proof fn lemma_dump_read_roundtrip(s: Seq<char>)
    requires
        is_hex_pairs(s),
        forall|i: int| 0 <= i < s.len() ==> is_hex_digit(#[trigger] s[i]),
    ensures
        hex_text(hex_bytes(s)) == crate::signature::upper_text(s),
    decreases s.len(),
{
    if s.len() == 0 {
        assert(hex_bytes(s) =~= Seq::<u8>::empty());
        assert(crate::signature::upper_text(s) =~= Seq::<char>::empty());
    } else {
        let n = s.len() as int;
        let w = s.subrange(0, n - 2);
        assert(is_hex_pairs(w)) by {
            assert forall|i: int| 0 <= i < w.len() / 2 implies #[trigger] is_hex_pair(w[2 * i], w[2 * i + 1]) by {
                assert(is_hex_pair(s[2 * i], s[2 * i + 1]));
            }
        }
        lemma_dump_read_roundtrip(w);
        let v = hex_bytes(s);
        assert(v.drop_last() =~= hex_bytes(w));
        let a = s[n - 2];
        let b = s[n - 1];
        assert(v.last() == hex_pair_value(a, b));
        lemma_pair_digits(a, b);
        lemma_hex_digit_upper(a);
        lemma_hex_digit_upper(b);
        assert(crate::signature::upper_text(s) =~= crate::signature::upper_text(w) + seq![
            crate::signature::ascii_upper(a),
            crate::signature::ascii_upper(b),
        ]);
    }
}

} // verus!
