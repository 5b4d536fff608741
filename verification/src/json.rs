//! A JSON document held as plain values, with the two readings the event
//! logic makes of it: the compact text of a value (what `format!("{}", value)`
//! writes for a JSON value) and the lookup of a value by a path of tokens
//! (the JSON Pointer lookup of RFC 6901).
use vstd::prelude::*;

use crate::text::{chars_eq, replace_all, replace_all_chars, str_chars};

verus! {

/// A JSON number: a non-negative integer, a negative integer, or a number
/// with a fraction or an exponent, kept as the text that prints it.
pub enum JsonNumber {
    PosInt(u64),
    NegInt(i64),
    Float(String),
}

/// A JSON value. Object members keep the order in which they were read.
pub enum Json {
    Null,
    Bool(bool),
    Number(JsonNumber),
    Str(String),
    Array(Vec<Json>),
    Object(Vec<(String, Json)>),
}

/// The decimal digit for `d < 10`.
pub open spec fn digit_char(d: nat) -> char {
    if d == 0 { '0' }
    else if d == 1 { '1' }
    else if d == 2 { '2' }
    else if d == 3 { '3' }
    else if d == 4 { '4' }
    else if d == 5 { '5' }
    else if d == 6 { '6' }
    else if d == 7 { '7' }
    else if d == 8 { '8' }
    else { '9' }
}

/// The decimal text of `n`, without leading zeros.
pub open spec fn decimal(n: nat) -> Seq<char>
    decreases n,
{
    if n < 10 {
        seq![digit_char(n)]
    } else {
        decimal(n / 10).push(digit_char(n % 10))
    }
}

/// The text of a JSON number.
pub open spec fn number_text(n: JsonNumber) -> Seq<char> {
    match n {
        JsonNumber::PosInt(u) => decimal(u as nat),
        JsonNumber::NegInt(i) => if i < 0 {
            seq!['-'] + decimal((-i) as nat)
        } else {
            decimal(i as nat)
        },
        JsonNumber::Float(t) => t@,
    }
}

/// The lower-case hexadecimal digit for `d < 16`.
pub open spec fn hex_lower(d: nat) -> char {
    if d < 10 { digit_char(d) }
    else if d == 10 { 'a' }
    else if d == 11 { 'b' }
    else if d == 12 { 'c' }
    else if d == 13 { 'd' }
    else if d == 14 { 'e' }
    else { 'f' }
}

/// How a character is written inside a JSON string.
pub open spec fn escape_char(c: char) -> Seq<char> {
    if c == '"' {
        seq!['\\', '"']
    } else if c == '\\' {
        seq!['\\', '\\']
    } else if c == '\x08' {
        seq!['\\', 'b']
    } else if c == '\x0C' {
        seq!['\\', 'f']
    } else if c == '\n' {
        seq!['\\', 'n']
    } else if c == '\r' {
        seq!['\\', 'r']
    } else if c == '\t' {
        seq!['\\', 't']
    } else if (c as u32) < 0x20 {
        seq!['\\', 'u', '0', '0', hex_lower((c as u32 / 16) as nat), hex_lower((c as u32 % 16) as nat)]
    } else {
        seq![c]
    }
}

/// The characters of `s` written inside a JSON string.
pub open spec fn escape(s: Seq<char>) -> Seq<char>
    decreases s.len(),
{
    if s.len() == 0 {
        Seq::empty()
    } else {
        escape(s.drop_last()) + escape_char(s.last())
    }
}

/// `s` written as a JSON string.
pub open spec fn quoted(s: Seq<char>) -> Seq<char> {
    seq!['"'] + escape(s) + seq!['"']
}

/// The compact JSON text of a value.
pub open spec fn json_text(v: Json) -> Seq<char>
    decreases v, 1nat,
{
    match v {
        Json::Null => seq!['n', 'u', 'l', 'l'],
        Json::Bool(b) => if b {
            seq!['t', 'r', 'u', 'e']
        } else {
            seq!['f', 'a', 'l', 's', 'e']
        },
        Json::Number(n) => number_text(n),
        Json::Str(s) => quoted(s@),
        Json::Array(items) => seq!['['] + items_text(items@) + seq![']'],
        Json::Object(entries) => seq!['{'] + entries_text(entries@) + seq!['}'],
    }
}

/// The texts of `items`, separated by commas.
pub open spec fn items_text(items: Seq<Json>) -> Seq<char>
    decreases items, 0nat,
{
    if items.len() == 0 {
        Seq::empty()
    } else if items.len() == 1 {
        json_text(items[0])
    } else {
        items_text(items.drop_last()) + seq![','] + json_text(items.last())
    }
}

/// The texts of object members `"key":value`, separated by commas.
pub open spec fn entries_text(entries: Seq<(String, Json)>) -> Seq<char>
    decreases entries, 0nat,
{
    if entries.len() == 0 {
        Seq::empty()
    } else if entries.len() == 1 {
        quoted(entries[0].0@) + seq![':'] + json_text(entries[0].1)
    } else {
        entries_text(entries.drop_last()) + seq![','] + quoted(entries.last().0@) + seq![':']
            + json_text(entries.last().1)
    }
}

/// The compact text of a value with every `"` removed: the form in which
/// a value is substituted into a message or compared with a criterion.
pub open spec fn plain_text(v: Json) -> Seq<char> {
    crate::text::remove_char(json_text(v), '"')
}

/// Whether every character of `t` is an ASCII digit.
pub open spec fn all_digits(t: Seq<char>) -> bool {
    forall|i: int| 0 <= i < t.len() ==> '0' <= #[trigger] t[i] <= '9'
}

/// The value of a string of decimal digits.
pub open spec fn digits_value(t: Seq<char>) -> nat
    decreases t.len(),
{
    if t.len() == 0 {
        0
    } else {
        digits_value(t.drop_last()) * 10 + ((t.last() as u32 - '0' as u32) as nat)
    }
}

/// The array index named by a token: decimal digits with no sign and no
/// leading zero (but `0` itself), at most `usize::MAX`.
pub open spec fn index_token(t: Seq<char>) -> Option<nat> {
    if t.len() > 0 && all_digits(t) && !(t[0] == '0' && t.len() != 1) && digits_value(t)
        <= usize::MAX {
        Some(digits_value(t))
    } else {
        None
    }
}

/// A pointer token with `~1` read as `/` and then `~0` read as `~`.
pub open spec fn unescape_token(t: Seq<char>) -> Seq<char> {
    replace_all(replace_all(t, seq!['~', '1'], seq!['/']), seq!['~', '0'], seq!['~'])
}

/// The value of the first member of `entries` whose key is `key`.
pub open spec fn member(entries: Seq<(String, Json)>, key: Seq<char>) -> Option<Json>
    decreases entries.len(),
{
    if entries.len() == 0 {
        None
    } else if entries[0].0@ == key {
        Some(entries[0].1)
    } else {
        member(entries.drop_first(), key)
    }
}

/// The child of `v` named by the (already unescaped) token `t`.
pub open spec fn child(v: Json, t: Seq<char>) -> Option<Json> {
    match v {
        Json::Object(entries) => member(entries@, t),
        Json::Array(items) => match index_token(t) {
            Some(n) => if n < items@.len() {
                Some(items@[n as int])
            } else {
                None
            },
            None => None,
        },
        _ => None,
    }
}

/// The value reached from `v` by following the pointer tokens `tokens` in turn.
pub open spec fn lookup(v: Json, tokens: Seq<Seq<char>>) -> Option<Json>
    decreases tokens.len(),
{
    if tokens.len() == 0 {
        Some(v)
    } else {
        match child(v, unescape_token(tokens[0])) {
            Some(c) => lookup(c, tokens.drop_first()),
            None => None,
        }
    }
}

/// The value `v[key]` (indexing a JSON value by a key): the member of an
/// object, `null` when there is none or `v` is not an object.
pub open spec fn index_key(v: Json, key: Seq<char>) -> Json {
    match v {
        Json::Object(entries) => match member(entries@, key) {
            Some(c) => c,
            None => Json::Null,
        },
        _ => Json::Null,
    }
}

/// `Some(s)` when `v` is a JSON string `s`.
pub open spec fn as_str(v: Json) -> Option<Seq<char>> {
    match v {
        Json::Str(s) => Some(s@),
        _ => None,
    }
}

/// `Some(b)` when `v` is a JSON boolean `b`.
pub open spec fn as_bool(v: Json) -> Option<bool> {
    match v {
        Json::Bool(b) => Some(b),
        _ => None,
    }
}

/// `Some(n)` when `v` is a non-negative integer `n`.
pub open spec fn as_u64(v: Json) -> Option<u64> {
    match v {
        Json::Number(JsonNumber::PosInt(n)) => Some(n),
        _ => None,
    }
}

/// The views of a sequence of character vectors.
pub open spec fn views(s: Seq<Vec<char>>) -> Seq<Seq<char>> {
    s.map_values(|t: Vec<char>| t@)
}

proof fn lemma_digits_prefix_le(t: Seq<char>, k: int)
    requires
        all_digits(t),
        0 <= k <= t.len(),
    ensures
        digits_value(t.take(k)) <= digits_value(t),
    decreases t.len(),
{
    if k < t.len() {
        let u = t.drop_last();
        assert(u.take(k) =~= t.take(k));
        assert(all_digits(u)) by {
            assert forall|i: int| 0 <= i < u.len() implies '0' <= #[trigger] u[i] <= '9' by {
                assert(u[i] == t[i]);
            }
        }
        lemma_digits_prefix_le(u, k);
    } else {
        assert(t.take(k) =~= t);
    }
}

/// The array index named by a token, if any.
pub fn parse_index(t: &[char]) -> (r: Option<usize>)
    ensures
        match r {
            Some(n) => index_token(t@) == Some(n as nat),
            None => index_token(t@) is None,
        },
{
    if t.len() == 0 {
        return None;
    }
    if t[0] == '0' && t.len() != 1 {
        return None;
    }
    let mut acc: usize = 0;
    let mut i: usize = 0;
    assert(t@.take(0) =~= Seq::<char>::empty());
    while i < t.len()
        invariant
            0 <= i <= t.len(),
            acc == digits_value(t@.take(i as int)),
            all_digits(t@.take(i as int)),
        decreases t.len() - i,
    {
        let c = t[i];
        if !('0' <= c && c <= '9') {
            assert(!all_digits(t@));
            return None;
        }
        let d: u32 = (c as u32) - ('0' as u32);
        assert(t@.take(i + 1).drop_last() =~= t@.take(i as int));
        assert(digits_value(t@.take(i + 1)) == acc * 10 + d);
        assert(all_digits(t@.take(i + 1))) by {
            assert forall|j: int| 0 <= j < i + 1 implies '0' <= #[trigger] t@.take(i + 1)[j]
                <= '9' by {
                if j < i {
                    assert(t@.take(i + 1)[j] == t@.take(i as int)[j]);
                }
            }
        }
        if (acc as u128) * 10 + (d as u128) > (usize::MAX as u128) {
            proof {
                if all_digits(t@) {
                    lemma_digits_prefix_le(t@, i + 1);
                }
            }
            return None;
        }
        acc = acc * 10 + (d as usize);
        i = i + 1;
    }
    assert(t@.take(t.len() as int) =~= t@);
    Some(acc)
}

/// A pointer token with `~1` read as `/` and then `~0` read as `~`.
pub fn unescape_token_chars(t: &[char]) -> (r: Vec<char>)
    ensures
        r@ == unescape_token(t@),
{
    let a = replace_all_chars(t, &['~', '1'], &['/']);
    let b = replace_all_chars(&a, &['~', '0'], &['~']);
    assert(seq!['~', '1'] =~= ['~', '1']@);
    assert(seq!['~', '0'] =~= ['~', '0']@);
    assert(seq!['/'] =~= ['/']@);
    assert(seq!['~'] =~= ['~']@);
    b
}

/// The value of the first member of `entries` whose key is `key`.
pub fn member_of<'a>(entries: &'a Vec<(String, Json)>, key: &[char]) -> (r: Option<&'a Json>)
    ensures
        match r {
            Some(v) => member(entries@, key@) == Some(*v),
            None => member(entries@, key@) is None,
        },
{
    let mut i: usize = 0;
    assert(entries@.subrange(0, entries@.len() as int) =~= entries@);
    while i < entries.len()
        invariant
            0 <= i <= entries.len(),
            member(entries@, key@) == member(entries@.subrange(i as int, entries@.len() as int), key@),
        decreases entries.len() - i,
    {
        let ghost rest = entries@.subrange(i as int, entries@.len() as int);
        assert(rest.drop_first() =~= entries@.subrange(i + 1, entries@.len() as int));
        let k = str_chars(entries[i].0.as_str());
        if chars_eq(&k, key) {
            return Some(&entries[i].1);
        }
        i = i + 1;
    }
    None
}

/// The child of `v` named by the (already unescaped) token `t`.
pub fn child_of<'a>(v: &'a Json, t: &[char]) -> (r: Option<&'a Json>)
    ensures
        match r {
            Some(c) => child(*v, t@) == Some(*c),
            None => child(*v, t@) is None,
        },
{
    match v {
        Json::Object(entries) => member_of(entries, t),
        Json::Array(items) => match parse_index(t) {
            Some(n) => if n < items.len() {
                Some(&items[n])
            } else {
                None
            },
            None => None,
        },
        _ => None,
    }
}

/// The value reached from `v` by following the pointer tokens `tokens[from..]`
/// in turn, each token unescaped first.
pub fn lookup_tokens<'a>(v: &'a Json, tokens: &[Vec<char>], from: usize) -> (r: Option<&'a Json>)
    requires
        from <= tokens.len(),
    ensures
        match r {
            Some(c) => lookup(*v, views(tokens@).subrange(from as int, tokens@.len() as int))
                == Some(*c),
            None => lookup(*v, views(tokens@).subrange(from as int, tokens@.len() as int)) is None,
        },
{
    let ghost ts = views(tokens@);
    let mut cur: &Json = v;
    let mut i: usize = from;
    while i < tokens.len()
        invariant
            from <= i <= tokens.len(),
            ts == views(tokens@),
            ts.len() == tokens@.len(),
            lookup(*v, ts.subrange(from as int, ts.len() as int)) == lookup(
                *cur,
                ts.subrange(i as int, ts.len() as int),
            ),
        decreases tokens.len() - i,
    {
        let ghost rest = ts.subrange(i as int, ts.len() as int);
        assert(rest.drop_first() =~= ts.subrange(i + 1, ts.len() as int));
        assert(rest[0] == tokens@[i as int]@);
        let t = unescape_token_chars(&tokens[i]);
        match child_of(cur, &t) {
            Some(c) => {
                cur = c;
            },
            None => {
                return None;
            },
        }
        i = i + 1;
    }
    assert(ts.subrange(i as int, ts.len() as int) =~= Seq::<Seq<char>>::empty());
    Some(cur)
}

/// The compact text of `v` with every `"` removed.
pub fn plain_text_of(v: &Json) -> (r: Vec<char>)
    ensures
        r@ == plain_text(*v),
{
    let mut out: Vec<char> = Vec::new();
    v.push_text(&mut out);
    assert(out@ =~= json_text(*v));
    crate::text::remove_char_chars(&out, '"')
}

/// The string held by `v`, if it is a JSON string.
pub fn str_of(v: &Json) -> (r: Option<&String>)
    ensures
        match r {
            Some(s) => as_str(*v) == Some(s@),
            None => as_str(*v) is None,
        },
{
    match v {
        Json::Str(s) => Some(s),
        _ => None,
    }
}

/// The value of the member `key` of `v`, when `v` is an object that has one.
pub fn member_key<'a>(v: &'a Json, key: &[char]) -> (r: Option<&'a Json>)
    ensures
        match r {
            Some(c) => index_key(*v, key@) == *c && (v is Object && member(v->Object_0@, key@) == Some(*c)),
            None => index_key(*v, key@) == Json::Null && !(v is Object && member(v->Object_0@, key@) is Some),
        },
{
    match v {
        Json::Object(entries) => member_of(entries, key),
        _ => None,
    }
}

fn push_all(out: &mut Vec<char>, s: &[char])
    ensures
        final(out)@ == old(out)@ + s@,
{
    let mut i: usize = 0;
    while i < s.len()
        invariant
            0 <= i <= s.len(),
            out@ == old(out)@ + s@.subrange(0, i as int),
        decreases s.len() - i,
    {
        out.push(s[i]);
        i = i + 1;
        assert(out@ =~= old(out)@ + s@.subrange(0, i as int));
    }
    assert(s@.subrange(0, s.len() as int) =~= s@);
}

fn digit_of(d: u64) -> (c: char)
    requires
        d < 10,
    ensures
        c == digit_char(d as nat),
{
    if d == 0 { '0' }
    else if d == 1 { '1' }
    else if d == 2 { '2' }
    else if d == 3 { '3' }
    else if d == 4 { '4' }
    else if d == 5 { '5' }
    else if d == 6 { '6' }
    else if d == 7 { '7' }
    else if d == 8 { '8' }
    else { '9' }
}

/// Appends the decimal text of `n`.
pub fn push_decimal(out: &mut Vec<char>, n: u64)
    ensures
        final(out)@ == old(out)@ + decimal(n as nat),
    decreases n,
{
    if n >= 10 {
        push_decimal(out, n / 10);
    }
    out.push(digit_of(n % 10));
    assert(out@ =~= old(out)@ + decimal(n as nat));
}

fn hex_digit_lower(d: u32) -> (c: char)
    requires
        d < 16,
    ensures
        c == hex_lower(d as nat),
{
    if d < 10 {
        digit_of(d as u64)
    } else if d == 10 {
        'a'
    } else if d == 11 {
        'b'
    } else if d == 12 {
        'c'
    } else if d == 13 {
        'd'
    } else if d == 14 {
        'e'
    } else {
        'f'
    }
}

fn push_escaped_char(out: &mut Vec<char>, c: char)
    ensures
        final(out)@ == old(out)@ + escape_char(c),
{
    if c == '"' {
        out.push('\\');
        out.push('"');
    } else if c == '\\' {
        out.push('\\');
        out.push('\\');
    } else if c == '\x08' {
        out.push('\\');
        out.push('b');
    } else if c == '\x0C' {
        out.push('\\');
        out.push('f');
    } else if c == '\n' {
        out.push('\\');
        out.push('n');
    } else if c == '\r' {
        out.push('\\');
        out.push('r');
    } else if c == '\t' {
        out.push('\\');
        out.push('t');
    } else if (c as u32) < 0x20 {
        let code = c as u32;
        out.push('\\');
        out.push('u');
        out.push('0');
        out.push('0');
        out.push(hex_digit_lower(code / 16));
        out.push(hex_digit_lower(code % 16));
    } else {
        out.push(c);
    }
    assert(out@ =~= old(out)@ + escape_char(c));
}

/// Appends `s` written as a JSON string.
pub fn push_quoted(out: &mut Vec<char>, s: &str)
    ensures
        final(out)@ == old(out)@ + quoted(s@),
{
    let cs = str_chars(s);
    out.push('"');
    let ghost start = out@;
    let mut i: usize = 0;
    while i < cs.len()
        invariant
            0 <= i <= cs.len(),
            out@ == start + escape(cs@.subrange(0, i as int)),
        decreases cs.len() - i,
    {
        assert(cs@.subrange(0, i + 1).drop_last() =~= cs@.subrange(0, i as int));
        push_escaped_char(out, cs[i]);
        i = i + 1;
    }
    assert(cs@.subrange(0, cs.len() as int) =~= cs@);
    out.push('"');
    assert(out@ =~= old(out)@ + quoted(s@));
}

fn push_number(out: &mut Vec<char>, n: &JsonNumber)
    ensures
        final(out)@ == old(out)@ + number_text(*n),
{
    match n {
        JsonNumber::PosInt(u) => push_decimal(out, *u),
        JsonNumber::NegInt(i) => {
            if *i < 0 {
                out.push('-');
                let m: u64 = if *i == i64::MIN {
                    9223372036854775808u64
                } else {
                    (-*i) as u64
                };
                push_decimal(out, m);
                assert(out@ =~= old(out)@ + number_text(*n));
            } else {
                push_decimal(out, *i as u64);
            }
        },
        JsonNumber::Float(t) => {
            let cs = str_chars(t.as_str());
            push_all(out, &cs);
        },
    }
}

impl Json {
    /// Appends the compact JSON text of this value.
    pub fn push_text(&self, out: &mut Vec<char>)
        ensures
            final(out)@ == old(out)@ + json_text(*self),
        decreases self,
    {
        match self {
            Json::Null => {
                out.push('n');
                out.push('u');
                out.push('l');
                out.push('l');
            },
            Json::Bool(b) => {
                if *b {
                    out.push('t');
                    out.push('r');
                    out.push('u');
                    out.push('e');
                } else {
                    out.push('f');
                    out.push('a');
                    out.push('l');
                    out.push('s');
                    out.push('e');
                }
            },
            Json::Number(n) => push_number(out, n),
            Json::Str(s) => push_quoted(out, s.as_str()),
            Json::Array(items) => {
                out.push('[');
                let ghost start = out@;
                let mut i: usize = 0;
                while i < items.len()
                    invariant
                        0 <= i <= items.len(),
                        out@ == start + items_text(items@.subrange(0, i as int)),
                        *self == Json::Array(*items),
                    decreases items.len() - i,
                {
                    let ghost before = out@;
                    assert(items@.subrange(0, i + 1).drop_last() =~= items@.subrange(0, i as int));
                    if i > 0 {
                        out.push(',');
                    } else {
                        assert(items@.subrange(0, i as int) =~= Seq::<Json>::empty());
                    }
                    proof {
                        let ghost v = self->Array_0;
                        assert(decreases_to!(*self => v));
                        assert(decreases_to!(v => v@));
                        assert(decreases_to!(v@ => v@[i as int]));
                    }
                    items[i].push_text(out);
                    i = i + 1;
                }
                assert(items@.subrange(0, items.len() as int) =~= items@);
                out.push(']');
            },
            Json::Object(entries) => {
                out.push('{');
                let ghost start = out@;
                let mut i: usize = 0;
                while i < entries.len()
                    invariant
                        0 <= i <= entries.len(),
                        out@ == start + entries_text(entries@.subrange(0, i as int)),
                        *self == Json::Object(*entries),
                    decreases entries.len() - i,
                {
                    assert(entries@.subrange(0, i + 1).drop_last() =~= entries@.subrange(
                        0,
                        i as int,
                    ));
                    if i > 0 {
                        out.push(',');
                    } else {
                        assert(entries@.subrange(0, i as int) =~= Seq::<(String, Json)>::empty());
                    }
                    push_quoted(out, entries[i].0.as_str());
                    out.push(':');
                    proof {
                        let ghost v = self->Object_0;
                        assert(decreases_to!(*self => v));
                        assert(decreases_to!(v => v@));
                        assert(decreases_to!(v@ => v@[i as int]));
                        assert(decreases_to!(v@[i as int] => v@[i as int].1));
                    }
                    entries[i].1.push_text(out);
                    i = i + 1;
                }
                assert(entries@.subrange(0, entries.len() as int) =~= entries@);
                out.push('}');
            },
        }
        assert(out@ =~= old(out)@ + json_text(*self));
    }
}

/// A character other than `"`, `\\` and the control characters below 0x20 is
/// written as itself inside a JSON string.
pub proof fn lemma_plain_char_unescaped(c: char)
    requires
        c != '"',
        c != '\\',
        (c as u32) >= 0x20,
    ensures
        escape_char(c) == seq![c],
{
}

/// A string without `"`, `\\` or control characters is written as itself
/// inside a JSON string.
pub proof fn lemma_plain_string_escape(s: Seq<char>)
    requires
        forall|i: int|
            0 <= i < s.len() ==> #[trigger] s[i] != '"' && s[i] != '\\' && (s[i] as u32) >= 0x20,
    ensures
        escape(s) == s,
    decreases s.len(),
{
    if s.len() > 0 {
        let u = s.drop_last();
        assert forall|i: int| 0 <= i < u.len() implies #[trigger] u[i] != '"' && u[i] != '\\' && (
        u[i] as u32) >= 0x20 by {
            assert(u[i] == s[i]);
        }
        lemma_plain_string_escape(u);
        lemma_plain_char_unescaped(s.last());
        assert(escape(s) =~= s);
    }
}

proof fn lemma_remove_absent(s: Seq<char>, c: char)
    requires
        forall|i: int| 0 <= i < s.len() ==> #[trigger] s[i] != c,
    ensures
        crate::text::remove_char(s, c) == s,
    decreases s.len(),
{
    reveal_with_fuel(Seq::<_>::filter, 1);
    if s.len() > 0 {
        let u = s.drop_last();
        assert forall|i: int| 0 <= i < u.len() implies #[trigger] u[i] != c by {
            assert(u[i] == s[i]);
        }
        lemma_remove_absent(u, c);
        assert(u.push(s.last()) =~= s);
    } else {
        assert(crate::text::remove_char(s, c) =~= s);
    }
}

proof fn lemma_remove_concat(a: Seq<char>, b: Seq<char>, c: char)
    ensures
        crate::text::remove_char(a + b, c) == crate::text::remove_char(a, c) + crate::text::remove_char(
            b,
            c,
        ),
{
    Seq::filter_distributes_over_add(a, b, |x: char| x != c);
}

proof fn lemma_remove_only(c: char)
    ensures
        crate::text::remove_char(seq![c], c) == Seq::<char>::empty(),
{
    reveal_with_fuel(Seq::<_>::filter, 1);
    assert(seq![c].drop_last() =~= Seq::<char>::empty());
    assert(crate::text::remove_char(Seq::<char>::empty(), c) =~= Seq::<char>::empty());
}

/// The plain text of a JSON string without `"`, `\\` or control characters
/// (the value a template parameter takes, or a criterion compares) is the
/// string itself.
pub proof fn lemma_plain_string(s: String)
    requires
        forall|i: int|
            0 <= i < s@.len() ==> #[trigger] s@[i] != '"' && s@[i] != '\\' && (s@[i] as u32) >= 0x20,
    ensures
        plain_text(Json::Str(s)) == s@,
{
    let v = s@;
    lemma_plain_string_escape(v);
    assert forall|i: int| 0 <= i < v.len() implies #[trigger] v[i] != '"' by {}
    lemma_remove_absent(v, '"');
    lemma_remove_only('"');
    lemma_remove_concat(seq!['"'] + v, seq!['"'], '"');
    lemma_remove_concat(seq!['"'], v, '"');
    assert(json_text(Json::Str(s)) == seq!['"'] + v + seq!['"']);
    assert(Seq::<char>::empty() + v + Seq::<char>::empty() =~= v);
}

} // verus!
