//! Authentication of a Github webhook request: the header
//! `x-hub-signature-256` must carry the HMAC-SHA256 of the request body under
//! the webhook's shared secret, written as `sha256=` and hexadecimal digits.
use vstd::prelude::*;

use openssl::error::ErrorStack;
use openssl::hash::MessageDigest;
use openssl::pkey::PKey;
use openssl::sign::Signer;
use regex::Regex;

use crate::status::StatusCode;
use crate::text::{replace_all, str_chars};
use crate::util::{hex_bytes, is_hex_pairs, read_bytes};

verus! {

/// OpenSSL's error type, `openssl::error::ErrorStack`, which the HMAC
/// computation may return; nothing in it is read here.
#[verifier::external_type_specification]
#[verifier::external_body]
pub struct ExErrorStack(ErrorStack);

/// The HMAC-SHA256 message authentication code of `data` under `key`, as
/// OpenSSL computes it.
pub uninterp spec fn hmac_sha256(key: Seq<u8>, data: Seq<u8>) -> Seq<u8>;

/// The text of a string in upper case, as `str::to_uppercase` gives it.
pub uninterp spec fn uppercase(s: Seq<char>) -> Seq<char>;

/// An ASCII letter in upper case; other characters unchanged.
pub open spec fn ascii_upper(c: char) -> char {
    if 'a' <= c <= 'z' {
        ((c as u32) - 32) as char
    } else {
        c
    }
}

/// `s` with its ASCII letters in upper case.
pub open spec fn upper_text(s: Seq<char>) -> Seq<char> {
    s.map_values(|c: char| ascii_upper(c))
}

/// The text `sha256=`.
pub open spec fn sha256_prefix() -> Seq<char> {
    seq!['s', 'h', 'a', '2', '5', '6', '=']
}

/// The digest that a signature header carries: the header with every
/// `sha256=` removed, in upper case.
pub open spec fn signature_digest(signature: Seq<char>) -> Seq<char> {
    uppercase(replace_all(signature, sha256_prefix(), Seq::empty()))
}

/// The length in bytes of an HMAC-SHA256 code: that of a SHA-256 digest.
pub open spec fn hmac_sha256_len() -> nat {
    32
}

/// Whether a signature header can be compared with the code computed locally:
/// its digest is made of hex pairs that read as as many bytes as an
/// HMAC-SHA256 code has (64 hex digits).
pub open spec fn signature_comparable(signature: Seq<char>) -> bool {
    &&& is_hex_pairs(signature_digest(signature))
    &&& hex_bytes(signature_digest(signature)).len() == hmac_sha256_len()
}

/// The answer to a request whose signature header reads as `signature`:
/// accepted when the code that the header carries is the code computed
/// locally (`code`), unauthorized when it is another.
pub open spec fn authentication_status(signature: Seq<char>, code: Seq<u8>) -> StatusCode {
    if hex_bytes(signature_digest(signature)) == code {
        StatusCode::ACCEPTED
    } else {
        StatusCode::UNAUTHORIZED
    }
}

/// Each byte of `v` written as two lower-case hexadecimal digits, as Github
/// writes a digest.
pub open spec fn hex_text_lower(v: Seq<u8>) -> Seq<char>
    decreases v.len(),
{
    if v.len() == 0 {
        Seq::empty()
    } else {
        hex_text_lower(v.drop_last()) + seq![
            crate::json::hex_lower((v.last() / 16) as nat),
            crate::json::hex_lower((v.last() % 16) as nat),
        ]
    }
}

proof fn lemma_hex_lower_shape(v: Seq<u8>)
    ensures
        forall|i: int| 0 <= i < hex_text_lower(v).len() ==> (#[trigger] hex_text_lower(v)[i] as u32) < 128
            && hex_text_lower(v)[i] != 's',
        upper_text(hex_text_lower(v)) == crate::util::hex_text(v),
    decreases v.len(),
{
    if v.len() > 0 {
        let u = v.drop_last();
        lemma_hex_lower_shape(u);
        let t = hex_text_lower(v);
        let tu = hex_text_lower(u);
        assert forall|i: int| 0 <= i < t.len() implies (#[trigger] t[i] as u32) < 128 && t[i] != 's' by {
            if i < tu.len() {
                assert(t[i] == tu[i]);
            }
        }
        assert(upper_text(t) =~= crate::util::hex_text(v)) by {
            assert forall|i: int| 0 <= i < t.len() implies #[trigger] upper_text(t)[i] == crate::util::hex_text(v)[i] by {
                if i < tu.len() {
                    assert(t[i] == tu[i]);
                    assert(upper_text(tu)[i] == crate::util::hex_text(u)[i]);
                }
            }
        }
    } else {
        assert(upper_text(hex_text_lower(v)) =~= crate::util::hex_text(v));
    }
}

proof fn lemma_replace_absent(t: Seq<char>, pat: Seq<char>, rep: Seq<char>)
    requires
        pat.len() > 0,
        forall|i: int| 0 <= i < t.len() ==> #[trigger] t[i] != pat[0],
    ensures
        replace_all(t, pat, rep) == t,
    decreases t.len(),
{
    if t.len() >= pat.len() {
        assert(t.subrange(0, pat.len() as int)[0] != pat[0]);
        let u = t.subrange(1, t.len() as int);
        assert forall|i: int| 0 <= i < u.len() implies #[trigger] u[i] != pat[0] by {
            assert(u[i] == t[i + 1]);
        }
        lemma_replace_absent(u, pat, rep);
        assert(t =~= seq![t[0]] + u);
    }
}

/// The digest carried by `sha256=` and the lower-case hex text of `code` is the
/// upper-case hex text of `code`, given that upper-casing ASCII text maps each
/// character by `ascii_upper`.
proof fn lemma_github_digest(code: Seq<u8>, upper: Seq<char>)
    requires
        upper == upper_text(hex_text_lower(code)),
    ensures
        replace_all(sha256_prefix() + hex_text_lower(code), sha256_prefix(), Seq::empty())
            == hex_text_lower(code),
        forall|i: int| 0 <= i < hex_text_lower(code).len() ==> (#[trigger] hex_text_lower(code)[i] as u32) < 128,
        is_hex_pairs(upper),
        hex_bytes(upper) == code,
{
    let t = hex_text_lower(code);
    lemma_hex_lower_shape(code);
    let s = sha256_prefix() + t;
    assert(s.subrange(0, 7) =~= sha256_prefix());
    assert(s.subrange(7, s.len() as int) =~= t);
    lemma_replace_absent(t, sha256_prefix(), Seq::empty());
    assert(Seq::<char>::empty() + t =~= t);
    crate::util::lemma_read_dump_roundtrip(code);
}

/// The upper-case text of `s`, by `str::to_uppercase`. The contract states the
/// result for ASCII text only; for other text it names the result.
#[verifier::external_body]
fn to_uppercase(s: &str) -> (r: String)
    ensures
        r@ == uppercase(s@),
        (forall|i: int| 0 <= i < s@.len() ==> (#[trigger] s@[i] as u32) < 128) ==> r@ == upper_text(s@),
{
    s.to_uppercase()
}

/// The signature header with every `sha256=` removed, by the regular
/// expression `sha256=` replaced by nothing.
#[verifier::external_body]
fn remove_sha256_prefix(signature: &str) -> (r: String)
    ensures
        r@ == replace_all(signature@, sha256_prefix(), Seq::empty()),
{
    Regex::new(r"sha256=").unwrap().replace_all(signature, "").into_owned()
}

/// The HMAC-SHA256 code of `data` under `key`, by OpenSSL: `PKey::hmac` makes
/// the key, `Signer::new` with `MessageDigest::sha256()` the signer, then
/// `Signer::update` and `Signer::sign_to_vec`. Any of them may fail with an
/// OpenSSL error; when none does, the result is `hmac_sha256(key, data)`, a
/// code of 32 bytes (the length of a SHA-256 digest, which the HMAC signs to).
#[verifier::external_body]
fn hmac_sha256_of(key: &[u8], data: &[u8]) -> (r: Result<Vec<u8>, ErrorStack>)
    requires
        key.len() <= i32::MAX,
    ensures
        r matches Ok(v) ==> v@ == hmac_sha256(key@, data@) && v@.len() == hmac_sha256_len(),
{
    let pkey = PKey::hmac(key)?;
    let mut signer = Signer::new(MessageDigest::sha256(), &pkey)?;
    signer.update(data)?;
    signer.sign_to_vec()
}

/// `openssl::memcmp::eq`: whether two byte strings of the same length are
/// equal, compared in constant time. It panics on different lengths.
pub assume_specification[ openssl::memcmp::eq ](a: &[u8], b: &[u8]) -> (r: bool)
    requires
        a.len() == b.len(),
    ensures
        r == (a@ == b@),
;

/// The text of the bytes, when they are valid UTF-8, by `std::str::from_utf8`.
#[verifier::external_body]
pub(crate) fn utf8_text(bytes: &[u8]) -> (r: Option<String>)
    ensures
        r is Some <==> vstd::utf8::valid_utf8(bytes@),
        r matches Some(s) ==> s@ == vstd::utf8::decode_utf8(bytes@),
{
    std::str::from_utf8(bytes).ok().map(|s| s.to_string())
}

/// The digest that a signature header carries.
pub fn post_digest(signature: &str) -> (r: String)
    ensures
        r@ == signature_digest(signature@),
        (forall|i: int|
            0 <= i < replace_all(signature@, sha256_prefix(), Seq::empty()).len()
                ==> (#[trigger] replace_all(signature@, sha256_prefix(), Seq::empty())[i] as u32)
                < 128) ==> r@ == upper_text(replace_all(signature@, sha256_prefix(), Seq::empty())),
{
    let stripped = remove_sha256_prefix(signature);
    to_uppercase(stripped.as_str())
}

/// Decides a request from the code computed locally: accepted when the
/// signature header carries that code, unauthorized otherwise.
pub fn compare_signature(signature: &str, code: &[u8]) -> (r: StatusCode)
    requires
        is_hex_pairs(signature_digest(signature@)),
        hex_bytes(signature_digest(signature@)).len() == code@.len(),
    ensures
        r == authentication_status(signature@, code@),
        signature@ == sha256_prefix() + hex_text_lower(code@) ==> r == StatusCode::ACCEPTED,
{
    let digest = post_digest(signature);
    proof {
        if signature@ == sha256_prefix() + hex_text_lower(code@) {
            lemma_github_digest(code@, upper_text(hex_text_lower(code@)));
        }
    }
    let sent = read_bytes(digest);
    if openssl::memcmp::eq(code, sent.as_slice()) {
        StatusCode::ACCEPTED
    } else {
        StatusCode::UNAUTHORIZED
    }
}

/// Checks the signature header of a request against the body and the shared
/// secret `token`: accepted when it carries the HMAC-SHA256 code of the body,
/// unauthorized when it carries another; a failure of OpenSSL answers 500.
pub fn is_authentic(token: String, signature: String, body: &[u8]) -> (r: StatusCode)
    requires
        vstd::utf8::encode_utf8(token@).len() <= i32::MAX,
        signature_comparable(signature@),
    ensures
        r == StatusCode::INTERNAL_SERVER_ERROR || r == authentication_status(
            signature@,
            hmac_sha256(vstd::utf8::encode_utf8(token@), body@),
        ),
        signature@ == sha256_prefix() + hex_text_lower(
            hmac_sha256(vstd::utf8::encode_utf8(token@), body@),
        ) ==> r == StatusCode::INTERNAL_SERVER_ERROR || r == StatusCode::ACCEPTED,
{
    let key = token.as_str().as_bytes();
    match hmac_sha256_of(key, body) {
        Ok(code) => compare_signature(signature.as_str(), code.as_slice()),
        Err(_) => StatusCode::INTERNAL_SERVER_ERROR,
    }
}

/// The bytes of an optional header.
pub open spec fn header_bytes(h: Option<&[u8]>) -> Option<Seq<u8>> {
    match h {
        Some(b) => Some(b@),
        None => None,
    }
}

/// Whether a request with this signature header can be checked: the secret is
/// short enough for OpenSSL, and a UTF-8 header has a digest of 32 hex pairs,
/// as many bytes as an HMAC-SHA256 code has.
pub open spec fn request_checkable(signature: Option<Seq<u8>>, token: Seq<char>, body: Seq<u8>) -> bool {
    &&& vstd::utf8::encode_utf8(token).len() <= i32::MAX
    &&& match signature {
        Some(b) => vstd::utf8::valid_utf8(b) ==> signature_comparable(vstd::utf8::decode_utf8(b)),
        None => true,
    }
}

/// The answers that a request with this signature header may get: unauthorized
/// without the header, a bad request when it is not UTF-8 text, else the answer
/// of `authentication_status` to the code computed locally, or 500 when OpenSSL
/// fails.
pub open spec fn request_status(
    signature: Option<Seq<u8>>,
    token: Seq<char>,
    body: Seq<u8>,
    r: StatusCode,
) -> bool {
    match signature {
        None => r == StatusCode::UNAUTHORIZED,
        Some(b) => if !vstd::utf8::valid_utf8(b) {
            r == StatusCode::BAD_REQUEST
        } else {
            r == StatusCode::INTERNAL_SERVER_ERROR || r == authentication_status(
                vstd::utf8::decode_utf8(b),
                hmac_sha256(vstd::utf8::encode_utf8(token), body),
            )
        },
    }
}

/// The answer to a Github request from its `x-hub-signature-256` header (the
/// header's bytes, when present): unauthorized without the header, a bad
/// request when the header is not UTF-8 text, else as `is_authentic` decides.
pub fn github_request_is_authentic(token: String, signature: Option<&[u8]>, body: &[u8]) -> (r:
    StatusCode)
    requires
        request_checkable(header_bytes(signature), token@, body@),
    ensures
        request_status(header_bytes(signature), token@, body@, r),
{
    match signature {
        None => StatusCode::UNAUTHORIZED,
        Some(b) => match utf8_text(b) {
            None => StatusCode::BAD_REQUEST,
            Some(s) => is_authentic(token, s, body),
        },
    }
}

/// As `github_request_is_authentic`, but `None` for a request that cannot be
/// checked, and only for one: a secret longer than OpenSSL accepts, or a UTF-8
/// signature header whose digest is not 32 hex pairs.
pub fn checked_request_is_authentic(token: String, signature: Option<&[u8]>, body: &[u8]) -> (r:
    Option<StatusCode>)
    ensures
        r matches Some(status) ==> request_status(header_bytes(signature), token@, body@, status),
        r is None <==> !request_checkable(header_bytes(signature), token@, body@),
{
    let key = token.as_str().as_bytes();
    assert(key@ == vstd::utf8::encode_utf8(token@));
    if key.len() > 0x7fff_ffff {
        return None;
    }
    if let Some(b) = signature {
        if let Some(s) = utf8_text(b) {
            let digest = post_digest(s.as_str());
            if !crate::util::hex_pairs(digest.as_str()) {
                return None;
            }
            let n = str_chars(digest.as_str()).len();
            if n / 2 != 32 {
                return None;
            }
            assert(hex_bytes(digest@).len() == hmac_sha256_len());
            assert(signature_comparable(s@));
        }
    }
    Some(github_request_is_authentic(token, signature, body))
}

} // verus!
