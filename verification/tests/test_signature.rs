use pulse::signature::{
    checked_request_is_authentic, compare_signature, github_request_is_authentic, is_authentic,
    post_digest,
};
use pulse::status::StatusCode;
use pulse::util::{dump_bytes, hex_pairs, read_bytes};

// HMAC-SHA256 of "what do ya want for nothing?" under the key "Jefe".
const JEFE_CODE: &str = "5bdcc146bf60754e6a042426089575c75a003f089d2739839dec58b964ec3843";
const JEFE_BODY: &[u8] = b"what do ya want for nothing?";

fn jefe_header() -> String {
    format!("sha256={}", JEFE_CODE)
}

#[test]
fn signed_request_is_accepted() {
    let header = jefe_header();
    let status = github_request_is_authentic("Jefe".to_string(), Some(header.as_bytes()), JEFE_BODY);
    assert_eq!(status, StatusCode::ACCEPTED);
}

#[test]
fn signed_request_is_accepted_with_uppercase_digest() {
    let header = format!("sha256={}", JEFE_CODE.to_uppercase());
    let status = is_authentic("Jefe".to_string(), header, JEFE_BODY);
    assert_eq!(status, StatusCode::ACCEPTED);
}

#[test]
fn wrongly_signed_request_is_unauthorized() {
    let mut code = JEFE_CODE.to_string();
    code.replace_range(0..1, "6");
    let header = format!("sha256={}", code);
    let status = github_request_is_authentic("Jefe".to_string(), Some(header.as_bytes()), JEFE_BODY);
    assert_eq!(status, StatusCode::UNAUTHORIZED);
}

#[test]
fn request_under_another_secret_is_unauthorized() {
    let header = jefe_header();
    let status = github_request_is_authentic("Jeff".to_string(), Some(header.as_bytes()), JEFE_BODY);
    assert_eq!(status, StatusCode::UNAUTHORIZED);
}

#[test]
fn request_without_signature_is_unauthorized() {
    let status = github_request_is_authentic("Jefe".to_string(), None, JEFE_BODY);
    assert_eq!(status, StatusCode::UNAUTHORIZED);
}

#[test]
fn signature_that_is_not_text_is_a_bad_request() {
    let header: &[u8] = &[0xff, 0xfe, 0x41];
    let status = github_request_is_authentic("Jefe".to_string(), Some(header), JEFE_BODY);
    assert_eq!(status, StatusCode::BAD_REQUEST);
}

#[test]
fn checked_request_answers_like_the_unchecked_one() {
    let header = jefe_header();
    assert_eq!(
        checked_request_is_authentic("Jefe".to_string(), Some(header.as_bytes()), JEFE_BODY),
        Some(StatusCode::ACCEPTED)
    );
    assert_eq!(checked_request_is_authentic("Jefe".to_string(), None, JEFE_BODY), Some(StatusCode::UNAUTHORIZED));
    assert_eq!(
        checked_request_is_authentic("Jefe".to_string(), Some(&[0xffu8][..]), JEFE_BODY),
        Some(StatusCode::BAD_REQUEST)
    );
}

#[test]
fn malformed_signature_cannot_be_checked() {
    let header = "sha256=zz";
    assert_eq!(checked_request_is_authentic("Jefe".to_string(), Some(header.as_bytes()), JEFE_BODY), None);
    let short = "sha256=5bdc";
    assert_eq!(checked_request_is_authentic("Jefe".to_string(), Some(short.as_bytes()), JEFE_BODY), None);
}

#[test]
fn post_digest_strips_prefix_and_uppercases() {
    assert_eq!(post_digest("sha256=0aff"), "0AFF");
    assert_eq!(post_digest("0aff"), "0AFF");
}

#[test]
fn compare_signature_on_a_known_code() {
    assert_eq!(compare_signature("sha256=0aff", &[0x0a, 0xff]), StatusCode::ACCEPTED);
    assert_eq!(compare_signature("sha256=0aff", &[0x0a, 0xfe]), StatusCode::UNAUTHORIZED);
}

#[test]
fn dump_bytes_is_uppercase_hex() {
    assert_eq!(dump_bytes(&[0x00, 0x0a, 0xff, 0x5b]), "000AFF5B");
    assert_eq!(dump_bytes(&[]), "");
}

#[test]
fn read_bytes_reads_hex_pairs() {
    assert_eq!(read_bytes("000aFF5b".to_string()), vec![0x00, 0x0a, 0xff, 0x5b]);
    assert_eq!(read_bytes("+a".to_string()), vec![0x0a]);
}

#[test]
fn read_after_dump_gives_the_bytes_back() {
    let bytes: Vec<u8> = (0..=255u8).collect();
    assert_eq!(read_bytes(dump_bytes(&bytes)), bytes);
}

#[test]
fn hex_pairs_checks_the_form() {
    assert!(hex_pairs("0aFF"));
    assert!(hex_pairs(""));
    assert!(!hex_pairs("0a F"));
    assert!(!hex_pairs("abc"));
    assert!(!hex_pairs("zz"));
}

#[test]
fn status_numbers() {
    assert_eq!(StatusCode::CONTINUE.as_u16(), 100);
    assert_eq!(StatusCode::OK.as_u16(), 200);
    assert_eq!(StatusCode::ACCEPTED.as_u16(), 202);
    assert_eq!(StatusCode::BAD_REQUEST.as_u16(), 400);
    assert_eq!(StatusCode::UNAUTHORIZED.as_u16(), 401);
    assert_eq!(StatusCode::TOO_MANY_REQUESTS.as_u16(), 429);
    assert_eq!(StatusCode::INTERNAL_SERVER_ERROR.as_u16(), 500);
}

#[test]
fn well_formed_signatures_are_always_compared() {
    let wrong = format!("sha256={}", "ab".repeat(32));
    assert_eq!(
        checked_request_is_authentic("Jefe".to_string(), Some(wrong.as_bytes()), JEFE_BODY),
        Some(StatusCode::UNAUTHORIZED)
    );
    let short = format!("sha256={}", "ab".repeat(31));
    assert_eq!(checked_request_is_authentic("Jefe".to_string(), Some(short.as_bytes()), JEFE_BODY), None);
}

#[test]
fn dump_after_read_gives_the_text_in_upper_case() {
    assert_eq!(dump_bytes(&read_bytes("0aff5Bc9".to_string())), "0AFF5BC9");
}
