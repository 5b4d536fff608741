use openssl::hash::MessageDigest;
use openssl::pkey::PKey;
use openssl::sign::Signer;

use pulse::discord::Webhook;
use pulse::event::{EventConfig, Template};
use pulse::filter::{screen_signed, step, verify_signed, Action, Input, Stage};
use pulse::status::StatusCode;

const SIGNATURE: &str = "sha256=5bdcc146bf60754e6a042426089575c75a003f089d2739839dec58b964ec3843";
const BODY: &[u8] = b"what do ya want for nothing?";

fn config(body: &str) -> EventConfig {
    EventConfig::from_parts(
        "Jefe".to_string(),
        vec![Template::from_parts(vec![], body.to_string())],
        Webhook::new("https://discord.com/api/webhooks/1".to_string()),
        true,
    )
}

/// The signature header of `body` under the secret "Jefe".
fn sign(body: &[u8]) -> String {
    let key = PKey::hmac(b"Jefe").unwrap();
    let mut signer = Signer::new(MessageDigest::sha256(), &key).unwrap();
    signer.update(body).unwrap();
    let code = signer.sign_to_vec().unwrap();
    let hex: String = code.iter().map(|b| format!("{:02x}", b)).collect();
    format!("sha256={}", hex)
}

fn star_body(private: bool) -> Vec<u8> {
    format!(
        "{{\"action\": \"created\", \"starred_at\": \"2024-01-08T18:53:52Z\",\n \"repository\": {{\"name\": \"jGL\", \"private\": {}, \"stargazers_count\": 4}}}}",
        private
    )
    .into_bytes()
}

fn answer(a: Action) -> StatusCode {
    match a {
        Action::Answer(s) => s,
        _ => panic!("expected an answer"),
    }
}

/// Runs the filter on a request of the event `event` up to its authentication.
fn authenticated(event: &str, body: &[u8], signature: Option<String>) -> (Stage, Action) {
    let (stage, action) = step(Stage::Arrived, Input::UserAgent(Some("GitHub-Hookshot/1".to_string())));
    assert!(matches!(action, Action::ReadRequest));
    let (stage, action) = step(
        stage,
        Input::Request(Some(body.to_vec()), Some(event.to_string()), signature.map(|s| s.into_bytes())),
    );
    assert!(matches!(action, Action::LoadConfig(_)));
    step(stage, Input::Config(config("<repository/name> has <repository/stargazers_count> stars")))
}

#[test]
fn other_agents_are_passed_on() {
    let (_, action) = step(Stage::Arrived, Input::UserAgent(Some("curl/8.4.0".to_string())));
    assert!(matches!(action, Action::PassOn));
    let (_, action) = step(Stage::Arrived, Input::UserAgent(None));
    assert!(matches!(action, Action::PassOn));
}

#[test]
fn requests_without_event_or_body() {
    let (_, action) = step(Stage::Reading, Input::Request(None, Some("star".to_string()), None));
    assert!(matches!(action, Action::Refuse(StatusCode::BAD_REQUEST)));
    let (_, action) = step(Stage::Reading, Input::Request(Some(vec![]), None, None));
    assert_eq!(answer(action), StatusCode::BAD_REQUEST);
    let (_, action) = step(Stage::Reading, Input::Request(Some(vec![]), Some("issues".to_string()), None));
    assert_eq!(answer(action), StatusCode::CONTINUE);
}

#[test]
fn failed_post_is_a_server_error() {
    let (_, action) = step(Stage::Posting, Input::Posted(false));
    assert_eq!(answer(action), StatusCode::INTERNAL_SERVER_ERROR);
}

#[test]
fn signed_star_is_posted() {
    let body = star_body(false);
    let (stage, action) = authenticated("star", &body, Some(sign(&body)));
    assert!(matches!(action, Action::Count));
    assert!(stage.payload().is_some());
    let (stage, action) = step(stage, Input::Counted);
    match action {
        Action::Post(w, msg) => {
            assert_eq!(w.get_addr(), "https://discord.com/api/webhooks/1");
            assert_eq!(msg, "jGL has 4 stars");
        }
        _ => panic!("expected a message to post"),
    }
    let (_, action) = step(stage, Input::Posted(true));
    assert_eq!(answer(action), StatusCode::OK);
}

#[test]
fn configuration_names_of_events() {
    for (event, name) in [
        ("push", "github_pushed"),
        ("star", "github_starred"),
        ("release", "github_released"),
        ("ping", "github_ping"),
        ("fork", "github_forked"),
    ] {
        let (_, action) = step(Stage::Reading, Input::Request(Some(vec![]), Some(event.to_string()), None));
        match action {
            Action::LoadConfig(n) => assert_eq!(n, name),
            _ => panic!("expected the configuration of {} to be loaded", event),
        }
    }
}

#[test]
fn release_ping_and_fork_are_authenticated() {
    for event in ["release", "ping", "fork"] {
        let body = star_body(false);
        let (_, action) = authenticated(event, &body, None);
        assert_eq!(answer(action), StatusCode::UNAUTHORIZED);
        let (_, action) = authenticated(event, &body, Some(sign(b"another body")));
        assert_eq!(answer(action), StatusCode::UNAUTHORIZED);
    }
    let body = star_body(false);
    let (stage, action) = authenticated("ping", &body, Some(sign(&body)));
    assert!(matches!(action, Action::Count));
    let (_, action) = step(stage, Input::Counted);
    assert_eq!(answer(action), StatusCode::OK);
}

#[test]
fn signed_release_is_announced() {
    let body = b"{\"action\": \"published\", \"release\": {\"html_url\": \"https://x/r\"}, \"repository\": {\"name\": \"jGL\", \"private\": false, \"stargazers_count\": 2}}".to_vec();
    let (stage, action) = authenticated("release", &body, Some(sign(&body)));
    assert!(matches!(action, Action::Count));
    let (_, action) = step(stage, Input::Counted);
    match action {
        Action::Post(_, msg) => assert_eq!(
            msg,
            "New release just dropped!\n  jGL just got a newly published release :confetti_ball: \n  Check it out here: https://x/r"
        ),
        _ => panic!("expected a message to post"),
    }
}

#[test]
fn private_star_is_dropped() {
    let body = star_body(true);
    let (stage, action) = authenticated("star", &body, Some(sign(&body)));
    assert_eq!(answer(action), StatusCode::OK);
    assert!(stage.payload().is_none());
}

#[test]
fn unsigned_or_missigned_requests_are_answered() {
    let (_, action) = authenticated("star", BODY, None);
    assert_eq!(answer(action), StatusCode::UNAUTHORIZED);
    let bad = "sha256=6bdcc146bf60754e6a042426089575c75a003f089d2739839dec58b964ec3843".to_string();
    let (_, action) = authenticated("star", BODY, Some(bad));
    assert_eq!(answer(action), StatusCode::UNAUTHORIZED);
    let (_, action) = authenticated("star", BODY, Some("sha256=zz".to_string()));
    assert!(matches!(action, Action::Abort));
}

#[test]
fn body_that_is_not_json_is_a_server_error() {
    let (_, action) = authenticated("star", BODY, Some(SIGNATURE.to_string()));
    assert_eq!(answer(action), StatusCode::INTERNAL_SERVER_ERROR);
}

#[test]
fn body_that_is_not_text_stops() {
    let body = vec![0xffu8, 0xfe];
    let (_, action) = authenticated("star", &body, Some(sign(&body)));
    assert!(matches!(action, Action::Abort));
}

#[test]
fn control_characters_are_removed_before_parsing() {
    let body = b"{\"action\": \"created\",\n\t\"starred_at\": \"t\", \"repository\": {\"name\": \"a\nb\", \"private\": false, \"stargazers_count\": 1}}".to_vec();
    let (stage, action) = authenticated("star", &body, Some(sign(&body)));
    assert!(matches!(action, Action::Count));
    let (_, action) = step(stage, Input::Counted);
    match action {
        Action::Post(_, msg) => assert_eq!(msg, "ab has 1 stars"),
        _ => panic!("expected a message to post"),
    }
}

#[test]
fn unexpected_input_stops() {
    let (_, action) = step(Stage::Done, Input::Counted);
    assert!(matches!(action, Action::Abort));
    let (_, action) = step(Stage::Arrived, Input::Posted(true));
    assert!(matches!(action, Action::Abort));
}

#[test]
fn verifying_middleware_screens_headers() {
    let sig = SIGNATURE.as_bytes();
    assert!(matches!(screen_signed(None, Some(sig)), Action::Answer(StatusCode::BAD_REQUEST)));
    assert!(matches!(screen_signed(Some("curl/8"), Some(sig)), Action::PassOn));
    assert!(matches!(screen_signed(Some("GitHub-Hookshot/1"), None), Action::Answer(StatusCode::UNAUTHORIZED)));
    assert!(matches!(
        screen_signed(Some("GitHub-Hookshot/1"), Some(&[0xffu8][..])),
        Action::Answer(StatusCode::BAD_REQUEST)
    ));
    assert!(matches!(screen_signed(Some("GitHub-Hookshot/1"), Some(sig)), Action::ReadRequest));
}

#[test]
fn verifying_middleware_checks_the_body() {
    let sig = SIGNATURE.as_bytes();
    assert!(matches!(verify_signed("Jefe".to_string(), sig, Some(BODY)), Action::Answer(StatusCode::OK)));
    assert!(matches!(
        verify_signed("Jefe".to_string(), sig, Some(b"another body")),
        Action::Answer(StatusCode::UNAUTHORIZED)
    ));
    assert!(matches!(verify_signed("Jefe".to_string(), sig, None), Action::Refuse(StatusCode::BAD_REQUEST)));
    assert!(matches!(verify_signed("Jefe".to_string(), b"sha256=00", Some(BODY)), Action::Abort));
}

