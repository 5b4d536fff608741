use pulse::discord::Webhook;
use pulse::event::{can_expand, expand_template, satisfied, select_template, Criterion, EventConfig, Payload, Template};
use pulse::github::{
    github_release, is_github_user_agent, respond_release, respond_starred, GithubEvent, GithubIssue,
    GithubPushed, GithubReleaseActionType, GithubReleasedActionType, GithubStarred, GithubStarredActionType,
    Reply,
};
use pulse::json::{Json, JsonNumber};
use pulse::status::StatusCode;

fn s(x: &str) -> Json {
    Json::Str(x.to_string())
}

fn n(x: u64) -> Json {
    Json::Number(JsonNumber::PosInt(x))
}

fn obj(members: Vec<(&str, Json)>) -> Json {
    Json::Object(members.into_iter().map(|(k, v)| (k.to_string(), v)).collect())
}

fn payload(members: Vec<(&str, Json)>) -> Payload {
    Payload { entries: members.into_iter().map(|(k, v)| (k.to_string(), v)).collect() }
}

fn repo(name: &str, private: bool, stars: u64) -> Json {
    obj(vec![("name", s(name)), ("private", Json::Bool(private)), ("stargazers_count", n(stars))])
}

fn star_payload(action: &str, name: &str, private: bool, stars: u64) -> Payload {
    payload(vec![
        ("action", s(action)),
        ("starred_at", s("2024-01-08T18:53:52Z")),
        ("repository", repo(name, private, stars)),
        ("sender", obj(vec![("login", s("Jerboa-app"))])),
    ])
}

fn release_payload(action: &str, name: &str) -> Payload {
    payload(vec![
        ("action", s(action)),
        ("release", obj(vec![("html_url", s("https://github.com/JerboaBurrow/jGL/releases/tag/v0.1"))])),
        ("repository", repo(name, false, 2)),
    ])
}

fn config(body: &str, silent: bool) -> EventConfig {
    EventConfig::from_parts(
        "secret".to_string(),
        vec![Template::from_parts(vec![], body.to_string())],
        Webhook::new("https://discord.com/api/webhooks/1".to_string()),
        silent,
    )
}

fn posted(r: Reply) -> String {
    match r {
        Reply::Post(m) => m,
        Reply::Done(s) => panic!("expected a message, got {:?}", s),
    }
}

fn done(r: Reply) -> StatusCode {
    match r {
        Reply::Done(s) => s,
        Reply::Post(m) => panic!("expected a status, got {}", m),
    }
}

#[test]
fn star_created_message_names_this_project() {
    let p = star_payload("created", "Pulse", false, 3);
    assert_eq!(posted(respond_starred(GithubStarredActionType::CREATED, &p)), "Pulse (that's me!) just got a new :star:, that makes 3");
}

#[test]
fn star_deleted_message() {
    let p = star_payload("deleted", "jGL", false, 2);
    assert_eq!(posted(respond_starred(GithubStarredActionType::DELETED, &p)), "jGL just lost a :star:, that makes 2 :cry:");
}

#[test]
fn star_with_unknown_action_is_a_bad_request() {
    let p = star_payload("created", "jGL", false, 2);
    assert_eq!(done(respond_starred(GithubStarredActionType::UNKOWN, &p)), StatusCode::BAD_REQUEST);
}

#[test]
fn star_of_unnamed_repository_is_a_server_error() {
    let p = payload(vec![("repository", obj(vec![("private", Json::Bool(false))]))]);
    assert_eq!(done(respond_starred(GithubStarredActionType::CREATED, &p)), StatusCode::INTERNAL_SERVER_ERROR);
}

#[test]
fn release_published_message() {
    let p = release_payload("published", "jGL");
    assert_eq!(
        posted(respond_release(GithubReleasedActionType::PUBLISHED, &p)),
        "New release just dropped!\n  jGL just got a newly published release :confetti_ball: \n  Check it out here: https://github.com/JerboaBurrow/jGL/releases/tag/v0.1"
    );
    let a: GithubReleaseActionType = GithubReleasedActionType::CREATED;
    let p = release_payload("created", "Pulse");
    assert_eq!(
        posted(respond_release(a, &p)),
        "New release just dropped!\n  Pulse (that's me!) just got a newly created release :confetti_ball: \n  Check it out here: https://github.com/JerboaBurrow/jGL/releases/tag/v0.1"
    );
}

#[test]
fn release_edited_sends_nothing() {
    let p = release_payload("edited", "jGL");
    assert_eq!(done(respond_release(GithubReleasedActionType::EDITED, &p)), StatusCode::OK);
}

#[test]
fn release_of_unnamed_repository_is_a_server_error() {
    let p = payload(vec![("repository", obj(vec![]))]);
    assert_eq!(done(respond_release(GithubReleasedActionType::PUBLISHED, &p)), StatusCode::INTERNAL_SERVER_ERROR);
}

#[test]
fn release_acknowledgement() {
    assert_eq!(github_release(&release_payload("published", "jGL")), StatusCode::OK);
    assert_eq!(github_release(&payload(vec![("action", n(1))])), StatusCode::BAD_REQUEST);
    assert_eq!(github_release(&payload(vec![])), StatusCode::BAD_REQUEST);
}

#[test]
fn action_words_read_and_written() {
    let words = ["created", "deleted", "edited", "prereleased", "published", "released", "unpublished"];
    for w in words {
        let a = GithubReleasedActionType::from(w);
        assert_ne!(a, GithubReleasedActionType::UNKOWN);
        assert_eq!(a.into_string(), w);
    }
    assert_eq!(GithubReleasedActionType::from("Created"), GithubReleasedActionType::UNKOWN);
    assert_eq!(GithubStarredActionType::from("created"), GithubStarredActionType::CREATED);
    assert_eq!(GithubStarredActionType::from("deleted"), GithubStarredActionType::DELETED);
    assert_eq!(GithubStarredActionType::from("starred"), GithubStarredActionType::UNKOWN);
    assert_eq!(GithubStarredActionType::DELETED.into_string(), "deleted");
}

#[test]
fn starred_event_fills_the_template() {
    let mut e = GithubStarred::new();
    e.set_config(config("<repository/name> has <repository/stargazers_count> stars after <sender/login>", true));
    let r = e.into_response(&star_payload("created", "Pulse", false, 3));
    assert_eq!(r, (Some("Pulse (that's me!) has 3 stars after Jerboa-app".to_string()), StatusCode::OK));
    let r = e.into_response(&star_payload("created", "jGL", false, 4));
    assert_eq!(r, (Some("jGL has 4 stars after Jerboa-app".to_string()), StatusCode::OK));
}

#[test]
fn starred_event_of_private_repository_stays_silent() {
    let mut e = GithubStarred::new();
    e.set_config(config("<repository/name>", true));
    assert_eq!(e.into_response(&star_payload("created", "secret", true, 1)), (None, StatusCode::OK));
    e.set_config(config("<repository/name>", false));
    assert_eq!(
        e.into_response(&star_payload("created", "secret", true, 1)),
        (Some("secret".to_string()), StatusCode::OK)
    );
}

#[test]
fn starred_event_with_unknown_action_is_a_bad_request() {
    let e = GithubStarred::new();
    assert_eq!(e.into_response(&star_payload("starred", "jGL", false, 1)), (None, StatusCode::BAD_REQUEST));
    let no_time = payload(vec![("action", s("created")), ("repository", repo("jGL", false, 1))]);
    assert_eq!(e.into_response(&no_time), (None, StatusCode::BAD_REQUEST));
}

#[test]
fn issue_event_fills_the_template() {
    let mut e = GithubIssue::new();
    e.set_config(config("issue <action> in <repository/name>", true));
    let p = payload(vec![
        ("action", s("opened")),
        ("repository", repo("jGL", false, 0)),
        ("sender", obj(vec![("login", s("Jerboa-app"))])),
    ]);
    assert_eq!(e.into_response(&p), (Some("issue opened in jGL".to_string()), StatusCode::OK));
    assert_eq!(e.get_token(), "secret");
    assert_eq!(e.get_end_point().get_addr(), "https://discord.com/api/webhooks/1");
}

#[test]
fn pushed_event_fills_the_template() {
    let mut e = GithubPushed::new();
    e.set_config(config("push to <repository/name>", true));
    let p = payload(vec![("repository", repo("jGL", false, 0)), ("pusher", obj(vec![]))]);
    assert_eq!(e.into_response(&p), (Some("push to jGL".to_string()), StatusCode::OK));
    let unnamed = payload(vec![("repository", obj(vec![]))]);
    assert_eq!(e.into_response(&unnamed), (None, StatusCode::INTERNAL_SERVER_ERROR));
}

#[test]
fn events_by_name() {
    let push = GithubEvent::for_name("push").unwrap();
    assert!(matches!(push, GithubEvent::Pushed(_)));
    assert_eq!(push.config_name(), "github_pushed");
    let star = GithubEvent::for_name("star").unwrap();
    assert!(matches!(star, GithubEvent::Starred(_)));
    assert_eq!(star.config_name(), "github_starred");
    assert!(GithubEvent::for_name("issues").is_none());
    assert!(GithubEvent::for_name("").is_none());
}

#[test]
fn event_answers_through_its_kind() {
    let mut e = GithubEvent::for_name("push").unwrap();
    e.set_config(config("<repository/missing> pushed", true));
    let p = payload(vec![("repository", repo("jGL", false, 0))]);
    assert!(e.can_respond(&p));
    assert_eq!(e.into_response(&p), (Some("<repository/missing> pushed".to_string()), StatusCode::OK));
    e.set_config(config("<nowhere/x> pushed", true));
    assert!(!e.can_respond(&p));
    assert!(!e.can_respond(&payload(vec![])));
    assert_eq!(e.get_token(), "secret");
}

#[test]
fn event_checks_signatures_with_its_secret() {
    let mut e = GithubEvent::for_name("star").unwrap();
    e.set_config(EventConfig::from_parts(
        "Jefe".to_string(),
        vec![Template::new()],
        Webhook::new(String::new()),
        true,
    ));
    let header = "sha256=5bdcc146bf60754e6a042426089575c75a003f089d2739839dec58b964ec3843";
    let body: &[u8] = b"what do ya want for nothing?";
    assert_eq!(e.is_authentic(Some(header.as_bytes()), body), Some(StatusCode::ACCEPTED));
    assert_eq!(e.is_authentic(None, body), Some(StatusCode::UNAUTHORIZED));
}

#[test]
fn github_user_agent() {
    assert!(is_github_user_agent("GitHub-Hookshot/7a3c9e1"));
    assert!(is_github_user_agent("x GitHub-Hookshot"));
    assert!(!is_github_user_agent("curl/8.4.0"));
    assert!(!is_github_user_agent("github-hookshot"));
}

#[test]
fn criteria_select_the_template() {
    let p = star_payload("deleted", "jGL", false, 1);
    let created = Criterion::from_parts("action".to_string(), vec!["created".to_string()], vec![]);
    let not_deleted = Criterion::from_parts("action".to_string(), vec![], vec!["deleted".to_string()]);
    let missing = Criterion::from_parts("nothing/here".to_string(), vec![], vec![]);
    let anything = Criterion::from_parts(String::new(), vec!["x".to_string()], vec![]);
    assert!(!satisfied(created.clone(), &p));
    assert!(!satisfied(not_deleted.clone(), &p));
    assert!(!satisfied(missing.clone(), &p));
    assert!(satisfied(anything.clone(), &p));
    let count = Criterion::from_parts("repository/stargazers_count".to_string(), vec!["1".to_string()], vec![]);
    assert!(satisfied(count, &p));

    let templates = vec![
        Template::from_parts(vec![created], "first".to_string()),
        Template::from_parts(vec![missing], "second".to_string()),
        Template::from_parts(vec![anything], "third".to_string()),
        Template::from_parts(vec![], "fourth".to_string()),
    ];
    assert_eq!(select_template(templates, &p), "third");
    assert_eq!(select_template(vec![], &p), "");
}

#[test]
fn expansion_replaces_every_occurrence() {
    let p = star_payload("created", "jGL", false, 1);
    assert!(can_expand("<action> <action> <repository/name>", &p));
    assert_eq!(
        expand_template("<action> <action> <repository/name>".to_string(), &p),
        Some("created created jGL".to_string())
    );
    assert_eq!(expand_template("no parameters".to_string(), &p), Some("no parameters".to_string()));
    assert_eq!(expand_template(String::new(), &p), None);
    assert!(!can_expand("<missing>", &p));
    assert!(can_expand("<>", &p));
    assert!(!can_expand("a < b and c > d", &p));
}

#[test]
fn issue_event_needs_a_sender_and_named_members() {
    let mut e = GithubIssue::new();
    e.set_config(config("issue <action> in <repository/name>", true));
    let with_sender = payload(vec![
        ("action", s("opened")),
        ("repository", repo("jGL", false, 0)),
        ("sender", obj(vec![("login", s("Jerboa-app"))])),
    ]);
    assert!(e.can_respond(&with_sender));
    let without_sender = payload(vec![("action", s("opened")), ("repository", repo("jGL", false, 0))]);
    assert!(!e.can_respond(&without_sender));
    e.set_config(config("issue <label>", true));
    assert!(!e.can_respond(&with_sender));
}

#[test]
fn each_event_checks_signatures_with_its_secret() {
    let header = "sha256=5bdcc146bf60754e6a042426089575c75a003f089d2739839dec58b964ec3843";
    let body: &[u8] = b"what do ya want for nothing?";
    let jefe = || EventConfig::from_parts("Jefe".to_string(), vec![], Webhook::new(String::new()), true);
    let mut issue = GithubIssue::new();
    issue.set_config(jefe());
    assert_eq!(issue.is_authentic(Some(header.as_bytes()), body), Some(StatusCode::ACCEPTED));
    let mut pushed = GithubPushed::new();
    pushed.set_config(jefe());
    assert_eq!(pushed.is_authentic(Some(header.as_bytes()), body), Some(StatusCode::ACCEPTED));
    let mut starred = GithubStarred::new();
    starred.set_config(EventConfig::from_parts("Jeff".to_string(), vec![], Webhook::new(String::new()), true));
    assert_eq!(starred.is_authentic(Some(header.as_bytes()), body), Some(StatusCode::UNAUTHORIZED));
}

#[test]
fn privacy_setting_defaults_to_silent() {
    let absent = EventConfig::from_settings(String::new(), vec![], Webhook::new(String::new()), None);
    assert!(absent.silent_on_private_repos());
    let off = EventConfig::from_settings(String::new(), vec![], Webhook::new(String::new()), Some(false));
    assert!(!off.silent_on_private_repos());
}

#[test]
fn bodies_are_read_as_payloads() {
    let p = pulse::event::parse_body(b"{\"b\": [1, -2, 1.5, null], \"a\": \"x\ny\"}").unwrap();
    assert_eq!(p.entries.len(), 2);
    assert_eq!(p.entries[0].0, "a");
    assert!(matches!(&p.entries[0].1, Json::Str(v) if v == "xy"));
    assert!(matches!(&p.entries[1].1, Json::Array(items) if items.len() == 4));
    assert!(pulse::event::parse_body(b"[1, 2]").is_none());
    assert!(pulse::event::parse_body(b"not json").is_none());
}
