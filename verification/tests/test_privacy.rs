use std::collections::HashMap;

use pulse::discord::Webhook;
use pulse::event::{EventConfig, Payload, Template};
use pulse::github::{GithubPushed, GithubStarred};
use pulse::json::{Json, JsonNumber};
use pulse::util::strip_control_characters;

const RELEASE_PAYLOAD_PRIVATE: &str = "{
    \"action\": \"created\",
    \"release\": {\"html_url\": \"https://github.com/JerboaBurrow/secret/releases/tag/v0.1\", \"body\": \"notes\n- first\"},
    \"repository\": {\"name\": \"secret\", \"private\": true, \"stargazers_count\": 0},
    \"sender\": {\"login\": \"Jerboa-app\"}
}";

fn private_to_json(v: &serde_json::Value) -> Json {
    match v {
        serde_json::Value::Null => Json::Null,
        serde_json::Value::Bool(b) => Json::Bool(*b),
        serde_json::Value::Number(n) => {
            if let Some(u) = n.as_u64() {
                Json::Number(JsonNumber::PosInt(u))
            } else if let Some(i) = n.as_i64() {
                Json::Number(JsonNumber::NegInt(i))
            } else {
                Json::Number(JsonNumber::Float(n.to_string()))
            }
        }
        serde_json::Value::String(s) => Json::Str(s.clone()),
        serde_json::Value::Array(a) => Json::Array(a.iter().map(private_to_json).collect()),
        serde_json::Value::Object(m) => {
            Json::Object(m.iter().map(|(k, v)| (k.clone(), private_to_json(v))).collect())
        }
    }
}

/// The configuration an event loads: a template that names the repository,
/// silent on private repositories.
fn loaded_config() -> EventConfig {
    EventConfig::from_parts(
        "secret".to_string(),
        vec![Template::from_parts(vec![], "<repository/name> got an event".to_string())],
        Webhook::new("https://discord.com/api/webhooks/1".to_string()),
        true,
    )
}

fn private_payload() -> (HashMap<String, serde_json::Value>, Payload) {
    let text = strip_control_characters(RELEASE_PAYLOAD_PRIVATE.to_string());
    let parsed: HashMap<String, serde_json::Value> = serde_json::from_str(&text).unwrap();
    let payload = Payload { entries: parsed.iter().map(|(k, v)| (k.clone(), private_to_json(v))).collect() };
    (parsed, payload)
}

#[test]
fn push_privacy() {
    let (parsed_data, payload) = private_payload();

    assert_eq!(parsed_data["repository"]["private"], true);

    let mut action = GithubPushed::new();

    action.set_config(loaded_config());

    let action_response = action.into_response(&payload);

    assert!(action_response.0.is_none());
}

#[test]
fn star_privacy() {
    let (parsed_data, payload) = private_payload();

    assert_eq!(parsed_data["repository"]["private"], true);

    let mut action = GithubStarred::new();

    action.set_config(loaded_config());

    let action_response = action.into_response(&payload);

    assert!(action_response.0.is_none());
}

#[test]
fn public_push_is_announced_and_private_one_only_when_not_silent() {
    let mut public = private_payload().1;
    for (k, v) in public.entries.iter_mut() {
        if k == "repository" {
            *v = Json::Object(vec![
                ("name".to_string(), Json::Str("jGL".to_string())),
                ("private".to_string(), Json::Bool(false)),
            ]);
        }
    }
    let mut action = GithubPushed::new();
    action.set_config(loaded_config());
    assert_eq!(action.into_response(&public).0, Some("jGL got an event".to_string()));

    action.set_config(EventConfig::from_parts(
        "secret".to_string(),
        vec![Template::from_parts(vec![], "<repository/name> got an event".to_string())],
        Webhook::new(String::new()),
        false,
    ));
    let (_, private) = private_payload();
    assert_eq!(action.into_response(&private).0, Some("secret got an event".to_string()));
}
