//! Github webhook events: the actions they report, and the reply that each
//! kind of event makes to its payload.
use vstd::prelude::*;

use regex::Regex;

use crate::discord::Webhook;
use crate::event::{
    can_expand, expand_template, expanded, params_resolvable, payload_get, select_template,
    selected_body, templates_view, EventConfig, EventConfigView, Payload,
};
use crate::json::{as_bool, as_str, index_key, json_text, member_key, member_of, Json};
use crate::signature::{checked_request_is_authentic, header_bytes, request_checkable, request_status};
use crate::status::StatusCode;
use crate::text::{chars_eq, chars_to_string, occurs_in, replace_first, replace_first_chars, str_chars};

verus! {

/// The action of a Github `release` event.
#[derive(Debug, PartialEq, Eq, Structural, Clone, Copy)]
#[allow(non_camel_case_types)]
pub enum GithubReleasedActionType {
    CREATED,
    DELETED,
    EDITED,
    PRERELEASED,
    PUBLISHED,
    RELEASED,
    UNPUBLISHED,
    UNKOWN,
}

/// The same actions, under the name the release reply uses.
pub type GithubReleaseActionType = GithubReleasedActionType;

/// The action of a Github `star` event.
#[derive(Debug, PartialEq, Eq, Structural, Clone, Copy)]
#[allow(non_camel_case_types)]
pub enum GithubStarredActionType {
    CREATED,
    DELETED,
    UNKOWN,
}

/// The release action that a word names (`UNKOWN` for any other word).
pub open spec fn released_action_of(s: Seq<char>) -> GithubReleasedActionType {
    if s == "created"@ {
        GithubReleasedActionType::CREATED
    } else if s == "deleted"@ {
        GithubReleasedActionType::DELETED
    } else if s == "edited"@ {
        GithubReleasedActionType::EDITED
    } else if s == "prereleased"@ {
        GithubReleasedActionType::PRERELEASED
    } else if s == "published"@ {
        GithubReleasedActionType::PUBLISHED
    } else if s == "released"@ {
        GithubReleasedActionType::RELEASED
    } else if s == "unpublished"@ {
        GithubReleasedActionType::UNPUBLISHED
    } else {
        GithubReleasedActionType::UNKOWN
    }
}

/// The word for a release action (`unkown` for `UNKOWN`).
pub open spec fn released_action_word(a: GithubReleasedActionType) -> Seq<char> {
    match a {
        GithubReleasedActionType::CREATED => "created"@,
        GithubReleasedActionType::DELETED => "deleted"@,
        GithubReleasedActionType::EDITED => "edited"@,
        GithubReleasedActionType::PRERELEASED => "prereleased"@,
        GithubReleasedActionType::PUBLISHED => "published"@,
        GithubReleasedActionType::RELEASED => "released"@,
        GithubReleasedActionType::UNPUBLISHED => "unpublished"@,
        GithubReleasedActionType::UNKOWN => "unkown"@,
    }
}

/// The star action that a word names (`UNKOWN` for any other word).
pub open spec fn starred_action_of(s: Seq<char>) -> GithubStarredActionType {
    if s == "created"@ {
        GithubStarredActionType::CREATED
    } else if s == "deleted"@ {
        GithubStarredActionType::DELETED
    } else {
        GithubStarredActionType::UNKOWN
    }
}

/// The word for a star action (`unkown` for `UNKOWN`).
pub open spec fn starred_action_word(a: GithubStarredActionType) -> Seq<char> {
    match a {
        GithubStarredActionType::CREATED => "created"@,
        GithubStarredActionType::DELETED => "deleted"@,
        GithubStarredActionType::UNKOWN => "unkown"@,
    }
}

fn is_word(s: &[char], w: &str) -> (r: bool)
    ensures
        r == (s@ == w@),
{
    let cs = str_chars(w);
    chars_eq(s, &cs)
}

fn word(w: &str) -> (r: String)
    ensures
        r@ == w@,
{
    let cs = str_chars(w);
    chars_to_string(&cs)
}

impl<'a> From<&'a str> for GithubReleasedActionType {
    fn from(s: &'a str) -> (r: GithubReleasedActionType) {
        let cs = str_chars(s);
        if is_word(&cs, "created") {
            GithubReleasedActionType::CREATED
        } else if is_word(&cs, "deleted") {
            GithubReleasedActionType::DELETED
        } else if is_word(&cs, "edited") {
            GithubReleasedActionType::EDITED
        } else if is_word(&cs, "prereleased") {
            GithubReleasedActionType::PRERELEASED
        } else if is_word(&cs, "published") {
            GithubReleasedActionType::PUBLISHED
        } else if is_word(&cs, "released") {
            GithubReleasedActionType::RELEASED
        } else if is_word(&cs, "unpublished") {
            GithubReleasedActionType::UNPUBLISHED
        } else {
            GithubReleasedActionType::UNKOWN
        }
    }
}

impl<'a> vstd::std_specs::convert::FromSpecImpl<&'a str> for GithubReleasedActionType {
    open spec fn obeys_from_spec() -> bool {
        true
    }

    open spec fn from_spec(v: &'a str) -> GithubReleasedActionType {
        released_action_of(v@)
    }
}

impl<'a> From<&'a str> for GithubStarredActionType {
    fn from(s: &'a str) -> (r: GithubStarredActionType) {
        let cs = str_chars(s);
        if is_word(&cs, "created") {
            GithubStarredActionType::CREATED
        } else if is_word(&cs, "deleted") {
            GithubStarredActionType::DELETED
        } else {
            GithubStarredActionType::UNKOWN
        }
    }
}

impl<'a> vstd::std_specs::convert::FromSpecImpl<&'a str> for GithubStarredActionType {
    open spec fn obeys_from_spec() -> bool {
        true
    }

    open spec fn from_spec(v: &'a str) -> GithubStarredActionType {
        starred_action_of(v@)
    }
}

impl GithubReleasedActionType {
    /// The word for the action.
    pub fn into_string(self) -> (r: String)
        ensures
            r@ == released_action_word(self),
    {
        match self {
            GithubReleasedActionType::CREATED => word("created"),
            GithubReleasedActionType::DELETED => word("deleted"),
            GithubReleasedActionType::EDITED => word("edited"),
            GithubReleasedActionType::PRERELEASED => word("prereleased"),
            GithubReleasedActionType::PUBLISHED => word("published"),
            GithubReleasedActionType::RELEASED => word("released"),
            GithubReleasedActionType::UNPUBLISHED => word("unpublished"),
            GithubReleasedActionType::UNKOWN => word("unkown"),
        }
    }
}

impl GithubStarredActionType {
    /// The word for the action.
    pub fn into_string(self) -> (r: String)
        ensures
            r@ == starred_action_word(self),
    {
        match self {
            GithubStarredActionType::CREATED => word("created"),
            GithubStarredActionType::DELETED => word("deleted"),
            GithubStarredActionType::UNKOWN => word("unkown"),
        }
    }
}

/// The view of an optional string.
pub open spec fn opt_view(o: Option<String>) -> Option<Seq<char>> {
    match o {
        Some(s) => Some(s@),
        None => None,
    }
}

/// The `repository` member of the payload (callers make sure it is there).
pub open spec fn repository(p: Payload) -> Json {
    payload_get(p, "repository"@)->Some_0
}

/// `data["repository"][field]`: the field of the repository, `null` when absent.
pub open spec fn repo_field(p: Payload, field: Seq<char>) -> Json {
    index_key(repository(p), field)
}

/// Whether the payload concerns a private repository.
pub open spec fn is_private(p: Payload) -> bool {
    as_bool(repo_field(p, "private"@)) == Some(true)
}

/// The name under which a repository is announced.
pub open spec fn display_name(n: Seq<char>) -> Seq<char> {
    if n == "Pulse"@ {
        "Pulse (that's me!)"@
    } else {
        n
    }
}

/// The template with the repository name parameter filled in for this project's
/// own repository.
pub open spec fn named_template(t: Seq<char>, n: Seq<char>) -> Seq<char> {
    if n == "Pulse"@ {
        replace_first(t, "<repository/name>"@, "Pulse (that's me!)"@)
    } else {
        t
    }
}

/// The reply of an issue or star event once its action is accepted: 500 when the
/// repository has no name; no message for a private repository when the
/// configuration is silent on them; else the expanded template.
pub open spec fn named_reply(cfg: EventConfigView, p: Payload) -> (Option<Seq<char>>, StatusCode) {
    match as_str(repo_field(p, "name"@)) {
        None => (None, StatusCode::INTERNAL_SERVER_ERROR),
        Some(n) => if cfg.silent_on_private && is_private(p) {
            (None, StatusCode::OK)
        } else {
            (expanded(named_template(selected_body(cfg.templates, p), n), p), StatusCode::OK)
        },
    }
}

/// Whether the reply of an issue or star event can be computed: the payload
/// names a repository, and a template that will be expanded names only members
/// of the payload.
pub open spec fn named_reply_defined(cfg: EventConfigView, p: Payload) -> bool {
    &&& payload_get(p, "repository"@) is Some
    &&& match as_str(repo_field(p, "name"@)) {
        Some(n) => !(cfg.silent_on_private && is_private(p)) ==> params_resolvable(
            named_template(selected_body(cfg.templates, p), n),
            p,
        ),
        None => true,
    }
}

/// The reply to an issue event.
pub open spec fn issue_reply(cfg: EventConfigView, p: Payload) -> (Option<Seq<char>>, StatusCode) {
    named_reply(cfg, p)
}

/// Whether the reply to an issue event can be computed (it also reads the sender).
pub open spec fn issue_reply_defined(cfg: EventConfigView, p: Payload) -> bool {
    &&& payload_get(p, "sender"@) is Some
    &&& named_reply_defined(cfg, p)
}

/// Whether a star event names a known action (and a star time).
pub open spec fn star_action_known(p: Payload) -> bool {
    &&& payload_get(p, "action"@) is Some
    &&& payload_get(p, "starred_at"@) is Some
    &&& match as_str(payload_get(p, "action"@)->Some_0) {
        Some(a) => starred_action_of(a) != GithubStarredActionType::UNKOWN,
        None => false,
    }
}

/// The reply to a star event: a bad request without a known action, else as
/// for an issue.
pub open spec fn starred_reply(cfg: EventConfigView, p: Payload) -> (Option<Seq<char>>, StatusCode) {
    if !star_action_known(p) {
        (None, StatusCode::BAD_REQUEST)
    } else {
        named_reply(cfg, p)
    }
}

/// Whether the reply to a star event can be computed.
pub open spec fn starred_reply_defined(cfg: EventConfigView, p: Payload) -> bool {
    star_action_known(p) ==> named_reply_defined(cfg, p)
}

/// The reply to a push event: 500 when the repository has no name; no message
/// for a private repository when the configuration is silent on them; else the
/// expanded template.
pub open spec fn pushed_reply(cfg: EventConfigView, p: Payload) -> (Option<Seq<char>>, StatusCode) {
    match as_str(repo_field(p, "name"@)) {
        None => (None, StatusCode::INTERNAL_SERVER_ERROR),
        Some(n) => if cfg.silent_on_private && is_private(p) {
            (None, StatusCode::OK)
        } else {
            (expanded(selected_body(cfg.templates, p), p), StatusCode::OK)
        },
    }
}

/// Whether the reply to a push event can be computed.
pub open spec fn pushed_reply_defined(cfg: EventConfigView, p: Payload) -> bool {
    &&& payload_get(p, "repository"@) is Some
    &&& (as_str(repo_field(p, "name"@)) is Some && !(cfg.silent_on_private && is_private(p))
        ==> params_resolvable(selected_body(cfg.templates, p), p))
}

fn top_member<'a>(data: &'a Payload, key: &str) -> (r: Option<&'a Json>)
    ensures
        match r {
            Some(v) => payload_get(*data, key@) == Some(*v),
            None => payload_get(*data, key@) is None,
        },
{
    let k = str_chars(key);
    member_of(&data.entries, &k)
}

fn repo_field_of<'a>(data: &'a Payload, field: &str) -> (r: Option<&'a Json>)
    requires
        payload_get(*data, "repository"@) is Some,
    ensures
        match r {
            Some(v) => repo_field(*data, field@) == *v,
            None => repo_field(*data, field@) == Json::Null,
        },
{
    let repo = top_member(data, "repository");
    let k = str_chars(field);
    match repo {
        Some(v) => member_key(v, &k),
        None => None,
    }
}

fn repo_name(data: &Payload) -> (r: Option<Vec<char>>)
    requires
        payload_get(*data, "repository"@) is Some,
    ensures
        match r {
            Some(n) => as_str(repo_field(*data, "name"@)) == Some(n@),
            None => as_str(repo_field(*data, "name"@)) is None,
        },
{
    match repo_field_of(data, "name") {
        Some(Json::Str(s)) => Some(str_chars(s.as_str())),
        _ => None,
    }
}

fn private_repo(data: &Payload) -> (r: bool)
    requires
        payload_get(*data, "repository"@) is Some,
    ensures
        r == is_private(*data),
{
    match repo_field_of(data, "private") {
        Some(Json::Bool(b)) => *b,
        _ => false,
    }
}

/// Whether a payload is dropped completely, neither counted nor answered with
/// a message: private repositories are ignored and it concerns one.
pub open spec fn dropped(p: Payload) -> bool {
    crate::IGNORE_PRIVATE_REPOS && payload_get(p, "repository"@) is Some && is_private(p)
}

/// Whether a payload is dropped completely (see `dropped`).
pub fn is_dropped(data: &Payload) -> (r: bool)
    ensures
        r == dropped(*data),
{
    crate::IGNORE_PRIVATE_REPOS && top_member(data, "repository").is_some() && private_repo(data)
}

fn named_template_of(template: String, name: &Vec<char>) -> (r: String)
    ensures
        r@ == named_template(template@, name@),
{
    if is_word(name, "Pulse") {
        let t = str_chars(template.as_str());
        let pat = str_chars("<repository/name>");
        proof {
            reveal_strlit("<repository/name>");
        }
        let rep = str_chars("Pulse (that's me!)");
        let named = replace_first_chars(&t, &pat, &rep);
        chars_to_string(&named)
    } else {
        template
    }
}

fn named_reply_ready(config: &EventConfig, data: &Payload) -> (r: bool)
    ensures
        r == named_reply_defined(config@, *data),
{
    if top_member(data, "repository").is_none() {
        return false;
    }
    match repo_name(data) {
        None => true,
        Some(n) => {
            if config.silent_on_private_repos() && private_repo(data) {
                return true;
            }
            let template = named_template_of(select_template(config.get_templates(), data), &n);
            can_expand(template.as_str(), data)
        },
    }
}

fn reply_of(
    config: &EventConfig,
    data: &Payload,
) -> (r: (Option<String>, StatusCode))
    requires
        named_reply_defined(config@, *data),
    ensures
        opt_view(r.0) == named_reply(config@, *data).0,
        r.1 == named_reply(config@, *data).1,
{
    let template = select_template(config.get_templates(), data);
    let name = match repo_name(data) {
        Some(n) => n,
        None => {
            return (None, StatusCode::INTERNAL_SERVER_ERROR);
        },
    };
    let template = named_template_of(template, &name);
    if config.silent_on_private_repos() && private_repo(data) {
        return (None, StatusCode::OK);
    }
    (expand_template(template, data), StatusCode::OK)
}

/// The event `issues`.
pub struct GithubIssue {
    config: EventConfig,
}

/// The event `push`.
pub struct GithubPushed {
    config: EventConfig,
}

/// The event `star`.
pub struct GithubStarred {
    config: EventConfig,
}

impl GithubIssue {
    /// The event with the default configuration.
    pub fn new() -> (e: GithubIssue)
        ensures
            e.config() == EventConfig::new_view(),
    {
        GithubIssue { config: EventConfig::new() }
    }

    /// The event's configuration.
    pub closed spec fn config(&self) -> EventConfigView {
        self.config@
    }

    /// Replaces the event's configuration (as read from the configuration file).
    pub fn set_config(&mut self, config: EventConfig)
        ensures
            final(self).config() == config@,
    {
        self.config = config;
    }

    /// The shared secret of the webhook.
    pub fn get_token(&self) -> (r: String)
        ensures
            r@ == self.config().hmac,
    {
        self.config.get_token()
    }

    /// The Discord webhook that messages go to.
    pub fn get_end_point(&self) -> (r: Webhook)
        ensures
            r@ == self.config().end_point,
    {
        self.config.get_end_point()
    }

    /// Checks the request's signature header against its body under the
    /// event's secret; `None` exactly when the request cannot be checked.
    pub fn is_authentic(&self, signature: Option<&[u8]>, body: &[u8]) -> (r: Option<StatusCode>)
        ensures
            r matches Some(status) ==> request_status(header_bytes(signature), self.config().hmac, body@, status),
            r is None <==> !request_checkable(header_bytes(signature), self.config().hmac, body@),
    {
        checked_request_is_authentic(self.get_token(), signature, body)
    }

    /// Whether the reply to the payload can be computed (the payload has a
    /// sender, and every template that will be expanded names only members of
    /// the payload).
    pub fn can_respond(&self, data: &Payload) -> (r: bool)
        ensures
            r == issue_reply_defined(self.config(), *data),
    {
        top_member(data, "sender").is_some() && named_reply_ready(&self.config, data)
    }

    /// The message (if any) and the status with which the event answers its payload.
    pub fn into_response(&self, data: &Payload) -> (r: (Option<String>, StatusCode))
        requires
            issue_reply_defined(self.config(), *data),
        ensures
            opt_view(r.0) == issue_reply(self.config(), *data).0,
            r.1 == issue_reply(self.config(), *data).1,
    {
        reply_of(&self.config, data)
    }
}

impl GithubStarred {
    /// The event with the default configuration.
    pub fn new() -> (e: GithubStarred)
        ensures
            e.config() == EventConfig::new_view(),
    {
        GithubStarred { config: EventConfig::new() }
    }

    /// The event's configuration.
    pub closed spec fn config(&self) -> EventConfigView {
        self.config@
    }

    /// Replaces the event's configuration (as read from the configuration file).
    pub fn set_config(&mut self, config: EventConfig)
        ensures
            final(self).config() == config@,
    {
        self.config = config;
    }

    /// The shared secret of the webhook.
    pub fn get_token(&self) -> (r: String)
        ensures
            r@ == self.config().hmac,
    {
        self.config.get_token()
    }

    /// The Discord webhook that messages go to.
    pub fn get_end_point(&self) -> (r: Webhook)
        ensures
            r@ == self.config().end_point,
    {
        self.config.get_end_point()
    }

    /// Checks the request's signature header against its body under the
    /// event's secret; `None` exactly when the request cannot be checked.
    pub fn is_authentic(&self, signature: Option<&[u8]>, body: &[u8]) -> (r: Option<StatusCode>)
        ensures
            r matches Some(status) ==> request_status(header_bytes(signature), self.config().hmac, body@, status),
            r is None <==> !request_checkable(header_bytes(signature), self.config().hmac, body@),
    {
        checked_request_is_authentic(self.get_token(), signature, body)
    }

    /// The message (if any) and the status with which the event answers its payload.
    pub fn into_response(&self, data: &Payload) -> (r: (Option<String>, StatusCode))
        requires
            starred_reply_defined(self.config(), *data),
        ensures
            opt_view(r.0) == starred_reply(self.config(), *data).0,
            r.1 == starred_reply(self.config(), *data).1,
    {
        let action = match top_member(data, "action") {
            Some(a) => a,
            None => {
                return (None, StatusCode::BAD_REQUEST);
            },
        };
        if top_member(data, "starred_at").is_none() {
            return (None, StatusCode::BAD_REQUEST);
        }
        let action: GithubStarredActionType = match action {
            Json::Str(s) => GithubStarredActionType::from(s.as_str()),
            _ => {
                return (None, StatusCode::BAD_REQUEST);
            },
        };
        if action == GithubStarredActionType::UNKOWN {
            return (None, StatusCode::BAD_REQUEST);
        }
        reply_of(&self.config, data)
    }
}

impl GithubPushed {
    /// The event with the default configuration.
    pub fn new() -> (e: GithubPushed)
        ensures
            e.config() == EventConfig::new_view(),
    {
        GithubPushed { config: EventConfig::new() }
    }

    /// The event's configuration.
    pub closed spec fn config(&self) -> EventConfigView {
        self.config@
    }

    /// Replaces the event's configuration (as read from the configuration file).
    pub fn set_config(&mut self, config: EventConfig)
        ensures
            final(self).config() == config@,
    {
        self.config = config;
    }

    /// The shared secret of the webhook.
    pub fn get_token(&self) -> (r: String)
        ensures
            r@ == self.config().hmac,
    {
        self.config.get_token()
    }

    /// The Discord webhook that messages go to.
    pub fn get_end_point(&self) -> (r: Webhook)
        ensures
            r@ == self.config().end_point,
    {
        self.config.get_end_point()
    }

    /// Checks the request's signature header against its body under the
    /// event's secret; `None` exactly when the request cannot be checked.
    pub fn is_authentic(&self, signature: Option<&[u8]>, body: &[u8]) -> (r: Option<StatusCode>)
        ensures
            r matches Some(status) ==> request_status(header_bytes(signature), self.config().hmac, body@, status),
            r is None <==> !request_checkable(header_bytes(signature), self.config().hmac, body@),
    {
        checked_request_is_authentic(self.get_token(), signature, body)
    }

    /// The message (if any) and the status with which the event answers its payload.
    pub fn into_response(&self, data: &Payload) -> (r: (Option<String>, StatusCode))
        requires
            pushed_reply_defined(self.config(), *data),
        ensures
            opt_view(r.0) == pushed_reply(self.config(), *data).0,
            r.1 == pushed_reply(self.config(), *data).1,
    {
        match repo_name(data) {
            None => (None, StatusCode::INTERNAL_SERVER_ERROR),
            Some(_) => {
                if self.config.silent_on_private_repos() && private_repo(data) {
                    return (None, StatusCode::OK);
                }
                let template = select_template(self.config.get_templates(), data);
                (expand_template(template, data), StatusCode::OK)
            },
        }
    }
}

/// Whether a user agent is Github's webhook agent, by the regular expression
/// `GitHub-Hookshot` found anywhere in it.
#[verifier::external_body]
fn hookshot_agent(user_agent: &str) -> (r: bool)
    ensures
        r == occurs_in(user_agent@, "GitHub-Hookshot"@),
{
    Regex::new(r"GitHub-Hookshot").unwrap().captures(user_agent).is_some()
}

/// Whether a request comes from Github's webhook agent: its user agent
/// contains `GitHub-Hookshot`.
pub fn is_github_user_agent(user_agent: &str) -> (r: bool)
    ensures
        r == occurs_in(user_agent@, "GitHub-Hookshot"@),
{
    hookshot_agent(user_agent)
}

/// A Github event that the server answers. Push and star events carry their
/// own types. Release, ping and fork events carry only their configuration:
/// they are authenticated like the others, a release is announced as
/// `respond_release` writes it, and ping and fork events are acknowledged
/// without a message (no message format is known here for them).
pub enum GithubEvent {
    Pushed(GithubPushed),
    Starred(GithubStarred),
    Released(EventConfig),
    Ping(EventConfig),
    Forked(EventConfig),
}

/// Whether the server answers events of this `x-github-event` name.
pub open spec fn answered_event(name: Seq<char>) -> bool {
    name == "push"@ || name == "star"@ || name == "release"@ || name == "ping"@ || name == "fork"@
}

/// The `x-github-event` name of an event.
pub open spec fn event_name(e: GithubEvent) -> Seq<char> {
    match e {
        GithubEvent::Pushed(_) => "push"@,
        GithubEvent::Starred(_) => "star"@,
        GithubEvent::Released(_) => "release"@,
        GithubEvent::Ping(_) => "ping"@,
        GithubEvent::Forked(_) => "fork"@,
    }
}

/// Whether a release event's `action` is a string.
pub open spec fn release_action_known(p: Payload) -> bool {
    payload_get(p, "action"@) matches Some(a) && as_str(a) is Some
}

/// The action of a release event whose `action` is a string.
pub open spec fn release_action(p: Payload) -> GithubReleasedActionType {
    released_action_of(as_str(payload_get(p, "action"@)->Some_0)->Some_0)
}

/// Whether a release event concerns a private repository that the
/// configuration keeps silent on.
pub open spec fn release_silenced(cfg: EventConfigView, p: Payload) -> bool {
    payload_get(p, "repository"@) is Some && cfg.silent_on_private && is_private(p)
}

/// The reply to a release event: a bad request when its `action` is not a
/// string; no message for a private repository when the configuration is
/// silent on them; else the announcement of the release (see `release_reply`).
pub open spec fn released_reply(cfg: EventConfigView, p: Payload) -> (Option<Seq<char>>, StatusCode) {
    if !release_action_known(p) {
        (None, StatusCode::BAD_REQUEST)
    } else if release_silenced(cfg, p) {
        (None, StatusCode::OK)
    } else {
        match release_reply(release_action(p), p) {
            ReplyView::Done(s) => (None, s),
            ReplyView::Post(m) => (Some(m), StatusCode::OK),
        }
    }
}

/// Whether the reply to a release event can be computed.
pub open spec fn released_reply_defined(cfg: EventConfigView, p: Payload) -> bool {
    release_action_known(p) && !release_silenced(cfg, p) ==> release_reply_defined(
        release_action(p),
        p,
    )
}

impl GithubEvent {
    /// The configuration of the event.
    pub open spec fn config(&self) -> EventConfigView {
        match self {
            GithubEvent::Pushed(e) => e.config(),
            GithubEvent::Starred(e) => e.config(),
            GithubEvent::Released(c) => c@,
            GithubEvent::Ping(c) => c@,
            GithubEvent::Forked(c) => c@,
        }
    }

    /// The name of the event's entry in the configuration file.
    pub open spec fn config_key(&self) -> Seq<char> {
        match self {
            GithubEvent::Pushed(_) => "github_pushed"@,
            GithubEvent::Starred(_) => "github_starred"@,
            GithubEvent::Released(_) => "github_released"@,
            GithubEvent::Ping(_) => "github_ping"@,
            GithubEvent::Forked(_) => "github_forked"@,
        }
    }

    /// Whether the reply to the payload can be computed.
    pub open spec fn reply_defined(&self, p: Payload) -> bool {
        match self {
            GithubEvent::Pushed(e) => pushed_reply_defined(e.config(), p),
            GithubEvent::Starred(e) => starred_reply_defined(e.config(), p),
            GithubEvent::Released(c) => released_reply_defined(c@, p),
            _ => true,
        }
    }

    /// The reply to the payload.
    pub open spec fn reply(&self, p: Payload) -> (Option<Seq<char>>, StatusCode) {
        match self {
            GithubEvent::Pushed(e) => pushed_reply(e.config(), p),
            GithubEvent::Starred(e) => starred_reply(e.config(), p),
            GithubEvent::Released(c) => released_reply(c@, p),
            _ => (None, StatusCode::OK),
        }
    }

    /// The event for an `x-github-event` header, with the default configuration:
    /// `push`, `star`, `release`, `ping` and `fork` are answered, any other
    /// name is not.
    pub fn for_name(name: &str) -> (r: Option<GithubEvent>)
        ensures
            r is Some <==> answered_event(name@),
            r matches Some(e) ==> e.config() == EventConfig::new_view() && event_name(e) == name@,
    {
        let cs = str_chars(name);
        if is_word(&cs, "push") {
            Some(GithubEvent::Pushed(GithubPushed::new()))
        } else if is_word(&cs, "star") {
            Some(GithubEvent::Starred(GithubStarred::new()))
        } else if is_word(&cs, "release") {
            Some(GithubEvent::Released(EventConfig::new()))
        } else if is_word(&cs, "ping") {
            Some(GithubEvent::Ping(EventConfig::new()))
        } else if is_word(&cs, "fork") {
            Some(GithubEvent::Forked(EventConfig::new()))
        } else {
            None
        }
    }

    /// The name of the event's entry in the configuration file. The entries of
    /// release, ping and fork events are read under the names their kind has
    /// in this pattern (`github_released`, `github_ping`, `github_forked`).
    pub fn config_name(&self) -> (r: String)
        ensures
            r@ == self.config_key(),
    {
        match self {
            GithubEvent::Pushed(_) => word("github_pushed"),
            GithubEvent::Starred(_) => word("github_starred"),
            GithubEvent::Released(_) => word("github_released"),
            GithubEvent::Ping(_) => word("github_ping"),
            GithubEvent::Forked(_) => word("github_forked"),
        }
    }

    /// Replaces the event's configuration.
    pub fn set_config(&mut self, config: EventConfig)
        ensures
            final(self).config() == config@,
            event_name(*final(self)) == event_name(*old(self)),
    {
        match self {
            GithubEvent::Pushed(e) => e.set_config(config),
            GithubEvent::Starred(e) => e.set_config(config),
            GithubEvent::Released(c) => {
                *c = config;
            },
            GithubEvent::Ping(c) => {
                *c = config;
            },
            GithubEvent::Forked(c) => {
                *c = config;
            },
        }
    }

    /// The shared secret of the webhook.
    pub fn get_token(&self) -> (r: String)
        ensures
            r@ == self.config().hmac,
    {
        match self {
            GithubEvent::Pushed(e) => e.get_token(),
            GithubEvent::Starred(e) => e.get_token(),
            GithubEvent::Released(c) => c.get_token(),
            GithubEvent::Ping(c) => c.get_token(),
            GithubEvent::Forked(c) => c.get_token(),
        }
    }

    /// The Discord webhook that messages go to.
    pub fn get_end_point(&self) -> (r: Webhook)
        ensures
            r@ == self.config().end_point,
    {
        match self {
            GithubEvent::Pushed(e) => e.get_end_point(),
            GithubEvent::Starred(e) => e.get_end_point(),
            GithubEvent::Released(c) => c.get_end_point(),
            GithubEvent::Ping(c) => c.get_end_point(),
            GithubEvent::Forked(c) => c.get_end_point(),
        }
    }

    /// Checks the request's signature header against its body under the event's
    /// secret; `None` exactly when the request cannot be checked.
    pub fn is_authentic(&self, signature: Option<&[u8]>, body: &[u8]) -> (r: Option<StatusCode>)
        ensures
            r matches Some(status) ==> request_status(header_bytes(signature), self.config().hmac, body@, status),
            r is None <==> !request_checkable(header_bytes(signature), self.config().hmac, body@),
    {
        match self {
            GithubEvent::Pushed(e) => e.is_authentic(signature, body),
            GithubEvent::Starred(e) => e.is_authentic(signature, body),
            _ => checked_request_is_authentic(self.get_token(), signature, body),
        }
    }

    /// The message (if any) and the status with which the event answers its payload.
    pub fn into_response(&self, data: &Payload) -> (r: (Option<String>, StatusCode))
        requires
            self.reply_defined(*data),
        ensures
            opt_view(r.0) == self.reply(*data).0,
            r.1 == self.reply(*data).1,
    {
        match self {
            GithubEvent::Pushed(e) => e.into_response(data),
            GithubEvent::Starred(e) => e.into_response(data),
            GithubEvent::Released(c) => {
                let action: GithubReleasedActionType = match top_member(data, "action") {
                    Some(Json::Str(s)) => GithubReleasedActionType::from(s.as_str()),
                    _ => {
                        return (None, StatusCode::BAD_REQUEST);
                    },
                };
                if top_member(data, "repository").is_some() && c.silent_on_private_repos()
                    && private_repo(data) {
                    return (None, StatusCode::OK);
                }
                match respond_release(action, data) {
                    Reply::Done(s) => (None, s),
                    Reply::Post(m) => (Some(m), StatusCode::OK),
                }
            },
            _ => (None, StatusCode::OK),
        }
    }

    /// Whether the reply to the payload can be computed (every template that
    /// will be expanded names only members of the payload, and a release that
    /// is announced has a repository and a link).
    pub fn can_respond(&self, data: &Payload) -> (r: bool)
        ensures
            r == self.reply_defined(*data),
    {
        match self {
            GithubEvent::Pushed(e) => {
                if top_member(data, "repository").is_none() {
                    return false;
                }
                match repo_name(data) {
                    None => true,
                    Some(_) => {
                        if e.config.silent_on_private_repos() && private_repo(data) {
                            return true;
                        }
                        let t = select_template(e.config.get_templates(), data);
                        can_expand(t.as_str(), data)
                    },
                }
            },
            GithubEvent::Starred(e) => {
                let known = match top_member(data, "action") {
                    Some(Json::Str(s)) => top_member(data, "starred_at").is_some()
                        && GithubStarredActionType::from(s.as_str())
                        != GithubStarredActionType::UNKOWN,
                    _ => false,
                };
                if !known {
                    return true;
                }
                named_reply_ready(&e.config, data)
            },
            GithubEvent::Released(c) => {
                let action: GithubReleasedActionType = match top_member(data, "action") {
                    Some(Json::Str(s)) => GithubReleasedActionType::from(s.as_str()),
                    _ => {
                        return true;
                    },
                };
                if action != GithubReleasedActionType::CREATED && action
                    != GithubReleasedActionType::PUBLISHED {
                    return true;
                }
                if top_member(data, "repository").is_none() {
                    return false;
                }
                if c.silent_on_private_repos() && private_repo(data) {
                    return true;
                }
                match repo_name(data) {
                    None => true,
                    Some(_) => match top_member(data, "release") {
                        Some(v) => match member_key(v, &str_chars("html_url")) {
                            Some(Json::Str(_)) => true,
                            _ => false,
                        },
                        None => false,
                    },
                }
            },
            _ => true,
        }
    }
}

/// The status with which a release payload is acknowledged: accepted (200)
/// when its `action` is a string, a bad request otherwise.
pub fn github_release(data: &Payload) -> (r: StatusCode)
    ensures
        r == (if payload_get(*data, "action"@) matches Some(a) && as_str(a) is Some {
            StatusCode::OK
        } else {
            StatusCode::BAD_REQUEST
        }),
{
    match top_member(data, "action") {
        Some(Json::Str(_)) => StatusCode::OK,
        _ => StatusCode::BAD_REQUEST,
    }
}

/// What a reply asks for: answer with a status, or post a message to Discord.
pub enum Reply {
    Done(StatusCode),
    Post(String),
}

/// The view of a reply.
pub enum ReplyView {
    Done(StatusCode),
    Post(Seq<char>),
}

/// The view of a reply.
pub open spec fn reply_view(r: Reply) -> ReplyView {
    match r {
        Reply::Done(s) => ReplyView::Done(s),
        Reply::Post(m) => ReplyView::Post(m@),
    }
}

/// The announcement of a release created or published: no message for other
/// actions, 500 when the repository has no name.
pub open spec fn release_reply(action: GithubReleaseActionType, p: Payload) -> ReplyView {
    if action != GithubReleasedActionType::CREATED && action != GithubReleasedActionType::PUBLISHED {
        ReplyView::Done(StatusCode::OK)
    } else {
        match as_str(repo_field(p, "name"@)) {
            None => ReplyView::Done(StatusCode::INTERNAL_SERVER_ERROR),
            Some(n) => ReplyView::Post(
                "New release just dropped!\n  "@ + display_name(n) + " just got a newly "@
                    + released_action_word(action) + " release :confetti_ball: \n  Check it out here: "@
                    + as_str(index_key(payload_get(p, "release"@)->Some_0, "html_url"@))->Some_0,
            ),
        }
    }
}

/// Whether the announcement of a release can be made: the payload has a
/// repository, and a release with a link when the repository has a name.
pub open spec fn release_reply_defined(action: GithubReleaseActionType, p: Payload) -> bool {
    (action == GithubReleasedActionType::CREATED || action == GithubReleasedActionType::PUBLISHED)
        ==> {
        &&& payload_get(p, "repository"@) is Some
        &&& as_str(repo_field(p, "name"@)) is Some ==> {
            &&& payload_get(p, "release"@) is Some
            &&& as_str(index_key(payload_get(p, "release"@)->Some_0, "html_url"@)) is Some
        }
    }
}

/// The announcement of a star given or taken back, with the repository's
/// stargazer count as JSON text: a bad request for an unknown action, 500 when
/// the repository has no name.
pub open spec fn star_reply(action: GithubStarredActionType, p: Payload) -> ReplyView {
    if action == GithubStarredActionType::UNKOWN {
        ReplyView::Done(StatusCode::BAD_REQUEST)
    } else {
        match as_str(repo_field(p, "name"@)) {
            None => ReplyView::Done(StatusCode::INTERNAL_SERVER_ERROR),
            Some(n) => if action == GithubStarredActionType::CREATED {
                ReplyView::Post(
                    display_name(n) + " just got a new :star:, that makes "@ + json_text(
                        repo_field(p, "stargazers_count"@),
                    ),
                )
            } else {
                ReplyView::Post(
                    display_name(n) + " just lost a :star:, that makes "@ + json_text(
                        repo_field(p, "stargazers_count"@),
                    ) + " :cry:"@,
                )
            },
        }
    }
}

fn push_str(out: &mut Vec<char>, s: &str)
    ensures
        final(out)@ == old(out)@ + s@,
{
    let cs = str_chars(s);
    let mut i: usize = 0;
    while i < cs.len()
        invariant
            0 <= i <= cs.len(),
            out@ == old(out)@ + cs@.subrange(0, i as int),
        decreases cs.len() - i,
    {
        out.push(cs[i]);
        i = i + 1;
        assert(out@ =~= old(out)@ + cs@.subrange(0, i as int));
    }
    assert(cs@.subrange(0, cs.len() as int) =~= cs@);
}

fn push_display_name(out: &mut Vec<char>, n: &Vec<char>)
    ensures
        final(out)@ == old(out)@ + display_name(n@),
{
    if is_word(n, "Pulse") {
        push_str(out, "Pulse (that's me!)");
    } else {
        let mut i: usize = 0;
        while i < n.len()
            invariant
                0 <= i <= n.len(),
                out@ == old(out)@ + n@.subrange(0, i as int),
            decreases n.len() - i,
        {
            out.push(n[i]);
            i = i + 1;
            assert(out@ =~= old(out)@ + n@.subrange(0, i as int));
        }
        assert(n@.subrange(0, n.len() as int) =~= n@);
    }
}

/// The reply to a release event.
pub fn respond_release(action: GithubReleaseActionType, data: &Payload) -> (r: Reply)
    requires
        release_reply_defined(action, *data),
    ensures
        reply_view(r) == release_reply(action, *data),
{
    if action != GithubReleasedActionType::CREATED && action != GithubReleasedActionType::PUBLISHED {
        return Reply::Done(StatusCode::OK);
    }
    let name = match repo_name(data) {
        Some(n) => n,
        None => {
            return Reply::Done(StatusCode::INTERNAL_SERVER_ERROR);
        },
    };
    let release = top_member(data, "release");
    let key = str_chars("html_url");
    let url = match release {
        Some(v) => match member_key(v, &key) {
            Some(Json::Str(u)) => u,
            _ => {
                return Reply::Done(StatusCode::INTERNAL_SERVER_ERROR);
            },
        },
        None => {
            return Reply::Done(StatusCode::INTERNAL_SERVER_ERROR);
        },
    };
    let mut msg: Vec<char> = Vec::new();
    push_str(&mut msg, "New release just dropped!\n  ");
    push_display_name(&mut msg, &name);
    push_str(&mut msg, " just got a newly ");
    let w = action.into_string();
    push_str(&mut msg, w.as_str());
    push_str(&mut msg, " release :confetti_ball: \n  Check it out here: ");
    push_str(&mut msg, url.as_str());
    Reply::Post(chars_to_string(&msg))
}

/// The reply to a star event.
pub fn respond_starred(action: GithubStarredActionType, data: &Payload) -> (r: Reply)
    requires
        action != GithubStarredActionType::UNKOWN ==> payload_get(*data, "repository"@) is Some,
    ensures
        reply_view(r) == star_reply(action, *data),
{
    if action == GithubStarredActionType::UNKOWN {
        return Reply::Done(StatusCode::BAD_REQUEST);
    }
    let name = match repo_name(data) {
        Some(n) => n,
        None => {
            return Reply::Done(StatusCode::INTERNAL_SERVER_ERROR);
        },
    };
    let mut msg: Vec<char> = Vec::new();
    push_display_name(&mut msg, &name);
    if action == GithubStarredActionType::CREATED {
        push_str(&mut msg, " just got a new :star:, that makes ");
    } else {
        push_str(&mut msg, " just lost a :star:, that makes ");
    }
    match repo_field_of(data, "stargazers_count") {
        Some(v) => v.push_text(&mut msg),
        None => Json::Null.push_text(&mut msg),
    }
    if action == GithubStarredActionType::DELETED {
        push_str(&mut msg, " :cry:");
    }
    Reply::Post(chars_to_string(&msg))
}

/// The settings of the Github responder: the webhook's shared secret and the
/// Discord webhook to post to.
pub struct GithubConfig {
    token: String,
    discord: Webhook,
}

impl GithubConfig {
    /// The settings with secret `t` and webhook `w`.
    pub fn new(t: String, w: Webhook) -> (c: GithubConfig)
        ensures
            c.token_view() == t@,
            c.webhook_view() == w@,
    {
        GithubConfig { token: t, discord: w }
    }

    /// The shared secret.
    pub closed spec fn token_view(&self) -> Seq<char> {
        self.token@
    }

    /// The address of the webhook.
    pub closed spec fn webhook_view(&self) -> Seq<char> {
        self.discord@
    }

    /// The shared secret.
    pub fn get_token(self) -> (r: String)
        ensures
            r@ == self.token_view(),
    {
        self.token
    }

    /// The Discord webhook.
    pub fn get_webhook(self) -> (r: Webhook)
        ensures
            r@ == self.webhook_view(),
    {
        self.discord
    }
}

/// An issue, star or push event of a private repository sends no message when
/// the configuration is silent on private repositories.
pub proof fn lemma_private_repos_stay_silent(cfg: EventConfigView, p: Payload)
    requires
        cfg.silent_on_private,
        payload_get(p, "repository"@) is Some,
        is_private(p),
    ensures
        issue_reply(cfg, p).0 is None,
        starred_reply(cfg, p).0 is None,
        pushed_reply(cfg, p).0 is None,
{
}

/// Reading the word of a known release action gives the action back.
pub proof fn lemma_release_action_roundtrip(a: GithubReleasedActionType)
    requires
        a != GithubReleasedActionType::UNKOWN,
    ensures
        released_action_of(released_action_word(a)) == a,
{
    reveal_strlit("created");
    reveal_strlit("deleted");
    reveal_strlit("edited");
    reveal_strlit("prereleased");
    reveal_strlit("published");
    reveal_strlit("released");
    reveal_strlit("unpublished");
    let c = "created"@;
    let d = "deleted"@;
    let e = "edited"@;
    let pr = "prereleased"@;
    let pu = "published"@;
    let r = "released"@;
    let u = "unpublished"@;
    assert(d[0] != c[0]);
    assert(e[0] != c[0] && e[0] != d[0]);
    assert(pr[0] != c[0] && pr[0] != d[0] && pr[0] != e[0]);
    assert(pu[0] != c[0] && pu[0] != d[0] && pu[0] != e[0] && pu[1] != pr[1]);
    assert(r[0] != c[0] && r[0] != d[0] && r[0] != e[0] && r[0] != pr[0] && r[0] != pu[0]);
    assert(u[0] != c[0] && u[0] != d[0] && u[0] != e[0] && u[0] != pr[0] && u[0] != pu[0] && u[0]
        != r[0]);
}

/// Reading the word of a known star action gives the action back.
pub proof fn lemma_star_action_roundtrip(a: GithubStarredActionType)
    requires
        a != GithubStarredActionType::UNKOWN,
    ensures
        starred_action_of(starred_action_word(a)) == a,
{
    reveal_strlit("created");
    reveal_strlit("deleted");
    assert("deleted"@[0] != "created"@[0]);
}

/// Only created and published releases are announced: for any other action
/// the reply is OK and no message, whatever the payload.
pub proof fn lemma_only_new_releases_announced(a: GithubReleasedActionType, p: Payload)
    requires
        a != GithubReleasedActionType::CREATED,
        a != GithubReleasedActionType::PUBLISHED,
    ensures
        release_reply(a, p) == ReplyView::Done(StatusCode::OK),
{
}

} // verus!
