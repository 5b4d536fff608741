//! The Github filter of the server: which requests it takes, how it checks them,
//! and how it answers them, as a machine that the server drives. The server
//! performs each action (reading the request, loading the configuration,
//! parsing, counting, posting) and hands back what came of it.
use vstd::prelude::*;

use crate::discord::Webhook;
use crate::event::{body_payload, parse_body, EventConfig, Payload};
use crate::github::{answered_event, dropped, event_name, is_dropped, GithubEvent};
use crate::signature::{header_bytes, request_checkable, request_status};
use crate::status::StatusCode;
use crate::text::occurs_in;

verus! {

/// Where the handling of a request stands.
pub enum Stage {
    /// The request has just arrived.
    Arrived,
    /// The request comes from Github's agent: its body and headers are read.
    Reading,
    /// The event is known: its configuration is loaded. Holds the signature
    /// header and the body.
    Configuring(GithubEvent, Option<Vec<u8>>, Vec<u8>),
    /// The request is authentic and its body is a payload: the payload is
    /// counted in the statistics.
    Counting(GithubEvent, Payload),
    /// The message is posted to Discord.
    Posting,
    /// The request is handled.
    Done,
}

/// What came of an action.
pub enum Input {
    /// The `user-agent` header, `None` when it is not UTF-8 text.
    UserAgent(Option<String>),
    /// The body (`None` when it could not be read), the `x-github-event`
    /// header (`None` when absent) and the `x-hub-signature-256` header.
    Request(Option<Vec<u8>>, Option<String>, Option<Vec<u8>>),
    /// The configuration of the event.
    Config(EventConfig),
    /// The payload has been counted.
    Counted,
    /// Whether the message was posted.
    Posted(bool),
}

/// What the server does next.
pub enum Action {
    /// Hand the request on to the next handler.
    PassOn,
    /// Read the body and the headers.
    ReadRequest,
    /// Load the configuration entry of this name.
    LoadConfig(String),
    /// Count the payload in the statistics.
    Count,
    /// Post this message to this webhook.
    Post(Webhook, String),
    /// Answer with this status.
    Answer(StatusCode),
    /// Fail the handler with this status.
    Refuse(StatusCode),
    /// Stop: the request cannot be handled (its signature cannot be compared
    /// with the local code, its authentic body is not UTF-8 text, or a
    /// template names a member the payload lacks).
    Abort,
}

/// The bytes of an optional header.
pub open spec fn opt_bytes(h: Option<Vec<u8>>) -> Option<Seq<u8>> {
    match h {
        Some(b) => Some(b@),
        None => None,
    }
}

/// Whether a user agent is Github's webhook agent.
pub open spec fn from_github(ua: Option<String>) -> bool {
    ua matches Some(u) && occurs_in(u@, "GitHub-Hookshot"@)
}

/// The status of a message posted, or not.
pub open spec fn posted_status(ok: bool) -> StatusCode {
    if ok {
        StatusCode::OK
    } else {
        StatusCode::INTERNAL_SERVER_ERROR
    }
}

/// The stage after a request has arrived with user agent `ua`.
pub open spec fn screened(ua: Option<String>, r: (Stage, Action)) -> bool {
    if from_github(ua) {
        r.0 is Reading && r.1 is ReadRequest
    } else {
        r.0 is Done && r.1 is PassOn
    }
}

/// The stage after the request has been read.
pub open spec fn identified(body: Option<Vec<u8>>, event: Option<String>, sig: Option<Vec<u8>>, r: (
    Stage,
    Action,
)) -> bool {
    match (body, event) {
        (None, _) => r.0 is Done && r.1 == Action::Refuse(StatusCode::BAD_REQUEST),
        (Some(_), None) => r.0 is Done && r.1 == Action::Answer(StatusCode::BAD_REQUEST),
        (Some(b), Some(n)) => if !answered_event(n@) {
            r.0 is Done && r.1 == Action::Answer(StatusCode::CONTINUE)
        } else {
            &&& r.0 matches Stage::Configuring(e, s, b2) && e.config() == EventConfig::new_view()
                && event_name(e) == n@ && opt_bytes(s) == opt_bytes(sig) && b2@ == b@
            &&& r.1 matches Action::LoadConfig(k) && k@ == r.0->Configuring_0.config_key()
        },
    }
}

/// The stage after the event's configuration has been loaded: the request is
/// checked under the configured secret; an authentic body is read as a payload
/// (see `body_payload`): a body that is not UTF-8 text stops the handling, one
/// that is not a JSON object is a server error, a payload that is dropped is
/// answered OK, and any other is counted next.
pub open spec fn authenticated(
    e: GithubEvent,
    sig: Option<Vec<u8>>,
    body: Vec<u8>,
    cfg: EventConfig,
    r: (Stage, Action),
) -> bool {
    let header = opt_bytes(sig);
    if !request_checkable(header, cfg@.hmac, body@) {
        r.0 is Done && r.1 is Abort
    } else {
        ||| {
            &&& request_status(header, cfg@.hmac, body@, StatusCode::ACCEPTED)
            &&& if !vstd::utf8::valid_utf8(body@) {
                r.0 is Done && r.1 is Abort
            } else {
                match body_payload(body@) {
                    None => r.0 is Done && r.1 == Action::Answer(StatusCode::INTERNAL_SERVER_ERROR),
                    Some(p) => if dropped(p) {
                        r.0 is Done && r.1 == Action::Answer(StatusCode::OK)
                    } else {
                        &&& r.0 matches Stage::Counting(e2, p2) && p2 == p && e2.config() == cfg@
                            && event_name(e2) == event_name(e)
                        &&& r.1 is Count
                    },
                }
            }
        }
        ||| exists|s: StatusCode|
            {
                &&& s != StatusCode::ACCEPTED
                &&& request_status(header, cfg@.hmac, body@, s)
                &&& r.0 is Done && r.1 == Action::Answer(s)
            }
    }
}

/// The stage after the payload has been counted: the event's reply.
pub open spec fn replied(e: GithubEvent, p: Payload, r: (Stage, Action)) -> bool {
    if !e.reply_defined(p) {
        r.0 is Done && r.1 is Abort
    } else if e.reply(p).1 != StatusCode::OK {
        r.0 is Done && r.1 == Action::Answer(e.reply(p).1)
    } else {
        match e.reply(p).0 {
            Some(m) => {
                &&& r.0 is Posting
                &&& r.1 matches Action::Post(w, msg) && w@ == e.config().end_point && msg@ == m
            },
            None => r.0 is Done && r.1 == Action::Answer(StatusCode::OK),
        }
    }
}

impl Stage {
    /// The payload waiting to be counted.
    pub fn payload(&self) -> (r: Option<&Payload>)
        ensures
            match self {
                Stage::Counting(_, p) => r == Some(p),
                _ => r is None,
            },
    {
        match self {
            Stage::Counting(_, p) => Some(p),
            _ => None,
        }
    }
}

/// The next stage and action for each stage and what came of the last action.
pub open spec fn stepped(stage: Stage, input: Input, r: (Stage, Action)) -> bool {
    match (stage, input) {
        (Stage::Arrived, Input::UserAgent(ua)) => screened(ua, r),
        (Stage::Reading, Input::Request(b, n, s)) => identified(b, n, s, r),
        (Stage::Configuring(e, s, b), Input::Config(cfg)) => authenticated(e, s, b, cfg, r),
        (Stage::Counting(e, p), Input::Counted) => replied(e, p, r),
        (Stage::Posting, Input::Posted(ok)) => r.0 is Done && r.1 == Action::Answer(posted_status(ok)),
        _ => r.0 is Done && r.1 is Abort,
    }
}

/// One step of the filter: from the stage and what came of the last action to
/// the next stage and action. A request is only read once its user agent is
/// Github's, only parsed once its signature is accepted, a payload about a
/// private repository is dropped (answered OK, neither counted nor posted)
/// while private repositories are ignored, and a message is only posted for a
/// parsed and counted payload. An input that the stage does not
/// wait for ends the handling.
pub fn step(stage: Stage, input: Input) -> (r: (Stage, Action))
    ensures
        stepped(stage, input, r),
{
    match (stage, input) {
        (Stage::Arrived, Input::UserAgent(ua)) => {
            let github = match &ua {
                Some(u) => crate::github::is_github_user_agent(u.as_str()),
                None => false,
            };
            if github {
                (Stage::Reading, Action::ReadRequest)
            } else {
                (Stage::Done, Action::PassOn)
            }
        },
        (Stage::Reading, Input::Request(body, name, sig)) => {
            let body = match body {
                Some(b) => b,
                None => {
                    return (Stage::Done, Action::Refuse(StatusCode::BAD_REQUEST));
                },
            };
            let name = match name {
                Some(n) => n,
                None => {
                    return (Stage::Done, Action::Answer(StatusCode::BAD_REQUEST));
                },
            };
            match GithubEvent::for_name(name.as_str()) {
                Some(e) => {
                    let key = e.config_name();
                    (Stage::Configuring(e, sig, body), Action::LoadConfig(key))
                },
                None => (Stage::Done, Action::Answer(StatusCode::CONTINUE)),
            }
        },
        (Stage::Configuring(e, sig, body), Input::Config(cfg)) => {
            let ghost cfg_view = cfg@;
            let mut e = e;
            e.set_config(cfg);
            let header: Option<&[u8]> = match &sig {
                Some(v) => Some(v.as_slice()),
                None => None,
            };
            assert(header_bytes(header) == opt_bytes(sig));
            match e.is_authentic(header, body.as_slice()) {
                None => (Stage::Done, Action::Abort),
                Some(StatusCode::ACCEPTED) => {
                    if crate::signature::utf8_text(body.as_slice()).is_none() {
                        return (Stage::Done, Action::Abort);
                    }
                    match parse_body(body.as_slice()) {
                        None => (Stage::Done, Action::Answer(StatusCode::INTERNAL_SERVER_ERROR)),
                        Some(p) => {
                            if is_dropped(&p) {
                                (Stage::Done, Action::Answer(StatusCode::OK))
                            } else {
                                (Stage::Counting(e, p), Action::Count)
                            }
                        },
                    }
                },
                Some(s) => {
                    assert(s != StatusCode::ACCEPTED);
                    (Stage::Done, Action::Answer(s))
                },
            }
        },
        (Stage::Counting(e, p), Input::Counted) => {
            if !e.can_respond(&p) {
                return (Stage::Done, Action::Abort);
            }
            let (message, status) = e.into_response(&p);
            if status != StatusCode::OK {
                return (Stage::Done, Action::Answer(status));
            }
            match message {
                Some(m) => (Stage::Posting, Action::Post(e.get_end_point(), m)),
                None => (Stage::Done, Action::Answer(StatusCode::OK)),
            }
        },
        (Stage::Posting, Input::Posted(ok)) => {
            if ok {
                (Stage::Done, Action::Answer(StatusCode::OK))
            } else {
                (Stage::Done, Action::Answer(StatusCode::INTERNAL_SERVER_ERROR))
            }
        },
        _ => (Stage::Done, Action::Abort),
    }
}

/// A run of the filter: it starts with an arrived request, and each stage and
/// action follows from the stage before and what came of its action.
pub open spec fn is_run(stages: Seq<Stage>, inputs: Seq<Input>, actions: Seq<Action>) -> bool {
    &&& stages.len() == inputs.len() + 1
    &&& actions.len() == inputs.len()
    &&& stages[0] is Arrived
    &&& forall|i: int|
        0 <= i < inputs.len() ==> #[trigger] stepped(stages[i], inputs[i], (stages[i + 1], actions[i]))
}

/// In a run of the filter, a message is posted only for a request from
/// Github's agent whose signature the configured secret accepted, and whose
/// body was read as a payload that is not dropped, and counted; the message
/// answers that payload.
pub proof fn lemma_posts_only_authentic(
    stages: Seq<Stage>,
    inputs: Seq<Input>,
    actions: Seq<Action>,
    k: int,
)
    requires
        is_run(stages, inputs, actions),
        0 <= k < actions.len(),
        actions[k] is Post,
    ensures
        k >= 3,
        inputs[k - 3] is UserAgent && from_github(inputs[k - 3]->UserAgent_0),
        stages[k - 1] is Configuring && inputs[k - 1] is Config,
        request_status(
            opt_bytes(stages[k - 1]->Configuring_1),
            inputs[k - 1]->Config_0@.hmac,
            stages[k - 1]->Configuring_2@,
            StatusCode::ACCEPTED,
        ),
        stages[k] is Counting && inputs[k] is Counted,
        body_payload(stages[k - 1]->Configuring_2@) == Some(stages[k]->Counting_1),
        !dropped(stages[k]->Counting_1),
{
    assert(stepped(stages[k], inputs[k], (stages[k + 1], actions[k])));
    assert(stages[k] is Counting);
    let b = k - 1;
    assert(stepped(stages[b], inputs[b], (stages[b + 1], actions[b])));
    assert(stages[b] is Configuring);
    let c = k - 2;
    assert(stepped(stages[c], inputs[c], (stages[c + 1], actions[c])));
    assert(stages[c] is Reading);
    let d = k - 3;
    assert(stepped(stages[d], inputs[d], (stages[d + 1], actions[d])));
}

/// How the verifying middleware answers a request from its headers: a user
/// agent that is not text is a bad request and one that is not Github's is
/// passed on; a Github request without signature is unauthorized, one whose
/// signature is not text is a bad request; else its body is read.
pub open spec fn screened_signed(user_agent: Option<Seq<char>>, signature: Option<Seq<u8>>) -> Action {
    match user_agent {
        None => Action::Answer(StatusCode::BAD_REQUEST),
        Some(u) => if !occurs_in(u, "GitHub-Hookshot"@) {
            Action::PassOn
        } else {
            match signature {
                None => Action::Answer(StatusCode::UNAUTHORIZED),
                Some(b) => if !vstd::utf8::valid_utf8(b) {
                    Action::Answer(StatusCode::BAD_REQUEST)
                } else {
                    Action::ReadRequest
                },
            }
        },
    }
}

/// The verifying middleware's decision on the headers of a request: the user
/// agent (`None` when it is not text) and the `x-hub-signature-256` header.
pub fn screen_signed(user_agent: Option<&str>, signature: Option<&[u8]>) -> (r: Action)
    ensures
        r == screened_signed(
            match user_agent {
                Some(u) => Some(u@),
                None => None,
            },
            header_bytes(signature),
        ),
{
    let u = match user_agent {
        Some(u) => u,
        None => {
            return Action::Answer(StatusCode::BAD_REQUEST);
        },
    };
    if !crate::github::is_github_user_agent(u) {
        return Action::PassOn;
    }
    match signature {
        None => Action::Answer(StatusCode::UNAUTHORIZED),
        Some(b) => match crate::signature::utf8_text(b) {
            None => Action::Answer(StatusCode::BAD_REQUEST),
            Some(_) => Action::ReadRequest,
        },
    }
}

/// The status with which the verifying middleware answers a checked request:
/// `OK` for an accepted one.
pub open spec fn verified_status(s: StatusCode) -> StatusCode {
    if s == StatusCode::ACCEPTED {
        StatusCode::OK
    } else {
        s
    }
}

/// The verifying middleware's decision once the body is read (`None` when it
/// could not be): the handler fails with a bad request without a body; else the
/// request is checked under the secret `token` and answered `OK` when it is
/// authentic, or with the status of its refusal. `Abort` exactly when the
/// signature cannot be compared with the local code.
pub fn verify_signed(token: String, signature: &[u8], body: Option<&[u8]>) -> (r: Action)
    ensures
        match body {
            None => r == Action::Refuse(StatusCode::BAD_REQUEST),
            Some(b) => if !request_checkable(Some(signature@), token@, b@) {
                r is Abort
            } else {
                exists|s: StatusCode|
                    request_status(Some(signature@), token@, b@, s) && r == Action::Answer(
                        verified_status(s),
                    )
            },
        },
{
    let b = match body {
        Some(b) => b,
        None => {
            return Action::Refuse(StatusCode::BAD_REQUEST);
        },
    };
    match crate::signature::checked_request_is_authentic(token, Some(signature), b) {
        None => Action::Abort,
        Some(StatusCode::ACCEPTED) => Action::Answer(StatusCode::OK),
        Some(s) => Action::Answer(s),
    }
}

} // verus!
