//! Message templates and the criteria that select them: a template is a text
//! in which each parameter `<path>` is replaced by the value found at `path`
//! in the JSON payload of an event.
use vstd::prelude::*;

use regex::Regex;
use serde_json::Value;

use crate::discord::Webhook;
use crate::json::{lookup, lookup_tokens, member, member_of, plain_text, plain_text_of, Json, JsonNumber};
use crate::text::{
    chars_eq, chars_to_string, replace_all, replace_all_chars, split_chars, split_on, str_chars,
};

verus! {

/// The JSON payload of an event: its top-level members, in the order read.
pub struct Payload {
    pub entries: Vec<(String, Json)>,
}

/// serde_json's JSON value, `serde_json::Value`; only converted here.
#[verifier::external_type_specification]
#[verifier::external_body]
pub struct ExValue(Value);

/// The payload that `serde_json::from_str` reads from a text: its top-level
/// members in serde_json's map order (sorted by key), each value converted
/// one for one; `None` when the text is not a JSON object.
pub uninterp spec fn parsed_payload(text: Seq<char>) -> Option<Payload>;

/// A value of serde_json as the library holds it, one for one: an integer
/// that fits `u64` or `i64` as such, any other number by its text. Called
/// only by `parse_payload`, whose contract covers it.
#[verifier::external_body]
fn json_of(v: &Value) -> Json {
    match v {
        Value::Bool(b) => Json::Bool(*b),
        Value::Number(n) => match (n.as_u64(), n.as_i64()) {
            (Some(u), _) => Json::Number(JsonNumber::PosInt(u)),
            (_, Some(i)) => Json::Number(JsonNumber::NegInt(i)),
            _ => Json::Number(JsonNumber::Float(n.to_string())),
        },
        Value::String(s) => Json::Str(s.clone()),
        Value::Array(a) => Json::Array(a.iter().map(json_of).collect()),
        Value::Object(m) => Json::Object(m.iter().map(|(k, x)| (k.clone(), json_of(x))).collect()),
        _ => Json::Null,
    }
}

/// The payload of a JSON text, by `serde_json::from_str` into a
/// `serde_json::Value`: its members when the text is a JSON object, else
/// `None`.
#[verifier::external_body]
fn parse_payload(text: &str) -> (r: Option<Payload>)
    ensures
        r == parsed_payload(text@),
{
    match serde_json::from_str::<Value>(text) {
        Ok(Value::Object(m)) => Some(Payload { entries: m.iter().map(|(k, v)| (k.clone(), json_of(v))).collect() }),
        _ => None,
    }
}

/// The payload of a request body: the body's text with its control characters
/// removed, read as JSON.
pub open spec fn body_payload(body: Seq<u8>) -> Option<Payload> {
    parsed_payload(crate::util::without_control(vstd::utf8::decode_utf8(body)))
}

/// The payload of a request body that is UTF-8 text (see `body_payload`).
pub fn parse_body(body: &[u8]) -> (r: Option<Payload>)
    requires
        vstd::utf8::valid_utf8(body@),
    ensures
        r == body_payload(body@),
{
    match crate::signature::utf8_text(body) {
        Some(text) => {
            let stripped = crate::util::strip_control_characters(text);
            parse_payload(stripped.as_str())
        },
        None => None,
    }
}

/// The value of the top-level member `key` of the payload, if any.
pub open spec fn payload_get(p: Payload, key: Seq<char>) -> Option<Json> {
    member(p.entries@, key)
}

/// The value at a path of segments `key/token/...`: the member `key` of the
/// payload, then the JSON Pointer tokens that follow, in turn.
pub open spec fn path_value(p: Payload, segs: Seq<Seq<char>>) -> Option<Json> {
    match payload_get(p, segs[0]) {
        Some(v) => lookup(v, segs.drop_first()),
        None => None,
    }
}

/// The views of a sequence of strings.
pub open spec fn strings_view(v: Seq<String>) -> Seq<Seq<char>> {
    v.map_values(|s: String| s@)
}

/// What a criterion holds: the path of the value it checks, the values that
/// are accepted (any, when empty) and the values that are refused.
pub struct CriterionView {
    pub path: Seq<char>,
    pub values_in: Seq<Seq<char>>,
    pub values_not_in: Seq<Seq<char>>,
}

/// What a template holds: its criteria and its body.
pub struct TemplateView {
    pub criteria: Seq<CriterionView>,
    pub body: Seq<char>,
}

/// What an event configuration holds.
pub struct EventConfigView {
    pub hmac: Seq<char>,
    pub templates: Seq<TemplateView>,
    pub end_point: Seq<char>,
    pub silent_on_private: bool,
}

/// A condition on a value of the payload.
pub struct Criterion {
    check_value_path: String,
    check_value_in: Vec<String>,
    check_value_not_in: Vec<String>,
}

/// A message template with the criteria under which it is used.
pub struct Template {
    criteria: Vec<Criterion>,
    body: String,
}

/// The configuration of one kind of event.
pub struct EventConfig {
    hmac: String,
    templates: Vec<Template>,
    end_point: Webhook,
    dont_message_on_private_repos: bool,
}

impl View for Criterion {
    type V = CriterionView;

    closed spec fn view(&self) -> CriterionView {
        CriterionView {
            path: self.check_value_path@,
            values_in: strings_view(self.check_value_in@),
            values_not_in: strings_view(self.check_value_not_in@),
        }
    }
}

/// The views of a sequence of criteria.
pub open spec fn criteria_view(v: Seq<Criterion>) -> Seq<CriterionView> {
    v.map_values(|c: Criterion| c@)
}

impl View for Template {
    type V = TemplateView;

    closed spec fn view(&self) -> TemplateView {
        TemplateView { criteria: criteria_view(self.criteria@), body: self.body@ }
    }
}

/// The views of a sequence of templates.
pub open spec fn templates_view(v: Seq<Template>) -> Seq<TemplateView> {
    v.map_values(|t: Template| t@)
}

impl View for EventConfig {
    type V = EventConfigView;

    closed spec fn view(&self) -> EventConfigView {
        EventConfigView {
            hmac: self.hmac@,
            templates: templates_view(self.templates@),
            end_point: self.end_point@,
            silent_on_private: self.dont_message_on_private_repos,
        }
    }
}

fn clone_strings(v: &Vec<String>) -> (r: Vec<String>)
    ensures
        strings_view(r@) == strings_view(v@),
{
    let mut r: Vec<String> = Vec::new();
    let mut i: usize = 0;
    while i < v.len()
        invariant
            0 <= i <= v.len(),
            r@.len() == i,
            forall|j: int| 0 <= j < i ==> #[trigger] r@[j]@ == v@[j]@,
        decreases v.len() - i,
    {
        r.push(v[i].clone());
        i = i + 1;
    }
    assert(strings_view(r@) =~= strings_view(v@));
    r
}

impl Clone for Criterion {
    fn clone(&self) -> (r: Self)
        ensures
            r@ == self@,
    {
        Criterion {
            check_value_path: self.check_value_path.clone(),
            check_value_in: clone_strings(&self.check_value_in),
            check_value_not_in: clone_strings(&self.check_value_not_in),
        }
    }
}

fn clone_criteria(v: &Vec<Criterion>) -> (r: Vec<Criterion>)
    ensures
        criteria_view(r@) == criteria_view(v@),
{
    let mut r: Vec<Criterion> = Vec::new();
    let mut i: usize = 0;
    while i < v.len()
        invariant
            0 <= i <= v.len(),
            r@.len() == i,
            forall|j: int| 0 <= j < i ==> #[trigger] r@[j]@ == v@[j]@,
        decreases v.len() - i,
    {
        r.push(v[i].clone());
        i = i + 1;
    }
    assert(criteria_view(r@) =~= criteria_view(v@));
    r
}

impl Clone for Template {
    fn clone(&self) -> (r: Self)
        ensures
            r@ == self@,
    {
        Template { criteria: clone_criteria(&self.criteria), body: self.body.clone() }
    }
}

fn clone_templates(v: &Vec<Template>) -> (r: Vec<Template>)
    ensures
        templates_view(r@) == templates_view(v@),
{
    let mut r: Vec<Template> = Vec::new();
    let mut i: usize = 0;
    while i < v.len()
        invariant
            0 <= i <= v.len(),
            r@.len() == i,
            forall|j: int| 0 <= j < i ==> #[trigger] r@[j]@ == v@[j]@,
        decreases v.len() - i,
    {
        r.push(v[i].clone());
        i = i + 1;
    }
    assert(templates_view(r@) =~= templates_view(v@));
    r
}

impl Clone for EventConfig {
    fn clone(&self) -> (r: Self)
        ensures
            r@ == self@,
    {
        EventConfig {
            hmac: self.hmac.clone(),
            templates: clone_templates(&self.templates),
            end_point: self.end_point.clone(),
            dont_message_on_private_repos: self.dont_message_on_private_repos,
        }
    }
}

impl Criterion {
    /// A criterion on the value at `check_value_path`.
    pub fn from_parts(
        check_value_path: String,
        check_value_in: Vec<String>,
        check_value_not_in: Vec<String>,
    ) -> (c: Criterion)
        ensures
            c@ == (CriterionView {
                path: check_value_path@,
                values_in: strings_view(check_value_in@),
                values_not_in: strings_view(check_value_not_in@),
            }),
    {
        Criterion { check_value_path, check_value_in, check_value_not_in }
    }
}

impl Template {
    /// The template with no criteria and an empty body.
    pub fn new() -> (t: Template)
        ensures
            t@ == (TemplateView { criteria: Seq::empty(), body: Seq::empty() }),
    {
        let t = Template { criteria: Vec::new(), body: String::new() };
        assert(t@.criteria =~= Seq::<CriterionView>::empty());
        t
    }

    /// The template with the given criteria and body.
    pub fn from_parts(criteria: Vec<Criterion>, body: String) -> (t: Template)
        ensures
            t@ == (TemplateView { criteria: criteria_view(criteria@), body: body@ }),
    {
        Template { criteria, body }
    }
}

impl EventConfig {
    /// The shared secret of the webhook.
    pub fn get_token(&self) -> (r: String)
        ensures
            r@ == self@.hmac,
    {
        self.hmac.clone()
    }

    /// The message templates, in order of preference.
    pub fn get_templates(&self) -> (r: Vec<Template>)
        ensures
            templates_view(r@) == self@.templates,
    {
        clone_templates(&self.templates)
    }

    /// The Discord webhook that messages go to.
    pub fn get_end_point(&self) -> (r: Webhook)
        ensures
            r@ == self@.end_point,
    {
        self.end_point.clone()
    }

    /// Whether events of private repositories send no message.
    pub fn silent_on_private_repos(&self) -> (r: bool)
        ensures
            r == self@.silent_on_private,
    {
        self.dont_message_on_private_repos
    }

    /// The default configuration: no secret, one empty template, a webhook with
    /// an empty address, and silence on private repositories.
    pub open spec fn new_view() -> EventConfigView {
        EventConfigView {
            hmac: Seq::empty(),
            templates: seq![TemplateView { criteria: Seq::empty(), body: Seq::empty() }],
            end_point: Seq::empty(),
            silent_on_private: true,
        }
    }

    /// The default configuration.
    pub fn new() -> (c: EventConfig)
        ensures
            c@ == EventConfig::new_view(),
    {
        let mut templates: Vec<Template> = Vec::new();
        templates.push(Template::new());
        let c = EventConfig {
            hmac: String::new(),
            templates,
            end_point: Webhook::new(String::new()),
            dont_message_on_private_repos: true,
        };
        assert(c@.templates =~= seq![TemplateView { criteria: Seq::empty(), body: Seq::empty() }]);
        c
    }

    /// The configuration as a configuration file gives it, where the privacy
    /// setting may be absent: absent, the configuration is silent on private
    /// repositories.
    pub fn from_settings(
        hmac: String,
        templates: Vec<Template>,
        end_point: Webhook,
        dont_message_on_private_repos: Option<bool>,
    ) -> (c: EventConfig)
        ensures
            c@ == (EventConfigView {
                hmac: hmac@,
                templates: templates_view(templates@),
                end_point: end_point@,
                silent_on_private: match dont_message_on_private_repos {
                    Some(b) => b,
                    None => true,
                },
            }),
    {
        let silent = match dont_message_on_private_repos {
            Some(b) => b,
            None => default_privacy(),
        };
        EventConfig::from_parts(hmac, templates, end_point, silent)
    }

    /// The configuration with the given parts.
    pub fn from_parts(
        hmac: String,
        templates: Vec<Template>,
        end_point: Webhook,
        dont_message_on_private_repos: bool,
    ) -> (c: EventConfig)
        ensures
            c@ == (EventConfigView {
                hmac: hmac@,
                templates: templates_view(templates@),
                end_point: end_point@,
                silent_on_private: dont_message_on_private_repos,
            }),
    {
        EventConfig { hmac, templates, end_point, dont_message_on_private_repos }
    }
}

/// The index of the first `<` or `>` in `s` at or after `i` (`s.len()` when none).
pub open spec fn next_angle(s: Seq<char>, i: int) -> int
    decreases s.len() - i,
{
    if i >= s.len() {
        s.len() as int
    } else if s[i] == '<' || s[i] == '>' {
        i
    } else {
        next_angle(s, i + 1)
    }
}

/// The length of the match of `<[^<>]+>` that starts at the beginning of `s`,
/// or 0 when none starts there.
pub open spec fn parameter_len(s: Seq<char>) -> int {
    if s.len() > 0 && s[0] == '<' {
        let j = next_angle(s, 1);
        if j < s.len() && s[j] == '>' && j >= 2 {
            j + 1
        } else {
            0
        }
    } else {
        0
    }
}

/// The template parameters of `s`: the successive non-overlapping matches of
/// the regular expression `<[^<>]+>`, leftmost first.
pub open spec fn template_params(s: Seq<char>) -> Seq<Seq<char>>
    decreases s.len(),
{
    if s.len() == 0 {
        Seq::empty()
    } else if 0 < parameter_len(s) <= s.len() {
        seq![s.take(parameter_len(s))] + template_params(s.skip(parameter_len(s)))
    } else {
        template_params(s.drop_first())
    }
}

proof fn lemma_next_angle_bounds(s: Seq<char>, i: int)
    requires
        0 <= i,
    ensures
        i <= next_angle(s, i) || i >= s.len(),
        next_angle(s, i) <= s.len(),
    decreases s.len() - i,
{
    if i < s.len() && !(s[i] == '<' || s[i] == '>') {
        lemma_next_angle_bounds(s, i + 1);
    }
}

/// Every template parameter is `<`, at least one character, and `>`.
pub proof fn lemma_params_shape(s: Seq<char>)
    ensures
        forall|i: int|
            0 <= i < template_params(s).len() ==> #[trigger] template_params(s)[i].len() >= 3
                && template_params(s)[i][0] == '<',
    decreases s.len(),
{
    if s.len() > 0 {
        let n = parameter_len(s);
        if 0 < n <= s.len() {
            lemma_next_angle_bounds(s, 1);
            lemma_params_shape(s.skip(n));
            let rest = template_params(s.skip(n));
            assert forall|i: int| 0 <= i < template_params(s).len() implies #[trigger] template_params(
                s,
            )[i].len() >= 3 && template_params(s)[i][0] == '<' by {
                if i > 0 {
                    assert(template_params(s)[i] == rest[i - 1]);
                } else {
                    assert(template_params(s)[0] == s.take(n));
                }
            }
        } else {
            lemma_params_shape(s.drop_first());
            assert(template_params(s) == template_params(s.drop_first()));
        }
    }
}

/// The text of a parameter between its `<` and `>`.
pub open spec fn param_inner(tok: Seq<char>) -> Seq<char> {
    tok.subrange(1, tok.len() - 1)
}

/// The path segments that a parameter names.
pub open spec fn param_path(tok: Seq<char>) -> Seq<Seq<char>> {
    split_on(param_inner(tok), '/')
}

/// What a parameter is replaced by: the plain text of the value at its path,
/// or the parameter itself when no value is found there.
pub open spec fn param_value(tok: Seq<char>, p: Payload) -> Seq<char> {
    match path_value(p, param_path(tok)) {
        Some(v) => plain_text(v),
        None => tok,
    }
}

/// `s` with each parameter in `toks`, in turn, replaced everywhere by its value.
pub open spec fn substitute(s: Seq<char>, toks: Seq<Seq<char>>, p: Payload) -> Seq<char>
    decreases toks.len(),
{
    if toks.len() == 0 {
        s
    } else {
        substitute(replace_all(s, toks[0], param_value(toks[0], p)), toks.drop_first(), p)
    }
}

/// The message a template expands to: none for the empty template, else the
/// template with each of its parameters replaced by its value.
pub open spec fn expanded(t: Seq<char>, p: Payload) -> Option<Seq<char>> {
    if t.len() == 0 {
        None
    } else {
        Some(substitute(t, template_params(t), p))
    }
}

/// Whether the first segment of every parameter of `t` is a member of the payload
/// (expanding a template that names a missing member is refused).
pub open spec fn params_resolvable(t: Seq<char>, p: Payload) -> bool {
    forall|i: int|
        0 <= i < template_params(t).len() ==> (#[trigger] payload_get(
            p,
            param_path(template_params(t)[i])[0],
        )) is Some
}

/// Whether a criterion holds of the payload: a criterion without a path always
/// holds; otherwise the value at its path must exist, be among the accepted
/// values (if any are listed) and not among the refused ones.
pub open spec fn criterion_holds(c: CriterionView, p: Payload) -> bool {
    if c.path.len() == 0 {
        true
    } else {
        match path_value(p, split_on(c.path, '/')) {
            None => false,
            Some(v) => (c.values_in.len() == 0 || c.values_in.contains(plain_text(v))) && (
            c.values_not_in.len() == 0 || !c.values_not_in.contains(plain_text(v))),
        }
    }
}

/// Whether every criterion of a template holds.
pub open spec fn template_applies(t: TemplateView, p: Payload) -> bool {
    forall|i: int| 0 <= i < t.criteria.len() ==> #[trigger] criterion_holds(t.criteria[i], p)
}

/// The body of the first template whose criteria all hold, or the empty text.
pub open spec fn selected_body(ts: Seq<TemplateView>, p: Payload) -> Seq<char>
    decreases ts.len(),
{
    if ts.len() == 0 {
        Seq::empty()
    } else if template_applies(ts[0], p) {
        ts[0].body
    } else {
        selected_body(ts.drop_first(), p)
    }
}

/// The parameters of a template, as the regular expression `<[^<>]+>` finds them.
#[verifier::external_body]
fn template_parameters(template: &str) -> (r: Vec<String>)
    ensures
        strings_view(r@) == template_params(template@),
{
    Regex::new("<[^<>]+>").unwrap().find_iter(template).map(|m| m.as_str().to_string()).collect()
}

/// The value at the path `segs` of the payload.
fn path_value_of<'a>(data: &'a Payload, segs: &Vec<Vec<char>>) -> (r: Option<&'a Json>)
    requires
        segs@.len() >= 1,
    ensures
        match r {
            Some(v) => path_value(*data, crate::json::views(segs@)) == Some(*v),
            None => path_value(*data, crate::json::views(segs@)) is None,
        },
{
    let ghost ss = crate::json::views(segs@);
    assert(ss.drop_first() =~= ss.subrange(1, ss.len() as int));
    match member_of(&data.entries, &segs[0]) {
        Some(v) => lookup_tokens(v, segs.as_slice(), 1),
        None => None,
    }
}

proof fn lemma_split_views(r: Seq<Vec<char>>, s: Seq<char>, sep: char)
    requires
        r.len() == split_on(s, sep).len(),
        forall|i: int| 0 <= i < r.len() ==> #[trigger] r[i]@ == split_on(s, sep)[i],
    ensures
        crate::json::views(r) == split_on(s, sep),
        r.len() >= 1,
{
    assert(crate::json::views(r) =~= split_on(s, sep));
    crate::text::lemma_split_nonempty(s, sep);
}

fn param_value_of(tok: &Vec<char>, data: &Payload) -> (r: Vec<char>)
    requires
        tok@.len() >= 3,
    ensures
        r@ == param_value(tok@, *data),
{
    let inner = crate::text::sub_chars(tok, 1, tok.len() - 1);
    let segs = split_chars(&inner, '/');
    proof {
        lemma_split_views(segs@, inner@, '/');
    }
    match path_value_of(data, &segs) {
        Some(v) => plain_text_of(v),
        None => crate::text::sub_chars(tok, 0, tok.len()),
    }
}

/// Whether every parameter of the template names a member of the payload, so
/// that the template can be expanded.
pub fn can_expand(template: &str, data: &Payload) -> (r: bool)
    ensures
        r == params_resolvable(template@, *data),
{
    let params = template_parameters(template);
    proof {
        lemma_params_shape(template@);
    }
    let ghost ps = template_params(template@);
    let mut i: usize = 0;
    while i < params.len()
        invariant
            0 <= i <= params.len(),
            ps == template_params(template@),
            strings_view(params@) == ps,
            forall|j: int| 0 <= j < ps.len() ==> #[trigger] ps[j].len() >= 3,
            forall|j: int|
                0 <= j < i ==> (#[trigger] payload_get(*data, param_path(ps[j])[0])) is Some,
        decreases params.len() - i,
    {
        let tok = str_chars(params[i].as_str());
        assert(tok@ == ps[i as int]);
        let inner = crate::text::sub_chars(&tok, 1, tok.len() - 1);
        let segs = split_chars(&inner, '/');
        proof {
            lemma_split_views(segs@, inner@, '/');
        }
        assert(crate::json::views(segs@)[0] == segs@[0]@);
        assert(inner@ == param_inner(ps[i as int]));
        if member_of(&data.entries, &segs[0]).is_none() {
            assert(payload_get(*data, param_path(ps[i as int])[0]) is None);
            return false;
        }
        i = i + 1;
    }
    true
}

/// Expands a template: `None` for the empty template; otherwise the template
/// with each parameter `<path>` (leftmost first) replaced everywhere by the plain
/// text of the value at `path`, or left as it is when no value is found there.
pub fn expand_template(template: String, data: &Payload) -> (r: Option<String>)
    requires
        params_resolvable(template@, *data),
    ensures
        match r {
            Some(s) => expanded(template@, *data) == Some(s@),
            None => expanded(template@, *data) is None,
        },
{
    let t = str_chars(template.as_str());
    if t.len() == 0 {
        return None;
    }
    let params = template_parameters(template.as_str());
    proof {
        lemma_params_shape(template@);
    }
    let ghost ps = template_params(template@);
    let mut formatted = t;
    let mut i: usize = 0;
    assert(ps.subrange(0, ps.len() as int) =~= ps);
    while i < params.len()
        invariant
            0 <= i <= params.len(),
            ps == template_params(template@),
            strings_view(params@) == ps,
            forall|j: int| 0 <= j < ps.len() ==> #[trigger] ps[j].len() >= 3,
            substitute(template@, ps, *data) == substitute(
                formatted@,
                ps.subrange(i as int, ps.len() as int),
                *data,
            ),
        decreases params.len() - i,
    {
        let ghost rest = ps.subrange(i as int, ps.len() as int);
        assert(rest.drop_first() =~= ps.subrange(i + 1, ps.len() as int));
        let tok = str_chars(params[i].as_str());
        assert(tok@ == ps[i as int]);
        let value = param_value_of(&tok, data);
        formatted = replace_all_chars(&formatted, &tok, &value);
        i = i + 1;
    }
    assert(ps.subrange(i as int, ps.len() as int) =~= Seq::<Seq<char>>::empty());
    Some(chars_to_string(&formatted))
}

fn contains_chars(list: &Vec<String>, s: &[char]) -> (r: bool)
    ensures
        r == strings_view(list@).contains(s@),
{
    let mut i: usize = 0;
    while i < list.len()
        invariant
            0 <= i <= list.len(),
            forall|j: int| 0 <= j < i ==> list@[j]@ != s@,
        decreases list.len() - i,
    {
        let c = str_chars(list[i].as_str());
        if chars_eq(&c, s) {
            assert(strings_view(list@)[i as int] == s@);
            return true;
        }
        i = i + 1;
    }
    assert(!strings_view(list@).contains(s@)) by {
        if strings_view(list@).contains(s@) {
            let k = choose|k: int| 0 <= k < strings_view(list@).len() && strings_view(list@)[k] == s@;
            assert(list@[k]@ == s@);
        }
    }
    false
}

/// Whether the criterion holds of the payload.
pub fn satisfied(criterion: Criterion, data: &Payload) -> (r: bool)
    ensures
        r == criterion_holds(criterion@, *data),
{
    let path = str_chars(criterion.check_value_path.as_str());
    if path.len() == 0 {
        return true;
    }
    let segs = split_chars(&path, '/');
    proof {
        lemma_split_views(segs@, path@, '/');
    }
    match path_value_of(data, &segs) {
        None => false,
        Some(v) => {
            let text = plain_text_of(v);
            let accepted = criterion.check_value_in.len() == 0 || contains_chars(
                &criterion.check_value_in,
                &text,
            );
            let refused = criterion.check_value_not_in.len() != 0 && contains_chars(
                &criterion.check_value_not_in,
                &text,
            );
            accepted && !refused
        },
    }
}

/// The body of the first template whose criteria all hold of the payload, or
/// the empty string when none applies.
pub fn select_template(templates: Vec<Template>, data: &Payload) -> (r: String)
    ensures
        r@ == selected_body(templates_view(templates@), *data),
{
    let ghost ts = templates_view(templates@);
    let mut i: usize = 0;
    assert(ts.subrange(0, ts.len() as int) =~= ts);
    while i < templates.len()
        invariant
            0 <= i <= templates.len(),
            ts == templates_view(templates@),
            selected_body(ts, *data) == selected_body(ts.subrange(i as int, ts.len() as int), *data),
        decreases templates.len() - i,
    {
        let ghost rest = ts.subrange(i as int, ts.len() as int);
        assert(rest.drop_first() =~= ts.subrange(i + 1, ts.len() as int));
        let t = &templates[i];
        let mut all = true;
        let mut k: usize = 0;
        while k < t.criteria.len()
            invariant
                0 <= k <= t.criteria.len(),
                all == (forall|j: int| 0 <= j < k ==> #[trigger] criterion_holds(t@.criteria[j], *data)),
                t@ == ts[i as int],
            decreases t.criteria.len() - k,
        {
            let c = t.criteria[k].clone();
            assert(c@ == t@.criteria[k as int]);
            let ok = satisfied(c, data);
            if !ok {
                all = false;
            }
            k = k + 1;
        }
        if all {
            return t.body.clone();
        }
        i = i + 1;
    }
    String::new()
}

/// The criteria of a template that lists none: none.
pub fn default_criteria() -> (r: Vec<Criterion>)
    ensures
        r@.len() == 0,
{
    Vec::new()
}

/// The default privacy setting of an event: silent on private repositories.
pub fn default_privacy() -> (r: bool)
    ensures
        r,
{
    true
}

/// A non-empty template without parameters expands to itself.
pub proof fn lemma_plain_template_unchanged(t: Seq<char>, p: Payload)
    requires
        t.len() > 0,
        template_params(t).len() == 0,
    ensures
        expanded(t, p) == Some(t),
{
}

/// The body selected is that of the first template whose criteria all hold,
/// whatever the templates after it.
pub proof fn lemma_first_applicable_selected(ts: Seq<TemplateView>, p: Payload, k: int)
    requires
        0 <= k < ts.len(),
        template_applies(ts[k], p),
        forall|j: int| 0 <= j < k ==> !template_applies(#[trigger] ts[j], p),
    ensures
        selected_body(ts, p) == ts[k].body,
    decreases k,
{
    if k > 0 {
        let u = ts.drop_first();
        assert forall|j: int| 0 <= j < k - 1 implies !template_applies(#[trigger] u[j], p) by {
            assert(u[j] == ts[j + 1]);
        }
        lemma_first_applicable_selected(u, p, k - 1);
    }
}

/// When no template applies, the selected body is empty.
pub proof fn lemma_none_applicable(ts: Seq<TemplateView>, p: Payload)
    requires
        forall|j: int| 0 <= j < ts.len() ==> !template_applies(#[trigger] ts[j], p),
    ensures
        selected_body(ts, p) == Seq::<char>::empty(),
    decreases ts.len(),
{
    if ts.len() > 0 {
        let u = ts.drop_first();
        assert forall|j: int| 0 <= j < u.len() implies !template_applies(#[trigger] u[j], p) by {
            assert(u[j] == ts[j + 1]);
        }
        lemma_none_applicable(u, p);
    }
}

/// A criterion whose value is found at its path holds when the value's plain
/// text is any one of the accepted values and none is refused; it fails when
/// the text is one of the refused values.
pub proof fn lemma_criterion_accepts_listed(c: CriterionView, p: Payload, v: Json, k: int)
    requires
        c.path.len() > 0,
        path_value(p, split_on(c.path, '/')) == Some(v),
    ensures
        0 <= k < c.values_in.len() && c.values_in[k] == plain_text(v) && c.values_not_in.len() == 0
            ==> criterion_holds(c, p),
        0 <= k < c.values_not_in.len() && c.values_not_in[k] == plain_text(v) ==> !criterion_holds(c, p),
{
    if 0 <= k < c.values_in.len() && c.values_in[k] == plain_text(v) {
        assert(c.values_in.contains(plain_text(v)));
    }
    if 0 <= k < c.values_not_in.len() && c.values_not_in[k] == plain_text(v) {
        assert(c.values_not_in.contains(plain_text(v)));
    }
}

} // verus!
