//! Activity statistics of the watched repositories: the stars and pushes that
//! events report, and the weekly summary of the most active repositories.
use vstd::prelude::*;

use crate::event::{payload_get, Payload};
use crate::github::{is_private, repo_field, repository};
use crate::json::{as_str, as_u64, decimal, member_key, push_decimal, Json};
use crate::text::{chars_to_string, occurs_in, str_chars};

verus! {

/// The default of the privacy settings: private repositories are kept quiet.
pub fn default_privacy() -> (r: bool)
    ensures
        r,
{
    true
}

/// Whether statistics of private repositories are left out.
pub struct StatsConfig {
    dont_track_private_repos: bool,
}

impl StatsConfig {
    /// Whether statistics of private repositories are left out.
    pub closed spec fn suppresses(&self) -> bool {
        self.dont_track_private_repos
    }

    /// Whether statistics of private repositories are left out.
    pub fn suppress_private(&self) -> (r: bool)
        ensures
            r == self.suppresses(),
    {
        self.dont_track_private_repos
    }

    /// The settings as a statistics configuration gives them, where the
    /// setting may be absent: absent, private repositories are left out.
    pub fn from_setting(dont_track_private: Option<bool>) -> (c: StatsConfig)
        ensures
            c.suppresses() == match dont_track_private {
                Some(b) => b,
                None => true,
            },
    {
        match dont_track_private {
            Some(b) => StatsConfig::new(b),
            None => StatsConfig::new(default_privacy()),
        }
    }

    /// The settings that leave private repositories out, or not.
    pub fn new(dont_track_private: bool) -> (c: StatsConfig)
        ensures
            c.suppresses() == dont_track_private,
    {
        StatsConfig { dont_track_private_repos: dont_track_private }
    }
}

/// The statistics of one repository: its star count and the pushes counted.
#[derive(PartialEq, Eq, Structural, Debug, Clone, Copy)]
pub struct GithubRepoStats {
    pub stars: u64,
    pub pushes: u64,
}

impl GithubRepoStats {
    /// No stars, no pushes.
    pub fn new() -> (s: GithubRepoStats)
        ensures
            s == (GithubRepoStats { stars: 0, pushes: 0 }),
    {
        GithubRepoStats { stars: 0, pushes: 0 }
    }

    /// Takes the star count of `stats` and adds its pushes.
    pub fn update(&mut self, stats: GithubRepoStats)
        requires
            old(self).pushes + stats.pushes <= u64::MAX,
        ensures
            final(self).stars == stats.stars,
            final(self).pushes == old(self).pushes + stats.pushes,
    {
        self.stars = stats.stars;
        self.pushes = self.pushes + stats.pushes;
    }

    /// No stars, no pushes.
    pub fn clear(&mut self)
        ensures
            final(self).stars == 0,
            final(self).pushes == 0,
    {
        self.pushes = 0;
        self.stars = 0;
    }
}

/// The statistics of every repository, by name, in the order first seen.
pub struct GithubStats {
    pub repos: Vec<(String, GithubRepoStats)>,
}

/// A repository's name and statistics.
pub type RepoEntry = (Seq<char>, GithubRepoStats);

/// The statistics as names and values.
pub open spec fn stats_view(s: GithubStats) -> Seq<RepoEntry> {
    s.repos@.map_values(|e: (String, GithubRepoStats)| (e.0@, e.1))
}

/// Whether no name occurs twice.
pub open spec fn names_unique(s: Seq<RepoEntry>) -> bool {
    forall|i: int, j: int| 0 <= i < j < s.len() ==> #[trigger] s[i].0 != #[trigger] s[j].0
}

/// The index of the entry named `name`, or -1.
pub open spec fn index_of_name(s: Seq<RepoEntry>, name: Seq<char>) -> int
    decreases s.len(),
{
    if s.len() == 0 {
        -1
    } else if s.last().0 == name {
        s.len() - 1
    } else {
        index_of_name(s.drop_last(), name)
    }
}

/// The name under which an event's repository is counted: its name, with
/// `_private` added for a private repository.
pub open spec fn stats_name(n: Seq<char>, p: Payload) -> Seq<char> {
    if is_private(p) {
        n + "_private"@
    } else {
        n
    }
}

/// The statistics after counting an event: nothing changes when the repository
/// has no name; otherwise its entry (made when missing) takes the reported star
/// count and one more push when the event is a push (has a `pusher`).
pub open spec fn collected(s: Seq<RepoEntry>, p: Payload) -> Seq<RepoEntry> {
    match as_str(repo_field(p, "name"@)) {
        None => s,
        Some(n) => {
            let name = stats_name(n, p);
            let stars = as_u64(repo_field(p, "stargazers_count"@))->Some_0;
            let push: u64 = if payload_get(p, "pusher"@) is Some {
                1
            } else {
                0
            };
            let i = index_of_name(s, name);
            if i < 0 {
                s.push((name, GithubRepoStats { stars, pushes: push }))
            } else {
                s.update(i, (name, GithubRepoStats { stars, pushes: (s[i].1.pushes + push) as u64 }))
            }
        },
    }
}

/// Whether an event can be counted: it has a repository whose star count is a
/// non-negative integer when it has a name, and the push count of its entry
/// can grow.
pub open spec fn collectable(s: Seq<RepoEntry>, p: Payload) -> bool {
    &&& payload_get(p, "repository"@) is Some
    &&& match as_str(repo_field(p, "name"@)) {
        None => true,
        Some(n) => {
            &&& as_u64(repo_field(p, "stargazers_count"@)) is Some
            &&& index_of_name(s, stats_name(n, p)) >= 0 ==> s[index_of_name(
                s,
                stats_name(n, p),
            )].1.pushes < u64::MAX
        },
    }
}

proof fn lemma_index_of_name(s: Seq<RepoEntry>, name: Seq<char>)
    ensures
        -1 <= index_of_name(s, name) < s.len(),
        index_of_name(s, name) >= 0 ==> s[index_of_name(s, name)].0 == name,
        index_of_name(s, name) < 0 ==> forall|k: int| 0 <= k < s.len() ==> #[trigger] s[k].0 != name,
        names_unique(s) ==> forall|k: int|
            0 <= k < s.len() && #[trigger] s[k].0 == name ==> k == index_of_name(s, name),
    decreases s.len(),
{
    if s.len() > 0 {
        lemma_index_of_name(s.drop_last(), name);
        let u = s.drop_last();
        if s.last().0 != name {
            assert forall|k: int| 0 <= k < s.len() - 1 implies #[trigger] s[k] == u[k] by {}
        }
        if names_unique(s) {
            assert(names_unique(u)) by {
                assert forall|i: int, j: int| 0 <= i < j < u.len() implies #[trigger] u[i].0
                    != #[trigger] u[j].0 by {
                    assert(u[i] == s[i] && u[j] == s[j]);
                }
            }
        }
    }
}

fn find_name(repos: &Vec<(String, GithubRepoStats)>, name: &[char]) -> (r: Option<usize>)
    ensures
        match r {
            Some(i) => i as int == index_of_name(
                repos@.map_values(|e: (String, GithubRepoStats)| (e.0@, e.1)),
                name@,
            ),
            None => index_of_name(repos@.map_values(|e: (String, GithubRepoStats)| (e.0@, e.1)), name@)
                < 0,
        },
{
    let ghost s = repos@.map_values(|e: (String, GithubRepoStats)| (e.0@, e.1));
    proof {
        lemma_index_of_name(s, name@);
    }
    let mut i: usize = repos.len();
    assert(s.take(s.len() as int) =~= s);
    while i > 0
        invariant
            0 <= i <= repos.len(),
            s == repos@.map_values(|e: (String, GithubRepoStats)| (e.0@, e.1)),
            index_of_name(s, name@) == index_of_name(s.take(i as int), name@),
        decreases i,
    {
        let k = str_chars(repos[i - 1].0.as_str());
        assert(s.take(i as int).drop_last() =~= s.take(i - 1));
        if crate::text::chars_eq(&k, name) {
            return Some(i - 1);
        }
        i = i - 1;
    }
    None
}

impl GithubStats {
    /// No repositories.
    pub fn new() -> (s: GithubStats)
        ensures
            stats_view(s) == Seq::<RepoEntry>::empty(),
            names_unique(stats_view(s)),
    {
        let s = GithubStats { repos: Vec::new() };
        assert(stats_view(s) =~= Seq::<RepoEntry>::empty());
        s
    }

    /// The name under which an event is counted, if its repository has a name.
    fn event_name(data: &Payload) -> (r: Option<Vec<char>>)
        requires
            payload_get(*data, "repository"@) is Some,
        ensures
            match as_str(repo_field(*data, "name"@)) {
                Some(n) => r matches Some(x) && x@ == stats_name(n, *data),
                None => r is None,
            },
    {
        let repo = match crate::json::member_of(&data.entries, &str_chars("repository")) {
            Some(v) => v,
            None => {
                return None;
            },
        };
        let mut name = match member_key(repo, &str_chars("name")) {
            Some(Json::Str(s)) => str_chars(s.as_str()),
            _ => {
                return None;
            },
        };
        let private = match member_key(repo, &str_chars("private")) {
            Some(Json::Bool(b)) => *b,
            _ => false,
        };
        if private {
            let suffix = str_chars("_private");
            let mut i: usize = 0;
            let ghost n0 = name@;
            while i < suffix.len()
                invariant
                    0 <= i <= suffix.len(),
                    name@ == n0 + suffix@.subrange(0, i as int),
                decreases suffix.len() - i,
            {
                name.push(suffix[i]);
                i = i + 1;
                assert(name@ =~= n0 + suffix@.subrange(0, i as int));
            }
            assert(suffix@.subrange(0, suffix.len() as int) =~= suffix@);
        }
        Some(name)
    }

    /// Whether an event can be counted (see `collectable`).
    pub fn can_collect(&self, data: &Payload) -> (r: bool)
        ensures
            r == collectable(stats_view(*self), *data),
    {
        if crate::json::member_of(&data.entries, &str_chars("repository")).is_none() {
            return false;
        }
        let name = match GithubStats::event_name(data) {
            Some(n) => n,
            None => {
                return true;
            },
        };
        let repo = crate::json::member_of(&data.entries, &str_chars("repository"));
        match repo {
            Some(r) => match member_key(r, &str_chars("stargazers_count")) {
                Some(Json::Number(crate::json::JsonNumber::PosInt(_))) => {},
                _ => {
                    return false;
                },
            },
            None => {
                return false;
            },
        }
        let ghost s = stats_view(*self);
        proof {
            lemma_index_of_name(s, name@);
        }
        match find_name(&self.repos, &name) {
            Some(i) => self.repos[i].1.pushes < u64::MAX,
            None => true,
        }
    }

    /// Counts an event (see `collected`); whether it was counted, which it is
    /// exactly when its repository has a name.
    pub fn collect(&mut self, data: &Payload) -> (counted: bool)
        requires
            collectable(stats_view(*old(self)), *data),
        ensures
            stats_view(*final(self)) == collected(stats_view(*old(self)), *data),
            counted == as_str(repo_field(*data, "name"@)) is Some,
            !counted ==> stats_view(*final(self)) == stats_view(*old(self)),
            names_unique(stats_view(*old(self))) ==> names_unique(stats_view(*final(self))),
    {
        proof {
            if names_unique(stats_view(*self)) {
                lemma_collect_keeps_names_unique(stats_view(*self), *data);
            }
        }
        let name = match GithubStats::event_name(data) {
            Some(n) => n,
            None => {
                return false;
            },
        };
        let repo = crate::json::member_of(&data.entries, &str_chars("repository"));
        let stars = match repo {
            Some(r) => match member_key(r, &str_chars("stargazers_count")) {
                Some(Json::Number(crate::json::JsonNumber::PosInt(n))) => *n,
                _ => {
                    return false;
                },
            },
            None => {
                return false;
            },
        };
        let push: u64 = if crate::json::member_of(&data.entries, &str_chars("pusher")).is_some() {
            1
        } else {
            0
        };
        let ghost s = stats_view(*self);
        let found = find_name(&self.repos, &name);
        proof {
            lemma_index_of_name(s, name@);
        }
        match found {
            Some(i) => {
                let mut entry = self.repos[i].1;
                entry.update(GithubRepoStats { stars, pushes: push });
                let key = chars_to_string(&name);
                self.repos.set(i, (key, entry));
                assert(stats_view(*self) =~= s.update(
                    i as int,
                    (name@, GithubRepoStats { stars, pushes: (s[i as int].1.pushes + push) as u64 }),
                ));
            },
            None => {
                let mut entry = GithubRepoStats::new();
                entry.update(GithubRepoStats { stars, pushes: push });
                let key = chars_to_string(&name);
                self.repos.push((key, entry));
                assert(stats_view(*self) =~= s.push(
                    (name@, GithubRepoStats { stars, pushes: push }),
                ));
            },
        }
        true
    }
}

/// Counting an event keeps every name unique.
pub proof fn lemma_collect_keeps_names_unique(s: Seq<RepoEntry>, p: Payload)
    requires
        names_unique(s),
        collectable(s, p),
    ensures
        names_unique(collected(s, p)),
{
    match as_str(repo_field(p, "name"@)) {
        None => {},
        Some(n) => {
            let name = stats_name(n, p);
            lemma_index_of_name(s, name);
            let t = collected(s, p);
            assert forall|i: int, j: int| 0 <= i < j < t.len() implies #[trigger] t[i].0
                != #[trigger] t[j].0 by {
                if index_of_name(s, name) < 0 {
                    if j == s.len() {
                        assert(s[i].0 != name);
                    } else {
                        assert(t[i] == s[i] && t[j] == s[j]);
                    }
                } else {
                    let k = index_of_name(s, name);
                    if i == k {
                        assert(s[j].0 != s[k].0);
                    } else if j == k {
                        assert(s[i].0 != s[k].0);
                    } else {
                        assert(t[i] == s[i] && t[j] == s[j]);
                    }
                }
            }
        },
    }
}

/// Whether an entry is left out of the weekly summary: its name mentions
/// `private` and private repositories are kept quiet.
pub open spec fn kept_quiet(e: RepoEntry) -> bool {
    occurs_in(e.0, "private"@) && crate::DONT_MESSAGE_ON_PRIVATE_REPOS
}

/// The entries shown in the weekly summary, in order.
pub open spec fn public_entries(s: Seq<RepoEntry>) -> Seq<RepoEntry> {
    s.filter(|e: RepoEntry| !kept_quiet(e))
}

/// Where an entry with `pushes` pushes goes in a list ordered by pushes, most
/// first: after every entry with at least as many.
pub open spec fn insert_pos(s: Seq<RepoEntry>, pushes: u64) -> int
    decreases s.len(),
{
    if s.len() == 0 {
        0
    } else if s[0].1.pushes < pushes {
        0
    } else {
        1 + insert_pos(s.drop_first(), pushes)
    }
}

/// The entries ordered by pushes, most first; entries with as many pushes keep
/// their order (a stable sort).
pub open spec fn by_pushes(s: Seq<RepoEntry>) -> Seq<RepoEntry>
    decreases s.len(),
{
    if s.len() == 0 {
        s
    } else {
        let t = by_pushes(s.drop_last());
        t.insert(insert_pos(t, s.last().1.pushes), s.last())
    }
}

/// The line of the weekly summary for one repository.
pub open spec fn summary_line(e: RepoEntry) -> Seq<char> {
    "    "@ + e.0 + " | "@ + decimal(e.1.pushes as nat) + " pushes | "@ + decimal(e.1.stars as nat)
        + " stars\n"@
}

/// The lines for the first `n` entries.
pub open spec fn summary_lines(s: Seq<RepoEntry>, n: int) -> Seq<char>
    decreases n,
{
    if n <= 0 {
        Seq::empty()
    } else {
        summary_lines(s, n - 1) + summary_line(s[n - 1])
    }
}

/// What the weekly summary does.
pub enum Summary {
    /// Nothing to report at all: stop watching.
    Stop,
    /// No pushes this week: say nothing.
    Skip,
    /// Post this message.
    Post(String),
}

/// The view of a summary.
pub enum SummaryView {
    Stop,
    Skip,
    Post(Seq<char>),
}

/// The weekly summary: stop when no repository is shown; say nothing when the
/// most pushed one has no push; else list the (at most) three most pushed.
pub open spec fn weekly_summary(s: Seq<RepoEntry>) -> SummaryView {
    let ranked = by_pushes(public_entries(s));
    if ranked.len() == 0 {
        SummaryView::Stop
    } else if ranked[0].1.pushes == 0 {
        SummaryView::Skip
    } else {
        SummaryView::Post(
            "Top activity this week :bar_chart:\n"@ + summary_lines(
                ranked,
                if ranked.len() < 3 {
                    ranked.len() as int
                } else {
                    3
                },
            ),
        )
    }
}

fn push_str(out: &mut Vec<char>, s: &str)
    ensures
        final(out)@ == old(out)@ + s@,
{
    let cs = str_chars(s);
    push_chars(out, &cs);
}

fn push_chars(out: &mut Vec<char>, cs: &[char])
    ensures
        final(out)@ == old(out)@ + cs@,
{
    let mut i: usize = 0;
    while i < cs.len()
        invariant
            0 <= i <= cs.len(),
            out@ == old(out)@ + cs@.subrange(0, i as int),
        decreases cs.len() - i,
    {
        out.push(cs[i]);
        i = i + 1;
        assert(out@ =~= old(out)@ + cs@.subrange(0, i as int));
    }
    assert(cs@.subrange(0, cs.len() as int) =~= cs@);
}

proof fn lemma_filter_step(s: Seq<RepoEntry>, i: int)
    requires
        0 <= i < s.len(),
    ensures
        public_entries(s.take(i + 1)) == if kept_quiet(s[i]) {
            public_entries(s.take(i))
        } else {
            public_entries(s.take(i)).push(s[i])
        },
{
    reveal_with_fuel(Seq::<_>::filter, 1);
    assert(s.take(i + 1).drop_last() =~= s.take(i));
}

/// Whether the entries are ordered by pushes, most first.
pub open spec fn most_pushed_first(s: Seq<RepoEntry>) -> bool {
    forall|i: int, j: int| 0 <= i < j < s.len() ==> #[trigger] s[i].1.pushes >= #[trigger] s[j].1.pushes
}

proof fn lemma_insert_pos(t: Seq<RepoEntry>, p: u64)
    ensures
        0 <= insert_pos(t, p) <= t.len(),
        forall|i: int| 0 <= i < insert_pos(t, p) ==> #[trigger] t[i].1.pushes >= p,
        insert_pos(t, p) < t.len() ==> t[insert_pos(t, p)].1.pushes < p,
    decreases t.len(),
{
    if t.len() > 0 && t[0].1.pushes >= p {
        let u = t.drop_first();
        lemma_insert_pos(u, p);
        assert forall|i: int| 0 <= i < insert_pos(t, p) implies #[trigger] t[i].1.pushes >= p by {
            if i > 0 {
                assert(t[i] == u[i - 1]);
            }
        }
        if insert_pos(t, p) < t.len() {
            assert(t[insert_pos(t, p)] == u[insert_pos(u, p)]);
        }
    }
}

/// Ranking by pushes keeps the entries, and puts the most pushed first.
pub proof fn lemma_by_pushes(s: Seq<RepoEntry>)
    ensures
        by_pushes(s).len() == s.len(),
        most_pushed_first(by_pushes(s)),
        forall|k: int| 0 <= k < s.len() ==> s.contains(#[trigger] by_pushes(s)[k]),
    decreases s.len(),
{
    if s.len() > 0 {
        let u = s.drop_last();
        let t = by_pushes(u);
        let x = s.last();
        let p = x.1.pushes;
        lemma_by_pushes(u);
        lemma_insert_pos(t, p);
        let pos = insert_pos(t, p);
        t.insert_ensures(pos, x);
        let r = t.insert(pos, x);
        assert(r == by_pushes(s));
        assert forall|i: int, j: int| 0 <= i < j < r.len() implies #[trigger] r[i].1.pushes
            >= #[trigger] r[j].1.pushes by {
            if j < pos {
                assert(r[i] == t[i] && r[j] == t[j]);
            } else if j == pos {
                assert(r[i] == t[i]);
            } else if i < pos {
                assert(r[i] == t[i] && r[j] == t[j - 1]);
                assert(t[i].1.pushes >= t[j - 1].1.pushes);
            } else if i == pos {
                assert(r[j] == t[j - 1]);
                assert(t[pos].1.pushes >= t[j - 1].1.pushes);
            } else {
                assert(r[i] == t[i - 1] && r[j] == t[j - 1]);
                assert(t[i - 1].1.pushes >= t[j - 1].1.pushes);
            }
        }
        assert forall|k: int| 0 <= k < s.len() implies s.contains(#[trigger] r[k]) by {
            if k == pos {
                assert(s[s.len() - 1] == r[k]);
            } else {
                let k2 = if k < pos {
                    k
                } else {
                    k - 1
                };
                assert(r[k] == t[k2]);
                assert(u.contains(t[k2]));
                let w = choose|w: int| 0 <= w < u.len() && u[w] == t[k2];
                assert(s[w] == u[w]);
            }
        }
    }
}

/// The weekly summary ranks the entries that are not kept quiet, every one of
/// them, most pushed first.
pub proof fn lemma_summary_ranking(s: Seq<RepoEntry>)
    ensures
        by_pushes(public_entries(s)).len() == public_entries(s).len(),
        most_pushed_first(by_pushes(public_entries(s))),
        forall|k: int|
            0 <= k < by_pushes(public_entries(s)).len() ==> s.contains(
                #[trigger] by_pushes(public_entries(s))[k],
            ) && !kept_quiet(by_pushes(public_entries(s))[k]),
{
    let pe = public_entries(s);
    lemma_by_pushes(pe);
    assert forall|k: int| 0 <= k < by_pushes(pe).len() implies s.contains(#[trigger] by_pushes(pe)[k])
        && !kept_quiet(by_pushes(pe)[k]) by {
        let e = by_pushes(pe)[k];
        assert(pe.contains(e));
        let w = choose|w: int| 0 <= w < pe.len() && pe[w] == e;
        s.lemma_filter_contains_rev(|x: RepoEntry| !kept_quiet(x), e);
        s.lemma_filter_pred(|x: RepoEntry| !kept_quiet(x), w);
    }
}

/// The weekly summary of the statistics.
pub fn summarise(stats: &GithubStats) -> (r: Summary)
    ensures
        match r {
            Summary::Stop => weekly_summary(stats_view(*stats)) == SummaryView::Stop,
            Summary::Skip => weekly_summary(stats_view(*stats)) == SummaryView::Skip,
            Summary::Post(m) => weekly_summary(stats_view(*stats)) == SummaryView::Post(m@),
        },
{
    let ghost s = stats_view(*stats);
    let mut ranked: Vec<(String, GithubRepoStats)> = Vec::new();
    let mut i: usize = 0;
    assert(s.take(0) =~= Seq::<RepoEntry>::empty());
    assert(by_pushes(public_entries(Seq::<RepoEntry>::empty())) =~= Seq::<RepoEntry>::empty()) by {
        reveal_with_fuel(Seq::<_>::filter, 1);
    }
    while i < stats.repos.len()
        invariant
            0 <= i <= stats.repos.len(),
            s == stats_view(*stats),
            ranked@.map_values(|e: (String, GithubRepoStats)| (e.0@, e.1)) == by_pushes(
                public_entries(s.take(i as int)),
            ),
        decreases stats.repos.len() - i,
    {
        let ghost before = ranked@.map_values(|e: (String, GithubRepoStats)| (e.0@, e.1));
        proof {
            lemma_filter_step(s, i as int);
        }
        let name = str_chars(stats.repos[i].0.as_str());
        let quiet = crate::text::occurs_in_chars(&name, &str_chars("private"))
            && crate::DONT_MESSAGE_ON_PRIVATE_REPOS;
        assert(quiet == kept_quiet(s[i as int]));
        if !quiet {
            let p = stats.repos[i].1.pushes;
            let mut k: usize = 0;
            proof {
                lemma_insert_pos(before, p);
                assert(before.skip(0) =~= before);
            }
            while k < ranked.len() && ranked[k].1.pushes >= p
                invariant
                    0 <= k <= ranked.len(),
                    before == ranked@.map_values(|e: (String, GithubRepoStats)| (e.0@, e.1)),
                    insert_pos(before, p) == k + insert_pos(before.skip(k as int), p),
                decreases ranked.len() - k,
            {
                assert(before.skip(k as int).drop_first() =~= before.skip(k + 1));
                k = k + 1;
            }
            proof {
                if k < ranked.len() {
                    assert(before.skip(k as int)[0] == before[k as int]);
                }
                assert(insert_pos(before.skip(k as int), p) == 0);
            }
            let entry = (stats.repos[i].0.clone(), stats.repos[i].1);
            ranked.insert(k, entry);
            proof {
                let pe = public_entries(s.take(i + 1));
                assert(pe.drop_last() == public_entries(s.take(i as int)));
                assert(pe.last() == s[i as int]);
                assert(ranked@.map_values(|e: (String, GithubRepoStats)| (e.0@, e.1)) =~= before.insert(
                    k as int,
                    s[i as int],
                ));
            }
        }
        i = i + 1;
    }
    assert(s.take(stats.repos.len() as int) =~= s);
    let ghost ranked_view = ranked@.map_values(|e: (String, GithubRepoStats)| (e.0@, e.1));
    if ranked.len() == 0 {
        return Summary::Stop;
    }
    if ranked[0].1.pushes == 0 {
        return Summary::Skip;
    }
    let mut msg: Vec<char> = Vec::new();
    push_str(&mut msg, "Top activity this week :bar_chart:\n");
    let n: usize = if ranked.len() < 3 {
        ranked.len()
    } else {
        3
    };
    let ghost head = msg@;
    let mut j: usize = 0;
    while j < n
        invariant
            0 <= j <= n <= ranked.len(),
            n == (if ranked.len() < 3 { ranked.len() } else { 3 }),
            ranked_view == ranked@.map_values(|e: (String, GithubRepoStats)| (e.0@, e.1)),
            msg@ == head + summary_lines(ranked_view, j as int),
        decreases n - j,
    {
        let ghost before = msg@;
        push_str(&mut msg, "    ");
        let name = str_chars(ranked[j].0.as_str());
        push_chars(&mut msg, &name);
        push_str(&mut msg, " | ");
        push_decimal(&mut msg, ranked[j].1.pushes);
        push_str(&mut msg, " pushes | ");
        push_decimal(&mut msg, ranked[j].1.stars);
        push_str(&mut msg, " stars\n");
        assert(msg@ =~= before + summary_line(ranked_view[j as int]));
        j = j + 1;
    }
    Summary::Post(chars_to_string(&msg))
}

/// Whether the weekly summary is due: it is Friday and the last summary went
/// out more than a day ago.
pub fn weekly_post_due(friday: bool, secs_since_last: u64) -> (r: bool)
    ensures
        r == (friday && secs_since_last > 24 * 60 * 60),
{
    friday && secs_since_last > 24 * 60 * 60
}

/// The state that the server shares between requests.
pub struct AppState {
    github_stats: GithubStats,
}

impl AppState {
    /// The state holding `s`.
    pub fn new(s: GithubStats) -> (a: AppState)
        ensures
            stats_view(a.stats()) == stats_view(s),
    {
        AppState { github_stats: s }
    }

    /// The statistics held.
    pub closed spec fn stats(&self) -> GithubStats {
        self.github_stats
    }

    /// The statistics held, to read or change.
    pub fn get_github_stats(&mut self) -> (r: &mut GithubStats)
        ensures
            *r == old(self).stats(),
            final(self).stats() == *final(r),
    {
        &mut self.github_stats
    }
}

/// Counting an event whose repository has a name records, in the single entry
/// of that name, the star count the event reports and one more push when it
/// is a push; every entry of another name is left as it was.
pub proof fn lemma_collect_records_latest(s: Seq<RepoEntry>, p: Payload)
    requires
        names_unique(s),
        collectable(s, p),
        as_str(repo_field(p, "name"@)) is Some,
    ensures
        ({
            let name = stats_name(as_str(repo_field(p, "name"@))->Some_0, p);
            let t = collected(s, p);
            let j = index_of_name(t, name);
            let before = index_of_name(s, name);
            let push: int = if payload_get(p, "pusher"@) is Some {
                1
            } else {
                0
            };
            &&& 0 <= j < t.len()
            &&& t[j].0 == name
            &&& forall|k: int| 0 <= k < t.len() && #[trigger] t[k].0 == name ==> k == j
            &&& t[j].1.stars == as_u64(repo_field(p, "stargazers_count"@))->Some_0
            &&& t[j].1.pushes == (if before >= 0 {
                s[before].1.pushes as int
            } else {
                0
            }) + push
            &&& t.len() == s.len() + (if before >= 0 {
                0int
            } else {
                1
            })
            &&& forall|k: int| 0 <= k < s.len() && s[k].0 != name ==> #[trigger] t[k] == s[k]
        }),
{
    let name = stats_name(as_str(repo_field(p, "name"@))->Some_0, p);
    let t = collected(s, p);
    lemma_index_of_name(s, name);
    lemma_collect_keeps_names_unique(s, p);
    lemma_index_of_name(t, name);
    let before = index_of_name(s, name);
    let i = if before >= 0 {
        before
    } else {
        s.len() as int
    };
    assert(t[i].0 == name);
}

/// A posted weekly summary lists exactly the (at most) three most pushed public
/// repositories, one line each, after its heading: one line for one ranked
/// repository, two for two, and three for three or more.
pub proof fn lemma_summary_lists_top_three(s: Seq<RepoEntry>)
    ensures
        ({
            let r = by_pushes(public_entries(s));
            let h = "Top activity this week :bar_chart:\n"@;
            &&& (weekly_summary(s) is Post <==> r.len() > 0 && r[0].1.pushes > 0)
            &&& (weekly_summary(s) is Stop <==> r.len() == 0)
            &&& weekly_summary(s) is Post && r.len() == 1 ==> weekly_summary(s)->Post_0 == h
                + summary_line(r[0])
            &&& weekly_summary(s) is Post && r.len() == 2 ==> weekly_summary(s)->Post_0 == h
                + summary_line(r[0]) + summary_line(r[1])
            &&& weekly_summary(s) is Post && r.len() >= 3 ==> weekly_summary(s)->Post_0 == h
                + summary_line(r[0]) + summary_line(r[1]) + summary_line(r[2])
        }),
{
    let r = by_pushes(public_entries(s));
    reveal_with_fuel(summary_lines, 4);
    let l0 = summary_line(r[0]);
    let l1 = summary_line(r[1]);
    let l2 = summary_line(r[2]);
    assert(summary_lines(r, 1) =~= l0);
    assert(summary_lines(r, 2) =~= l0 + l1);
    assert(summary_lines(r, 3) =~= l0 + l1 + l2);
    let h = "Top activity this week :bar_chart:\n"@;
    assert(h + (l0 + l1) =~= h + l0 + l1);
    assert(h + (l0 + l1 + l2) =~= h + l0 + l1 + l2);
}

} // verus!
