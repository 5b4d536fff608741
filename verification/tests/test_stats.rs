use pulse::event::Payload;
use pulse::json::{Json, JsonNumber};
use pulse::stats::{summarise, AppState, GithubRepoStats, GithubStats, StatsConfig, Summary};
use pulse::throttle::{IpAddress, IpThrottler};

fn s(x: &str) -> Json {
    Json::Str(x.to_string())
}

fn payload(name: &str, private: bool, stars: u64, pushed: bool) -> Payload {
    let repo = Json::Object(vec![
        ("name".to_string(), s(name)),
        ("private".to_string(), Json::Bool(private)),
        ("stargazers_count".to_string(), Json::Number(JsonNumber::PosInt(stars))),
    ]);
    let mut entries = vec![("repository".to_string(), repo)];
    if pushed {
        entries.push(("pusher".to_string(), Json::Object(vec![("name".to_string(), s("someone"))])));
    }
    Payload { entries }
}

fn entry(stats: &GithubStats, name: &str) -> Option<GithubRepoStats> {
    stats.repos.iter().find(|(n, _)| n == name).map(|(_, e)| *e)
}

#[test]
fn pushes_are_counted_and_stars_taken() {
    let mut stats = GithubStats::new();
    let p = payload("jGL", false, 5, true);
    assert!(stats.can_collect(&p));
    stats.collect(&p);
    stats.collect(&p);
    let star = payload("jGL", false, 6, false);
    stats.collect(&star);
    assert_eq!(stats.repos.len(), 1);
    assert_eq!(entry(&stats, "jGL"), Some(GithubRepoStats { stars: 6, pushes: 2 }));
}

#[test]
fn private_repositories_are_counted_apart() {
    let mut stats = GithubStats::new();
    stats.collect(&payload("secret", true, 1, true));
    stats.collect(&payload("secret", false, 2, true));
    assert_eq!(stats.repos.len(), 2);
    assert_eq!(entry(&stats, "secret_private"), Some(GithubRepoStats { stars: 1, pushes: 1 }));
    assert_eq!(entry(&stats, "secret"), Some(GithubRepoStats { stars: 2, pushes: 1 }));
}

#[test]
fn events_without_repository_are_not_counted() {
    let stats = GithubStats::new();
    assert!(!stats.can_collect(&Payload { entries: vec![] }));
    let no_stars = Payload {
        entries: vec![("repository".to_string(), Json::Object(vec![("name".to_string(), s("x"))]))],
    };
    assert!(!stats.can_collect(&no_stars));
}

#[test]
fn names_stay_unique() {
    let mut stats = GithubStats::new();
    for i in 0..10u64 {
        let name = if i % 3 == 0 { "a" } else if i % 3 == 1 { "b" } else { "c" };
        stats.collect(&payload(name, false, i, true));
    }
    let mut names: Vec<&String> = stats.repos.iter().map(|(n, _)| n).collect();
    names.sort();
    names.dedup();
    assert_eq!(names.len(), stats.repos.len());
    assert_eq!(entry(&stats, "a"), Some(GithubRepoStats { stars: 9, pushes: 4 }));
}

#[test]
fn weekly_summary_lists_the_most_pushed() {
    let mut stats = GithubStats::new();
    for (name, pushes) in [("a", 1u64), ("b", 3), ("c", 2), ("d", 3)] {
        for _ in 0..pushes {
            stats.collect(&payload(name, false, 7, true));
        }
    }
    stats.collect(&payload("hidden", true, 1, true));
    stats.collect(&payload("hidden", true, 1, true));
    stats.collect(&payload("hidden", true, 1, true));
    stats.collect(&payload("hidden", true, 1, true));
    match summarise(&stats) {
        Summary::Post(m) => assert_eq!(
            m,
            "Top activity this week :bar_chart:\n    b | 3 pushes | 7 stars\n    d | 3 pushes | 7 stars\n    c | 2 pushes | 7 stars\n"
        ),
        _ => panic!("expected a message"),
    }
}

#[test]
fn weekly_summary_without_pushes_says_nothing() {
    let mut stats = GithubStats::new();
    stats.collect(&payload("a", false, 7, false));
    assert!(matches!(summarise(&stats), Summary::Skip));
}

#[test]
fn weekly_summary_without_repositories_stops() {
    let mut stats = GithubStats::new();
    assert!(matches!(summarise(&stats), Summary::Stop));
    stats.collect(&payload("p", true, 1, true));
    assert!(matches!(summarise(&stats), Summary::Stop));
}

#[test]
fn repo_stats_update_and_clear() {
    let mut e = GithubRepoStats::new();
    e.update(GithubRepoStats { stars: 4, pushes: 2 });
    e.update(GithubRepoStats { stars: 3, pushes: 1 });
    assert_eq!(e, GithubRepoStats { stars: 3, pushes: 3 });
    e.clear();
    assert_eq!(e, GithubRepoStats { stars: 0, pushes: 0 });
}

#[test]
fn app_state_hands_out_its_stats() {
    let mut state = AppState::new(GithubStats::new());
    state.get_github_stats().collect(&payload("a", false, 1, true));
    assert_eq!(state.get_github_stats().repos.len(), 1);
    assert!(StatsConfig::new(true).suppress_private());
    assert!(!StatsConfig::new(false).suppress_private());
}

fn over_two(count: u32, _elapsed: u64) -> bool {
    count >= 2
}

#[test]
fn ipv6_is_always_limited() {
    let mut t = IpThrottler::new(1000);
    assert!(t.is_limited(IpAddress::V6, 0, over_two));
    assert!(t.is_limited(IpAddress::V6, 5000, |_, _| false));
}

#[test]
fn requests_over_the_rate_are_limited_until_the_timeout() {
    let mut t = IpThrottler::new(1000);
    let a = IpAddress::V4(0x7f000001);
    assert!(!t.is_limited(IpAddress::V4(0x7f000001), 0, over_two));
    assert!(!t.is_limited(IpAddress::V4(0x7f000001), 10, over_two));
    assert!(t.is_limited(IpAddress::V4(0x7f000001), 20, over_two));
    assert!(t.is_limited(IpAddress::V4(0x7f000001), 999, over_two));
    assert!(t.can_count(&a));
    // the timeout is over: a fresh window starts
    assert!(!t.is_limited(IpAddress::V4(0x7f000001), 1000, over_two));
    assert!(!t.is_limited(IpAddress::V4(0x7f000001), 1001, over_two));
    assert!(!t.is_limited(IpAddress::V4(0x7f000001), 1002, over_two));
    assert!(t.is_limited(IpAddress::V4(0x7f000001), 1003, over_two));
    // another address is counted apart
    assert!(!t.is_limited(IpAddress::V4(0x0a000001), 1003, over_two));
}

#[test]
fn windows_last_a_second() {
    let mut t = IpThrottler::new(1000);
    assert!(!t.is_limited(IpAddress::V4(1), 0, over_two));
    assert!(!t.is_limited(IpAddress::V4(1), 500, over_two));
    // the window is a second old: it starts afresh and the count goes back to 0
    assert!(!t.is_limited(IpAddress::V4(1), 1500, |c, _| c >= 3));
    assert!(!t.is_limited(IpAddress::V4(1), 1600, over_two));
    assert!(!t.is_limited(IpAddress::V4(1), 1700, over_two));
    assert!(t.is_limited(IpAddress::V4(1), 1800, over_two));
}

#[test]
fn weekly_summary_goes_out_on_fridays_once_a_day() {
    use_due();
}

fn use_due() {
    assert!(pulse::stats::weekly_post_due(true, 24 * 60 * 60 + 1));
    assert!(!pulse::stats::weekly_post_due(true, 24 * 60 * 60));
    assert!(!pulse::stats::weekly_post_due(false, 1_000_000));
}

#[test]
fn unnamed_repositories_are_not_counted() {
    let mut stats = GithubStats::new();
    let unnamed = Payload {
        entries: vec![(
            "repository".to_string(),
            Json::Object(vec![("stargazers_count".to_string(), Json::Number(JsonNumber::PosInt(1)))]),
        )],
    };
    assert!(stats.can_collect(&unnamed));
    assert!(!stats.collect(&unnamed));
    assert!(stats.repos.is_empty());
    assert!(stats.collect(&payload("a", false, 1, true)));
}

#[test]
fn stats_privacy_setting_defaults_to_suppressed() {
    assert!(StatsConfig::from_setting(None).suppress_private());
    assert!(!StatsConfig::from_setting(Some(false)).suppress_private());
    assert!(StatsConfig::from_setting(Some(true)).suppress_private());
}
