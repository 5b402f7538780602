use coral::rate_limit::{
    budget_name, key, recorded_entries, scan_pattern, tag_limit_for_access, tag_limit_name, tag_limit_precheck,
    verdict, RateLimitResult,
};

#[test]
fn key_applies_shared_prefix() {
    assert_eq!(key("sf:12345"), "ratelimit:sf:12345");
    assert_eq!(key("sfuuids:12345"), "ratelimit:sfuuids:12345");
}

#[test]
fn tag_limit_tiers_by_access_level() {
    assert_eq!(tag_limit_for_access(0), 10);
    assert_eq!(tag_limit_for_access(1), 15);
    assert_eq!(tag_limit_for_access(2), 30);
    assert_eq!(tag_limit_for_access(3), 60);
    assert_eq!(tag_limit_for_access(4), 60);
    assert_eq!(tag_limit_for_access(5), 0);
    assert_eq!(tag_limit_for_access(10), 0);
}

#[test]
fn negative_access_levels_get_the_default_tier() {
    assert_eq!(tag_limit_for_access(-1), 10);
    assert_eq!(tag_limit_for_access(i16::MIN), 10);
}

#[test]
fn verdict_counts_this_request() {
    assert!(matches!(verdict(10, 10), RateLimitResult::Allowed { remaining: 0 }));
    assert!(matches!(verdict(3, 10), RateLimitResult::Allowed { remaining: 7 }));
    assert!(matches!(verdict(11, 10), RateLimitResult::Exceeded));
}

#[test]
fn unlimited_ranks_skip_the_window() {
    assert!(matches!(tag_limit_precheck(5), Some(RateLimitResult::Allowed { remaining: i64::MAX })));
    assert!(tag_limit_precheck(4).is_none());
}

#[test]
fn window_names() {
    assert_eq!(tag_limit_name(42), "tag:42");
    assert_eq!(tag_limit_name(-7), "tag:-7");
    assert_eq!(budget_name("ratelimit:sf:1"), "sf:1");
    assert_eq!(budget_name("other:sf:1"), "other:sf:1");
    assert_eq!(scan_pattern("sf:"), "ratelimit:sf:*");
    assert_eq!(recorded_entries(0), 1);
    assert_eq!(recorded_entries(-3), 1);
    assert_eq!(recorded_entries(4), 4);
}

#[test]
fn window_entries_carry_the_time_and_a_fresh_id() {
    let a = coral::rate_limit::window_entry(1700000000);
    let b = coral::rate_limit::window_entry(1700000000);
    assert!(a.starts_with("1700000000:"));
    assert_eq!(a.len(), "1700000000:".len() + 36);
    assert_ne!(a, b);
    let c = coral::rate_limit::window_entry(-3);
    assert!(c.starts_with("-3:"));
}

#[test]
fn tag_submissions_use_the_tag_window() {
    use_tag_request();
}

fn use_tag_request() {
    match coral::rate_limit::tag_limit_request(42, 0) {
        Ok((name, limit)) => {
            assert_eq!(name, "tag:42");
            assert_eq!(limit, 10);
        },
        Err(_) => panic!("level 0 is limited"),
    }
    assert!(matches!(
        coral::rate_limit::tag_limit_request(42, 5),
        Err(coral::rate_limit::RateLimitResult::Allowed { remaining: i64::MAX })
    ));
    assert_eq!(coral::rate_limit::window_cutoff(1000), 700);
}
