use coral::info_text::{database_stats, info_page_of, leaderboard_text, page_fresh, tagger_period, InfoPage, TaggerPeriod};

#[test]
fn leaderboard_lines_are_ranked() {
    let rows = vec![(11, 1234, "alice".to_string()), (22, 7, "bob".to_string())];
    assert_eq!(
        leaderboard_text(&rows),
        "1. **1,234** \u{2014} <@11> `alice`\n2. **7** \u{2014} <@22> `bob`"
    );
}

#[test]
fn empty_leaderboard() {
    assert_eq!(leaderboard_text(&vec![]), "-# No data yet");
}

#[test]
fn negative_counts_wrap_like_a_cast() {
    let rows = vec![(-5, -1, "x".to_string())];
    assert_eq!(leaderboard_text(&rows), "1. **18,446,744,073,709,551,615** \u{2014} <@-5> `x`");
}

#[test]
fn navigation_picks_the_page() {
    assert_eq!(info_page_of("info_page:leaderboards"), InfoPage::Leaderboards);
    assert_eq!(info_page_of("info_page:statistics"), InfoPage::Statistics);
    assert_eq!(info_page_of("leaderboards"), InfoPage::Statistics);
}

#[test]
fn selection_picks_the_period() {
    assert_eq!(tagger_period(Some("monthly")), TaggerPeriod::Monthly);
    assert_eq!(tagger_period(Some("weekly")), TaggerPeriod::Weekly);
    assert_eq!(tagger_period(Some("all")), TaggerPeriod::AllTime);
    assert_eq!(tagger_period(None), TaggerPeriod::AllTime);
}

#[test]
fn built_pages_are_reused_for_five_minutes() {
    assert!(page_fresh(1_000, 1_000));
    assert!(page_fresh(1_000, 300_999));
    assert!(!page_fresh(1_000, 301_000));
    assert!(page_fresh(5_000, 0));
}

#[test]
fn database_statistics_blocks() {
    let breakdown = vec![
        ("blatant_cheater".to_string(), 1500, "<:b:1>".to_string()),
        ("sniper".to_string(), 2, "".to_string()),
    ];
    let (m, b, c) = database_stats(12, 3456789, 40, 41, &breakdown, 1000000, 7);
    assert_eq!(m, "### Members\n**12** registered \u{b7} **3,456,789** lifetime requests");
    assert_eq!(b, "### Blacklist\n**40** players \u{b7} **41** active tags\n<:b:1> **1,500** blatant cheater\n **2** sniper");
    assert_eq!(c, "### Cache\n**1,000,000** snapshots \u{b7} **7** players \u{74}racked");
}

#[test]
fn empty_tag_breakdown() {
    let (_, b, _) = database_stats(0, 0, 0, 0, &vec![], 0, 0);
    assert_eq!(b, "### Blacklist\n**0** players \u{b7} **0** active tags\nNo tags yet");
}
