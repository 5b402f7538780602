use coral::session_state::{
    parse_marker_id, parse_mgmt_parts, period_switch, split_mode_value, view_after_deletion,
    view_after_renaming, initial_period, preferred_period, missing_period_notice, bookmark_outcome,
    BookmarkOutcome, BookmarkReply, session_failure_reply, SessionFailure,
};
use coral::stats_text::CardSwitch;

#[test]
fn bookmark_button_parts() {
    assert_eq!(
        parse_mgmt_parts("bw_sess_rename:k1:uuid:my:bookmark", "bw_sess_rename:"),
        Some(("k1".to_string(), "uuid".to_string(), "my:bookmark".to_string()))
    );
    assert_eq!(parse_mgmt_parts("bw_sess_rename:k1:uuid", "bw_sess_rename:"), None);
    assert_eq!(parse_mgmt_parts("other:k1:uuid:x", "bw_sess_rename:"), None);
    assert_eq!(parse_marker_id("42"), 42);
    assert_eq!(parse_marker_id("x"), 0);
}

#[test]
fn views_after_changes() {
    let periods = vec!["daily".to_string(), "weekly".to_string(), "monthly".to_string()];
    assert_eq!(view_after_deletion("marker:a", "marker:a", &periods, &vec![false, true, true]), "weekly");
    assert_eq!(view_after_deletion("marker:a", "marker:a", &periods, &vec![false, false, false]), "daily");
    assert_eq!(view_after_deletion("weekly", "marker:a", &periods, &vec![false, false, false]), "weekly");
    assert_eq!(view_after_renaming("marker:a", "marker:a", "marker:b", true), "marker:b");
    assert_eq!(view_after_renaming("marker:a", "marker:a", "marker:b", false), "marker:a");
    assert_eq!(view_after_renaming("daily", "marker:a", "marker:b", true), "daily");
}

#[test]
fn period_clicks() {
    assert_eq!(period_switch(true, 10, 1, 2, true), CardSwitch::Expired);
    assert_eq!(period_switch(true, 10, 1, 2, false), CardSwitch::Ephemeral);
    assert_eq!(period_switch(true, 10, 1, 1, true), CardSwitch::Update);
    assert_eq!(period_switch(true, 500, 1, 1, false), CardSwitch::Expired);
    assert_eq!(period_switch(false, 0, 1, 1, false), CardSwitch::Expired);
}

#[test]
fn mode_values() {
    assert_eq!(split_mode_value("solos:abc"), Some(("solos".to_string(), "abc".to_string())));
    assert_eq!(split_mode_value("solos"), None);
}

#[test]
fn sessions_open_on_the_first_period_with_history() {
    let periods = vec!["daily".to_string(), "weekly".to_string(), "monthly".to_string()];
    assert_eq!(initial_period(&periods, &vec![false, true, true]), "weekly");
    assert_eq!(initial_period(&periods, &vec![false, false, false]), "daily");
    assert_eq!(initial_period(&vec![], &vec![]), "daily");
}

#[test]
fn session_failure_replies() {
    assert_eq!(session_failure_reply(SessionFailure::PlayerNotFound, "xyz", ""), ("Player Not Found".to_string(), "Could not find player: xyz".to_string()));
    assert_eq!(session_failure_reply(SessionFailure::NoDuelsStats, "", "Steve").0, "Steve's Session Stats");
    assert_eq!(session_failure_reply(SessionFailure::NotLinked, "", "").1, "Link your account or provide a player name");
}

#[test]
fn preferred_periods_and_bookmarks() {
    let periods = vec!["daily".to_string(), "weekly".to_string()];
    let hp = vec![false, true];
    assert_eq!(preferred_period(Some("monthly"), true, Some("Jan 1, 2025"), true, &periods, &hp), "monthly");
    assert_eq!(preferred_period(Some("monthly"), false, Some("Jan 1, 2025"), true, &periods, &hp), "weekly");
    assert_eq!(preferred_period(None, false, Some("Jan 1, 2025"), true, &periods, &hp), "marker:Jan 1, 2025");
    assert_eq!(preferred_period(None, false, Some("Jan 1, 2025"), false, &periods, &hp), "weekly");
    assert_eq!(preferred_period(None, false, None, false, &periods, &vec![false, false]), "daily");
    assert_eq!(missing_period_notice("monthly", "weekly"), "-# No data for monthly, showing weekly session");
    match bookmark_outcome(false, true, "Jan 1, 2025", "daily", true) {
        BookmarkOutcome::Refused(m) => assert_eq!(m, "You can only create bookmarks for accounts linked to you."),
        _ => panic!("not refused"),
    }
    match bookmark_outcome(true, true, "Jan 1, 2025", "daily", true) {
        BookmarkOutcome::Made { key, current, reply } => {
            assert_eq!(key, "marker:Jan 1, 2025");
            assert_eq!(current, "marker:Jan 1, 2025");
            assert_eq!(reply, BookmarkReply::Update);
        },
        _ => panic!("not made"),
    }
    match bookmark_outcome(true, false, "Jan 1, 2025", "daily", true) {
        BookmarkOutcome::Made { current, reply, .. } => {
            assert_eq!(current, "daily");
            assert_eq!(reply, BookmarkReply::Created);
        },
        _ => panic!("not made"),
    }
}
