use coral::tag_history::{history_attribution, history_entry, history_order, reason_for_event, HistoryEvent};

fn ev(id: i64, is_set: bool, tag: &str, ts: i64, reason: Option<&str>) -> HistoryEvent {
    HistoryEvent {
        id,
        is_set,
        tag_type: Some(tag.to_string()),
        ts,
        reason: reason.map(|r| r.to_string()),
    }
}

#[test]
fn history_is_newest_first_then_highest_id() {
    let events = vec![
        ev(1, true, "sniper", 100, None),
        ev(2, false, "sniper", 300, None),
        ev(3, true, "blatant_cheater", 300, None),
        ev(4, true, "sniper", 200, None),
    ];
    assert_eq!(history_order(&events), vec![2, 1, 3, 0]);
}

#[test]
fn history_keeps_given_order_of_equal_events() {
    let events = vec![ev(5, true, "a", 10, None), ev(5, true, "b", 10, None), ev(5, true, "c", 10, None)];
    assert_eq!(history_order(&events), vec![0, 1, 2]);
    assert_eq!(history_order(&vec![]), Vec::<usize>::new());
}

#[test]
fn set_events_show_their_own_reason() {
    let events = vec![ev(1, true, "sniper", 100, Some("caught *sniping*"))];
    assert_eq!(reason_for_event(&events, 0), "caught \\*sniping\\*");
}

#[test]
fn clear_events_show_the_latest_earlier_set_reason() {
    let events = vec![
        ev(1, true, "sniper", 100, Some("first")),
        ev(2, true, "sniper", 200, Some("second")),
        ev(3, true, "sniper", 400, Some("too late")),
        ev(4, true, "blatant_cheater", 250, Some("other tag")),
        ev(5, false, "sniper", 300, None),
    ];
    assert_eq!(reason_for_event(&events, 4), "second");
}

#[test]
fn clear_events_take_the_last_of_equal_sets() {
    let events = vec![
        ev(1, true, "sniper", 100, Some("one")),
        ev(2, true, "sniper", 100, Some("two")),
        ev(3, false, "sniper", 100, None),
    ];
    assert_eq!(reason_for_event(&events, 2), "two");
}

#[test]
fn clear_events_without_a_set_show_nothing() {
    let events = vec![ev(1, false, "sniper", 100, None), ev(2, true, "sniper", 200, Some("later"))];
    assert_eq!(reason_for_event(&events, 0), "");
}

#[test]
fn attributions() {
    assert_eq!(history_attribution(Some("mod"), false), "**`@mod`**");
    assert_eq!(history_attribution(Some("mod"), true), "**`@mod`** (hidden)");
    assert_eq!(history_attribution(None, true), "**system**");
}

#[test]
fn history_entries() {
    assert_eq!(
        history_entry(true, "<:add:1>", "<:s:2>", "Sniper", "why", "**system**", 1700000000),
        "**<:add:1> Added**\n> -# **<:s:2> Sniper**\n> -# why\n> -# \\- Added by **system** <t:1700000000:R>"
    );
    assert_eq!(
        history_entry(false, "<:rm:1>", "", "odd", "", "**`@a`**", -3),
        "**<:rm:1> Removed**\n> -# ** odd**\n> -# \\- Removed by **`@a`** <t:-3:R>"
    );
}
