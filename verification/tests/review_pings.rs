use coral::review_pings::{guide_check, guide_needs_reopen, GuideCheck, panel_refusal, ping_panel, ping_target};

#[test]
fn the_panel_needs_a_role_the_member_can_toggle() {
    assert_eq!(panel_refusal(None, None, true), Some("Review ping role is not configured"));
    assert_eq!(panel_refusal(None, Some(2), false), Some("Review ping role is not configured"));
    assert_eq!(panel_refusal(None, Some(2), true), None);
    assert_eq!(panel_refusal(Some(1), None, false), None);
}

#[test]
fn choice_buttons_pick_their_role() {
    assert_eq!(ping_target("guide_ping_choice:disputes", Some(1), Some(2)), Some(2));
    assert_eq!(ping_target("guide_ping_choice:all", Some(1), Some(2)), Some(1));
    assert_eq!(ping_target("something", Some(1), Some(2)), Some(1));
    assert_eq!(ping_target("guide_ping_choice:disputes", Some(1), None), None);
}

#[test]
fn panel_shows_each_role_state() {
    let p = ping_panel(Some(1), Some(2), true, &vec![2, 9]);
    assert_eq!(p.content, "All reviews: **off**\nDisputes only: **on**");
    assert_eq!(p.buttons.len(), 2);
    assert_eq!(p.buttons[0].custom_id, "guide_ping_choice:all");
    assert_eq!(p.buttons[0].label, "Turn On All Reviews");
    assert!(!p.buttons[0].on);
    assert_eq!(p.buttons[1].custom_id, "guide_ping_choice:disputes");
    assert_eq!(p.buttons[1].label, "Turn Off Disputes Only");
    assert!(p.buttons[1].on);
}

#[test]
fn members_outside_staff_see_no_dispute_button() {
    let p = ping_panel(Some(1), Some(2), false, &vec![1]);
    assert_eq!(p.content, "All reviews: **on**");
    assert_eq!(p.buttons.len(), 1);
    assert_eq!(p.buttons[0].label, "Turn Off All Reviews");
}

#[test]
fn the_guide_is_reopened_when_archived_or_locked() {
    assert!(!guide_needs_reopen(false, false));
    assert!(guide_needs_reopen(true, false));
    assert!(guide_needs_reopen(false, true));
}

#[test]
fn guide_checks() {
    assert_eq!(guide_check(None, Some((true, true))), GuideCheck::NoGuide);
    assert_eq!(guide_check(Some(5), Some((true, false))), GuideCheck::Reopen(5));
    assert_eq!(guide_check(Some(5), Some((false, false))), GuideCheck::Keep(5));
    assert_eq!(guide_check(Some(5), None), GuideCheck::Keep(5));
}
