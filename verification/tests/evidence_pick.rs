use coral::access::AccessRank;
use coral::evidence_pick::{
    attachment_count_line, evidence_added_body, parse_source, pick_action, source_id, uuid_hint,
    PickAction, ThreadState, pick_refusal,
};

#[test]
fn picker_ids_read_back() {
    let id = format!("evid_pick:{}", source_id(123, 456));
    assert_eq!(id, "evid_pick:123:456");
    assert_eq!(parse_source(&id, "evid_pick:"), Some((123, 456)));
    assert_eq!(parse_source("evid_pick:123", "evid_pick:"), None);
    assert_eq!(parse_source("evid_pick:a:1", "evid_pick:"), None);
    assert_eq!(parse_source("evid_search:1:2", "evid_pick:"), None);
}

#[test]
fn picker_text() {
    assert_eq!(attachment_count_line(1), "-# 1 attachment from that message");
    assert_eq!(attachment_count_line(3), "-# 3 attachments from that message");
    assert_eq!(
        evidence_added_body("Steve", 2, 99, " (1 skipped)"),
        "## Evidence Added\nIGN - `Steve`\nAdded 2 attachments to <#99> (1 skipped)"
    );
    assert_eq!(uuid_hint("069a79f444e94726"), "069a79f4\u{2026}");
    assert_eq!(uuid_hint("abc"), "abc\u{2026}");
    assert_eq!(uuid_hint("\u{e9}\u{e9}\u{e9}\u{e9}\u{e9}"), "\u{e9}\u{e9}\u{e9}\u{e9}\u{2026}");
}

#[test]
fn thread_states() {
    assert!(matches!(pick_action(ThreadState::Missing), PickAction::Refuse("That evidence post no longer exists")));
    assert!(matches!(
        pick_action(ThreadState::Closed),
        PickAction::Refuse("That evidence post is archived. Restore it before adding evidence.")
    ));
    assert!(matches!(pick_action(ThreadState::IdleArchived), PickAction::Reopen));
    assert!(matches!(pick_action(ThreadState::Open), PickAction::Proceed));
}

#[test]
fn picks_need_staff_and_media() {
    let media = vec!["notes.txt".to_string(), "clip.MP4".to_string()];
    assert_eq!(pick_refusal(AccessRank::Trusted, true, true, &media), Some("Only staff can add evidence"));
    assert_eq!(pick_refusal(AccessRank::Helper, false, true, &media), Some("That evidence post no longer exists"));
    assert_eq!(pick_refusal(AccessRank::Helper, true, false, &media), Some("That message is no longer available"));
    assert_eq!(pick_refusal(AccessRank::Helper, true, true, &media), None);
    assert_eq!(
        pick_refusal(AccessRank::Admin, true, true, &vec!["a.txt".to_string()]),
        Some("That message has no image or video attachments")
    );
}
