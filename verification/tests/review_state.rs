use coral::review_state::{
    find_player_ign, find_submitter, lookup_tag_name_from_display, parse_confirmation_data,
    process_text_into_player, submission_flags, PlayerLines,
};
use coral::minecraft::sanitize_reason;
use coral::review_votes::PlayerStatus;

fn table() -> Vec<(String, String)> {
    vec![
        ("Confirmed Cheater".to_string(), "confirmed_cheater".to_string()),
        ("Sniper".to_string(), "sniper".to_string()),
    ]
}

#[test]
fn player_block_reads_back() {
    let mut p = PlayerLines::pending();
    let content = "IGN - `Steve`\n\
**<:x:1> Confirmed Cheater**\n\
-# UUID: 069a79f4-44e9-4726-a5be-fca90e38aaf5\n\
> uses killaura\n\
> second\n\
\u{274c} Rejected \u{2014} \"not enough\"\n\
<:evidencefound:1482666860225888346> <@11>, <@12>\n\
<:noevidence:1482666258938990696> <@13>\n\
- `/replay abc 123` \u{2014} Note: \"watch at 2:00\"\n\
`/replay xyz`\n\
something else";
    let found = process_text_into_player(&mut p, content, &table());
    assert_eq!(p.tag_type, "confirmed_cheater");
    assert_eq!(p.uuid, "069a79f444e94726a5befca90e38aaf5");
    assert_eq!(p.reason, "uses killaura");
    assert_eq!(p.status, PlayerStatus::Rejected);
    assert_eq!(p.decided_by, None);
    assert_eq!(p.review_note.as_deref(), Some("not enough"));
    assert_eq!(p.accept_votes, vec![11, 12]);
    assert_eq!(p.reject_votes, vec![13]);
    assert_eq!(
        found,
        vec![
            ("/replay abc 123".to_string(), Some("watch at 2:00".to_string())),
            ("/replay xyz".to_string(), None),
        ]
    );
}

#[test]
fn heading_tag_does_not_override_and_currently_does() {
    let mut p = PlayerLines::pending();
    let found = process_text_into_player(
        &mut p,
        "**<:a:1> Sniper**\n**<:b:2> Confirmed Cheater**\n>no space reason\n\u{2705} Approved",
        &table(),
    );
    assert!(found.is_empty());
    assert_eq!(p.tag_type, "sniper");
    assert_eq!(p.reason, "no space reason");
    assert_eq!(p.status, PlayerStatus::Approved);
    process_text_into_player(&mut p, "-# currently <:a:1> Sniper > <:b:2> Confirmed Cheater", &table());
    assert_eq!(p.tag_type, "confirmed_cheater");
    process_text_into_player(&mut p, "-# currently Unknown Tag", &table());
    assert_eq!(p.tag_type, "confirmed_cheater");
}

#[test]
fn tag_names_by_display() {
    assert_eq!(lookup_tag_name_from_display("Sniper", &table()), Some("sniper".to_string()));
    assert_eq!(lookup_tag_name_from_display("sniper", &table()), None);
}

#[test]
fn player_names_in_blocks() {
    assert_eq!(find_player_ign("heading\n  IGN - `Steve`  \nIGN - `Alex`"), Some("Steve".to_string()));
    assert_eq!(find_player_ign("no name here"), None);
    assert_eq!(find_player_ign("IGN - `unterminated"), None);
}

#[test]
fn submitter_is_first_readable_mention() {
    let texts = vec![
        "## Tag Review".to_string(),
        "-# Submitted by <@abc> and <@42>".to_string(),
        "-# Submitted by <@77>".to_string(),
    ];
    assert_eq!(find_submitter(&texts), Some(77));
    assert_eq!(find_submitter(&vec!["<@123> hi".to_string()]), Some(123));
    assert_eq!(find_submitter(&vec!["<@123".to_string()]), None);
}

#[test]
fn submission_state_flags() {
    let texts = vec!["-# Submitted by <@1> (reopened)".to_string()];
    assert_eq!(submission_flags(&texts, &vec![]), (false, true));
    let texts = vec!["\u{2705} Approved".to_string()];
    assert_eq!(submission_flags(&texts, &vec![]), (true, false));
    let buttons = vec!["review_reject:0:1".to_string()];
    assert_eq!(submission_flags(&vec![], &buttons), (true, false));
    assert_eq!(submission_flags(&vec!["draft".to_string()], &vec!["other".to_string()]), (false, false));
}

#[test]
fn confirmation_data_from_button_and_texts() {
    let texts = vec![
        "## Confirm".to_string(),
        "IGN - `Steve`\n> uses killaura".to_string(),
    ];
    let d = parse_confirmation_data("review_confirm:3:confirmed_cheater:abcd:ef", &texts).unwrap();
    assert_eq!(d.player_name, "Steve");
    assert_eq!(d.tag_type, "confirmed_cheater");
    assert_eq!(d.player_uuid, "abcd:ef");
    assert_eq!(d.reason, "uses killaura");
    assert!(parse_confirmation_data("review_confirm:3:x", &texts).is_none());
    assert!(parse_confirmation_data("other:3:x:y", &texts).is_none());
    let no_reason = vec!["IGN - `Alex`".to_string()];
    let d = parse_confirmation_data("review_confirm:0:sniper:u", &no_reason).unwrap();
    assert_eq!(d.reason, "");
    assert!(parse_confirmation_data("review_confirm:0:sniper:u", &vec!["nobody".to_string()]).is_none());
}

#[test]
fn read_back_reasons_lose_their_escapes() {
    let reason = "autoclutch (temp tag, i will change later) -> *sure*";
    let line = format!("> {}", sanitize_reason(reason));
    let mut p = PlayerLines::pending();
    process_text_into_player(&mut p, &line, &table());
    assert_eq!(p.reason, reason);
    // a redraw writes the same quote again
    assert_eq!(format!("> {}", sanitize_reason(&p.reason)), line);
    let texts = vec!["IGN - `Alex`".to_string(), line.clone()];
    let d = parse_confirmation_data("review_confirm:0:sniper:u", &texts).unwrap();
    assert_eq!(d.reason, reason);
}

#[test]
fn verdicts_settle_an_entry() {
    let mut p = PlayerLines::pending();
    p.tag_type = "sniper".to_string();
    p.accept_votes = vec![1, 2];
    p.reject_votes = vec![3];
    p.approve("confirmed_cheater".to_string());
    assert!(p.status == coral::review_votes::PlayerStatus::Approved);
    assert_eq!(p.tag_type, "confirmed_cheater");
    assert!(p.accept_votes.is_empty() && p.reject_votes.is_empty());

    let mut q = PlayerLines::pending();
    q.reject_votes = vec![4, 5, 6];
    q.reject(None);
    assert!(q.status == coral::review_votes::PlayerStatus::Rejected);
    assert_eq!(q.review_note, None);
    assert!(q.reject_votes.is_empty());
    let mut r = PlayerLines::pending();
    r.reject(Some("no proof".to_string()));
    assert_eq!(r.review_note.as_deref(), Some("no proof"));
}
