use coral::review_text::{
    attachment_filename_from_url, attachment_id_from_cdn_url, has_disagreement, is_player_entry,
    is_tag_type_line, mentions, parse_player_ign, parse_status_line, parse_vote_line,
    render_status_line, thread_title, vote_tally, VoteSide, EMOTE_EVIDENCE, EMOTE_NO_EVIDENCE,
};
use coral::review_votes::PlayerStatus;

#[test]
fn player_lines() {
    assert!(is_player_entry("IGN - `Steve`"));
    assert!(!is_player_entry("ign - `Steve`"));
    assert_eq!(parse_player_ign("IGN - `Steve`"), Some("Steve".to_string()));
    assert_eq!(parse_player_ign("IGN - `Steve"), None);
    assert!(is_tag_type_line("**<:a:1> Sniper**"));
    assert!(!is_tag_type_line("**Sniper**"));
}

#[test]
fn status_lines_round_trip() {
    assert_eq!(render_status_line(PlayerStatus::Pending, None), "-# Pending review");
    assert_eq!(render_status_line(PlayerStatus::Approved, None), "\u{2705} Approved");
    let rejected = render_status_line(PlayerStatus::Rejected, Some("no proof"));
    assert_eq!(rejected, "\u{274c} Rejected \u{2014} \"no proof\"");
    assert_eq!(
        parse_status_line(&rejected),
        Some((PlayerStatus::Rejected, None, Some("no proof".to_string())))
    );
    assert_eq!(parse_status_line("\u{2705} Approved"), Some((PlayerStatus::Approved, None, None)));
    assert_eq!(parse_status_line("-# Pending review"), None);
}

#[test]
fn vote_lines_round_trip() {
    let line = vote_tally(EMOTE_EVIDENCE, "Accept", &vec![11, 12], 6, false, 0);
    assert_eq!(line, format!("### {EMOTE_EVIDENCE} Accept [2/6] \u{2014} <@11>, <@12>"));
    let (side, ids) = parse_vote_line(&line[4..]).unwrap();
    assert!(matches!(side, VoteSide::Accept));
    assert_eq!(ids, vec![11, 12]);
    assert_eq!(vote_tally(EMOTE_NO_EVIDENCE, "Reject", &vec![], 3, false, 0), format!("### {EMOTE_NO_EVIDENCE} Reject [0/3]"));
    assert_eq!(vote_tally(EMOTE_NO_EVIDENCE, "Reject", &vec![], 3, false, 2), format!("### {EMOTE_NO_EVIDENCE} Reject"));
    assert_eq!(vote_tally("e", "Accept", &vec![1], 6, true, 1), "### e Accept \u{2014} <@1>");
    assert!(parse_vote_line("plain").is_none());
    let (side, ids) = parse_vote_line(&format!("{EMOTE_NO_EVIDENCE} <@7> <@x> <@8>")).unwrap();
    assert!(matches!(side, VoteSide::Reject));
    assert_eq!(ids, vec![7, 8]);
}

#[test]
fn mentions_and_disagreement() {
    assert_eq!(mentions(&vec![1, 2]), "<@1>, <@2>");
    assert_eq!(mentions(&vec![]), "");
    assert!(has_disagreement(&vec![1], &vec![2]));
    assert!(!has_disagreement(&vec![1], &vec![]));
}

#[test]
fn titles_and_attachments() {
    assert_eq!(thread_title(&vec!["Steve".to_string(), "Alex".to_string()]), "Steve, Alex");
    assert_eq!(attachment_filename_from_url("attachment://Steve_1.png"), "Steve_1.png");
    assert_eq!(attachment_filename_from_url("https://cdn.discordapp.com/attachments/1/2/a.png?ex=1"), "a.png");
    assert_eq!(attachment_id_from_cdn_url("https://cdn.discordapp.com/attachments/111/222/a.png"), Some(222));
    assert_eq!(attachment_id_from_cdn_url("https://example.com/a.png"), None);
}

#[test]
fn written_status_lines_read_back() {
    use_status_round_trip(PlayerStatus::Approved, None, None);
    use_status_round_trip(PlayerStatus::Approved, Some("ignored"), None);
    use_status_round_trip(PlayerStatus::Rejected, Some("not enough proof"), Some("not enough proof"));
    use_status_round_trip(PlayerStatus::Rejected, None, None);
}

fn use_status_round_trip(status: PlayerStatus, note: Option<&str>, expected_note: Option<&str>) {
    let line = render_status_line(status, note);
    let (s, by, n) = parse_status_line(&line).unwrap();
    assert_eq!(s, status);
    assert_eq!(by, None);
    assert_eq!(n.as_deref(), expected_note);
}

#[test]
fn written_player_lines_read_back() {
    assert_eq!(parse_player_ign("IGN - `Steve_1`"), Some("Steve_1".to_string()));
    assert_eq!(parse_player_ign("IGN - `a`b`"), Some("a`b".to_string()));
}
