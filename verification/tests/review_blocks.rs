use coral::review_blocks::{
    block_has_player_marker, block_player, block_ranges_of, media_urls_of_player, parse_player_block,
    parse_players, parse_submission, Evidence, Part,
};

fn text(s: &str) -> Part {
    Part::Text(Some(s.to_string()))
}

fn table() -> Vec<(String, String)> {
    vec![("Sniper".to_string(), "sniper".to_string()), ("Blatant Cheater".to_string(), "blatant_cheater".to_string())]
}

fn sample() -> Vec<Part> {
    vec![
        text("## Review"),
        Part::Separator,
        Part::Section(
            vec![None, Some("IGN - `Foo`\n-# UUID: 1234-5678".to_string())],
            Some("https://cdn.discordapp.com/attachments/1/2/face.png?x=1".to_string()),
        ),
        text("**<:e:1> Sniper**\n> sniping a lot\n- `/replay abc` \u{2014} Note: \"look\""),
        Part::Gallery(vec![
            "https://cdn.discordapp.com/attachments/1/2/clip.mp4?ex=1".to_string(),
            "attachment://b.png".to_string(),
        ]),
        Part::Other,
        Part::Separator,
        text("IGN - `Bar`"),
        Part::Gallery(vec!["attachment://bar.png".to_string()]),
        Part::Separator,
        text("IGN - `Unclosed"),
        Part::Gallery(vec!["attachment://u.png".to_string()]),
    ]
}

fn describe(e: &Evidence) -> String {
    match e {
        Evidence::Replay(c, Some(n)) => format!("replay {c} ({n})"),
        Evidence::Replay(c, None) => format!("replay {c}"),
        Evidence::Attachment(f) => format!("file {f}"),
    }
}

#[test]
fn blocks_split_at_separators() {
    assert_eq!(block_ranges_of(&sample()), vec![(0, 1), (2, 6), (7, 9), (10, 12)]);
    assert_eq!(block_ranges_of(&vec![]), vec![(0, 0)]);
    assert_eq!(block_ranges_of(&vec![Part::Separator]), vec![(0, 0), (1, 1)]);
}

#[test]
fn markers_and_names() {
    let parts = sample();
    assert!(!block_has_player_marker(&parts, 0, 1));
    assert!(block_has_player_marker(&parts, 2, 6));
    assert!(block_has_player_marker(&parts, 10, 12));
    assert_eq!(block_player(&parts, 2, 6), Some("Foo".to_string()));
    assert_eq!(block_player(&parts, 10, 12), None);
}

#[test]
fn a_block_reads_back_with_its_evidence() {
    let parts = sample();
    let b = parse_player_block(&parts, 2, 6, &table()).unwrap();
    assert_eq!(b.username, "Foo");
    assert_eq!(b.lines.uuid, "12345678");
    assert_eq!(b.lines.tag_type, "sniper");
    assert_eq!(b.lines.reason, "sniping a lot");
    let ev: Vec<String> = b.evidence.iter().map(describe).collect();
    assert_eq!(ev, vec!["file face.png", "replay /replay abc (look)", "file clip.mp4", "file b.png"]);
    assert!(parse_player_block(&parts, 0, 1, &table()).is_none());
}

#[test]
fn only_tagged_players_are_kept() {
    let players = parse_players(&sample(), &table());
    assert_eq!(players.len(), 1);
    assert_eq!(players[0].username, "Foo");
}

#[test]
fn media_of_the_nth_marked_block() {
    let parts = sample();
    assert_eq!(
        media_urls_of_player(&parts, 0),
        vec!["https://cdn.discordapp.com/attachments/1/2/clip.mp4?ex=1".to_string(), "attachment://b.png".to_string()]
    );
    assert_eq!(media_urls_of_player(&parts, 1), vec!["attachment://bar.png".to_string()]);
    assert_eq!(media_urls_of_player(&parts, 2), vec!["attachment://u.png".to_string()]);
    assert_eq!(media_urls_of_player(&parts, 3), Vec::<String>::new());
}

#[test]
fn submissions_need_a_submitter() {
    let parts = sample();
    let texts = vec!["## Review".to_string(), "-# Submitted by <@42> (reopened)".to_string()];
    let s = parse_submission(&texts, &parts, &vec!["review_approve:1".to_string()], &table()).unwrap();
    assert_eq!(s.submitter_id, 42);
    assert_eq!(s.players.len(), 1);
    assert!(s.submitted);
    assert!(s.reopened);
    assert!(s.editing.is_none() && s.pending_add.is_none());
    let quiet = parse_submission(&vec!["-# Submitted by <@7>".to_string()], &parts, &vec![], &table()).unwrap();
    assert!(!quiet.submitted);
    assert!(!quiet.reopened);
    assert!(parse_submission(&vec!["no one".to_string()], &parts, &vec![], &table()).is_none());
}
