use coral::review_messages::{
    confirm_button_id, confirmation_destination, edit_manager, face_filename, editing_footer_ids, evidence_piece_label,
    review_header, selected_piece, submitted_footer_id, submitter_line, summary_line,
    verdict_announcement, vote_announcement, MAX_PLAYERS,
};
use coral::review_state::parse_confirmation_data;
use coral::review_votes::PlayerStatus;

#[test]
fn headers_and_submitter_lines() {
    assert_eq!(review_header("<:t:1>", 1), "## <:t:1> Tag Review");
    assert_eq!(review_header("<:t:1>", 3), "## <:t:1> Tag Review \u{b7} 3 players");
    assert_eq!(submitter_line(42, false), "-# Evidence submitted by <@42>");
    assert_eq!(submitter_line(42, true), "-# Evidence submitted by <@42> \u{b7} reopened");
}

#[test]
fn footer_buttons() {
    assert_eq!(MAX_PLAYERS, 4);
    assert_eq!(editing_footer_ids(1, false, false, 7), vec!["review_add_player:7".to_string()]);
    assert_eq!(editing_footer_ids(4, false, false, 7), Vec::<String>::new());
    assert_eq!(
        editing_footer_ids(2, true, true, 7),
        vec!["review_submit:7".to_string(), "review_cancel_thread:7".to_string()]
    );
    assert_eq!(
        submitted_footer_id(&vec![PlayerStatus::Approved, PlayerStatus::Pending], 9),
        Some("review_edit_submitted:9".to_string())
    );
    assert_eq!(submitted_footer_id(&vec![PlayerStatus::Rejected], 9), None);
}

#[test]
fn evidence_piece_labels() {
    let pieces = vec![None, Some("Steve_1.png".to_string()), None, Some("clip.mp4".to_string())];
    assert_eq!(evidence_piece_label(&pieces, 0), "Replay 1");
    assert_eq!(evidence_piece_label(&pieces, 1), "Steve (1)");
    assert_eq!(evidence_piece_label(&pieces, 2), "Replay 2");
    assert_eq!(evidence_piece_label(&pieces, 3), "clip");
    assert_eq!(selected_piece(7, 3), 2);
    assert_eq!(selected_piece(1, 3), 1);
}

#[test]
fn announcements() {
    assert_eq!(
        vote_announcement(5, "accept", "<:c:1> **Closet Cheater**", "Steve", false),
        "<@5> voted to **accept** the <:c:1> **Closet Cheater** tag on `Steve`."
    );
    assert_eq!(
        vote_announcement(5, "reject", "L", "Steve", true),
        "<@5> changed their vote to **reject** the L tag on `Steve`."
    );
    assert_eq!(verdict_announcement(5, true, true, "L", "Steve"), "<@5> **approved** the L tag on `Steve`.");
    assert_eq!(
        verdict_announcement(5, false, false, "L", "Steve"),
        "The L tag on `Steve` was **rejected** by review."
    );
    assert_eq!(summary_line("e", "Steve", PlayerStatus::Pending), "\n- e `Steve` \u{2014} **pending**");
}

#[test]
fn confirmation_button_reads_back() {
    let id = confirm_button_id(12, "closet_cheater", "abcd");
    assert_eq!(id, "review_confirm:12:closet_cheater:abcd");
    let texts = vec!["IGN - `Steve`".to_string()];
    let d = parse_confirmation_data(&id, &texts).unwrap();
    assert_eq!(d.tag_type, "closet_cheater");
    assert_eq!(d.player_uuid, "abcd");
    assert_eq!(confirmation_destination(Some(77)), "<#77>");
    assert_eq!(confirmation_destination(None), "the review channel");
}

#[test]
fn face_files_are_named_by_uuid() {
    assert_eq!(face_filename("abc123"), "face_abc123.png");
}

#[test]
fn edit_manager_of_a_player_with_evidence() {
    let pieces = vec![Some("clip.mp4".to_string()), None, Some("shot.png".to_string())];
    let urls = vec![("shot.png".to_string(), "https://cdn/x/shot.png".to_string())];
    let m = edit_manager("<:t:1>", "Steve", &pieces, 9, &urls, 1, 2, 42);
    assert_eq!(m.header, "## <:t:1> Edit \u{2014} `Steve`");
    assert_eq!(m.selected, Some(2));
    assert_eq!(m.shown_media.as_deref(), Some("https://cdn/x/shot.png"));
    assert_eq!(m.select_id.as_deref(), Some("review_evsel:1:42"));
    assert_eq!(m.other_pieces.iter().map(|p| p.1).collect::<Vec<_>>(), vec![0, 1]);
    assert_eq!(m.other_pieces[1].0, "Replay 1");
    assert_eq!(m.piece_button_ids, vec!["review_remove_evidence:1:2:42".to_string()]);
    assert_eq!(m.tag_select_id, "review_tag_select_edit:1:42");
    assert_eq!(
        m.control_ids,
        vec![
            "review_edit_reason:1:42".to_string(),
            "review_remove_player:1:42".to_string(),
            "review_edit_done:1:42".to_string()
        ]
    );
}

#[test]
fn edit_manager_of_a_lone_replay() {
    let m = edit_manager("e", "Alex", &vec![None], 0, &vec![], 0, 1, 7);
    assert_eq!(m.selected, Some(0));
    assert_eq!(m.shown_media, None);
    assert_eq!(m.select_id, None);
    assert!(m.other_pieces.is_empty());
    assert_eq!(
        m.piece_button_ids,
        vec!["review_edit_replay:0:0:7".to_string(), "review_remove_evidence:0:0:7".to_string()]
    );
    assert_eq!(m.control_ids, vec!["review_edit_reason:0:7".to_string(), "review_edit_done:0:7".to_string()]);
    let none = edit_manager("e", "Alex", &vec![], 0, &vec![], 0, 1, 7);
    assert_eq!(none.selected, None);
    assert!(none.piece_button_ids.is_empty());
    let attached = edit_manager("e", "Alex", &vec![Some("a.png".to_string())], 0, &vec![], 0, 1, 7);
    assert_eq!(attached.shown_media.as_deref(), Some("attachment://a.png"));
}
