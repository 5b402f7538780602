use coral::access::AccessRank;
use coral::tag_text::{
    add_hint, format_added_line, format_reviewed_line, evidence_indicator, format_tag_block, format_tag_detail, history_footer,
    history_nav_id, history_window, op_error_message, parse_history_nav, parse_manage_uuid,
    parse_remove_ids, tag_add_check, tag_label, no_tags_heading, tagged_user_heading, tag_footer, TagOpError, HISTORY_PER_PAGE,
};

#[test]
fn added_lines() {
    assert_eq!(format_added_line(1700000000, Some("mod"), false), "> -# **\\- Added by `@mod` <t:1700000000:R>**");
    assert_eq!(format_added_line(1700000000, Some("mod"), true), "> -# **\\- <t:1700000000:R>**");
    assert_eq!(format_added_line(-5, None, false), "> -# **\\- <t:-5:R>**");
}

#[test]
fn reviewed_lines() {
    let names = vec!["a".to_string(), "b".to_string()];
    assert_eq!(format_reviewed_line(&names).as_deref(), Some("> -# **\\- Reviewed by `@a`, `@b`**"));
    assert_eq!(format_reviewed_line(&vec![]), None);
}

#[test]
fn evidence_marks_only_for_confirmed_cheaters() {
    assert_eq!(evidence_indicator("sniper", true), "");
    assert_eq!(
        evidence_indicator("confirmed_cheater", true),
        " <:evidencefound:1482666860225888346>"
    );
    assert_eq!(
        evidence_indicator("confirmed_cheater", false),
        " <:noevidence:1482666258938990696>"
    );
}

#[test]
fn tag_blocks() {
    assert_eq!(
        format_tag_block("<:s:1>", "Sniper", "reason", "", Some("added"), None, false),
        "**<:s:1> Sniper**\n> reason\nadded"
    );
    assert_eq!(
        format_tag_block("e", "D", "x", " i", None, Some("rev"), true),
        "~~**e D**~~ i\n> x\nrev"
    );
}

#[test]
fn footers() {
    assert_eq!(tag_footer("u-u", None, None), "-# UUID: u-u");
    assert_eq!(
        tag_footer("u", Some("r"), Some("e")),
        "-# UUID: u | [Review](r) | [Evidence](e)"
    );
}

#[test]
fn tag_details() {
    assert_eq!(format_tag_detail(Some("replays_needed"), Some("x"), Some(99)), "Expires <t:99:R>");
    assert_eq!(format_tag_detail(Some("replays_needed"), None, None), "No expiration");
    assert_eq!(format_tag_detail(Some("sniper"), Some("a*b"), None), "a\\*b");
    assert_eq!(format_tag_detail(None, None, None), "");
}

#[test]
fn op_errors() {
    assert_eq!(op_error_message(TagOpError::PlayerLocked), "This player's tags are locked");
    assert_eq!(op_error_message(TagOpError::EditWindowExpired), "The 30-minute edit window has passed");
    assert_eq!(op_error_message(TagOpError::Database), "A database error occurred");
}

#[test]
fn adding_tags() {
    assert_eq!(
        tag_add_check(AccessRank::Member, true, "sniper", "r"),
        Err("Your tagging ability has been disabled")
    );
    assert_eq!(tag_add_check(AccessRank::Helper, true, "sniper", "r"), Ok(false));
    assert_eq!(
        tag_add_check(AccessRank::Admin, false, "confirmed_cheater", "r"),
        Err("Confirmed cheater tags can only be applied through the review system")
    );
    assert_eq!(
        tag_add_check(AccessRank::Admin, false, "replays_needed", "r"),
        Err("Use the /watch command to add replays needed tags")
    );
    assert_eq!(
        tag_add_check(AccessRank::Member, false, "blatant_cheater", ""),
        Err("A reason is required for this tag type")
    );
    assert_eq!(tag_add_check(AccessRank::Default, false, "blatant_cheater", "r"), Ok(true));
    assert_eq!(tag_add_check(AccessRank::Default, false, "sniper", "r"), Ok(false));
    assert_eq!(tag_add_check(AccessRank::Member, false, "blatant_cheater", "r"), Ok(false));
}

#[test]
fn add_hints() {
    assert_eq!(add_hint(AccessRank::Member), "-# You can remove this tag within 30 minutes using /tag remove.");
    assert_eq!(
        add_hint(AccessRank::Default),
        "-# You can overwrite or remove this tag within 30 minutes using /tag add and /tag remove."
    );
}

#[test]
fn tag_button_ids() {
    assert_eq!(parse_manage_uuid("mt_back:abc:1"), "abc");
    assert_eq!(parse_manage_uuid("nothing"), "");
    assert_eq!(parse_remove_ids("mt_remove:abc:42"), ("abc".to_string(), 42));
    assert_eq!(parse_remove_ids("mt_remove:abc:x"), ("abc".to_string(), 0));
    assert_eq!(parse_remove_ids("mt_remove:abc"), (String::new(), 0));
    assert_eq!(parse_history_nav("tag_history_nav:abc:3"), ("abc".to_string(), 3));
    assert_eq!(parse_history_nav("tag_history_nav:abc"), ("abc".to_string(), 0));
    assert_eq!(parse_history_nav(&history_nav_id("u1", 7)), ("u1".to_string(), 7));
}

#[test]
fn history_pages() {
    assert_eq!(HISTORY_PER_PAGE, 8);
    let w = history_window(0, 4);
    assert_eq!((w.page, w.pages, w.start, w.end), (0, 1, 0, 0));
    let w = history_window(17, 1);
    assert_eq!((w.page, w.pages, w.start, w.end), (1, 3, 8, 16));
    let w = history_window(17, 10);
    assert_eq!((w.page, w.pages, w.start, w.end), (2, 3, 16, 17));
    assert_eq!(history_footer(1, 3), "-# Page 2 / 3");
}

#[test]
fn tag_labels_come_from_the_catalogue() {
    let cat = vec![
        ("sniper".to_string(), "<:s:1>".to_string(), "Sniper".to_string()),
        ("confirmed_cheater".to_string(), "<:c:2>".to_string(), "Confirmed Cheater".to_string()),
    ];
    assert_eq!(tag_label("confirmed_cheater", &cat), "<:c:2> **Confirmed Cheater**");
    assert_eq!(tag_label("unknown", &cat), " **unknown**");
}

#[test]
fn view_headings() {
    assert_eq!(tagged_user_heading("<:t:1>", false, "Steve"), "## <:t:1> Tagged User\nIGN - `Steve`\n");
    assert_eq!(tagged_user_heading("<:t:1>", true, "Steve"), "## <:t:1> Tagged User \u{1F512}\nIGN - `Steve`\n");
    assert_eq!(no_tags_heading("Alex"), "## No Tags\n`Alex` is not tagged.");
}
