use coral::review_forms::{
    check_not_listed, check_review_tag, parse_pending_tag_ids, parse_reason_form_ids, reason_form_id,
    unknown_player,
};

#[test]
fn form_ids_read_back() {
    let id = reason_form_id("069a79f4", "closet_cheater", "77");
    assert_eq!(id, "review_addplayer_reason:069a79f4:closet_cheater:77");
    assert_eq!(
        parse_reason_form_ids(&id),
        ("069a79f4".to_string(), "closet_cheater".to_string(), "77".to_string())
    );
    let odd = reason_form_id("a:b", "blatant_cheater", "1");
    assert_eq!(parse_reason_form_ids(&odd), ("a:b".to_string(), "blatant_cheater".to_string(), "1".to_string()));
    assert_eq!(parse_reason_form_ids("review_addplayer_reason:x"), (String::new(), String::new(), "x".to_string()));
    assert_eq!(parse_reason_form_ids("review_addplayer_reason:t:9"), (String::new(), "t".to_string(), "9".to_string()));
    assert_eq!(parse_pending_tag_ids("review_pending_tag:abc:5"), ("abc".to_string(), "5".to_string()));
    assert_eq!(parse_pending_tag_ids("review_pending_tag:5"), (String::new(), "5".to_string()));
}

#[test]
fn form_replies() {
    assert_eq!(check_review_tag("closet_cheater"), None);
    assert_eq!(check_review_tag("sniper"), Some("Invalid tag type: `sniper`".to_string()));
    assert_eq!(unknown_player("Stve"), "Could not find a player named `Stve`");
    let uuids = vec!["u1".to_string(), "u2".to_string()];
    assert_eq!(check_not_listed(&uuids, "u2", "Steve"), Some("`Steve` is already in this submission".to_string()));
    assert_eq!(check_not_listed(&uuids, "u3", "Steve"), None);
}
