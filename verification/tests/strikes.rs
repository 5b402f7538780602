use coral::access::AccessRank;
use coral::strikes::{parse_strike_target, strike_added, strike_check, strike_id, strike_reason};

#[test]
fn who_may_strike() {
    assert_eq!(
        strike_check(AccessRank::Helper, true, AccessRank::Default, 5),
        Some("You don't have permission to use this command".to_string())
    );
    assert_eq!(strike_check(AccessRank::Moderator, false, AccessRank::Default, 5), Some("<@5> is not registered".to_string()));
    assert_eq!(
        strike_check(AccessRank::Moderator, true, AccessRank::Moderator, 5),
        Some("Cannot strike a user with equal or higher rank".to_string())
    );
    assert_eq!(strike_check(AccessRank::Admin, true, AccessRank::Moderator, 5), None);
}

#[test]
fn strike_text_and_ids() {
    assert_eq!(strike_reason(""), "No reason provided");
    assert_eq!(strike_reason("spam"), "spam");
    assert_eq!(strike_added(7, "spam"), "Strike added for <@7>: \"spam\"");
    let id = strike_id("strike_tag_author:", 42);
    assert_eq!(id, "strike_tag_author:42");
    assert_eq!(parse_strike_target(&id, "strike_tag_author:"), Some(42));
    assert_eq!(parse_strike_target("strike_tag_author:x", "strike_tag_author:"), None);
    assert_eq!(parse_strike_target("other:1", "strike_tag_author:"), None);
}
