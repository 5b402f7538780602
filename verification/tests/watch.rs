use coral::access::AccessRank;
use coral::tag_text::TagOpError;
use coral::watch::{
    watch_days, watch_error_message, watch_expiry, watch_permission, watch_reply, DEFAULT_EXPIRY_DAYS,
};

#[test]
fn only_helpers_watch() {
    assert_eq!(watch_permission(AccessRank::Member), Some("Only helpers and above can use /watch"));
    assert_eq!(watch_permission(AccessRank::Helper), None);
    assert_eq!(watch_permission(AccessRank::Owner), None);
}

#[test]
fn expiry_in_days() {
    assert_eq!(DEFAULT_EXPIRY_DAYS, 14);
    assert_eq!(watch_days(None), 14);
    assert_eq!(watch_days(Some(3)), 3);
    assert_eq!(watch_expiry(1000, 0), None);
    assert_eq!(watch_expiry(1000, 2), Some(1000 + 2 * 86400));
}

#[test]
fn refusals() {
    assert_eq!(watch_error_message(TagOpError::PlayerLocked), Some("This player's tags are locked"));
    assert_eq!(watch_error_message(TagOpError::PriorityConflict), Some("Player already has a replays needed tag"));
    assert_eq!(watch_error_message(TagOpError::TagAlreadyExists), Some("Player already has a replays needed tag"));
    assert_eq!(watch_error_message(TagOpError::Database), None);
}

#[test]
fn replies() {
    assert_eq!(
        watch_reply("Steve", Some(5), "a-b"),
        "## Replays Needed\n`Steve` is now being watched (expires <t:5:R>)\n-# UUID: a-b"
    );
    assert_eq!(
        watch_reply("Steve", None, "a"),
        "## Replays Needed\n`Steve` is now being watched (no expiration)\n-# UUID: a"
    );
}
