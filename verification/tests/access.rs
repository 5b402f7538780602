use coral::access::{can_strike_rank, is_review_staff, AccessRank};

#[test]
fn ranks_are_ordered() {
    assert_eq!(AccessRank::Default.position(), 0);
    assert_eq!(AccessRank::Owner.position(), 6);
    assert!(AccessRank::Admin.at_least(AccessRank::Admin));
    assert!(!AccessRank::Admin.above(AccessRank::Admin));
    assert!(AccessRank::Admin.above(AccessRank::Moderator));
}

#[test]
fn strike_and_review_rights() {
    assert!(can_strike_rank(AccessRank::Moderator, AccessRank::Helper));
    assert!(!can_strike_rank(AccessRank::Moderator, AccessRank::Moderator));
    assert!(!can_strike_rank(AccessRank::Helper, AccessRank::Default));
    assert!(is_review_staff(AccessRank::Helper));
    assert!(!is_review_staff(AccessRank::Trusted));
}
