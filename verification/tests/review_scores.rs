use coral::access::AccessRank;
use coral::review_scores::{
    apply_correction, can_correct, check_available, correction, correction_entry, delta_for, modal_title,
    validate_correction_input, ReviewCounters, CORRECTION_COUNT,
};

#[test]
fn every_correction_has_a_delta() {
    for i in 0..CORRECTION_COUNT {
        let (id, _, _) = correction_entry(i);
        assert!(delta_for(id, 1).is_some(), "{id} has no delta");
    }
}

#[test]
fn flip_moves_one_counter_into_the_other() {
    let delta = delta_for("reject_to_accept", 2).unwrap();
    assert_eq!(delta.accepted_tags, 2);
    assert_eq!(delta.rejected_tags, -2);
}

#[test]
fn admin_cannot_correct_an_equal_rank() {
    assert!(!can_correct(AccessRank::Admin, AccessRank::Admin));
    assert!(can_correct(AccessRank::Admin, AccessRank::Moderator));
    assert!(!can_correct(AccessRank::Moderator, AccessRank::Default));
    assert!(can_correct(AccessRank::Owner, AccessRank::Owner));
}

#[test]
fn unknown_correction_has_no_delta() {
    assert!(delta_for("nonsense", 1).is_none());
    assert!(correction("nonsense").is_none());
    let (id, label, _) = correction("grant_bonus").unwrap();
    assert_eq!(id, "grant_bonus");
    assert_eq!(label, "Grant a bonus verdict");
}

#[test]
fn opposite_corrections_cancel_on_concrete_counts() {
    let a = delta_for("inaccurate_to_accurate", 3).unwrap();
    let b = delta_for("accurate_to_inaccurate", 3).unwrap();
    assert_eq!(a.accurate_verdicts + b.accurate_verdicts, 0);
    assert_eq!(a.incorrect_verdicts + b.incorrect_verdicts, 0);
    let bonus = delta_for("void_bonus", 4).unwrap();
    assert_eq!(bonus.bonus_verdicts, -4);
    assert_eq!(bonus.accepted_tags, 0);
}

#[test]
fn removing_more_than_held_is_refused() {
    let m = ReviewCounters {
        accepted_tags: 1,
        rejected_tags: 5,
        accurate_verdicts: 0,
        incorrect_verdicts: 0,
        bonus_verdicts: 0,
    };
    let d = delta_for("accept_to_reject", 2).unwrap();
    assert_eq!(
        check_available(&m, d),
        Err("User only has 1 accepted tag reviews, cannot remove 2.".to_string())
    );
    let ok = delta_for("reject_to_accept", 5).unwrap();
    assert_eq!(check_available(&m, ok), Ok(()));
}

#[test]
fn correction_form_is_checked() {
    assert_eq!(validate_correction_input(" 12 ", " why "), Ok((12, "why".to_string())));
    assert_eq!(validate_correction_input("x", "why"), Err("Count must be a number"));
    assert_eq!(validate_correction_input("0", "why"), Err("Count must be between 1 and 1000"));
    assert_eq!(validate_correction_input("1001", "why"), Err("Count must be between 1 and 1000"));
    assert_eq!(validate_correction_input("5", "   "), Err("A reason is required"));
}

#[test]
fn modal_titles_are_capped() {
    assert_eq!(modal_title("short"), "short");
    let long = "x".repeat(50);
    assert_eq!(modal_title(&long), "x".repeat(44));
}

#[test]
fn corrections_apply_only_when_every_check_passes() {
    let m = ReviewCounters { accepted_tags: 2, rejected_tags: 5, accurate_verdicts: 0, incorrect_verdicts: 0, bonus_verdicts: 0 };
    let ok = apply_correction(AccessRank::Owner, AccessRank::Admin, Some(m), "reject_to_accept", " 3 ", " typo ").unwrap();
    assert_eq!((ok.0.accepted_tags, ok.0.rejected_tags), (3, -3));
    assert_eq!((ok.1, ok.2.as_str()), (3, "typo"));
    assert_eq!(apply_correction(AccessRank::Admin, AccessRank::Admin, Some(m), "reject_to_accept", "3", "x").unwrap_err(), "Insufficient permissions");
    assert_eq!(apply_correction(AccessRank::Owner, AccessRank::Member, None, "reject_to_accept", "3", "x").unwrap_err(), "User is not registered");
    assert_eq!(apply_correction(AccessRank::Owner, AccessRank::Member, Some(m), "nope", "3", "x").unwrap_err(), "Unknown correction");
    assert_eq!(apply_correction(AccessRank::Owner, AccessRank::Member, Some(m), "reject_to_accept", "0", "x").unwrap_err(), "Count must be between 1 and 1000");
    assert_eq!(
        apply_correction(AccessRank::Owner, AccessRank::Member, Some(m), "void_accepted", "3", "x").unwrap_err(),
        "User only has 2 accepted tag reviews, cannot remove 3."
    );
}
