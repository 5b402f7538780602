use coral::review_guard::{guard_action, GuardAction};

#[test]
fn bots_are_never_cleared() {
    assert_eq!(guard_action(true, 1, 9, Some(9), Some(2)), GuardAction::Keep);
}

#[test]
fn guide_thread_replies_are_cleared() {
    assert_eq!(guard_action(false, 1, 9, Some(9), Some(1)), GuardAction::DeleteFromGuide);
}

#[test]
fn only_the_submitter_writes_while_assembling() {
    assert_eq!(guard_action(false, 1, 9, Some(8), Some(1)), GuardAction::Keep);
    assert_eq!(guard_action(false, 3, 9, None, Some(1)), GuardAction::DeleteFromAssembly);
    assert_eq!(guard_action(false, 3, 9, None, None), GuardAction::Keep);
}
