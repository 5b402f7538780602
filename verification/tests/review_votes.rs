use coral::access::AccessRank;
use coral::review_votes::{
    conflicting_tag, decide_approve, decide_reject, decide_reject_form, is_submitter,
    parse_component_ids, parse_reject_form_ids, parse_submitter_id, record_vote, review_tag_allowed,
    stored_tag_type, submit_check, thread_outcome, votes_in_effect, PlayerStatus, ThreadOutcome,
    reject_modal_id, resolution_tags, verdict_credits, ForumTags,
    VoteAction, ACCEPT_THRESHOLD, REJECT_THRESHOLD,
};

#[test]
fn votes_move_between_sides() {
    let (a, r) = record_vote(&vec![1, 2], &vec![3], 3, true);
    assert_eq!(a, vec![1, 2, 3]);
    assert!(r.is_empty());
    let (a2, r2) = record_vote(&a, &r, 3, true);
    assert_eq!((a2, r2), (vec![1, 2, 3], vec![]));
    let (a3, r3) = record_vote(&vec![1, 2], &vec![3], 1, false);
    assert_eq!((a3, r3), (vec![2], vec![3, 1]));
}

#[test]
fn thresholds() {
    assert_eq!(ACCEPT_THRESHOLD, 6);
    assert_eq!(REJECT_THRESHOLD, 3);
}

#[test]
fn approve_decisions() {
    let none: Vec<u64> = vec![];
    let d = decide_approve(AccessRank::Default, AccessRank::Member, 5, 9, Some(PlayerStatus::Pending), &none, &none, "closet_cheater");
    assert!(matches!(d.action, VoteAction::Refuse { message } if message == "You do not have permission to review submissions"));
    let d = decide_approve(AccessRank::Member, AccessRank::Member, 9, 9, Some(PlayerStatus::Pending), &none, &none, "closet_cheater");
    assert!(matches!(d.action, VoteAction::Refuse { message } if message == "You cannot review your own submission"));
    let d = decide_approve(AccessRank::Member, AccessRank::Member, 5, 9, None, &none, &none, "closet_cheater");
    assert!(matches!(d.action, VoteAction::Ignore));
    let d = decide_approve(AccessRank::Member, AccessRank::Member, 5, 9, Some(PlayerStatus::Approved), &none, &none, "closet_cheater");
    assert!(matches!(d.action, VoteAction::Refuse { message } if message == "This player has already been reviewed"));
    let d = decide_approve(AccessRank::Member, AccessRank::Member, 5, 9, Some(PlayerStatus::Pending), &vec![5], &none, "closet_cheater");
    assert!(matches!(d.action, VoteAction::Refuse { message } if message == "You have already voted to accept this player"));
    let d = decide_approve(AccessRank::Helper, AccessRank::Member, 5, 9, Some(PlayerStatus::Pending), &vec![1, 2], &none, "closet_cheater");
    assert!(d.recorded.is_none());
    match d.action {
        VoteAction::Approve { reviewed_by, accurate, by_staff } => {
            assert_eq!(reviewed_by, vec![5]);
            assert_eq!(accurate, vec![1, 2]);
            assert!(by_staff);
        }
        _ => panic!("staff approval expected"),
    }
    let d = decide_approve(AccessRank::Member, AccessRank::Member, 5, 9, Some(PlayerStatus::Pending), &vec![1], &vec![5], "closet_cheater");
    assert_eq!(d.recorded, Some((vec![1, 5], vec![])));
    assert!(matches!(d.action, VoteAction::Announce { changed: true }));
    let d = decide_approve(AccessRank::Member, AccessRank::Member, 6, 9, Some(PlayerStatus::Pending), &vec![1, 2, 3, 4, 5], &none, "blatant_cheater");
    match d.action {
        VoteAction::Approve { reviewed_by, accurate, by_staff } => {
            assert_eq!(reviewed_by, vec![1, 2, 3, 4, 5, 6]);
            assert_eq!(accurate, vec![1, 2, 3, 4, 5, 6]);
            assert!(!by_staff);
        }
        _ => panic!("unanimous approval expected"),
    }
    let d = decide_approve(AccessRank::Helper, AccessRank::Member, 5, 9, Some(PlayerStatus::Pending), &none, &none, "sniper");
    assert!(matches!(d.action, VoteAction::Refuse { message } if message == "Invalid tag type in submission"));
}

#[test]
fn reject_decisions() {
    let none: Vec<u64> = vec![];
    let d = decide_reject(AccessRank::Helper, AccessRank::Member, 5, 9, Some(PlayerStatus::Pending), &none, &none);
    assert!(matches!(d.action, VoteAction::OpenRejectForm));
    let d = decide_reject(AccessRank::Member, AccessRank::Member, 5, 9, Some(PlayerStatus::Pending), &none, &vec![1, 2]);
    assert_eq!(d.recorded, Some((vec![], vec![1, 2, 5])));
    match d.action {
        VoteAction::Reject { accurate } => assert_eq!(accurate, vec![1, 2, 5]),
        _ => panic!("unanimous rejection expected"),
    }
    assert!(matches!(decide_reject_form(None, &none), VoteAction::Ignore));
    assert!(matches!(decide_reject_form(Some(PlayerStatus::Rejected), &none), VoteAction::Refuse { .. }));
    match decide_reject_form(Some(PlayerStatus::Pending), &vec![4]) {
        VoteAction::Reject { accurate } => assert_eq!(accurate, vec![4]),
        _ => panic!("rejection expected"),
    }
}

#[test]
fn vote_button_ids() {
    assert_eq!(parse_component_ids("review_approve:2:99"), (2, 99));
    assert_eq!(parse_component_ids("review_approve"), (0, 0));
    assert_eq!(parse_component_ids("review_approve:x:y"), (0, 0));
    assert_eq!(parse_submitter_id("review_submit:77"), Some(77));
    assert_eq!(parse_submitter_id("review_submit:abc"), None);
    assert!(is_submitter("review_add_replay:1:77", 77));
    assert!(!is_submitter("review_add_replay:1:77", 78));
    assert_eq!(parse_reject_form_ids("review_reject_modal:3:12"), Some((3, 12)));
    assert_eq!(parse_reject_form_ids("review_reject_modal:3"), None);
}

#[test]
fn threads_and_submissions() {
    assert_eq!(thread_outcome(&vec![PlayerStatus::Approved, PlayerStatus::Pending]), None);
    assert_eq!(thread_outcome(&vec![PlayerStatus::Approved, PlayerStatus::Approved]), Some(ThreadOutcome::Approved));
    assert_eq!(thread_outcome(&vec![PlayerStatus::Rejected]), Some(ThreadOutcome::Rejected));
    assert_eq!(thread_outcome(&vec![PlayerStatus::Approved, PlayerStatus::Rejected]), Some(ThreadOutcome::Mixed));
    assert_eq!(submit_check(&vec![]), Err("Add at least one player before submitting"));
    assert_eq!(
        submit_check(&vec![0, 0]),
        Err("Add at least one piece of evidence (replay or attachment) before submitting")
    );
    assert_eq!(submit_check(&vec![0, 2]), Ok(()));
}

#[test]
fn tags() {
    assert!(review_tag_allowed("closet_cheater"));
    assert!(review_tag_allowed("blatant_cheater"));
    assert!(!review_tag_allowed("sniper"));
    assert_eq!(stored_tag_type("closet_cheater", 2), "confirmed_cheater");
    assert_eq!(stored_tag_type("closet_cheater", 0), "closet_cheater");
    assert_eq!(stored_tag_type("sniper", 3), "sniper");
    assert_eq!(conflicting_tag(2, &vec![1, 2, 2]), Some(1));
    assert_eq!(conflicting_tag(5, &vec![1, 2]), None);
    let (a, r) = votes_in_effect(None, &vec![1], &vec![2]);
    assert_eq!((a, r), (vec![1], vec![2]));
}

#[test]
fn reject_form_and_resolution() {
    assert_eq!(reject_modal_id(2, 77), "review_reject_modal:2:77");
    let tags = ForumTags { pending: Some(1), approved: Some(2), rejected: None, awaiting_evidence: Some(4) };
    assert_eq!(resolution_tags(ThreadOutcome::Approved, tags), vec![2]);
    assert_eq!(resolution_tags(ThreadOutcome::Rejected, tags), Vec::<u64>::new());
    assert_eq!(resolution_tags(ThreadOutcome::Mixed, tags), vec![1]);
    let c = verdict_credits(&VoteAction::Reject { accurate: vec![5, 6] }).unwrap();
    assert!(!c.accepted_tag);
    assert_eq!(c.accurate, vec![5, 6]);
    let a = verdict_credits(&VoteAction::Approve { reviewed_by: vec![9], accurate: vec![], by_staff: true }).unwrap();
    assert!(a.accepted_tag && a.accurate.is_empty());
    assert!(verdict_credits(&VoteAction::OpenRejectForm).is_none());
}
