use coral::vote_store::{cleanup_review_votes, PendingVotes, VoteMessages};

#[test]
fn without_kept_votes_the_message_counts() {
    let v = PendingVotes::new();
    assert_eq!(v.load(1, 0, &vec![5], &vec![6]), (vec![5], vec![6]));
}

#[test]
fn recorded_votes_are_read_back() {
    let mut v = PendingVotes::new();
    let after = v.record(1, 0, 9, true, &vec![5], &vec![9]);
    assert_eq!(after, (vec![5, 9], vec![]));
    assert_eq!(v.load(1, 0, &vec![], &vec![]), (vec![5, 9], vec![]));
    // a second vote starts from the kept tallies, not the ones given
    let again = v.record(1, 0, 5, false, &vec![], &vec![]);
    assert_eq!(again, (vec![9], vec![5]));
    // other players and threads are untouched
    assert_eq!(v.load(1, 1, &vec![3], &vec![]), (vec![3], vec![]));
    assert_eq!(v.load(2, 0, &vec![], &vec![4]), (vec![], vec![4]));
}

#[test]
fn clearing_a_thread_forgets_only_its_votes() {
    let mut v = PendingVotes::new();
    v.record(1, 0, 9, true, &vec![], &vec![]);
    v.record(2, 0, 8, false, &vec![], &vec![]);
    v.clear_thread(1);
    assert_eq!(v.load(1, 0, &vec![7], &vec![]), (vec![7], vec![]));
    assert_eq!(v.load(2, 0, &vec![], &vec![]), (vec![], vec![8]));
}

#[test]
fn vote_messages_are_kept_until_the_thread_resolves() {
    let mut votes = PendingVotes::new();
    let mut msgs = VoteMessages::new();
    msgs.insert(10, 0, 7, 1000);
    msgs.insert(11, 0, 7, 2000);
    assert_eq!(msgs.get(10, 0, 7), Some(1000));
    assert_eq!(msgs.get(10, 1, 7), None);
    msgs.insert(10, 0, 7, 1001);
    assert_eq!(msgs.get(10, 0, 7), Some(1001));
    votes.record(10, 0, 7, true, &vec![], &vec![]);
    cleanup_review_votes(&mut votes, &mut msgs, 10);
    assert_eq!(msgs.get(10, 0, 7), None);
    assert_eq!(msgs.get(11, 0, 7), Some(2000));
    assert_eq!(votes.load(10, 0, &vec![1], &vec![]), (vec![1], vec![]));
}
