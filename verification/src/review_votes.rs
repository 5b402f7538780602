//! Community voting on tag-review submissions: how a vote changes the tallies
//! of a player, when the tallies settle the review, and what a click on the
//! approve or reject button does.

use vstd::prelude::*;
use crate::access::{AccessRank, is_review_staff};
use crate::review_messages::id2;
use crate::text::{decimal_chars, push_chars, push_str};
use crate::text::{chars_of, parse_u64, parse_usize, split_chars, split_on, starts_with, str_eq, suffix_from, u64_in, u64_or_zero, usize_or_zero, views, has_prefix};

verus! {

/// Accept votes that settle a review, if nobody voted to reject.
pub const ACCEPT_THRESHOLD: usize = 6;

/// Reject votes that settle a review, if nobody voted to accept.
pub const REJECT_THRESHOLD: usize = 3;

/// The review state of one player of a submission.
#[derive(Clone, Copy, Debug, PartialEq, Eq, Structural)]
pub enum PlayerStatus {
    Pending,
    Approved,
    Rejected,
}

/// The test "differs from `x`".
pub open spec fn differs_from(x: u64) -> spec_fn(u64) -> bool {
    |y: u64| y != x
}

/// `s` without the entries equal to `x`.
pub open spec fn without(s: Seq<u64>, x: u64) -> Seq<u64> {
    s.filter(differs_from(x))
}

/// `s` with `x` appended unless it is already there.
pub open spec fn with(s: Seq<u64>, x: u64) -> Seq<u64> {
    if s.contains(x) { s } else { s.push(x) }
}

/// The (accept, reject) tallies after `voter` votes to accept (or reject):
/// the voter joins that side once and leaves the other.
pub open spec fn after_vote(accepts: Seq<u64>, rejects: Seq<u64>, voter: u64, accept: bool) -> (Seq<u64>, Seq<u64>) {
    if accept {
        (with(accepts, voter), without(rejects, voter))
    } else {
        (without(accepts, voter), with(rejects, voter))
    }
}

/// Whether `v` holds `x`.
pub fn contains_id(v: &Vec<u64>, x: u64) -> (r: bool)
    ensures
        r == v@.contains(x),
{
    let mut i: usize = 0;
    while i < v.len()
        invariant
            i <= v.len(),
            forall|j: int| 0 <= j < i ==> v@[j] != x,
        decreases v.len() - i,
    {
        if v[i] == x {
            assert(v@[i as int] == x);
            return true;
        }
        i = i + 1;
    }
    false
}

/// `v` without the entries equal to `x`.
pub fn remove_id(v: &Vec<u64>, x: u64) -> (r: Vec<u64>)
    ensures
        r@ == without(v@, x),
{
    let ghost pred = differs_from(x);
    let mut r: Vec<u64> = Vec::new();
    let mut i: usize = 0;
    while i < v.len()
        invariant
            i <= v.len(),
            pred == differs_from(x),
            r@ == v@.take(i as int).filter(pred),
        decreases v.len() - i,
    {
        if v[i] != x {
            r.push(v[i]);
        }
        proof {
            assert(v@.take(i + 1) == v@.take(i as int).push(v@[i as int]));
            v@.take(i as int).lemma_filter_push(v@[i as int], pred);
        }
        i = i + 1;
    }
    assert(v@.take(v.len() as int) == v@);
    r
}

/// The tallies after `voter` votes, as `(accepts, rejects)`.
pub fn record_vote(accepts: &Vec<u64>, rejects: &Vec<u64>, voter: u64, accept: bool) -> (r: (Vec<u64>, Vec<u64>))
    ensures
        (r.0@, r.1@) == after_vote(accepts@, rejects@, voter, accept),
{
    if accept {
        let mut a = accepts.clone();
        if !contains_id(accepts, voter) {
            a.push(voter);
        }
        (a, remove_id(rejects, voter))
    } else {
        let mut b = rejects.clone();
        if !contains_id(rejects, voter) {
            b.push(voter);
        }
        (remove_id(accepts, voter), b)
    }
}

/// The tallies in effect for a player: those kept in memory since the last
/// redraw when there are any, else those read back from the message.
pub fn votes_in_effect(
    stored: Option<(Vec<u64>, Vec<u64>)>,
    parsed_accepts: &Vec<u64>,
    parsed_rejects: &Vec<u64>,
) -> (r: (Vec<u64>, Vec<u64>))
    ensures
        match stored {
            Some((a, b)) => r.0@ == a@ && r.1@ == b@,
            None => r.0@ == parsed_accepts@ && r.1@ == parsed_rejects@,
        },
{
    match stored {
        Some((a, b)) => (a, b),
        None => (parsed_accepts.clone(), parsed_rejects.clone()),
    }
}

/// Whether the tallies settle a review as accepted: no reject votes and
/// enough accept votes.
pub open spec fn accepted_unanimously(accepts: Seq<u64>, rejects: Seq<u64>) -> bool {
    rejects.len() == 0 && accepts.len() >= ACCEPT_THRESHOLD
}

/// Whether the tallies settle a review as rejected: no accept votes and
/// enough reject votes.
pub open spec fn rejected_unanimously(accepts: Seq<u64>, rejects: Seq<u64>) -> bool {
    accepts.len() == 0 && rejects.len() >= REJECT_THRESHOLD
}

/// The tag types a submission may ask for.
pub open spec fn is_review_tag(t: Seq<char>) -> bool {
    t == "closet_cheater"@ || t == "blatant_cheater"@
}

/// Whether `tag_type` may be submitted for review.
pub fn review_tag_allowed(tag_type: &str) -> (r: bool)
    ensures
        r == is_review_tag(tag_type@),
{
    str_eq(tag_type, "closet_cheater") || str_eq(tag_type, "blatant_cheater")
}

/// What a click on a vote button leads to.
#[derive(Debug)]
pub enum VoteAction {
    /// Tell the voter why the click does nothing.
    Refuse { message: &'static str },
    /// Drop the click silently (the submission or the player is gone).
    Ignore,
    /// Redraw the tallies and announce the vote; `changed` when the voter
    /// switched sides.
    Announce { changed: bool },
    /// Apply the tag: `reviewed_by` signs it off, `accurate` are credited
    /// with an accurate verdict.
    Approve { reviewed_by: Vec<u64>, accurate: Vec<u64>, by_staff: bool },
    /// Ask a staff member for the rejection reason.
    OpenRejectForm,
    /// Reject the player: `accurate` are credited with an accurate verdict.
    Reject { accurate: Vec<u64> },
}

/// The outcome of a click: tallies to keep in memory, if the vote was
/// recorded, and the action.
#[derive(Debug)]
pub struct VoteDecision {
    pub recorded: Option<(Vec<u64>, Vec<u64>)>,
    pub action: VoteAction,
}

/// Whether a decision keeps the given tallies in memory.
pub open spec fn records(d: VoteDecision, accepts: Seq<u64>, rejects: Seq<u64>) -> bool {
    d.recorded is Some && d.recorded->Some_0.0@ == accepts && d.recorded->Some_0.1@ == rejects
}

/// Whether a decision refuses the click with `msg`.
pub open spec fn refuses(d: VoteDecision, msg: Seq<char>) -> bool {
    d.action is Refuse && d.action->Refuse_message@ == msg
}

/// Decides a click on "approve" for a player of a submission.
///
/// `status` is `None` when the submission or the player cannot be found;
/// `accepts` and `rejects` are the tallies in effect.
pub fn decide_approve(
    rank: AccessRank,
    min_rank: AccessRank,
    voter: u64,
    submitter: u64,
    status: Option<PlayerStatus>,
    accepts: &Vec<u64>,
    rejects: &Vec<u64>,
    tag_type: &str,
) -> (d: VoteDecision)
    ensures
        rank.level() < min_rank.level() ==> refuses(d, "You do not have permission to review submissions"@) && d.recorded is None,
        rank.level() >= min_rank.level() && voter == submitter ==> refuses(d, "You cannot review your own submission"@) && d.recorded is None,
        rank.level() >= min_rank.level() && voter != submitter ==> match status {
            None => d.action is Ignore && d.recorded is None,
            Some(s) => if s != PlayerStatus::Pending {
                refuses(d, "This player has already been reviewed"@) && d.recorded is None
            } else if accepts@.contains(voter) {
                refuses(d, "You have already voted to accept this player"@) && d.recorded is None
            } else if rank.level() >= AccessRank::Helper.level() {
                d.recorded is None && if is_review_tag(tag_type@) {
                    d.action is Approve && d.action->Approve_reviewed_by@ == seq![voter]
                        && d.action->Approve_accurate@ == accepts@ && d.action->Approve_by_staff
                } else {
                    refuses(d, "Invalid tag type in submission"@)
                }
            } else {
                let (na, nr) = after_vote(accepts@, rejects@, voter, true);
                records(d, na, nr) && if !accepted_unanimously(na, nr) {
                    d.action == VoteAction::Announce { changed: rejects@.contains(voter) }
                } else if is_review_tag(tag_type@) {
                    d.action is Approve && d.action->Approve_reviewed_by@ == na && d.action->Approve_accurate@ == na
                        && !d.action->Approve_by_staff
                } else {
                    refuses(d, "Invalid tag type in submission"@)
                }
            },
        },
        d.action is Approve && !d.action->Approve_by_staff ==> d.recorded is Some
            && d.recorded->Some_0.1@.len() == 0 && d.recorded->Some_0.0@.len() >= 6,
        d.recorded is Some && d.recorded->Some_0.1@.len() > 0 ==> d.action is Announce,
{
    if !rank.at_least(min_rank) {
        return VoteDecision { recorded: None, action: VoteAction::Refuse { message: "You do not have permission to review submissions" } };
    }
    if voter == submitter {
        return VoteDecision { recorded: None, action: VoteAction::Refuse { message: "You cannot review your own submission" } };
    }
    let s = match status {
        None => return VoteDecision { recorded: None, action: VoteAction::Ignore },
        Some(s) => s,
    };
    if s != PlayerStatus::Pending {
        return VoteDecision { recorded: None, action: VoteAction::Refuse { message: "This player has already been reviewed" } };
    }
    if contains_id(accepts, voter) {
        return VoteDecision { recorded: None, action: VoteAction::Refuse { message: "You have already voted to accept this player" } };
    }
    let changing = contains_id(rejects, voter);
    if is_review_staff(rank) {
        if !review_tag_allowed(tag_type) {
            return VoteDecision { recorded: None, action: VoteAction::Refuse { message: "Invalid tag type in submission" } };
        }
        let mut by: Vec<u64> = Vec::new();
        by.push(voter);
        assert(by@ == seq![voter]);
        return VoteDecision {
            recorded: None,
            action: VoteAction::Approve { reviewed_by: by, accurate: accepts.clone(), by_staff: true },
        };
    }
    let (na, nr) = record_vote(accepts, rejects, voter, true);
    let unanimous = nr.len() == 0 && na.len() >= ACCEPT_THRESHOLD;
    if !unanimous {
        return VoteDecision { recorded: Some((na, nr)), action: VoteAction::Announce { changed: changing } };
    }
    if !review_tag_allowed(tag_type) {
        return VoteDecision { recorded: Some((na, nr)), action: VoteAction::Refuse { message: "Invalid tag type in submission" } };
    }
    let by = na.clone();
    let acc = na.clone();
    VoteDecision {
        recorded: Some((na, nr)),
        action: VoteAction::Approve { reviewed_by: by, accurate: acc, by_staff: false },
    }
}

/// Decides a click on "reject" for a player of a submission. Staff are asked
/// for a reason; other voters add to the tallies.
pub fn decide_reject(
    rank: AccessRank,
    min_rank: AccessRank,
    voter: u64,
    submitter: u64,
    status: Option<PlayerStatus>,
    accepts: &Vec<u64>,
    rejects: &Vec<u64>,
) -> (d: VoteDecision)
    ensures
        rank.level() < min_rank.level() ==> refuses(d, "You do not have permission to review submissions"@) && d.recorded is None,
        rank.level() >= min_rank.level() && voter == submitter ==> refuses(d, "You cannot review your own submission"@) && d.recorded is None,
        rank.level() >= min_rank.level() && voter != submitter && rank.level() >= AccessRank::Helper.level()
            ==> d.action is OpenRejectForm && d.recorded is None,
        rank.level() >= min_rank.level() && voter != submitter && rank.level() < AccessRank::Helper.level() ==> match status {
            None => d.action is Ignore && d.recorded is None,
            Some(s) => if s != PlayerStatus::Pending {
                refuses(d, "This player has already been reviewed"@) && d.recorded is None
            } else if rejects@.contains(voter) {
                refuses(d, "You have already voted to reject this player"@) && d.recorded is None
            } else {
                let (na, nr) = after_vote(accepts@, rejects@, voter, false);
                records(d, na, nr) && if !rejected_unanimously(na, nr) {
                    d.action == VoteAction::Announce { changed: accepts@.contains(voter) }
                } else {
                    d.action is Reject && d.action->Reject_accurate@ == nr
                }
            },
        },
        d.action is Reject ==> d.recorded is Some && d.recorded->Some_0.0@.len() == 0
            && d.recorded->Some_0.1@.len() >= 3,
        d.recorded is Some && d.recorded->Some_0.0@.len() > 0 ==> d.action is Announce,
{
    if !rank.at_least(min_rank) {
        return VoteDecision { recorded: None, action: VoteAction::Refuse { message: "You do not have permission to review submissions" } };
    }
    if voter == submitter {
        return VoteDecision { recorded: None, action: VoteAction::Refuse { message: "You cannot review your own submission" } };
    }
    if is_review_staff(rank) {
        return VoteDecision { recorded: None, action: VoteAction::OpenRejectForm };
    }
    let s = match status {
        None => return VoteDecision { recorded: None, action: VoteAction::Ignore },
        Some(s) => s,
    };
    if s != PlayerStatus::Pending {
        return VoteDecision { recorded: None, action: VoteAction::Refuse { message: "This player has already been reviewed" } };
    }
    if contains_id(rejects, voter) {
        return VoteDecision { recorded: None, action: VoteAction::Refuse { message: "You have already voted to reject this player" } };
    }
    let changing = contains_id(accepts, voter);
    let (na, nr) = record_vote(accepts, rejects, voter, false);
    let unanimous = na.len() == 0 && nr.len() >= REJECT_THRESHOLD;
    if !unanimous {
        return VoteDecision { recorded: Some((na, nr)), action: VoteAction::Announce { changed: changing } };
    }
    let acc = nr.clone();
    VoteDecision { recorded: Some((na, nr)), action: VoteAction::Reject { accurate: acc } }
}


/// The player index and submitter id carried by a vote button's id
/// `<action>:<player>:<submitter>`; a missing or malformed part reads as 0.
pub open spec fn component_ids(custom_id: Seq<char>) -> (usize, u64) {
    let p = split_on(custom_id, ':');
    (
        if p.len() > 1 { usize_or_zero(p[1]) } else { 0 },
        if p.len() > 2 { u64_or_zero(p[2]) } else { 0 },
    )
}

fn usize_or_zero_of(s: &Vec<char>) -> (r: usize)
    ensures
        r == usize_or_zero(s@),
{
    match parse_usize(s) {
        Some(v) => v,
        None => 0,
    }
}

fn u64_or_zero_of(s: &Vec<char>) -> (r: u64)
    ensures
        r == u64_or_zero(s@),
{
    match parse_u64(s) {
        Some(v) => v,
        None => 0,
    }
}

/// The player index and submitter id of a vote button.
pub fn parse_component_ids(custom_id: &str) -> (r: (usize, u64))
    ensures
        r == component_ids(custom_id@),
{
    let v = chars_of(custom_id);
    let p = split_chars(&v, ':');
    let idx = if p.len() > 1 { usize_or_zero_of(&p[1]) } else { 0 };
    let sub = if p.len() > 2 { u64_or_zero_of(&p[2]) } else { 0 };
    (idx, sub)
}

/// The submitter id at the end of a builder button's id.
pub fn parse_submitter_id(custom_id: &str) -> (r: Option<u64>)
    ensures
        r == u64_in(split_on(custom_id@, ':').last()),
{
    let v = chars_of(custom_id);
    let p = split_chars(&v, ':');
    let last = &p[p.len() - 1];
    parse_u64(last)
}

/// Whether `user` created the submission a builder button belongs to.
pub fn is_submitter(custom_id: &str, user: u64) -> (r: bool)
    ensures
        r == (match u64_in(split_on(custom_id@, ':').last()) {
            Some(id) => id == user,
            None => 0 == user,
        }),
{
    match parse_submitter_id(custom_id) {
        Some(id) => id == user,
        None => 0 == user,
    }
}

/// The player index and submitter id of a staff rejection form
/// `review_reject_modal:<player>:<submitter>`.
pub open spec fn reject_form_ids(custom_id: Seq<char>) -> Option<(usize, u64)> {
    let rest = if has_prefix(custom_id, "review_reject_modal:"@) {
        custom_id.skip(20)
    } else {
        Seq::<char>::empty()
    };
    let p = split_on(rest, ':');
    if p.len() < 2 { None } else { Some((usize_or_zero(p[0]), u64_or_zero(p[1]))) }
}

/// The player index and submitter id of a staff rejection form.
pub fn parse_reject_form_ids(custom_id: &str) -> (r: Option<(usize, u64)>)
    ensures
        r == reject_form_ids(custom_id@),
{
    let v = chars_of(custom_id);
    proof {
        reveal_strlit("review_reject_modal:");
    }
    let rest = if starts_with(&v, "review_reject_modal:") { suffix_from(&v, 20) } else { Vec::new() };
    assert(rest@ == (if has_prefix(custom_id@, "review_reject_modal:"@) { custom_id@.skip(20) } else { Seq::<char>::empty() }));
    let p = split_chars(&rest, ':');
    if p.len() < 2 {
        return None;
    }
    Some((usize_or_zero_of(&p[0]), u64_or_zero_of(&p[1])))
}

/// Decides a staff rejection form sent for a player whose status is `status`
/// (`None` when it cannot be found): the reject votes on record are credited.
pub fn decide_reject_form(status: Option<PlayerStatus>, rejects: &Vec<u64>) -> (a: VoteAction)
    ensures
        match status {
            None => a is Ignore,
            Some(s) => if s != PlayerStatus::Pending {
                a is Refuse && a->Refuse_message@ == "This player has already been reviewed"@
            } else {
                a is Reject && a->Reject_accurate@ == rejects@
            },
        },
{
    match status {
        None => VoteAction::Ignore,
        Some(s) => {
            if s != PlayerStatus::Pending {
                VoteAction::Refuse { message: "This player has already been reviewed" }
            } else {
                VoteAction::Reject { accurate: rejects.clone() }
            }
        },
    }
}

/// The forum tag a resolved review thread gets.
#[derive(Clone, Copy, Debug, PartialEq, Eq, Structural)]
pub enum ThreadOutcome {
    Approved,
    Rejected,
    Mixed,
}

/// The outcome of a thread once no player is pending: approved when every
/// player was approved, rejected when every player was rejected, else mixed.
pub open spec fn thread_outcome_of(statuses: Seq<PlayerStatus>) -> Option<ThreadOutcome> {
    if exists|i: int| 0 <= i < statuses.len() && statuses[i] == PlayerStatus::Pending {
        None
    } else if forall|i: int| 0 <= i < statuses.len() ==> statuses[i] == PlayerStatus::Approved {
        Some(ThreadOutcome::Approved)
    } else if forall|i: int| 0 <= i < statuses.len() ==> statuses[i] == PlayerStatus::Rejected {
        Some(ThreadOutcome::Rejected)
    } else {
        Some(ThreadOutcome::Mixed)
    }
}

/// Whether a review thread is resolved, and with which outcome.
pub fn thread_outcome(statuses: &Vec<PlayerStatus>) -> (r: Option<ThreadOutcome>)
    ensures
        r == thread_outcome_of(statuses@),
{
    let mut all_approved = true;
    let mut all_rejected = true;
    let mut i: usize = 0;
    while i < statuses.len()
        invariant
            i <= statuses.len(),
            forall|j: int| 0 <= j < i ==> statuses@[j] != PlayerStatus::Pending,
            all_approved == (forall|j: int| 0 <= j < i ==> statuses@[j] == PlayerStatus::Approved),
            all_rejected == (forall|j: int| 0 <= j < i ==> statuses@[j] == PlayerStatus::Rejected),
        decreases statuses.len() - i,
    {
        let s = statuses[i];
        if s == PlayerStatus::Pending {
            assert(statuses@[i as int] == PlayerStatus::Pending);
            return None;
        }
        if s != PlayerStatus::Approved {
            all_approved = false;
        }
        if s != PlayerStatus::Rejected {
            all_rejected = false;
        }
        i = i + 1;
    }
    if all_approved {
        Some(ThreadOutcome::Approved)
    } else if all_rejected {
        Some(ThreadOutcome::Rejected)
    } else {
        Some(ThreadOutcome::Mixed)
    }
}

/// Checks that a submission may go to a vote, given how many pieces of
/// evidence each of its players has.
pub fn submit_check(evidence_counts: &Vec<usize>) -> (r: Result<(), &'static str>)
    ensures
        evidence_counts@.len() == 0 ==> r is Err && r->Err_0@ == "Add at least one player before submitting"@,
        evidence_counts@.len() > 0 && (forall|i: int| 0 <= i < evidence_counts@.len() ==> evidence_counts@[i] == 0)
            ==> r is Err && r->Err_0@ == "Add at least one piece of evidence (replay or attachment) before submitting"@,
        (exists|i: int| 0 <= i < evidence_counts@.len() && evidence_counts@[i] > 0) ==> r is Ok,
{
    if evidence_counts.len() == 0 {
        return Err("Add at least one player before submitting");
    }
    let mut i: usize = 0;
    while i < evidence_counts.len()
        invariant
            i <= evidence_counts.len(),
            forall|j: int| 0 <= j < i ==> evidence_counts@[j] == 0,
        decreases evidence_counts.len() - i,
    {
        if evidence_counts[i] > 0 {
            return Ok(());
        }
        i = i + 1;
    }
    Err("Add at least one piece of evidence (replay or attachment) before submitting")
}

/// The tag type an approved review stores: a review tag backed by media
/// becomes a confirmed cheater tag.
pub open spec fn stored_tag(tag_type: Seq<char>, media_count: nat) -> Seq<char> {
    if media_count > 0 && is_review_tag(tag_type) { "confirmed_cheater"@ } else { tag_type }
}

/// The tag type an approved review stores.
pub fn stored_tag_type(tag_type: &str, media_count: usize) -> (r: String)
    ensures
        r@ == stored_tag(tag_type@, media_count as nat),
{
    if media_count > 0 && review_tag_allowed(tag_type) {
        let v = chars_of("confirmed_cheater");
        crate::text::string_of(&v)
    } else {
        let v = chars_of(tag_type);
        crate::text::string_of(&v)
    }
}

/// The first active tag whose lane priority equals that of the new tag; it is
/// replaced when the review is approved.
pub fn conflicting_tag(new_priority: u8, existing_priorities: &Vec<u8>) -> (r: Option<usize>)
    ensures
        match r {
            Some(i) => i < existing_priorities@.len() && existing_priorities@[i as int] == new_priority
                && forall|j: int| 0 <= j < i ==> existing_priorities@[j] != new_priority,
            None => forall|j: int| 0 <= j < existing_priorities@.len() ==> existing_priorities@[j] != new_priority,
        },
{
    let mut i: usize = 0;
    while i < existing_priorities.len()
        invariant
            i <= existing_priorities.len(),
            forall|j: int| 0 <= j < i ==> existing_priorities@[j] != new_priority,
        decreases existing_priorities.len() - i,
    {
        if existing_priorities[i] == new_priority {
            return Some(i);
        }
        i = i + 1;
    }
    None
}

/// After a vote, the voter stands on the side it voted for and only there.
pub proof fn vote_joins_one_side(accepts: Seq<u64>, rejects: Seq<u64>, voter: u64, accept: bool)
    ensures
        ({
            let (a, r) = after_vote(accepts, rejects, voter, accept);
            if accept { a.contains(voter) && !r.contains(voter) } else { r.contains(voter) && !a.contains(voter) }
        }),
{
    let (a, r) = after_vote(accepts, rejects, voter, accept);
    if accept {
        if !accepts.contains(voter) {
            assert(a[a.len() - 1] == voter);
        }
        lemma_without_drops(rejects, voter);
    } else {
        if !rejects.contains(voter) {
            assert(r[r.len() - 1] == voter);
        }
        lemma_without_drops(accepts, voter);
    }
}

proof fn lemma_without_drops(s: Seq<u64>, x: u64)
    ensures
        !without(s, x).contains(x),
        forall|y: u64| y != x ==> (without(s, x).contains(y) <==> s.contains(y)),
{
    broadcast use vstd::seq_lib::group_filter_ensures;
    let w = without(s, x);
    if w.contains(x) {
        let k = choose|k: int| 0 <= k < w.len() && w[k] == x;
        assert(differs_from(x)(w[k]));
    }
    assert forall|y: u64| y != x implies (without(s, x).contains(y) <==> s.contains(y)) by {
        if s.contains(y) {
            let k = choose|k: int| 0 <= k < s.len() && s[k] == y;
            s.lemma_filter_contains(differs_from(x), k);
        }
        if w.contains(y) {
            s.lemma_filter_contains_rev(differs_from(x), y);
        }
    }
}

/// Voting the same way twice counts once.
pub proof fn repeated_vote_changes_nothing(accepts: Seq<u64>, rejects: Seq<u64>, voter: u64, accept: bool)
    ensures
        ({
            let (a1, r1) = after_vote(accepts, rejects, voter, accept);
            after_vote(a1, r1, voter, accept) == (a1, r1)
        }),
{
    let (a1, r1) = after_vote(accepts, rejects, voter, accept);
    vote_joins_one_side(accepts, rejects, voter, accept);
    if accept {
        lemma_without_absent(r1, voter);
    } else {
        lemma_without_absent(a1, voter);
    }
}

proof fn lemma_without_absent(s: Seq<u64>, x: u64)
    requires
        !s.contains(x),
    ensures
        without(s, x) == s,
    decreases s.len(),
{
    reveal_with_fuel(Seq::filter, 1);
    if s.len() > 0 {
        assert(!s.drop_last().contains(x)) by {
            if s.drop_last().contains(x) {
                let k = choose|k: int| 0 <= k < s.drop_last().len() && s.drop_last()[k] == x;
                assert(s[k] == x);
            }
        }
        lemma_without_absent(s.drop_last(), x);
        assert(s.last() != x) by {
            assert(s[s.len() - 1] == s.last());
        }
        assert(s.drop_last().push(s.last()) == s);
        s.drop_last().lemma_filter_push(s.last(), differs_from(x));
    }
}

/// A vote changes nothing about where any other voter stands.
pub proof fn vote_leaves_other_voters(accepts: Seq<u64>, rejects: Seq<u64>, voter: u64, accept: bool, other: u64)
    requires
        other != voter,
    ensures
        ({
            let (a, r) = after_vote(accepts, rejects, voter, accept);
            (a.contains(other) <==> accepts.contains(other)) && (r.contains(other) <==> rejects.contains(other))
        }),
{
    lemma_without_drops(rejects, voter);
    lemma_without_drops(accepts, voter);
    let (a, r) = after_vote(accepts, rejects, voter, accept);
    if accept && !accepts.contains(voter) {
        assert(a == accepts.push(voter));
        assert(a.contains(other) ==> accepts.contains(other)) by {
            if a.contains(other) {
                let k = choose|k: int| 0 <= k < a.len() && a[k] == other;
                assert(k < accepts.len());
            }
        }
        assert(accepts.contains(other) ==> a.contains(other)) by {
            if accepts.contains(other) {
                let k = choose|k: int| 0 <= k < accepts.len() && accepts[k] == other;
                assert(a[k] == other);
            }
        }
    }
    if !accept && !rejects.contains(voter) {
        assert(r == rejects.push(voter));
        assert(r.contains(other) ==> rejects.contains(other)) by {
            if r.contains(other) {
                let k = choose|k: int| 0 <= k < r.len() && r[k] == other;
                assert(k < rejects.len());
            }
        }
        assert(rejects.contains(other) ==> r.contains(other)) by {
            if rejects.contains(other) {
                let k = choose|k: int| 0 <= k < rejects.len() && rejects[k] == other;
                assert(r[k] == other);
            }
        }
    }
}

/// If no voter stands on both sides before a vote, none does after it.
pub proof fn sides_stay_disjoint(accepts: Seq<u64>, rejects: Seq<u64>, voter: u64, accept: bool)
    requires
        forall|x: u64| !(accepts.contains(x) && rejects.contains(x)),
    ensures
        ({
            let (a, r) = after_vote(accepts, rejects, voter, accept);
            forall|x: u64| !(a.contains(x) && r.contains(x))
        }),
{
    let (a, r) = after_vote(accepts, rejects, voter, accept);
    vote_joins_one_side(accepts, rejects, voter, accept);
    assert forall|x: u64| !(a.contains(x) && r.contains(x)) by {
        if x != voter {
            vote_leaves_other_voters(accepts, rejects, voter, accept, x);
        }
    }
}


/// The id of the form that asks a staff member why player `player` of the
/// submission by `submitter` is rejected.
pub fn reject_modal_id(player: usize, submitter: u64) -> (r: String)
    ensures
        r@ == id2("review_reject_modal:"@, player as nat, submitter as nat),
{
    let mut out: Vec<char> = Vec::new();
    push_str(&mut out, "review_reject_modal:");
    push_chars(&mut out, &decimal_chars(player as u64));
    push_str(&mut out, ":");
    push_chars(&mut out, &decimal_chars(submitter));
    crate::text::string_of(&out)
}

/// The forum tags of the review forum, each where it is configured.
#[derive(Clone, Copy, Debug)]
pub struct ForumTags {
    pub pending: Option<u64>,
    pub approved: Option<u64>,
    pub rejected: Option<u64>,
    pub awaiting_evidence: Option<u64>,
}

/// The forum tags a resolved thread gets: the approved tag when every player
/// was approved, the rejected tag when every player was rejected, else the
/// pending tag; none where that tag is not configured.
pub open spec fn resolution_tags_of(outcome: ThreadOutcome, tags: ForumTags) -> Seq<u64> {
    let chosen = match outcome {
        ThreadOutcome::Approved => tags.approved,
        ThreadOutcome::Rejected => tags.rejected,
        ThreadOutcome::Mixed => tags.pending,
    };
    match chosen {
        Some(t) => seq![t],
        None => Seq::empty(),
    }
}

pub fn resolution_tags(outcome: ThreadOutcome, tags: ForumTags) -> (r: Vec<u64>)
    ensures
        r@ == resolution_tags_of(outcome, tags),
{
    let chosen = match outcome {
        ThreadOutcome::Approved => tags.approved,
        ThreadOutcome::Rejected => tags.rejected,
        ThreadOutcome::Mixed => tags.pending,
    };
    let mut r: Vec<u64> = Vec::new();
    match chosen {
        Some(t) => {
            r.push(t);
            assert(r@ =~= seq![t]);
        },
        None => {},
    }
    r
}

/// What a verdict credits to the members' counters: the submitter's
/// accepted or rejected tags grow by one, and each member in `accurate` gets
/// one accurate verdict.
#[derive(Debug)]
pub struct VerdictCredits {
    pub accepted_tag: bool,
    pub accurate: Vec<u64>,
}

/// The credits of an action: an approval credits an accepted tag, a rejection
/// a rejected one, each with the members it names as accurate; other actions
/// credit nothing.
pub fn verdict_credits(action: &VoteAction) -> (r: Option<VerdictCredits>)
    ensures
        match action {
            VoteAction::Approve { accurate, .. } => r is Some && r->Some_0.accepted_tag && r->Some_0.accurate@ == accurate@,
            VoteAction::Reject { accurate } => r is Some && !r->Some_0.accepted_tag && r->Some_0.accurate@ == accurate@,
            _ => r is None,
        },
{
    match action {
        VoteAction::Approve { accurate, .. } => Some(VerdictCredits { accepted_tag: true, accurate: accurate.clone() }),
        VoteAction::Reject { accurate } => Some(VerdictCredits { accepted_tag: false, accurate: accurate.clone() }),
        _ => None,
    }
}


/// The community settles a review only when it agrees: a single vote on the
/// other side keeps the review open, whatever the size of the majority; with
/// no vote on the other side, six accept votes or three reject votes settle
/// it, and fewer do not.
pub proof fn community_verdicts_need_agreement(accepts: Seq<u64>, rejects: Seq<u64>)
    ensures
        accepts.len() > 0 ==> !rejected_unanimously(accepts, rejects),
        rejects.len() > 0 ==> !accepted_unanimously(accepts, rejects),
        accepts.len() == 0 ==> (rejected_unanimously(accepts, rejects) <==> rejects.len() >= 3),
        rejects.len() == 0 ==> (accepted_unanimously(accepts, rejects) <==> accepts.len() >= 6),
{
}
} // verus!
