//! Corrections an admin applies to a member's settled tag-review counters,
//! and the checks that keep those counters honest.

use vstd::prelude::*;
use crate::access::AccessRank;
use crate::text::{chars_of, i64_decimal_chars, push_chars, push_str, seq_eq, signed_decimal, string_of, trim_chars, trimmed, parse_i64, parsed_int};

verus! {

/// Number of corrections on offer.
pub const CORRECTION_COUNT: usize = 10;

/// The id of correction `i`.
pub open spec fn correction_id(i: int) -> Seq<char> {
    if i == 0 {
        "reject_to_accept"@
    } else if i == 1 {
        "accept_to_reject"@
    } else if i == 2 {
        "void_rejected"@
    } else if i == 3 {
        "void_accepted"@
    } else if i == 4 {
        "inaccurate_to_accurate"@
    } else if i == 5 {
        "accurate_to_inaccurate"@
    } else if i == 6 {
        "void_inaccurate"@
    } else if i == 7 {
        "void_accurate"@
    } else if i == 8 {
        "grant_bonus"@
    } else if i == 9 {
        "void_bonus"@
    } else {
        Seq::empty()
    }
}

/// The label of correction `i`.
pub open spec fn correction_label(i: int) -> Seq<char> {
    if i == 0 {
        "Rejected review -> accepted"@
    } else if i == 1 {
        "Accepted review -> rejected"@
    } else if i == 2 {
        "Drop a rejected review"@
    } else if i == 3 {
        "Drop an accepted review"@
    } else if i == 4 {
        "Inaccurate verdict -> accurate"@
    } else if i == 5 {
        "Accurate verdict -> inaccurate"@
    } else if i == 6 {
        "Drop an inaccurate verdict"@
    } else if i == 7 {
        "Drop an accurate verdict"@
    } else if i == 8 {
        "Grant a bonus verdict"@
    } else if i == 9 {
        "Drop a bonus verdict"@
    } else {
        Seq::empty()
    }
}

/// The description of correction `i`.
pub open spec fn correction_description(i: int) -> Seq<char> {
    if i == 0 {
        "The review was denied but should have been accepted"@
    } else if i == 1 {
        "The review was accepted but should have been denied"@
    } else if i == 2 {
        "Remove a rejection from the score entirely"@
    } else if i == 3 {
        "Remove an acceptance from the score entirely"@
    } else if i == 4 {
        "A vote was scored wrong and was actually correct"@
    } else if i == 5 {
        "A vote was credited but was actually wrong"@
    } else if i == 6 {
        "Remove an inaccurate verdict from the score entirely"@
    } else if i == 7 {
        "Remove an accurate verdict from the score entirely"@
    } else if i == 8 {
        "Credit a bonus verdict for a disputed review"@
    } else if i == 9 {
        "Remove a bonus verdict from the score entirely"@
    } else {
        Seq::empty()
    }
}

/// Correction `i`, as (id, label, description).
pub fn correction_entry(i: usize) -> (r: (&'static str, &'static str, &'static str))
    requires
        i < CORRECTION_COUNT,
    ensures
        r.0@ == correction_id(i as int),
        r.1@ == correction_label(i as int),
        r.2@ == correction_description(i as int),
{
    match i {
        0 => ("reject_to_accept", "Rejected review -> accepted", "The review was denied but should have been accepted"),
        1 => ("accept_to_reject", "Accepted review -> rejected", "The review was accepted but should have been denied"),
        2 => ("void_rejected", "Drop a rejected review", "Remove a rejection from the score entirely"),
        3 => ("void_accepted", "Drop an accepted review", "Remove an acceptance from the score entirely"),
        4 => ("inaccurate_to_accurate", "Inaccurate verdict -> accurate", "A vote was scored wrong and was actually correct"),
        5 => ("accurate_to_inaccurate", "Accurate verdict -> inaccurate", "A vote was credited but was actually wrong"),
        6 => ("void_inaccurate", "Drop an inaccurate verdict", "Remove an inaccurate verdict from the score entirely"),
        7 => ("void_accurate", "Drop an accurate verdict", "Remove an accurate verdict from the score entirely"),
        8 => ("grant_bonus", "Grant a bonus verdict", "Credit a bonus verdict for a disputed review"),
        _ => ("void_bonus", "Drop a bonus verdict", "Remove a bonus verdict from the score entirely"),
    }
}

/// Index of the first correction at or after `from` whose id is `id`.
pub open spec fn correction_index_from(id: Seq<char>, from: int) -> Option<int>
    decreases 10 - from,
{
    if from >= 10 || from < 0 {
        None
    } else if correction_id(from) == id {
        Some(from)
    } else {
        correction_index_from(id, from + 1)
    }
}

/// The correction with id `id`, as (id, label, description).
pub fn correction(id: &str) -> (r: Option<(&'static str, &'static str, &'static str)>)
    ensures
        r.is_none() == correction_index_from(id@, 0).is_none(),
        r.is_some() ==> r.unwrap().0@ == correction_id(correction_index_from(id@, 0).unwrap())
            && r.unwrap().1@ == correction_label(correction_index_from(id@, 0).unwrap())
            && r.unwrap().2@ == correction_description(correction_index_from(id@, 0).unwrap()),
{
    let v = chars_of(id);
    let mut i: usize = 0;
    while i < CORRECTION_COUNT
        invariant
            i <= CORRECTION_COUNT,
            v@ == id@,
            correction_index_from(id@, 0) == correction_index_from(id@, i as int),
        decreases CORRECTION_COUNT - i,
    {
        let e = correction_entry(i);
        let n = chars_of(e.0);
        if seq_eq(&n, &v) {
            return Some(e);
        }
        i = i + 1;
    }
    None
}

/// A change to each of a member's review counters.
#[derive(Clone, Copy, Debug, PartialEq, Eq, Structural)]
pub struct ReviewCounterDelta {
    pub accepted_tags: i64,
    pub rejected_tags: i64,
    pub accurate_verdicts: i64,
    pub incorrect_verdicts: i64,
    pub bonus_verdicts: i64,
}

impl Default for ReviewCounterDelta {
    fn default() -> (d: Self)
        ensures
            d == (ReviewCounterDelta { accepted_tags: 0, rejected_tags: 0, accurate_verdicts: 0, incorrect_verdicts: 0, bonus_verdicts: 0 }),
    {
        ReviewCounterDelta { accepted_tags: 0, rejected_tags: 0, accurate_verdicts: 0, incorrect_verdicts: 0, bonus_verdicts: 0 }
    }
}

/// A member's settled review counters.
#[derive(Clone, Copy, Debug, PartialEq, Eq, Structural)]
pub struct ReviewCounters {
    pub accepted_tags: i64,
    pub rejected_tags: i64,
    pub accurate_verdicts: i64,
    pub incorrect_verdicts: i64,
    pub bonus_verdicts: i64,
}

/// The counter movement, per review, of correction `i`, as
/// (accepted, rejected, accurate, inaccurate, bonus).
pub open spec fn correction_shape(i: int) -> (int, int, int, int, int) {
    if i == 0 {
        (1, -1, 0, 0, 0)
    } else if i == 1 {
        (-1, 1, 0, 0, 0)
    } else if i == 2 {
        (0, -1, 0, 0, 0)
    } else if i == 3 {
        (-1, 0, 0, 0, 0)
    } else if i == 4 {
        (0, 0, 1, -1, 0)
    } else if i == 5 {
        (0, 0, -1, 1, 0)
    } else if i == 6 {
        (0, 0, 0, -1, 0)
    } else if i == 7 {
        (0, 0, -1, 0, 0)
    } else if i == 8 {
        (0, 0, 0, 0, 1)
    } else if i == 9 {
        (0, 0, 0, 0, -1)
    } else {
        (0, 0, 0, 0, 0)
    }
}

/// `count` moved in direction `k` (1 up, -1 down, 0 unchanged).
pub open spec fn scale(k: int, count: int) -> int {
    if k == 1 { count } else if k == -1 { -count } else { 0 }
}

/// The delta of correction `action` applied to `count` reviews.
pub open spec fn correction_delta(action: Seq<char>, count: int) -> Option<ReviewCounterDelta> {
    match correction_index_from(action, 0) {
        None => None,
        Some(i) => {
            let (a, r, ac, inc, b) = correction_shape(i);
            Some(ReviewCounterDelta {
                accepted_tags: scale(a, count) as i64,
                rejected_tags: scale(r, count) as i64,
                accurate_verdicts: scale(ac, count) as i64,
                incorrect_verdicts: scale(inc, count) as i64,
                bonus_verdicts: scale(b, count) as i64,
            })
        },
    }
}

/// The counter movement a correction applies for `count` reviews.
pub fn delta_for(action: &str, count: i64) -> (d: Option<ReviewCounterDelta>)
    requires
        count > i64::MIN,
    ensures
        d == correction_delta(action@, count as int),
{
    let v = chars_of(action);
    let mut i: usize = 0;
    while i < CORRECTION_COUNT
        invariant
            i <= CORRECTION_COUNT,
            v@ == action@,
            count > i64::MIN,
            correction_index_from(action@, 0) == correction_index_from(action@, i as int),
        decreases CORRECTION_COUNT - i,
    {
        let e = correction_entry(i);
        let n = chars_of(e.0);
        if seq_eq(&n, &v) {
            assert(correction_index_from(action@, 0) == Some(i as int));
            let z = ReviewCounterDelta::default();
            let d = match i {
                0 => ReviewCounterDelta { accepted_tags: count, rejected_tags: -count, ..z },
                1 => ReviewCounterDelta { accepted_tags: -count, rejected_tags: count, ..z },
                2 => ReviewCounterDelta { rejected_tags: -count, ..z },
                3 => ReviewCounterDelta { accepted_tags: -count, ..z },
                4 => ReviewCounterDelta { accurate_verdicts: count, incorrect_verdicts: -count, ..z },
                5 => ReviewCounterDelta { accurate_verdicts: -count, incorrect_verdicts: count, ..z },
                6 => ReviewCounterDelta { incorrect_verdicts: -count, ..z },
                7 => ReviewCounterDelta { accurate_verdicts: -count, ..z },
                8 => ReviewCounterDelta { bonus_verdicts: count, ..z },
                _ => ReviewCounterDelta { bonus_verdicts: -count, ..z },
            };
            return Some(d);
        }
        i = i + 1;
    }
    None
}


/// Whether taking `-change` from a counter holding `current` would go below zero.
pub open spec fn short_of(change: i64, current: i64) -> bool {
    change < 0 && -change > current
}

/// The refusal shown when a correction would remove more than a counter holds.
pub open spec fn shortfall_message(current: int, label: Seq<char>, removed: int) -> Seq<char> {
    "User only has "@ + signed_decimal(current) + " "@ + label + ", cannot remove "@ + signed_decimal(removed) + "."@
}

/// The refusal for a correction, checking the counters in order, or `None`
/// when every counter can absorb it.
pub open spec fn availability(m: ReviewCounters, d: ReviewCounterDelta) -> Option<Seq<char>> {
    if short_of(d.accepted_tags, m.accepted_tags) {
        Some(shortfall_message(m.accepted_tags as int, "accepted tag reviews"@, -d.accepted_tags))
    } else if short_of(d.rejected_tags, m.rejected_tags) {
        Some(shortfall_message(m.rejected_tags as int, "rejected tag reviews"@, -d.rejected_tags))
    } else if short_of(d.accurate_verdicts, m.accurate_verdicts) {
        Some(shortfall_message(m.accurate_verdicts as int, "accurate verdicts"@, -d.accurate_verdicts))
    } else if short_of(d.incorrect_verdicts, m.incorrect_verdicts) {
        Some(shortfall_message(m.incorrect_verdicts as int, "inaccurate verdicts"@, -d.incorrect_verdicts))
    } else if short_of(d.bonus_verdicts, m.bonus_verdicts) {
        Some(shortfall_message(m.bonus_verdicts as int, "bonus verdicts"@, -d.bonus_verdicts))
    } else {
        None
    }
}

/// Every field of a delta can be negated.
pub open spec fn negatable(d: ReviewCounterDelta) -> bool {
    d.accepted_tags > i64::MIN && d.rejected_tags > i64::MIN && d.accurate_verdicts > i64::MIN
        && d.incorrect_verdicts > i64::MIN && d.bonus_verdicts > i64::MIN
}

fn shortfall(current: i64, label: &str, removed: i64) -> (s: String)
    ensures
        s@ == shortfall_message(current as int, label@, removed as int),
{
    let mut out: Vec<char> = Vec::new();
    push_str(&mut out, "User only has ");
    let c = i64_decimal_chars(current);
    push_chars(&mut out, &c);
    push_str(&mut out, " ");
    push_str(&mut out, label);
    push_str(&mut out, ", cannot remove ");
    let r = i64_decimal_chars(removed);
    push_chars(&mut out, &r);
    push_str(&mut out, ".");
    string_of(&out)
}

/// Refuses a correction that would drive a counter below zero, naming the
/// first such counter.
pub fn check_available(m: &ReviewCounters, delta: ReviewCounterDelta) -> (r: Result<(), String>)
    requires
        negatable(delta),
    ensures
        match availability(*m, delta) {
            None => r is Ok,
            Some(msg) => r is Err && r->Err_0@ == msg,
        },
{
    if delta.accepted_tags < 0 && -delta.accepted_tags > m.accepted_tags {
        return Err(shortfall(m.accepted_tags, "accepted tag reviews", -delta.accepted_tags));
    }
    if delta.rejected_tags < 0 && -delta.rejected_tags > m.rejected_tags {
        return Err(shortfall(m.rejected_tags, "rejected tag reviews", -delta.rejected_tags));
    }
    if delta.accurate_verdicts < 0 && -delta.accurate_verdicts > m.accurate_verdicts {
        return Err(shortfall(m.accurate_verdicts, "accurate verdicts", -delta.accurate_verdicts));
    }
    if delta.incorrect_verdicts < 0 && -delta.incorrect_verdicts > m.incorrect_verdicts {
        return Err(shortfall(m.incorrect_verdicts, "inaccurate verdicts", -delta.incorrect_verdicts));
    }
    if delta.bonus_verdicts < 0 && -delta.bonus_verdicts > m.bonus_verdicts {
        return Err(shortfall(m.bonus_verdicts, "bonus verdicts", -delta.bonus_verdicts));
    }
    Ok(())
}

/// Whether an admin of rank `invoker_rank` may correct the scores of a member
/// of rank `target_rank`: owners always, admins only below their own rank.
pub fn can_correct(invoker_rank: AccessRank, target_rank: AccessRank) -> (r: bool)
    ensures
        r == (invoker_rank.level() >= AccessRank::Owner.level()
            || (invoker_rank.level() >= AccessRank::Admin.level() && invoker_rank.level() > target_rank.level())),
{
    invoker_rank.at_least(AccessRank::Owner)
        || (invoker_rank.at_least(AccessRank::Admin) && invoker_rank.above(target_rank))
}

/// A modal title from a label; Discord caps titles at 45 characters, so
/// longer labels keep their first 44.
pub fn modal_title(label: &str) -> (t: String)
    ensures
        label@.len() <= 45 ==> t@ == label@,
        label@.len() > 45 ==> t@ == label@.take(44),
{
    let v = chars_of(label);
    if v.len() <= 45 {
        string_of(&v)
    } else {
        let w = crate::text::slice_chars(&v, 0, 44);
        assert(label@.subrange(0, 44) == label@.take(44));
        string_of(&w)
    }
}

/// What is wrong with the count and reason an admin entered for a correction.
pub open spec fn correction_input_error(count_raw: Seq<char>, reason: Seq<char>) -> Option<Seq<char>> {
    match parsed_int(trimmed(count_raw), true) {
        None => Some("Count must be a number"@),
        Some(v) => if !(i64::MIN <= v <= i64::MAX) {
            Some("Count must be a number"@)
        } else if !(1 <= v <= 1000) {
            Some("Count must be between 1 and 1000"@)
        } else if trimmed(reason).len() == 0 {
            Some("A reason is required"@)
        } else {
            None
        },
    }
}

/// Checks the count and reason of a correction form: the count, trimmed,
/// must be a number from 1 to 1000 and the trimmed reason must not be empty.
/// Gives the count and the trimmed reason, or the message shown to the admin.
pub fn validate_correction_input(count_raw: &str, reason: &str) -> (r: Result<(i64, String), &'static str>)
    ensures
        match correction_input_error(count_raw@, reason@) {
            Some(msg) => r is Err && r->Err_0@ == msg,
            None => r is Ok && r->Ok_0.0 as int == parsed_int(trimmed(count_raw@), true).unwrap()
                && r->Ok_0.1@ == trimmed(reason@),
        },
{
    let raw = chars_of(count_raw);
    let t = trim_chars(&raw);
    let count = match parse_i64(&t) {
        None => return Err("Count must be a number"),
        Some(c) => c,
    };
    if !(1 <= count && count <= 1000) {
        return Err("Count must be between 1 and 1000");
    }
    let rv = chars_of(reason);
    let rt = trim_chars(&rv);
    if rt.len() == 0 {
        return Err("A reason is required");
    }
    Ok((count, string_of(&rt)))
}

/// The counters after applying `d`.
pub open spec fn applied(m: ReviewCounters, d: ReviewCounterDelta) -> (int, int, int, int, int) {
    (m.accepted_tags + d.accepted_tags, m.rejected_tags + d.rejected_tags, m.accurate_verdicts + d.accurate_verdicts,
        m.incorrect_verdicts + d.incorrect_verdicts, m.bonus_verdicts + d.bonus_verdicts)
}

/// All counters are at least zero.
pub open spec fn counters_valid(m: ReviewCounters) -> bool {
    m.accepted_tags >= 0 && m.rejected_tags >= 0 && m.accurate_verdicts >= 0 && m.incorrect_verdicts >= 0
        && m.bonus_verdicts >= 0
}

/// A correction passes the availability check exactly when no counter of a
/// member with valid counters would end up below zero.
pub proof fn availability_guards_counters(m: ReviewCounters, d: ReviewCounterDelta)
    requires
        counters_valid(m),
        negatable(d),
    ensures
        availability(m, d).is_none() <==> ({
            let (a, r, ac, inc, b) = applied(m, d);
            a >= 0 && r >= 0 && ac >= 0 && inc >= 0 && b >= 0
        }),
{
}

/// Every correction on offer has a counter movement.
pub proof fn every_correction_has_a_delta(i: int, count: int)
    requires
        0 <= i < 10,
    ensures
        correction_delta(correction_id(i), count).is_some(),
{
    lemma_index_found(correction_id(i), 0, i);
}

proof fn lemma_index_found(id: Seq<char>, from: int, k: int)
    requires
        0 <= from <= k < 10,
        correction_id(k) == id,
    ensures
        correction_index_from(id, from).is_some(),
    decreases k - from,
{
    if correction_id(from) != id {
        lemma_index_found(id, from + 1, k);
    }
}

proof fn lemma_named_indices()
    ensures
        correction_index_from("reject_to_accept"@, 0) == Some(0int),
        correction_index_from("accept_to_reject"@, 0) == Some(1int),
        correction_index_from("inaccurate_to_accurate"@, 0) == Some(4int),
        correction_index_from("accurate_to_inaccurate"@, 0) == Some(5int),
        correction_index_from("grant_bonus"@, 0) == Some(8int),
        correction_index_from("void_bonus"@, 0) == Some(9int),
{
    reveal_with_fuel(correction_index_from, 11);
    reveal_strlit("reject_to_accept");
    reveal_strlit("accept_to_reject");
    reveal_strlit("void_rejected");
    reveal_strlit("void_accepted");
    reveal_strlit("inaccurate_to_accurate");
    reveal_strlit("accurate_to_inaccurate");
    reveal_strlit("void_inaccurate");
    reveal_strlit("void_accurate");
    reveal_strlit("grant_bonus");
    reveal_strlit("void_bonus");
    assert(correction_id(0)[0] != "accept_to_reject"@[0]);
    assert(correction_id(0)[0] != "inaccurate_to_accurate"@[0]);
    assert(correction_id(1)[0] != "inaccurate_to_accurate"@[0]);
    assert(correction_id(2)[0] != "inaccurate_to_accurate"@[0]);
    assert(correction_id(3)[0] != "inaccurate_to_accurate"@[0]);
    assert(correction_id(0)[0] != "accurate_to_inaccurate"@[0]);
    assert(correction_id(1)[3] != "accurate_to_inaccurate"@[3]);
    assert(correction_id(2)[0] != "accurate_to_inaccurate"@[0]);
    assert(correction_id(3)[0] != "accurate_to_inaccurate"@[0]);
    assert(correction_id(4)[0] != "accurate_to_inaccurate"@[0]);
    assert(correction_id(0)[0] != "grant_bonus"@[0]);
    assert(correction_id(1)[0] != "grant_bonus"@[0]);
    assert(correction_id(2)[0] != "grant_bonus"@[0]);
    assert(correction_id(3)[0] != "grant_bonus"@[0]);
    assert(correction_id(4)[0] != "grant_bonus"@[0]);
    assert(correction_id(5)[0] != "grant_bonus"@[0]);
    assert(correction_id(6)[0] != "grant_bonus"@[0]);
    assert(correction_id(7)[0] != "grant_bonus"@[0]);
    assert(correction_id(0)[0] != "void_bonus"@[0]);
    assert(correction_id(1)[0] != "void_bonus"@[0]);
    assert(correction_id(2)[5] != "void_bonus"@[5]);
    assert(correction_id(3)[5] != "void_bonus"@[5]);
    assert(correction_id(4)[0] != "void_bonus"@[0]);
    assert(correction_id(5)[0] != "void_bonus"@[0]);
    assert(correction_id(6)[5] != "void_bonus"@[5]);
    assert(correction_id(7)[5] != "void_bonus"@[5]);
    assert(correction_id(8)[0] != "void_bonus"@[0]);
}

/// The flipping corrections move reviews from one counter of a pair into the
/// other: the pair's total and every other counter stay as they were.
pub proof fn flips_conserve_totals(count: int)
    requires
        i64::MIN < count <= i64::MAX,
    ensures
        ({
            let d = correction_delta("reject_to_accept"@, count).unwrap();
            d.accepted_tags == count && d.rejected_tags == -count && d.accurate_verdicts == 0
                && d.incorrect_verdicts == 0 && d.bonus_verdicts == 0
        }),
        ({
            let d = correction_delta("accept_to_reject"@, count).unwrap();
            d.accepted_tags == -count && d.rejected_tags == count && d.accurate_verdicts == 0
                && d.incorrect_verdicts == 0 && d.bonus_verdicts == 0
        }),
        ({
            let d = correction_delta("inaccurate_to_accurate"@, count).unwrap();
            d.accurate_verdicts == count && d.incorrect_verdicts == -count && d.accepted_tags == 0
                && d.rejected_tags == 0 && d.bonus_verdicts == 0
        }),
        ({
            let d = correction_delta("accurate_to_inaccurate"@, count).unwrap();
            d.accurate_verdicts == -count && d.incorrect_verdicts == count && d.accepted_tags == 0
                && d.rejected_tags == 0 && d.bonus_verdicts == 0
        }),
{
    lemma_named_indices();
}

/// A correction followed by its opposite for the same count leaves the
/// counters as they were.
pub proof fn opposite_corrections_cancel(m: ReviewCounters, count: int)
    requires
        i64::MIN < count <= i64::MAX,
    ensures
        ({
            let d1 = correction_delta("reject_to_accept"@, count).unwrap();
            let d2 = correction_delta("accept_to_reject"@, count).unwrap();
            d1.accepted_tags + d2.accepted_tags == 0 && d1.rejected_tags + d2.rejected_tags == 0
        }),
        ({
            let d1 = correction_delta("inaccurate_to_accurate"@, count).unwrap();
            let d2 = correction_delta("accurate_to_inaccurate"@, count).unwrap();
            d1.accurate_verdicts + d2.accurate_verdicts == 0 && d1.incorrect_verdicts + d2.incorrect_verdicts == 0
        }),
        ({
            let d1 = correction_delta("grant_bonus"@, count).unwrap();
            let d2 = correction_delta("void_bonus"@, count).unwrap();
            d1.bonus_verdicts + d2.bonus_verdicts == 0 && d1.accepted_tags == 0 && d2.accepted_tags == 0
        }),
{
    lemma_named_indices();
}


/// What a correction form does, checked in this order: the admin may not
/// correct the member; the member is not registered; the correction is not
/// one on offer; the count or reason is wrong; a counter would drop below
/// zero. Otherwise the correction goes through, moving the counters by its
/// delta for the count given.
pub open spec fn correction_outcome(
    invoker_rank: AccessRank,
    target_rank: AccessRank,
    member: Option<ReviewCounters>,
    action: Seq<char>,
    count_raw: Seq<char>,
    reason: Seq<char>,
) -> Result<ReviewCounterDelta, Seq<char>> {
    if !(invoker_rank.level() >= AccessRank::Owner.level()
        || (invoker_rank.level() >= AccessRank::Admin.level() && invoker_rank.level() > target_rank.level())) {
        Err("Insufficient permissions"@)
    } else if member is None {
        Err("User is not registered"@)
    } else if correction_index_from(action, 0) is None {
        Err("Unknown correction"@)
    } else if correction_input_error(count_raw, reason) is Some {
        Err(correction_input_error(count_raw, reason)->0)
    } else {
        let d = correction_delta(action, parsed_int(trimmed(count_raw), true)->0)->0;
        match availability(member->0, d) {
            Some(msg) => Err(msg),
            None => Ok(d),
        }
    }
}

/// Decides a correction form. On success gives the delta the member's
/// counters move by (their new values are `applied(member, delta)`), the
/// count and the trimmed reason; else the message shown, with the counters
/// left as they were.
pub fn apply_correction(
    invoker_rank: AccessRank,
    target_rank: AccessRank,
    member: Option<ReviewCounters>,
    action: &str,
    count_raw: &str,
    reason: &str,
) -> (r: Result<(ReviewCounterDelta, i64, String), String>)
    ensures
        match correction_outcome(invoker_rank, target_rank, member, action@, count_raw@, reason@) {
            Ok(d) => r is Ok && r->Ok_0.0 == d && r->Ok_0.1 as int == parsed_int(trimmed(count_raw@), true)->0
                && r->Ok_0.2@ == trimmed(reason@),
            Err(msg) => r is Err && r->Err_0@ == msg,
        },
{
    if !can_correct(invoker_rank, target_rank) {
        return Err(string_of(&chars_of("Insufficient permissions")));
    }
    let m = match member {
        None => return Err(string_of(&chars_of("User is not registered"))),
        Some(m) => m,
    };
    if correction(action).is_none() {
        return Err(string_of(&chars_of("Unknown correction")));
    }
    let (count, rs) = match validate_correction_input(count_raw, reason) {
        Err(msg) => return Err(string_of(&chars_of(msg))),
        Ok(v) => v,
    };
    let d = match delta_for(action, count) {
        Some(d) => d,
        None => return Err(string_of(&chars_of("Unknown correction"))),
    };
    proof {
        lemma_delta_bounded(action@, count as int);
    }
    match check_available(&m, d) {
        Err(msg) => Err(msg),
        Ok(()) => Ok((d, count, rs)),
    }
}

proof fn lemma_delta_bounded(action: Seq<char>, count: int)
    requires
        1 <= count <= 1000,
        correction_index_from(action, 0) is Some,
    ensures
        correction_delta(action, count) is Some,
        negatable(correction_delta(action, count)->0),
{
}

proof fn lemma_void_indices()
    ensures
        correction_index_from("void_rejected"@, 0) == Some(2int),
        correction_index_from("void_accepted"@, 0) == Some(3int),
        correction_index_from("void_inaccurate"@, 0) == Some(6int),
        correction_index_from("void_accurate"@, 0) == Some(7int),
        correction_index_from("void_bonus"@, 0) == Some(9int),
{
    lemma_named_indices();
    reveal_with_fuel(correction_index_from, 11);
    reveal_strlit("reject_to_accept");
    reveal_strlit("accept_to_reject");
    reveal_strlit("void_rejected");
    reveal_strlit("void_accepted");
    reveal_strlit("inaccurate_to_accurate");
    reveal_strlit("accurate_to_inaccurate");
    reveal_strlit("void_inaccurate");
    reveal_strlit("void_accurate");
    assert(correction_id(0)[0] != "void_rejected"@[0]);
    assert(correction_id(1)[0] != "void_rejected"@[0]);
    assert(correction_id(0)[0] != "void_accepted"@[0]);
    assert(correction_id(1)[0] != "void_accepted"@[0]);
    assert(correction_id(2)[5] != "void_accepted"@[5]);
    assert(correction_id(0)[0] != "void_inaccurate"@[0]);
    assert(correction_id(1)[0] != "void_inaccurate"@[0]);
    assert(correction_id(2)[5] != "void_inaccurate"@[5]);
    assert(correction_id(3)[5] != "void_inaccurate"@[5]);
    assert(correction_id(4)[0] != "void_inaccurate"@[0]);
    assert(correction_id(5)[0] != "void_inaccurate"@[0]);
    assert(correction_id(0)[0] != "void_accurate"@[0]);
    assert(correction_id(1)[0] != "void_accurate"@[0]);
    assert(correction_id(2)[5] != "void_accurate"@[5]);
    assert(correction_id(3)[8] != "void_accurate"@[8]);
    assert(correction_id(4)[0] != "void_accurate"@[0]);
    assert(correction_id(5)[0] != "void_accurate"@[0]);
    assert(correction_id(6)[5] != "void_accurate"@[5]);
}

/// The corrections that void reviews each take the count from one counter
/// and leave the others alone; an id that names no correction has no delta.
pub proof fn voids_move_one_counter(count: int, id: Seq<char>)
    requires
        i64::MIN < count <= i64::MAX,
    ensures
        correction_index_from(id, 0) is None ==> correction_delta(id, count) is None,
        correction_delta("void_rejected"@, count) == Some(ReviewCounterDelta {
            accepted_tags: 0, rejected_tags: -count as i64, accurate_verdicts: 0, incorrect_verdicts: 0, bonus_verdicts: 0 }),
        correction_delta("void_accepted"@, count) == Some(ReviewCounterDelta {
            accepted_tags: -count as i64, rejected_tags: 0, accurate_verdicts: 0, incorrect_verdicts: 0, bonus_verdicts: 0 }),
        correction_delta("void_inaccurate"@, count) == Some(ReviewCounterDelta {
            accepted_tags: 0, rejected_tags: 0, accurate_verdicts: 0, incorrect_verdicts: -count as i64, bonus_verdicts: 0 }),
        correction_delta("void_accurate"@, count) == Some(ReviewCounterDelta {
            accepted_tags: 0, rejected_tags: 0, accurate_verdicts: -count as i64, incorrect_verdicts: 0, bonus_verdicts: 0 }),
        correction_delta("void_bonus"@, count) == Some(ReviewCounterDelta {
            accepted_tags: 0, rejected_tags: 0, accurate_verdicts: 0, incorrect_verdicts: 0, bonus_verdicts: -count as i64 }),
{
    lemma_void_indices();
}

proof fn lemma_grant_index()
    ensures
        correction_index_from("grant_bonus"@, 0) == Some(8int),
{
    lemma_named_indices();
}

/// Granting bonus verdicts moves the bonus counter up by the count and no
/// other counter.
pub proof fn grant_bonus_moves_only_bonus(count: int)
    requires
        i64::MIN < count <= i64::MAX,
    ensures
        correction_delta("grant_bonus"@, count) == Some(ReviewCounterDelta {
            accepted_tags: 0, rejected_tags: 0, accurate_verdicts: 0, incorrect_verdicts: 0, bonus_verdicts: count as i64 }),
{
    lemma_grant_index();
}

} // verus!
