//! What a Duels session adds to a player's counters: the difference between
//! the stats at the end and at the start of the session, overall and per
//! mode of the breakdown.

use vstd::prelude::*;
use crate::text::str_eq;

verus! {

/// The counters of a Duels view or of one mode of its breakdown.
#[derive(Clone, Copy, Debug, PartialEq, Eq, Structural)]
pub struct ModeCounts {
    pub wins: u64,
    pub losses: u64,
    pub kills: u64,
    pub deaths: u64,
    pub melee_hits: u64,
    pub melee_swings: u64,
    pub bow_hits: u64,
    pub bow_shots: u64,
    pub goals: u64,
}

/// A mode of the breakdown: its label, its counters, and what else the view
/// holds of it (its division and winstreaks), which a delta carries as it is.
#[derive(Clone, Debug)]
pub struct BreakdownCounts<R> {
    pub label: String,
    pub counts: ModeCounts,
    pub carried: R,
}

/// `a - b`, or 0 where `b` is larger (`u64::saturating_sub`).
pub open spec fn sat_sub(a: u64, b: u64) -> u64 {
    if a >= b {
        (a - b) as u64
    } else {
        0
    }
}

fn minus(a: u64, b: u64) -> (r: u64)
    ensures
        r == sat_sub(a, b),
{
    if a >= b {
        a - b
    } else {
        0
    }
}

/// Each counter of `c` less the one of `p`, never below zero.
pub open spec fn counts_minus(c: ModeCounts, p: ModeCounts) -> ModeCounts {
    ModeCounts {
        wins: sat_sub(c.wins, p.wins),
        losses: sat_sub(c.losses, p.losses),
        kills: sat_sub(c.kills, p.kills),
        deaths: sat_sub(c.deaths, p.deaths),
        melee_hits: sat_sub(c.melee_hits, p.melee_hits),
        melee_swings: sat_sub(c.melee_swings, p.melee_swings),
        bow_hits: sat_sub(c.bow_hits, p.bow_hits),
        bow_shots: sat_sub(c.bow_shots, p.bow_shots),
        goals: sat_sub(c.goals, p.goals),
    }
}

/// The counters a session added overall.
pub fn summary_delta(current: &ModeCounts, previous: &ModeCounts) -> (r: ModeCounts)
    ensures
        r == counts_minus(*current, *previous),
{
    ModeCounts {
        wins: minus(current.wins, previous.wins),
        losses: minus(current.losses, previous.losses),
        kills: minus(current.kills, previous.kills),
        deaths: minus(current.deaths, previous.deaths),
        melee_hits: minus(current.melee_hits, previous.melee_hits),
        melee_swings: minus(current.melee_swings, previous.melee_swings),
        bow_hits: minus(current.bow_hits, previous.bow_hits),
        bow_shots: minus(current.bow_shots, previous.bow_shots),
        goals: minus(current.goals, previous.goals),
    }
}

/// All counters zero: the start of a mode not played before.
pub open spec fn zero_counts() -> ModeCounts {
    ModeCounts {
        wins: 0,
        losses: 0,
        kills: 0,
        deaths: 0,
        melee_hits: 0,
        melee_swings: 0,
        bow_hits: 0,
        bow_shots: 0,
        goals: 0,
    }
}

/// The labels and counters of a breakdown.
pub open spec fn rows_view<R>(v: Seq<BreakdownCounts<R>>) -> Seq<(Seq<char>, ModeCounts)> {
    Seq::new(v.len(), |i: int| (v[i].label@, v[i].counts))
}

/// The counters the breakdown at the start held for `label`: those of the
/// last mode with that label, or zero where there is none.
pub open spec fn previous_counts(prev: Seq<(Seq<char>, ModeCounts)>, label: Seq<char>) -> ModeCounts
    decreases prev.len(),
{
    if prev.len() == 0 {
        zero_counts()
    } else if prev.last().0 == label {
        prev.last().1
    } else {
        previous_counts(prev.drop_last(), label)
    }
}

/// Whether a mode was played in the session.
pub open spec fn played(d: ModeCounts) -> bool {
    d.wins > 0 || d.losses > 0 || d.kills > 0 || d.deaths > 0
}

/// The modes played in the session, in the order of the breakdown at the
/// end, each as its position there and what the session added to it.
pub open spec fn session_rows(
    cur: Seq<(Seq<char>, ModeCounts)>,
    prev: Seq<(Seq<char>, ModeCounts)>,
) -> Seq<(usize, ModeCounts)>
    decreases cur.len(),
{
    if cur.len() == 0 {
        Seq::empty()
    } else {
        let rest = session_rows(cur.drop_last(), prev);
        let d = counts_minus(cur.last().1, previous_counts(prev, cur.last().0));
        if played(d) {
            rest.push(((cur.len() - 1) as usize, d))
        } else {
            rest
        }
    }
}

fn previous_for<R>(prev: &Vec<BreakdownCounts<R>>, label: &str) -> (r: ModeCounts)
    ensures
        r == previous_counts(rows_view(prev@), label@),
{
    let mut i: usize = prev.len();
    assert(rows_view(prev@).take(prev.len() as int) == rows_view(prev@));
    while i > 0
        invariant
            i <= prev.len(),
            previous_counts(rows_view(prev@), label@) == previous_counts(rows_view(prev@).take(i as int), label@),
        decreases i,
    {
        let ghost t = rows_view(prev@).take(i as int);
        assert(t.last() == (prev@[i - 1].label@, prev@[i - 1].counts));
        if str_eq(prev[i - 1].label.as_str(), label) {
            return prev[i - 1].counts;
        }
        assert(t.drop_last() == rows_view(prev@).take(i - 1));
        i = i - 1;
    }
    ModeCounts {
        wins: 0,
        losses: 0,
        kills: 0,
        deaths: 0,
        melee_hits: 0,
        melee_swings: 0,
        bow_hits: 0,
        bow_shots: 0,
        goals: 0,
    }
}

/// The modes played in the session with what it added to each.
pub fn breakdown_delta<R>(current: &Vec<BreakdownCounts<R>>, previous: &Vec<BreakdownCounts<R>>) -> (r: Vec<(usize, ModeCounts)>)
    ensures
        r@ == session_rows(rows_view(current@), rows_view(previous@)),
        forall|k: int| 0 <= k < r@.len() ==> (#[trigger] r@[k]).1.wins + r@[k].1.losses + r@[k].1.kills + r@[k].1.deaths > 0,
        forall|i: int| 0 <= i < current@.len() && ({
            let d = #[trigger] mode_delta(rows_view(current@), rows_view(previous@), i);
            d.wins + d.losses + d.kills + d.deaths > 0
        }) ==> exists|k: int| 0 <= k < r@.len() && r@[k].0 == i,
{
    let mut r: Vec<(usize, ModeCounts)> = Vec::new();
    let mut i: usize = 0;
    assert(rows_view(current@).take(0) == Seq::<(Seq<char>, ModeCounts)>::empty());
    while i < current.len()
        invariant
            i <= current.len(),
            r@ == session_rows(rows_view(current@).take(i as int), rows_view(previous@)),
        decreases current.len() - i,
    {
        let ghost t = rows_view(current@).take(i + 1);
        assert(t.drop_last() == rows_view(current@).take(i as int));
        assert(t.last() == (current@[i as int].label@, current@[i as int].counts));
        let p = previous_for(previous, current[i].label.as_str());
        let d = summary_delta(&current[i].counts, &p);
        if d.wins > 0 || d.losses > 0 || d.kills > 0 || d.deaths > 0 {
            r.push((i, d));
        }
        i = i + 1;
    }
    assert(rows_view(current@).take(current.len() as int) == rows_view(current@));
    proof {
        session_lists_every_mode_played(rows_view(current@), rows_view(previous@));
    }
    r
}

} // verus!

verus! {

/// Where no counter went down, the start plus what the session added is
/// the end.
pub proof fn delta_adds_back(c: ModeCounts, p: ModeCounts)
    requires
        p.wins <= c.wins && p.losses <= c.losses && p.kills <= c.kills && p.deaths <= c.deaths,
        p.melee_hits <= c.melee_hits && p.melee_swings <= c.melee_swings,
        p.bow_hits <= c.bow_hits && p.bow_shots <= c.bow_shots && p.goals <= c.goals,
    ensures
        p.wins + counts_minus(c, p).wins == c.wins,
        p.losses + counts_minus(c, p).losses == c.losses,
        p.kills + counts_minus(c, p).kills == c.kills,
        p.deaths + counts_minus(c, p).deaths == c.deaths,
        p.melee_hits + counts_minus(c, p).melee_hits == c.melee_hits,
        p.melee_swings + counts_minus(c, p).melee_swings == c.melee_swings,
        p.bow_hits + counts_minus(c, p).bow_hits == c.bow_hits,
        p.bow_shots + counts_minus(c, p).bow_shots == c.bow_shots,
        p.goals + counts_minus(c, p).goals == c.goals,
{
}

proof fn lemma_previous_is_own(prev: Seq<(Seq<char>, ModeCounts)>, i: int)
    requires
        0 <= i < prev.len(),
        forall|a: int, b: int| 0 <= a < b < prev.len() ==> prev[a].0 != prev[b].0,
    ensures
        previous_counts(prev, prev[i].0) == prev[i].1,
    decreases prev.len(),
{
    if i < prev.len() - 1 {
        assert(prev.last().0 != prev[i].0);
        let d = prev.drop_last();
        assert(d[i] == prev[i]);
        lemma_previous_is_own(d, i);
    }
}

proof fn lemma_no_rows(cur: Seq<(Seq<char>, ModeCounts)>, prev: Seq<(Seq<char>, ModeCounts)>, n: int)
    requires
        0 <= n <= prev.len(),
        cur == prev.take(n),
        forall|a: int, b: int| 0 <= a < b < prev.len() ==> prev[a].0 != prev[b].0,
    ensures
        session_rows(cur, prev) == Seq::<(usize, ModeCounts)>::empty(),
    decreases n,
{
    if n > 0 {
        assert(cur.drop_last() == prev.take(n - 1));
        lemma_no_rows(cur.drop_last(), prev, n - 1);
        assert(cur.last() == prev[n - 1]);
        lemma_previous_is_own(prev, n - 1);
    }
}

/// A session measured against the same stats added nothing: every counter
/// of the summary is zero, and (where the breakdown names each mode once)
/// no mode shows as played.
pub proof fn same_stats_add_nothing(c: ModeCounts, rows: Seq<(Seq<char>, ModeCounts)>)
    requires
        forall|a: int, b: int| 0 <= a < b < rows.len() ==> rows[a].0 != rows[b].0,
    ensures
        counts_minus(c, c) == zero_counts(),
        session_rows(rows, rows) == Seq::<(usize, ModeCounts)>::empty(),
{
    assert(rows.take(rows.len() as int) == rows);
    lemma_no_rows(rows, rows, rows.len() as int);
}


/// A Duels view: what else it holds (its view, title, division,
/// winstreaks, whether goals show, the breakdown's title, the division
/// track), which a delta carries as it is; its counters overall; and its
/// breakdown by mode.
pub struct DuelsCounts<I, R> {
    pub carried: I,
    pub summary: ModeCounts,
    pub breakdown: Vec<BreakdownCounts<R>>,
}

/// What a session added: the end's view with the counters the session added
/// overall, and the modes played in it, in the order of the end's breakdown.
pub struct DuelsDelta<I, R> {
    pub carried: I,
    pub summary: ModeCounts,
    pub breakdown: Vec<BreakdownCounts<R>>,
}

impl<I: Clone, R: Clone> DuelsDelta<I, R> {
    /// The delta between the view at the end (`current`) and at the start
    /// (`previous`): what is not a counter comes from `current`.
    pub fn from_views(current: &DuelsCounts<I, R>, previous: &DuelsCounts<I, R>) -> (r: DuelsDelta<I, R>)
        ensures
            cloned(current.carried, r.carried),
            r.summary == counts_minus(current.summary, previous.summary),
            r.breakdown@.len() == session_rows(rows_view(current.breakdown@), rows_view(previous.breakdown@)).len(),
            forall|k: int| 0 <= k < r.breakdown@.len() ==> {
                let row = session_rows(rows_view(current.breakdown@), rows_view(previous.breakdown@))[k];
                &&& 0 <= row.0 < current.breakdown@.len()
                &&& (#[trigger] r.breakdown@[k]).label@ == current.breakdown@[row.0 as int].label@
                &&& r.breakdown@[k].counts == row.1
                &&& cloned(current.breakdown@[row.0 as int].carried, r.breakdown@[k].carried)
            },
    {
        let rows = breakdown_delta(&current.breakdown, &previous.breakdown);
        let n = current.breakdown.len();
        proof {
            assert(current.breakdown@.len() == n);
            assert(rows_view(current.breakdown@).len() == current.breakdown@.len());
            lemma_rows_in_range(rows_view(current.breakdown@), rows_view(previous.breakdown@));
        }
        let mut out: Vec<BreakdownCounts<R>> = Vec::new();
        let mut k: usize = 0;
        while k < rows.len()
            invariant
                k <= rows.len(),
                rows@ == session_rows(rows_view(current.breakdown@), rows_view(previous.breakdown@)),
                forall|j: int| 0 <= j < rows@.len() ==> 0 <= #[trigger] rows@[j].0 < current.breakdown@.len(),
                out@.len() == k,
                forall|j: int| 0 <= j < k ==> {
                    &&& (#[trigger] out@[j]).label@ == current.breakdown@[rows@[j].0 as int].label@
                    &&& out@[j].counts == rows@[j].1
                    &&& cloned(current.breakdown@[rows@[j].0 as int].carried, out@[j].carried)
                },
            decreases rows.len() - k,
        {
            let (idx, d) = rows[k];
            assert(0 <= rows@[k as int].0 < current.breakdown@.len());
            let e = &current.breakdown[idx];
            let label = e.label.clone();
            let carried = e.carried.clone();
            out.push(BreakdownCounts { label, counts: d, carried });
            k = k + 1;
        }
        DuelsDelta {
            carried: current.carried.clone(),
            summary: summary_delta(&current.summary, &previous.summary),
            breakdown: out,
        }
    }
}

proof fn lemma_rows_in_range(cur: Seq<(Seq<char>, ModeCounts)>, prev: Seq<(Seq<char>, ModeCounts)>)
    requires
        cur.len() <= usize::MAX,
    ensures
        forall|j: int| 0 <= j < session_rows(cur, prev).len() ==> 0 <= #[trigger] session_rows(cur, prev)[j].0 < cur.len(),
    decreases cur.len(),
{
    if cur.len() > 0 {
        lemma_rows_in_range(cur.drop_last(), prev);
        let rest = session_rows(cur.drop_last(), prev);
        let d = counts_minus(cur.last().1, previous_counts(prev, cur.last().0));
        if played(d) {
            let r = rest.push(((cur.len() - 1) as usize, d));
            assert forall|j: int| 0 <= j < r.len() implies 0 <= #[trigger] r[j].0 < cur.len() by {
                if j < rest.len() {
                    assert(r[j] == rest[j]);
                }
            }
        }
    }
}


/// A mode counts as played in a session exactly when the session added a
/// win, a loss, a kill or a death to it.
pub proof fn played_means_any_game(d: ModeCounts)
    ensures
        played(d) <==> d.wins + d.losses + d.kills + d.deaths > 0,
{
}

/// What the session added to mode `i` of the end's breakdown.
pub open spec fn mode_delta(cur: Seq<(Seq<char>, ModeCounts)>, prev: Seq<(Seq<char>, ModeCounts)>, i: int) -> ModeCounts {
    counts_minus(cur[i].1, previous_counts(prev, cur[i].0))
}

/// The session's breakdown lists every mode of the end's breakdown to which
/// the session added a win, a loss, a kill or a death, with what it added,
/// and lists nothing else: each listed mode is one of the end's, and the
/// session added a game to it.
pub proof fn session_lists_every_mode_played(cur: Seq<(Seq<char>, ModeCounts)>, prev: Seq<(Seq<char>, ModeCounts)>)
    requires
        cur.len() <= usize::MAX,
    ensures
        forall|k: int| 0 <= k < session_rows(cur, prev).len() ==> {
            let row = #[trigger] session_rows(cur, prev)[k];
            &&& 0 <= row.0 < cur.len()
            &&& row.1 == mode_delta(cur, prev, row.0 as int)
            &&& row.1.wins + row.1.losses + row.1.kills + row.1.deaths > 0
        },
        forall|i: int| 0 <= i < cur.len() && ({
            let d = #[trigger] mode_delta(cur, prev, i);
            d.wins + d.losses + d.kills + d.deaths > 0
        }) ==> exists|k: int| 0 <= k < session_rows(cur, prev).len() && session_rows(cur, prev)[k].0 == i,
    decreases cur.len(),
{
    if cur.len() > 0 {
        let c2 = cur.drop_last();
        session_lists_every_mode_played(c2, prev);
        let rest = session_rows(c2, prev);
        let n = cur.len() - 1;
        assert forall|i: int| 0 <= i < c2.len() implies mode_delta(c2, prev, i) == mode_delta(cur, prev, i) by {
            assert(c2[i] == cur[i]);
        }
        let d = counts_minus(cur.last().1, previous_counts(prev, cur.last().0));
        assert(d == mode_delta(cur, prev, n));
        let rows = session_rows(cur, prev);
        assert forall|k: int| 0 <= k < rows.len() implies {
            let row = #[trigger] rows[k];
            &&& 0 <= row.0 < cur.len()
            &&& row.1 == mode_delta(cur, prev, row.0 as int)
            &&& row.1.wins + row.1.losses + row.1.kills + row.1.deaths > 0
        } by {
            if k < rest.len() {
                assert(rows[k] == rest[k]);
                assert(mode_delta(c2, prev, rest[k].0 as int) == mode_delta(cur, prev, rest[k].0 as int));
            } else {
                assert(played(d));
                assert(rows[k] == (n as usize, d));
            }
        }
        assert forall|i: int| 0 <= i < cur.len() && ({
            let d = #[trigger] mode_delta(cur, prev, i);
            d.wins + d.losses + d.kills + d.deaths > 0
        }) implies exists|k: int| 0 <= k < rows.len() && rows[k].0 == i by {
            if i < n {
                assert(mode_delta(c2, prev, i) == mode_delta(cur, prev, i));
                let k = choose|k: int| 0 <= k < rest.len() && rest[k].0 == i;
                assert(rows[k] == rest[k]);
            } else {
                assert(played(d));
                assert(rows[rest.len() as int] == (n as usize, d));
            }
        }
    }
}
} // verus!
