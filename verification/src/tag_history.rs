//! A player's tag history: the order the events are listed in, the reason
//! shown for each, and the text of an entry.

use vstd::prelude::*;
use crate::minecraft::{sanitized, sanitize_reason};
use crate::text::{chars_of, string_of, str_eq, push_str, push_chars, signed_decimal, i64_decimal_chars};

verus! {

/// One event of a player's tag history.
pub struct HistoryEvent {
    pub id: i64,
    /// The event sets a tag (else it clears one).
    pub is_set: bool,
    pub tag_type: Option<String>,
    pub ts: i64,
    pub reason: Option<String>,
}

/// Whether event `x` is listed before event `y`: newer first, then the
/// higher id, then the given order.
pub open spec fn listed_first(events: Seq<HistoryEvent>, x: int, y: int) -> bool {
    events[x].ts > events[y].ts
        || (events[x].ts == events[y].ts && (events[x].id > events[y].id
            || (events[x].id == events[y].id && x < y)))
}

fn comes_first(events: &Vec<HistoryEvent>, x: usize, y: usize) -> (r: bool)
    requires
        x < events.len(),
        y < events.len(),
    ensures
        r == listed_first(events@, x as int, y as int),
{
    let a = &events[x];
    let b = &events[y];
    a.ts > b.ts || (a.ts == b.ts && (a.id > b.id || (a.id == b.id && x < y)))
}

/// The positions of `events`, newest first (then by id, highest first),
/// equal events in their given order: every position exactly once.
#[verifier::spinoff_prover]
pub fn history_order(events: &Vec<HistoryEvent>) -> (r: Vec<usize>)
    ensures
        r@.len() == events@.len(),
        forall|a: int| 0 <= a < r@.len() ==> r@[a] < events@.len(),
        forall|a: int, b: int| 0 <= a < b < r@.len() ==> listed_first(events@, r@[a] as int, r@[b] as int),
        forall|j: usize| j < events@.len() ==> #[trigger] r@.contains(j),
{
    let mut r: Vec<usize> = Vec::new();
    let mut i: usize = 0;
    while i < events.len()
        invariant
            i <= events.len(),
            r@.len() == i,
            forall|a: int| 0 <= a < r@.len() ==> r@[a] < i,
            forall|a: int, b: int| 0 <= a < b < r@.len() ==> listed_first(events@, r@[a] as int, r@[b] as int),
            forall|j: usize| j < i ==> #[trigger] r@.contains(j),
        decreases events.len() - i,
    {
        let mut p: usize = 0;
        while p < r.len() && !comes_first(events, i, r[p])
            invariant
                p <= r@.len(),
                r@.len() == i,
                i < events.len(),
                forall|a: int| 0 <= a < r@.len() ==> r@[a] < i,
                forall|q: int| 0 <= q < p ==> listed_first(events@, r@[q] as int, i as int),
            decreases r@.len() - p,
        {
            p = p + 1;
        }
        let ghost before = r@;
        proof {
            assert forall|q: int| p <= q < before.len() implies listed_first(events@, i as int, before[q] as int) by {
                assert(listed_first(events@, i as int, before[p as int] as int));
                if q > p {
                    assert(listed_first(events@, before[p as int] as int, before[q] as int));
                }
            }
        }
        r.insert(p, i);
        proof {
            assert(r@ == before.insert(p as int, i));
            assert forall|a: int, b: int| 0 <= a < b < r@.len() implies listed_first(events@, r@[a] as int, r@[b] as int) by {
                if b < p {
                    assert(r@[a] == before[a] && r@[b] == before[b]);
                } else if b == p {
                    assert(r@[a] == before[a]);
                } else if a < p {
                    assert(r@[a] == before[a] && r@[b] == before[b - 1]);
                } else if a == p {
                    assert(r@[b] == before[b - 1]);
                } else {
                    assert(r@[a] == before[a - 1] && r@[b] == before[b - 1]);
                }
            }
            assert forall|j: usize| j < i + 1 implies #[trigger] r@.contains(j) by {
                if j == i {
                    assert(r@[p as int] == i);
                } else {
                    assert(before.contains(j));
                    let w = choose|w: int| 0 <= w < before.len() && before[w] == j;
                    if w < p {
                        assert(r@[w] == j);
                    } else {
                        assert(r@[w + 1] == j);
                    }
                }
            }
        }
        i = i + 1;
    }
    r
}

pub open spec fn opt_seq(o: Option<String>) -> Option<Seq<char>> {
    match o {
        Some(s) => Some(s@),
        None => None,
    }
}

/// Whether event `j` is a tag set of the same type as event `e`, no later
/// than it.
pub open spec fn earlier_set(events: Seq<HistoryEvent>, e: int, j: int) -> bool {
    events[j].is_set && opt_seq(events[j].tag_type) == opt_seq(events[e].tag_type) && events[j].ts <= events[e].ts
}

/// The latest such set among the first `n` events (the last of equals).
pub open spec fn latest_set(events: Seq<HistoryEvent>, e: int, n: int) -> Option<int>
    decreases n,
{
    if n <= 0 {
        None
    } else {
        let b = latest_set(events, e, n - 1);
        if earlier_set(events, e, n - 1) && (b is None || events[n - 1].ts >= events[b->0].ts) {
            Some(n - 1)
        } else {
            b
        }
    }
}

proof fn lemma_latest_set_range(events: Seq<HistoryEvent>, e: int, n: int)
    ensures
        match latest_set(events, e, n) {
            Some(k) => 0 <= k < n,
            None => true,
        },
    decreases n,
{
    if n > 0 {
        lemma_latest_set_range(events, e, n - 1);
    }
}

/// The reason an entry shows: a set's own reason; for a clear, the reason
/// of the latest set of the same tag type no later than it; escaped.
pub open spec fn entry_reason(events: Seq<HistoryEvent>, e: int) -> Seq<char> {
    let r = if events[e].is_set {
        opt_seq(events[e].reason)
    } else {
        match latest_set(events, e, events.len() as int) {
            Some(k) => opt_seq(events[k].reason),
            None => None,
        }
    };
    match r {
        Some(x) => sanitized(x),
        None => sanitized(Seq::empty()),
    }
}

fn same_type(a: &Option<String>, b: &Option<String>) -> (r: bool)
    ensures
        r == (opt_seq(*a) == opt_seq(*b)),
{
    match (a, b) {
        (Some(x), Some(y)) => str_eq(x.as_str(), y.as_str()),
        (None, None) => true,
        _ => false,
    }
}

/// The reason shown for event `e`, escaped for markdown.
#[verifier::spinoff_prover]
pub fn reason_for_event(events: &Vec<HistoryEvent>, e: usize) -> (r: String)
    requires
        e < events.len(),
    ensures
        r@ == entry_reason(events@, e as int),
{
    let chosen: Option<usize> = if events[e].is_set {
        Some(e)
    } else {
        let mut best: Option<usize> = None;
        let mut n: usize = 0;
        while n < events.len()
            invariant
                n <= events.len(),
                e < events.len(),
                latest_set(events@, e as int, n as int) == match best {
                    Some(k) => Some(k as int),
                    None => None::<int>,
                },
                match best {
                    Some(k) => k < n,
                    None => true,
                },
            decreases events.len() - n,
        {
            proof {
                lemma_latest_set_range(events@, e as int, n as int);
            }
            let q = events[n].is_set && same_type(&events[n].tag_type, &events[e].tag_type) && events[n].ts <= events[e].ts;
            let newer = match best {
                None => true,
                Some(b) => events[n].ts >= events[b].ts,
            };
            if q && newer {
                best = Some(n);
            }
            n = n + 1;
        }
        best
    };
    proof {
        reveal_strlit("");
    }
    match chosen {
        Some(k) => match &events[k].reason {
            Some(x) => sanitize_reason(x.as_str()),
            None => sanitize_reason(""),
        },
        None => sanitize_reason(""),
    }
}

/// The attribution of an entry: the member, named (marked when hidden), or
/// the system.
pub open spec fn attribution_text(author_name: Option<Seq<char>>, hidden: bool) -> Seq<char> {
    match author_name {
        Some(n) => if hidden { "**`@"@ + n + "`** (hidden)"@ } else { "**`@"@ + n + "`**"@ },
        None => "**system**"@,
    }
}

/// One entry of the history: what happened, to which tag, why, by whom and when.
pub open spec fn entry_text(
    is_set: bool,
    action_emote: Seq<char>,
    emote: Seq<char>,
    display: Seq<char>,
    reason: Seq<char>,
    attribution: Seq<char>,
    ts: int,
) -> Seq<char> {
    let action = if is_set { "Added"@ } else { "Removed"@ };
    let r = if reason.len() > 0 { "\n> -# "@ + reason } else { Seq::empty() };
    "**"@ + action_emote + " "@ + action + "**\n> -# **"@ + emote + " "@ + display + "**"@ + r
        + "\n> -# \\- "@ + action + " by "@ + attribution + " <t:"@ + signed_decimal(ts) + ":R>"@
}

/// Who made a change, as an entry shows it.
pub fn history_attribution(author_name: Option<&str>, hidden: bool) -> (r: String)
    ensures
        r@ == attribution_text(match author_name {
            Some(n) => Some(n@),
            None => None,
        }, hidden),
{
    let mut out: Vec<char> = Vec::new();
    match author_name {
        Some(n) => {
            push_str(&mut out, "**`@");
            push_str(&mut out, n);
            if hidden {
                push_str(&mut out, "`** (hidden)");
            } else {
                push_str(&mut out, "`**");
            }
        },
        None => {
            push_str(&mut out, "**system**");
        },
    }
    string_of(&out)
}

/// The text of one history entry.
pub fn history_entry(
    is_set: bool,
    action_emote: &str,
    emote: &str,
    display: &str,
    reason: &str,
    attribution: &str,
    ts: i64,
) -> (r: String)
    ensures
        r@ == entry_text(is_set, action_emote@, emote@, display@, reason@, attribution@, ts as int),
{
    let action = if is_set { "Added" } else { "Removed" };
    let mut out: Vec<char> = Vec::new();
    push_str(&mut out, "**");
    push_str(&mut out, action_emote);
    push_str(&mut out, " ");
    push_str(&mut out, action);
    push_str(&mut out, "**\n> -# **");
    push_str(&mut out, emote);
    push_str(&mut out, " ");
    push_str(&mut out, display);
    push_str(&mut out, "**");
    let rv = chars_of(reason);
    if rv.len() > 0 {
        push_str(&mut out, "\n> -# ");
        push_str(&mut out, reason);
    }
    push_str(&mut out, "\n> -# \\- ");
    push_str(&mut out, action);
    push_str(&mut out, " by ");
    push_str(&mut out, attribution);
    push_str(&mut out, " <t:");
    let t = i64_decimal_chars(ts);
    push_chars(&mut out, &t);
    push_str(&mut out, ":R>");
    string_of(&out)
}

} // verus!
