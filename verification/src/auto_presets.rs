//! Session presets found in a player's snapshot history: the moment the
//! current prestige was reached, and the moment of the last loss.

use vstd::prelude::*;
use crate::text::{decimal, decimal_chars, push_chars, push_str, string_of};

verus! {

/// What a stored snapshot tells about the player, with the time it was taken.
pub struct SnapshotPoint {
    pub timestamp: i64,
    pub experience: u64,
    pub losses: u64,
}

/// A preset offered in the session menu.
pub struct AutoPreset {
    pub key: String,
    pub label: String,
    pub timestamp: i64,
}

/// A preset as character sequences.
pub struct PresetText {
    pub key: Seq<char>,
    pub label: Seq<char>,
    pub timestamp: i64,
}

pub open spec fn preset_text(p: AutoPreset) -> PresetText {
    PresetText { key: p.key@, label: p.label@, timestamp: p.timestamp }
}

/// The losses grew between snapshot `i - 1` and snapshot `i`.
pub open spec fn lost_between(s: Seq<SnapshotPoint>, i: int) -> bool {
    s[i].losses > s[i - 1].losses
}

/// The last `i < n` (and `i >= 1`) at which the losses grew.
pub open spec fn last_loss_index(s: Seq<SnapshotPoint>, n: int) -> Option<int>
    decreases n,
{
    if n <= 1 {
        None
    } else if lost_between(s, n - 1) {
        Some(n - 1)
    } else {
        last_loss_index(s, n - 1)
    }
}

/// The experience crossed `boundary` between snapshot `i - 1` and snapshot `i`.
pub open spec fn crossed_at(s: Seq<SnapshotPoint>, i: int, boundary: nat) -> bool {
    s[i - 1].experience < boundary && s[i].experience >= boundary
}

/// The first `i < n` (and `i >= 1`) at which the experience crossed `boundary`.
pub open spec fn first_crossing(s: Seq<SnapshotPoint>, boundary: nat, n: int) -> Option<int>
    decreases n,
{
    if n <= 1 {
        None
    } else {
        match first_crossing(s, boundary, n - 1) {
            Some(k) => Some(k),
            None => if crossed_at(s, n - 1, boundary) { Some(n - 1) } else { None },
        }
    }
}

proof fn lemma_last_loss_range(s: Seq<SnapshotPoint>, n: int)
    ensures
        match last_loss_index(s, n) {
            Some(k) => 1 <= k < n,
            None => true,
        },
    decreases n,
{
    if n > 1 {
        lemma_last_loss_range(s, n - 1);
    }
}

proof fn lemma_first_crossing_range(s: Seq<SnapshotPoint>, boundary: nat, n: int)
    ensures
        match first_crossing(s, boundary, n) {
            Some(k) => 1 <= k < n,
            None => true,
        },
    decreases n,
{
    if n > 1 {
        lemma_first_crossing_range(s, boundary, n - 1);
    }
}

/// When the last loss happened: the time of the latest snapshot whose
/// losses exceed those of the snapshot before it.
pub fn last_loss_time(snaps: &Vec<SnapshotPoint>) -> (r: Option<i64>)
    ensures
        r == match last_loss_index(snaps@, snaps@.len() as int) {
            Some(k) => Some(snaps@[k].timestamp),
            None => None::<i64>,
        },
{
    if snaps.len() < 2 {
        return None;
    }
    let mut best: Option<usize> = None;
    let mut i: usize = 1;
    while i < snaps.len()
        invariant
            1 <= i <= snaps.len(),
            match best {
                Some(k) => last_loss_index(snaps@, i as int) == Some(k as int),
                None => last_loss_index(snaps@, i as int) is None,
            },
        decreases snaps.len() - i,
    {
        if snaps[i].losses > snaps[i - 1].losses {
            best = Some(i);
        }
        i = i + 1;
    }
    proof {
        lemma_last_loss_range(snaps@, snaps@.len() as int);
    }
    match best {
        Some(k) => Some(snaps[k].timestamp),
        None => None,
    }
}

/// When the experience first reached `boundary`: the time of the first
/// snapshot at or above it whose predecessor was below it.
pub fn prestige_reached_time(snaps: &Vec<SnapshotPoint>, boundary: u64) -> (r: Option<i64>)
    ensures
        r == match first_crossing(snaps@, boundary as nat, snaps@.len() as int) {
            Some(k) => Some(snaps@[k].timestamp),
            None => None::<i64>,
        },
{
    if snaps.len() < 2 {
        return None;
    }
    let mut i: usize = 1;
    while i < snaps.len()
        invariant
            1 <= i <= snaps.len(),
            first_crossing(snaps@, boundary as nat, i as int) is None,
        decreases snaps.len() - i,
    {
        if snaps[i - 1].experience < boundary && snaps[i].experience >= boundary {
            proof {
                lemma_first_crossing_stays(snaps@, boundary as nat, i as int + 1, snaps@.len() as int);
            }
            return Some(snaps[i].timestamp);
        }
        i = i + 1;
    }
    None
}

proof fn lemma_first_crossing_stays(s: Seq<SnapshotPoint>, boundary: nat, m: int, n: int)
    requires
        2 <= m <= n,
        first_crossing(s, boundary, m) == Some(m - 1),
    ensures
        first_crossing(s, boundary, n) == Some(m - 1),
    decreases n - m,
{
    if n > m {
        lemma_first_crossing_stays(s, boundary, m, n - 1);
    }
}

/// The last loss is the latest rise of the losses: where one is found, the
/// losses rose into that snapshot and into none after it; where none is
/// found, they never rose.
pub proof fn last_loss_is_latest_rise(s: Seq<SnapshotPoint>, n: int)
    requires
        n <= s.len(),
    ensures
        match last_loss_index(s, n) {
            Some(k) => 1 <= k < n && lost_between(s, k) && forall|j: int| k < j < n ==> !#[trigger] lost_between(s, j),
            None => forall|j: int| 1 <= j < n ==> !#[trigger] lost_between(s, j),
        },
    decreases n,
{
    if n > 1 {
        last_loss_is_latest_rise(s, n - 1);
    }
}

/// The prestige preset starts at the first crossing of the boundary: where
/// one is found, the experience crossed it into that snapshot and into none
/// before it; where none is found, it never crossed it.
pub proof fn prestige_is_first_crossing(s: Seq<SnapshotPoint>, boundary: nat, n: int)
    requires
        n <= s.len(),
    ensures
        match first_crossing(s, boundary, n) {
            Some(k) => 1 <= k < n && crossed_at(s, k, boundary)
                && forall|j: int| 1 <= j < k ==> !#[trigger] crossed_at(s, j, boundary),
            None => forall|j: int| 1 <= j < n ==> !#[trigger] crossed_at(s, j, boundary),
        },
    decreases n,
{
    if n > 1 {
        prestige_is_first_crossing(s, boundary, n - 1);
    }
}

/// The presets of the Bed Wars session menu.
pub open spec fn bedwars_presets_text(s: Seq<SnapshotPoint>, level: nat, boundary: nat) -> Seq<PresetText> {
    let p = level / 100;
    let first = if p > 0 {
        match first_crossing(s, boundary, s.len() as int) {
            Some(k) => seq![PresetText {
                key: "prestige_"@ + decimal(p),
                label: "Since "@ + decimal(p * 100) + "\u{272B}"@,
                timestamp: s[k].timestamp,
            }],
            None => Seq::empty(),
        }
    } else {
        Seq::empty()
    };
    let second = match last_loss_index(s, s.len() as int) {
        Some(k) => seq![PresetText { key: "last_loss"@, label: "Since Last Loss"@, timestamp: s[k].timestamp }],
        None => Seq::empty(),
    };
    first + second
}

/// The presets of the Duels session menu.
pub open spec fn duels_presets_text(s: Seq<SnapshotPoint>) -> Seq<PresetText> {
    match last_loss_index(s, s.len() as int) {
        Some(k) => seq![PresetText { key: "since_loss"@, label: "Since Last Loss"@, timestamp: s[k].timestamp }],
        None => Seq::empty(),
    }
}

fn named_preset(key: &str, label: &str, timestamp: i64) -> (r: AutoPreset)
    ensures
        preset_text(r) == (PresetText { key: key@, label: label@, timestamp }),
{
    let mut k: Vec<char> = Vec::new();
    push_str(&mut k, key);
    let mut l: Vec<char> = Vec::new();
    push_str(&mut l, label);
    assert(k@ =~= key@);
    assert(l@ =~= label@);
    AutoPreset { key: string_of(&k), label: string_of(&l), timestamp }
}

/// The Bed Wars presets: since the current prestige began (`boundary` is
/// the experience at which it begins), where the history shows it being
/// reached, and since the last loss, where the history shows one.
pub fn bedwars_presets(snaps: &Vec<SnapshotPoint>, current_level: u64, boundary: u64) -> (r: Vec<AutoPreset>)
    ensures
        r@.len() == bedwars_presets_text(snaps@, current_level as nat, boundary as nat).len(),
        forall|i: int| 0 <= i < r@.len() ==> preset_text(#[trigger] r@[i])
            == bedwars_presets_text(snaps@, current_level as nat, boundary as nat)[i],
{
    let mut out: Vec<AutoPreset> = Vec::new();
    let p = current_level / 100;
    if p > 0 {
        match prestige_reached_time(snaps, boundary) {
            Some(ts) => {
                assert((current_level / 100) * 100 <= current_level) by (nonlinear_arith);
                let mut key: Vec<char> = Vec::new();
                push_str(&mut key, "prestige_");
                let pd = decimal_chars(p);
                push_chars(&mut key, &pd);
                let mut label: Vec<char> = Vec::new();
                push_str(&mut label, "Since ");
                let hd = decimal_chars(p * 100);
                push_chars(&mut label, &hd);
                push_str(&mut label, "\u{272B}");
                out.push(AutoPreset { key: string_of(&key), label: string_of(&label), timestamp: ts });
            },
            None => {},
        }
    }
    match last_loss_time(snaps) {
        Some(ts) => {
            out.push(named_preset("last_loss", "Since Last Loss", ts));
        },
        None => {},
    }
    proof {
        let s = bedwars_presets_text(snaps@, current_level as nat, boundary as nat);
        assert(out@.len() == s.len());
        assert forall|i: int| 0 <= i < out@.len() implies preset_text(#[trigger] out@[i]) == s[i] by {}
    }
    out
}

/// The Duels presets: since the last loss, where the history shows one.
pub fn duels_presets(snaps: &Vec<SnapshotPoint>) -> (r: Vec<AutoPreset>)
    ensures
        r@.len() == duels_presets_text(snaps@).len(),
        forall|i: int| 0 <= i < r@.len() ==> preset_text(#[trigger] r@[i]) == duels_presets_text(snaps@)[i],
{
    let mut out: Vec<AutoPreset> = Vec::new();
    match last_loss_time(snaps) {
        Some(ts) => {
            out.push(named_preset("since_loss", "Since Last Loss", ts));
        },
        None => {},
    }
    out
}

} // verus!
