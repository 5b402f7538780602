//! The sync cooldown of members: a member synced recently is not synced
//! again from message activity until the cooldown has passed.

use vstd::prelude::*;
use std::collections::HashMap;

verus! {

broadcast use vstd::std_specs::hash::group_hash_axioms;

/// How long a member stays on cooldown after a sync, in milliseconds (four hours).
pub const REFRESH_THRESHOLD_MS: u64 = 14_400_000;

/// Time passed from `last` to `now` (none where the clock reads earlier).
pub open spec fn elapsed(last: u64, now: u64) -> nat {
    if now >= last { (now - last) as nat } else { 0 }
}

/// Whether a sync at `last` still holds its member on cooldown at `now`.
pub open spec fn still_cooling(last: u64, now: u64) -> bool {
    elapsed(last, now) < REFRESH_THRESHOLD_MS
}

/// The last sync time of each member on cooldown, by member id; times are
/// milliseconds on a monotonic clock.
pub struct Cooldowns {
    last: HashMap<u64, u64>,
}

impl View for Cooldowns {
    type V = Map<u64, u64>;

    closed spec fn view(&self) -> Map<u64, u64> {
        self.last@
    }
}

impl Cooldowns {
    /// No member on cooldown.
    pub fn new() -> (c: Self)
        ensures
            c@ == Map::<u64, u64>::empty(),
    {
        Cooldowns { last: HashMap::new() }
    }

    /// Whether `member` is still on cooldown at `now`.
    pub fn on_cooldown(&self, member: u64, now: u64) -> (r: bool)
        ensures
            r == (self@.contains_key(member) && still_cooling(self@[member], now)),
    {
        match self.last.get(&member) {
            Some(t) => {
                let e = if now >= *t { now - *t } else { 0 };
                e < REFRESH_THRESHOLD_MS
            },
            None => false,
        }
    }

    /// Starts the cooldown of `member` at `now`, dropping the entries whose
    /// cooldown has passed.
    pub fn start(&mut self, member: u64, now: u64)
        ensures
            final(self)@ == kept_at(old(self)@, now).insert(member, now),
    {
        let mut kept: HashMap<u64, u64> = HashMap::new();
        let ghost old_map = self.last@;
        for (k, t) in it: self.last.iter()
            invariant
                old_map == self.last@,
                forall|k2: u64| #[trigger] kept@.contains_key(k2) ==> old_map.contains_key(k2)
                    && still_cooling(old_map[k2], now) && kept@[k2] == old_map[k2],
                forall|k2: u64| #[trigger] old_map.contains_key(k2) && still_cooling(old_map[k2], now)
                    && !kept@.contains_key(k2) ==> exists|i: int| it.index() <= i < it.seq().len()
                    && *(#[trigger] it.seq()[i]).0 == k2 && *it.seq()[i].1 == old_map[k2],
        {
            let e = if now >= *t { now - *t } else { 0 };
            if e < REFRESH_THRESHOLD_MS {
                kept.insert(*k, *t);
            }
        }
        proof {
            assert(kept@ =~= kept_at(old_map, now));
        }
        kept.insert(member, now);
        self.last = kept;
    }
}

/// How old a stored snapshot may be before a sync fetches fresh data, in seconds.
pub const SNAPSHOT_MAX_AGE_SECS: i64 = 14_400;

/// Whether a member's stored snapshot (taken at `taken_at`, in seconds) is
/// too old at `now` to sync from; a missing snapshot is.
pub fn snapshot_stale(taken_at: Option<i64>, now: i64) -> (r: bool)
    ensures
        r == match taken_at {
            Some(t) => now - t > SNAPSHOT_MAX_AGE_SECS,
            None => true,
        },
{
    match taken_at {
        Some(t) => (now as i128) - (t as i128) > SNAPSHOT_MAX_AGE_SECS as i128,
        None => true,
    }
}

/// The entries of `m` still on cooldown at `now`.
pub open spec fn kept_at(m: Map<u64, u64>, now: u64) -> Map<u64, u64> {
    Map::new(|k: u64| m.contains_key(k) && still_cooling(m[k], now), |k: u64| m[k])
}

/// A member whose cooldown was just started stays on it until the
/// threshold has passed, and starting it leaves every other member that is
/// still cooling on cooldown.
pub proof fn started_cooldown_holds(m: Map<u64, u64>, member: u64, now: u64, later: u64, other: u64)
    requires
        now <= later < now + REFRESH_THRESHOLD_MS,
    ensures
        kept_at(m, now).insert(member, now).contains_key(member),
        still_cooling(kept_at(m, now).insert(member, now)[member], later),
        other != member && m.contains_key(other) && still_cooling(m[other], now) ==> {
            &&& kept_at(m, now).insert(member, now).contains_key(other)
            &&& kept_at(m, now).insert(member, now)[other] == m[other]
        },
{
}

} // verus!
