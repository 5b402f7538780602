//! The index of evidence threads: which forum thread holds the evidence of
//! which player, found from the threads' titles.

use vstd::prelude::*;
use crate::evidence_text::{extract_uuid_from_title, title_uuid};
use crate::text::{str_eq, string_of, push_str, push_chars, decimal, decimal_chars};

verus! {

/// The entries as plain text: a player's uuid and the thread's id.
pub open spec fn entry_views(e: Seq<(String, u64)>) -> Seq<(Seq<char>, u64)> {
    Seq::new(e.len(), |i: int| (e[i].0@, e[i].1))
}

/// The map that the entries make, a later entry for a uuid in place of an
/// earlier one.
pub open spec fn entries_map(e: Seq<(Seq<char>, u64)>) -> Map<Seq<char>, u64>
    decreases e.len(),
{
    if e.len() == 0 {
        Map::empty()
    } else {
        entries_map(e.drop_last()).insert(e.last().0, e.last().1)
    }
}

/// The entries without those of the uuid `k`.
pub open spec fn drop_key(e: Seq<(Seq<char>, u64)>, k: Seq<char>) -> Seq<(Seq<char>, u64)>
    decreases e.len(),
{
    if e.len() == 0 {
        e
    } else if e.last().0 == k {
        drop_key(e.drop_last(), k)
    } else {
        drop_key(e.drop_last(), k).push(e.last())
    }
}

/// The entries without those of the thread `t`.
pub open spec fn drop_thread(e: Seq<(Seq<char>, u64)>, t: u64) -> Seq<(Seq<char>, u64)>
    decreases e.len(),
{
    if e.len() == 0 {
        e
    } else if e.last().1 == t {
        drop_thread(e.drop_last(), t)
    } else {
        drop_thread(e.drop_last(), t).push(e.last())
    }
}

/// No uuid has two entries.
pub open spec fn keys_unique(e: Seq<(Seq<char>, u64)>) -> bool {
    forall|i: int, j: int| 0 <= i < j < e.len() ==> #[trigger] e[i].0 != #[trigger] e[j].0
}

/// `m` without the uuids whose thread is `t`.
pub open spec fn without_thread(m: Map<Seq<char>, u64>, t: u64) -> Map<Seq<char>, u64> {
    Map::new(|k: Seq<char>| m.dom().contains(k) && m[k] != t, |k: Seq<char>| m[k])
}

proof fn lemma_map_keys(e: Seq<(Seq<char>, u64)>, k: Seq<char>)
    ensures
        entries_map(e).dom().contains(k) <==> exists|i: int| 0 <= i < e.len() && #[trigger] e[i].0 == k,
    decreases e.len(),
{
    if e.len() > 0 {
        let e2 = e.drop_last();
        lemma_map_keys(e2, k);
        if entries_map(e).dom().contains(k) {
            if e.last().0 != k {
                let i = choose|i: int| 0 <= i < e2.len() && #[trigger] e2[i].0 == k;
                assert(e[i] == e2[i]);
            } else {
                assert(e[e.len() - 1].0 == k);
            }
        } else {
            assert forall|i: int| 0 <= i < e.len() implies #[trigger] e[i].0 != k by {
                if i < e.len() - 1 {
                    assert(e[i] == e2[i]);
                }
            }
        }
    }
}

proof fn lemma_drop_key_map(e: Seq<(Seq<char>, u64)>, k: Seq<char>)
    ensures
        entries_map(drop_key(e, k)) == entries_map(e).remove(k),
    decreases e.len(),
{
    if e.len() > 0 {
        lemma_drop_key_map(e.drop_last(), k);
        if e.last().0 == k {
            assert(entries_map(e).remove(k) =~= entries_map(e.drop_last()).remove(k));
        } else {
            let d = drop_key(e.drop_last(), k).push(e.last());
            assert(d.drop_last() =~= drop_key(e.drop_last(), k));
            assert(entries_map(d) =~= entries_map(e).remove(k));
        }
    }
}

proof fn lemma_drop_key_keeps(e: Seq<(Seq<char>, u64)>, k: Seq<char>)
    requires
        keys_unique(e),
    ensures
        keys_unique(drop_key(e, k)),
        forall|i: int| 0 <= i < drop_key(e, k).len() ==> #[trigger] drop_key(e, k)[i].0 != k,
        forall|i: int| 0 <= i < drop_key(e, k).len() ==>
            exists|j: int| 0 <= j < e.len() && e[j] == #[trigger] drop_key(e, k)[i],
    decreases e.len(),
{
    if e.len() > 0 {
        let e2 = e.drop_last();
        assert(keys_unique(e2)) by {
            assert forall|i: int, j: int| 0 <= i < j < e2.len() implies #[trigger] e2[i].0 != #[trigger] e2[j].0 by {
                assert(e2[i] == e[i] && e2[j] == e[j]);
            }
        }
        lemma_drop_key_keeps(e2, k);
        let d2 = drop_key(e2, k);
        assert forall|i: int| 0 <= i < d2.len() implies exists|j: int| 0 <= j < e.len() && e[j] == #[trigger] d2[i] by {
            let j = choose|j: int| 0 <= j < e2.len() && e2[j] == d2[i];
            assert(e[j] == e2[j]);
        }
        if e.last().0 != k {
            let d = d2.push(e.last());
            assert forall|i: int| 0 <= i < d2.len() implies #[trigger] d2[i].0 != e.last().0 by {
                let j = choose|j: int| 0 <= j < e2.len() && e2[j] == d2[i];
                assert(e[j] == e2[j]);
                assert(e[e.len() - 1] == e.last());
            }
            assert(keys_unique(d)) by {
                assert forall|i: int, j: int| 0 <= i < j < d.len() implies #[trigger] d[i].0 != #[trigger] d[j].0 by {
                    if j == d.len() - 1 {
                        assert(d[i] == d2[i]);
                    } else {
                        assert(d[i] == d2[i] && d[j] == d2[j]);
                    }
                }
            }
            assert forall|i: int| 0 <= i < d.len() implies #[trigger] d[i].0 != k by {
                if i < d2.len() {
                    assert(d[i] == d2[i]);
                }
            }
            assert forall|i: int| 0 <= i < d.len() implies exists|j: int| 0 <= j < e.len() && e[j] == #[trigger] d[i] by {
                if i < d2.len() {
                    assert(d[i] == d2[i]);
                    let j = choose|j: int| 0 <= j < e.len() && e[j] == d2[i];
                    assert(e[j] == d[i]);
                } else {
                    assert(e[e.len() - 1] == d[i]);
                }
            }
        }
    }
}

proof fn lemma_drop_thread_map(e: Seq<(Seq<char>, u64)>, t: u64)
    requires
        keys_unique(e),
    ensures
        entries_map(drop_thread(e, t)) == without_thread(entries_map(e), t),
        keys_unique(drop_thread(e, t)),
        forall|i: int| 0 <= i < drop_thread(e, t).len() ==>
            exists|j: int| 0 <= j < e.len() && e[j] == #[trigger] drop_thread(e, t)[i],
    decreases e.len(),
{
    if e.len() == 0 {
        assert(without_thread(entries_map(e), t) =~= Map::empty());
    } else {
        let e2 = e.drop_last();
        assert(keys_unique(e2)) by {
            assert forall|i: int, j: int| 0 <= i < j < e2.len() implies #[trigger] e2[i].0 != #[trigger] e2[j].0 by {
                assert(e2[i] == e[i] && e2[j] == e[j]);
            }
        }
        lemma_drop_thread_map(e2, t);
        let k = e.last().0;
        lemma_map_keys(e2, k);
        assert forall|i: int| 0 <= i < e2.len() implies #[trigger] e2[i].0 != k by {
            assert(e2[i] == e[i]);
            assert(e[e.len() - 1] == e.last());
        }
        assert(!entries_map(e2).dom().contains(k));
        let d2 = drop_thread(e2, t);
        assert forall|i: int| 0 <= i < d2.len() implies exists|j: int| 0 <= j < e.len() && e[j] == #[trigger] d2[i] by {
            let j = choose|j: int| 0 <= j < e2.len() && e2[j] == d2[i];
            assert(e[j] == e2[j]);
        }
        if e.last().1 == t {
            assert(without_thread(entries_map(e), t) =~= without_thread(entries_map(e2), t));
        } else {
            let d = d2.push(e.last());
            assert(d.drop_last() =~= d2);
            assert(entries_map(d) =~= without_thread(entries_map(e), t));
            assert forall|i: int| 0 <= i < d2.len() implies #[trigger] d2[i].0 != k by {
                let j = choose|j: int| 0 <= j < e2.len() && e2[j] == d2[i];
                assert(e2[j].0 != k);
            }
            assert(keys_unique(d)) by {
                assert forall|i: int, j: int| 0 <= i < j < d.len() implies #[trigger] d[i].0 != #[trigger] d[j].0 by {
                    if j == d.len() - 1 {
                        assert(d[i] == d2[i]);
                    } else {
                        assert(d[i] == d2[i] && d[j] == d2[j]);
                    }
                }
            }
            assert forall|i: int| 0 <= i < d.len() implies exists|j: int| 0 <= j < e.len() && e[j] == #[trigger] d[i] by {
                if i < d2.len() {
                    assert(d[i] == d2[i]);
                    let j = choose|j: int| 0 <= j < e.len() && e[j] == d2[i];
                    assert(e[j] == d[i]);
                } else {
                    assert(e[e.len() - 1] == d[i]);
                }
            }
        }
    }
}


/// The evidence threads known by the uuid of the player whose evidence
/// each holds.
pub struct EvidenceThreadIndex {
    entries: Vec<(String, u64)>,
}

impl View for EvidenceThreadIndex {
    type V = Map<Seq<char>, u64>;

    closed spec fn view(&self) -> Map<Seq<char>, u64> {
        entries_map(entry_views(self.entries@))
    }
}

impl EvidenceThreadIndex {
    #[verifier::type_invariant]
    closed spec fn wf(self) -> bool {
        keys_unique(entry_views(self.entries@))
    }

    /// An index that knows no thread.
    pub fn new() -> (r: EvidenceThreadIndex)
        ensures
            r@ == Map::<Seq<char>, u64>::empty(),
    {
        let r = EvidenceThreadIndex { entries: Vec::new() };
        assert(entry_views(r.entries@) =~= Seq::<(Seq<char>, u64)>::empty());
        r
    }

    /// Files the thread `thread` under `uuid`, in place of any other.
    pub fn insert(&mut self, uuid: String, thread: u64)
        ensures
            final(self)@ == old(self)@.insert(uuid@, thread),
    {
        proof {
            use_type_invariant(&*self);
        }
        let ghost e = entry_views(self.entries@);
        let mut kept: Vec<(String, u64)> = Vec::new();
        let mut i: usize = 0;
        while i < self.entries.len()
            invariant
                i <= self.entries.len(),
                e == entry_views(self.entries@),
                entry_views(kept@) == drop_key(e.take(i as int), uuid@),
            decreases self.entries.len() - i,
        {
            assert(e.take(i + 1).drop_last() =~= e.take(i as int));
            assert(e.take(i + 1).last() == e[i as int]);
            if !str_eq(self.entries[i].0.as_str(), uuid.as_str()) {
                let name = self.entries[i].0.clone();
                kept.push((name, self.entries[i].1));
                assert(entry_views(kept@) =~= drop_key(e.take(i + 1), uuid@));
            }
            i = i + 1;
        }
        assert(e.take(i as int) =~= e);
        let ghost d = drop_key(e, uuid@);
        proof {
            lemma_drop_key_map(e, uuid@);
            lemma_drop_key_keeps(e, uuid@);
        }
        kept.push((uuid, thread));
        assert(entry_views(kept@) =~= d.push((uuid@, thread)));
        assert(entry_views(kept@).drop_last() =~= d);
        proof {
            let kv = entry_views(kept@);
            assert forall|a: int, b: int| 0 <= a < b < kv.len() implies #[trigger] kv[a].0 != #[trigger] kv[b].0 by {
                if b == kv.len() - 1 {
                    assert(kv[a] == d[a]);
                } else {
                    assert(kv[a] == d[a] && kv[b] == d[b]);
                }
            }
        }
        self.entries = kept;
        assert(self@ =~= old(self)@.insert(uuid@, thread));
    }

    /// Forgets every uuid filed under the thread `thread`.
    pub fn remove_thread(&mut self, thread: u64)
        ensures
            final(self)@ == without_thread(old(self)@, thread),
    {
        proof {
            use_type_invariant(&*self);
        }
        let ghost e = entry_views(self.entries@);
        let mut kept: Vec<(String, u64)> = Vec::new();
        let mut i: usize = 0;
        while i < self.entries.len()
            invariant
                i <= self.entries.len(),
                e == entry_views(self.entries@),
                entry_views(kept@) == drop_thread(e.take(i as int), thread),
            decreases self.entries.len() - i,
        {
            assert(e.take(i + 1).drop_last() =~= e.take(i as int));
            assert(e.take(i + 1).last() == e[i as int]);
            if self.entries[i].1 != thread {
                let name = self.entries[i].0.clone();
                kept.push((name, self.entries[i].1));
                assert(entry_views(kept@) =~= drop_thread(e.take(i + 1), thread));
            }
            i = i + 1;
        }
        assert(e.take(i as int) =~= e);
        proof {
            lemma_drop_thread_map(e, thread);
        }
        self.entries = kept;
    }

    /// The thread filed under `uuid`, if any.
    pub fn thread_for(&self, uuid: &str) -> (r: Option<u64>)
        ensures
            r == (if self@.dom().contains(uuid@) { Some(self@[uuid@]) } else { None }),
    {
        proof {
            use_type_invariant(self);
        }
        let ghost e = entry_views(self.entries@);
        let mut i: usize = 0;
        while i < self.entries.len()
            invariant
                i <= self.entries.len(),
                e == entry_views(self.entries@),
                keys_unique(e),
                forall|j: int| 0 <= j < i ==> #[trigger] e[j].0 != uuid@,
            decreases self.entries.len() - i,
        {
            if str_eq(self.entries[i].0.as_str(), uuid) {
                proof {
                    lemma_unique_lookup(e, i as int);
                }
                return Some(self.entries[i].1);
            }
            i = i + 1;
        }
        proof {
            lemma_map_keys(e, uuid@);
        }
        None
    }
}

proof fn lemma_unique_lookup(e: Seq<(Seq<char>, u64)>, i: int)
    requires
        keys_unique(e),
        0 <= i < e.len(),
    ensures
        entries_map(e).dom().contains(e[i].0),
        entries_map(e)[e[i].0] == e[i].1,
    decreases e.len(),
{
    let e2 = e.drop_last();
    if i < e.len() - 1 {
        assert(e2[i] == e[i]);
        assert(keys_unique(e2)) by {
            assert forall|a: int, b: int| 0 <= a < b < e2.len() implies #[trigger] e2[a].0 != #[trigger] e2[b].0 by {
                assert(e2[a] == e[a] && e2[b] == e[b]);
            }
        }
        lemma_unique_lookup(e2, i);
        assert(e[e.len() - 1].0 != e[i].0);
    }
}


/// The index once a thread named `name` in the channel `parent` is seen: a
/// thread of the evidence forum whose title ends in a uuid is filed under
/// it; any other leaves the index as it was.
pub open spec fn indexed(m: Map<Seq<char>, u64>, forum: Option<u64>, name: Seq<char>, thread: u64, parent: u64) -> Map<Seq<char>, u64> {
    if forum == Some(parent) && title_uuid(name) is Some {
        m.insert(title_uuid(name)->0, thread)
    } else {
        m
    }
}

pub fn thread_index_insert(index: &mut EvidenceThreadIndex, evidence_forum_id: Option<u64>, name: &str, thread_id: u64, parent_id: u64)
    ensures
        final(index)@ == indexed(old(index)@, evidence_forum_id, name@, thread_id, parent_id),
{
    if evidence_forum_id != Some(parent_id) {
        return;
    }
    match extract_uuid_from_title(name) {
        Some(uuid) => index.insert(uuid, thread_id),
        None => {},
    }
}

pub fn thread_index_remove(index: &mut EvidenceThreadIndex, thread_id: u64)
    ensures
        final(index)@ == without_thread(old(index)@, thread_id),
{
    index.remove_thread(thread_id);
}

/// The link to a channel of a guild.
pub open spec fn channel_url(guild: u64, channel: u64) -> Seq<char> {
    "https://discord.com/channels/"@ + decimal(guild as nat) + "/"@ + decimal(channel as nat)
}

/// The link to the evidence thread of the player `uuid`: none where no
/// thread is filed under it or no home guild is set.
pub fn evidence_thread_url(index: &EvidenceThreadIndex, home_guild_id: Option<u64>, uuid: &str) -> (r: Option<String>)
    ensures
        match (home_guild_id, index@.dom().contains(uuid@)) {
            (Some(g), true) => r is Some && r->Some_0@ == channel_url(g, index@[uuid@]),
            _ => r is None,
        },
{
    let thread = match index.thread_for(uuid) {
        Some(t) => t,
        None => return None,
    };
    let guild = match home_guild_id {
        Some(g) => g,
        None => return None,
    };
    let mut out: Vec<char> = Vec::new();
    push_str(&mut out, "https://discord.com/channels/");
    push_chars(&mut out, &decimal_chars(guild));
    push_str(&mut out, "/");
    push_chars(&mut out, &decimal_chars(thread));
    Some(string_of(&out))
}

/// A thread of the evidence forum, once seen, is found by the uuid in its
/// title, and no other uuid's thread changes.
pub proof fn seen_thread_is_found(m: Map<Seq<char>, u64>, forum: u64, name: Seq<char>, thread: u64, other: Seq<char>)
    requires
        title_uuid(name) is Some,
        other != title_uuid(name)->0,
    ensures
        indexed(m, Some(forum), name, thread, forum).dom().contains(title_uuid(name)->0),
        indexed(m, Some(forum), name, thread, forum)[title_uuid(name)->0] == thread,
        indexed(m, Some(forum), name, thread, forum).dom().contains(other) == m.dom().contains(other),
        indexed(m, Some(forum), name, thread, forum)[other] == m[other],
{
}

/// Once a thread is removed, no uuid leads to it, and every uuid that led
/// to another thread still leads there.
pub proof fn removed_thread_is_forgotten(m: Map<Seq<char>, u64>, thread: u64, k: Seq<char>)
    ensures
        without_thread(m, thread).dom().contains(k) ==> without_thread(m, thread)[k] != thread,
        m.dom().contains(k) && m[k] != thread ==>
            without_thread(m, thread).dom().contains(k) && without_thread(m, thread)[k] == m[k],
{
}

} // verus!
