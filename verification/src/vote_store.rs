//! The votes cast on the players of open review threads since their
//! messages were last drawn, kept in memory by thread and player.

use vstd::prelude::*;
use std::collections::HashMap;
use crate::review_votes::{after_vote, record_vote};

verus! {

broadcast use vstd::std_specs::hash::group_hash_axioms;

/// The (accept, reject) tallies of each player of each open thread, by
/// thread id and the player's position in the submission.
pub struct PendingVotes {
    threads: HashMap<u64, HashMap<usize, (Vec<u64>, Vec<u64>)>>,
}

/// The tallies of a stored entry.
pub open spec fn tallies(e: (Vec<u64>, Vec<u64>)) -> (Seq<u64>, Seq<u64>) {
    (e.0@, e.1@)
}

impl View for PendingVotes {
    type V = Map<(u64, usize), (Seq<u64>, Seq<u64>)>;

    closed spec fn view(&self) -> Map<(u64, usize), (Seq<u64>, Seq<u64>)> {
        Map::new(
            |k: (u64, usize)| self.threads@.contains_key(k.0) && self.threads@[k.0]@.contains_key(k.1),
            |k: (u64, usize)| tallies(self.threads@[k.0]@[k.1]),
        )
    }
}

/// The tallies in effect for a player: those kept when there are any, else
/// those read back from the message.
pub open spec fn in_effect(
    kept: Map<(u64, usize), (Seq<u64>, Seq<u64>)>,
    thread: u64,
    player: usize,
    parsed: (Seq<u64>, Seq<u64>),
) -> (Seq<u64>, Seq<u64>) {
    if kept.contains_key((thread, player)) { kept[(thread, player)] } else { parsed }
}

impl PendingVotes {
    /// No votes kept.
    pub fn new() -> (p: Self)
        ensures
            p@ == Map::<(u64, usize), (Seq<u64>, Seq<u64>)>::empty(),
    {
        let p = PendingVotes { threads: HashMap::new() };
        assert(p@ =~= Map::<(u64, usize), (Seq<u64>, Seq<u64>)>::empty());
        p
    }

    /// The tallies in effect for a player of a thread, given those read back
    /// from its message.
    pub fn load(
        &self,
        thread: u64,
        player: usize,
        parsed_accepts: &Vec<u64>,
        parsed_rejects: &Vec<u64>,
    ) -> (r: (Vec<u64>, Vec<u64>))
        ensures
            (r.0@, r.1@) == in_effect(self@, thread, player, (parsed_accepts@, parsed_rejects@)),
    {
        match self.threads.get(&thread) {
            Some(inner) => match inner.get(&player) {
                Some(e) => (e.0.clone(), e.1.clone()),
                None => (parsed_accepts.clone(), parsed_rejects.clone()),
            },
            None => (parsed_accepts.clone(), parsed_rejects.clone()),
        }
    }

    /// Records a vote of `voter` for (or against) a player and gives the
    /// tallies after it; the tallies it starts from are those kept, else the
    /// current ones given.
    pub fn record(
        &mut self,
        thread: u64,
        player: usize,
        voter: u64,
        accept: bool,
        current_accepts: &Vec<u64>,
        current_rejects: &Vec<u64>,
    ) -> (r: (Vec<u64>, Vec<u64>))
        ensures
            (r.0@, r.1@) == ({
                let base = in_effect(old(self)@, thread, player, (current_accepts@, current_rejects@));
                after_vote(base.0, base.1, voter, accept)
            }),
            final(self)@ == old(self)@.insert((thread, player), (r.0@, r.1@)),
    {
        let ghost before = self@;
        let ghost old_threads = self.threads@;
        let mut inner = match self.threads.remove(&thread) {
            Some(m) => m,
            None => HashMap::new(),
        };
        let ghost inner_before = inner@;
        let (a, b) = match inner.get(&player) {
            Some(e) => record_vote(&e.0, &e.1, voter, accept),
            None => record_vote(current_accepts, current_rejects, voter, accept),
        };
        inner.insert(player, (a.clone(), b.clone()));
        self.threads.insert(thread, inner);
        proof {
            assert(old_threads.contains_key(thread) ==> inner_before == old_threads[thread]@);
            assert(!old_threads.contains_key(thread) ==> inner_before == Map::<usize, (Vec<u64>, Vec<u64>)>::empty());
            assert(self@ =~= before.insert((thread, player), (a@, b@)));
        }
        (a, b)
    }

    /// Forgets the votes kept for a thread.
    pub fn clear_thread(&mut self, thread: u64)
        ensures
            final(self)@ == old(self)@.restrict(old(self)@.dom().filter(|k: (u64, usize)| k.0 != thread)),
    {
        let ghost before = self@;
        self.threads.remove(&thread);
        assert(self@ =~= before.restrict(before.dom().filter(|k: (u64, usize)| k.0 != thread)));
    }
}

/// A recorded vote is what the next load of that player gives, whatever the
/// message reads; the other players keep the tallies they had.
pub proof fn recorded_votes_read_back(
    kept: Map<(u64, usize), (Seq<u64>, Seq<u64>)>,
    thread: u64,
    player: usize,
    tallies_after: (Seq<u64>, Seq<u64>),
    parsed: (Seq<u64>, Seq<u64>),
    other_thread: u64,
    other_player: usize,
)
    ensures
        in_effect(kept.insert((thread, player), tallies_after), thread, player, parsed) == tallies_after,
        (other_thread, other_player) != (thread, player) ==>
            in_effect(kept.insert((thread, player), tallies_after), other_thread, other_player, parsed)
                == in_effect(kept, other_thread, other_player, parsed),
{
}

/// Once a thread's votes are forgotten, its players' tallies are read back
/// from the message again; other threads keep theirs.
pub proof fn cleared_thread_reads_message(
    kept: Map<(u64, usize), (Seq<u64>, Seq<u64>)>,
    thread: u64,
    player: usize,
    parsed: (Seq<u64>, Seq<u64>),
    other_thread: u64,
)
    ensures
        in_effect(kept.restrict(kept.dom().filter(|k: (u64, usize)| k.0 != thread)), thread, player, parsed) == parsed,
        other_thread != thread ==> in_effect(kept.restrict(kept.dom().filter(|k: (u64, usize)| k.0 != thread)),
            other_thread, player, parsed) == in_effect(kept, other_thread, player, parsed),
{
}


/// The announcement message of each vote of an open thread, by thread, the
/// player's position and the voter, so that a changed vote edits its message.
pub struct VoteMessages {
    threads: HashMap<u64, HashMap<usize, HashMap<u64, u64>>>,
}

impl View for VoteMessages {
    type V = Map<(u64, usize, u64), u64>;

    closed spec fn view(&self) -> Map<(u64, usize, u64), u64> {
        Map::new(
            |k: (u64, usize, u64)| self.threads@.contains_key(k.0) && self.threads@[k.0]@.contains_key(k.1)
                && self.threads@[k.0]@[k.1]@.contains_key(k.2),
            |k: (u64, usize, u64)| self.threads@[k.0]@[k.1]@[k.2],
        )
    }
}

impl VoteMessages {
    /// No messages kept.
    pub fn new() -> (m: Self)
        ensures
            m@ == Map::<(u64, usize, u64), u64>::empty(),
    {
        let m = VoteMessages { threads: HashMap::new() };
        assert(m@ =~= Map::<(u64, usize, u64), u64>::empty());
        m
    }

    /// The message that announced `voter`'s vote on a player, if any.
    pub fn get(&self, thread: u64, player: usize, voter: u64) -> (r: Option<u64>)
        ensures
            r == (if self@.contains_key((thread, player, voter)) { Some(self@[(thread, player, voter)]) } else { None }),
    {
        match self.threads.get(&thread) {
            Some(players) => match players.get(&player) {
                Some(voters) => match voters.get(&voter) {
                    Some(m) => Some(*m),
                    None => None,
                },
                None => None,
            },
            None => None,
        }
    }

    /// Keeps `message` as the announcement of `voter`'s vote on a player.
    pub fn insert(&mut self, thread: u64, player: usize, voter: u64, message: u64)
        ensures
            final(self)@ == old(self)@.insert((thread, player, voter), message),
    {
        let ghost before = self@;
        let ghost old_threads = self.threads@;
        let mut players = match self.threads.remove(&thread) {
            Some(m) => m,
            None => HashMap::new(),
        };
        let ghost players_before = players@;
        let mut voters = match players.remove(&player) {
            Some(m) => m,
            None => HashMap::new(),
        };
        let ghost voters_before = voters@;
        voters.insert(voter, message);
        players.insert(player, voters);
        self.threads.insert(thread, players);
        proof {
            assert(old_threads.contains_key(thread) ==> players_before == old_threads[thread]@);
            assert(!old_threads.contains_key(thread) ==> players_before == Map::<usize, HashMap<u64, u64>>::empty());
            assert(players_before.contains_key(player) ==> voters_before == players_before[player]@);
            assert(!players_before.contains_key(player) ==> voters_before == Map::<u64, u64>::empty());
            assert(self@ =~= before.insert((thread, player, voter), message));
        }
    }

    /// Forgets the messages of a thread.
    pub fn clear_thread(&mut self, thread: u64)
        ensures
            final(self)@ == old(self)@.restrict(old(self)@.dom().filter(|k: (u64, usize, u64)| k.0 != thread)),
    {
        let ghost before = self@;
        self.threads.remove(&thread);
        assert(self@ =~= before.restrict(before.dom().filter(|k: (u64, usize, u64)| k.0 != thread)));
    }
}

/// Forgets what is kept of a resolved thread: the votes on its players and
/// the messages that announced them.
pub fn cleanup_review_votes(votes: &mut PendingVotes, messages: &mut VoteMessages, thread: u64)
    ensures
        final(votes)@ == old(votes)@.restrict(old(votes)@.dom().filter(|k: (u64, usize)| k.0 != thread)),
        final(messages)@ == old(messages)@.restrict(old(messages)@.dom().filter(|k: (u64, usize, u64)| k.0 != thread)),
{
    votes.clear_thread(thread);
    messages.clear_thread(thread);
}

} // verus!
