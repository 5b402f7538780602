//! The state kept for a session stats card between clicks: the ids of its
//! bookmark buttons, which view a click switches to, and the view shown
//! once a bookmark is renamed or deleted.

use vstd::prelude::*;
use crate::stats_text::{CardSwitch, CACHE_TTL_SECS};
use crate::text::{
    chars_of, string_of, push_str, after_prefix, strip_prefix_chars, first_index, find_char,
    slice_chars, suffix_from, parse_i64, parsed_int, str_eq,
};

verus! {

/// The cache key, uuid and last part of a bookmark button after its prefix
/// (`str::splitn(3, ':')`: the last part keeps any further `:`), where all
/// three are there.
pub open spec fn mgmt_parts(rest: Seq<char>) -> Option<(Seq<char>, Seq<char>, Seq<char>)> {
    match first_index(rest, ':') {
        Some(i) => {
            let tail = rest.skip(i + 1);
            match first_index(tail, ':') {
                Some(j) => Some((rest.take(i), tail.take(j), tail.skip(j + 1))),
                None => None,
            }
        },
        None => None,
    }
}

pub fn parse_mgmt_parts(custom_id: &str, prefix: &str) -> (r: Option<(String, String, String)>)
    ensures
        match mgmt_parts(match after_prefix(custom_id@, prefix@) {
            Some(x) => x,
            None => Seq::<char>::empty(),
        }) {
            Some((a, b, c)) => r is Some && r->Some_0.0@ == a && r->Some_0.1@ == b && r->Some_0.2@ == c,
            None => r is None,
        },
{
    let v = chars_of(custom_id);
    let rest = match strip_prefix_chars(&v, prefix) {
        Some(x) => x,
        None => Vec::new(),
    };
    let i = match find_char(&rest, ':') {
        Some(i) => i,
        None => return None,
    };
    assert(i < rest@.len());
    assert(rest@.len() == rest.len());
    let tail = suffix_from(&rest, i + 1);
    let j = match find_char(&tail, ':') {
        Some(j) => j,
        None => return None,
    };
    assert(j < tail@.len());
    assert(tail@.len() == tail.len());
    let a = slice_chars(&rest, 0, i);
    assert(a@ == rest@.take(i as int));
    let b = slice_chars(&tail, 0, j);
    assert(b@ == tail@.take(j as int));
    let c = suffix_from(&tail, j + 1);
    Some((string_of(&a), string_of(&b), string_of(&c)))
}

/// The bookmark id a delete button carries: its last part read as a number,
/// 0 where it does not read.
pub open spec fn marker_id_of(part: Seq<char>) -> i64 {
    match parsed_int(part, true) {
        Some(v) => if i64::MIN <= v <= i64::MAX { v as i64 } else { 0 },
        None => 0,
    }
}

pub fn parse_marker_id(part: &str) -> (r: i64)
    ensures
        r == marker_id_of(part@),
{
    let v = chars_of(part);
    match parse_i64(&v) {
        Some(x) => x,
        None => 0,
    }
}

/// The view shown after the bookmark behind `deleted_key` was deleted: the
/// same view unless it was the deleted bookmark; then the first period with
/// stats, in the order given, or `daily`.
pub open spec fn first_with_stats(periods: Seq<Seq<char>>, has_stats: Seq<bool>) -> Option<int>
    decreases periods.len(),
{
    if periods.len() == 0 || has_stats.len() == 0 {
        None
    } else if has_stats[0] {
        Some(0)
    } else {
        match first_with_stats(periods.drop_first(), has_stats.drop_first()) {
            Some(k) => Some(k + 1),
            None => None,
        }
    }
}

pub open spec fn view_after_delete(current: Seq<char>, deleted_key: Seq<char>, periods: Seq<Seq<char>>, has_stats: Seq<bool>) -> Seq<char> {
    if current != deleted_key {
        current
    } else {
        match first_with_stats(periods, has_stats) {
            Some(k) => periods[k],
            None => "daily"@,
        }
    }
}

pub fn view_after_deletion(
    current: &str,
    deleted_key: &str,
    periods: &Vec<String>,
    has_stats: &Vec<bool>,
) -> (r: String)
    ensures
        r@ == view_after_delete(current@, deleted_key@, periods.deep_view(), has_stats@),
{
    if !str_eq(current, deleted_key) {
        return string_of(&chars_of(current));
    }
    let mut i: usize = 0;
    assert(periods.deep_view().skip(0) == periods.deep_view());
    assert(has_stats@.skip(0) == has_stats@);
    while i < periods.len() && i < has_stats.len()
        invariant
            i <= periods.len(),
            i <= has_stats.len(),
            current@ == deleted_key@,
            forall|j: int| 0 <= j < i ==> !has_stats@[j],
            first_with_stats(periods.deep_view(), has_stats@) == match first_with_stats(
                periods.deep_view().skip(i as int), has_stats@.skip(i as int)) {
                Some(k) => Some(k + i),
                None => None,
            },
        decreases periods.len() - i,
    {
        assert(periods.deep_view().skip(i as int).drop_first() == periods.deep_view().skip(i + 1));
        assert(has_stats@.skip(i as int).drop_first() == has_stats@.skip(i + 1));
        if has_stats[i] {
            assert(has_stats@.skip(i as int)[0]);
            assert(periods.deep_view()[i as int] == periods@[i as int]@);
            return string_of(&chars_of(periods[i].as_str()));
        }
        i = i + 1;
    }
    string_of(&chars_of("daily"))
}

/// The period a session card opens on: the first period, in the order
/// given, with a snapshot before it, or `daily`.
pub fn initial_period(periods: &Vec<String>, has_previous: &Vec<bool>) -> (r: String)
    ensures
        r@ == match first_with_stats(periods.deep_view(), has_previous@) {
            Some(k) => periods.deep_view()[k],
            None => "daily"@,
        },
{
    view_after_deletion("", "", periods, has_previous)
}

/// The view a renamed bookmark's card shows: the renamed view where the
/// clicking member's card showed the old one.
pub open spec fn view_after_rename(current: Seq<char>, old_key: Seq<char>, new_key: Seq<char>, is_sender: bool) -> Seq<char> {
    if is_sender && current == old_key { new_key } else { current }
}

pub fn view_after_renaming(current: &str, old_key: &str, new_key: &str, is_sender: bool) -> (r: String)
    ensures
        r@ == view_after_rename(current@, old_key@, new_key@, is_sender),
{
    if is_sender && str_eq(current, old_key) {
        string_of(&chars_of(new_key))
    } else {
        string_of(&chars_of(current))
    }
}

/// Decides a click on a session card's period menu: like any cached card,
/// except that someone other than the card's member never sees a preset
/// restricted to that member.
pub fn period_switch(cached: bool, elapsed_secs: u64, sender_id: u64, user_id: u64, restricted: bool) -> (r: CardSwitch)
    ensures
        r == (if !cached || elapsed_secs > CACHE_TTL_SECS {
            CardSwitch::Expired
        } else if sender_id != user_id {
            if restricted { CardSwitch::Expired } else { CardSwitch::Ephemeral }
        } else {
            CardSwitch::Update
        }),
{
    if !cached || elapsed_secs > CACHE_TTL_SECS {
        CardSwitch::Expired
    } else if sender_id != user_id {
        if restricted { CardSwitch::Expired } else { CardSwitch::Ephemeral }
    } else {
        CardSwitch::Update
    }
}

/// The mode and cache key of a mode menu value `<mode>:<cache key>`, split
/// at the first `:`.
pub open spec fn value_parts(value: Seq<char>) -> Option<(Seq<char>, Seq<char>)> {
    match first_index(value, ':') {
        Some(i) => Some((value.take(i), value.skip(i + 1))),
        None => None,
    }
}

pub fn split_mode_value(value: &str) -> (r: Option<(String, String)>)
    ensures
        match value_parts(value@) {
            Some((m, k)) => r is Some && r->Some_0.0@ == m && r->Some_0.1@ == k,
            None => r is None,
        },
{
    let v = chars_of(value);
    match find_char(&v, ':') {
        Some(i) => {
            let m = slice_chars(&v, 0, i);
            assert(m@ == v@.take(i as int));
            let k = suffix_from(&v, i + 1);
            Some((string_of(&m), string_of(&k)))
        },
        None => None,
    }
}


/// Why a Duels session card cannot be shown.
#[derive(Clone, Copy, Debug, PartialEq, Eq, Structural)]
pub enum SessionFailure {
    /// No player was named and the member has no linked account.
    NotLinked,
    /// No earlier snapshot of the player exists yet.
    NoHistory,
    /// The named player could not be found.
    PlayerNotFound,
    /// The player has no Duels stats.
    NoDuelsStats,
    /// Anything else.
    Other,
}

/// The title and text of the reply for a failure; `player` is what the
/// member typed, `username` the player's name.
pub open spec fn session_failure_text(f: SessionFailure, player: Seq<char>, username: Seq<char>) -> (Seq<char>, Seq<char>) {
    match f {
        SessionFailure::NotLinked => ("Not Linked"@, "Link your account or provide a player name"@),
        SessionFailure::NoHistory => ("No Historical Data"@, "No snapshot data available yet. Check back later!"@),
        SessionFailure::PlayerNotFound => ("Player Not Found"@, "Could not find player: "@ + player),
        SessionFailure::NoDuelsStats => (username + "'s Session Stats"@, "This player has no Duels stats"@),
        SessionFailure::Other => ("Error"@, "Something went wrong. Please try again later."@),
    }
}

pub fn session_failure_reply(f: SessionFailure, player: &str, username: &str) -> (r: (String, String))
    ensures
        (r.0@, r.1@) == session_failure_text(f, player@, username@),
{
    match f {
        SessionFailure::NotLinked => (string_of(&chars_of("Not Linked")), string_of(&chars_of("Link your account or provide a player name"))),
        SessionFailure::NoHistory => (
            string_of(&chars_of("No Historical Data")),
            string_of(&chars_of("No snapshot data available yet. Check back later!")),
        ),
        SessionFailure::PlayerNotFound => {
            let mut t: Vec<char> = Vec::new();
            push_str(&mut t, "Could not find player: ");
            push_str(&mut t, player);
            (string_of(&chars_of("Player Not Found")), string_of(&t))
        },
        SessionFailure::NoDuelsStats => {
            let mut t: Vec<char> = Vec::new();
            push_str(&mut t, username);
            push_str(&mut t, "'s Session Stats");
            (string_of(&t), string_of(&chars_of("This player has no Duels stats")))
        },
        SessionFailure::Other => (
            string_of(&chars_of("Error")),
            string_of(&chars_of("Something went wrong. Please try again later.")),
        ),
    }
}


/// The key of a bookmark's view.
pub open spec fn marker_key(name: Seq<char>) -> Seq<char> {
    "marker:"@ + name
}

fn marker_key_of(name: &str) -> (r: String)
    ensures
        r@ == marker_key(name@),
{
    let mut out: Vec<char> = Vec::new();
    push_str(&mut out, "marker:");
    push_str(&mut out, name);
    string_of(&out)
}

/// The period a session card opens on when a period may be asked for: the
/// one asked for where there are stats for it; where none was asked for, the
/// latest bookmark where there are stats for it; else the first period, in
/// the order given, with a snapshot before it; else `daily`.
pub open spec fn preferred_period_of(
    preferred: Option<Seq<char>>,
    preferred_has_stats: bool,
    latest_marker: Option<Seq<char>>,
    marker_has_stats: bool,
    periods: Seq<Seq<char>>,
    has_previous: Seq<bool>,
) -> Seq<char> {
    if preferred is Some && preferred_has_stats {
        preferred->0
    } else if preferred is None && latest_marker is Some && marker_has_stats {
        marker_key(latest_marker->0)
    } else {
        match first_with_stats(periods, has_previous) {
            Some(k) => periods[k],
            None => "daily"@,
        }
    }
}

pub fn preferred_period(
    preferred: Option<&str>,
    preferred_has_stats: bool,
    latest_marker: Option<&str>,
    marker_has_stats: bool,
    periods: &Vec<String>,
    has_previous: &Vec<bool>,
) -> (r: String)
    ensures
        r@ == preferred_period_of(
            match preferred { Some(p) => Some(p@), None => None },
            preferred_has_stats,
            match latest_marker { Some(m) => Some(m@), None => None },
            marker_has_stats,
            periods.deep_view(),
            has_previous@,
        ),
{
    match preferred {
        Some(p) => {
            if preferred_has_stats {
                return string_of(&chars_of(p));
            }
        },
        None => {
            match latest_marker {
                Some(m) => {
                    if marker_has_stats {
                        return marker_key_of(m);
                    }
                },
                None => {},
            }
        },
    }
    initial_period(periods, has_previous)
}

/// The note under a card that opened on another period than the one asked
/// for, by the periods' labels.
pub open spec fn missing_period_text(period: Seq<char>, showing: Seq<char>) -> Seq<char> {
    "-# No data for "@ + period + ", showing "@ + showing + " session"@
}

pub fn missing_period_notice(period: &str, showing: &str) -> (r: String)
    ensures
        r@ == missing_period_text(period@, showing@),
{
    let mut out: Vec<char> = Vec::new();
    push_str(&mut out, "-# No data for ");
    push_str(&mut out, period);
    push_str(&mut out, ", showing ");
    push_str(&mut out, showing);
    push_str(&mut out, " session");
    string_of(&out)
}

/// How a card answers the member who created a bookmark.
#[derive(Clone, Copy, Debug, PartialEq, Eq, Structural)]
pub enum BookmarkReply {
    /// The card itself is redrawn (the member is the one it was shown to).
    Update,
    /// A private "Bookmark created!" message, the card redrawn aside.
    Created,
}

/// What creating a bookmark does.
#[derive(Debug)]
pub enum BookmarkOutcome {
    /// Refused, with the reason shown privately.
    Refused(&'static str),
    /// Created: the bookmark's view key, the period the card shows next, and
    /// how the member is answered.
    Made { key: String, current: String, reply: BookmarkReply },
}

/// Decides the creation of a bookmark named `name` from a card showing
/// `current`: only for an account linked to the member; the card switches
/// to the new bookmark only for the member it was shown to, and only where a
/// snapshot at that time exists.
pub fn bookmark_outcome(is_owner: bool, is_sender: bool, name: &str, current: &str, snapshot_found: bool) -> (r: BookmarkOutcome)
    ensures
        !is_owner ==> (r matches BookmarkOutcome::Refused(m) && m@ == "You can only create bookmarks for accounts linked to you."@),
        is_owner ==> (r matches BookmarkOutcome::Made { key, current: next, reply } && {
            &&& key@ == marker_key(name@)
            &&& next@ == (if is_sender && snapshot_found { marker_key(name@) } else { current@ })
            &&& reply == (if is_sender { BookmarkReply::Update } else { BookmarkReply::Created })
        }),
{
    if !is_owner {
        return BookmarkOutcome::Refused("You can only create bookmarks for accounts linked to you.");
    }
    let key = marker_key_of(name);
    let next = if is_sender && snapshot_found { marker_key_of(name) } else { string_of(&chars_of(current)) };
    let reply = if is_sender { BookmarkReply::Update } else { BookmarkReply::Created };
    BookmarkOutcome::Made { key, current: next, reply }
}

} // verus!
