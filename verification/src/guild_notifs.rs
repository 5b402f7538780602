//! The guild notification settings of a member: what the alerts cover, the
//! accounts a guild can be watched with, and which tags the tag menu has
//! selected.

use vstd::prelude::*;
use crate::prestige::contains_string;
use crate::stats_text::{find_pair, pair_index_from, pair_views};
use crate::text::{chars_of, join, join_strings, push_str, string_of};

verus! {

/// The display names of the known tag types among `tags`, in order; the
/// catalogue `table` pairs each tag name with its display name.
pub open spec fn known_displays(tags: Seq<Seq<char>>, table: Seq<(Seq<char>, Seq<char>)>) -> Seq<Seq<char>>
    decreases tags.len(),
{
    if tags.len() == 0 {
        Seq::empty()
    } else {
        let prev = known_displays(tags.drop_last(), table);
        match pair_index_from(table, tags.last(), 0) {
            Some(i) => prev.push(table[i].1),
            None => prev,
        }
    }
}

/// What the alerts cover: all tags where none are chosen, else the display
/// names of the chosen ones.
pub open spec fn alerts_spec(tags: Seq<Seq<char>>, table: Seq<(Seq<char>, Seq<char>)>) -> Seq<char> {
    if tags.len() == 0 { "all tags"@ } else { join(known_displays(tags, table), ", "@) }
}

fn copy_text(s: &String) -> (r: String)
    ensures
        r@ == s@,
{
    let v = chars_of(s.as_str());
    string_of(&v)
}

/// The alerts line's list of tags.
pub fn alerts_text(tags: &Vec<String>, table: &Vec<(String, String)>) -> (r: String)
    ensures
        r@ == alerts_spec(tags.deep_view(), pair_views(table@)),
{
    if tags.len() == 0 {
        let mut v: Vec<char> = Vec::new();
        push_str(&mut v, "all tags");
        return string_of(&v);
    }
    let ghost tb = pair_views(table@);
    let mut names: Vec<String> = Vec::new();
    let mut i: usize = 0;
    while i < tags.len()
        invariant
            i <= tags.len(),
            tb == pair_views(table@),
            names.deep_view() == known_displays(tags.deep_view().take(i as int), tb),
        decreases tags.len() - i,
    {
        proof {
            assert(tags.deep_view().take(i + 1).drop_last() == tags.deep_view().take(i as int));
            assert(tags.deep_view().take(i + 1).last() == tags@[i as int]@);
        }
        match find_pair(table, tags[i].as_str()) {
            Some(k) => {
                let ghost before = names.deep_view();
                names.push(copy_text(&table[k].1));
                assert(names.deep_view() =~= before.push(tb[k as int].1));
            },
            None => {},
        }
        i = i + 1;
    }
    assert(tags.deep_view().take(tags.len() as int) == tags.deep_view());
    join_strings(&names, ", ")
}

/// The accounts a guild can be watched with: the member's own account,
/// then the linked ones, each once, in that order.
pub open spec fn accounts_from(acc: Seq<Seq<char>>, linked: Seq<Seq<char>>) -> Seq<Seq<char>>
    decreases linked.len(),
{
    if linked.len() == 0 {
        acc
    } else {
        let prev = accounts_from(acc, linked.drop_last());
        if prev.contains(linked.last()) { prev } else { prev.push(linked.last()) }
    }
}

pub open spec fn watch_accounts_spec(primary: Option<Seq<char>>, linked: Seq<Seq<char>>) -> Seq<Seq<char>> {
    accounts_from(match primary { Some(p) => seq![p], None => Seq::empty() }, linked)
}

/// The accounts a guild can be watched with.
pub fn watch_accounts(primary: &Option<String>, linked: &Vec<String>) -> (r: Vec<String>)
    ensures
        r.deep_view() == watch_accounts_spec(match *primary { Some(p) => Some(p@), None => None }, linked.deep_view()),
{
    let mut out: Vec<String> = Vec::new();
    match primary {
        Some(p) => {
            out.push(copy_text(p));
        },
        None => {},
    }
    let ghost start = out.deep_view();
    assert(start =~= match *primary { Some(p) => seq![p@], None => Seq::<Seq<char>>::empty() });
    let mut i: usize = 0;
    while i < linked.len()
        invariant
            i <= linked.len(),
            out.deep_view() == accounts_from(start, linked.deep_view().take(i as int)),
        decreases linked.len() - i,
    {
        proof {
            assert(linked.deep_view().take(i + 1).drop_last() == linked.deep_view().take(i as int));
            assert(linked.deep_view().take(i + 1).last() == linked@[i as int]@);
        }
        if !contains_string(&out, linked[i].as_str()) {
            let ghost before = out.deep_view();
            out.push(copy_text(&linked[i]));
            assert(out.deep_view() =~= before.push(linked@[i as int]@));
        }
        i = i + 1;
    }
    assert(linked.deep_view().take(linked.len() as int) == linked.deep_view());
    out
}

proof fn lemma_accounts_from(acc: Seq<Seq<char>>, linked: Seq<Seq<char>>)
    requires
        acc.no_duplicates(),
    ensures
        accounts_from(acc, linked).no_duplicates(),
        accounts_from(acc, linked).len() >= acc.len(),
        accounts_from(acc, linked).take(acc.len() as int) == acc,
        forall|i: int| 0 <= i < linked.len() ==> accounts_from(acc, linked).contains(#[trigger] linked[i]),
    decreases linked.len(),
{
    if linked.len() > 0 {
        lemma_accounts_from(acc, linked.drop_last());
        let prev = accounts_from(acc, linked.drop_last());
        if !prev.contains(linked.last()) {
            assert(prev.push(linked.last()).take(acc.len() as int) == prev.take(acc.len() as int));
            assert(prev.push(linked.last())[prev.len() as int] == linked.last());
        }
        assert forall|i: int| 0 <= i < linked.len() implies accounts_from(acc, linked).contains(#[trigger] linked[i]) by {
            if i < linked.len() - 1 {
                assert(linked.drop_last()[i] == linked[i]);
                let w = choose|w: int| 0 <= w < prev.len() && prev[w] == linked[i];
                if !prev.contains(linked.last()) {
                    assert(prev.push(linked.last())[w] == linked[i]);
                }
            } else if !prev.contains(linked.last()) {
                assert(prev.push(linked.last())[prev.len() as int] == linked[i]);
            }
        }
    }
}

/// The watch list starts with the member's own account and holds every
/// linked account, each account once.
pub proof fn watch_accounts_once(primary: Option<Seq<char>>, linked: Seq<Seq<char>>)
    ensures
        watch_accounts_spec(primary, linked).no_duplicates(),
        forall|i: int| 0 <= i < linked.len() ==> watch_accounts_spec(primary, linked).contains(#[trigger] linked[i]),
        primary is Some ==> watch_accounts_spec(primary, linked).len() > 0
            && watch_accounts_spec(primary, linked)[0] == primary->0,
{
    let acc = match primary { Some(p) => seq![p], None => Seq::<Seq<char>>::empty() };
    lemma_accounts_from(acc, linked);
    if primary is Some {
        assert(watch_accounts_spec(primary, linked).take(1)[0] == watch_accounts_spec(primary, linked)[0]);
    }
}

/// Whether a subscription that chose `chosen` tags (none meaning all)
/// alerts for `tag`.
pub open spec fn alerts_for(chosen: Seq<Seq<char>>, tag: Seq<char>) -> bool {
    chosen.len() == 0 || chosen.contains(tag)
}

/// The members to alert of a new tag on a player of the guild: those whose
/// subscription alerts for its type, in order; nobody where the tag has no type.
pub open spec fn watchers_spec(subs: Seq<(u64, Vec<String>)>, tag: Option<Seq<char>>, n: int) -> Seq<u64>
    decreases n,
{
    if n <= 0 {
        Seq::empty()
    } else {
        let prev = watchers_spec(subs, tag, n - 1);
        match tag {
            Some(t) => if alerts_for(subs[n - 1].1.deep_view(), t) { prev.push(subs[n - 1].0) } else { prev },
            None => prev,
        }
    }
}

pub fn watchers_for(subs: &Vec<(u64, Vec<String>)>, tag: Option<&str>) -> (r: Vec<u64>)
    ensures
        r@ == watchers_spec(subs@, match tag {
            Some(t) => Some(t@),
            None => None,
        }, subs@.len() as int),
{
    let ghost tv = match tag {
        Some(t) => Some(t@),
        None => None::<Seq<char>>,
    };
    let mut out: Vec<u64> = Vec::new();
    let mut i: usize = 0;
    while i < subs.len()
        invariant
            i <= subs.len(),
            tv == match tag {
                Some(t) => Some(t@),
                None => None::<Seq<char>>,
            },
            out@ == watchers_spec(subs@, tv, i as int),
        decreases subs.len() - i,
    {
        match tag {
            Some(t) => {
                let chosen = &subs[i].1;
                if chosen.len() == 0 || contains_string(chosen, t) {
                    out.push(subs[i].0);
                }
            },
            None => {},
        }
        i = i + 1;
    }
    out
}

/// Which tags of the catalogue the tag menu shows selected: all of them
/// where none are chosen, else the chosen ones.
pub fn tag_defaults(catalogue: &Vec<String>, chosen: &Vec<String>) -> (r: Vec<bool>)
    ensures
        r@.len() == catalogue@.len(),
        forall|i: int| 0 <= i < r@.len() ==> #[trigger] r@[i] == (chosen@.len() == 0
            || chosen.deep_view().contains(catalogue@[i]@)),
{
    let mut out: Vec<bool> = Vec::new();
    let mut i: usize = 0;
    while i < catalogue.len()
        invariant
            i <= catalogue.len(),
            out@.len() == i,
            forall|j: int| 0 <= j < i ==> #[trigger] out@[j] == (chosen@.len() == 0
                || chosen.deep_view().contains(catalogue@[j]@)),
        decreases catalogue.len() - i,
    {
        let on = chosen.len() == 0 || contains_string(chosen, catalogue[i].as_str());
        out.push(on);
        i = i + 1;
    }
    out
}

} // verus!
