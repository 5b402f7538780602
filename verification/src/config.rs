//! Reading the ids the services are configured with.

use vstd::prelude::*;
use crate::text::{chars_of, parse_u64, split_chars, split_on, trim_chars, trimmed, u64_in, views};

verus! {

/// The ids listed in `pieces` that read as unsigned integers once trimmed,
/// in order; the others are skipped.
pub open spec fn listed_ids(pieces: Seq<Seq<char>>) -> Seq<u64>
    decreases pieces.len(),
{
    if pieces.len() == 0 {
        Seq::empty()
    } else {
        let prev = listed_ids(pieces.drop_last());
        match u64_in(trimmed(pieces.last())) {
            Some(v) => prev.push(v),
            None => prev,
        }
    }
}

/// The owner ids of a comma-separated list: each entry trimmed and read as
/// an unsigned integer, entries that do not read skipped.
pub fn parse_owner_ids(raw: &str) -> (r: Vec<u64>)
    ensures
        r@ == listed_ids(split_on(raw@, ',')),
{
    let rv = chars_of(raw);
    let pieces = split_chars(&rv, ',');
    let mut out: Vec<u64> = Vec::new();
    let mut i: usize = 0;
    while i < pieces.len()
        invariant
            i <= pieces.len(),
            views(pieces@) == split_on(raw@, ','),
            out@ == listed_ids(views(pieces@).take(i as int)),
        decreases pieces.len() - i,
    {
        let t = trim_chars(&pieces[i]);
        proof {
            assert(views(pieces@).take(i + 1).drop_last() == views(pieces@).take(i as int));
            assert(views(pieces@).take(i + 1).last() == pieces@[i as int]@);
        }
        match parse_u64(&t) {
            Some(v) => {
                out.push(v);
            },
            None => {},
        }
        i = i + 1;
    }
    assert(views(pieces@).take(pieces@.len() as int) == views(pieces@));
    out
}

/// An id read from a configured value: trimmed, then read as an unsigned integer.
pub fn parse_id(raw: &str) -> (r: Option<u64>)
    ensures
        r == u64_in(trimmed(raw@)),
{
    let rv = chars_of(raw);
    let t = trim_chars(&rv);
    parse_u64(&t)
}


/// Whether `user_id` is among the configured owners.
pub fn is_owner(owner_ids: &Vec<u64>, user_id: u64) -> (r: bool)
    ensures
        r == owner_ids@.contains(user_id),
{
    let mut i: usize = 0;
    while i < owner_ids.len()
        invariant
            i <= owner_ids.len(),
            forall|j: int| 0 <= j < i ==> owner_ids@[j] != user_id,
        decreases owner_ids.len() - i,
    {
        if owner_ids[i] == user_id {
            return true;
        }
        i = i + 1;
    }
    false
}

} // verus!
