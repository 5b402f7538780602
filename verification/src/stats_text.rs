//! Helpers of the stats cards and session menus: escaping names, elapsed
//! time, roman numerals, the cached-card interactions and the session menu.

use vstd::prelude::*;
use crate::text::{chars_of, decimal, decimal_chars, has_prefix, push_chars, push_str, seq_eq, starts_with, str_eq, string_of, suffix_from};

verus! {

/// Seconds a rendered stats card stays interactive.
pub const CACHE_TTL_SECS: u64 = 120;

/// Characters escaped in a player or bookmark name shown in markdown.
pub open spec fn is_name_markdown(c: char) -> bool {
    c == '*' || c == '_' || c == '~' || c == '`' || c == '|' || c == '>' || c == '\\' || c == '[' || c == ']'
}

/// `s` with each markdown character of a name preceded by a backslash.
pub open spec fn escaped_name(s: Seq<char>) -> Seq<char>
    decreases s.len(),
{
    if s.len() == 0 {
        seq![]
    } else {
        escaped_name(s.drop_last()) + (if is_name_markdown(s.last()) { seq!['\\', s.last()] } else { seq![s.last()] })
    }
}

/// Escapes markdown in a name.
pub fn sanitize(name: &str) -> (r: String)
    ensures
        r@ == escaped_name(name@),
{
    let v = chars_of(name);
    let mut out: Vec<char> = Vec::new();
    let mut i: usize = 0;
    while i < v.len()
        invariant
            i <= v.len(),
            v@ == name@,
            out@ == escaped_name(v@.take(i as int)),
        decreases v.len() - i,
    {
        let c = v[i];
        let ghost before = out@;
        if c == '*' || c == '_' || c == '~' || c == '`' || c == '|' || c == '>' || c == '\\' || c == '[' || c == ']' {
            out.push('\\');
        }
        out.push(c);
        proof {
            let t = v@.take(i + 1);
            assert(t.drop_last() == v@.take(i as int));
            assert(t.last() == c);
        }
        i = i + 1;
    }
    assert(v@.take(v.len() as int) == v@);
    string_of(&out)
}

/// The name a session view is shown under: a bookmark view without its
/// `marker:` prefix.
pub fn view_display_name(view: &str) -> (r: String)
    ensures
        has_prefix(view@, "marker:"@) ==> r@ == view@.skip(7),
        !has_prefix(view@, "marker:"@) ==> r@ == view@,
{
    let v = chars_of(view);
    proof {
        reveal_strlit("marker:");
    }
    if starts_with(&v, "marker:") {
        let rest = suffix_from(&v, 7);
        string_of(&rest)
    } else {
        string_of(&v)
    }
}

/// A short elapsed time: whole days from a day on, hours and minutes from an
/// hour on, else minutes (at least one).
pub open spec fn duration_text(secs: int) -> Seq<char> {
    if secs >= 86400 {
        decimal((secs / 86400) as nat) + "d"@
    } else if secs >= 3600 {
        if (secs / 60) % 60 > 0 {
            decimal((secs / 3600) as nat) + "h "@ + decimal(((secs / 60) % 60) as nat) + "m"@
        } else {
            decimal((secs / 3600) as nat) + "h"@
        }
    } else if secs >= 60 {
        decimal((secs / 60) as nat) + "m"@
    } else {
        "1m"@
    }
}

/// Formats an elapsed time given in whole seconds.
pub fn format_duration(total_seconds: i64) -> (r: String)
    ensures
        r@ == duration_text(total_seconds as int),
{
    let mut out: Vec<char> = Vec::new();
    if total_seconds >= 86400 {
        let d = decimal_chars((total_seconds / 86400) as u64);
        push_chars(&mut out, &d);
        push_str(&mut out, "d");
    } else if total_seconds >= 3600 {
        let h = decimal_chars((total_seconds / 3600) as u64);
        let m = (total_seconds / 60) % 60;
        push_chars(&mut out, &h);
        if m > 0 {
            push_str(&mut out, "h ");
            let mv = decimal_chars(m as u64);
            push_chars(&mut out, &mv);
            push_str(&mut out, "m");
        } else {
            push_str(&mut out, "h");
        }
    } else if total_seconds >= 60 {
        let m = decimal_chars((total_seconds / 60) as u64);
        push_chars(&mut out, &m);
        push_str(&mut out, "m");
    } else {
        push_str(&mut out, "1m");
    }
    string_of(&out)
}

/// The roman numerals, largest first, as (value, symbol).
pub open spec fn numeral(i: int) -> (nat, Seq<char>) {
    if i == 0 { (1000, "M"@) } else if i == 1 { (900, "CM"@) } else if i == 2 { (500, "D"@) }
    else if i == 3 { (400, "CD"@) } else if i == 4 { (100, "C"@) } else if i == 5 { (90, "XC"@) }
    else if i == 6 { (50, "L"@) } else if i == 7 { (40, "XL"@) } else if i == 8 { (10, "X"@) }
    else if i == 9 { (9, "IX"@) } else if i == 10 { (5, "V"@) } else if i == 11 { (4, "IV"@) }
    else { (1, "I"@) }
}

fn numeral_at(i: usize) -> (r: (u32, &'static str))
    requires
        i < 13,
    ensures
        r.0 as nat == numeral(i as int).0,
        r.1@ == numeral(i as int).1,
        r.0 >= 1,
{
    match i {
        0 => (1000, "M"),
        1 => (900, "CM"),
        2 => (500, "D"),
        3 => (400, "CD"),
        4 => (100, "C"),
        5 => (90, "XC"),
        6 => (50, "L"),
        7 => (40, "XL"),
        8 => (10, "X"),
        9 => (9, "IX"),
        10 => (5, "V"),
        11 => (4, "IV"),
        _ => (1, "I"),
    }
}

/// `s` repeated `k` times.
pub open spec fn repeat(s: Seq<char>, k: nat) -> Seq<char>
    decreases k,
{
    if k == 0 { seq![] } else { repeat(s, (k - 1) as nat) + s }
}

/// The roman numeral of `v`, written greedily with the numerals from index
/// `i` on: each numeral as often as it fits, then the next.
pub open spec fn roman_from(v: nat, i: int) -> Seq<char>
    decreases 13 - i,
{
    if i >= 13 || i < 0 {
        seq![]
    } else {
        let (n, sym) = numeral(i);
        repeat(sym, v / n) + roman_from(v % n, i + 1)
    }
}

/// The roman numeral of `value` (0 gives an empty string).
pub fn roman(value: u32) -> (r: String)
    ensures
        r@ == roman_from(value as nat, 0),
{
    let mut remaining = value;
    let mut out: Vec<char> = Vec::new();
    let mut i: usize = 0;
    while i < 13
        invariant
            i <= 13,
            out@ + roman_from(remaining as nat, i as int) == roman_from(value as nat, 0),
        decreases 13 - i,
    {
        let (n, sym) = numeral_at(i);
        let ghost start = remaining;
        let ghost base = out@;
        let mut k: u32 = 0;
        while remaining >= n
            invariant
                n >= 1,
                n as nat == numeral(i as int).0,
                sym@ == numeral(i as int).1,
                remaining as int + (k as int) * (n as int) == start as int,
                k <= start,
                out@ == base + repeat(sym@, k as nat),
            decreases remaining,
        {
            proof {
                assert((k as int + 1) * (n as int) == (k as int) * (n as int) + n as int) by (nonlinear_arith);
                assert((k as int) <= (k as int) * (n as int)) by (nonlinear_arith)
                    requires n >= 1, k >= 0;
            }
            push_str(&mut out, sym);
            remaining = remaining - n;
            k = k + 1;
        }
        proof {
            assert(start as int == (k as int) * (n as int) + remaining as int);
            assert(k as int == start as int / n as int && remaining as int == start as int % n as int) by (nonlinear_arith)
                requires
                    start as int == (k as int) * (n as int) + remaining as int,
                    0 <= remaining < n,
                    k >= 0;
        }
        i = i + 1;
    }
    string_of(&out)
}

/// The x position of a card column.
pub fn col_x(col: u32) -> (x: u32)
    ensures
        x == (if col == 1 { 272u32 } else if col == 2 { 544u32 } else { 0u32 }),
{
    if col == 1 { 272 } else if col == 2 { 544 } else { 0 }
}

/// The name of a duels division with its level in roman numerals; `-` when
/// there is none.
pub open spec fn division_text(name: Seq<char>, level: u32) -> Seq<char> {
    if name == "None"@ || level == 0 {
        "-"@
    } else if level == 1 {
        name
    } else {
        name + " "@ + roman_from(level as nat, 0)
    }
}

/// The name of a duels division with its level.
pub fn format_division_name(name: &str, level: u32) -> (r: String)
    ensures
        r@ == division_text(name@, level),
{
    if str_eq(name, "None") || level == 0 {
        let v = chars_of("-");
        string_of(&v)
    } else if level == 1 {
        let v = chars_of(name);
        string_of(&v)
    } else {
        let mut v = chars_of(name);
        push_str(&mut v, " ");
        let r = roman(level);
        push_str(&mut v, r.as_str());
        string_of(&v)
    }
}

/// What a click on a cached card's menu does.
#[derive(Clone, Copy, Debug, PartialEq, Eq, Structural)]
pub enum CardSwitch {
    /// The card is gone or stale (a stale entry is evicted): ask to run the command again.
    Expired,
    /// Someone else clicked: show them the view privately, leaving the card as it is.
    Ephemeral,
    /// The card's owner clicked: switch the card to the view.
    Update,
}

/// Decides a click on a cached card's menu.
pub fn card_switch(cached: bool, elapsed_secs: u64, sender_id: u64, user_id: u64) -> (r: CardSwitch)
    ensures
        r == (if !cached || elapsed_secs > CACHE_TTL_SECS {
            CardSwitch::Expired
        } else if sender_id != user_id {
            CardSwitch::Ephemeral
        } else {
            CardSwitch::Update
        }),
{
    if !cached || elapsed_secs > CACHE_TTL_SECS {
        CardSwitch::Expired
    } else if sender_id != user_id {
        CardSwitch::Ephemeral
    } else {
        CardSwitch::Update
    }
}

/// Whether a cached card survives eviction.
pub fn card_is_fresh(elapsed_secs: u64) -> (r: bool)
    ensures
        r == (elapsed_secs <= CACHE_TTL_SECS),
{
    elapsed_secs <= CACHE_TTL_SECS
}

/// How many bookmarks fit in a session menu of at most 25 options after the
/// period and preset options, keeping one for "Create New Bookmark" when the
/// viewer owns the stats.
pub fn bookmark_slots(option_count: usize, is_owner: bool) -> (r: usize)
    requires
        option_count + (if is_owner { 1int } else { 0 }) <= 25,
    ensures
        r == 25 - option_count - (if is_owner { 1int } else { 0 }),
{
    25 - option_count - if is_owner { 1 } else { 0 }
}

/// Index of the first pair at or after `from` whose key is `key`.
pub open spec fn pair_index_from(pairs: Seq<(Seq<char>, Seq<char>)>, key: Seq<char>, from: int) -> Option<int>
    decreases pairs.len() - from,
{
    if from >= pairs.len() || from < 0 {
        None
    } else if pairs[from].0 == key {
        Some(from)
    } else {
        pair_index_from(pairs, key, from + 1)
    }
}

/// Key and label of each pair of strings.
pub open spec fn pair_views(v: Seq<(String, String)>) -> Seq<(Seq<char>, Seq<char>)> {
    Seq::new(v.len(), |i: int| (v[i].0@, v[i].1@))
}

/// The position of the first pair whose key is `key`.
pub fn find_pair(pairs: &Vec<(String, String)>, key: &str) -> (r: Option<usize>)
    ensures
        match r {
            Some(i) => pair_index_from(pair_views(pairs@), key@, 0) == Some(i as int) && i < pairs@.len(),
            None => pair_index_from(pair_views(pairs@), key@, 0) is None,
        },
{
    let mut i: usize = 0;
    while i < pairs.len()
        invariant
            i <= pairs.len(),
            pair_index_from(pair_views(pairs@), key@, 0) == pair_index_from(pair_views(pairs@), key@, i as int),
        decreases pairs.len() - i,
    {
        if str_eq(pairs[i].0.as_str(), key) {
            return Some(i);
        }
        i = i + 1;
    }
    None
}

/// The placeholder of a session menu: the label of the current period, the
/// name of a fixed window, the label of the current automatic preset, or the
/// view's display name.
pub open spec fn placeholder_text(current: Seq<char>, periods: Seq<(Seq<char>, Seq<char>)>, presets: Seq<(Seq<char>, Seq<char>)>) -> Seq<char> {
    match pair_index_from(periods, current, 0) {
        Some(i) => periods[i].1,
        None => if current == "past_24h"@ {
            "Past 24 Hours"@
        } else if current == "past_7d"@ {
            "Past 7 Days"@
        } else if current == "past_30d"@ {
            "Past 30 Days"@
        } else if has_prefix(current, "preset:"@) && pair_index_from(presets, current.skip(7), 0).is_some() {
            presets[pair_index_from(presets, current.skip(7), 0).unwrap()].1
        } else if has_prefix(current, "marker:"@) {
            current.skip(7)
        } else {
            current
        },
    }
}

/// The placeholder of a session menu, given the (key, label) of each period
/// and of each automatic preset.
pub fn session_placeholder(current: &str, periods: &Vec<(String, String)>, presets: &Vec<(String, String)>) -> (r: String)
    ensures
        r@ == placeholder_text(current@, pair_views(periods@), pair_views(presets@)),
{
    match find_pair(periods, current) {
        Some(i) => {
            let v = chars_of(periods[i].1.as_str());
            assert(pair_views(periods@)[i as int] == (periods@[i as int].0@, periods@[i as int].1@));
            assert(v@ == pair_views(periods@)[i as int].1);
            assert(pair_index_from(pair_views(periods@), current@, 0) == Some(i as int));
            assert(placeholder_text(current@, pair_views(periods@), pair_views(presets@)) == pair_views(periods@)[i as int].1);
            return string_of(&v);
        },
        None => {},
    }
    let text = if str_eq(current, "past_24h") {
        "Past 24 Hours"
    } else if str_eq(current, "past_7d") {
        "Past 7 Days"
    } else if str_eq(current, "past_30d") {
        "Past 30 Days"
    } else {
        let v = chars_of(current);
        proof {
            reveal_strlit("preset:");
        }
        if starts_with(&v, "preset:") {
            let rest = string_of(&suffix_from(&v, 7));
            match find_pair(presets, rest.as_str()) {
                Some(i) => {
                    let l = chars_of(presets[i].1.as_str());
                    assert(pair_views(presets@)[i as int] == (presets@[i as int].0@, presets@[i as int].1@));
                    assert(rest@ == current@.skip(7));
                    return string_of(&l);
                },
                None => {},
            }
        }
        return view_display_name(current);
    };
    let v = chars_of(text);
    string_of(&v)
}

} // verus!
