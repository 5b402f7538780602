//! The options of a session stats menu: one per period (and its fixed
//! window), one per automatic preset, the member's bookmarks as far as
//! they fit, and an entry to create a bookmark for the owner.

use vstd::prelude::*;
use crate::stats_text::{pair_index_from, pair_views, find_pair, duration_text, format_duration, escaped_name, sanitize};
use crate::text::{chars_of, string_of, str_eq, push_str, push_chars};

verus! {

/// The most options a select menu holds.
pub const MAX_MENU_OPTIONS: usize = 25;

/// A period of the menu: its key and label, how long ago it was reset, and
/// the key and label of its fixed window, where it has one.
pub struct PeriodEntry {
    pub key: String,
    pub label: String,
    pub elapsed_secs: i64,
    pub fixed: Option<(String, String)>,
}

/// An automatic preset: its key, its label, and its age.
pub struct PresetEntry {
    pub key: String,
    pub label: String,
    pub age_secs: i64,
}

/// A bookmark: its name and its age.
pub struct MarkerEntry {
    pub name: String,
    pub age_secs: i64,
}

/// One option of the menu.
pub struct MenuOption {
    pub label: String,
    pub value: String,
    pub default: bool,
    pub description: Option<String>,
}

/// An option as character sequences.
pub struct OptionText {
    pub label: Seq<char>,
    pub value: Seq<char>,
    pub default: bool,
    pub description: Option<Seq<char>>,
}

pub open spec fn option_text(o: MenuOption) -> OptionText {
    OptionText {
        label: o.label@,
        value: o.value@,
        default: o.default,
        description: match o.description {
            Some(d) => Some(d@),
            None => None,
        },
    }
}

pub open spec fn options_text(v: Seq<MenuOption>) -> Seq<OptionText> {
    Seq::new(v.len(), |i: int| option_text(v[i]))
}

/// The description stored for `key`, if any.
pub open spec fn described(descs: Seq<(Seq<char>, Seq<char>)>, key: Seq<char>) -> Option<Seq<char>> {
    match pair_index_from(descs, key, 0) {
        Some(i) => Some(descs[i].1),
        None => None,
    }
}

/// The description of a period: the stored one, or "No Data".
pub open spec fn period_description(descs: Seq<(Seq<char>, Seq<char>)>, key: Seq<char>) -> Seq<char> {
    match described(descs, key) {
        Some(d) => d,
        None => "No Data"@,
    }
}

/// The options of one period: the period, then its fixed window.
pub open spec fn period_options(
    key: Seq<char>,
    label: Seq<char>,
    elapsed: int,
    fixed: Option<(Seq<char>, Seq<char>)>,
    cache_key: Seq<char>,
    current: Seq<char>,
    descs: Seq<(Seq<char>, Seq<char>)>,
) -> Seq<OptionText> {
    let main = OptionText {
        label: label + " ("@ + duration_text(elapsed) + ")"@,
        value: key + ":"@ + cache_key,
        default: current == key,
        description: Some(period_description(descs, key)),
    };
    match fixed {
        Some((fk, fl)) => seq![main, OptionText {
            label: fl,
            value: fk + ":"@ + cache_key,
            default: current == fk,
            description: Some(period_description(descs, fk)),
        }],
        None => seq![main],
    }
}

pub open spec fn fixed_view(f: Option<(String, String)>) -> Option<(Seq<char>, Seq<char>)> {
    match f {
        Some((k, l)) => Some((k@, l@)),
        None => None,
    }
}

/// The options of all periods, in order.
pub open spec fn all_period_options(
    ps: Seq<PeriodEntry>,
    cache_key: Seq<char>,
    current: Seq<char>,
    descs: Seq<(Seq<char>, Seq<char>)>,
) -> Seq<OptionText>
    decreases ps.len(),
{
    if ps.len() == 0 {
        Seq::empty()
    } else {
        let p = ps.last();
        all_period_options(ps.drop_last(), cache_key, current, descs)
            + period_options(p.key@, p.label@, p.elapsed_secs as int, fixed_view(p.fixed), cache_key, current, descs)
    }
}

/// The option of an automatic preset.
pub open spec fn preset_option(
    p: PresetEntry,
    cache_key: Seq<char>,
    current: Seq<char>,
    descs: Seq<(Seq<char>, Seq<char>)>,
) -> OptionText {
    OptionText {
        label: p.label@ + " ("@ + duration_text(p.age_secs as int) + ")"@,
        value: "preset:"@ + cache_key + ":"@ + p.key@,
        default: current == "preset:"@ + p.key@,
        description: described(descs, "preset:"@ + p.key@),
    }
}

/// The option of a bookmark.
pub open spec fn marker_option(
    m: MarkerEntry,
    cache_key: Seq<char>,
    current: Seq<char>,
    descs: Seq<(Seq<char>, Seq<char>)>,
) -> OptionText {
    OptionText {
        label: "\""@ + escaped_name(m.name@) + "\" ("@ + duration_text(m.age_secs as int) + ")"@,
        value: "marker:"@ + cache_key + ":"@ + m.name@,
        default: current == "marker:"@ + m.name@,
        description: described(descs, "marker:"@ + m.name@),
    }
}

/// The option that creates a bookmark.
pub open spec fn create_option(cache_key: Seq<char>) -> OptionText {
    OptionText {
        label: "Create New Bookmark"@,
        value: "create:"@ + cache_key,
        default: false,
        description: Some("Bookmark your current stats"@),
    }
}

/// The options before the bookmarks: periods, then automatic presets.
pub open spec fn fixed_part(
    periods: Seq<PeriodEntry>,
    presets: Seq<PresetEntry>,
    cache_key: Seq<char>,
    current: Seq<char>,
    descs: Seq<(Seq<char>, Seq<char>)>,
) -> Seq<OptionText> {
    all_period_options(periods, cache_key, current, descs)
        + Seq::new(presets.len(), |i: int| preset_option(presets[i], cache_key, current, descs))
}

/// The whole menu: the periods and presets, as many bookmarks as fit in
/// the 25 options (one kept for the create entry where the viewer owns the
/// stats), and the create entry.
pub open spec fn menu_options(
    periods: Seq<PeriodEntry>,
    presets: Seq<PresetEntry>,
    markers: Seq<MarkerEntry>,
    cache_key: Seq<char>,
    current: Seq<char>,
    descs: Seq<(Seq<char>, Seq<char>)>,
    is_owner: bool,
) -> Seq<OptionText> {
    let base = fixed_part(periods, presets, cache_key, current, descs);
    let slots = 25 - base.len() - (if is_owner { 1int } else { 0 });
    let shown = if markers.len() < slots { markers.len() as int } else { slots };
    base + Seq::new(shown as nat, |i: int| marker_option(markers[i], cache_key, current, descs))
        + (if is_owner { seq![create_option(cache_key)] } else { Seq::empty() })
}

/// The number of options a period gives.
pub open spec fn period_count(ps: Seq<PeriodEntry>) -> nat
    decreases ps.len(),
{
    if ps.len() == 0 {
        0
    } else {
        period_count(ps.drop_last()) + (if ps.last().fixed is Some { 2nat } else { 1nat })
    }
}

proof fn lemma_period_count(
    ps: Seq<PeriodEntry>,
    cache_key: Seq<char>,
    current: Seq<char>,
    descs: Seq<(Seq<char>, Seq<char>)>,
)
    ensures
        all_period_options(ps, cache_key, current, descs).len() == period_count(ps),
    decreases ps.len(),
{
    if ps.len() > 0 {
        lemma_period_count(ps.drop_last(), cache_key, current, descs);
    }
}

fn cat2(a: &str, b: &str) -> (r: String)
    ensures
        r@ == a@ + b@,
{
    let mut out: Vec<char> = Vec::new();
    push_str(&mut out, a);
    push_str(&mut out, b);
    string_of(&out)
}

fn cat3(a: &str, b: &str, c: &str) -> (r: String)
    ensures
        r@ == a@ + b@ + c@,
{
    let mut out: Vec<char> = Vec::new();
    push_str(&mut out, a);
    push_str(&mut out, b);
    push_str(&mut out, c);
    string_of(&out)
}

fn cat4(a: &str, b: &str, c: &str, d: &str) -> (r: String)
    ensures
        r@ == a@ + b@ + c@ + d@,
{
    let mut out: Vec<char> = Vec::new();
    push_str(&mut out, a);
    push_str(&mut out, b);
    push_str(&mut out, c);
    push_str(&mut out, d);
    string_of(&out)
}

fn cat5(a: &str, b: &str, c: &str, d: &str, e: &str) -> (r: String)
    ensures
        r@ == a@ + b@ + c@ + d@ + e@,
{
    let mut out: Vec<char> = Vec::new();
    push_str(&mut out, a);
    push_str(&mut out, b);
    push_str(&mut out, c);
    push_str(&mut out, d);
    push_str(&mut out, e);
    string_of(&out)
}

fn describe(descs: &Vec<(String, String)>, key: &str) -> (r: Option<String>)
    ensures
        match r {
            Some(d) => described(pair_views(descs@), key@) == Some(d@),
            None => described(pair_views(descs@), key@) is None,
        },
{
    match find_pair(descs, key) {
        Some(i) => {
            assert(pair_views(descs@)[i as int] == (descs@[i as int].0@, descs@[i as int].1@));
            Some(descs[i].1.clone())
        },
        None => None,
    }
}

fn describe_period(descs: &Vec<(String, String)>, key: &str) -> (r: String)
    ensures
        r@ == period_description(pair_views(descs@), key@),
{
    match describe(descs, key) {
        Some(d) => d,
        None => {
            let v = chars_of("No Data");
            string_of(&v)
        },
    }
}

/// The options of a session menu.
#[verifier::rlimit(80)]
#[verifier::spinoff_prover]
pub fn session_options(
    cache_key: &str,
    current: &str,
    descriptions: &Vec<(String, String)>,
    periods: &Vec<PeriodEntry>,
    presets: &Vec<PresetEntry>,
    markers: &Vec<MarkerEntry>,
    is_owner: bool,
) -> (r: Vec<MenuOption>)
    requires
        period_count(periods@) + presets@.len() + (if is_owner { 1int } else { 0 }) <= 25,
    ensures
        options_text(r@) == menu_options(
            periods@,
            presets@,
            markers@,
            cache_key@,
            current@,
            pair_views(descriptions@),
            is_owner,
        ),
{
    let ghost descs = pair_views(descriptions@);
    let mut out: Vec<MenuOption> = Vec::new();
    let mut i: usize = 0;
    proof {
        lemma_period_count(periods@, cache_key@, current@, descs);
    }
    while i < periods.len()
        invariant
            i <= periods.len(),
            descs == pair_views(descriptions@),
            options_text(out@) == all_period_options(periods@.take(i as int), cache_key@, current@, descs),
            period_count(periods@.take(i as int)) <= period_count(periods@),
            period_count(periods@) <= 25,
            out@.len() == period_count(periods@.take(i as int)),
        decreases periods.len() - i,
    {
        let p = &periods[i];
        let ghost before = options_text(out@);
        proof {
            assert(periods@.take(i + 1).drop_last() == periods@.take(i as int));
            assert(periods@.take(i + 1).last() == periods@[i as int]);
            lemma_period_count(periods@.take(i + 1), cache_key@, current@, descs);
            lemma_count_prefix(periods@, i as int + 1);
        }
        let dur = format_duration(p.elapsed_secs);
        let label = cat4(p.label.as_str(), " (", dur.as_str(), ")");
        let value = cat3(p.key.as_str(), ":", cache_key);
        let desc = describe_period(descriptions, p.key.as_str());
        out.push(MenuOption { label, value, default: str_eq(current, p.key.as_str()), description: Some(desc) });
        match &p.fixed {
            Some((fk, fl)) => {
                let fvalue = cat3(fk.as_str(), ":", cache_key);
                let fdesc = describe_period(descriptions, fk.as_str());
                out.push(MenuOption {
                    label: fl.clone(),
                    value: fvalue,
                    default: str_eq(current, fk.as_str()),
                    description: Some(fdesc),
                });
            },
            None => {},
        }
        proof {
            assert(options_text(out@) =~= before + period_options(
                p.key@, p.label@, p.elapsed_secs as int, fixed_view(p.fixed), cache_key@, current@, descs));
        }
        i = i + 1;
    }
    assert(periods@.take(periods.len() as int) == periods@);
    let ghost periods_part = options_text(out@);
    let mut k: usize = 0;
    while k < presets.len()
        invariant
            k <= presets.len(),
            descs == pair_views(descriptions@),
            periods_part == all_period_options(periods@, cache_key@, current@, descs),
            options_text(out@) == periods_part + Seq::new(k as nat, |j: int| preset_option(presets@[j], cache_key@, current@, descs)),
            out@.len() == period_count(periods@) + k,
            period_count(periods@) + presets@.len() + (if is_owner { 1int } else { 0 }) <= 25,
        decreases presets.len() - k,
    {
        let p = &presets[k];
        let ghost before = options_text(out@);
        let dur = format_duration(p.age_secs);
        let label = cat4(p.label.as_str(), " (", dur.as_str(), ")");
        let value = cat4("preset:", cache_key, ":", p.key.as_str());
        let full = cat2("preset:", p.key.as_str());
        let desc = describe(descriptions, full.as_str());
        out.push(MenuOption { label, value, default: str_eq(current, full.as_str()), description: desc });
        proof {
            assert(options_text(out@) =~= before.push(preset_option(presets@[k as int], cache_key@, current@, descs)));
            assert(Seq::new((k + 1) as nat, |j: int| preset_option(presets@[j], cache_key@, current@, descs))
                =~= Seq::new(k as nat, |j: int| preset_option(presets@[j], cache_key@, current@, descs))
                    .push(preset_option(presets@[k as int], cache_key@, current@, descs)));
        }
        k = k + 1;
    }
    let ghost base = options_text(out@);
    assert(base == fixed_part(periods@, presets@, cache_key@, current@, descs)) by {
        assert(Seq::new(presets@.len(), |j: int| preset_option(presets@[j], cache_key@, current@, descs))
            =~= Seq::new(k as nat, |j: int| preset_option(presets@[j], cache_key@, current@, descs)));
    }
    let owner_slot: usize = if is_owner { 1 } else { 0 };
    let slots = MAX_MENU_OPTIONS - out.len() - owner_slot;
    let shown = if markers.len() < slots { markers.len() } else { slots };
    let mut m: usize = 0;
    while m < shown
        invariant
            m <= shown,
            shown <= markers.len(),
            descs == pair_views(descriptions@),
            options_text(out@) == base + Seq::new(m as nat, |j: int| marker_option(markers@[j], cache_key@, current@, descs)),
        decreases shown - m,
    {
        let mk = &markers[m];
        let ghost before = options_text(out@);
        let dur = format_duration(mk.age_secs);
        let name = sanitize(mk.name.as_str());
        let label = cat5("\"", name.as_str(), "\" (", dur.as_str(), ")");
        let value = cat4("marker:", cache_key, ":", mk.name.as_str());
        let full = cat2("marker:", mk.name.as_str());
        let desc = describe(descriptions, full.as_str());
        out.push(MenuOption { label, value, default: str_eq(current, full.as_str()), description: desc });
        proof {
            assert(options_text(out@) =~= before.push(marker_option(markers@[m as int], cache_key@, current@, descs)));
            assert(Seq::new((m + 1) as nat, |j: int| marker_option(markers@[j], cache_key@, current@, descs))
                =~= Seq::new(m as nat, |j: int| marker_option(markers@[j], cache_key@, current@, descs))
                    .push(marker_option(markers@[m as int], cache_key@, current@, descs)));
        }
        m = m + 1;
    }
    if is_owner {
        let ghost before = options_text(out@);
        let value = cat2("create:", cache_key);
        let label = string_of(&chars_of("Create New Bookmark"));
        let desc = string_of(&chars_of("Bookmark your current stats"));
        out.push(MenuOption { label, value, default: false, description: Some(desc) });
        assert(options_text(out@) =~= before.push(create_option(cache_key@)));
    }
    out
}

proof fn lemma_count_prefix(ps: Seq<PeriodEntry>, i: int)
    requires
        0 <= i <= ps.len(),
    ensures
        period_count(ps.take(i)) <= period_count(ps),
    decreases ps.len() - i,
{
    if i < ps.len() {
        lemma_count_prefix(ps, i + 1);
        assert(ps.take(i + 1).drop_last() == ps.take(i));
    } else {
        assert(ps.take(i) == ps);
    }
}

} // verus!
