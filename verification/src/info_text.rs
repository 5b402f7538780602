//! The info panel: which page a button opens, which period the tagger
//! board shows, how long a built page is reused, the leaderboard text, and
//! the text of the database statistics.

use vstd::prelude::*;
use crate::minecraft::{format_number, group_thousands};
use crate::text::{after_prefix, chars_of, str_eq, strip_prefix_chars, decimal, decimal_chars, signed_decimal, i64_decimal_chars, join, join_strings,
    push_str, push_chars, string_of};

verus! {

/// A page of the info panel.
#[derive(Clone, Copy, Debug, PartialEq, Eq, Structural)]
pub enum InfoPage {
    Statistics,
    Leaderboards,
}

/// The page a navigation button opens: `info_page:leaderboards` opens the
/// leaderboards, any other id the statistics.
pub open spec fn info_page_spec(custom_id: Seq<char>) -> InfoPage {
    if after_prefix(custom_id, "info_page:"@) == Some("leaderboards"@) {
        InfoPage::Leaderboards
    } else {
        InfoPage::Statistics
    }
}

/// The page a navigation button opens.
pub fn info_page_of(custom_id: &str) -> (r: InfoPage)
    ensures
        r == info_page_spec(custom_id@),
{
    let v = chars_of(custom_id);
    match strip_prefix_chars(&v, "info_page:") {
        Some(rest) => {
            let rs = string_of(&rest);
            if str_eq(rs.as_str(), "leaderboards") { InfoPage::Leaderboards } else { InfoPage::Statistics }
        },
        None => InfoPage::Statistics,
    }
}

/// The period the tagger board covers.
#[derive(Clone, Copy, Debug, PartialEq, Eq, Structural)]
pub enum TaggerPeriod {
    AllTime,
    Monthly,
    Weekly,
}

/// The period a selection picks: `monthly`, `weekly`, else all time.
pub open spec fn tagger_period_spec(value: Option<Seq<char>>) -> TaggerPeriod {
    if value == Some("monthly"@) {
        TaggerPeriod::Monthly
    } else if value == Some("weekly"@) {
        TaggerPeriod::Weekly
    } else {
        TaggerPeriod::AllTime
    }
}

/// The period the first selected value picks.
pub fn tagger_period(value: Option<&str>) -> (r: TaggerPeriod)
    ensures
        r == tagger_period_spec(match value {
            Some(v) => Some(v@),
            None => None,
        }),
{
    match value {
        Some(v) => {
            if str_eq(v, "monthly") {
                TaggerPeriod::Monthly
            } else if str_eq(v, "weekly") {
                TaggerPeriod::Weekly
            } else {
                TaggerPeriod::AllTime
            }
        },
        None => TaggerPeriod::AllTime,
    }
}

/// How long a built page is shown again without rebuilding it, in milliseconds.
pub const INFO_CACHE_TTL_MS: u64 = 300_000;

/// Whether a page built at `built_at` is still reused at `now` (milliseconds
/// on a monotonic clock; an earlier reading counts as no time passed).
pub fn page_fresh(built_at: u64, now: u64) -> (r: bool)
    ensures
        r == ((if now >= built_at { now - built_at } else { 0 }) < INFO_CACHE_TTL_MS),
{
    let e = if now >= built_at { now - built_at } else { 0 };
    e < INFO_CACHE_TTL_MS
}

/// A signed count taken as unsigned, as `as u64` does: negatives wrap around.
pub open spec fn wrapped(n: i64) -> nat {
    if n >= 0 { n as nat } else { (n + 0x1_0000_0000_0000_0000) as nat }
}

fn wrap_count(n: i64) -> (r: u64)
    ensures
        r as nat == wrapped(n),
{
    if n >= 0 {
        n as u64
    } else {
        let m: u64 = (-(n + 1)) as u64;
        assert(m == -(n + 1));
        18446744073709551615u64 - m
    }
}

/// One line of the leaderboard: rank, count, mention and name.
pub open spec fn leader_line(rank: nat, id: int, count: i64, name: Seq<char>) -> Seq<char> {
    decimal(rank) + ". **"@ + group_thousands(decimal(wrapped(count))) + "** \u{2014} <@"@ + signed_decimal(id)
        + "> `"@ + name + "`"@
}

/// The leaderboard of `rows` (member id, count, name), ranked from one.
pub open spec fn leaderboard_spec(rows: Seq<(i64, i64, String)>) -> Seq<char> {
    if rows.len() == 0 {
        "-# No data yet"@
    } else {
        join(Seq::new(rows.len(), |i: int| leader_line((i + 1) as nat, rows[i].0 as int, rows[i].1, rows[i].2@)),
            "\n"@)
    }
}

fn leader_line_text(rank: u64, id: i64, count: i64, name: &str) -> (r: String)
    ensures
        r@ == leader_line(rank as nat, id as int, count, name@),
{
    let mut out: Vec<char> = Vec::new();
    let d = decimal_chars(rank);
    push_chars(&mut out, &d);
    push_str(&mut out, ". **");
    let c = format_number(wrap_count(count));
    push_str(&mut out, c.as_str());
    push_str(&mut out, "** \u{2014} <@");
    let idd = i64_decimal_chars(id);
    push_chars(&mut out, &idd);
    push_str(&mut out, "> `");
    push_str(&mut out, name);
    push_str(&mut out, "`");
    string_of(&out)
}

/// The leaderboard text: one ranked line per row (member id, count, name),
/// or a note that there is no data yet.
pub fn leaderboard_text(rows: &Vec<(i64, i64, String)>) -> (r: String)
    ensures
        r@ == leaderboard_spec(rows@),
{
    if rows.len() == 0 {
        let mut out: Vec<char> = Vec::new();
        push_str(&mut out, "-# No data yet");
        return string_of(&out);
    }
    let ghost want = Seq::new(rows@.len(), |i: int| leader_line((i + 1) as nat, rows@[i].0 as int, rows@[i].1, rows@[i].2@));
    let mut lines: Vec<String> = Vec::new();
    let mut i: usize = 0;
    while i < rows.len()
        invariant
            i <= rows.len(),
            want.len() == rows@.len(),
            want == Seq::new(rows@.len(), |i: int| leader_line((i + 1) as nat, rows@[i].0 as int, rows@[i].1, rows@[i].2@)),
            lines.deep_view() == want.take(i as int),
        decreases rows.len() - i,
    {
        let row = &rows[i];
        let l = leader_line_text((i + 1) as u64, row.0, row.1, row.2.as_str());
        let ghost before = lines.deep_view();
        lines.push(l);
        assert(lines.deep_view() =~= before.push(want[i as int]));
        assert(want.take(i + 1) =~= want.take(i as int).push(want[i as int]));
        i = i + 1;
    }
    assert(want.take(rows@.len() as int) =~= want);
    join_strings(&lines, "\n")
}


/// `s` with each underscore turned into a space.
pub open spec fn spaced(s: Seq<char>) -> Seq<char> {
    s.map_values(|c: char| if c == '_' { ' ' } else { c })
}

/// A count as the statistics show it: wrapped like a cast to unsigned, and
/// grouped in thousands.
pub open spec fn count_text(n: i64) -> Seq<char> {
    group_thousands(decimal(wrapped(n)))
}

fn count_string(n: i64) -> (r: String)
    ensures
        r@ == count_text(n),
{
    format_number(wrap_count(n))
}

/// One line of the tag breakdown: the tag's emote, its count, and its type
/// with spaces for underscores.
pub open spec fn breakdown_line(emote: Seq<char>, count: i64, tag_type: Seq<char>) -> Seq<char> {
    emote + " **"@ + count_text(count) + "** "@ + spaced(tag_type)
}

/// The tag breakdown: one line per (tag type, count, emote), or a note that
/// there are no tags yet.
pub open spec fn breakdown_spec(rows: Seq<(String, i64, String)>) -> Seq<char> {
    if rows.len() == 0 {
        "No tags yet"@
    } else {
        join(Seq::new(rows.len(), |i: int| breakdown_line(rows[i].2@, rows[i].1, rows[i].0@)), "\n"@)
    }
}

/// The three blocks of the database statistics: members, blacklist (with
/// its tag breakdown) and cache.
pub open spec fn database_stats_spec(
    members: i64,
    requests: i64,
    players: i64,
    tags: i64,
    breakdown: Seq<(String, i64, String)>,
    snapshots: i64,
    watched: i64,
) -> (Seq<char>, Seq<char>, Seq<char>) {
    (
        "### Members\n**"@ + count_text(members) + "** registered \u{b7} **"@ + count_text(requests)
            + "** lifetime requests"@,
        "### Blacklist\n**"@ + count_text(players) + "** players \u{b7} **"@ + count_text(tags)
            + "** active tags\n"@ + breakdown_spec(breakdown),
        "### Cache\n**"@ + count_text(snapshots) + "** snapshots \u{b7} **"@ + count_text(watched)
            + "** players \u{74}racked"@,
    )
}

fn spaced_text(s: &str) -> (r: Vec<char>)
    ensures
        r@ == spaced(s@),
{
    let v = chars_of(s);
    let mut out: Vec<char> = Vec::new();
    let mut i: usize = 0;
    while i < v.len()
        invariant
            i <= v.len(),
            v@ == s@,
            out@ == spaced(s@).take(i as int),
        decreases v.len() - i,
    {
        let c = v[i];
        out.push(if c == '_' { ' ' } else { c });
        assert(spaced(s@).take(i + 1) =~= spaced(s@).take(i as int).push(spaced(s@)[i as int]));
        i = i + 1;
    }
    assert(spaced(s@).take(v.len() as int) =~= spaced(s@));
    out
}

fn breakdown_text(rows: &Vec<(String, i64, String)>) -> (r: String)
    ensures
        r@ == breakdown_spec(rows@),
{
    if rows.len() == 0 {
        let mut out: Vec<char> = Vec::new();
        push_str(&mut out, "No tags yet");
        return string_of(&out);
    }
    let ghost want = Seq::new(rows@.len(), |i: int| breakdown_line(rows@[i].2@, rows@[i].1, rows@[i].0@));
    let mut lines: Vec<String> = Vec::new();
    let mut i: usize = 0;
    while i < rows.len()
        invariant
            i <= rows.len(),
            want == Seq::new(rows@.len(), |i: int| breakdown_line(rows@[i].2@, rows@[i].1, rows@[i].0@)),
            lines.deep_view() == want.take(i as int),
        decreases rows.len() - i,
    {
        let row = &rows[i];
        let mut out: Vec<char> = Vec::new();
        push_str(&mut out, row.2.as_str());
        push_str(&mut out, " **");
        let c = count_string(row.1);
        push_str(&mut out, c.as_str());
        push_str(&mut out, "** ");
        let sp = spaced_text(row.0.as_str());
        push_chars(&mut out, &sp);
        let ghost before = lines.deep_view();
        lines.push(string_of(&out));
        assert(lines.deep_view() =~= before.push(want[i as int]));
        assert(want.take(i + 1) =~= want.take(i as int).push(want[i as int]));
        i = i + 1;
    }
    assert(want.take(rows@.len() as int) =~= want);
    join_strings(&lines, "\n")
}

fn pair_block(head: &str, a: i64, mid: &str, b: i64, tail: &str) -> (r: Vec<char>)
    ensures
        r@ == head@ + count_text(a) + mid@ + count_text(b) + tail@,
{
    let mut out: Vec<char> = Vec::new();
    push_str(&mut out, head);
    let x = count_string(a);
    push_str(&mut out, x.as_str());
    push_str(&mut out, mid);
    let y = count_string(b);
    push_str(&mut out, y.as_str());
    push_str(&mut out, tail);
    out
}

/// The blocks of the database statistics; `breakdown` lists each tag type
/// with its count and emote.
pub fn database_stats(
    members: i64,
    requests: i64,
    players: i64,
    tags: i64,
    breakdown: &Vec<(String, i64, String)>,
    snapshots: i64,
    watched: i64,
) -> (r: (String, String, String))
    ensures
        (r.0@, r.1@, r.2@) == database_stats_spec(members, requests, players, tags, breakdown@, snapshots, watched),
{
    let m = pair_block("### Members\n**", members, "** registered \u{b7} **", requests, "** lifetime requests");
    let mut bl = pair_block("### Blacklist\n**", players, "** players \u{b7} **", tags, "** active tags\n");
    let bd = breakdown_text(breakdown);
    push_str(&mut bl, bd.as_str());
    let c = pair_block("### Cache\n**", snapshots, "** snapshots \u{b7} **", watched, "** players \u{74}racked");
    (string_of(&m), string_of(&bl), string_of(&c))
}

} // verus!
