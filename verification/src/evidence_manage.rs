//! The text of an evidence post and of its media manager: headers, footer,
//! the ids of the manager's controls read back, and the post once a file
//! is removed.

use vstd::prelude::*;
use crate::evidence_state::EvidenceItem;
use crate::evidence_text::{evidence_label, evidence_label_code, media_label, media_label_code};
use crate::minecraft::{dashed_uuid, format_uuid_dashed, uuid_cuts_ok};
use crate::review_text::{EMOTE_EVIDENCE, EMOTE_NO_EVIDENCE};
use crate::text::{
    chars_of, string_of, after_prefix, strip_prefix_chars, first_index, last_index, find_char, rfind_char,
    slice_chars, suffix_from, parse_u64, u64_or_zero, str_eq, decimal, decimal_chars, push_str, push_chars,
    lemma_decimal_reads_back, lemma_decimal_has_no, parsed_int, lemma_first_index_after, lemma_last_index_before,
    has_prefix, has_suffix, split_str, trim_end_all, lemma_split_str_concat, lemma_split_str_none,
    lemma_trimmed_unchanged, split_on, remove_char, not_char, is_ascii_hex, is_ws, trimmed, trim_start, trim_end,
    utf8_width, utf8_len, lemma_cut_is,
};
use crate::evidence_state::{EvidenceText, ingest_line};
use crate::evidence_text::{evidence_header_name, url_ext, url_extension, title_uuid, is_uuid_hex};
use crate::evidence_state::{upload_name, evidence_filename};

verus! {

/// The text after the last `:` of `s` (all of `s` where it has none), as
/// `rsplit(':').next()` gives it.
pub open spec fn last_segment(s: Seq<char>) -> Seq<char> {
    match last_index(s, ':') {
        Some(i) => s.skip(i + 1),
        None => s,
    }
}

fn last_segment_of(s: &Vec<char>) -> (r: Vec<char>)
    ensures
        r@ == last_segment(s@),
{
    match rfind_char(s, ':') {
        Some(i) => {
            assert(s@.len() == s.len());
            suffix_from(s, i + 1)
        },
        None => slice_chars(s, 0, s.len()),
    }
}

/// The member a manager's select menu belongs to: the last part of its id
/// after `evidence_msel:`, read as a number (0 where it is none).
pub open spec fn select_opener_spec(custom_id: Seq<char>) -> u64 {
    u64_or_zero(last_segment(match after_prefix(custom_id, "evidence_msel:"@) {
        Some(r) => r,
        None => Seq::empty(),
    }))
}

pub fn select_opener(custom_id: &str) -> (r: u64)
    ensures
        r == select_opener_spec(custom_id@),
{
    let v = chars_of(custom_id);
    let rest = match strip_prefix_chars(&v, "evidence_msel:") {
        Some(r) => r,
        None => Vec::new(),
    };
    let last = last_segment_of(&rest);
    match parse_u64(&last) {
        Some(n) => n,
        None => 0,
    }
}

/// The member a manager's close button belongs to: the last part of its id,
/// read as a number (0 where it is none).
pub fn close_opener(custom_id: &str) -> (r: u64)
    ensures
        r == u64_or_zero(last_segment(custom_id@)),
{
    let v = chars_of(custom_id);
    let last = last_segment_of(&v);
    match parse_u64(&last) {
        Some(n) => n,
        None => 0,
    }
}

/// The first three `:`-separated parts of `s` (`splitn(3, ':')`), missing
/// parts empty; the third keeps any further `:`.
pub open spec fn three_parts(s: Seq<char>) -> (Seq<char>, Seq<char>, Seq<char>) {
    match first_index(s, ':') {
        None => (s, Seq::empty(), Seq::empty()),
        Some(i) => {
            let tail = s.skip(i + 1);
            match first_index(tail, ':') {
                None => (s.take(i), tail, Seq::empty()),
                Some(j) => (s.take(i), tail.take(j), tail.skip(j + 1)),
            }
        },
    }
}

/// What a remove button names: the player's uuid, the member the manager
/// belongs to (0 where it reads as none), and the file to remove.
pub open spec fn remove_target_spec(custom_id: Seq<char>) -> (Seq<char>, u64, Seq<char>) {
    let p = three_parts(match after_prefix(custom_id, "evidence_mrem:"@) {
        Some(r) => r,
        None => Seq::empty(),
    });
    (p.0, u64_or_zero(p.1), p.2)
}

#[verifier::spinoff_prover]
pub fn remove_target(custom_id: &str) -> (r: (String, u64, String))
    ensures
        (r.0@, r.1, r.2@) == remove_target_spec(custom_id@),
{
    let v = chars_of(custom_id);
    let rest = match strip_prefix_chars(&v, "evidence_mrem:") {
        Some(r) => r,
        None => Vec::new(),
    };
    let (a, b, c) = match find_char(&rest, ':') {
        None => (slice_chars(&rest, 0, rest.len()), Vec::new(), Vec::new()),
        Some(i) => {
            let tail = suffix_from(&rest, i + 1);
            let head = slice_chars(&rest, 0, i);
            match find_char(&tail, ':') {
                None => (head, slice_chars(&tail, 0, tail.len()), Vec::new()),
                Some(j) => (head, slice_chars(&tail, 0, j), suffix_from(&tail, j + 1)),
            }
        },
    };
    assert(rest@.subrange(0, rest@.len() as int) == rest@);
    let opener = match parse_u64(&b) {
        Some(n) => n,
        None => 0,
    };
    proof {
        let tail = rest@.skip(first_index(rest@, ':')->0 + 1);
        assert(tail.subrange(0, tail.len() as int) == tail);
    }
    (string_of(&a), opener, string_of(&c))
}

/// The files of a post without `filename`.
pub open spec fn without_file(files: Seq<Seq<char>>, filename: Seq<char>) -> Seq<Seq<char>> {
    files.filter(|f: Seq<char>| f != filename)
}

pub open spec fn item_names(items: Seq<EvidenceItem>) -> Seq<Seq<char>> {
    Seq::new(items.len(), |i: int| items[i].filename@)
}

/// The evidence of a post once the manager removes `filename`: every other
/// file, in order.
pub fn remove_file(items: Vec<EvidenceItem>, filename: &str) -> (r: Vec<EvidenceItem>)
    ensures
        item_names(r@) == without_file(item_names(items@), filename@),
{
    let ghost names = item_names(items@);
    let ghost keep = |f: Seq<char>| f != filename@;
    let mut out: Vec<EvidenceItem> = Vec::new();
    let mut rest = items;
    let ghost n = rest@.len();
    assert(names.take(0).filter(keep) =~= Seq::<Seq<char>>::empty());
    while rest.len() > 0
        invariant
            rest@.len() <= n,
            names.len() == n,
            item_names(rest@) == names.skip(n - rest@.len()),
            item_names(out@) == names.take(n - rest@.len()).filter(keep),
            keep == (|f: Seq<char>| f != filename@),
        decreases rest@.len(),
    {
        let ghost before = rest@;
        let ghost k = n - before.len();
        let item = rest.remove(0);
        assert(names[k] == item.filename@) by {
            assert(item_names(before)[0] == names.skip(k)[0]);
        }
        assert(item_names(rest@) =~= names.skip(k + 1)) by {
            assert(rest@ == before.drop_first());
            assert(item_names(rest@) =~= item_names(before).drop_first());
        }
        proof {
            assert(names.take(k + 1) == names.take(k).push(names[k]));
            names.take(k).lemma_filter_push(names[k], keep);
        }
        if !str_eq(item.filename.as_str(), filename) {
            let ghost old_out = item_names(out@);
            out.push(item);
            assert(item_names(out@) =~= old_out.push(names[k]));
        }
    }
    assert(names.take(n as int) =~= names);
    out
}


/// The emote of a post's header: evidence found, or none yet.
pub open spec fn header_emote(has_evidence: bool) -> Seq<char> {
    if has_evidence { EMOTE_EVIDENCE@ } else { EMOTE_NO_EVIDENCE@ }
}

/// The header of an evidence post.
pub open spec fn evidence_header_spec(username: Seq<char>, has_evidence: bool) -> Seq<char> {
    "## "@ + header_emote(has_evidence) + " Evidence \u{2014} `"@ + username + "`"@
}

pub fn evidence_header(username: &str, has_evidence: bool) -> (r: String)
    ensures
        r@ == evidence_header_spec(username@, has_evidence),
{
    let mut v: Vec<char> = Vec::new();
    push_str(&mut v, "## ");
    push_str(&mut v, if has_evidence { EMOTE_EVIDENCE } else { EMOTE_NO_EVIDENCE });
    push_str(&mut v, " Evidence \u{2014} `");
    push_str(&mut v, username);
    push_str(&mut v, "`");
    string_of(&v)
}

/// The footer of an evidence post: the player's uuid, dashed, and a link to
/// the review it came from, where there is one.
pub open spec fn evidence_footer_spec(uuid: Seq<char>, review_url: Option<Seq<char>>) -> Seq<char> {
    "-# UUID: "@ + dashed_uuid(uuid) + match review_url {
        Some(u) => " \u{b7} [Review]("@ + u + ")"@,
        None => Seq::empty(),
    }
}

pub fn evidence_footer(uuid: &str, review_url: Option<&str>) -> (r: String)
    requires
        uuid_cuts_ok(uuid@),
    ensures
        r@ == evidence_footer_spec(uuid@, match review_url {
            Some(u) => Some(u@),
            None => None,
        }),
{
    let mut v: Vec<char> = Vec::new();
    push_str(&mut v, "-# UUID: ");
    let d = format_uuid_dashed(uuid);
    push_str(&mut v, d.as_str());
    match review_url {
        Some(u) => {
            push_str(&mut v, " \u{b7} [Review](");
            push_str(&mut v, u);
            push_str(&mut v, ")");
        },
        None => {},
    }
    string_of(&v)
}

/// The header of an archived post, with its footer below it.
pub open spec fn archived_header_spec(username: Seq<char>, has_evidence: bool, footer: Seq<char>) -> Seq<char> {
    evidence_header_spec(username, has_evidence) + " (Archived)\n"@ + footer
}

pub fn archived_header(username: &str, has_evidence: bool, footer: &str) -> (r: String)
    ensures
        r@ == archived_header_spec(username@, has_evidence, footer@),
{
    let h = evidence_header(username, has_evidence);
    let mut v = chars_of(h.as_str());
    push_str(&mut v, " (Archived)\n");
    push_str(&mut v, footer);
    string_of(&v)
}

/// The URL a gallery shows for a file: the one it already has, else a
/// reference to the attachment.
pub fn media_url(filename: &str, known: Option<&str>) -> (r: String)
    ensures
        r@ == match known {
            Some(u) => u@,
            None => "attachment://"@ + filename@,
        },
{
    let mut v: Vec<char> = Vec::new();
    match known {
        Some(u) => {
            push_str(&mut v, u);
        },
        None => {
            push_str(&mut v, "attachment://");
            push_str(&mut v, filename);
        },
    }
    string_of(&v)
}

/// The heading of the manager, naming the file shown.
pub fn remove_media_heading(selected: &str) -> (r: String)
    ensures
        r@ == "## Remove Media\n"@ + media_label_code(selected@),
{
    let mut v: Vec<char> = Vec::new();
    push_str(&mut v, "## Remove Media\n");
    let l = evidence_label_code(selected);
    push_str(&mut v, l.as_str());
    string_of(&v)
}

/// The ids of the manager's select menu, remove button and done button.
pub open spec fn select_id(uuid: Seq<char>, opener: u64) -> Seq<char> {
    "evidence_msel:"@ + uuid + ":"@ + decimal(opener as nat)
}

pub open spec fn remove_id(uuid: Seq<char>, opener: u64, selected: Seq<char>) -> Seq<char> {
    "evidence_mrem:"@ + uuid + ":"@ + decimal(opener as nat) + ":"@ + selected
}

pub open spec fn close_id(uuid: Seq<char>, opener: u64) -> Seq<char> {
    "evidence_mclose:"@ + uuid + ":"@ + decimal(opener as nat)
}

/// The ids of the manager's controls for the member `opener`, showing `selected`.
pub fn manager_ids(uuid: &str, opener: u64, selected: &str) -> (r: (String, String, String))
    ensures
        r.0@ == select_id(uuid@, opener),
        r.1@ == remove_id(uuid@, opener, selected@),
        r.2@ == close_id(uuid@, opener),
{
    let d = decimal_chars(opener);
    let mut a: Vec<char> = Vec::new();
    push_str(&mut a, "evidence_msel:");
    push_str(&mut a, uuid);
    push_str(&mut a, ":");
    push_chars(&mut a, &d);
    let mut b: Vec<char> = Vec::new();
    push_str(&mut b, "evidence_mrem:");
    push_str(&mut b, uuid);
    push_str(&mut b, ":");
    push_chars(&mut b, &d);
    push_str(&mut b, ":");
    push_str(&mut b, selected);
    let mut c: Vec<char> = Vec::new();
    push_str(&mut c, "evidence_mclose:");
    push_str(&mut c, uuid);
    push_str(&mut c, ":");
    push_chars(&mut c, &d);
    (string_of(&a), string_of(&b), string_of(&c))
}

/// The other files a manager offers to show: every file but the one shown,
/// as (label, file name), where the post has more than one file.
pub fn other_files(items: &Vec<EvidenceItem>, selected: &str) -> (r: Option<Vec<(String, String)>>)
    ensures
        items@.len() <= 1 <==> r is None,
        r is Some ==> {
            let want = without_file(item_names(items@), selected@);
            &&& r->0@.len() == want.len()
            &&& forall|i: int| 0 <= i < want.len() ==> (#[trigger] r->0@[i]).1@ == want[i]
                && r->0@[i].0@ == media_label(want[i])
        },
{
    if items.len() <= 1 {
        return None;
    }
    let ghost names = item_names(items@);
    let ghost keep = |f: Seq<char>| f != selected@;
    let mut out: Vec<(String, String)> = Vec::new();
    let mut i: usize = 0;
    while i < items.len()
        invariant
            i <= items.len(),
            names == item_names(items@),
            keep == (|f: Seq<char>| f != selected@),
            out@.len() == names.take(i as int).filter(keep).len(),
            forall|j: int| 0 <= j < out@.len() ==> (#[trigger] out@[j]).1@ == names.take(i as int).filter(keep)[j]
                && out@[j].0@ == media_label(names.take(i as int).filter(keep)[j]),
        decreases items.len() - i,
    {
        proof {
            assert(names.take(i + 1) == names.take(i as int).push(names[i as int]));
            names.take(i as int).lemma_filter_push(names[i as int], keep);
        }
        let f = items[i].filename.as_str();
        if !str_eq(f, selected) {
            let label = evidence_label(f);
            let mut n: Vec<char> = Vec::new();
            push_str(&mut n, f);
            out.push((label, string_of(&n)));
        }
        i = i + 1;
    }
    assert(names.take(items@.len() as int) == names);
    Some(out)
}

/// The member a select menu's id was made for is read back from it.
pub proof fn select_id_reads_back(uuid: Seq<char>, opener: u64)
    ensures
        select_opener_spec(select_id(uuid, opener)) == opener,
{
    let d = decimal(opener as nat);
    lemma_decimal_reads_back(opener as nat);
    lemma_decimal_has_no(opener as nat, ':');
    let p = "evidence_msel:"@;
    let rest = uuid + seq![':'] + d;
    let id = select_id(uuid, opener);
    assert(id =~= p + rest) by {
        reveal_strlit(":");
    }
    assert(id.take(p.len() as int) =~= p);
    assert(id.skip(p.len() as int) =~= rest);
    lemma_last_index_before(uuid, ':', d);
    assert(rest.skip(uuid.len() as int + 1) =~= d);
}

/// The member a done button's id was made for is read back from it.
pub proof fn close_id_reads_back(uuid: Seq<char>, opener: u64)
    ensures
        u64_or_zero(last_segment(close_id(uuid, opener))) == opener,
{
    let d = decimal(opener as nat);
    lemma_decimal_reads_back(opener as nat);
    lemma_decimal_has_no(opener as nat, ':');
    let head = "evidence_mclose:"@ + uuid;
    let id = close_id(uuid, opener);
    assert(id =~= head + seq![':'] + d) by {
        reveal_strlit(":");
    }
    lemma_last_index_before(head, ':', d);
    assert(id.skip(head.len() as int + 1) =~= d);
}

proof fn lemma_split_first_colon(a: Seq<char>, rest: Seq<char>)
    requires
        !a.contains(':'),
    ensures
        first_index(a + seq![':'] + rest, ':') == Some(a.len() as int),
        (a + seq![':'] + rest).take(a.len() as int) == a,
        (a + seq![':'] + rest).skip(a.len() as int + 1) == rest,
{
    lemma_first_index_after(a, ':', rest);
    assert((a + seq![':'] + rest).take(a.len() as int) =~= a);
    assert((a + seq![':'] + rest).skip(a.len() as int + 1) =~= rest);
}

proof fn lemma_three_parts_from(s: Seq<char>, i: int, j: int, a: Seq<char>, b: Seq<char>, c: Seq<char>)
    requires
        first_index(s, ':') == Some(i),
        s.take(i) == a,
        first_index(s.skip(i + 1), ':') == Some(j),
        s.skip(i + 1).take(j) == b,
        s.skip(i + 1).skip(j + 1) == c,
    ensures
        three_parts(s) == (a, b, c),
{
}

proof fn lemma_three_parts(a: Seq<char>, b: Seq<char>, c: Seq<char>)
    requires
        !a.contains(':'),
        !b.contains(':'),
    ensures
        three_parts(a + seq![':'] + (b + seq![':'] + c)) == (a, b, c),
{
    let tail = b + seq![':'] + c;
    let s = a + seq![':'] + tail;
    lemma_split_first_colon(a, tail);
    lemma_split_first_colon(b, c);
    lemma_three_parts_from(s, a.len() as int, b.len() as int, a, b, c);
}

/// A remove button's id reads back as the uuid, member and file it was made
/// for, where the uuid holds no `:` (a file name may hold any).
#[verifier::spinoff_prover]
pub proof fn remove_id_reads_back(uuid: Seq<char>, opener: u64, selected: Seq<char>)
    requires
        !uuid.contains(':'),
    ensures
        remove_target_spec(remove_id(uuid, opener, selected)) == (uuid, opener, selected),
{
    let d = decimal(opener as nat);
    lemma_decimal_reads_back(opener as nat);
    lemma_decimal_has_no(opener as nat, ':');
    let p = "evidence_mrem:"@;
    let rest = uuid + seq![':'] + (d + seq![':'] + selected);
    let id = remove_id(uuid, opener, selected);
    assert(id =~= p + rest) by {
        reveal_strlit(":");
    }
    assert(after_prefix(id, p) == Some(rest)) by {
        assert(id.take(p.len() as int) =~= p);
        assert(id.skip(p.len() as int) =~= rest);
    }
    lemma_three_parts(uuid, d, selected);
}


/// What a header holds before the name: the emote and the word.
pub open spec fn header_lead(has_evidence: bool) -> Seq<char> {
    header_emote(has_evidence) + " Evidence"@
}

proof fn lemma_header_lead_plain(has_evidence: bool)
    ensures
        forall|j: int| 0 <= j < header_lead(has_evidence).len() ==> #[trigger] header_lead(has_evidence)[j] != '\u{2014}',
        header_lead(has_evidence).len() > 0,
{
    reveal_strlit("<:evidencefound:1482666860225888346>");
    reveal_strlit("<:noevidence:1482666258938990696>");
    reveal_strlit(" Evidence");
    assert forall|j: int| 0 <= j < header_lead(has_evidence).len() implies #[trigger] header_lead(has_evidence)[j] != '\u{2014}' by {
        let e = header_emote(has_evidence);
        if j < e.len() {
            assert(header_lead(has_evidence)[j] == e[j]);
        } else {
            assert(header_lead(has_evidence)[j] == " Evidence"@[j - e.len()]);
        }
    }
}

/// What follows the name's closing backtick: nothing, or the mark of an
/// archived post.
pub open spec fn header_tail(archived: bool) -> Seq<char> {
    if archived { " (Archived)"@ } else { Seq::empty() }
}

/// The name in a header, split off at the dash that follows the lead.
proof fn lemma_header_name(username: Seq<char>, has_evidence: bool, archived: bool)
    requires
        forall|j: int| 0 <= j < username.len() ==> #[trigger] username[j] != '\u{2014}',
        username.len() > 0 ==> username.last() != '`',
    ensures
        evidence_header_name(header_lead(has_evidence) + " \u{2014} `"@ + (username + "`"@ + header_tail(archived)))
            == Some(username),
{
    reveal_strlit(" \u{2014} `");
    reveal_strlit("`");
    reveal_strlit(" (Archived)");
    let pat = " \u{2014} `"@;
    let a = header_lead(has_evidence);
    let c = username + "`"@;
    let b = c + header_tail(archived);
    lemma_header_lead_plain(has_evidence);
    assert forall|i: int| 0 <= i < a.len() implies !has_prefix(#[trigger] (a + pat + b).skip(i), pat) by {
        if has_prefix((a + pat + b).skip(i), pat) {
            assert((a + pat + b).skip(i).take(4)[1] == pat[1]);
            if i + 1 < a.len() {
                assert((a + pat + b)[i + 1] == a[i + 1]);
            } else {
                assert((a + pat + b)[i + 1] == pat[0]);
            }
        }
    }
    lemma_split_str_concat(a, pat, b);
    assert forall|i: int| 0 <= i < b.len() implies !has_prefix(#[trigger] b.skip(i), pat) by {
        if has_prefix(b.skip(i), pat) {
            assert(b.skip(i).take(4)[1] == pat[1]);
            assert(b[i + 1] == b.skip(i)[1]);
            if i + 1 < username.len() {
                assert(b[i + 1] == username[i + 1]);
            } else if i + 1 == username.len() {
                assert(b[i + 1] == '`');
            } else {
                assert(b[i + 1] == header_tail(archived)[i + 1 - c.len()]);
            }
        }
    }
    lemma_split_str_none(b, pat);
    let p = split_str(a + pat + b, pat);
    assert(p[1] == b);
    if archived {
        assert(b.skip(b.len() - 11) =~= " (Archived)"@);
        assert(b.take(b.len() - 11) =~= c);
    } else {
        assert(b =~= c);
    }
    assert(!has_suffix(c, " (Archived)"@)) by {
        if has_suffix(c, " (Archived)"@) {
            assert(c.skip(c.len() - 11).last() == c.last());
        }
    }
    assert(trim_end_all(c, " (Archived)"@) == c);
    assert(trim_end_all(b, " (Archived)"@) == c);
    assert(c.skip(c.len() - 1) =~= "`"@);
    assert(c.take(c.len() - 1) =~= username);
    if username.len() > 0 {
        assert(!has_suffix(username, "`"@)) by {
            if has_suffix(username, "`"@) {
                assert(username.skip(username.len() - 1)[0] == username.last());
            }
        }
    }
    assert(trim_end_all(username, "`"@) == username);
    assert(trim_end_all(c, "`"@) == username);
}

/// A post's header, of a live or an archived post, reads back as the name
/// it was written with, for a name without an em dash and not ending in a
/// backtick.
pub proof fn header_reads_back(st: EvidenceText, username: Seq<char>, has_evidence: bool, archived: bool)
    requires
        forall|j: int| 0 <= j < username.len() ==> #[trigger] username[j] != '\u{2014}',
        username.len() > 0 ==> username.last() != '`',
    ensures
        ingest_line(st, evidence_header_spec(username, has_evidence) + header_tail(archived))
            == (EvidenceText { username, ..st }),
{
    reveal_strlit("## ");
    reveal_strlit(" \u{2014} `");
    reveal_strlit(" Evidence \u{2014} `");
    reveal_strlit(" Evidence");
    reveal_strlit("`");
    reveal_strlit(" (Archived)");
    let h = evidence_header_spec(username, has_evidence) + header_tail(archived);
    let rest = header_lead(has_evidence) + " \u{2014} `"@ + (username + "`"@ + header_tail(archived));
    assert(h =~= "## "@ + rest);
    assert(h[0] == '#');
    assert(h.last() == if archived { ')' } else { '`' });
    lemma_trimmed_unchanged(h);
    assert(h.take(3) =~= "## "@);
    assert(h.skip(3) =~= rest);
    lemma_header_name(username, has_evidence, archived);
}


/// The forum evidence posts go to: an error where none is configured.
pub fn evidence_forum(forum: Option<u64>) -> (r: Result<u64, &'static str>)
    ensures
        match forum {
            Some(f) => r == Ok::<u64, &'static str>(f),
            None => r is Err && r->Err_0@ == "Evidence forum channel not configured"@,
        },
{
    match forum {
        Some(f) => Ok(f),
        None => Err("Evidence forum channel not configured"),
    }
}

/// The title of a player's evidence post: the name, a bar, and the uuid
/// with dashes.
pub open spec fn evidence_title_text(username: Seq<char>, uuid: Seq<char>) -> Seq<char> {
    username + " | "@ + dashed_uuid(uuid)
}

pub fn evidence_thread_title(username: &str, uuid: &str) -> (r: String)
    requires
        uuid_cuts_ok(uuid@),
    ensures
        r@ == evidence_title_text(username@, uuid@),
{
    let mut out: Vec<char> = Vec::new();
    push_str(&mut out, username);
    push_str(&mut out, " | ");
    let d = format_uuid_dashed(uuid);
    push_str(&mut out, d.as_str());
    string_of(&out)
}

/// The name of media `i` of a review, counted from one, with the extension
/// of its URL as it stands.
pub open spec fn review_media_name(username: Seq<char>, i: int, url: Seq<char>) -> Seq<char> {
    upload_name(username, (i + 1) as nat, url_ext(url))
}

/// The names of a review's media once it becomes an evidence post, one per
/// URL, in order.
pub fn review_evidence_names(username: &str, urls: &Vec<String>) -> (r: Vec<String>)
    requires
        urls.len() < u64::MAX,
    ensures
        r@.len() == urls@.len(),
        forall|i: int| 0 <= i < urls@.len() ==> #[trigger] r@[i]@ == review_media_name(username@, i, urls@[i]@),
{
    let mut out: Vec<String> = Vec::new();
    let mut i: usize = 0;
    while i < urls.len()
        invariant
            i <= urls.len(),
            urls.len() < u64::MAX,
            out@.len() == i,
            forall|k: int| 0 <= k < i ==> #[trigger] out@[k]@ == review_media_name(username@, k, urls@[k]@),
        decreases urls.len() - i,
    {
        let e = url_extension(urls[i].as_str());
        let n = evidence_filename(username, i as u64 + 1, e.as_str());
        out.push(n);
        i = i + 1;
    }
    out
}

/// The names among `names` whose file was fetched, in order.
pub open spec fn fetched_names(names: Seq<Seq<char>>, fetched: Seq<bool>) -> Seq<Seq<char>>
    decreases names.len(),
{
    if names.len() == 0 {
        Seq::empty()
    } else {
        let prev = fetched_names(names.drop_last(), fetched);
        if fetched[names.len() - 1] { prev.push(names.last()) } else { prev }
    }
}

/// The evidence of a post made from a review: the media whose download
/// succeeded, under their names, in order.
pub fn fetched_evidence(names: &Vec<String>, fetched: &Vec<bool>) -> (r: Vec<EvidenceItem>)
    requires
        names.len() == fetched.len(),
    ensures
        item_names(r@) == fetched_names(Seq::new(names@.len(), |i: int| names@[i]@), fetched@),
{
    let ghost all = Seq::new(names@.len(), |i: int| names@[i]@);
    let mut out: Vec<EvidenceItem> = Vec::new();
    let mut i: usize = 0;
    assert(all.take(0) =~= Seq::<Seq<char>>::empty());
    while i < names.len()
        invariant
            i <= names.len(),
            names.len() == fetched.len(),
            all == Seq::new(names@.len(), |i: int| names@[i]@),
            item_names(out@) == fetched_names(all.take(i as int), fetched@),
        decreases names.len() - i,
    {
        assert(all.take(i + 1).drop_last() =~= all.take(i as int));
        assert(all.take(i + 1).last() == names@[i as int]@);
        if fetched[i] {
            let ghost before = out@;
            let n = names[i].clone();
            out.push(EvidenceItem { filename: n });
            assert(item_names(out@) =~= item_names(before).push(names@[i as int]@));
        }
        i = i + 1;
    }
    assert(all.take(names.len() as int) =~= all);
    out
}


proof fn lemma_filter_concat(a: Seq<char>, b: Seq<char>, c: char)
    ensures
        (a + b).filter(not_char(c)) == a.filter(not_char(c)) + b.filter(not_char(c)),
    decreases b.len(),
{
    reveal(Seq::filter);
    if b.len() == 0 {
        assert(a + b =~= a);
        assert(b.filter(not_char(c)) =~= b);
        assert(a.filter(not_char(c)) + b.filter(not_char(c)) =~= a.filter(not_char(c)));
    } else {
        lemma_filter_concat(a, b.drop_last(), c);
        assert((a + b).drop_last() =~= a + b.drop_last());
        assert((a + b).last() == b.last());
        let fb = b.drop_last().filter(not_char(c));
        if not_char(c)(b.last()) {
            assert(a.filter(not_char(c)) + fb.push(b.last()) =~= (a.filter(not_char(c)) + fb).push(b.last()));
        }
    }
}

proof fn lemma_filter_keeps(s: Seq<char>, c: char)
    requires
        forall|i: int| 0 <= i < s.len() ==> s[i] != c,
    ensures
        s.filter(not_char(c)) == s,
    decreases s.len(),
{
    reveal(Seq::filter);
    if s.len() > 0 {
        lemma_filter_keeps(s.drop_last(), c);
        assert(s[s.len() - 1] != c);
        assert(not_char(c)(s.last()));
        assert(s.filter(not_char(c)) == s.drop_last().filter(not_char(c)).push(s.last()));
        assert(s.drop_last().push(s.last()) =~= s);
    }
}

proof fn lemma_ascii_width(s: Seq<char>)
    requires
        forall|i: int| 0 <= i < s.len() ==> is_ascii_hex(#[trigger] s[i]),
    ensures
        utf8_width(s) == s.len(),
    decreases s.len(),
{
    if s.len() > 0 {
        lemma_ascii_width(s.drop_last());
        assert(is_ascii_hex(s[s.len() - 1]));
        assert((s.last() as u32) < 0x80);
    }
}

proof fn lemma_split_last(p: Seq<char>, b: Seq<char>, sep: char)
    requires
        forall|i: int| 0 <= i < b.len() ==> b[i] != sep,
    ensures
        split_on(p + b, sep).len() >= 1,
        split_on(p + b, sep).last() == split_on(p, sep).last() + b,
    decreases b.len(),
{
    if b.len() == 0 {
        assert(p + b =~= p);
        lemma_split_nonempty(p, sep);
        assert(split_on(p, sep).last() + b =~= split_on(p, sep).last());
    } else {
        let b2 = b.drop_last();
        lemma_split_last(p, b2, sep);
        assert((p + b).drop_last() =~= p + b2);
        assert((p + b).last() == b[b.len() - 1]);
        assert(split_on(p, sep).last() + b2.push(b.last()) =~= (split_on(p, sep).last() + b2).push(b.last()));
        assert(b2.push(b.last()) =~= b);
    }
}

proof fn lemma_split_nonempty(s: Seq<char>, sep: char)
    ensures
        split_on(s, sep).len() >= 1,
    decreases s.len(),
{
    if s.len() > 0 {
        lemma_split_nonempty(s.drop_last(), sep);
    }
}

proof fn lemma_dashed_pieces(u: Seq<char>)
    requires
        is_uuid_hex(u),
    ensures
        dashed_uuid(u) == u.subrange(0, 8) + seq!['-'] + u.subrange(8, 12) + seq!['-'] + u.subrange(12, 16)
            + seq!['-'] + u.subrange(16, 20) + seq!['-'] + u.skip(20),
{
    lemma_ascii_width(u);
    assert forall|k: int| 0 <= k <= 32 implies utf8_width(#[trigger] u.take(k)) == k by {
        assert forall|i: int| 0 <= i < u.take(k).len() implies is_ascii_hex(#[trigger] u.take(k)[i]) by {
            assert(u.take(k)[i] == u[i]);
        }
        lemma_ascii_width(u.take(k));
    }
    assert(utf8_width(u.take(8)) == 8);
    assert(utf8_width(u.take(12)) == 12);
    assert(utf8_width(u.take(16)) == 16);
    assert(utf8_width(u.take(20)) == 20);
    lemma_cut_is(u, 8, 8);
    lemma_cut_is(u, 12, 12);
    lemma_cut_is(u, 16, 16);
    lemma_cut_is(u, 20, 20);
}

proof fn lemma_hex_piece(u: Seq<char>, lo: int, hi: int)
    requires
        is_uuid_hex(u),
        0 <= lo <= hi <= 32,
    ensures
        u.subrange(lo, hi).filter(not_char('-')) == u.subrange(lo, hi),
{
    assert forall|i: int| 0 <= i < u.subrange(lo, hi).len() implies u.subrange(lo, hi)[i] != '-' by {
        assert(u.subrange(lo, hi)[i] == u[lo + i]);
        assert(is_ascii_hex(u[lo + i]));
    }
    lemma_filter_keeps(u.subrange(lo, hi), '-');
}

proof fn lemma_undashed(u: Seq<char>)
    requires
        is_uuid_hex(u),
    ensures
        remove_char(dashed_uuid(u), '-') == u,
{
    lemma_dashed_pieces(u);
    let d = seq!['-'];
    let p1 = u.subrange(0, 8);
    let p2 = u.subrange(8, 12);
    let p3 = u.subrange(12, 16);
    let p4 = u.subrange(16, 20);
    let p5 = u.subrange(20, 32);
    assert(u.skip(20) =~= p5);
    lemma_hex_piece(u, 0, 8);
    lemma_hex_piece(u, 8, 12);
    lemma_hex_piece(u, 12, 16);
    lemma_hex_piece(u, 16, 20);
    lemma_hex_piece(u, 20, 32);
    assert(d.filter(not_char('-')) =~= Seq::<char>::empty()) by {
        reveal(Seq::filter);
        assert(d.drop_last() =~= Seq::<char>::empty());
        assert(d.drop_last().filter(not_char('-')) =~= Seq::<char>::empty());
        assert(!not_char('-')(d.last()));
        assert(d.filter(not_char('-')) == d.drop_last().filter(not_char('-')));
    }
    let f = not_char('-');
    lemma_filter_concat(p1, d, '-');
    lemma_filter_concat(p1 + d, p2, '-');
    lemma_filter_concat(p1 + d + p2, d, '-');
    lemma_filter_concat(p1 + d + p2 + d, p3, '-');
    lemma_filter_concat(p1 + d + p2 + d + p3, d, '-');
    lemma_filter_concat(p1 + d + p2 + d + p3 + d, p4, '-');
    lemma_filter_concat(p1 + d + p2 + d + p3 + d + p4, d, '-');
    lemma_filter_concat(p1 + d + p2 + d + p3 + d + p4 + d, p5, '-');
    assert(p1 + p2 + p3 + p4 + p5 =~= u);
    assert((p1 + d + p2 + d + p3 + d + p4 + d + p5).filter(f) =~= p1 + p2 + p3 + p4 + p5);
}

/// An evidence post's title reads back as the uuid it was written with, for
/// any name and any uuid of 32 hex digits.
pub proof fn title_reads_back(username: Seq<char>, uuid: Seq<char>)
    requires
        is_uuid_hex(uuid),
    ensures
        title_uuid(evidence_title_text(username, uuid)) == Some(uuid),
{
    reveal_strlit(" | ");
    let d = dashed_uuid(uuid);
    lemma_dashed_pieces(uuid);
    let title = evidence_title_text(username, uuid);
    let p = username + seq![' ', '|'];
    let b = seq![' '] + d;
    assert(title =~= p + b);
    assert(is_ascii_hex(uuid[0]) && is_ascii_hex(uuid[31]));
    assert(d[0] == uuid[0]);
    assert(d.last() == uuid[31]);
    assert forall|i: int| 0 <= i < b.len() implies b[i] != '|' by {
        if i > 0 {
            assert(b[i] == d[i - 1]);
            if d[i - 1] == '|' {
                assert(d =~= uuid.subrange(0, 8) + seq!['-'] + uuid.subrange(8, 12) + seq!['-'] + uuid.subrange(12, 16)
                    + seq!['-'] + uuid.subrange(16, 20) + seq!['-'] + uuid.skip(20));
                let j = i - 1;
                if j < 8 { assert(d[j] == uuid[j]); }
                else if j == 8 {}
                else if j < 13 { assert(d[j] == uuid[j - 1]); }
                else if j == 13 {}
                else if j < 18 { assert(d[j] == uuid[j - 2]); }
                else if j == 18 {}
                else if j < 23 { assert(d[j] == uuid[j - 3]); }
                else if j == 23 {}
                else { assert(d[j] == uuid[j - 4]); }
            }
        }
    }
    lemma_split_last(p, b, '|');
    assert(p.last() == '|');
    lemma_split_nonempty(p.drop_last(), '|');
    assert(split_on(p, '|').last() == Seq::<char>::empty());
    assert(Seq::<char>::empty() + b =~= b);
    assert(split_on(title, '|').last() == b);
    assert(b.drop_first() =~= d);
    assert(trim_start(d) == d);
    assert(trim_start(b) == trim_start(d));
    assert(!is_ws(d.last()));
    assert(trim_end(d) == d);
    assert(trimmed(b) == d);
    lemma_undashed(uuid);
}

} // verus!
