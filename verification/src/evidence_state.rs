//! Reading an evidence post back from its text, and the rules for media
//! added to it.

use vstd::prelude::*;
use crate::text::{
    chars_of, string_of, push_str, push_chars, decimal, decimal_chars, has_prefix, after_prefix,
    strip_prefix_chars, occurs_in, contains_str, first_word, first_word_chars, lines_of, lines,
    trimmed, trim_chars, remove_char, remove_all, trim_end_all, trim_end_matches, split_str,
    split_by, split_on, split_chars, starts_with, views, is_ws, lemma_trimmed_unchanged, lemma_no_prefix,
    trim_start, trim_end,
};
use crate::evidence_text::{evidence_header_name, extract_evidence_name};
use crate::minecraft::{unsanitize_reason, unsanitized, sanitized, round_trip_safe, lemma_sanitized_first,
    lemma_sanitized_last, unsanitize_inverts_sanitize, is_escaped_char};

verus! {

/// A piece of evidence attached to the post.
#[derive(Clone, Debug)]
pub struct EvidenceItem {
    pub filename: String,
}

/// What an evidence post says about its player.
pub struct EvidenceState {
    pub username: String,
    pub uuid: String,
    pub reason: String,
    pub added_line: Option<String>,
    pub reviewed_line: Option<String>,
    pub evidence: Vec<EvidenceItem>,
    pub review_url: Option<String>,
}

/// The text fields of an evidence post, as character sequences.
pub struct EvidenceText {
    pub username: Seq<char>,
    pub uuid: Seq<char>,
    pub reason: Seq<char>,
    pub added: Option<Seq<char>>,
    pub reviewed: Option<Seq<char>>,
    pub review_url: Option<Seq<char>>,
}

pub open spec fn opt_view(o: Option<String>) -> Option<Seq<char>> {
    match o {
        Some(s) => Some(s@),
        None => None,
    }
}

impl EvidenceState {
    pub open spec fn text(&self) -> EvidenceText {
        EvidenceText {
            username: self.username@,
            uuid: self.uuid@,
            reason: self.reason@,
            added: opt_view(self.added_line),
            reviewed: opt_view(self.reviewed_line),
            review_url: opt_view(self.review_url),
        }
    }

    /// A state with nothing read yet.
    pub fn empty() -> (s: EvidenceState)
        ensures
            s.text() == (EvidenceText {
                username: Seq::empty(),
                uuid: Seq::empty(),
                reason: Seq::empty(),
                added: None,
                reviewed: None,
                review_url: None,
            }),
            s.evidence@.len() == 0,
    {
        EvidenceState {
            username: String::new(),
            uuid: String::new(),
            reason: String::new(),
            added_line: None,
            reviewed_line: None,
            evidence: Vec::new(),
            review_url: None,
        }
    }
}

/// The uuid and review link of a `-# UUID: …` footer: the first word
/// without dashes, and what follows `[Review](` up to the next `)`.
pub open spec fn footer_uuid(rest: Seq<char>) -> Seq<char> {
    remove_char(first_word(rest), '-')
}

pub open spec fn footer_review_url(rest: Seq<char>) -> Option<Seq<char>> {
    let pieces = split_str(rest, "[Review]("@);
    if pieces.len() > 1 {
        Some(split_on(pieces[1], ')')[0])
    } else {
        None
    }
}

/// What one line of the post changes. The line is trimmed; then the first
/// of these that applies: a `## ` header names the player; a `-# UUID: `
/// footer gives the uuid and the review link; a `UUID: \`` line gives the
/// uuid; a `> -# ` line is the reviewed-by line, or the first added-by line;
/// and the first `> ` quote that is no `-#` note is the reason, its escapes
/// undone.
pub open spec fn ingest_line(st: EvidenceText, line: Seq<char>) -> EvidenceText {
    let t = trimmed(line);
    if after_prefix(t, "## "@) is Some && evidence_header_name(after_prefix(t, "## "@)->0) is Some {
        EvidenceText { username: evidence_header_name(after_prefix(t, "## "@)->0)->0, ..st }
    } else if after_prefix(t, "-# UUID: "@) is Some {
        let rest = after_prefix(t, "-# UUID: "@)->0;
        EvidenceText {
            uuid: footer_uuid(rest),
            review_url: if footer_review_url(rest) is Some {
                footer_review_url(rest)
            } else {
                st.review_url
            },
            ..st
        }
    } else if after_prefix(t, "UUID: `"@) is Some {
        EvidenceText {
            uuid: remove_char(trim_end_all(after_prefix(t, "UUID: `"@)->0, "`"@), '-'),
            ..st
        }
    } else if after_prefix(t, "> -# "@) is Some {
        let rest = after_prefix(t, "> -# "@)->0;
        if occurs_in(rest, "Reviewed by "@) {
            EvidenceText { reviewed: Some(t), ..st }
        } else if has_prefix(rest, "**\\-"@) && st.added is None {
            EvidenceText { added: Some(t), ..st }
        } else {
            st
        }
    } else if st.reason.len() == 0 && after_prefix(t, "> "@) is Some
        && !has_prefix(after_prefix(t, "> "@)->0, "-#"@) {
        EvidenceText { reason: unsanitized(after_prefix(t, "> "@)->0), ..st }
    } else {
        st
    }
}

proof fn lemma_post_quote(st: EvidenceText, line: Seq<char>, x: Seq<char>)
    requires
        st.reason.len() == 0,
        after_prefix(trimmed(line), "## "@) is None,
        after_prefix(trimmed(line), "-# UUID: "@) is None,
        after_prefix(trimmed(line), "UUID: `"@) is None,
        after_prefix(trimmed(line), "> -# "@) is None,
        after_prefix(trimmed(line), "> "@) == Some(x),
        !has_prefix(x, "-#"@),
    ensures
        ingest_line(st, line) == (EvidenceText { reason: unsanitized(x), ..st }),
{
}

proof fn lemma_post_quote_kinds(t: Seq<char>)
    requires
        t.len() > 2,
        t[0] == '>',
        t[1] == ' ',
        t[2] != '-',
    ensures
        after_prefix(t, "## "@) is None,
        after_prefix(t, "-# UUID: "@) is None,
        after_prefix(t, "UUID: `"@) is None,
        after_prefix(t, "> -# "@) is None,
        after_prefix(t, "> "@) == Some(t.skip(2)),
        !has_prefix(t.skip(2), "-#"@),
{
    reveal_strlit("## ");
    reveal_strlit("-# UUID: ");
    reveal_strlit("UUID: `");
    reveal_strlit("> -# ");
    reveal_strlit("> ");
    reveal_strlit("-#");
    lemma_no_prefix(t, "## "@);
    lemma_no_prefix(t, "-# UUID: "@);
    lemma_no_prefix(t, "UUID: `"@);
    if has_prefix(t, "> -# "@) {
        assert(t.take(5)[2] == t[2]);
    }
    assert(t.take(2) =~= "> "@);
    lemma_no_prefix(t.skip(2), "-#"@);
}

/// A reason written as the quote line of an evidence post reads back as
/// itself (so a redraw writes the same quote again), for a reason without
/// line breaks and not ending in whitespace.
pub proof fn reason_line_reads_back_in_post(st: EvidenceText, r: Seq<char>)
    requires
        st.reason.len() == 0,
        round_trip_safe(r),
        r.len() > 0 ==> !is_ws(r.last()),
    ensures
        ingest_line(st, "> "@ + sanitized(r)) == (EvidenceText { reason: r, ..st }),
{
    reveal_strlit("> ");
    let line = "> "@ + sanitized(r);
    if r.len() > 0 {
        lemma_sanitized_last(r);
        lemma_sanitized_first(r);
        assert(is_escaped_char('-'));
        assert(line.last() == r.last());
        assert(line[0] == '>' && line[1] == ' ' && line[2] == sanitized(r)[0]);
        lemma_trimmed_unchanged(line);
        lemma_post_quote_kinds(line);
        assert(line.skip(2) =~= sanitized(r));
        unsanitize_inverts_sanitize(r);
        lemma_post_quote(st, line, sanitized(r));
    } else {
        assert(sanitized(r) == Seq::<char>::empty());
        assert(line =~= seq!['>', ' ']);
        assert(trim_start(line) == line);
        assert(line.drop_last() =~= seq!['>']);
        assert(is_ws(line.last()));
        assert(trim_end(seq!['>']) == seq!['>']);
        assert(trimmed(line) == seq!['>']);
        reveal_strlit("## ");
        reveal_strlit("-# UUID: ");
        reveal_strlit("UUID: `");
        reveal_strlit("> -# ");
        lemma_no_prefix(seq!['>'], "## "@);
        lemma_no_prefix(seq!['>'], "-# UUID: "@);
        lemma_no_prefix(seq!['>'], "UUID: `"@);
        assert(!has_prefix(seq!['>'], "> -# "@));
        assert(!has_prefix(seq!['>'], "> "@));
        assert(r =~= st.reason);
    }
}

/// The lines read in order.
pub open spec fn ingest_lines(st: EvidenceText, ls: Seq<Seq<char>>) -> EvidenceText
    decreases ls.len(),
{
    if ls.len() == 0 {
        st
    } else {
        ingest_line(ingest_lines(st, ls.drop_last()), ls.last())
    }
}

fn ingest_one(state: &mut EvidenceState, line: &Vec<char>)
    ensures
        final(state).text() == ingest_line(old(state).text(), line@),
        final(state).evidence == old(state).evidence,
{
    let t = trim_chars(line);
    let header = strip_prefix_chars(&t, "## ");
    if let Some(h) = header {
        let hs = string_of(&h);
        if let Some(name) = extract_evidence_name(hs.as_str()) {
            state.username = name;
            return;
        }
    }
    if let Some(rest) = strip_prefix_chars(&t, "-# UUID: ") {
        let word = first_word_chars(&rest);
        let id = remove_all(&word, '-');
        state.uuid = string_of(&id);
        let pieces = split_by(&rest, "[Review](");
        if pieces.len() > 1 {
            assert(views(pieces@)[1] == pieces@[1]@);
            let parts = split_chars(&pieces[1], ')');
            assert(views(parts@)[0] == parts@[0]@);
            state.review_url = Some(string_of(&parts[0]));
        }
        return;
    }
    if let Some(rest) = strip_prefix_chars(&t, "UUID: `") {
        let a = trim_end_matches(&rest, "`");
        let b = remove_all(&a, '-');
        state.uuid = string_of(&b);
        return;
    }
    if let Some(rest) = strip_prefix_chars(&t, "> -# ") {
        if contains_str(&rest, "Reviewed by ") {
            state.reviewed_line = Some(string_of(&t));
        } else if starts_with(&rest, "**\\-") && state.added_line.is_none() {
            state.added_line = Some(string_of(&t));
        }
        return;
    }
    let rv = chars_of(state.reason.as_str());
    if rv.len() == 0 {
        if let Some(rest) = strip_prefix_chars(&t, "> ") {
            if !starts_with(&rest, "-#") {
                let rs = string_of(&rest);
                state.reason = unsanitize_reason(rs.as_str());
            }
        }
    }
}

/// Reads the lines of `content` into `state`.
pub fn ingest_text(state: &mut EvidenceState, content: &str)
    ensures
        final(state).text() == ingest_lines(old(state).text(), lines_of(content@)),
        final(state).evidence == old(state).evidence,
{
    let cv = chars_of(content);
    let ls = lines(&cv);
    let ghost start = state.text();
    let ghost ev = state.evidence;
    let mut i: usize = 0;
    while i < ls.len()
        invariant
            i <= ls.len(),
            views(ls@) == lines_of(content@),
            state.text() == ingest_lines(start, views(ls@).take(i as int)),
            state.evidence == ev,
        decreases ls.len() - i,
    {
        ingest_one(state, &ls[i]);
        assert(views(ls@).take(i + 1).drop_last() == views(ls@).take(i as int));
        assert(views(ls@).take(i + 1).last() == ls@[i as int]@);
        i = i + 1;
    }
    assert(views(ls@).take(ls.len() as int) == views(ls@));
}

/// The file name of a gallery item's URL: its last path segment without
/// the query.
pub open spec fn gallery_filename(url: Seq<char>) -> Seq<char> {
    split_on(split_on(url, '/').last(), '?')[0]
}

pub fn gallery_item_filename(url: &str) -> (r: String)
    ensures
        r@ == gallery_filename(url@),
{
    let v = chars_of(url);
    let segs = split_chars(&v, '/');
    assert(views(segs@).last() == segs@[segs.len() - 1]@);
    let last = &segs[segs.len() - 1];
    let parts = split_chars(last, '?');
    assert(views(parts@)[0] == parts@[0]@);
    string_of(&parts[0])
}

/// The name an uploaded piece of evidence is stored under:
/// `<player>_<number>.<extension>`.
pub open spec fn upload_name(username: Seq<char>, number: nat, ext: Seq<char>) -> Seq<char> {
    username + "_"@ + decimal(number) + "."@ + ext
}

pub fn evidence_filename(username: &str, number: u64, ext: &str) -> (r: String)
    ensures
        r@ == upload_name(username@, number as nat, ext@),
{
    let mut out: Vec<char> = Vec::new();
    push_str(&mut out, username);
    push_str(&mut out, "_");
    let d = decimal_chars(number);
    push_chars(&mut out, &d);
    push_str(&mut out, ".");
    push_str(&mut out, ext);
    string_of(&out)
}

/// The reply when every file of an upload was refused.
pub open spec fn only_media_message() -> Seq<char> {
    "Only images and videos are accepted (png, jpg, gif, webp, mp4, webm, mov)"@
}

/// An upload with files refused and none kept is answered with an error.
pub fn upload_refusal(kept: usize, refused: usize) -> (r: Option<&'static str>)
    ensures
        match r {
            Some(m) => kept == 0 && refused > 0 && m@ == only_media_message(),
            None => !(kept == 0 && refused > 0),
        },
{
    if kept == 0 && refused > 0 {
        Some("Only images and videos are accepted (png, jpg, gif, webp, mp4, webm, mov)")
    } else {
        None
    }
}

/// The reply when posting the evidence failed: a size hint where the error
/// speaks of a file too large.
pub open spec fn upload_failure_text(error: Seq<char>) -> Seq<char> {
    if occurs_in(error, "too large"@) || occurs_in(error, "413"@) {
        "File too large. Try compressing or using a smaller file."@
    } else {
        "Failed to upload evidence. Please try again."@
    }
}

pub fn upload_failure_message(error: &str) -> (r: &'static str)
    ensures
        r@ == upload_failure_text(error@),
{
    let v = chars_of(error);
    if contains_str(&v, "too large") || contains_str(&v, "413") {
        "File too large. Try compressing or using a smaller file."
    } else {
        "Failed to upload evidence. Please try again."
    }
}

} // verus!
