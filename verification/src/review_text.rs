//! The text of a review submission message: the lines that carry a player's
//! name, status and votes are written by the builder and read back from the
//! message on every redraw.

use vstd::prelude::*;
use crate::review_votes::PlayerStatus;
use crate::text::{
    chars_of, contains_char, decimal, decimal_chars, ends_with, find_char, first_index, has_prefix, has_suffix,
    join, join_strings, parse_u64, push_chars, push_str, slice_chars, split_by, split_chars, split_on, split_str,
    starts_with, string_of, suffix_from, u64_in, views, lemma_first_index_after, lemma_no_prefix,
};

verus! {

/// The emote that opens an accept-vote line.
pub const EMOTE_EVIDENCE: &'static str = "<:evidencefound:1482666860225888346>";

/// The emote that opens a reject-vote line.
pub const EMOTE_NO_EVIDENCE: &'static str = "<:noevidence:1482666258938990696>";

/// The opening of the line that names a player.
pub open spec fn ign_prefix() -> Seq<char> {
    "IGN - `"@
}

/// Whether a line names a player (`IGN - \`name\``).
pub fn is_player_entry(text: &str) -> (r: bool)
    ensures
        r == has_prefix(text@, ign_prefix()),
{
    let v = chars_of(text);
    starts_with(&v, "IGN - `")
}

/// The player name a line carries, if it is a player line.
pub open spec fn player_ign(text: Seq<char>) -> Option<Seq<char>> {
    if has_prefix(text, ign_prefix()) && has_suffix(text.skip(7), "`"@) {
        Some(text.skip(7).drop_last())
    } else {
        None
    }
}

/// A player line written for a name reads back as that name, whatever the
/// name holds.
pub proof fn player_line_reads_back(name: Seq<char>)
    ensures
        player_ign("IGN - `"@ + name + "`"@) == Some(name),
{
    reveal_strlit("IGN - `");
    reveal_strlit("`");
    let t = "IGN - `"@ + name + "`"@;
    assert(t.take(7) =~= ign_prefix());
    let rest = t.skip(7);
    assert(rest =~= name + "`"@);
    assert(rest.skip(rest.len() - 1) =~= "`"@);
    assert(rest.drop_last() =~= name);
}

/// The player name of a player line.
pub fn parse_player_ign(text: &str) -> (r: Option<String>)
    ensures
        match player_ign(text@) {
            Some(n) => r is Some && r->Some_0@ == n,
            None => r is None,
        },
{
    let v = chars_of(text);
    proof {
        reveal_strlit("IGN - `");
    }
    if !starts_with(&v, "IGN - `") {
        return None;
    }
    let rest = suffix_from(&v, 7);
    if !ends_with(&rest, "`") {
        return None;
    }
    proof {
        reveal_strlit("`");
    }
    let name = slice_chars(&rest, 0, rest.len() - 1);
    assert(name@ == rest@.drop_last());
    Some(string_of(&name))
}

/// Whether a line is the bold tag-type heading of a player (`**… > Tag**`).
pub fn is_tag_type_line(text: &str) -> (r: bool)
    ensures
        r == (has_prefix(text@, "**"@) && has_suffix(text@, "**"@) && text@.contains('>')),
{
    let v = chars_of(text);
    starts_with(&v, "**") && ends_with(&v, "**") && contains_char(&v, '>')
}

/// The note quoted in a rejection line: the text between its first two `"`.
pub open spec fn quoted_note(text: Seq<char>) -> Option<Seq<char>> {
    match first_index(text, '"') {
        None => None,
        Some(k) => match first_index(text.skip(k + 1), '"') {
            None => None,
            Some(e) => Some(text.skip(k + 1).take(e)),
        },
    }
}

/// The status a status line states, with the moderator who decided (it
/// never names one) and the rejection note.
pub open spec fn status_line(text: Seq<char>) -> Option<(PlayerStatus, Option<Seq<char>>)> {
    if has_prefix(text, "\u{2705} Approved"@) {
        Some((PlayerStatus::Approved, None))
    } else if has_prefix(text, "\u{274c} Rejected"@) {
        Some((PlayerStatus::Rejected, quoted_note(text)))
    } else {
        None
    }
}

/// Reads a status line: `✅ Approved`, or `❌ Rejected` with an optional
/// quoted note. The second field, the deciding moderator, is never named in it.
pub fn parse_status_line(text: &str) -> (r: Option<(PlayerStatus, Option<String>, Option<String>)>)
    ensures
        match status_line(text@) {
            None => r is None,
            Some((s, note)) => r is Some && r->Some_0.0 == s && r->Some_0.1 is None && match note {
                None => r->Some_0.2 is None,
                Some(n) => r->Some_0.2 is Some && r->Some_0.2->Some_0@ == n,
            },
        },
{
    let v = chars_of(text);
    if starts_with(&v, "\u{2705} Approved") {
        return Some((PlayerStatus::Approved, None, None));
    }
    if starts_with(&v, "\u{274c} Rejected") {
        let note = match find_char(&v, '"') {
            None => None,
            Some(k) => {
                let rest = suffix_from(&v, k + 1);
                match find_char(&rest, '"') {
                    None => None,
                    Some(e) => {
                        let n = slice_chars(&rest, 0, e);
                        assert(n@ == rest@.take(e as int));
                        Some(string_of(&n))
                    },
                }
            },
        };
        return Some((PlayerStatus::Rejected, None, note));
    }
    None
}

/// The status line written for a player.
pub open spec fn status_text(status: PlayerStatus, note: Option<Seq<char>>) -> Seq<char> {
    match status {
        PlayerStatus::Pending => "-# Pending review"@,
        PlayerStatus::Approved => "\u{2705} Approved"@,
        PlayerStatus::Rejected => match note {
            Some(n) => "\u{274c} Rejected \u{2014} \""@ + n + "\""@,
            None => "\u{274c} Rejected"@,
        },
    }
}

/// A status line written for a decided player reads back as its status,
/// with the rejection note where it holds no `"`.
pub proof fn status_line_reads_back(status: PlayerStatus, note: Option<Seq<char>>)
    requires
        status != PlayerStatus::Pending,
        note is Some ==> !note->0.contains('"'),
    ensures
        status_line(status_text(status, note))
            == Some((status, if status == PlayerStatus::Rejected { note } else { None })),
{
    reveal_strlit("\u{2705} Approved");
    reveal_strlit("\u{274c} Rejected");
    reveal_strlit("\u{274c} Rejected \u{2014} \"");
    reveal_strlit("\u{274c} Rejected \u{2014} ");
    reveal_strlit("\"");
    let t = status_text(status, note);
    if status == PlayerStatus::Approved {
        assert(t.take(10) =~= "\u{2705} Approved"@);
    } else {
        match note {
            None => {
                lemma_no_prefix(t, "\u{2705} Approved"@);
                assert(t.take(10) =~= "\u{274c} Rejected"@);
                assert(forall|i: int| 0 <= i < t.len() ==> t[i] != '"');
                assert(first_index(t, '"') is None);
            },
            Some(n) => {
                let head = "\u{274c} Rejected \u{2014} "@;
                assert(t =~= head + seq!['"'] + (n + seq!['"']));
                lemma_no_prefix(t, "\u{2705} Approved"@);
                assert(t.take(10) =~= "\u{274c} Rejected"@);
                assert(!head.contains('"'));
                lemma_first_index_after(head, '"', n + seq!['"']);
                let rest = t.skip(head.len() as int + 1);
                assert(rest =~= n + seq!['"']);
                assert(n + seq!['"'] =~= n + seq!['"'] + Seq::<char>::empty());
                lemma_first_index_after(n, '"', Seq::<char>::empty());
                assert(rest.take(n.len() as int) =~= n);
                assert(first_index(rest, '"') == Some(n.len() as int));
                assert(quoted_note(t) == Some(n));
            },
        }
    }
}

/// Writes the status line of a player.
pub fn render_status_line(status: PlayerStatus, review_note: Option<&str>) -> (r: String)
    ensures
        r@ == status_text(status, match review_note { Some(n) => Some(n@), None => None }),
{
    let mut out: Vec<char> = Vec::new();
    match status {
        PlayerStatus::Pending => push_str(&mut out, "-# Pending review"),
        PlayerStatus::Approved => push_str(&mut out, "\u{2705} Approved"),
        PlayerStatus::Rejected => match review_note {
            Some(n) => {
                push_str(&mut out, "\u{274c} Rejected \u{2014} \"");
                push_str(&mut out, n);
                push_str(&mut out, "\"");
            },
            None => push_str(&mut out, "\u{274c} Rejected"),
        },
    }
    string_of(&out)
}

/// The side a vote line counts for.
#[derive(Clone, Copy, Debug, PartialEq, Eq, Structural)]
pub enum VoteSide {
    Accept,
    Reject,
}

/// The ids mentioned in the pieces that follow each `<@`: the text up to the
/// first `>` of each piece, when it is a number.
pub open spec fn mentioned_ids(pieces: Seq<Seq<char>>) -> Seq<u64>
    decreases pieces.len(),
{
    if pieces.len() == 0 {
        seq![]
    } else {
        let r = mentioned_ids(pieces.drop_last());
        match u64_in(split_on(pieces.last(), '>')[0]) {
            Some(v) => r.push(v),
            None => r,
        }
    }
}

/// The side and voters of a vote line.
pub open spec fn vote_line(text: Seq<char>) -> Option<(VoteSide, Seq<u64>)> {
    let ids = mentioned_ids(split_str(text, "<@"@).drop_first());
    if has_prefix(text, EMOTE_EVIDENCE@) {
        Some((VoteSide::Accept, ids))
    } else if has_prefix(text, EMOTE_NO_EVIDENCE@) {
        Some((VoteSide::Reject, ids))
    } else {
        None
    }
}

/// Reads a vote line: its emote gives the side, its mentions the voters.
pub fn parse_vote_line(text: &str) -> (r: Option<(VoteSide, Vec<u64>)>)
    ensures
        match vote_line(text@) {
            None => r is None,
            Some((side, ids)) => r is Some && r->Some_0.0 == side && r->Some_0.1@ == ids,
        },
{
    let v = chars_of(text);
    let side = if starts_with(&v, EMOTE_EVIDENCE) {
        VoteSide::Accept
    } else if starts_with(&v, EMOTE_NO_EVIDENCE) {
        VoteSide::Reject
    } else {
        return None;
    };
    let pieces = split_by(&v, "<@");
    let ghost ps = views(pieces@).drop_first();
    let mut ids: Vec<u64> = Vec::new();
    let mut i: usize = 1;
    while i < pieces.len()
        invariant
            1 <= i <= pieces.len(),
            ps == views(pieces@).drop_first(),
            ids@ == mentioned_ids(ps.take(i - 1)),
        decreases pieces.len() - i,
    {
        let head = split_chars(&pieces[i], '>');
        let parsed = parse_u64(&head[0]);
        proof {
            let t = ps.take(i as int);
            assert(t.drop_last() == ps.take(i - 1));
            assert(t.last() == pieces@[i as int]@);
        }
        match parsed {
            Some(x) => ids.push(x),
            None => {},
        }
        i = i + 1;
    }
    assert(ps.take(pieces.len() - 1) == ps);
    Some((side, ids))
}

/// `<@id>` for a Discord id.
pub open spec fn mention(id: u64) -> Seq<char> {
    "<@"@ + decimal(id as nat) + ">"@
}

/// The mentions of `ids`, comma separated.
pub open spec fn mentions_text(ids: Seq<u64>) -> Seq<char> {
    join(Seq::new(ids.len(), |i: int| mention(ids[i])), ", "@)
}

/// The mentions of `ids`, comma separated.
pub fn mentions(ids: &Vec<u64>) -> (r: String)
    ensures
        r@ == mentions_text(ids@),
{
    let ghost all = Seq::new(ids@.len(), |i: int| mention(ids@[i]));
    let mut out: Vec<char> = Vec::new();
    let mut i: usize = 0;
    while i < ids.len()
        invariant
            i <= ids.len(),
            all == Seq::new(ids@.len(), |i: int| mention(ids@[i])),
            out@ == join(all.take(i as int), ", "@),
        decreases ids.len() - i,
    {
        let ghost before = out@;
        if i > 0 {
            push_str(&mut out, ", ");
        }
        push_str(&mut out, "<@");
        let d = decimal_chars(ids[i]);
        push_chars(&mut out, &d);
        push_str(&mut out, ">");
        proof {
            let t = all.take(i + 1);
            assert(t.drop_last() == all.take(i as int));
            assert(t.last() == mention(ids@[i as int]));
            if i == 0 {
                assert(t.len() == 1);
            }
        }
        i = i + 1;
    }
    assert(all.take(ids.len() as int) == all);
    string_of(&out)
}

/// Whether a player has votes on both sides, which a moderator must resolve.
pub fn has_disagreement(accepts: &Vec<u64>, rejects: &Vec<u64>) -> (r: bool)
    ensures
        r == (accepts@.len() > 0 && rejects@.len() > 0),
{
    accepts.len() > 0 && rejects.len() > 0
}

/// The heading of one side's tally.
pub open spec fn tally_text(emote: Seq<char>, label: Seq<char>, votes: Seq<u64>, threshold: nat, disagreement: bool, other_count: nat) -> Seq<char> {
    let head = "### "@ + emote + " "@ + label;
    if disagreement {
        head + " \u{2014} "@ + mentions_text(votes)
    } else if votes.len() > 0 {
        head + " ["@ + decimal(votes.len()) + "/"@ + decimal(threshold) + "] \u{2014} "@ + mentions_text(votes)
    } else if other_count == 0 {
        head + " [0/"@ + decimal(threshold) + "]"@
    } else {
        head
    }
}

/// Writes the heading of one side's tally: with a disagreement just the
/// voters, otherwise the progress toward `threshold`.
pub fn vote_tally(emote: &str, label: &str, votes: &Vec<u64>, threshold: usize, disagreement: bool, other_count: usize) -> (r: String)
    ensures
        r@ == tally_text(emote@, label@, votes@, threshold as nat, disagreement, other_count as nat),
{
    let mut out: Vec<char> = Vec::new();
    push_str(&mut out, "### ");
    push_str(&mut out, emote);
    push_str(&mut out, " ");
    push_str(&mut out, label);
    if disagreement {
        push_str(&mut out, " \u{2014} ");
        let m = mentions(votes);
        push_str(&mut out, m.as_str());
    } else if votes.len() > 0 {
        push_str(&mut out, " [");
        let c = decimal_chars(votes.len() as u64);
        push_chars(&mut out, &c);
        push_str(&mut out, "/");
        let t = decimal_chars(threshold as u64);
        push_chars(&mut out, &t);
        push_str(&mut out, "] \u{2014} ");
        let m = mentions(votes);
        push_str(&mut out, m.as_str());
    } else if other_count == 0 {
        push_str(&mut out, " [0/");
        let t = decimal_chars(threshold as u64);
        push_chars(&mut out, &t);
        push_str(&mut out, "]");
    }
    string_of(&out)
}

/// The title of a review thread: the names of its players, comma separated.
pub fn thread_title(usernames: &Vec<String>) -> (r: String)
    ensures
        r@ == join(usernames.deep_view(), ", "@),
{
    join_strings(usernames, ", ")
}

/// The file name an evidence URL refers to: the rest of an `attachment://`
/// reference, else the last path segment without its query.
pub open spec fn attachment_filename(url: Seq<char>) -> Seq<char> {
    if has_prefix(url, "attachment://"@) {
        url.skip(13)
    } else {
        split_on(split_on(url, '/').last(), '?')[0]
    }
}

/// The file name an evidence URL refers to.
pub fn attachment_filename_from_url(url: &str) -> (r: String)
    ensures
        r@ == attachment_filename(url@),
{
    let v = chars_of(url);
    proof {
        reveal_strlit("attachment://");
    }
    if starts_with(&v, "attachment://") {
        let rest = suffix_from(&v, 13);
        return string_of(&rest);
    }
    let segs = split_chars(&v, '/');
    let last = &segs[segs.len() - 1];
    let parts = split_chars(last, '?');
    string_of(&parts[0])
}

/// The attachment id in a Discord CDN URL
/// `…/attachments/<channel>/<id>/<name>?…`.
pub open spec fn cdn_attachment_id(url: Seq<char>) -> Option<u64> {
    let a = split_str(url, "/attachments/"@);
    if a.len() < 2 {
        None
    } else {
        let b = split_on(a[1], '/');
        if b.len() < 2 {
            None
        } else {
            u64_in(split_on(b[1], '?')[0])
        }
    }
}

/// The attachment id in a Discord CDN URL.
pub fn attachment_id_from_cdn_url(url: &str) -> (r: Option<u64>)
    ensures
        r == cdn_attachment_id(url@),
{
    let v = chars_of(url);
    let a = split_by(&v, "/attachments/");
    if a.len() < 2 {
        return None;
    }
    let b = split_chars(&a[1], '/');
    if b.len() < 2 {
        return None;
    }
    let c = split_chars(&b[1], '?');
    parse_u64(&c[0])
}

} // verus!
