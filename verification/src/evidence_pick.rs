//! Adding the media of a chat message to an evidence post: the id that
//! carries the source message, the picker's text, and what is done for the
//! state the evidence thread is in.

use vstd::prelude::*;
use crate::access::{AccessRank, is_review_staff};
use crate::evidence_text::is_media;
use crate::text::{
    chars_of, string_of, push_str, push_chars, decimal, decimal_chars, has_prefix, after_prefix,
    strip_prefix_chars, first_index, find_char, slice_chars, suffix_from, parse_u64, u64_in,
    lemma_decimal_reads_back, lemma_decimal_has_no, utf8_width, byte_cut, char_width,
    lemma_width_grows, lemma_cut_is,
};

verus! {

/// The channel and message a picker's id carries after `prefix`:
/// `<channel>:<message>`, both numbers.
pub open spec fn source_of(custom_id: Seq<char>, prefix: Seq<char>) -> Option<(u64, u64)> {
    match after_prefix(custom_id, prefix) {
        Some(rest) => match first_index(rest, ':') {
            Some(i) => match (u64_in(rest.take(i)), u64_in(rest.skip(i + 1))) {
                (Some(c), Some(m)) => Some((c, m)),
                _ => None,
            },
            None => None,
        },
        None => None,
    }
}

pub fn parse_source(custom_id: &str, prefix: &str) -> (r: Option<(u64, u64)>)
    ensures
        r == source_of(custom_id@, prefix@),
{
    let v = chars_of(custom_id);
    let rest = match strip_prefix_chars(&v, prefix) {
        Some(r) => r,
        None => return None,
    };
    let i = match find_char(&rest, ':') {
        Some(i) => i,
        None => return None,
    };
    assert(i < rest@.len());
    assert(rest@.len() == rest.len());
    let head = slice_chars(&rest, 0, i);
    assert(head@ == rest@.take(i as int));
    let tail = suffix_from(&rest, i + 1);
    let c = parse_u64(&head);
    let m = parse_u64(&tail);
    match (c, m) {
        (Some(c), Some(m)) => Some((c, m)),
        _ => None,
    }
}

/// The source part of a picker's ids: `<channel>:<message>`.
pub open spec fn source_text(channel: u64, message: u64) -> Seq<char> {
    decimal(channel as nat) + ":"@ + decimal(message as nat)
}

pub fn source_id(channel: u64, message: u64) -> (r: String)
    ensures
        r@ == source_text(channel, message),
{
    let mut out: Vec<char> = Vec::new();
    let c = decimal_chars(channel);
    push_chars(&mut out, &c);
    push_str(&mut out, ":");
    let m = decimal_chars(message);
    push_chars(&mut out, &m);
    string_of(&out)
}

proof fn lemma_source_of(id: Seq<char>, prefix: Seq<char>, rest: Seq<char>, i: int, c: u64, m: u64)
    requires
        has_prefix(id, prefix),
        id.skip(prefix.len() as int) == rest,
        first_index(rest, ':') == Some(i),
        u64_in(rest.take(i)) == Some(c),
        u64_in(rest.skip(i + 1)) == Some(m),
    ensures
        source_of(id, prefix) == Some((c, m)),
{
}

/// A picker's id reads back as the channel and message it was made for.
#[verifier::rlimit(40)]
#[verifier::spinoff_prover]
pub proof fn source_reads_back(prefix: Seq<char>, channel: u64, message: u64)
    ensures
        source_of(prefix + source_text(channel, message), prefix) == Some((channel, message)),
{
    let dc = decimal(channel as nat);
    let dm = decimal(message as nat);
    let rest = dc + seq![':'] + dm;
    let id = prefix + source_text(channel, message);
    assert(source_text(channel, message) == rest) by {
        reveal_strlit(":");
        assert(":"@ == seq![':']);
        assert(source_text(channel, message) =~= rest);
    }
    assert(has_prefix(id, prefix)) by {
        assert(id.take(prefix.len() as int) =~= prefix);
    }
    assert(id.skip(prefix.len() as int) == rest) by {
        assert(id.skip(prefix.len() as int) =~= rest);
    }
    assert(first_index(rest, ':') == Some(dc.len() as int)) by {
        lemma_decimal_has_no(channel as nat, ':');
        assert(rest[dc.len() as int] == ':');
        let k = choose|k: int| 0 <= k < rest.len() && rest[k] == ':' && forall|j: int| 0 <= j < k ==> rest[j] != ':';
        if k < dc.len() {
            assert(rest[k] == dc[k]);
        }
        if k > dc.len() {
            assert(rest[dc.len() as int] != ':');
        }
    }
    assert(rest.take(dc.len() as int) == dc) by {
        assert(rest.take(dc.len() as int) =~= dc);
    }
    assert(rest.skip(dc.len() as int + 1) == dm) by {
        assert(rest.skip(dc.len() as int + 1) =~= dm);
    }
    lemma_decimal_reads_back(channel as nat);
    lemma_decimal_reads_back(message as nat);
    lemma_source_of(id, prefix, rest, dc.len() as int, channel, message);
}

/// The line that counts a message's attachments.
pub open spec fn count_text(count: nat) -> Seq<char> {
    "-# "@ + decimal(count) + (if count == 1 { " attachment"@ } else { " attachments"@ }) + " from that message"@
}

pub fn attachment_count_line(count: usize) -> (r: String)
    ensures
        r@ == count_text(count as nat),
{
    let mut out: Vec<char> = Vec::new();
    push_str(&mut out, "-# ");
    let d = decimal_chars(count as u64);
    push_chars(&mut out, &d);
    if count == 1 {
        push_str(&mut out, " attachment");
    } else {
        push_str(&mut out, " attachments");
    }
    push_str(&mut out, " from that message");
    string_of(&out)
}

/// The reply once media was added to an evidence post.
pub open spec fn added_text(username: Seq<char>, added: nat, thread: u64, notes: Seq<char>) -> Seq<char> {
    "## Evidence Added\nIGN - `"@ + username + "`\nAdded "@ + decimal(added)
        + (if added == 1 { " attachment"@ } else { " attachments"@ }) + " to <#"@ + decimal(thread as nat) + ">"@
        + notes
}

pub fn evidence_added_body(username: &str, added: usize, thread: u64, notes: &str) -> (r: String)
    ensures
        r@ == added_text(username@, added as nat, thread, notes@),
{
    let mut out: Vec<char> = Vec::new();
    push_str(&mut out, "## Evidence Added\nIGN - `");
    push_str(&mut out, username);
    push_str(&mut out, "`\nAdded ");
    let d = decimal_chars(added as u64);
    push_chars(&mut out, &d);
    if added == 1 {
        push_str(&mut out, " attachment");
    } else {
        push_str(&mut out, " attachments");
    }
    push_str(&mut out, " to <#");
    let t = decimal_chars(thread);
    push_chars(&mut out, &t);
    push_str(&mut out, ">");
    push_str(&mut out, notes);
    string_of(&out)
}

/// The state of an evidence thread.
#[derive(Clone, Copy, Debug, PartialEq, Eq, Structural)]
pub enum ThreadState {
    Missing,
    Closed,
    IdleArchived,
    Open,
}

/// What adding media does for a thread's state.
#[derive(Clone, Copy, Debug)]
pub enum PickAction {
    /// The thread cannot take media; the reason is shown.
    Refuse(&'static str),
    /// The thread was archived for inactivity: reopen it first.
    Reopen,
    /// Add the media.
    Proceed,
}

pub fn pick_action(state: ThreadState) -> (r: PickAction)
    ensures
        match state {
            ThreadState::Missing => r is Refuse && r->Refuse_0@ == "That evidence post no longer exists"@,
            ThreadState::Closed => r is Refuse
                && r->Refuse_0@ == "That evidence post is archived. Restore it before adding evidence."@,
            ThreadState::IdleArchived => r is Reopen,
            ThreadState::Open => r is Proceed,
        },
{
    match state {
        ThreadState::Missing => PickAction::Refuse("That evidence post no longer exists"),
        ThreadState::Closed => PickAction::Refuse("That evidence post is archived. Restore it before adding evidence."),
        ThreadState::IdleArchived => PickAction::Reopen,
        ThreadState::Open => PickAction::Proceed,
    }
}

/// The hint under a post in the picker: the first eight bytes of the uuid
/// (all of it when shorter) and an ellipsis.
pub open spec fn uuid_hint_text(uuid: Seq<char>) -> Seq<char> {
    if utf8_width(uuid) <= 8 {
        uuid + "\u{2026}"@
    } else {
        uuid.take(byte_cut(uuid, 8)->0) + "\u{2026}"@
    }
}

/// Whether the first eight bytes of `uuid` end on a character boundary, as
/// slicing there requires.
pub open spec fn hint_cut_ok(uuid: Seq<char>) -> bool {
    utf8_width(uuid) <= 8 || byte_cut(uuid, 8) is Some
}

pub fn uuid_hint(uuid: &str) -> (r: String)
    requires
        hint_cut_ok(uuid@),
    ensures
        r@ == uuid_hint_text(uuid@),
{
    let s = chars_of(uuid);
    let mut w: usize = 0;
    let mut i: usize = 0;
    assert(s@.take(0) == Seq::<char>::empty());
    while i < s.len() && w < 8
        invariant
            i <= s.len(),
            w == utf8_width(s@.take(i as int)),
            w <= 11,
            forall|k: int| 0 <= k < i ==> utf8_width(#[trigger] s@.take(k)) < 8,
        decreases s.len() - i,
    {
        assert(s@.take(i + 1).drop_last() == s@.take(i as int));
        w = w + char_width(s[i]);
        i = i + 1;
    }
    let mut out: Vec<char> = Vec::new();
    proof {
        assert(s@.take(s@.len() as int) == s@);
        if i < s.len() {
            lemma_width_grows(s@, i as int, s@.len() as int);
        }
    }
    if w == 8 {
        proof {
            lemma_cut_is(s@, 8, i as int);
            if utf8_width(s@) <= 8 {
                assert(i == s.len());
            }
        }
        let head = slice_chars(&s, 0, i);
        assert(head@ == s@.take(i as int));
        push_chars(&mut out, &head);
    } else if w < 8 {
        assert(i == s.len());
        push_chars(&mut out, &s);
    } else {
        proof {
            let c = byte_cut(s@, 8)->0;
            assert(utf8_width(s@.take(c)) == 8);
            if c < i {
                assert(utf8_width(s@.take(c)) < 8);
            } else if c > i {
                lemma_width_grows(s@, i as int, c);
            }
        }
        push_chars(&mut out, &s);
    }
    push_str(&mut out, "\u{2026}");
    string_of(&out)
}


/// Whether a file name is an image or video by its extension.
pub open spec fn media_name(filename: Seq<char>) -> bool {
    crate::evidence_text::is_media_extension(crate::text::ascii_lowercase(crate::text::split_on(filename, '.').last()))
}

/// Why a pick of a message's media for an evidence post is refused, checked
/// in this order: the member is not staff (Helper and above); no post is
/// known for the player; the message cannot be read; none of its
/// attachments, named by `filenames`, is an image or video.
pub fn pick_refusal(rank: AccessRank, post_known: bool, message_found: bool, filenames: &Vec<String>) -> (r: Option<&'static str>)
    ensures
        rank.level() < AccessRank::Helper.level() ==> r == Some("Only staff can add evidence"),
        rank.level() >= AccessRank::Helper.level() && !post_known ==> r == Some("That evidence post no longer exists"),
        rank.level() >= AccessRank::Helper.level() && post_known && !message_found
            ==> r == Some("That message is no longer available"),
        rank.level() >= AccessRank::Helper.level() && post_known && message_found ==>
            if exists|i: int| 0 <= i < filenames@.len() && media_name(#[trigger] filenames@[i]@) {
                r is None
            } else {
                r == Some("That message has no image or video attachments")
            },
{
    if !is_review_staff(rank) {
        return Some("Only staff can add evidence");
    }
    if !post_known {
        return Some("That evidence post no longer exists");
    }
    if !message_found {
        return Some("That message is no longer available");
    }
    let mut i: usize = 0;
    while i < filenames.len()
        invariant
            i <= filenames.len(),
            rank.level() >= AccessRank::Helper.level(),
            post_known,
            message_found,
            forall|j: int| 0 <= j < i ==> !media_name(#[trigger] filenames@[j]@),
        decreases filenames.len() - i,
    {
        if is_media(filenames[i].as_str()) {
            assert(media_name(filenames@[i as int]@));
            return None;
        }
        i = i + 1;
    }
    Some("That message has no image or video attachments")
}

} // verus!
