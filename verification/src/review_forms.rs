//! The forms that add a player to a submission: the ids that carry the
//! player and tag from one form to the next, and the replies.

use vstd::prelude::*;
use crate::review_votes::{is_review_tag, review_tag_allowed};
use crate::text::{
    chars_of, string_of, push_str, push_chars, decimal, decimal_chars, after_prefix,
    strip_prefix_chars, last_index, rfind_char, slice_chars, suffix_from, has_prefix,
    lemma_decimal_has_no, str_eq,
};

verus! {

/// The player and submitter a tag menu carries after its prefix
/// (`<player>:<submitter>`, split at the last `:`; without one, no player
/// and the whole rest as submitter).
pub open spec fn pending_tag_ids(rest: Seq<char>) -> (Seq<char>, Seq<char>) {
    match last_index(rest, ':') {
        Some(i) => (rest.take(i), rest.skip(i + 1)),
        None => (Seq::empty(), rest),
    }
}

/// The player, tag and submitter a reason form carries after its prefix
/// (`<player>:<tag>:<submitter>`, split at the last two `:`, so the player
/// may hold `:` itself).
pub open spec fn reason_form_ids(rest: Seq<char>) -> (Seq<char>, Seq<char>, Seq<char>) {
    match last_index(rest, ':') {
        None => (Seq::empty(), Seq::empty(), rest),
        Some(i) => {
            let head = rest.take(i);
            match last_index(head, ':') {
                Some(j) => (head.take(j), head.skip(j + 1), rest.skip(i + 1)),
                None => (Seq::empty(), head, rest.skip(i + 1)),
            }
        },
    }
}

fn rest_after(custom_id: &str, prefix: &str) -> (r: Vec<char>)
    ensures
        r@ == match after_prefix(custom_id@, prefix@) {
            Some(x) => x,
            None => Seq::<char>::empty(),
        },
{
    let v = chars_of(custom_id);
    match strip_prefix_chars(&v, prefix) {
        Some(x) => x,
        None => Vec::new(),
    }
}

/// The player and submitter of a tag menu `review_pending_tag:...`.
pub fn parse_pending_tag_ids(custom_id: &str) -> (r: (String, String))
    ensures
        (r.0@, r.1@) == pending_tag_ids(match after_prefix(custom_id@, "review_pending_tag:"@) {
            Some(x) => x,
            None => Seq::<char>::empty(),
        }),
{
    let rest = rest_after(custom_id, "review_pending_tag:");
    match rfind_char(&rest, ':') {
        Some(i) => {
            let head = slice_chars(&rest, 0, i);
            assert(head@ == rest@.take(i as int));
            let tail = suffix_from(&rest, i + 1);
            (string_of(&head), string_of(&tail))
        },
        None => (String::new(), string_of(&rest)),
    }
}

/// The player, tag and submitter of a reason form `review_addplayer_reason:...`.
pub fn parse_reason_form_ids(custom_id: &str) -> (r: (String, String, String))
    ensures
        (r.0@, r.1@, r.2@) == reason_form_ids(match after_prefix(custom_id@, "review_addplayer_reason:"@) {
            Some(x) => x,
            None => Seq::<char>::empty(),
        }),
{
    let rest = rest_after(custom_id, "review_addplayer_reason:");
    match rfind_char(&rest, ':') {
        None => (String::new(), String::new(), string_of(&rest)),
        Some(i) => {
            let head = slice_chars(&rest, 0, i);
            assert(head@ == rest@.take(i as int));
            let tail = suffix_from(&rest, i + 1);
            match rfind_char(&head, ':') {
                Some(j) => {
                    let player = slice_chars(&head, 0, j);
                    assert(player@ == head@.take(j as int));
                    let tag = suffix_from(&head, j + 1);
                    (string_of(&player), string_of(&tag), string_of(&tail))
                },
                None => (String::new(), string_of(&head), string_of(&tail)),
            }
        },
    }
}

/// The id of the reason form for adding `player` with `tag`.
pub open spec fn reason_form_text(player: Seq<char>, tag: Seq<char>, submitter: Seq<char>) -> Seq<char> {
    "review_addplayer_reason:"@ + player + ":"@ + tag + ":"@ + submitter
}

pub fn reason_form_id(player: &str, tag: &str, submitter: &str) -> (r: String)
    ensures
        r@ == reason_form_text(player@, tag@, submitter@),
{
    let mut out: Vec<char> = Vec::new();
    push_str(&mut out, "review_addplayer_reason:");
    push_str(&mut out, player);
    push_str(&mut out, ":");
    push_str(&mut out, tag);
    push_str(&mut out, ":");
    push_str(&mut out, submitter);
    string_of(&out)
}

proof fn lemma_last_colon_at(head: Seq<char>, tail: Seq<char>)
    requires
        !tail.contains(':'),
    ensures
        last_index(head + seq![':'] + tail, ':') == Some(head.len() as int),
{
    let t = head + seq![':'] + tail;
    assert(t[head.len() as int] == ':');
    let i = choose|i: int| 0 <= i < t.len() && t[i] == ':' && forall|j: int| i < j < t.len() ==> t[j] != ':';
    if i > head.len() {
        assert(t[i] == tail[i - head.len() - 1]);
    }
    if i < head.len() {
        assert(t[head.len() as int] != ':');
    }
}

/// A reason form's id reads back as the player, tag and submitter it was
/// made for, whatever the player's text, for tags and submitters without
/// `:`.
#[verifier::rlimit(50)]
#[verifier::spinoff_prover]
pub proof fn reason_form_reads_back(player: Seq<char>, tag: Seq<char>, submitter: Seq<char>)
    requires
        !tag.contains(':'),
        !submitter.contains(':'),
    ensures
        after_prefix(reason_form_text(player, tag, submitter), "review_addplayer_reason:"@) is Some,
        reason_form_ids(after_prefix(reason_form_text(player, tag, submitter), "review_addplayer_reason:"@)->0)
            == (player, tag, submitter),
{
    let p = "review_addplayer_reason:"@;
    let head = player + seq![':'] + tag;
    let rest = head + seq![':'] + submitter;
    let id = reason_form_text(player, tag, submitter);
    assert(id == p + rest) by {
        reveal_strlit(":");
        assert(":"@ == seq![':']);
        assert(id =~= p + rest);
    }
    assert(has_prefix(id, p)) by {
        assert(id.take(p.len() as int) =~= p);
    }
    assert(after_prefix(id, p) == Some(rest)) by {
        assert(id.skip(p.len() as int) =~= rest);
    }
    lemma_last_colon_at(head, submitter);
    lemma_last_colon_at(player, tag);
    assert(rest.take(head.len() as int) =~= head);
    assert(rest.skip(head.len() as int + 1) =~= submitter);
    assert(head.take(player.len() as int) =~= player);
    assert(head.skip(player.len() as int + 1) =~= tag);
}

/// The reply when a reason form names a tag that reviews do not handle.
pub open spec fn invalid_tag_text(tag: Seq<char>) -> Seq<char> {
    "Invalid tag type: `"@ + tag + "`"@
}

pub fn check_review_tag(tag: &str) -> (r: Option<String>)
    ensures
        is_review_tag(tag@) ==> r is None,
        !is_review_tag(tag@) ==> r is Some && r->Some_0@ == invalid_tag_text(tag@),
{
    if review_tag_allowed(tag) {
        None
    } else {
        let mut out: Vec<char> = Vec::new();
        push_str(&mut out, "Invalid tag type: `");
        push_str(&mut out, tag);
        push_str(&mut out, "`");
        Some(string_of(&out))
    }
}

/// The reply when no player goes by the name given.
pub open spec fn unknown_player_text(name: Seq<char>) -> Seq<char> {
    "Could not find a player named `"@ + name + "`"@
}

pub fn unknown_player(name: &str) -> (r: String)
    ensures
        r@ == unknown_player_text(name@),
{
    let mut out: Vec<char> = Vec::new();
    push_str(&mut out, "Could not find a player named `");
    push_str(&mut out, name);
    push_str(&mut out, "`");
    string_of(&out)
}

/// Refuses a player already in the submission (by uuid).
pub open spec fn duplicate_text(name: Seq<char>) -> Seq<char> {
    "`"@ + name + "` is already in this submission"@
}

pub fn check_not_listed(uuids: &Vec<String>, uuid: &str, name: &str) -> (r: Option<String>)
    ensures
        uuids.deep_view().contains(uuid@) ==> r is Some && r->Some_0@ == duplicate_text(name@),
        !uuids.deep_view().contains(uuid@) ==> r is None,
{
    let mut i: usize = 0;
    while i < uuids.len()
        invariant
            i <= uuids.len(),
            forall|j: int| 0 <= j < i ==> uuids.deep_view()[j] != uuid@,
        decreases uuids.len() - i,
    {
        if str_eq(uuids[i].as_str(), uuid) {
            assert(uuids.deep_view()[i as int] == uuid@);
            let mut out: Vec<char> = Vec::new();
            push_str(&mut out, "`");
            push_str(&mut out, name);
            push_str(&mut out, "` is already in this submission");
            return Some(string_of(&out));
        }
        i = i + 1;
    }
    None
}

} // verus!
