//! The text of the posts the staff log and the blacklist channel get when
//! tags, locks, keys and access levels change.

use vstd::prelude::*;
use crate::minecraft::{sanitize_reason, sanitized};
use crate::review_text::mention;
use crate::text::{decimal, decimal_chars, join, push_chars, push_str, string_of};

verus! {

/// The heading of a tag post: its emote and title, and the player's name.
pub open spec fn post_heading_spec(emote: Seq<char>, title: Seq<char>, name: Seq<char>) -> Seq<char> {
    "## "@ + emote + " "@ + title + "\nIGN - `"@ + name + "`\n"@
}

pub fn post_heading(emote: &str, title: &str, name: &str) -> (r: String)
    ensures
        r@ == post_heading_spec(emote@, title@, name@),
{
    let mut v: Vec<char> = Vec::new();
    push_str(&mut v, "## ");
    push_str(&mut v, emote);
    push_str(&mut v, " ");
    push_str(&mut v, title);
    push_str(&mut v, "\nIGN - `");
    push_str(&mut v, name);
    push_str(&mut v, "`\n");
    string_of(&v)
}

/// The uuid line of a post.
pub open spec fn uuid_line(dashed: Seq<char>) -> Seq<char> {
    "-# UUID: "@ + dashed
}

/// The footers of a removal post: the staff log names who removed the tag,
/// the public post shows only the uuid.
pub open spec fn removal_footers_spec(remover: Seq<char>, dashed: Seq<char>) -> (Seq<char>, Seq<char>) {
    ("-# Removed by `@"@ + remover + "`\n"@ + uuid_line(dashed), uuid_line(dashed))
}

pub fn removal_footers(remover: &str, dashed: &str) -> (r: (String, String))
    ensures
        (r.0@, r.1@) == removal_footers_spec(remover@, dashed@),
{
    let mut a: Vec<char> = Vec::new();
    push_str(&mut a, "-# Removed by `@");
    push_str(&mut a, remover);
    push_str(&mut a, "`\n");
    push_str(&mut a, "-# UUID: ");
    push_str(&mut a, dashed);
    let mut b: Vec<char> = Vec::new();
    push_str(&mut b, "-# UUID: ");
    push_str(&mut b, dashed);
    (string_of(&a), string_of(&b))
}

/// The texts of a change post: the previous block under the heading, the
/// new block, and who made the change.
pub open spec fn change_texts_spec(
    old_block: Seq<char>,
    new_block: Seq<char>,
    title: Seq<char>,
    changer: Seq<char>,
    dashed: Seq<char>,
) -> (Seq<char>, Seq<char>, Seq<char>) {
    (
        "Previous:\n"@ + old_block,
        "New:\n"@ + new_block,
        "-# "@ + title + " by `@"@ + changer + "`\n"@ + uuid_line(dashed),
    )
}

pub fn change_texts(old_block: &str, new_block: &str, title: &str, changer: &str, dashed: &str) -> (r: (String, String, String))
    ensures
        (r.0@, r.1@, r.2@) == change_texts_spec(old_block@, new_block@, title@, changer@, dashed@),
{
    let mut a: Vec<char> = Vec::new();
    push_str(&mut a, "Previous:\n");
    push_str(&mut a, old_block);
    let mut b: Vec<char> = Vec::new();
    push_str(&mut b, "New:\n");
    push_str(&mut b, new_block);
    let mut c: Vec<char> = Vec::new();
    push_str(&mut c, "-# ");
    push_str(&mut c, title);
    push_str(&mut c, " by `@");
    push_str(&mut c, changer);
    push_str(&mut c, "`\n");
    push_str(&mut c, "-# UUID: ");
    push_str(&mut c, dashed);
    (string_of(&a), string_of(&b), string_of(&c))
}

/// The lines of a lock post: the heading, the reason (escaped) where one is
/// given, and who locked or unlocked the player.
pub open spec fn lock_lines_spec(
    locked: bool,
    emote: Seq<char>,
    name: Seq<char>,
    reason: Option<Seq<char>>,
    changer: Seq<char>,
    dashed: Seq<char>,
) -> Seq<Seq<char>> {
    let title = if locked {
        "## "@ + emote + " Player Locked \u{1F512}\nIGN - `"@ + name + "`"@
    } else {
        "## "@ + emote + " Player Unlocked \u{1F513}\nIGN - `"@ + name + "`"@
    };
    let action = if locked { "Locked"@ } else { "Unlocked"@ };
    let last = "-# "@ + action + " by `@"@ + changer + "`\n"@ + uuid_line(dashed);
    match reason {
        Some(r) => seq![title, "> "@ + sanitized(r), last],
        None => seq![title, last],
    }
}

pub fn lock_lines(
    locked: bool,
    emote: &str,
    name: &str,
    reason: Option<&str>,
    changer: &str,
    dashed: &str,
) -> (r: Vec<String>)
    ensures
        r.deep_view() == lock_lines_spec(locked, emote@, name@, match reason {
            Some(x) => Some(x@),
            None => None,
        }, changer@, dashed@),
{
    let mut t: Vec<char> = Vec::new();
    push_str(&mut t, "## ");
    push_str(&mut t, emote);
    if locked {
        push_str(&mut t, " Player Locked \u{1F512}\nIGN - `");
    } else {
        push_str(&mut t, " Player Unlocked \u{1F513}\nIGN - `");
    }
    push_str(&mut t, name);
    push_str(&mut t, "`");
    let title = string_of(&t);
    let mut l: Vec<char> = Vec::new();
    push_str(&mut l, "-# ");
    push_str(&mut l, if locked { "Locked" } else { "Unlocked" });
    push_str(&mut l, " by `@");
    push_str(&mut l, changer);
    push_str(&mut l, "`\n");
    push_str(&mut l, "-# UUID: ");
    push_str(&mut l, dashed);
    let last = string_of(&l);
    let ghost want = lock_lines_spec(locked, emote@, name@, match reason {
        Some(x) => Some(x@),
        None => None,
    }, changer@, dashed@);
    let mut out: Vec<String> = Vec::new();
    out.push(title);
    match reason {
        Some(x) => {
            let mut q: Vec<char> = Vec::new();
            push_str(&mut q, "> ");
            let s = sanitize_reason(x);
            push_str(&mut q, s.as_str());
            let quoted = string_of(&q);
            assert(want.len() == 3);
            assert(title@ == want[0]);
            assert(quoted@ == want[1]);
            assert(last@ == want[2]);
            out.push(quoted);
            out.push(last);
            assert(out.deep_view() =~= want);
        },
        None => {
            assert(want.len() == 2);
            assert(title@ == want[0]);
            assert(last@ == want[1]);
            out.push(last);
            assert(out.deep_view() =~= want);
        },
    }
    out
}

/// The heading of a post about a member: its title and the member's mention.
pub open spec fn member_heading(title: Seq<char>, member: u64) -> Seq<char> {
    "## "@ + title + "\n"@ + mention(member)
}

/// The line naming who made a change.
pub open spec fn changed_by_line(action: Seq<char>, invoker: Seq<char>) -> Seq<char> {
    "-# "@ + action + " by `@"@ + invoker + "`"@
}

fn heading_of(title: &str, member: u64) -> (r: String)
    ensures
        r@ == member_heading(title@, member),
{
    let mut v: Vec<char> = Vec::new();
    push_str(&mut v, "## ");
    push_str(&mut v, title);
    push_str(&mut v, "\n");
    push_str(&mut v, "<@");
    let d = decimal_chars(member);
    push_chars(&mut v, &d);
    push_str(&mut v, ">");
    proof {
        reveal_strlit("<@");
        reveal_strlit(">");
    }
    string_of(&v)
}

fn changed_by(action: &str, invoker: &str) -> (r: String)
    ensures
        r@ == changed_by_line(action@, invoker@),
{
    let mut v: Vec<char> = Vec::new();
    push_str(&mut v, "-# ");
    push_str(&mut v, action);
    push_str(&mut v, " by `@");
    push_str(&mut v, invoker);
    push_str(&mut v, "`");
    string_of(&v)
}

/// The texts of an access change: the heading, the ranks before and after,
/// and who changed it.
pub fn access_change_texts(member: u64, old_label: &str, new_label: &str, invoker: &str) -> (r: (String, String, String))
    ensures
        r.0@ == member_heading("Access Level Changed"@, member),
        r.1@ == old_label@ + " \u{2192} "@ + new_label@,
        r.2@ == changed_by_line("Changed"@, invoker@),
{
    let mut v: Vec<char> = Vec::new();
    push_str(&mut v, old_label);
    push_str(&mut v, " \u{2192} ");
    push_str(&mut v, new_label);
    (heading_of("Access Level Changed", member), string_of(&v), changed_by("Changed", invoker))
}

/// The texts of a post about a member's tagging being turned off or on.
pub fn tagging_toggle_texts(member: u64, disabled: bool, invoker: &str) -> (r: (String, String))
    ensures
        r.0@ == member_heading(if disabled { "Tagging Disabled"@ } else { "Tagging Enabled"@ }, member),
        r.1@ == changed_by_line("Changed"@, invoker@),
{
    let title = if disabled { "Tagging Disabled" } else { "Tagging Enabled" };
    (heading_of(title, member), changed_by("Changed", invoker))
}

/// The texts of a post about a member's API key being locked or unlocked.
pub fn key_change_texts(member: u64, locked: bool, invoker: &str) -> (r: (String, String))
    ensures
        r.0@ == member_heading(if locked { "API Key Locked \u{1F512}"@ } else { "API Key Unlocked \u{1F513}"@ }, member),
        r.1@ == changed_by_line(if locked { "Locked"@ } else { "Unlocked"@ }, invoker@),
{
    let (title, action) = if locked {
        ("API Key Locked \u{1F512}", "Locked")
    } else {
        ("API Key Unlocked \u{1F513}", "Unlocked")
    };
    (heading_of(title, member), changed_by(action, invoker))
}

/// The mentions of the guild members watching for the tag, space separated;
/// none where nobody watches.
pub fn watcher_pings(ids: &Vec<u64>) -> (r: Option<String>)
    ensures
        ids@.len() == 0 <==> r is None,
        r is Some ==> r->0@ == join(Seq::new(ids@.len(), |i: int| mention(ids@[i])), " "@),
{
    if ids.len() == 0 {
        return None;
    }
    let ghost want = Seq::new(ids@.len(), |i: int| mention(ids@[i]));
    let mut out: Vec<char> = Vec::new();
    let mut i: usize = 0;
    while i < ids.len()
        invariant
            i <= ids.len(),
            want == Seq::new(ids@.len(), |i: int| mention(ids@[i])),
            out@ == join(want.take(i as int), " "@),
        decreases ids.len() - i,
    {
        if i > 0 {
            push_str(&mut out, " ");
        }
        push_str(&mut out, "<@");
        let d = decimal_chars(ids[i]);
        push_chars(&mut out, &d);
        push_str(&mut out, ">");
        proof {
            reveal_strlit("<@");
            reveal_strlit(">");
            let t = want.take(i + 1);
            assert(t.drop_last() =~= want.take(i as int));
            assert(t.last() == mention(ids@[i as int]));
            if i == 0 {
                assert(t.len() == 1);
            }
        }
        i = i + 1;
    }
    assert(want.take(ids@.len() as int) =~= want);
    Some(string_of(&out))
}

} // verus!
