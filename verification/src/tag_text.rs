//! The text of tag views and tag log posts, the rules for adding a tag,
//! and the ids of the buttons around them.

use vstd::prelude::*;
use crate::access::AccessRank;
use crate::minecraft::{sanitized, sanitize_reason};
use crate::review_text::{EMOTE_EVIDENCE, EMOTE_NO_EVIDENCE};
use crate::text::{
    chars_of, string_of, str_eq, push_str, push_chars, signed_decimal, i64_decimal_chars, join,
    join_strings, after_prefix, strip_prefix_chars, last_index, rfind_char, split_on, split_chars,
    views, slice_chars, suffix_from, parsed_int, parse_i64, parse_usize, usize_or_zero, decimal,
    lemma_decimal_reads_back, lemma_decimal_has_no, has_prefix,
};

verus! {

/// The line under a tag that says when, and by whom unless hidden, it was added.
pub open spec fn added_text(ts: int, author: Option<Seq<char>>) -> Seq<char> {
    match author {
        Some(name) => "> -# **\\- Added by `@"@ + name + "` <t:"@ + signed_decimal(ts) + ":R>**"@,
        None => "> -# **\\- <t:"@ + signed_decimal(ts) + ":R>**"@,
    }
}

/// The added-by line of a tag added at `ts` by the author named `author`
/// (`None` where the tag has no author); a hidden author's name is left out.
pub fn format_added_line(ts: i64, author: Option<&str>, hide_username: bool) -> (r: String)
    ensures
        r@ == added_text(ts as int, match author {
            Some(a) => if hide_username { None } else { Some(a@) },
            None => None,
        }),
{
    let mut out: Vec<char> = Vec::new();
    let t = i64_decimal_chars(ts);
    let shown = if hide_username { None } else { author };
    match shown {
        Some(name) => {
            push_str(&mut out, "> -# **\\- Added by `@");
            push_str(&mut out, name);
            push_str(&mut out, "` <t:");
        },
        None => {
            push_str(&mut out, "> -# **\\- <t:");
        },
    }
    push_chars(&mut out, &t);
    push_str(&mut out, ":R>**");
    string_of(&out)
}

/// A user name in code quotes with an `@`.
pub open spec fn quoted_user(name: Seq<char>) -> Seq<char> {
    "`@"@ + name + "`"@
}

/// The line that names the staff who settled a tag.
pub open spec fn reviewed_text(names: Seq<Seq<char>>) -> Seq<char> {
    "> -# **\\- Reviewed by "@ + join(Seq::new(names.len(), |i: int| quoted_user(names[i])), ", "@)
        + "**"@
}

/// The reviewed-by line naming the staff `names`; none where no one is named.
pub fn format_reviewed_line(names: &Vec<String>) -> (r: Option<String>)
    ensures
        names.len() == 0 ==> r is None,
        names.len() > 0 ==> r is Some && r->Some_0@ == reviewed_text(names.deep_view()),
{
    if names.len() == 0 {
        return None;
    }
    Some(reviewed_line_of(names))
}

fn reviewed_line_of(names: &Vec<String>) -> (r: String)
    ensures
        r@ == reviewed_text(names.deep_view()),
{
    let ghost all = Seq::new(names.deep_view().len(), |i: int| quoted_user(names.deep_view()[i]));
    let mut quoted: Vec<String> = Vec::new();
    let mut i: usize = 0;
    while i < names.len()
        invariant
            i <= names.len(),
            all == Seq::new(names.deep_view().len(), |i: int| quoted_user(names.deep_view()[i])),
            quoted.deep_view() == all.take(i as int),
        decreases names.len() - i,
    {
        let mut q: Vec<char> = Vec::new();
        push_str(&mut q, "`@");
        push_str(&mut q, names[i].as_str());
        push_str(&mut q, "`");
        let qs = string_of(&q);
        let ghost before = quoted.deep_view();
        quoted.push(qs);
        assert(quoted.deep_view() =~= before.push(quoted_user(names.deep_view()[i as int])));
        assert(all.take(i + 1) =~= all.take(i as int).push(all[i as int]));
        i = i + 1;
    }
    assert(all.take(names.len() as int) == all);
    let joined = join_strings(&quoted, ", ");
    let mut out: Vec<char> = Vec::new();
    push_str(&mut out, "> -# **\\- Reviewed by ");
    push_str(&mut out, joined.as_str());
    push_str(&mut out, "**");
    string_of(&out)
}

/// The mark after a confirmed cheater's tag: whether evidence is on file.
pub open spec fn indicator_text(tag_type: Seq<char>, has_evidence: bool) -> Seq<char> {
    if tag_type != "confirmed_cheater"@ {
        Seq::empty()
    } else if has_evidence {
        " "@ + EMOTE_EVIDENCE@
    } else {
        " "@ + EMOTE_NO_EVIDENCE@
    }
}

pub fn evidence_indicator(tag_type: &str, has_evidence: bool) -> (r: String)
    ensures
        r@ == indicator_text(tag_type@, has_evidence),
{
    if !str_eq(tag_type, "confirmed_cheater") {
        return String::new();
    }
    let mut out: Vec<char> = Vec::new();
    push_str(&mut out, " ");
    if has_evidence {
        push_str(&mut out, EMOTE_EVIDENCE);
    } else {
        push_str(&mut out, EMOTE_NO_EVIDENCE);
    }
    string_of(&out)
}

/// The block that shows one tag: its heading (struck through once the tag
/// is gone), its detail as a quote, and the added and settled lines.
pub open spec fn tag_block_text(
    emote: Seq<char>,
    display: Seq<char>,
    detail: Seq<char>,
    indicator: Seq<char>,
    added: Option<Seq<char>>,
    reviewed: Option<Seq<char>>,
    strikethrough: bool,
) -> Seq<char> {
    let head = if strikethrough {
        "~~**"@ + emote + " "@ + display + "**~~"@ + indicator
    } else {
        "**"@ + emote + " "@ + display + "**"@ + indicator
    };
    let a = match added {
        Some(l) => "\n"@ + l,
        None => Seq::empty(),
    };
    let r = match reviewed {
        Some(l) => "\n"@ + l,
        None => Seq::empty(),
    };
    head + "\n> "@ + detail + a + r
}

pub fn format_tag_block(
    emote: &str,
    display: &str,
    detail: &str,
    indicator: &str,
    added: Option<&str>,
    reviewed: Option<&str>,
    strikethrough: bool,
) -> (r: String)
    ensures
        r@ == tag_block_text(
            emote@,
            display@,
            detail@,
            indicator@,
            match added {
                Some(l) => Some(l@),
                None => None,
            },
            match reviewed {
                Some(l) => Some(l@),
                None => None,
            },
            strikethrough,
        ),
{
    let mut out: Vec<char> = Vec::new();
    if strikethrough {
        push_str(&mut out, "~~**");
    } else {
        push_str(&mut out, "**");
    }
    push_str(&mut out, emote);
    push_str(&mut out, " ");
    push_str(&mut out, display);
    if strikethrough {
        push_str(&mut out, "**~~");
    } else {
        push_str(&mut out, "**");
    }
    push_str(&mut out, indicator);
    push_str(&mut out, "\n> ");
    push_str(&mut out, detail);
    match added {
        Some(l) => {
            push_str(&mut out, "\n");
            push_str(&mut out, l);
        },
        None => {},
    }
    match reviewed {
        Some(l) => {
            push_str(&mut out, "\n");
            push_str(&mut out, l);
        },
        None => {},
    }
    string_of(&out)
}

/// The footer of a tag post: the dashed uuid and links to the review and
/// the evidence, where there are any.
pub open spec fn footer_text(dashed_uuid: Seq<char>, review_url: Option<Seq<char>>, evidence_url: Option<Seq<char>>) -> Seq<char> {
    let r = match review_url {
        Some(u) => " | [Review]("@ + u + ")"@,
        None => Seq::empty(),
    };
    let e = match evidence_url {
        Some(u) => " | [Evidence]("@ + u + ")"@,
        None => Seq::empty(),
    };
    "-# UUID: "@ + dashed_uuid + r + e
}

pub fn tag_footer(dashed_uuid: &str, review_url: Option<&str>, evidence_url: Option<&str>) -> (r: String)
    ensures
        r@ == footer_text(
            dashed_uuid@,
            match review_url {
                Some(u) => Some(u@),
                None => None,
            },
            match evidence_url {
                Some(u) => Some(u@),
                None => None,
            },
        ),
{
    let mut out: Vec<char> = Vec::new();
    push_str(&mut out, "-# UUID: ");
    push_str(&mut out, dashed_uuid);
    match review_url {
        Some(u) => {
            push_str(&mut out, " | [Review](");
            push_str(&mut out, u);
            push_str(&mut out, ")");
        },
        None => {},
    }
    match evidence_url {
        Some(u) => {
            push_str(&mut out, " | [Evidence](");
            push_str(&mut out, u);
            push_str(&mut out, ")");
        },
        None => {},
    }
    string_of(&out)
}

/// The detail shown under a tag: the expiry of a replays-needed tag, the
/// escaped reason of any other.
pub open spec fn detail_text(tag_type: Seq<char>, reason: Option<Seq<char>>, expires_at: Option<int>) -> Seq<char> {
    if tag_type == "replays_needed"@ {
        match expires_at {
            Some(ts) => "Expires <t:"@ + signed_decimal(ts) + ":R>"@,
            None => "No expiration"@,
        }
    } else {
        match reason {
            Some(r) => sanitized(r),
            None => Seq::empty(),
        }
    }
}

pub fn format_tag_detail(tag_type: Option<&str>, reason: Option<&str>, expires_at: Option<i64>) -> (r: String)
    ensures
        r@ == detail_text(
            match tag_type {
                Some(t) => t@,
                None => Seq::empty(),
            },
            match reason {
                Some(x) => Some(x@),
                None => None,
            },
            match expires_at {
                Some(ts) => Some(ts as int),
                None => None,
            },
        ),
{
    let is_replays = match tag_type {
        Some(t) => str_eq(t, "replays_needed"),
        None => {
            proof {
                reveal_strlit("replays_needed");
            }
            false
        },
    };
    if is_replays {
        return match expires_at {
            Some(ts) => {
                let mut out: Vec<char> = Vec::new();
                push_str(&mut out, "Expires <t:");
                let d = i64_decimal_chars(ts);
                push_chars(&mut out, &d);
                push_str(&mut out, ":R>");
                string_of(&out)
            },
            None => {
                let v = chars_of("No expiration");
                string_of(&v)
            },
        };
    }
    match reason {
        Some(x) => sanitize_reason(x),
        None => {
            let r = sanitize_reason("");
            proof {
                reveal_strlit("");
            }
            r
        },
    }
}

/// Why a tag operation was refused.
#[derive(Clone, Copy, Debug, PartialEq, Eq, Structural)]
pub enum TagOpError {
    PlayerLocked,
    InsufficientPermissions,
    InvalidTagType,
    TagAlreadyExists,
    PriorityConflict,
    TagNotFound,
    EditWindowExpired,
    ModeratorRequired,
    Database,
}

/// The message shown for a refused tag operation.
pub open spec fn op_error_text(e: TagOpError) -> Seq<char> {
    match e {
        TagOpError::PlayerLocked => "This player's tags are locked"@,
        TagOpError::InsufficientPermissions => "You don't have permission to do this"@,
        TagOpError::InvalidTagType => "Invalid tag type"@,
        TagOpError::TagAlreadyExists => "Player already has this tag type"@,
        TagOpError::PriorityConflict => "Conflicts with an existing tag"@,
        TagOpError::TagNotFound => "Tag not found or already removed"@,
        TagOpError::EditWindowExpired => "The 30-minute edit window has passed"@,
        TagOpError::ModeratorRequired => "Only moderators can do this"@,
        TagOpError::Database => "A database error occurred"@,
    }
}

pub fn op_error_message(e: TagOpError) -> (r: &'static str)
    ensures
        r@ == op_error_text(e),
{
    match e {
        TagOpError::PlayerLocked => "This player's tags are locked",
        TagOpError::InsufficientPermissions => "You don't have permission to do this",
        TagOpError::InvalidTagType => "Invalid tag type",
        TagOpError::TagAlreadyExists => "Player already has this tag type",
        TagOpError::PriorityConflict => "Conflicts with an existing tag",
        TagOpError::TagNotFound => "Tag not found or already removed",
        TagOpError::EditWindowExpired => "The 30-minute edit window has passed",
        TagOpError::ModeratorRequired => "Only moderators can do this",
        TagOpError::Database => "A database error occurred",
    }
}

/// Whether a tag added by a member must first be confirmed by the member
/// (`Ok(true)`), can be added at once (`Ok(false)`), or is refused, and why.
/// Refusals, in order: a member below helper whose tagging is disabled; a
/// confirmed cheater tag (only reviews give it); a replays-needed tag (the
/// watch command gives it); an empty reason. Members of the default rank
/// confirm every tag but a sniper tag.
pub open spec fn add_check(rank: AccessRank, tagging_disabled: bool, tag_type: Seq<char>, reason: Seq<char>) -> Result<bool, Seq<char>> {
    if rank.level() < AccessRank::Helper.level() && tagging_disabled {
        Err("Your tagging ability has been disabled"@)
    } else if tag_type == "confirmed_cheater"@ {
        Err("Confirmed cheater tags can only be applied through the review system"@)
    } else if tag_type == "replays_needed"@ {
        Err("Use the /watch command to add replays needed tags"@)
    } else if reason.len() == 0 {
        Err("A reason is required for this tag type"@)
    } else {
        Ok(rank == AccessRank::Default && tag_type != "sniper"@)
    }
}

pub fn tag_add_check(rank: AccessRank, tagging_disabled: bool, tag_type: &str, reason: &str) -> (r: Result<bool, &'static str>)
    ensures
        match add_check(rank, tagging_disabled, tag_type@, reason@) {
            Ok(b) => r == Ok::<bool, &'static str>(b),
            Err(m) => r is Err && r->Err_0@ == m,
        },
        r is Ok ==> (r->Ok_0 <==> (rank == AccessRank::Default && tag_type@ != "sniper"@)),
{
    if !rank.at_least(AccessRank::Helper) && tagging_disabled {
        return Err("Your tagging ability has been disabled");
    }
    if str_eq(tag_type, "confirmed_cheater") {
        return Err("Confirmed cheater tags can only be applied through the review system");
    }
    if str_eq(tag_type, "replays_needed") {
        return Err("Use the /watch command to add replays needed tags");
    }
    let rv = chars_of(reason);
    if rv.len() == 0 {
        return Err("A reason is required for this tag type");
    }
    let is_default = match rank {
        AccessRank::Default => true,
        _ => false,
    };
    Ok(is_default && !str_eq(tag_type, "sniper"))
}

/// The hint under a freshly added tag: members may remove it within the
/// edit window, others may also overwrite it.
pub open spec fn add_hint_text(rank: AccessRank) -> Seq<char> {
    if rank.level() >= AccessRank::Member.level() {
        "-# You can remove this tag within 30 minutes using /tag remove."@
    } else {
        "-# You can overwrite or remove this tag within 30 minutes using /tag add and /tag remove."@
    }
}

pub fn add_hint(rank: AccessRank) -> (r: &'static str)
    ensures
        r@ == add_hint_text(rank),
{
    if rank.at_least(AccessRank::Member) {
        "-# You can remove this tag within 30 minutes using /tag remove."
    } else {
        "-# You can overwrite or remove this tag within 30 minutes using /tag add and /tag remove."
    }
}

/// The uuid a management button carries: the second `:`-separated field.
pub open spec fn manage_uuid(custom_id: Seq<char>) -> Seq<char> {
    let parts = split_on(custom_id, ':');
    if parts.len() > 1 {
        parts[1]
    } else {
        Seq::empty()
    }
}

pub fn parse_manage_uuid(custom_id: &str) -> (r: String)
    ensures
        r@ == manage_uuid(custom_id@),
{
    let v = chars_of(custom_id);
    let parts = split_chars(&v, ':');
    if parts.len() > 1 {
        assert(views(parts@)[1] == parts@[1]@);
        string_of(&parts[1])
    } else {
        String::new()
    }
}

/// The uuid and tag id of a removal button `mt_remove:<uuid>:<id>`: split at
/// the last `:`; id 0 where it does not read, both empty where there is no
/// `:` after the prefix.
pub open spec fn remove_ids(custom_id: Seq<char>) -> (Seq<char>, i64) {
    let payload = match after_prefix(custom_id, "mt_remove:"@) {
        Some(p) => p,
        None => Seq::empty(),
    };
    match last_index(payload, ':') {
        Some(i) => (payload.take(i), match parsed_int(payload.skip(i + 1), true) {
            Some(v) => if i64::MIN <= v <= i64::MAX { v as i64 } else { 0 },
            None => 0,
        }),
        None => (Seq::empty(), 0),
    }
}

pub fn parse_remove_ids(custom_id: &str) -> (r: (String, i64))
    ensures
        r.0@ == remove_ids(custom_id@).0,
        r.1 == remove_ids(custom_id@).1,
{
    let v = chars_of(custom_id);
    let payload = match strip_prefix_chars(&v, "mt_remove:") {
        Some(p) => p,
        None => Vec::new(),
    };
    match rfind_char(&payload, ':') {
        Some(i) => {
            let head = slice_chars(&payload, 0, i);
            assert(head@ == payload@.take(i as int));
            let tail = suffix_from(&payload, i + 1);
            let id = match parse_i64(&tail) {
                Some(x) => x,
                None => 0,
            };
            (string_of(&head), id)
        },
        None => (String::new(), 0),
    }
}

/// Tag history entries on one page.
pub const HISTORY_PER_PAGE: usize = 8;

/// The uuid and page of a history button `tag_history_nav:<uuid>:<page>`,
/// split at the last `:`; page 0 where it does not read; the whole rest as
/// uuid where there is no `:`.
pub open spec fn history_nav(custom_id: Seq<char>) -> (Seq<char>, usize) {
    let rest = match after_prefix(custom_id, "tag_history_nav:"@) {
        Some(p) => p,
        None => Seq::empty(),
    };
    match last_index(rest, ':') {
        Some(i) => (rest.take(i), usize_or_zero(rest.skip(i + 1))),
        None => (rest, 0usize),
    }
}

pub fn parse_history_nav(custom_id: &str) -> (r: (String, usize))
    ensures
        r.0@ == history_nav(custom_id@).0,
        r.1 == history_nav(custom_id@).1,
{
    let v = chars_of(custom_id);
    let rest = match strip_prefix_chars(&v, "tag_history_nav:") {
        Some(p) => p,
        None => Vec::new(),
    };
    match rfind_char(&rest, ':') {
        Some(i) => {
            let head = slice_chars(&rest, 0, i);
            assert(head@ == rest@.take(i as int));
            let tail = suffix_from(&rest, i + 1);
            let page = match parse_usize(&tail) {
                Some(x) => x,
                None => 0,
            };
            (string_of(&head), page)
        },
        None => (string_of(&rest), 0),
    }
}

/// The pages of a history of `total` entries (one where it is empty), the
/// page shown for a requested one, and the slice of entries it shows.
pub open spec fn history_pages(total: nat) -> nat {
    if total == 0 {
        1
    } else {
        ((total + 7) / 8) as nat
    }
}

#[derive(Clone, Copy, Debug, PartialEq, Eq, Structural)]
pub struct HistoryWindow {
    pub page: usize,
    pub pages: usize,
    pub start: usize,
    pub end: usize,
}

pub fn history_window(total: usize, requested: usize) -> (w: HistoryWindow)
    ensures
        w.pages == history_pages(total as nat),
        w.page == (if requested < w.pages { requested } else { (w.pages - 1) as usize }),
        w.start == (if total == 0 { 0 } else { w.page * 8 }),
        w.end == (if total == 0 { 0int } else if w.start + 8 <= total { w.start + 8 } else { total as int }),
        w.start <= w.end <= total,
{
    if total == 0 {
        return HistoryWindow { page: 0, pages: 1, start: 0, end: 0 };
    }
    let q = total / HISTORY_PER_PAGE;
    let pages = if total % HISTORY_PER_PAGE == 0 { q } else { q + 1 };
    assert(pages == history_pages(total as nat));
    let page = if requested < pages { requested } else { pages - 1 };
    assert(page * 8 < total) by (nonlinear_arith)
        requires
            page < pages,
            total > 0,
            pages == (total + 7) / 8,
    ;
    let start = page * HISTORY_PER_PAGE;
    let end = if total - start >= HISTORY_PER_PAGE { start + HISTORY_PER_PAGE } else { total };
    HistoryWindow { page, pages, start, end }
}

/// The footer of a history page, `-# Page <n> / <pages>`.
pub open spec fn history_footer_text(page: nat, pages: nat) -> Seq<char> {
    "-# Page "@ + crate::text::decimal(page + 1) + " / "@ + crate::text::decimal(pages)
}

pub fn history_footer(page: usize, pages: usize) -> (r: String)
    requires
        page < usize::MAX,
    ensures
        r@ == history_footer_text(page as nat, pages as nat),
{
    let mut out: Vec<char> = Vec::new();
    push_str(&mut out, "-# Page ");
    let a = crate::text::decimal_chars((page + 1) as u64);
    push_chars(&mut out, &a);
    push_str(&mut out, " / ");
    let b = crate::text::decimal_chars(pages as u64);
    push_chars(&mut out, &b);
    string_of(&out)
}

/// The id of the history button that opens page `page`.
pub open spec fn history_button_id(uuid: Seq<char>, page: nat) -> Seq<char> {
    "tag_history_nav:"@ + uuid + ":"@ + crate::text::decimal(page)
}

pub fn history_nav_id(uuid: &str, page: usize) -> (r: String)
    ensures
        r@ == history_button_id(uuid@, page as nat),
{
    let mut out: Vec<char> = Vec::new();
    push_str(&mut out, "tag_history_nav:");
    push_str(&mut out, uuid);
    push_str(&mut out, ":");
    let d = crate::text::decimal_chars(page as u64);
    push_chars(&mut out, &d);
    string_of(&out)
}

proof fn lemma_last_colon_before_number(head: Seq<char>, n: nat)
    ensures
        last_index(head + seq![':'] + decimal(n), ':') == Some(head.len() as int),
{
    let d = decimal(n);
    let t = head + seq![':'] + d;
    lemma_decimal_has_no(n, ':');
    assert(t[head.len() as int] == ':');
    let i = choose|i: int| 0 <= i < t.len() && t[i] == ':' && forall|j: int| i < j < t.len() ==> t[j] != ':';
    if i > head.len() {
        assert(t[i] == d[i - head.len() - 1]);
        assert(d.contains(':'));
    }
    if i < head.len() {
        assert(t[head.len() as int] != ':');
    }
}

proof fn lemma_history_nav_of(id: Seq<char>, rest: Seq<char>, k: int, uuid: Seq<char>, page: usize)
    requires
        has_prefix(id, "tag_history_nav:"@),
        id.skip("tag_history_nav:"@.len() as int) == rest,
        last_index(rest, ':') == Some(k),
        rest.take(k) == uuid,
        usize_or_zero(rest.skip(k + 1)) == page,
    ensures
        history_nav(id) == (uuid, page),
{
}

/// Paging shows each history entry on exactly one page: entry `i` of
/// `total` is on page `i / 8`, which exists, and on no other page.
pub proof fn each_entry_on_one_page(total: nat, i: nat, page: nat)
    requires
        i < total,
        page < history_pages(total),
    ensures
        i / 8 < history_pages(total),
        (page * 8 <= i && i < page * 8 + 8) <==> page == i / 8,
{
    assert(i / 8 < history_pages(total)) by (nonlinear_arith)
        requires i < total, history_pages(total) == ((total + 7) / 8) as nat;
    assert((page * 8 <= i && i < page * 8 + 8) <==> page == i / 8) by (nonlinear_arith);
}

/// A history button's id reads back as the uuid and page it was made for,
/// whatever the uuid holds.
#[verifier::rlimit(40)]
#[verifier::spinoff_prover]
pub proof fn history_button_reads_back(uuid: Seq<char>, page: usize)
    ensures
        history_nav(history_button_id(uuid, page as nat)) == (uuid, page),
{
    let p = "tag_history_nav:"@;
    let d = decimal(page as nat);
    let rest = uuid + seq![':'] + d;
    let id = history_button_id(uuid, page as nat);
    assert(id == p + rest) by {
        reveal_strlit(":");
        assert(":"@ == seq![':']);
        assert(id =~= p + rest);
    }
    assert(has_prefix(id, p)) by {
        assert(id.take(p.len() as int) =~= p);
    }
    assert(id.skip(p.len() as int) == rest) by {
        assert(id.skip(p.len() as int) =~= rest);
    }
    lemma_last_colon_before_number(uuid, page as nat);
    assert(rest.take(uuid.len() as int) == uuid) by {
        assert(rest.take(uuid.len() as int) =~= uuid);
    }
    assert(rest.skip(uuid.len() as int + 1) == d) by {
        assert(rest.skip(uuid.len() as int + 1) =~= d);
    }
    assert(usize_or_zero(d) == page) by {
        lemma_decimal_reads_back(page as nat);
    }
    lemma_history_nav_of(id, rest, uuid.len() as int, uuid, page);
}


/// A tag catalogue entry as plain text: its name, emote and display name.
pub open spec fn entry_views(t: Seq<(String, String, String)>) -> Seq<(Seq<char>, Seq<char>, Seq<char>)> {
    Seq::new(t.len(), |i: int| (t[i].0@, t[i].1@, t[i].2@))
}

/// The first entry at or after `from` with the name `name`.
pub open spec fn entry_index_from(t: Seq<(Seq<char>, Seq<char>, Seq<char>)>, name: Seq<char>, from: int) -> Option<int>
    decreases t.len() - from,
{
    if from < 0 || from >= t.len() {
        None
    } else if t[from].0 == name {
        Some(from)
    } else {
        entry_index_from(t, name, from + 1)
    }
}

/// A tag's emote and bold display name, from the first catalogue entry of
/// that name; with no entry, no emote and the name itself.
pub open spec fn label_text(t: Seq<(Seq<char>, Seq<char>, Seq<char>)>, tag_type: Seq<char>) -> Seq<char> {
    match entry_index_from(t, tag_type, 0) {
        Some(i) => t[i].1 + " **"@ + t[i].2 + "**"@,
        None => " **"@ + tag_type + "**"@,
    }
}

/// The label of a tag type, looked up in `catalogue`, a list of (name,
/// emote, display name).
pub fn tag_label(tag_type: &str, catalogue: &Vec<(String, String, String)>) -> (r: String)
    ensures
        r@ == label_text(entry_views(catalogue@), tag_type@),
{
    let ghost t = entry_views(catalogue@);
    let mut i: usize = 0;
    while i < catalogue.len()
        invariant
            i <= catalogue.len(),
            t == entry_views(catalogue@),
            entry_index_from(t, tag_type@, 0) == entry_index_from(t, tag_type@, i as int),
        decreases catalogue.len() - i,
    {
        if str_eq(catalogue[i].0.as_str(), tag_type) {
            let mut out: Vec<char> = Vec::new();
            push_str(&mut out, catalogue[i].1.as_str());
            push_str(&mut out, " **");
            push_str(&mut out, catalogue[i].2.as_str());
            push_str(&mut out, "**");
            return string_of(&out);
        }
        i = i + 1;
    }
    let mut out: Vec<char> = Vec::new();
    push_str(&mut out, " **");
    push_str(&mut out, tag_type);
    push_str(&mut out, "**");
    string_of(&out)
}


/// The heading of a tagged player's view: the tag emote, a lock when the
/// player's tags are locked, and the name.
pub open spec fn tagged_heading_text(emote: Seq<char>, locked: bool, username: Seq<char>) -> Seq<char> {
    "## "@ + emote + " Tagged User"@ + (if locked { " \u{1F512}"@ } else { Seq::empty() }) + "\nIGN - `"@
        + username + "`\n"@
}

pub fn tagged_user_heading(emote: &str, locked: bool, username: &str) -> (r: String)
    ensures
        r@ == tagged_heading_text(emote@, locked, username@),
{
    let mut out: Vec<char> = Vec::new();
    push_str(&mut out, "## ");
    push_str(&mut out, emote);
    push_str(&mut out, " Tagged User");
    if locked {
        push_str(&mut out, " \u{1F512}");
    }
    push_str(&mut out, "\nIGN - `");
    push_str(&mut out, username);
    push_str(&mut out, "`\n");
    string_of(&out)
}

/// The view of a player with no tags.
pub open spec fn no_tags_text(username: Seq<char>) -> Seq<char> {
    "## No Tags\n`"@ + username + "` is not tagged."@
}

pub fn no_tags_heading(username: &str) -> (r: String)
    ensures
        r@ == no_tags_text(username@),
{
    let mut out: Vec<char> = Vec::new();
    push_str(&mut out, "## No Tags\n`");
    push_str(&mut out, username);
    push_str(&mut out, "` is not tagged.");
    string_of(&out)
}


/// A tag that is not refused goes to review first exactly when the member is
/// of the default rank and the tag is anything but a sniper tag: a default
/// member's cheater tags are always reviewed, and nobody above the default
/// rank is ever sent to review. A tag is accepted (reviewed or not) whenever
/// the member may tag, the tag type is one a member may add, and a reason is
/// given.
pub proof fn review_first_only_for_default_members(rank: AccessRank, tagging_disabled: bool, tag_type: Seq<char>, reason: Seq<char>)
    ensures
        add_check(rank, tagging_disabled, tag_type, reason) is Ok ==>
            (add_check(rank, tagging_disabled, tag_type, reason)->Ok_0 <==> (rank == AccessRank::Default && tag_type != "sniper"@)),
        !tagging_disabled && tag_type != "confirmed_cheater"@ && tag_type != "replays_needed"@ && reason.len() > 0 ==>
            add_check(rank, tagging_disabled, tag_type, reason) is Ok,
{
}

} // verus!
