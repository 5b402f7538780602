//! The paged list of a guild's blacklisted members: the order of the list,
//! which slice a page shows, its footer and buttons, and the button ids
//! read back.

use vstd::prelude::*;
use crate::text::{
    chars_of, string_of, push_str, push_chars, decimal, decimal_chars, has_prefix, first_index,
    find_char, slice_chars, parse_usize, usize_or_zero, parsed_int, lemma_decimal_reads_back,
    lemma_decimal_has_no,
};

verus! {

/// Members listed on one page.
pub const PER_PAGE: usize = 10;

/// The number of pages for `total` members: at least one.
pub open spec fn pages_for(total: nat) -> nat {
    if total == 0 {
        1
    } else {
        ((total + 9) / 10) as nat
    }
}

/// Which members a page shows: `start..end` of the ordered list.
#[derive(Clone, Copy, Debug, PartialEq, Eq, Structural)]
pub struct PageWindow {
    pub page: usize,
    pub pages: usize,
    pub start: usize,
    pub end: usize,
}

/// The page that is shown for a requested one (the last where it is past
/// the end) and its slice of the list.
pub fn paginate(total: usize, requested: usize) -> (w: PageWindow)
    ensures
        w.pages == pages_for(total as nat),
        w.page == (if requested < w.pages { requested } else { (w.pages - 1) as usize }),
        w.start == w.page * 10,
        w.end == (if w.start + 10 <= total { w.start + 10 } else { total as int }),
        w.start <= w.end <= total,
{
    let q = total / PER_PAGE;
    let pages = if total == 0 {
        1
    } else if total % PER_PAGE == 0 {
        q
    } else {
        q + 1
    };
    assert(pages == pages_for(total as nat));
    let page = if requested < pages { requested } else { pages - 1 };
    assert(page * 10 <= total) by (nonlinear_arith)
        requires
            page < pages,
            total == 0 ==> pages == 1,
            total > 0 ==> pages == (total + 9) / 10,
    ;
    let start = page * PER_PAGE;
    let end = if total - start >= PER_PAGE { start + PER_PAGE } else { total };
    PageWindow { page, pages, start, end }
}

/// The footer of a page, where there is more than one.
pub open spec fn footer_text(page: nat, pages: nat) -> Option<Seq<char>> {
    if pages > 1 {
        Some("-# Page "@ + decimal(page + 1) + " of "@ + decimal(pages))
    } else {
        None
    }
}

pub fn page_footer(page: usize, pages: usize) -> (r: Option<String>)
    requires
        page < pages,
    ensures
        match r {
            Some(s) => footer_text(page as nat, pages as nat) == Some(s@),
            None => footer_text(page as nat, pages as nat) is None,
        },
{
    if pages <= 1 {
        return None;
    }
    let mut out: Vec<char> = Vec::new();
    push_str(&mut out, "-# Page ");
    let a = decimal_chars((page + 1) as u64);
    push_chars(&mut out, &a);
    push_str(&mut out, " of ");
    let b = decimal_chars(pages as u64);
    push_chars(&mut out, &b);
    Some(string_of(&out))
}

/// The id of the button that opens page `page` of the list for `query`.
pub open spec fn page_button_id(page: nat, query: Seq<char>) -> Seq<char> {
    "guild_pg:"@ + decimal(page) + ":"@ + query
}

/// The two buttons under a page: ids and whether each is greyed out.
pub struct PageButtons {
    pub prev_id: String,
    pub prev_disabled: bool,
    pub next_id: String,
    pub next_disabled: bool,
}

fn button_id(page: usize, query: &str) -> (r: String)
    ensures
        r@ == page_button_id(page as nat, query@),
{
    let mut out: Vec<char> = Vec::new();
    push_str(&mut out, "guild_pg:");
    let d = decimal_chars(page as u64);
    push_chars(&mut out, &d);
    push_str(&mut out, ":");
    push_str(&mut out, query);
    string_of(&out)
}

/// "Prev" leads to the page before (the first stays the first) and is
/// greyed out on the first page; "Next" leads to the page after and is
/// greyed out on the last.
pub fn page_buttons(query: &str, page: usize, pages: usize) -> (b: PageButtons)
    requires
        page < usize::MAX,
    ensures
        b.prev_id@ == page_button_id(if page == 0 { 0 } else { (page - 1) as nat }, query@),
        b.prev_disabled == (page == 0),
        b.next_id@ == page_button_id((page + 1) as nat, query@),
        b.next_disabled == (page + 1 >= pages),
{
    let prev = if page == 0 { 0 } else { page - 1 };
    PageButtons {
        prev_id: button_id(prev, query),
        prev_disabled: page == 0,
        next_id: button_id(page + 1, query),
        next_disabled: page + 1 >= pages,
    }
}

/// The page and query a button id carries: after `prefix`, the page number
/// up to the first `:`, and the query after it; page 0 where the number does
/// not read, and page 0 with an empty query where there is no `:`.
pub open spec fn action_parts(custom_id: Seq<char>, prefix: Seq<char>) -> (usize, Seq<char>) {
    let rest = if has_prefix(custom_id, prefix) {
        custom_id.skip(prefix.len() as int)
    } else {
        Seq::<char>::empty()
    };
    match first_index(rest, ':') {
        Some(i) => (usize_or_zero(rest.take(i)), rest.skip(i + 1)),
        None => (0usize, Seq::<char>::empty()),
    }
}

pub fn parse_action(custom_id: &str, prefix: &str) -> (r: (usize, String))
    ensures
        r.0 == action_parts(custom_id@, prefix@).0,
        r.1@ == action_parts(custom_id@, prefix@).1,
{
    let id = chars_of(custom_id);
    let p = chars_of(prefix);
    let mut is_prefix = p.len() <= id.len();
    let mut i: usize = 0;
    while is_prefix && i < p.len()
        invariant
            p.len() <= id.len() || !is_prefix,
            i <= p.len(),
            is_prefix ==> forall|j: int| 0 <= j < i ==> id@[j] == p@[j],
            !is_prefix ==> !has_prefix(id@, p@),
        decreases p.len() - i + (if is_prefix { 1int } else { 0 }),
    {
        if id[i] != p[i] {
            assert(id@.take(p.len() as int)[i as int] != p@[i as int]);
            is_prefix = false;
        } else {
            i = i + 1;
        }
    }
    if is_prefix {
        assert(id@.take(p.len() as int) =~= p@);
    }
    let rest = if is_prefix { slice_chars(&id, p.len(), id.len()) } else { Vec::new() };
    assert(is_prefix ==> rest@ == id@.skip(p.len() as int));
    assert(!is_prefix ==> rest@ == Seq::<char>::empty());
    match find_char(&rest, ':') {
        Some(k) => {
            let head = slice_chars(&rest, 0, k);
            let tail = slice_chars(&rest, k + 1, rest.len());
            assert(head@ == rest@.take(k as int));
            assert(tail@ == rest@.skip(k + 1));
            let page = match parse_usize(&head) {
                Some(v) => v,
                None => 0,
            };
            (page, string_of(&tail))
        },
        None => (0, String::new()),
    }
}

/// The most urgent priority among a member's tags (the lowest number), with
/// `u8::MAX` for a member whose tags have none.
pub open spec fn top_priority_of(keys: Seq<u8>) -> u8
    decreases keys.len(),
{
    if keys.len() == 0 {
        u8::MAX
    } else {
        let rest = top_priority_of(keys.drop_last());
        if keys.last() < rest { keys.last() } else { rest }
    }
}

/// The most urgent priority among `keys`, where a tag without a definition
/// counts as `u8::MAX`.
pub fn top_priority(keys: &Vec<u8>) -> (r: u8)
    ensures
        r == top_priority_of(keys@),
        forall|j: int| 0 <= j < keys@.len() ==> r <= keys@[j],
        keys@.len() == 0 ==> r == u8::MAX,
        keys@.len() > 0 ==> keys@.contains(r) || r == u8::MAX,
{
    let mut best: u8 = u8::MAX;
    let mut i: usize = 0;
    while i < keys.len()
        invariant
            i <= keys.len(),
            best == top_priority_of(keys@.take(i as int)),
            forall|j: int| 0 <= j < i ==> best <= keys@[j],
            best == u8::MAX || keys@.take(i as int).contains(best),
        decreases keys.len() - i,
    {
        assert(keys@.take(i + 1).drop_last() == keys@.take(i as int));
        assert(keys@.take(i + 1).last() == keys@[i as int]);
        if keys[i] < best {
            best = keys[i];
            assert(keys@.take(i + 1)[i as int] == best);
        } else {
            assert(best == u8::MAX || keys@.take(i + 1).contains(best)) by {
                if best != u8::MAX {
                    let w = choose|w: int| 0 <= w < i && keys@.take(i as int)[w] == best;
                    assert(keys@.take(i + 1)[w] == best);
                }
            }
        }
        i = i + 1;
    }
    assert(keys@.take(keys.len() as int) == keys@);
    best
}

/// Whether index `a` comes before index `b` when members are listed by
/// priority, the most urgent first, keeping the given order among equals.
pub open spec fn listed_before(keys: Seq<u8>, a: int, b: int) -> bool {
    keys[a] < keys[b] || (keys[a] == keys[b] && a < b)
}

/// The indices of `keys` listed by priority, the most urgent first, equal
/// priorities in their given order (a stable sort by key).
pub fn priority_order(keys: &Vec<u8>) -> (r: Vec<usize>)
    ensures
        forall|a: int| 0 <= a < r@.len() ==> r@[a] < keys@.len(),
        forall|a: int, b: int|
            0 <= a < b < r@.len() ==> listed_before(keys@, r@[a] as int, r@[b] as int),
        forall|j: usize| j < keys@.len() ==> #[trigger] r@.contains(j),
{
    let mut r: Vec<usize> = Vec::new();
    let mut k: u16 = 0;
    while k < 256
        invariant
            k <= 256,
            forall|a: int| 0 <= a < r@.len() ==> r@[a] < keys@.len(),
            forall|a: int| 0 <= a < r@.len() ==> keys@[r@[a] as int] < k,
            forall|a: int, b: int|
                0 <= a < b < r@.len() ==> listed_before(keys@, r@[a] as int, r@[b] as int),
            forall|j: usize| j < keys@.len() && keys@[j as int] < k ==> #[trigger] r@.contains(j),
        decreases 256 - k,
    {
        let mut i: usize = 0;
        while i < keys.len()
            invariant
                k < 256,
                i <= keys.len(),
                forall|a: int| 0 <= a < r@.len() ==> r@[a] < keys@.len(),
                forall|a: int|
                    0 <= a < r@.len() ==> keys@[r@[a] as int] < k || (keys@[r@[a] as int] == k
                        && r@[a] < i),
                forall|a: int, b: int|
                    0 <= a < b < r@.len() ==> listed_before(keys@, r@[a] as int, r@[b] as int),
                forall|j: usize|
                    j < keys@.len() && (keys@[j as int] < k || (keys@[j as int] == k && j < i))
                        ==> #[trigger] r@.contains(j),
            decreases keys.len() - i,
        {
            if keys[i] as u16 == k {
                let ghost before = r@;
                r.push(i);
                assert forall|j: usize|
                    j < keys@.len() && (keys@[j as int] < k || (keys@[j as int] == k && j < i + 1))
                        implies #[trigger] r@.contains(j) by {
                    if j == i {
                        assert(r@[before.len() as int] == i);
                    } else {
                        assert(before.contains(j));
                        let w = choose|w: int| 0 <= w < before.len() && before[w] == j;
                        assert(r@[w] == j);
                    }
                }
            }
            i = i + 1;
        }
        k = k + 1;
    }
    r
}

/// A member's line in the list: the emote and name of the most urgent tag,
/// where there is one.
pub open spec fn member_text(name: Seq<char>, tag: Option<(Seq<char>, Seq<char>)>) -> Seq<char> {
    match tag {
        Some((emote, display)) => emote + " `"@ + name + "` **"@ + display + "**"@,
        None => "`"@ + name + "`"@,
    }
}

pub fn member_line(name: &str, tag: Option<(&str, &str)>) -> (r: String)
    ensures
        r@ == member_text(
            name@,
            match tag {
                Some((e, d)) => Some((e@, d@)),
                None => None,
            },
        ),
{
    let mut out: Vec<char> = Vec::new();
    match tag {
        Some((emote, display)) => {
            push_str(&mut out, emote);
            push_str(&mut out, " `");
            push_str(&mut out, name);
            push_str(&mut out, "` **");
            push_str(&mut out, display);
            push_str(&mut out, "**");
        },
        None => {
            push_str(&mut out, "`");
            push_str(&mut out, name);
            push_str(&mut out, "`");
        },
    }
    string_of(&out)
}

proof fn lemma_first_colon_after_number(n: nat, rest: Seq<char>)
    ensures
        first_index(decimal(n) + seq![':'] + rest, ':') == Some(decimal(n).len() as int),
{
    let d = decimal(n);
    let t = d + seq![':'] + rest;
    lemma_decimal_has_no(n, ':');
    assert(t[d.len() as int] == ':');
    let i = choose|i: int| 0 <= i < t.len() && t[i] == ':' && forall|j: int| 0 <= j < i ==> t[j] != ':';
    if i < d.len() {
        assert(t[i] == d[i]);
        assert(d.contains(':'));
    }
    if i > d.len() {
        assert(t[d.len() as int] != ':');
    }
}

proof fn lemma_action_parts_of(id: Seq<char>, prefix: Seq<char>, rest: Seq<char>, k: int, page: usize, query: Seq<char>)
    requires
        has_prefix(id, prefix),
        id.skip(prefix.len() as int) == rest,
        first_index(rest, ':') == Some(k),
        usize_or_zero(rest.take(k)) == page,
        rest.skip(k + 1) == query,
    ensures
        action_parts(id, prefix) == (page, query),
{
}

/// Paging shows each member on exactly one page: member `i` of `total` is
/// on page `i / 10`, which exists, and on no other page.
pub proof fn each_member_on_one_page(total: nat, i: nat, page: nat)
    requires
        i < total,
        page < pages_for(total),
    ensures
        i / 10 < pages_for(total),
        (page * 10 <= i && i < page * 10 + 10) <==> page == i / 10,
{
    assert(i / 10 < pages_for(total)) by (nonlinear_arith)
        requires i < total, pages_for(total) == ((total + 9) / 10) as nat;
    assert((page * 10 <= i && i < page * 10 + 10) <==> page == i / 10) by (nonlinear_arith);
}

/// A page button's id reads back as the page and query it was made for.
#[verifier::rlimit(40)]
#[verifier::spinoff_prover]
pub proof fn page_button_reads_back(page: usize, query: Seq<char>)
    ensures
        action_parts(page_button_id(page as nat, query), "guild_pg:"@) == (page, query),
{
    let p = "guild_pg:"@;
    let d = decimal(page as nat);
    let rest = d + seq![':'] + query;
    let id = page_button_id(page as nat, query);
    assert(id == p + rest) by {
        reveal_strlit(":");
        assert(":"@ == seq![':']);
        assert(id =~= p + rest);
    }
    assert(has_prefix(id, p)) by {
        assert(id.take(p.len() as int) =~= p);
    }
    assert(id.skip(p.len() as int) == rest) by {
        assert(id.skip(p.len() as int) =~= rest);
    }
    lemma_first_colon_after_number(page as nat, query);
    assert(rest.take(d.len() as int) == d) by {
        assert(rest.take(d.len() as int) =~= d);
    }
    assert(rest.skip(d.len() as int + 1) == query) by {
        assert(rest.skip(d.len() as int + 1) =~= query);
    }
    assert(usize_or_zero(d) == page) by {
        lemma_decimal_reads_back(page as nat);
    }
    lemma_action_parts_of(id, p, rest, d.len() as int, page, query);
}
} // verus!
