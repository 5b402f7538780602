//! A review submission read back from the parts of its message: the
//! parts split into blocks at separators, each block with a player line
//! read into a player's entry with its evidence, and the media of a
//! player's block.

use vstd::prelude::*;
use crate::review_state::{PlayerLines, PlayerText, player_lines, first_ign, find_player_ign, opt_text,
    process_text_into_player, candidate_views, submitter_in, is_submitted, is_reopened, find_submitter,
    submission_flags};
use crate::review_text::{ign_prefix, is_player_entry, attachment_filename, attachment_filename_from_url};
use crate::stats_text::pair_views;
use crate::text::{chars_of, string_of, has_prefix, trimmed, trim_chars, lines_of, lines, views, occurs_in,
    contains_str};

verus! {

/// One part of a submission's container, as far as reading it back needs.
pub enum Part {
    /// A text display and its content, where it has one.
    Text(Option<String>),
    /// A section: the contents of its text displays, and the URL of its
    /// thumbnail, where its accessory is one.
    Section(Vec<Option<String>>, Option<String>),
    /// A media gallery: the URLs of its items.
    Gallery(Vec<String>),
    /// A separator, which ends a block.
    Separator,
    /// Any other part.
    Other,
}

/// The blocks of the first `n` parts, as (start, end) ranges: a new block
/// begins after each separator.
pub open spec fn block_ranges(ps: Seq<Part>, n: int) -> Seq<(int, int)>
    decreases n,
{
    if n <= 0 {
        seq![(0, 0)]
    } else {
        let r = block_ranges(ps, n - 1);
        if ps[n - 1] is Separator {
            r.push((n, n))
        } else {
            r.update(r.len() - 1, (r.last().0, n))
        }
    }
}

pub open spec fn range_views(v: Seq<(usize, usize)>) -> Seq<(int, int)> {
    Seq::new(v.len(), |i: int| (v[i].0 as int, v[i].1 as int))
}

/// Every block range of the first `n` parts lies within them, and the last
/// one ends at `n`.
pub proof fn lemma_block_ranges(ps: Seq<Part>, n: int)
    requires
        0 <= n,
    ensures
        block_ranges(ps, n).len() >= 1,
        block_ranges(ps, n).last().1 == n,
        forall|j: int| 0 <= j < block_ranges(ps, n).len() ==>
            0 <= #[trigger] block_ranges(ps, n)[j].0 <= block_ranges(ps, n)[j].1 <= n,
    decreases n,
{
    if n > 0 {
        lemma_block_ranges(ps, n - 1);
    }
}

/// The blocks of `parts`.
pub fn block_ranges_of(parts: &Vec<Part>) -> (r: Vec<(usize, usize)>)
    ensures
        range_views(r@) == block_ranges(parts@, parts@.len() as int),
{
    let mut r: Vec<(usize, usize)> = Vec::new();
    r.push((0, 0));
    assert(range_views(r@) =~= block_ranges(parts@, 0));
    let mut i: usize = 0;
    while i < parts.len()
        invariant
            i <= parts.len(),
            range_views(r@) == block_ranges(parts@, i as int),
            r@.len() >= 1,
            r@.last().1 == i,
        decreases parts.len() - i,
    {
        proof {
            lemma_block_ranges(parts@, i as int);
        }
        let ghost before = range_views(r@);
        if let Part::Separator = &parts[i] {
            r.push((i + 1, i + 1));
            assert(range_views(r@) =~= before.push(((i + 1) as int, (i + 1) as int)));
        } else {
            let last = r.len() - 1;
            let start = r[last].0;
            r.set(last, (start, i + 1));
            assert(range_views(r@) =~= before.update(before.len() - 1, (before.last().0, (i + 1) as int)));
        }
        i = i + 1;
    }
    r
}

/// Whether some line of `ls`, trimmed, is a player line.
pub open spec fn any_marker(ls: Seq<Seq<char>>) -> bool {
    exists|i: int| 0 <= i < ls.len() && has_prefix(trimmed(#[trigger] ls[i]), ign_prefix())
}

/// Whether a text content holds a player line.
pub open spec fn text_marked(c: Option<String>) -> bool {
    match c {
        Some(s) => any_marker(lines_of(s@)),
        None => false,
    }
}

/// Whether a part holds a player line in one of its texts.
pub open spec fn part_marked(p: Part) -> bool {
    match p {
        Part::Text(c) => text_marked(c),
        Part::Section(ts, _) => exists|i: int| 0 <= i < ts@.len() && text_marked(#[trigger] ts@[i]),
        _ => false,
    }
}

/// Whether a block holds a player line.
pub open spec fn block_marked(ps: Seq<Part>, lo: int, hi: int) -> bool {
    exists|k: int| lo <= k < hi && part_marked(#[trigger] ps[k])
}

fn text_has_marker(c: &Option<String>) -> (r: bool)
    ensures
        r == text_marked(*c),
{
    match c {
        Some(s) => {
            let cv = chars_of(s.as_str());
            let ls = lines(&cv);
            let mut i: usize = 0;
            while i < ls.len()
                invariant
                    i <= ls.len(),
                    views(ls@) == lines_of(s@),
                    *c == Some(*s),
                    forall|j: int| 0 <= j < i ==> !has_prefix(trimmed(#[trigger] lines_of(s@)[j]), ign_prefix()),
                decreases ls.len() - i,
            {
                let t = trim_chars(&ls[i]);
                let ts = string_of(&t);
                assert(views(ls@)[i as int] == ls@[i as int]@);
                if is_player_entry(ts.as_str()) {
                    assert(has_prefix(trimmed(lines_of(s@)[i as int]), ign_prefix()));
                    assert(any_marker(lines_of(s@)));
                    return true;
                }
                i = i + 1;
            }
            false
        },
        None => false,
    }
}

fn part_has_marker(p: &Part) -> (r: bool)
    ensures
        r == part_marked(*p),
{
    match p {
        Part::Text(c) => text_has_marker(c),
        Part::Section(ts, _) => {
            let mut i: usize = 0;
            while i < ts.len()
                invariant
                    i <= ts.len(),
                    match *p {
                        Part::Section(t, _) => t == *ts,
                        _ => false,
                    },
                    forall|j: int| 0 <= j < i ==> !text_marked(#[trigger] ts@[j]),
                decreases ts.len() - i,
            {
                if text_has_marker(&ts[i]) {
                    assert(text_marked(ts@[i as int]));
                    return true;
                }
                i = i + 1;
            }
            false
        },
        _ => false,
    }
}

/// Whether the parts `lo..hi` hold a player line.
pub fn block_has_player_marker(parts: &Vec<Part>, lo: usize, hi: usize) -> (r: bool)
    requires
        lo <= hi <= parts.len(),
    ensures
        r == block_marked(parts@, lo as int, hi as int),
{
    let mut k: usize = lo;
    while k < hi
        invariant
            lo <= k <= hi <= parts.len(),
            forall|j: int| lo <= j < k ==> !part_marked(#[trigger] parts@[j]),
        decreases hi - k,
    {
        if part_has_marker(&parts[k]) {
            return true;
        }
        k = k + 1;
    }
    false
}

/// The player named by the first text of `ts` that names one.
pub open spec fn texts_ign(ts: Seq<Option<String>>) -> Option<Seq<char>>
    decreases ts.len(),
{
    if ts.len() == 0 {
        None
    } else {
        match ts[0] {
            Some(c) => match first_ign(lines_of(c@)) {
                Some(n) => Some(n),
                None => texts_ign(ts.drop_first()),
            },
            None => texts_ign(ts.drop_first()),
        }
    }
}

/// The player a part names.
pub open spec fn part_ign(p: Part) -> Option<Seq<char>> {
    match p {
        Part::Text(Some(c)) => first_ign(lines_of(c@)),
        Part::Section(ts, _) => texts_ign(ts@),
        _ => None,
    }
}

/// The player named by the first part of `lo..hi` that names one.
pub open spec fn block_ign(ps: Seq<Part>, lo: int, hi: int) -> Option<Seq<char>>
    decreases hi - lo,
{
    if lo >= hi {
        None
    } else {
        match part_ign(ps[lo]) {
            Some(n) => Some(n),
            None => block_ign(ps, lo + 1, hi),
        }
    }
}

fn part_player(p: &Part) -> (r: Option<String>)
    ensures
        opt_text(r) == part_ign(*p),
{
    match p {
        Part::Text(Some(c)) => find_player_ign(c.as_str()),
        Part::Section(ts, _) => {
            let mut i: usize = 0;
            assert(ts@.skip(0) == ts@);
            while i < ts.len()
                invariant
                    i <= ts.len(),
                    match *p {
                        Part::Section(t, _) => t == *ts,
                        _ => false,
                    },
                    texts_ign(ts@) == texts_ign(ts@.skip(i as int)),
                decreases ts.len() - i,
            {
                assert(ts@.skip(i as int)[0] == ts@[i as int]);
                assert(ts@.skip(i as int).drop_first() == ts@.skip(i + 1));
                match &ts[i] {
                    Some(c) => {
                        let n = find_player_ign(c.as_str());
                        if n.is_some() {
                            assert(ts@.skip(i as int)[0] == Some(*c));
                            assert(texts_ign(ts@.skip(i as int)) == first_ign(lines_of(c@)));
                            return n;
                        }
                    },
                    None => {},
                }
                i = i + 1;
            }
            None
        },
        _ => None,
    }
}

/// The player the parts `lo..hi` name.
pub fn block_player(parts: &Vec<Part>, lo: usize, hi: usize) -> (r: Option<String>)
    requires
        lo <= hi <= parts.len(),
    ensures
        opt_text(r) == block_ign(parts@, lo as int, hi as int),
{
    let mut k: usize = lo;
    while k < hi
        invariant
            lo <= k <= hi <= parts.len(),
            block_ign(parts@, lo as int, hi as int) == block_ign(parts@, k as int, hi as int),
        decreases hi - k,
    {
        let n = part_player(&parts[k]);
        if n.is_some() {
            return n;
        }
        k = k + 1;
    }
    None
}


/// A piece of evidence found in a block: a replay command (with its note),
/// or an attached file.
pub enum Evidence {
    Replay(String, Option<String>),
    Attachment(String),
}

/// The same as character sequences.
pub enum EvidenceView {
    Replay(Seq<char>, Option<Seq<char>>),
    Attachment(Seq<char>),
}

pub open spec fn evidence_view(e: Evidence) -> EvidenceView {
    match e {
        Evidence::Replay(c, n) => EvidenceView::Replay(c@, opt_text(n)),
        Evidence::Attachment(f) => EvidenceView::Attachment(f@),
    }
}

pub open spec fn evidence_views(v: Seq<Evidence>) -> Seq<EvidenceView> {
    Seq::new(v.len(), |i: int| evidence_view(v[i]))
}

/// Replay candidates as evidence.
pub open spec fn replays(found: Seq<(Seq<char>, Option<Seq<char>>)>) -> Seq<EvidenceView> {
    Seq::new(found.len(), |i: int| EvidenceView::Replay(found[i].0, found[i].1))
}

/// What one text content adds to an entry.
pub open spec fn text_step(
    p: PlayerText,
    c: Option<String>,
    table: Seq<(Seq<char>, Seq<char>)>,
) -> (PlayerText, Seq<EvidenceView>) {
    match c {
        Some(s) => (player_lines(p, lines_of(s@), table).0, replays(player_lines(p, lines_of(s@), table).1)),
        None => (p, Seq::empty()),
    }
}

/// What the texts of a section add, in order.
pub open spec fn texts_fold(
    p: PlayerText,
    ts: Seq<Option<String>>,
    table: Seq<(Seq<char>, Seq<char>)>,
) -> (PlayerText, Seq<EvidenceView>)
    decreases ts.len(),
{
    if ts.len() == 0 {
        (p, Seq::empty())
    } else {
        let q = texts_fold(p, ts.drop_last(), table);
        let r = text_step(q.0, ts.last(), table);
        (r.0, q.1 + r.1)
    }
}

/// A section's thumbnail as evidence, where it is an attachment.
pub open spec fn thumbnail_evidence(t: Option<String>) -> Seq<EvidenceView> {
    match t {
        Some(u) => if occurs_in(u@, "/attachments/"@) {
            seq![EvidenceView::Attachment(attachment_filename(u@))]
        } else {
            Seq::empty()
        },
        None => Seq::empty(),
    }
}

/// A gallery's items as evidence.
pub open spec fn gallery_evidence(urls: Seq<String>) -> Seq<EvidenceView> {
    Seq::new(urls.len(), |i: int| EvidenceView::Attachment(attachment_filename(urls[i]@)))
}

/// What one part adds to an entry.
pub open spec fn part_step(
    p: PlayerText,
    part: Part,
    table: Seq<(Seq<char>, Seq<char>)>,
) -> (PlayerText, Seq<EvidenceView>) {
    match part {
        Part::Text(c) => text_step(p, c, table),
        Part::Section(ts, t) => (texts_fold(p, ts@, table).0, texts_fold(p, ts@, table).1 + thumbnail_evidence(t)),
        Part::Gallery(urls) => (p, gallery_evidence(urls@)),
        _ => (p, Seq::empty()),
    }
}

/// What the parts `lo..hi` add to an entry, in order.
pub open spec fn block_fold(
    ps: Seq<Part>,
    lo: int,
    hi: int,
    p: PlayerText,
    table: Seq<(Seq<char>, Seq<char>)>,
) -> (PlayerText, Seq<EvidenceView>)
    decreases hi - lo,
{
    if hi <= lo {
        (p, Seq::empty())
    } else {
        let q = block_fold(ps, lo, hi - 1, p, table);
        let r = part_step(q.0, ps[hi - 1], table);
        (r.0, q.1 + r.1)
    }
}

/// A new pending entry.
pub open spec fn fresh_entry() -> PlayerText {
    PlayerText {
        uuid: Seq::empty(),
        tag_type: Seq::empty(),
        reason: Seq::empty(),
        status: crate::review_votes::PlayerStatus::Pending,
        decided_by: None,
        review_note: None,
        accept_votes: Seq::empty(),
        reject_votes: Seq::empty(),
    }
}

/// A player's block read back.
pub struct PlayerEntry {
    pub username: String,
    pub lines: PlayerLines,
    pub evidence: Vec<Evidence>,
}

/// What the parts `lo..hi` read back as: nothing where no part names a
/// player, else the named player, the entry its texts give, and its evidence.
pub open spec fn block_reading(
    ps: Seq<Part>,
    lo: int,
    hi: int,
    table: Seq<(Seq<char>, Seq<char>)>,
) -> Option<(Seq<char>, PlayerText, Seq<EvidenceView>)> {
    match block_ign(ps, lo, hi) {
        Some(n) => Some((n, block_fold(ps, lo, hi, fresh_entry(), table).0, block_fold(ps, lo, hi, fresh_entry(), table).1)),
        None => None,
    }
}

pub open spec fn block_view(b: PlayerEntry) -> (Seq<char>, PlayerText, Seq<EvidenceView>) {
    (b.username@, b.lines.text(), evidence_views(b.evidence@))
}

fn add_replays(ev: &mut Vec<Evidence>, found: Vec<(String, Option<String>)>)
    ensures
        evidence_views(final(ev)@) == evidence_views(old(ev)@) + replays(candidate_views(found@)),
{
    let ghost want = replays(candidate_views(found@));
    let ghost start = evidence_views(ev@);
    let mut rest = found;
    let ghost n = rest@.len();
    while rest.len() > 0
        invariant
            rest@.len() <= n,
            want.len() == n,
            replays(candidate_views(rest@)) == want.skip(n - rest@.len()),
            evidence_views(ev@) == start + want.take(n - rest@.len()),
        decreases rest@.len(),
    {
        let ghost before = rest@;
        let x = rest.remove(0);
        let ghost k = n - before.len();
        assert(want[k] == EvidenceView::Replay(x.0@, opt_text(x.1))) by {
            assert(replays(candidate_views(before))[0] == want.skip(k)[0]);
        }
        let ghost old_ev = evidence_views(ev@);
        ev.push(Evidence::Replay(x.0, x.1));
        assert(evidence_views(ev@) =~= old_ev.push(want[k]));
        assert(want.take(k + 1) =~= want.take(k).push(want[k]));
        assert(replays(candidate_views(rest@)) =~= want.skip(k + 1)) by {
            assert(rest@ == before.drop_first());
            assert(replays(candidate_views(rest@)) =~= replays(candidate_views(before)).drop_first());
            assert(want.skip(k).drop_first() =~= want.skip(k + 1));
        }
    }
    assert(want.take(n as int) =~= want);
}

fn add_text(
    p: &mut PlayerLines,
    ev: &mut Vec<Evidence>,
    c: &Option<String>,
    table: &Vec<(String, String)>,
)
    ensures
        final(p).text() == text_step(old(p).text(), *c, pair_views(table@)).0,
        evidence_views(final(ev)@) == evidence_views(old(ev)@) + text_step(old(p).text(), *c, pair_views(table@)).1,
{
    match c {
        Some(s) => {
            let found = process_text_into_player(p, s.as_str(), table);
            add_replays(ev, found);
        },
        None => {
            assert(evidence_views(ev@) + Seq::<EvidenceView>::empty() =~= evidence_views(ev@));
        },
    }
}

#[verifier::rlimit(40)]
#[verifier::spinoff_prover]
fn add_part(
    p: &mut PlayerLines,
    ev: &mut Vec<Evidence>,
    part: &Part,
    table: &Vec<(String, String)>,
)
    ensures
        final(p).text() == part_step(old(p).text(), *part, pair_views(table@)).0,
        evidence_views(final(ev)@) == evidence_views(old(ev)@) + part_step(old(p).text(), *part, pair_views(table@)).1,
{
    let ghost tb = pair_views(table@);
    let ghost p0 = p.text();
    let ghost e0 = evidence_views(ev@);
    match part {
        Part::Text(c) => {
            add_text(p, ev, c, table);
        },
        Part::Section(ts, thumb) => {
            let mut i: usize = 0;
            while i < ts.len()
                invariant
                    i <= ts.len(),
                    tb == pair_views(table@),
                    p.text() == texts_fold(p0, ts@.take(i as int), tb).0,
                    evidence_views(ev@) == e0 + texts_fold(p0, ts@.take(i as int), tb).1,
                decreases ts.len() - i,
            {
                proof {
                    assert(ts@.take(i + 1).drop_last() == ts@.take(i as int));
                    assert(ts@.take(i + 1).last() == ts@[i as int]);
                }
                add_text(p, ev, &ts[i], table);
                i = i + 1;
            }
            assert(ts@.take(ts@.len() as int) == ts@);
            match thumb {
                Some(u) => {
                    let uv = chars_of(u.as_str());
                    if contains_str(&uv, "/attachments/") {
                        let f = attachment_filename_from_url(u.as_str());
                        let ghost before = evidence_views(ev@);
                        ev.push(Evidence::Attachment(f));
                        assert(evidence_views(ev@) =~= before + thumbnail_evidence(*thumb));
                    } else {
                        assert(evidence_views(ev@) + thumbnail_evidence(*thumb) =~= evidence_views(ev@));
                    }
                },
                None => {
                    assert(evidence_views(ev@) + thumbnail_evidence(*thumb) =~= evidence_views(ev@));
                },
            }
        },
        Part::Gallery(urls) => {
            let mut i: usize = 0;
            while i < urls.len()
                invariant
                    i <= urls.len(),
                    evidence_views(ev@) == e0 + gallery_evidence(urls@).take(i as int),
                decreases urls.len() - i,
            {
                let f = attachment_filename_from_url(urls[i].as_str());
                let ghost before = evidence_views(ev@);
                ev.push(Evidence::Attachment(f));
                assert(evidence_views(ev@) =~= before.push(gallery_evidence(urls@)[i as int]));
                assert(gallery_evidence(urls@).take(i + 1) =~= gallery_evidence(urls@).take(i as int).push(gallery_evidence(urls@)[i as int]));
                i = i + 1;
            }
            assert(gallery_evidence(urls@).take(urls@.len() as int) =~= gallery_evidence(urls@));
        },
        _ => {
            assert(evidence_views(ev@) + Seq::<EvidenceView>::empty() =~= evidence_views(ev@));
        },
    }
}

/// Reads the parts `lo..hi` back as a player's block.
#[verifier::spinoff_prover]
pub fn parse_player_block(
    parts: &Vec<Part>,
    lo: usize,
    hi: usize,
    table: &Vec<(String, String)>,
) -> (r: Option<PlayerEntry>)
    requires
        lo <= hi <= parts.len(),
    ensures
        match r {
            Some(b) => block_reading(parts@, lo as int, hi as int, pair_views(table@)) == Some(block_view(b)),
            None => block_reading(parts@, lo as int, hi as int, pair_views(table@)) is None,
        },
{
    let username = match block_player(parts, lo, hi) {
        Some(n) => n,
        None => {
            return None;
        },
    };
    let ghost tb = pair_views(table@);
    let mut p = PlayerLines::pending();
    let mut ev: Vec<Evidence> = Vec::new();
    assert(evidence_views(ev@) =~= Seq::<EvidenceView>::empty());
    let mut k: usize = lo;
    while k < hi
        invariant
            lo <= k <= hi <= parts.len(),
            tb == pair_views(table@),
            p.text() == block_fold(parts@, lo as int, k as int, fresh_entry(), tb).0,
            evidence_views(ev@) == block_fold(parts@, lo as int, k as int, fresh_entry(), tb).1,
        decreases hi - k,
    {
        add_part(&mut p, &mut ev, &parts[k], table);
        k = k + 1;
    }
    Some(PlayerEntry { username, lines: p, evidence: ev })
}


/// The gallery URLs among the parts `lo..hi`, in order.
pub open spec fn gallery_urls(ps: Seq<Part>, lo: int, hi: int) -> Seq<Seq<char>>
    decreases hi - lo,
{
    if hi <= lo {
        Seq::empty()
    } else {
        gallery_urls(ps, lo, hi - 1) + match ps[hi - 1] {
            Part::Gallery(u) => u.deep_view(),
            _ => Seq::empty(),
        }
    }
}

/// The gallery URLs of the player at position `idx` among the blocks from
/// `j` on that hold a player line (none where there is no such block).
pub open spec fn media_from(ps: Seq<Part>, rs: Seq<(int, int)>, j: int, idx: int) -> Seq<Seq<char>>
    decreases rs.len() - j,
{
    if j < 0 || j >= rs.len() {
        Seq::empty()
    } else if !block_marked(ps, rs[j].0, rs[j].1) {
        media_from(ps, rs, j + 1, idx)
    } else if idx == 0 {
        gallery_urls(ps, rs[j].0, rs[j].1)
    } else {
        media_from(ps, rs, j + 1, idx - 1)
    }
}

fn copy_string(s: &String) -> (r: String)
    ensures
        r@ == s@,
{
    let v = chars_of(s.as_str());
    string_of(&v)
}

#[verifier::spinoff_prover]
fn block_media(parts: &Vec<Part>, lo: usize, hi: usize) -> (r: Vec<String>)
    requires
        lo <= hi <= parts.len(),
    ensures
        r.deep_view() == gallery_urls(parts@, lo as int, hi as int),
{
    let mut out: Vec<String> = Vec::new();
    let mut k: usize = lo;
    assert(out.deep_view() =~= gallery_urls(parts@, lo as int, lo as int));
    while k < hi
        invariant
            lo <= k <= hi <= parts.len(),
            out.deep_view() == gallery_urls(parts@, lo as int, k as int),
        decreases hi - k,
    {
        let ghost start = out.deep_view();
        match &parts[k] {
            Part::Gallery(urls) => {
                let mut i: usize = 0;
                while i < urls.len()
                    invariant
                        i <= urls.len(),
                        out.deep_view() == start + urls.deep_view().take(i as int),
                    decreases urls.len() - i,
                {
                    let u = copy_string(&urls[i]);
                    let ghost before = out.deep_view();
                    out.push(u);
                    assert(out.deep_view() =~= before.push(urls.deep_view()[i as int]));
                    assert(urls.deep_view().take(i + 1) =~= urls.deep_view().take(i as int).push(urls.deep_view()[i as int]));
                    i = i + 1;
                }
                assert(urls.deep_view().take(urls@.len() as int) =~= urls.deep_view());
            },
            _ => {
                assert(start + Seq::<Seq<char>>::empty() =~= start);
            },
        }
        k = k + 1;
    }
    out
}

/// The gallery URLs of the block of the player at position `index` among
/// the blocks that hold a player line.
#[verifier::spinoff_prover]
pub fn media_urls_of_player(parts: &Vec<Part>, index: usize) -> (r: Vec<String>)
    ensures
        r.deep_view() == media_from(parts@, block_ranges(parts@, parts@.len() as int), 0, index as int),
{
    let rs = block_ranges_of(parts);
    let ghost rv = block_ranges(parts@, parts@.len() as int);
    proof {
        lemma_block_ranges(parts@, parts@.len() as int);
    }
    let mut seen: usize = 0;
    let mut j: usize = 0;
    while j < rs.len()
        invariant
            j <= rs.len(),
            range_views(rs@) == rv,
            rv == block_ranges(parts@, parts@.len() as int),
            forall|q: int| 0 <= q < rv.len() ==> 0 <= #[trigger] rv[q].0 <= rv[q].1 <= parts@.len(),
            seen <= index,
            media_from(parts@, rv, 0, index as int) == media_from(parts@, rv, j as int, index - seen),
        decreases rs.len() - j,
    {
        let (lo, hi) = rs[j];
        assert(rv[j as int] == (lo as int, hi as int));
        if block_has_player_marker(parts, lo, hi) {
            if seen == index {
                return block_media(parts, lo, hi);
            }
            seen = seen + 1;
        }
        j = j + 1;
    }
    Vec::new()
}

/// The players of a submission: the blocks among the first `n` that read
/// back as a player's block with a tag type.
pub open spec fn players_of(
    ps: Seq<Part>,
    rs: Seq<(int, int)>,
    n: int,
    table: Seq<(Seq<char>, Seq<char>)>,
) -> Seq<(Seq<char>, PlayerText, Seq<EvidenceView>)>
    decreases n,
{
    if n <= 0 {
        Seq::empty()
    } else {
        let prev = players_of(ps, rs, n - 1, table);
        match block_reading(ps, rs[n - 1].0, rs[n - 1].1, table) {
            Some(b) => if b.1.tag_type.len() > 0 { prev.push(b) } else { prev },
            None => prev,
        }
    }
}

/// The players the parts of a submission hold, in order.
#[verifier::spinoff_prover]
pub fn parse_players(parts: &Vec<Part>, table: &Vec<(String, String)>) -> (r: Vec<PlayerEntry>)
    ensures
        r@.len() == players_of(parts@, block_ranges(parts@, parts@.len() as int),
            block_ranges(parts@, parts@.len() as int).len() as int, pair_views(table@)).len(),
        forall|i: int| 0 <= i < r@.len() ==> block_view(#[trigger] r@[i]) == players_of(parts@,
            block_ranges(parts@, parts@.len() as int), block_ranges(parts@, parts@.len() as int).len() as int,
            pair_views(table@))[i],
{
    let rs = block_ranges_of(parts);
    let ghost rv = block_ranges(parts@, parts@.len() as int);
    let ghost tb = pair_views(table@);
    proof {
        lemma_block_ranges(parts@, parts@.len() as int);
    }
    let mut out: Vec<PlayerEntry> = Vec::new();
    let mut j: usize = 0;
    while j < rs.len()
        invariant
            j <= rs.len(),
            range_views(rs@) == rv,
            rv == block_ranges(parts@, parts@.len() as int),
            tb == pair_views(table@),
            forall|q: int| 0 <= q < rv.len() ==> 0 <= #[trigger] rv[q].0 <= rv[q].1 <= parts@.len(),
            out@.len() == players_of(parts@, rv, j as int, tb).len(),
            forall|i: int| 0 <= i < out@.len() ==> block_view(#[trigger] out@[i]) == players_of(parts@, rv, j as int, tb)[i],
        decreases rs.len() - j,
    {
        let (lo, hi) = rs[j];
        assert(rv[j as int] == (lo as int, hi as int));
        let ghost prev = players_of(parts@, rv, j as int, tb);
        match parse_player_block(parts, lo, hi, table) {
            Some(b) => {
                let tv = chars_of(b.lines.tag_type.as_str());
                if tv.len() > 0 {
                    out.push(b);
                    assert forall|i: int| 0 <= i < out@.len() implies block_view(#[trigger] out@[i])
                        == players_of(parts@, rv, j + 1, tb)[i] by {
                        if i < out@.len() - 1 {
                            assert(block_view(out@[i]) == prev[i]);
                        }
                    }
                }
            },
            None => {},
        }
        j = j + 1;
    }
    out
}

/// A player being added to a submission: what the submitter typed and the
/// name it resolved to.
pub struct PendingAdd {
    pub identifier: String,
    pub username: String,
}

/// A submission: read back from its message, it is edited nowhere and
/// adds no one yet.
pub struct SubmissionState {
    pub submitter_id: u64,
    pub players: Vec<PlayerEntry>,
    pub submitted: bool,
    pub reopened: bool,
    pub editing: Option<usize>,
    pub pending_add: Option<PendingAdd>,
}

/// Reads a submission back from its message: the texts of its text
/// displays, the parts of its container, and the ids of the buttons among
/// them. Nothing where no text mentions the submitter.
pub fn parse_submission(
    texts: &Vec<String>,
    parts: &Vec<Part>,
    button_ids: &Vec<String>,
    table: &Vec<(String, String)>,
) -> (r: Option<SubmissionState>)
    ensures
        match r {
            Some(s) => {
                &&& submitter_in(texts.deep_view()) == Some(s.submitter_id)
                &&& s.players@.len() == players_of(parts@, block_ranges(parts@, parts@.len() as int),
                    block_ranges(parts@, parts@.len() as int).len() as int, pair_views(table@)).len()
                &&& forall|i: int| 0 <= i < s.players@.len() ==> block_view(#[trigger] s.players@[i])
                    == players_of(parts@, block_ranges(parts@, parts@.len() as int),
                    block_ranges(parts@, parts@.len() as int).len() as int, pair_views(table@))[i]
                &&& s.submitted == is_submitted(texts.deep_view(), button_ids.deep_view())
                &&& s.reopened == is_reopened(texts.deep_view())
                &&& s.editing is None
                &&& s.pending_add is None
            },
            None => submitter_in(texts.deep_view()) is None,
        },
{
    let submitter_id = match find_submitter(texts) {
        Some(id) => id,
        None => {
            return None;
        },
    };
    let players = parse_players(parts, table);
    let (submitted, reopened) = submission_flags(texts, button_ids);
    Some(SubmissionState { submitter_id, players, submitted, reopened, editing: None, pending_add: None })
}


/// The blocks split the parts at the separators and nowhere else: the first
/// block starts at the first part, the last ends at the last, each next
/// block starts just after a separator that ends the one before, and no
/// block holds a separator.
pub proof fn blocks_split_at_separators(ps: Seq<Part>, n: int)
    requires
        0 <= n <= ps.len(),
    ensures
        block_ranges(ps, n)[0].0 == 0,
        block_ranges(ps, n).last().1 == n,
        forall|j: int| 0 <= j < block_ranges(ps, n).len() - 1 ==> {
            &&& block_ranges(ps, n)[j].1 + 1 == #[trigger] block_ranges(ps, n)[j + 1].0
            &&& ps[block_ranges(ps, n)[j].1] is Separator
        },
        forall|j: int, k: int| #![trigger block_ranges(ps, n)[j], ps[k]]
            0 <= j < block_ranges(ps, n).len() && block_ranges(ps, n)[j].0 <= k < block_ranges(ps, n)[j].1
                ==> !(ps[k] is Separator),
    decreases n,
{
    lemma_block_ranges(ps, n);
    if n > 0 {
        blocks_split_at_separators(ps, n - 1);
        lemma_block_ranges(ps, n - 1);
        let r = block_ranges(ps, n - 1);
        let q = block_ranges(ps, n);
        if ps[n - 1] is Separator {
            assert(q == r.push((n, n)));
            assert forall|j: int| 0 <= j < q.len() - 1 implies {
                &&& q[j].1 + 1 == #[trigger] q[j + 1].0
                &&& ps[q[j].1] is Separator
            } by {
                if j < r.len() - 1 {
                    assert(q[j] == r[j] && q[j + 1] == r[j + 1]);
                } else {
                    assert(q[j] == r.last());
                }
            }
            assert forall|j: int, k: int| #![trigger q[j], ps[k]] 0 <= j < q.len() && q[j].0 <= k < q[j].1 implies !(ps[k] is Separator) by {
                if j < r.len() {
                    assert(q[j] == r[j]);
                }
            }
        } else {
            assert(q == r.update(r.len() - 1, (r.last().0, n)));
            assert forall|j: int| 0 <= j < q.len() - 1 implies {
                &&& q[j].1 + 1 == #[trigger] q[j + 1].0
                &&& ps[q[j].1] is Separator
            } by {
                assert(q[j] == r[j]);
                if j + 1 < r.len() - 1 {
                    assert(q[j + 1] == r[j + 1]);
                } else {
                    assert(q[j + 1].0 == r[j + 1].0);
                }
            }
            assert forall|j: int, k: int| #![trigger q[j], ps[k]] 0 <= j < q.len() && q[j].0 <= k < q[j].1 implies !(ps[k] is Separator) by {
                if j < r.len() - 1 {
                    assert(q[j] == r[j]);
                } else if k < n - 1 {
                    assert(r[j].0 <= k < r[j].1);
                }
            }
        }
    }
}

} // verus!
