//! Reading a player's block of a review submission back from its text.
//! The tag names a display name stands for, and the replay commands, are
//! checked outside against the tag catalogue; here they come in as a table
//! and go out as candidates.

use vstd::prelude::*;
use crate::minecraft::{unsanitize_reason, unsanitized, sanitized, round_trip_safe, lemma_sanitized_last,
    unsanitize_inverts_sanitize};
use crate::review_votes::PlayerStatus;
use crate::review_text::{
    ign_prefix, status_line, parse_status_line, vote_line, parse_vote_line, VoteSide, player_ign,
    parse_player_ign,
};
use crate::stats_text::{pair_index_from, pair_views, find_pair};
use crate::text::{
    chars_of, string_of, has_prefix, has_suffix, after_prefix, strip_prefix_chars, starts_with,
    ends_with, contains_char, trimmed, trim_chars, split_on, split_chars, split_str, split_by,
    first_word, first_word_chars, remove_char, remove_all, lines_of, lines, views, slice_chars,
    occurs_in, contains_str, matches_at, first_index, find_char, suffix_from, parse_u64, u64_in, is_ws,
    lemma_trimmed_unchanged, trim_start, trim_end, lemma_no_prefix,
};

verus! {

/// The fields of a player's entry that its text lines carry.
pub struct PlayerLines {
    pub uuid: String,
    pub tag_type: String,
    pub reason: String,
    pub status: PlayerStatus,
    pub decided_by: Option<String>,
    pub review_note: Option<String>,
    pub accept_votes: Vec<u64>,
    pub reject_votes: Vec<u64>,
}

/// The same fields as character sequences.
pub struct PlayerText {
    pub uuid: Seq<char>,
    pub tag_type: Seq<char>,
    pub reason: Seq<char>,
    pub status: PlayerStatus,
    pub decided_by: Option<Seq<char>>,
    pub review_note: Option<Seq<char>>,
    pub accept_votes: Seq<u64>,
    pub reject_votes: Seq<u64>,
}

pub open spec fn opt_text(o: Option<String>) -> Option<Seq<char>> {
    match o {
        Some(s) => Some(s@),
        None => None,
    }
}

impl PlayerLines {
    pub open spec fn text(&self) -> PlayerText {
        PlayerText {
            uuid: self.uuid@,
            tag_type: self.tag_type@,
            reason: self.reason@,
            status: self.status,
            decided_by: opt_text(self.decided_by),
            review_note: opt_text(self.review_note),
            accept_votes: self.accept_votes@,
            reject_votes: self.reject_votes@,
        }
    }

    /// A pending entry with nothing read yet.
    pub fn pending() -> (p: PlayerLines)
        ensures
            p.text() == (PlayerText {
                uuid: Seq::empty(),
                tag_type: Seq::empty(),
                reason: Seq::empty(),
                status: PlayerStatus::Pending,
                decided_by: None,
                review_note: None,
                accept_votes: Seq::empty(),
                reject_votes: Seq::empty(),
            }),
    {
        PlayerLines {
            uuid: String::new(),
            tag_type: String::new(),
            reason: String::new(),
            status: PlayerStatus::Pending,
            decided_by: None,
            review_note: None,
            accept_votes: Vec::new(),
            reject_votes: Vec::new(),
        }
    }
}

/// An entry once approved: the tag stored for it replaces the tag asked for,
/// and both tallies are emptied.
pub open spec fn approved_text(p: PlayerText, stored_tag: Seq<char>) -> PlayerText {
    PlayerText {
        status: PlayerStatus::Approved,
        tag_type: stored_tag,
        accept_votes: Seq::empty(),
        reject_votes: Seq::empty(),
        ..p
    }
}

/// An entry once rejected: by a staff member with a reason, which becomes its
/// review note, or by the votes, which keeps the note it had; both tallies
/// are emptied.
pub open spec fn rejected_text(p: PlayerText, reason: Option<Seq<char>>) -> PlayerText {
    PlayerText {
        status: PlayerStatus::Rejected,
        review_note: if reason is Some { reason } else { p.review_note },
        accept_votes: Seq::empty(),
        reject_votes: Seq::empty(),
        ..p
    }
}

impl PlayerLines {
    /// Marks the entry approved with the tag type that was stored.
    pub fn approve(&mut self, stored_tag_type: String)
        ensures
            final(self).text() == approved_text(old(self).text(), stored_tag_type@),
    {
        self.status = PlayerStatus::Approved;
        self.tag_type = stored_tag_type;
        self.accept_votes = Vec::new();
        self.reject_votes = Vec::new();
    }

    /// Marks the entry rejected, by a staff member's reason or by the votes.
    pub fn reject(&mut self, reason: Option<String>)
        ensures
            final(self).text() == rejected_text(old(self).text(), opt_text(reason)),
    {
        self.status = PlayerStatus::Rejected;
        match reason {
            Some(r) => {
                self.review_note = Some(r);
            },
            None => {},
        }
        self.accept_votes = Vec::new();
        self.reject_votes = Vec::new();
    }
}

/// The tag name of a display name in `table`, a list of (display name, tag
/// name): the first entry with that display name.
pub open spec fn tag_named(table: Seq<(Seq<char>, Seq<char>)>, display: Seq<char>) -> Option<Seq<char>> {
    match pair_index_from(table, display, 0) {
        Some(i) => Some(table[i].1),
        None => None,
    }
}

/// The tag name of a display name.
pub fn lookup_tag_name_from_display(display: &str, table: &Vec<(String, String)>) -> (r: Option<String>)
    ensures
        opt_text(r) == tag_named(pair_views(table@), display@),
{
    match find_pair(table, display) {
        Some(i) => Some(table[i].1.clone()),
        None => None,
    }
}

/// The display name after the last `>` of `s`, trimmed.
pub open spec fn last_display(s: Seq<char>) -> Seq<char> {
    trimmed(split_on(s, '>').last())
}

fn last_display_of(s: &Vec<char>) -> (r: Vec<char>)
    ensures
        r@ == last_display(s@),
{
    let parts = split_chars(s, '>');
    assert(views(parts@).last() == parts@[parts.len() - 1]@);
    trim_chars(&parts[parts.len() - 1])
}

/// The tag of a bold heading `**… > Display**`.
pub open spec fn heading_tag(t: Seq<char>, table: Seq<(Seq<char>, Seq<char>)>) -> Option<Seq<char>> {
    match after_prefix(t, "**"@) {
        Some(r) => if has_suffix(r, "**"@) {
            tag_named(table, last_display(r.take(r.len() - 2)))
        } else {
            None
        },
        None => None,
    }
}

/// Whether a line is a bold heading naming a tag.
pub open spec fn is_heading(t: Seq<char>) -> bool {
    has_prefix(t, "**"@) && has_suffix(t, "**"@) && t.contains('>')
}

/// A replay line's command and note: `` `/replay …` `` and an optional
/// `Note: "…"`, with an optional `- ` bullet in front.
pub open spec fn replay_candidate(t: Seq<char>) -> Option<(Seq<char>, Option<Seq<char>>)> {
    let l = match after_prefix(t, "- "@) {
        Some(r) => r,
        None => t,
    };
    if !has_prefix(l, "`/replay"@) || split_on(l, '`').len() < 2 {
        None
    } else {
        let pieces = split_str(l, "Note: \""@);
        let note = if pieces.len() > 1 && has_suffix(pieces[1], "\""@) {
            Some(pieces[1].drop_last())
        } else {
            None
        };
        Some((split_on(l, '`')[1], note))
    }
}

/// What one line of a player's block changes, and the replay it may hold.
/// The line is trimmed; empty lines and the name line are skipped; then
/// the first of these that applies: a heading gives the tag where none is
/// known yet; `-# currently …` gives the tag; `-# UUID: ` the uuid; a status
/// line the status and note; a vote line the voters of its side; a `>` quote
/// the reason (its escapes undone) where none is known yet; a replay line a replay.
pub open spec fn player_line(
    p: PlayerText,
    line: Seq<char>,
    table: Seq<(Seq<char>, Seq<char>)>,
) -> (PlayerText, Option<(Seq<char>, Option<Seq<char>>)>) {
    let t = trimmed(line);
    if t.len() == 0 || has_prefix(t, ign_prefix()) {
        (p, None)
    } else if is_heading(t) {
        match heading_tag(t, table) {
            Some(name) => if p.tag_type.len() == 0 {
                (PlayerText { tag_type: name, ..p }, None)
            } else {
                (p, None)
            },
            None => (p, None),
        }
    } else if after_prefix(t, "-# currently "@) is Some {
        match tag_named(table, last_display(after_prefix(t, "-# currently "@)->0)) {
            Some(name) => (PlayerText { tag_type: name, ..p }, None),
            None => (p, None),
        }
    } else if after_prefix(t, "-# UUID: "@) is Some {
        (PlayerText { uuid: remove_char(first_word(after_prefix(t, "-# UUID: "@)->0), '-'), ..p }, None)
    } else if status_line(t) is Some {
        (PlayerText {
            status: status_line(t)->Some_0.0,
            decided_by: None,
            review_note: status_line(t)->Some_0.1,
            ..p
        }, None)
    } else if vote_line(t) is Some {
        match vote_line(t)->Some_0.0 {
            VoteSide::Accept => (PlayerText { accept_votes: vote_line(t)->Some_0.1, ..p }, None),
            VoteSide::Reject => (PlayerText { reject_votes: vote_line(t)->Some_0.1, ..p }, None),
        }
    } else if has_prefix(t, ">"@) {
        if p.reason.len() == 0 {
            match after_prefix(t, "> "@) {
                Some(r) => (PlayerText { reason: unsanitized(r), ..p }, None),
                None => (PlayerText { reason: unsanitized(trimmed(t.drop_first())), ..p }, None),
            }
        } else {
            (p, None)
        }
    } else {
        (p, replay_candidate(t))
    }
}

/// The lines read in order, with the replays found.
pub open spec fn player_lines(
    p: PlayerText,
    ls: Seq<Seq<char>>,
    table: Seq<(Seq<char>, Seq<char>)>,
) -> (PlayerText, Seq<(Seq<char>, Option<Seq<char>>)>)
    decreases ls.len(),
{
    if ls.len() == 0 {
        (p, Seq::empty())
    } else {
        let (q, found) = player_lines(p, ls.drop_last(), table);
        let (r, c) = player_line(q, ls.last(), table);
        match c {
            Some(x) => (r, found.push(x)),
            None => (r, found),
        }
    }
}

/// The views of replay candidates.
pub open spec fn candidate_views(v: Seq<(String, Option<String>)>) -> Seq<(Seq<char>, Option<Seq<char>>)> {
    Seq::new(v.len(), |i: int| (v[i].0@, opt_text(v[i].1)))
}

fn replay_candidate_of(t: &Vec<char>) -> (r: Option<(String, Option<String>)>)
    ensures
        match replay_candidate(t@) {
            Some((c, n)) => r is Some && r->Some_0.0@ == c && opt_text(r->Some_0.1) == n,
            None => r is None,
        },
{
    let l = match strip_prefix_chars(t, "- ") {
        Some(r) => r,
        None => slice_chars(t, 0, t.len()),
    };
    assert(t@.subrange(0, t@.len() as int) == t@);
    if !starts_with(&l, "`/replay") {
        return None;
    }
    let ticks = split_chars(&l, '`');
    if ticks.len() < 2 {
        return None;
    }
    assert(views(ticks@)[1] == ticks@[1]@);
    let pieces = split_by(&l, "Note: \"");
    let note = if pieces.len() > 1 && ends_with(&pieces[1], "\"") {
        assert(views(pieces@)[1] == pieces@[1]@);
        proof {
            reveal_strlit("\"");
        }
        let n = slice_chars(&pieces[1], 0, pieces[1].len() - 1);
        assert(n@ == pieces@[1]@.drop_last());
        Some(string_of(&n))
    } else {
        assert(pieces@.len() > 1 ==> views(pieces@)[1] == pieces@[1]@);
        None
    };
    Some((string_of(&ticks[1]), note))
}

#[verifier::rlimit(60)]
#[verifier::spinoff_prover]
fn player_line_step(
    p: &mut PlayerLines,
    line: &Vec<char>,
    table: &Vec<(String, String)>,
) -> (c: Option<(String, Option<String>)>)
    ensures
        final(p).text() == player_line(old(p).text(), line@, pair_views(table@)).0,
        match player_line(old(p).text(), line@, pair_views(table@)).1 {
            Some((cmd, n)) => c is Some && c->Some_0.0@ == cmd && opt_text(c->Some_0.1) == n,
            None => c is None,
        },
{
    let t = trim_chars(line);
    let ts = string_of(&t);
    if t.len() == 0 || parse_is_ign(&t) {
        return None;
    }
    if starts_with(&t, "**") && ends_with(&t, "**") && contains_char(&t, '>') {
        let rest = strip_prefix_chars(&t, "**");
        if let Some(r) = rest {
            if ends_with(&r, "**") {
                proof {
                    reveal_strlit("**");
                }
                let inner = slice_chars(&r, 0, r.len() - 2);
                assert(inner@ == r@.take(r@.len() - 2));
                let disp = last_display_of(&inner);
                let ds = string_of(&disp);
                if let Some(name) = lookup_tag_name_from_display(ds.as_str(), table) {
                    let cur = chars_of(p.tag_type.as_str());
                    if cur.len() == 0 {
                        p.tag_type = name;
                    }
                }
            }
        }
        return None;
    }
    if let Some(rest) = strip_prefix_chars(&t, "-# currently ") {
        let disp = last_display_of(&rest);
        let ds = string_of(&disp);
        if let Some(name) = lookup_tag_name_from_display(ds.as_str(), table) {
            p.tag_type = name;
        }
        return None;
    }
    if let Some(rest) = strip_prefix_chars(&t, "-# UUID: ") {
        let w = first_word_chars(&rest);
        let u = remove_all(&w, '-');
        p.uuid = string_of(&u);
        return None;
    }
    if let Some((status, by, note)) = parse_status_line(ts.as_str()) {
        p.status = status;
        p.decided_by = by;
        p.review_note = note;
        return None;
    }
    if let Some((side, voters)) = parse_vote_line(ts.as_str()) {
        match side {
            VoteSide::Accept => {
                p.accept_votes = voters;
            },
            VoteSide::Reject => {
                p.reject_votes = voters;
            },
        }
        return None;
    }
    if starts_with(&t, ">") {
        let cur = chars_of(p.reason.as_str());
        if cur.len() == 0 {
            match strip_prefix_chars(&t, "> ") {
                Some(r) => {
                    let rs = string_of(&r);
                    p.reason = unsanitize_reason(rs.as_str());
                },
                None => {
                    proof {
                        reveal_strlit(">");
                    }
                    let after = slice_chars(&t, 1, t.len());
                    assert(after@ == t@.drop_first());
                    let tr = trim_chars(&after);
                    let rs = string_of(&tr);
                    p.reason = unsanitize_reason(rs.as_str());
                },
            }
        }
        return None;
    }
    replay_candidate_of(&t)
}

fn parse_is_ign(t: &Vec<char>) -> (r: bool)
    ensures
        r == has_prefix(t@, ign_prefix()),
{
    starts_with(t, "IGN - `")
}

/// Reads the lines of `content` into the entry `p`, giving the replay
/// commands (with their notes) found, in order.
#[verifier::spinoff_prover]
pub fn process_text_into_player(
    p: &mut PlayerLines,
    content: &str,
    table: &Vec<(String, String)>,
) -> (found: Vec<(String, Option<String>)>)
    ensures
        final(p).text() == player_lines(old(p).text(), lines_of(content@), pair_views(table@)).0,
        candidate_views(found@) == player_lines(old(p).text(), lines_of(content@), pair_views(table@)).1,
{
    let cv = chars_of(content);
    let ls = lines(&cv);
    let ghost start = p.text();
    let ghost tb = pair_views(table@);
    let mut found: Vec<(String, Option<String>)> = Vec::new();
    let mut i: usize = 0;
    while i < ls.len()
        invariant
            i <= ls.len(),
            views(ls@) == lines_of(content@),
            tb == pair_views(table@),
            p.text() == player_lines(start, views(ls@).take(i as int), tb).0,
            candidate_views(found@) == player_lines(start, views(ls@).take(i as int), tb).1,
        decreases ls.len() - i,
    {
        let ghost before = candidate_views(found@);
        let c = player_line_step(p, &ls[i], table);
        proof {
            assert(views(ls@).take(i + 1).drop_last() == views(ls@).take(i as int));
            assert(views(ls@).take(i + 1).last() == ls@[i as int]@);
        }
        match c {
            Some(x) => {
                found.push(x);
                assert(candidate_views(found@) =~= before.push((x.0@, opt_text(x.1))));
            },
            None => {},
        }
        i = i + 1;
    }
    assert(views(ls@).take(ls.len() as int) == views(ls@));
    found
}

proof fn lemma_quote_line(p: PlayerText, line: Seq<char>, reason: Seq<char>, table: Seq<(Seq<char>, Seq<char>)>)
    requires
        p.reason.len() == 0,
        trimmed(line).len() > 0,
        has_prefix(trimmed(line), ">"@),
        !has_prefix(trimmed(line), ign_prefix()),
        !has_prefix(trimmed(line), "**"@),
        after_prefix(trimmed(line), "-# currently "@) is None,
        after_prefix(trimmed(line), "-# UUID: "@) is None,
        status_line(trimmed(line)) is None,
        vote_line(trimmed(line)) is None,
        reason == match after_prefix(trimmed(line), "> "@) {
            Some(x) => unsanitized(x),
            None => unsanitized(trimmed(trimmed(line).drop_first())),
        },
    ensures
        player_line(p, line, table) == (PlayerText { reason: reason, ..p }, None::<(Seq<char>, Option<Seq<char>>)>),
{
}

proof fn lemma_quote_kinds(t: Seq<char>)
    requires
        t.len() > 0,
        t[0] == '>',
    ensures
        has_prefix(t, ">"@),
        !has_prefix(t, ign_prefix()),
        !has_prefix(t, "**"@),
        after_prefix(t, "-# currently "@) is None,
        after_prefix(t, "-# UUID: "@) is None,
        status_line(t) is None,
        vote_line(t) is None,
{
    reveal_strlit(">");
    reveal_strlit("IGN - `");
    reveal_strlit("**");
    reveal_strlit("-# currently ");
    reveal_strlit("-# UUID: ");
    reveal_strlit("\u{2705} Approved");
    reveal_strlit("\u{274c} Rejected");
    reveal_strlit("<:evidencefound:1482666860225888346>");
    reveal_strlit("<:noevidence:1482666258938990696>");
    lemma_no_prefix(t, ign_prefix());
    lemma_no_prefix(t, "**"@);
    lemma_no_prefix(t, "-# currently "@);
    lemma_no_prefix(t, "-# UUID: "@);
    lemma_no_prefix(t, "\u{2705} Approved"@);
    lemma_no_prefix(t, "\u{274c} Rejected"@);
    lemma_no_prefix(t, "<:evidencefound:1482666860225888346>"@);
    lemma_no_prefix(t, "<:noevidence:1482666258938990696>"@);
    assert(t.take(1) =~= ">"@);
}

/// A reason written as the quote line of a player's block reads back as
/// itself (so a redraw writes the same quote again), for a reason without
/// line breaks and not ending in whitespace.
pub proof fn reason_line_reads_back(p: PlayerText, r: Seq<char>, table: Seq<(Seq<char>, Seq<char>)>)
    requires
        p.reason.len() == 0,
        round_trip_safe(r),
        r.len() > 0 ==> !is_ws(r.last()),
    ensures
        player_line(p, "> "@ + sanitized(r), table)
            == (PlayerText { reason: r, ..p }, None::<(Seq<char>, Option<Seq<char>>)>),
{
    reveal_strlit("> ");
    let line = "> "@ + sanitized(r);
    let t = trimmed(line);
    if r.len() > 0 {
        lemma_sanitized_last(r);
        assert(line.last() == r.last());
        assert(line[0] == '>');
        lemma_trimmed_unchanged(line);
        assert(after_prefix(line, "> "@) == Some(sanitized(r))) by {
            assert(line.take(2) =~= "> "@);
            assert(line.skip(2) =~= sanitized(r));
        }
        unsanitize_inverts_sanitize(r);
    } else {
        assert(sanitized(r) == Seq::<char>::empty());
        assert(line =~= seq!['>', ' ']);
        assert(trim_start(line) == line);
        assert(line.drop_last() =~= seq!['>']);
        assert(is_ws(line.last()));
        assert(trim_end(seq!['>']) == seq!['>']);
        assert(trim_end(line) == seq!['>']);
        assert(t == seq!['>']);
        assert(seq!['>'].drop_first() =~= Seq::<char>::empty());
        assert(trim_start(Seq::<char>::empty()) == Seq::<char>::empty());
        assert(trim_end(Seq::<char>::empty()) == Seq::<char>::empty());
        assert(unsanitized(Seq::<char>::empty()) == Seq::<char>::empty());
        assert(r =~= Seq::<char>::empty());
        assert(!has_prefix(t, "> "@));
    }
    lemma_quote_kinds(t);
    lemma_quote_line(p, line, r, table);
}

/// The player name of the first name line of `content`.
pub open spec fn first_ign(ls: Seq<Seq<char>>) -> Option<Seq<char>>
    decreases ls.len(),
{
    if ls.len() == 0 {
        None
    } else {
        match player_ign(trimmed(ls[0])) {
            Some(n) => Some(n),
            None => first_ign(ls.drop_first()),
        }
    }
}

/// The player name a text block names, if any.
pub fn find_player_ign(content: &str) -> (r: Option<String>)
    ensures
        opt_text(r) == first_ign(lines_of(content@)),
{
    let cv = chars_of(content);
    let ls = lines(&cv);
    let mut i: usize = 0;
    assert(views(ls@).skip(0) == views(ls@));
    while i < ls.len()
        invariant
            i <= ls.len(),
            views(ls@) == lines_of(content@),
            first_ign(lines_of(content@)) == first_ign(views(ls@).skip(i as int)),
        decreases ls.len() - i,
    {
        let t = trim_chars(&ls[i]);
        let ts = string_of(&t);
        assert(views(ls@).skip(i as int)[0] == ls@[i as int]@);
        assert(views(ls@).skip(i as int).drop_first() == views(ls@).skip(i + 1));
        match parse_player_ign(ts.as_str()) {
            Some(n) => {
                return Some(n);
            },
            None => {},
        }
        i = i + 1;
    }
    None
}

/// The position of the first occurrence of `p` in `s` (`str::find`).
pub open spec fn find_seq(s: Seq<char>, p: Seq<char>) -> Option<int> {
    if exists|i: int| 0 <= i <= s.len() && #[trigger] has_prefix(s.skip(i), p) {
        Some(choose|i: int| 0 <= i <= s.len() && #[trigger] has_prefix(s.skip(i), p)
            && forall|j: int| 0 <= j < i ==> !#[trigger] has_prefix(s.skip(j), p))
    } else {
        None
    }
}

fn find_str(s: &Vec<char>, p: &str) -> (r: Option<usize>)
    ensures
        find_seq(s@, p@) == match r {
            Some(i) => Some(i as int),
            None => None,
        },
        match r {
            Some(i) => i <= s@.len() && has_prefix(s@.skip(i as int), p@),
            None => true,
        },
{
    let pv = chars_of(p);
    let mut i: usize = 0;
    while i < s.len()
        invariant
            pv@ == p@,
            i <= s.len(),
            forall|j: int| 0 <= j < i ==> !#[trigger] has_prefix(s@.skip(j), p@),
        decreases s.len() - i,
    {
        if matches_at(s, i, &pv) {
            proof {
                lemma_first_match(s@, p@, i as int);
            }
            return Some(i);
        }
        i = i + 1;
    }
    if matches_at(s, i, &pv) {
        proof {
            lemma_first_match(s@, p@, i as int);
        }
        return Some(i);
    }
    assert forall|j: int| 0 <= j <= s@.len() implies !#[trigger] has_prefix(s@.skip(j), p@) by {}
    None
}

proof fn lemma_first_match(s: Seq<char>, p: Seq<char>, i: int)
    requires
        0 <= i <= s.len(),
        has_prefix(s.skip(i), p),
        forall|j: int| 0 <= j < i ==> !#[trigger] has_prefix(s.skip(j), p),
    ensures
        find_seq(s, p) == Some(i),
{
    let k = choose|k: int| 0 <= k <= s.len() && #[trigger] has_prefix(s.skip(k), p)
        && forall|j: int| 0 <= j < k ==> !#[trigger] has_prefix(s.skip(j), p);
    if k < i {
        assert(!has_prefix(s.skip(k), p));
    } else if k > i {
        assert(!has_prefix(s.skip(i), p));
    }
}

/// The id mentioned first in `t`: the number between its first `<@` and the
/// next `>`.
pub open spec fn mention_in(t: Seq<char>) -> Option<u64> {
    match find_seq(t, "<@"@) {
        Some(k) => {
            let rest = t.skip(k + 2);
            match first_index(rest, '>') {
                Some(e) => u64_in(rest.take(e)),
                None => None,
            }
        },
        None => None,
    }
}

/// The submitter of a submission: the first mention that reads as an id,
/// text by text.
pub open spec fn submitter_in(texts: Seq<Seq<char>>) -> Option<u64>
    decreases texts.len(),
{
    if texts.len() == 0 {
        None
    } else {
        match mention_in(texts[0]) {
            Some(id) => Some(id),
            None => submitter_in(texts.drop_first()),
        }
    }
}

#[verifier::rlimit(40)]
fn mention_of(t: &Vec<char>) -> (r: Option<u64>)
    ensures
        r == mention_in(t@),
{
    proof {
        reveal_strlit("<@");
    }
    let found = find_str(t, "<@");
    match found {
        Some(k) => {
            assert(t@.len() == t.len());
            let rest = suffix_from(t, k + 2);
            assert(rest@ == t@.skip(k + 2));
            match find_char(&rest, '>') {
                Some(e) => {
                    let head = slice_chars(&rest, 0, e);
                    assert(head@ == rest@.take(e as int));
                    let v = parse_u64(&head);
                    v
                },
                None => None,
            }
        },
        None => None,
    }
}

/// The submitter a submission's texts mention.
pub fn find_submitter(texts: &Vec<String>) -> (r: Option<u64>)
    ensures
        r == submitter_in(texts.deep_view()),
{
    let mut i: usize = 0;
    assert(texts.deep_view().skip(0) == texts.deep_view());
    while i < texts.len()
        invariant
            i <= texts.len(),
            submitter_in(texts.deep_view()) == submitter_in(texts.deep_view().skip(i as int)),
        decreases texts.len() - i,
    {
        let t = chars_of(texts[i].as_str());
        assert(texts.deep_view().skip(i as int)[0] == texts@[i as int]@);
        assert(texts.deep_view().skip(i as int).drop_first() == texts.deep_view().skip(i + 1));
        match mention_of(&t) {
            Some(id) => {
                return Some(id);
            },
            None => {},
        }
        i = i + 1;
    }
    None
}

/// Whether a submission has been sent for votes: a text speaks of a verdict
/// or a vote, or a button casts one.
pub open spec fn is_submitted(texts: Seq<Seq<char>>, button_ids: Seq<Seq<char>>) -> bool {
    (exists|i: int| 0 <= i < texts.len() && (occurs_in(#[trigger] texts[i], "Approved"@)
        || occurs_in(texts[i], "Rejected"@) || occurs_in(texts[i], "Vote"@)))
    || (exists|i: int| 0 <= i < button_ids.len() && (has_prefix(#[trigger] button_ids[i], "review_approve:"@)
        || has_prefix(button_ids[i], "review_reject:"@)))
}

/// Whether a submission was reopened: its submitted-by line says so.
pub open spec fn is_reopened(texts: Seq<Seq<char>>) -> bool {
    exists|i: int| 0 <= i < texts.len() && has_prefix(#[trigger] texts[i], "-# Submitted by"@)
        && occurs_in(texts[i], "reopened"@)
}

pub fn submission_flags(texts: &Vec<String>, button_ids: &Vec<String>) -> (r: (bool, bool))
    ensures
        r.0 == is_submitted(texts.deep_view(), button_ids.deep_view()),
        r.1 == is_reopened(texts.deep_view()),
{
    let ghost tv = texts.deep_view();
    let ghost bv = button_ids.deep_view();
    let mut submitted = false;
    let mut reopened = false;
    let mut i: usize = 0;
    while i < texts.len()
        invariant
            i <= texts.len(),
            tv == texts.deep_view(),
            submitted == exists|j: int| 0 <= j < i && (occurs_in(#[trigger] tv[j], "Approved"@)
                || occurs_in(tv[j], "Rejected"@) || occurs_in(tv[j], "Vote"@)),
            reopened == exists|j: int| 0 <= j < i && has_prefix(#[trigger] tv[j], "-# Submitted by"@)
                && occurs_in(tv[j], "reopened"@),
        decreases texts.len() - i,
    {
        let t = chars_of(texts[i].as_str());
        assert(tv[i as int] == texts@[i as int]@);
        let verdict = contains_str(&t, "Approved") || contains_str(&t, "Rejected") || contains_str(&t, "Vote");
        let reopen = starts_with(&t, "-# Submitted by") && contains_str(&t, "reopened");
        if verdict {
            submitted = true;
        }
        if reopen {
            reopened = true;
        }
        i = i + 1;
    }
    let mut k: usize = 0;
    let mut button = false;
    while k < button_ids.len()
        invariant
            k <= button_ids.len(),
            bv == button_ids.deep_view(),
            button == exists|j: int| 0 <= j < k && (has_prefix(#[trigger] bv[j], "review_approve:"@)
                || has_prefix(bv[j], "review_reject:"@)),
        decreases button_ids.len() - k,
    {
        let b = chars_of(button_ids[k].as_str());
        assert(bv[k as int] == button_ids@[k as int]@);
        if starts_with(&b, "review_approve:") || starts_with(&b, "review_reject:") {
            button = true;
        }
        k = k + 1;
    }
    (submitted || button, reopened)
}

/// The tag type and uuid a confirmation button carries
/// (`review_confirm:<any>:<tag>:<uuid>`, the uuid taking the rest).
pub open spec fn confirm_ids(custom_id: Seq<char>) -> Option<(Seq<char>, Seq<char>)> {
    match after_prefix(custom_id, "review_confirm:"@) {
        Some(rest) => match first_index(rest, ':') {
            Some(i) => {
                let tail = rest.skip(i + 1);
                match first_index(tail, ':') {
                    Some(j) => Some((tail.take(j), tail.skip(j + 1))),
                    None => None,
                }
            },
            None => None,
        },
        None => None,
    }
}

/// The reason quoted in the first `> ` line of a text.
pub open spec fn first_quote(ls: Seq<Seq<char>>) -> Option<Seq<char>>
    decreases ls.len(),
{
    if ls.len() == 0 {
        None
    } else {
        match after_prefix(trimmed(ls[0]), "> "@) {
            Some(r) => Some(r),
            None => first_quote(ls.drop_first()),
        }
    }
}

/// The first player name, text by text.
pub open spec fn first_ign_in(texts: Seq<Seq<char>>) -> Option<Seq<char>>
    decreases texts.len(),
{
    if texts.len() == 0 {
        None
    } else {
        match first_ign(lines_of(texts[0])) {
            Some(n) => Some(n),
            None => first_ign_in(texts.drop_first()),
        }
    }
}

/// The first quoted reason, text by text.
pub open spec fn first_quote_in(texts: Seq<Seq<char>>) -> Option<Seq<char>>
    decreases texts.len(),
{
    if texts.len() == 0 {
        None
    } else {
        match first_quote(lines_of(texts[0])) {
            Some(r) => Some(r),
            None => first_quote_in(texts.drop_first()),
        }
    }
}

/// What a confirmation needs: the player's name, uuid, tag and reason.
pub struct ConfirmationData {
    pub player_name: String,
    pub player_uuid: String,
    pub tag_type: String,
    pub reason: String,
}

fn find_quote(content: &str) -> (r: Option<String>)
    ensures
        opt_text(r) == first_quote(lines_of(content@)),
{
    let cv = chars_of(content);
    let ls = lines(&cv);
    let mut i: usize = 0;
    assert(views(ls@).skip(0) == views(ls@));
    while i < ls.len()
        invariant
            i <= ls.len(),
            views(ls@) == lines_of(content@),
            first_quote(lines_of(content@)) == first_quote(views(ls@).skip(i as int)),
        decreases ls.len() - i,
    {
        let t = trim_chars(&ls[i]);
        assert(views(ls@).skip(i as int)[0] == ls@[i as int]@);
        assert(views(ls@).skip(i as int).drop_first() == views(ls@).skip(i + 1));
        match strip_prefix_chars(&t, "> ") {
            Some(r) => {
                return Some(string_of(&r));
            },
            None => {},
        }
        i = i + 1;
    }
    None
}

fn name_in_texts(texts: &Vec<String>) -> (r: Option<String>)
    ensures
        opt_text(r) == first_ign_in(texts.deep_view()),
{
    let mut k: usize = 0;
    assert(texts.deep_view().skip(0) == texts.deep_view());
    while k < texts.len()
        invariant
            k <= texts.len(),
            first_ign_in(texts.deep_view()) == first_ign_in(texts.deep_view().skip(k as int)),
        decreases texts.len() - k,
    {
        assert(texts.deep_view().skip(k as int)[0] == texts@[k as int]@);
        assert(texts.deep_view().skip(k as int).drop_first() == texts.deep_view().skip(k + 1));
        let found = find_player_ign(texts[k].as_str());
        if found.is_some() {
            return found;
        }
        k = k + 1;
    }
    None
}

fn quote_in_texts(texts: &Vec<String>) -> (r: Option<String>)
    ensures
        opt_text(r) == first_quote_in(texts.deep_view()),
{
    let mut m: usize = 0;
    assert(texts.deep_view().skip(0) == texts.deep_view());
    while m < texts.len()
        invariant
            m <= texts.len(),
            first_quote_in(texts.deep_view()) == first_quote_in(texts.deep_view().skip(m as int)),
        decreases texts.len() - m,
    {
        assert(texts.deep_view().skip(m as int)[0] == texts@[m as int]@);
        assert(texts.deep_view().skip(m as int).drop_first() == texts.deep_view().skip(m + 1));
        let found = find_quote(texts[m].as_str());
        if found.is_some() {
            return found;
        }
        m = m + 1;
    }
    None
}

/// Reads a confirmation button and the texts of its message: `None` where
/// the button carries no tag and uuid, or no text names a player; the
/// reason (its escapes undone) is empty where no text quotes one.
pub fn parse_confirmation_data(custom_id: &str, texts: &Vec<String>) -> (r: Option<ConfirmationData>)
    ensures
        match r {
            Some(d) => confirm_ids(custom_id@) is Some && first_ign_in(texts.deep_view()) is Some
                && d.tag_type@ == confirm_ids(custom_id@)->Some_0.0
                && d.player_uuid@ == confirm_ids(custom_id@)->Some_0.1
                && d.player_name@ == first_ign_in(texts.deep_view())->0
                && d.reason@ == match first_quote_in(texts.deep_view()) {
                    Some(q) => unsanitized(q),
                    None => Seq::<char>::empty(),
                },
            None => confirm_ids(custom_id@) is None || first_ign_in(texts.deep_view()) is None,
        },
{
    let id = chars_of(custom_id);
    let rest = match strip_prefix_chars(&id, "review_confirm:") {
        Some(r) => r,
        None => return None,
    };
    let i = match find_char(&rest, ':') {
        Some(i) => i,
        None => return None,
    };
    assert(i < rest@.len());
    assert(rest@.len() == rest.len());
    let tail = suffix_from(&rest, i + 1);
    let j = match find_char(&tail, ':') {
        Some(j) => j,
        None => return None,
    };
    let tag = slice_chars(&tail, 0, j);
    assert(tag@ == tail@.take(j as int));
    let uuid = suffix_from(&tail, j + 1);
    let player_name = match name_in_texts(texts) {
        Some(n) => n,
        None => return None,
    };
    let reason = match quote_in_texts(texts) {
        Some(r) => unsanitize_reason(r.as_str()),
        None => String::new(),
    };
    Some(ConfirmationData {
        player_name,
        player_uuid: string_of(&uuid),
        tag_type: string_of(&tag),
        reason,
    })
}

} // verus!
