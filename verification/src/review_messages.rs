//! The text of a review submission's messages: its header and footer
//! buttons, the editor of one player's evidence, and the announcements of
//! votes and verdicts.

use vstd::prelude::*;
use crate::review_votes::PlayerStatus;
use crate::evidence_text::{media_label, evidence_label};
use crate::text::{string_of, push_str, push_chars, decimal, decimal_chars, chars_of, str_eq, has_prefix, first_index, lemma_decimal_has_no};
use crate::review_state::confirm_ids;
use crate::stats_text::{find_pair, pair_index_from, pair_views};

verus! {

/// The most players one submission holds.
pub const MAX_PLAYERS: usize = 4;

/// The header of a submission: the player count where there is more than one.
pub open spec fn header_text(emote: Seq<char>, players: nat) -> Seq<char> {
    if players > 1 {
        "## "@ + emote + " Tag Review \u{b7} "@ + decimal(players) + " players"@
    } else {
        "## "@ + emote + " Tag Review"@
    }
}

pub fn review_header(emote: &str, players: usize) -> (r: String)
    ensures
        r@ == header_text(emote@, players as nat),
{
    let mut out: Vec<char> = Vec::new();
    push_str(&mut out, "## ");
    push_str(&mut out, emote);
    if players > 1 {
        push_str(&mut out, " Tag Review \u{b7} ");
        let d = decimal_chars(players as u64);
        push_chars(&mut out, &d);
        push_str(&mut out, " players");
    } else {
        push_str(&mut out, " Tag Review");
    }
    string_of(&out)
}

/// The line that names the submitter, marked where the review was reopened.
pub open spec fn submitter_text(submitter: u64, reopened: bool) -> Seq<char> {
    if reopened {
        "-# Evidence submitted by <@"@ + decimal(submitter as nat) + "> \u{b7} reopened"@
    } else {
        "-# Evidence submitted by <@"@ + decimal(submitter as nat) + ">"@
    }
}

pub fn submitter_line(submitter: u64, reopened: bool) -> (r: String)
    ensures
        r@ == submitter_text(submitter, reopened),
{
    let mut out: Vec<char> = Vec::new();
    push_str(&mut out, "-# Evidence submitted by <@");
    let d = decimal_chars(submitter);
    push_chars(&mut out, &d);
    if reopened {
        push_str(&mut out, "> \u{b7} reopened");
    } else {
        push_str(&mut out, ">");
    }
    string_of(&out)
}

/// `<prefix><n>` for a button id.
pub open spec fn id_with(prefix: Seq<char>, n: nat) -> Seq<char> {
    prefix + decimal(n)
}

fn button_id(prefix: &str, n: u64) -> (r: String)
    ensures
        r@ == id_with(prefix@, n as nat),
{
    let mut out: Vec<char> = Vec::new();
    push_str(&mut out, prefix);
    let d = decimal_chars(n);
    push_chars(&mut out, &d);
    string_of(&out)
}

/// The buttons under a submission being written: "+ Player" while there is
/// room and no player is being added; "Submit" and "Cancel Review" once it
/// was reopened.
pub open spec fn editing_button_ids(players: nat, adding: bool, reopened: bool, submitter: u64) -> Seq<Seq<char>> {
    let add = if players < 4 && !adding {
        seq![id_with("review_add_player:"@, submitter as nat)]
    } else {
        Seq::empty()
    };
    let more = if reopened {
        seq![id_with("review_submit:"@, submitter as nat), id_with("review_cancel_thread:"@, submitter as nat)]
    } else {
        Seq::empty()
    };
    add + more
}

pub fn editing_footer_ids(players: usize, adding: bool, reopened: bool, submitter: u64) -> (r: Vec<String>)
    ensures
        r.deep_view() == editing_button_ids(players as nat, adding, reopened, submitter),
{
    let mut r: Vec<String> = Vec::new();
    if players < MAX_PLAYERS && !adding {
        r.push(button_id("review_add_player:", submitter));
    }
    if reopened {
        let ghost before = r.deep_view();
        r.push(button_id("review_submit:", submitter));
        r.push(button_id("review_cancel_thread:", submitter));
        assert(r.deep_view() =~= before + seq![
            id_with("review_submit:"@, submitter as nat),
            id_with("review_cancel_thread:"@, submitter as nat)
        ]);
    }
    assert(r.deep_view() =~= editing_button_ids(players as nat, adding, reopened, submitter));
    r
}

/// The "Edit" button of a submitted review, shown while a player is pending.
pub open spec fn any_pending(statuses: Seq<PlayerStatus>) -> bool {
    exists|i: int| 0 <= i < statuses.len() && statuses[i] == PlayerStatus::Pending
}

pub fn submitted_footer_id(statuses: &Vec<PlayerStatus>, submitter: u64) -> (r: Option<String>)
    ensures
        match r {
            Some(id) => any_pending(statuses@) && id@ == id_with("review_edit_submitted:"@, submitter as nat),
            None => !any_pending(statuses@),
        },
{
    let mut i: usize = 0;
    while i < statuses.len()
        invariant
            i <= statuses.len(),
            forall|j: int| 0 <= j < i ==> statuses@[j] != PlayerStatus::Pending,
        decreases statuses.len() - i,
    {
        if statuses[i] == PlayerStatus::Pending {
            return Some(button_id("review_edit_submitted:", submitter));
        }
        i = i + 1;
    }
    None
}

/// The label of piece `idx` of a player's evidence, given which pieces are
/// replays (with `None`) and which are files: a file by its name, a replay
/// by its number among the replays up to it.
pub open spec fn replays_upto(pieces: Seq<Option<Seq<char>>>, idx: int) -> nat
    decreases idx + 1,
{
    if idx < 0 {
        0
    } else {
        replays_upto(pieces, idx - 1) + (if pieces[idx] is None { 1nat } else { 0nat })
    }
}

pub open spec fn piece_label(pieces: Seq<Option<Seq<char>>>, idx: int) -> Seq<char> {
    match pieces[idx] {
        Some(f) => media_label(f),
        None => "Replay "@ + decimal(replays_upto(pieces, idx)),
    }
}

pub open spec fn pieces_view(v: Seq<Option<String>>) -> Seq<Option<Seq<char>>> {
    Seq::new(v.len(), |i: int| match v[i] {
        Some(s) => Some(s@),
        None => None,
    })
}

pub fn evidence_piece_label(pieces: &Vec<Option<String>>, idx: usize) -> (r: String)
    requires
        idx < pieces.len(),
    ensures
        r@ == piece_label(pieces_view(pieces@), idx as int),
{
    let ghost pv = pieces_view(pieces@);
    match &pieces[idx] {
        Some(f) => evidence_label(f.as_str()),
        None => {
            let mut n: u64 = 0;
            let mut i: usize = 0;
            while i <= idx
                invariant
                    i <= idx + 1,
                    idx < pieces.len(),
                    pv == pieces_view(pieces@),
                    n == replays_upto(pv, i - 1),
                    n <= i,
                decreases idx + 1 - i,
            {
                if pieces[i].is_none() {
                    n = n + 1;
                }
                i = i + 1;
            }
            let mut out: Vec<char> = Vec::new();
            push_str(&mut out, "Replay ");
            let d = decimal_chars(n);
            push_chars(&mut out, &d);
            string_of(&out)
        },
    }
}

/// The piece shown in the evidence editor: the one asked for, or the last.
pub fn selected_piece(requested: usize, count: usize) -> (r: usize)
    requires
        count > 0,
    ensures
        r == (if requested < count - 1 { requested } else { (count - 1) as usize }),
{
    if requested < count - 1 { requested } else { count - 1 }
}

/// The announcement of a member's vote.
pub open spec fn vote_text(voter: u64, vote_type: Seq<char>, label: Seq<char>, username: Seq<char>, changed: bool) -> Seq<char> {
    let lead = if changed { " changed their vote to **"@ } else { " voted to **"@ };
    "<@"@ + decimal(voter as nat) + ">"@ + lead + vote_type + "** the "@ + label + " tag on `"@ + username + "`."@
}

pub fn vote_announcement(voter: u64, vote_type: &str, label: &str, username: &str, changed: bool) -> (r: String)
    ensures
        r@ == vote_text(voter, vote_type@, label@, username@, changed),
{
    let mut out: Vec<char> = Vec::new();
    push_str(&mut out, "<@");
    let d = decimal_chars(voter);
    push_chars(&mut out, &d);
    push_str(&mut out, ">");
    if changed {
        push_str(&mut out, " changed their vote to **");
    } else {
        push_str(&mut out, " voted to **");
    }
    push_str(&mut out, vote_type);
    push_str(&mut out, "** the ");
    push_str(&mut out, label);
    push_str(&mut out, " tag on `");
    push_str(&mut out, username);
    push_str(&mut out, "`.");
    string_of(&out)
}

/// The message that announces a decision: in the name of the deciding
/// staff member, or of the vote.
pub open spec fn verdict_text(voter: u64, is_staff: bool, approved: bool, label: Seq<char>, username: Seq<char>) -> Seq<char> {
    let action = if approved { "approved"@ } else { "rejected"@ };
    if is_staff {
        "<@"@ + decimal(voter as nat) + "> **"@ + action + "** the "@ + label + " tag on `"@ + username + "`."@
    } else {
        "The "@ + label + " tag on `"@ + username + "` was **"@ + action + "** by review."@
    }
}

pub fn verdict_announcement(voter: u64, is_staff: bool, approved: bool, label: &str, username: &str) -> (r: String)
    ensures
        r@ == verdict_text(voter, is_staff, approved, label@, username@),
{
    let action = if approved { "approved" } else { "rejected" };
    let mut out: Vec<char> = Vec::new();
    if is_staff {
        push_str(&mut out, "<@");
        let d = decimal_chars(voter);
        push_chars(&mut out, &d);
        push_str(&mut out, "> **");
        push_str(&mut out, action);
        push_str(&mut out, "** the ");
        push_str(&mut out, label);
        push_str(&mut out, " tag on `");
        push_str(&mut out, username);
        push_str(&mut out, "`.");
    } else {
        push_str(&mut out, "The ");
        push_str(&mut out, label);
        push_str(&mut out, " tag on `");
        push_str(&mut out, username);
        push_str(&mut out, "` was **");
        push_str(&mut out, action);
        push_str(&mut out, "** by review.");
    }
    string_of(&out)
}

/// One line of the summary sent when every player has a verdict.
pub open spec fn status_word(s: PlayerStatus) -> Seq<char> {
    match s {
        PlayerStatus::Approved => "approved"@,
        PlayerStatus::Rejected => "rejected"@,
        PlayerStatus::Pending => "pending"@,
    }
}

pub open spec fn summary_line_text(emote: Seq<char>, username: Seq<char>, s: PlayerStatus) -> Seq<char> {
    "\n- "@ + emote + " `"@ + username + "` \u{2014} **"@ + status_word(s) + "**"@
}

pub fn summary_line(emote: &str, username: &str, s: PlayerStatus) -> (r: String)
    ensures
        r@ == summary_line_text(emote@, username@, s),
{
    let word = match s {
        PlayerStatus::Approved => "approved",
        PlayerStatus::Rejected => "rejected",
        PlayerStatus::Pending => "pending",
    };
    let mut out: Vec<char> = Vec::new();
    push_str(&mut out, "\n- ");
    push_str(&mut out, emote);
    push_str(&mut out, " `");
    push_str(&mut out, username);
    push_str(&mut out, "` \u{2014} **");
    push_str(&mut out, word);
    push_str(&mut out, "**");
    string_of(&out)
}

/// The id of the button that opens a review post for a confirmed tag.
pub open spec fn confirm_button_text(submitter: u64, tag_type: Seq<char>, uuid: Seq<char>) -> Seq<char> {
    "review_confirm:"@ + decimal(submitter as nat) + ":"@ + tag_type + ":"@ + uuid
}

pub fn confirm_button_id(submitter: u64, tag_type: &str, uuid: &str) -> (r: String)
    ensures
        r@ == confirm_button_text(submitter, tag_type@, uuid@),
{
    let mut out: Vec<char> = Vec::new();
    push_str(&mut out, "review_confirm:");
    let d = decimal_chars(submitter);
    push_chars(&mut out, &d);
    push_str(&mut out, ":");
    push_str(&mut out, tag_type);
    push_str(&mut out, ":");
    push_str(&mut out, uuid);
    string_of(&out)
}

/// Where a confirmed tag is taken for its review: the forum channel, where
/// one is set up.
pub open spec fn destination_text(forum: Option<u64>) -> Seq<char> {
    match forum {
        Some(id) => "<#"@ + decimal(id as nat) + ">"@,
        None => "the review channel"@,
    }
}

pub fn confirmation_destination(forum: Option<u64>) -> (r: String)
    ensures
        r@ == destination_text(forum),
{
    let mut out: Vec<char> = Vec::new();
    match forum {
        Some(id) => {
            push_str(&mut out, "<#");
            let d = decimal_chars(id);
            push_chars(&mut out, &d);
            push_str(&mut out, ">");
        },
        None => {
            push_str(&mut out, "the review channel");
        },
    }
    string_of(&out)
}

proof fn lemma_confirm_ids_of(id: Seq<char>, rest: Seq<char>, i: int, tail: Seq<char>, j: int, tag: Seq<char>, uuid: Seq<char>)
    requires
        has_prefix(id, "review_confirm:"@),
        id.skip("review_confirm:"@.len() as int) == rest,
        first_index(rest, ':') == Some(i),
        rest.skip(i + 1) == tail,
        first_index(tail, ':') == Some(j),
        tail.take(j) == tag,
        tail.skip(j + 1) == uuid,
    ensures
        confirm_ids(id) == Some((tag, uuid)),
{
}

proof fn lemma_first_colon_at(head: Seq<char>, rest: Seq<char>)
    requires
        !head.contains(':'),
    ensures
        first_index(head + seq![':'] + rest, ':') == Some(head.len() as int),
{
    let t = head + seq![':'] + rest;
    assert(t[head.len() as int] == ':');
    let i = choose|i: int| 0 <= i < t.len() && t[i] == ':' && forall|j: int| 0 <= j < i ==> t[j] != ':';
    if i < head.len() {
        assert(t[i] == head[i]);
    }
    if i > head.len() {
        assert(t[head.len() as int] != ':');
    }
}

/// The confirmation button of a tag reads back as the tag and the player's
/// uuid it was made for, for every tag name without a `:`.
#[verifier::rlimit(40)]
#[verifier::spinoff_prover]
pub proof fn confirm_button_reads_back(submitter: u64, tag_type: Seq<char>, uuid: Seq<char>)
    requires
        !tag_type.contains(':'),
    ensures
        confirm_ids(confirm_button_text(submitter, tag_type, uuid)) == Some((tag_type, uuid)),
{
    let p = "review_confirm:"@;
    let d = decimal(submitter as nat);
    let tail = tag_type + seq![':'] + uuid;
    let rest = d + seq![':'] + tail;
    let id = confirm_button_text(submitter, tag_type, uuid);
    assert(id == p + rest) by {
        reveal_strlit(":");
        assert(":"@ == seq![':']);
        assert(id =~= p + rest);
    }
    assert(has_prefix(id, p)) by {
        assert(id.take(p.len() as int) =~= p);
    }
    assert(id.skip(p.len() as int) == rest) by {
        assert(id.skip(p.len() as int) =~= rest);
    }
    lemma_decimal_has_no(submitter as nat, ':');
    lemma_first_colon_at(d, tail);
    assert(rest.skip(d.len() as int + 1) == tail) by {
        assert(rest.skip(d.len() as int + 1) =~= tail);
    }
    lemma_first_colon_at(tag_type, uuid);
    assert(tail.take(tag_type.len() as int) == tag_type) by {
        assert(tail.take(tag_type.len() as int) =~= tag_type);
    }
    assert(tail.skip(tag_type.len() as int + 1) == uuid) by {
        assert(tail.skip(tag_type.len() as int + 1) =~= uuid);
    }
    lemma_confirm_ids_of(id, rest, d.len() as int, tail, tag_type.len() as int, tag_type, uuid);
}


/// The file name of a player's face image.
pub open spec fn face_name(uuid: Seq<char>) -> Seq<char> {
    "face_"@ + uuid + ".png"@
}

pub fn face_filename(uuid: &str) -> (r: String)
    ensures
        r@ == face_name(uuid@),
{
    let mut out: Vec<char> = Vec::new();
    push_str(&mut out, "face_");
    push_str(&mut out, uuid);
    push_str(&mut out, ".png");
    string_of(&out)
}


/// `<prefix><a>:<b>` for a control id.
pub open spec fn id2(prefix: Seq<char>, a: nat, b: nat) -> Seq<char> {
    prefix + decimal(a) + ":"@ + decimal(b)
}

/// `<prefix><a>:<b>:<c>` for a control id.
pub open spec fn id3(prefix: Seq<char>, a: nat, b: nat, c: nat) -> Seq<char> {
    prefix + decimal(a) + ":"@ + decimal(b) + ":"@ + decimal(c)
}

fn control_id(prefix: &str, nums: &Vec<u64>) -> (r: String)
    requires
        nums.len() == 2 || nums.len() == 3,
    ensures
        nums.len() == 2 ==> r@ == id2(prefix@, nums[0] as nat, nums[1] as nat),
        nums.len() == 3 ==> r@ == id3(prefix@, nums[0] as nat, nums[1] as nat, nums[2] as nat),
{
    let mut out: Vec<char> = Vec::new();
    push_str(&mut out, prefix);
    push_chars(&mut out, &decimal_chars(nums[0]));
    push_str(&mut out, ":");
    push_chars(&mut out, &decimal_chars(nums[1]));
    if nums.len() == 3 {
        push_str(&mut out, ":");
        push_chars(&mut out, &decimal_chars(nums[2]));
    }
    string_of(&out)
}

/// The heading of the editor of a player's entry.
pub open spec fn edit_header_text(emote: Seq<char>, username: Seq<char>) -> Seq<char> {
    "## "@ + emote + " Edit \u{2014} `"@ + username + "`"@
}

/// The index of the `k`-th piece other than `sel`.
pub open spec fn other_index(k: int, sel: int) -> int {
    if k < sel { k } else { k + 1 }
}

/// Where the media of a file is shown: its uploaded URL from `urls`, a list
/// of (file name, URL), or the attachment of that name.
pub open spec fn media_url_text(urls: Seq<(Seq<char>, Seq<char>)>, filename: Seq<char>) -> Seq<char> {
    match pair_index_from(urls, filename, 0) {
        Some(i) => urls[i].1,
        None => "attachment://"@ + filename,
    }
}

/// The editor of one player's entry in a submission being written.
pub struct EditManager {
    /// Its heading.
    pub header: String,
    /// The evidence piece shown, where the player has any.
    pub selected: Option<usize>,
    /// Where the shown piece is a file, the URL it is shown from.
    pub shown_media: Option<String>,
    /// The menu of the other pieces, by label and index, where there are
    /// other pieces.
    pub select_id: Option<String>,
    pub other_pieces: Vec<(String, usize)>,
    /// The buttons of the shown piece: "Edit Replay" for a replay, then
    /// "Remove Evidence".
    pub piece_button_ids: Vec<String>,
    /// The menu that changes the tag.
    pub tag_select_id: String,
    /// "Edit Reason", "Remove Tag" where the submission has other players,
    /// and "Done".
    pub control_ids: Vec<String>,
}

/// The editor of player `idx` of a submission by `submitter` with `players`
/// players, whose evidence pieces are `pieces` (a file by its name, a replay
/// as `None`), showing the piece `requested` or, past the end, the last.
pub fn edit_manager(
    emote: &str,
    username: &str,
    pieces: &Vec<Option<String>>,
    requested: usize,
    urls: &Vec<(String, String)>,
    idx: usize,
    players: usize,
    submitter: u64,
) -> (r: EditManager)
    requires
        idx < players,
    ensures
        r.header@ == edit_header_text(emote@, username@),
        pieces.len() == 0 ==> {
            &&& r.selected is None
            &&& r.shown_media is None
            &&& r.select_id is None
            &&& r.other_pieces@.len() == 0
            &&& r.piece_button_ids@.len() == 0
        },
        pieces.len() > 0 ==> {
            let sel = if requested < pieces.len() - 1 { requested as int } else { pieces.len() - 1 };
            &&& r.selected == Some(sel as usize)
            &&& (match pieces@[sel] {
                Some(f) => r.shown_media is Some && r.shown_media->Some_0@ == media_url_text(pair_views(urls@), f@),
                None => r.shown_media is None,
            })
            &&& r.piece_button_ids.deep_view() == (if pieces@[sel] is None {
                seq![id3("review_edit_replay:"@, idx as nat, sel as nat, submitter as nat)]
            } else {
                Seq::empty()
            }) + seq![id3("review_remove_evidence:"@, idx as nat, sel as nat, submitter as nat)]
            &&& (pieces.len() > 1 ==> {
                &&& r.select_id is Some
                &&& r.select_id->Some_0@ == id2("review_evsel:"@, idx as nat, submitter as nat)
                &&& r.other_pieces@.len() == pieces.len() - 1
                &&& forall|k: int| 0 <= k < pieces.len() - 1 ==> {
                    &&& (#[trigger] r.other_pieces@[k]).1 == other_index(k, sel)
                    &&& r.other_pieces@[k].0@ == piece_label(pieces_view(pieces@), other_index(k, sel))
                }
            })
            &&& (pieces.len() == 1 ==> r.select_id is None && r.other_pieces@.len() == 0)
        },
        r.tag_select_id@ == id2("review_tag_select_edit:"@, idx as nat, submitter as nat),
        r.control_ids.deep_view() == seq![id2("review_edit_reason:"@, idx as nat, submitter as nat)]
            + (if players > 1 { seq![id2("review_remove_player:"@, idx as nat, submitter as nat)] } else { Seq::empty() })
            + seq![id2("review_edit_done:"@, idx as nat, submitter as nat)],
{
    let mut hv: Vec<char> = Vec::new();
    push_str(&mut hv, "## ");
    push_str(&mut hv, emote);
    push_str(&mut hv, " Edit \u{2014} `");
    push_str(&mut hv, username);
    push_str(&mut hv, "`");
    let header = string_of(&hv);
    let i64v = idx as u64;
    let sub = submitter;
    let mut selected: Option<usize> = None;
    let mut shown_media: Option<String> = None;
    let mut select_id: Option<String> = None;
    let mut other_pieces: Vec<(String, usize)> = Vec::new();
    let mut piece_button_ids: Vec<String> = Vec::new();
    if pieces.len() > 0 {
        let sel = selected_piece(requested, pieces.len());
        selected = Some(sel);
        let sel64 = sel as u64;
        match &pieces[sel] {
            Some(f) => {
                let url = match find_pair(urls, f.as_str()) {
                    Some(j) => urls[j].1.clone(),
                    None => {
                        let mut uv: Vec<char> = Vec::new();
                        push_str(&mut uv, "attachment://");
                        push_str(&mut uv, f.as_str());
                        string_of(&uv)
                    },
                };
                shown_media = Some(url);
                piece_button_ids.push(control_id("review_remove_evidence:", &vec![i64v, sel64, sub]));
            },
            None => {
                piece_button_ids.push(control_id("review_edit_replay:", &vec![i64v, sel64, sub]));
                piece_button_ids.push(control_id("review_remove_evidence:", &vec![i64v, sel64, sub]));
            },
        }
        if pieces.len() > 1 {
            select_id = Some(control_id("review_evsel:", &vec![i64v, sub]));
            let mut i: usize = 0;
            while i < pieces.len()
                invariant
                    i <= pieces.len(),
                    sel < pieces.len(),
                    other_pieces@.len() == if i <= sel { i as int } else { i - 1 },
                    forall|k: int| 0 <= k < other_pieces@.len() ==> {
                        &&& (#[trigger] other_pieces@[k]).1 == other_index(k, sel as int)
                        &&& other_pieces@[k].0@ == piece_label(pieces_view(pieces@), other_index(k, sel as int))
                    },
                decreases pieces.len() - i,
            {
                if i != sel {
                    let label = evidence_piece_label(pieces, i);
                    other_pieces.push((label, i));
                }
                i = i + 1;
            }
        }
    }
    let mut control_ids: Vec<String> = Vec::new();
    control_ids.push(control_id("review_edit_reason:", &vec![i64v, sub]));
    if players > 1 {
        control_ids.push(control_id("review_remove_player:", &vec![i64v, sub]));
    }
    control_ids.push(control_id("review_edit_done:", &vec![i64v, sub]));
    let tag_select_id = control_id("review_tag_select_edit:", &vec![i64v, sub]);
    EditManager { header, selected, shown_media, select_id, other_pieces, piece_button_ids, tag_select_id, control_ids }
}

} // verus!
