//! Which files of an upload become evidence, under which names, and which
//! are refused for not being images or videos.

use vstd::prelude::*;
use crate::evidence_state::{evidence_filename, upload_name, EvidenceItem};
use crate::evidence_manage::item_names;
use crate::evidence_text::{is_media_extension, url_ext, url_extension};
use crate::text::{ascii_lowercase, chars_of, split_chars, split_on, str_eq, string_of, to_ascii_lowercase, views};

verus! {

/// Files of a review submission's player, at most.
pub const MAX_MEDIA_PER_PLAYER: usize = 4;

/// What becomes of one uploaded file.
pub enum UploadStep {
    /// The upload names no file the interaction carries.
    Skipped,
    /// Not an image or video.
    Refused,
    /// Kept under this name.
    Kept(String),
}

/// The same with the name as a character sequence.
pub enum StepView {
    Skipped,
    Refused,
    Kept(Seq<char>),
}

pub open spec fn step_view(s: UploadStep) -> StepView {
    match s {
        UploadStep::Skipped => StepView::Skipped,
        UploadStep::Refused => StepView::Refused,
        UploadStep::Kept(n) => StepView::Kept(n@),
    }
}

pub open spec fn step_views(v: Seq<UploadStep>) -> Seq<StepView> {
    Seq::new(v.len(), |i: int| step_view(v[i]))
}

/// The step for upload `i`, whose extension (in lower case) is `ext`: kept
/// as `<player>_<existing + i + 1>.<ext>` where that is a media extension.
pub open spec fn step_for(file: Option<String>, ext: Seq<char>, existing: nat, i: nat, username: Seq<char>) -> StepView {
    match file {
        None => StepView::Skipped,
        Some(_) => if is_media_extension(ext) {
            StepView::Kept(upload_name(username, existing + i + 1, ext))
        } else {
            StepView::Refused
        },
    }
}

/// The extension of an evidence post's upload: the URL-style extension of
/// its file name, in lower case.
pub open spec fn post_ext(file: Option<String>) -> Seq<char> {
    match file {
        Some(f) => ascii_lowercase(url_ext(f@)),
        None => Seq::empty(),
    }
}

/// The extension of a review upload: what follows the last `.` of its file
/// name, in lower case.
pub open spec fn review_ext(file: Option<String>) -> Seq<char> {
    match file {
        Some(f) => ascii_lowercase(split_on(f@, '.').last()),
        None => Seq::empty(),
    }
}

/// The plan for the files added to an evidence post holding `existing`
/// files: every upload is considered.
pub open spec fn post_plan_spec(files: Seq<Option<String>>, existing: nat, username: Seq<char>) -> Seq<StepView> {
    Seq::new(files.len(), |i: int| step_for(files[i], post_ext(files[i]), existing, i as nat, username))
}

/// The plan for the files added to a review player holding `existing`
/// attachments: only as many uploads as still fit are considered.
pub open spec fn review_plan_spec(files: Seq<Option<String>>, existing: nat, username: Seq<char>) -> Seq<StepView> {
    let room: nat = if existing >= MAX_MEDIA_PER_PLAYER { 0 } else { (MAX_MEDIA_PER_PLAYER - existing) as nat };
    let n: nat = if files.len() <= room { files.len() } else { room };
    Seq::new(n, |i: int| step_for(files[i], review_ext(files[i]), existing, i as nat, username))
}

fn is_media_ext(e: &Vec<char>) -> (r: bool)
    ensures
        r == is_media_extension(e@),
{
    let s = string_of(e);
    str_eq(s.as_str(), "png") || str_eq(s.as_str(), "jpg") || str_eq(s.as_str(), "jpeg")
        || str_eq(s.as_str(), "gif") || str_eq(s.as_str(), "webp") || str_eq(s.as_str(), "mp4")
        || str_eq(s.as_str(), "webm") || str_eq(s.as_str(), "mov")
}

fn post_ext_of(f: &String) -> (r: Vec<char>)
    ensures
        r@ == ascii_lowercase(url_ext(f@)),
{
    let e = url_extension(f.as_str());
    let ev = chars_of(e.as_str());
    to_ascii_lowercase(&ev)
}

fn review_ext_of(f: &String) -> (r: Vec<char>)
    ensures
        r@ == ascii_lowercase(split_on(f@, '.').last()),
{
    let v = chars_of(f.as_str());
    let parts = split_chars(&v, '.');
    assert(views(parts@).last() == parts@[parts.len() - 1]@);
    to_ascii_lowercase(&parts[parts.len() - 1])
}

fn step_of(file: &Option<String>, ext: &Vec<char>, existing: usize, i: usize, username: &str) -> (r: UploadStep)
    requires
        existing + i + 1 <= u64::MAX,
    ensures
        step_view(r) == step_for(*file, ext@, existing as nat, i as nat, username@),
{
    match file {
        None => UploadStep::Skipped,
        Some(_) => {
            if is_media_ext(ext) {
                let e = string_of(ext);
                UploadStep::Kept(evidence_filename(username, existing as u64 + i as u64 + 1, e.as_str()))
            } else {
                UploadStep::Refused
            }
        },
    }
}

/// The plan for files added to an evidence post.
pub fn post_upload_plan(files: &Vec<Option<String>>, existing: usize, username: &str) -> (r: Vec<UploadStep>)
    requires
        existing + files@.len() <= u64::MAX,
    ensures
        step_views(r@) == post_plan_spec(files@, existing as nat, username@),
{
    let ghost want = post_plan_spec(files@, existing as nat, username@);
    let mut out: Vec<UploadStep> = Vec::new();
    let mut i: usize = 0;
    while i < files.len()
        invariant
            i <= files.len(),
            existing + files@.len() <= u64::MAX,
            want == post_plan_spec(files@, existing as nat, username@),
            step_views(out@) == want.take(i as int),
        decreases files.len() - i,
    {
        let ext = match &files[i] {
            Some(f) => post_ext_of(f),
            None => Vec::new(),
        };
        let st = step_of(&files[i], &ext, existing, i, username);
        let ghost before = step_views(out@);
        out.push(st);
        assert(step_views(out@) =~= before.push(want[i as int]));
        assert(want.take(i + 1) =~= want.take(i as int).push(want[i as int]));
        i = i + 1;
    }
    assert(want.take(files@.len() as int) =~= want);
    out
}

/// The plan for files added to a player of a review submission.
pub fn review_upload_plan(files: &Vec<Option<String>>, existing: usize, username: &str) -> (r: Vec<UploadStep>)
    ensures
        step_views(r@) == review_plan_spec(files@, existing as nat, username@),
{
    let room: usize = if existing >= MAX_MEDIA_PER_PLAYER { 0 } else { MAX_MEDIA_PER_PLAYER - existing };
    let n: usize = if files.len() <= room { files.len() } else { room };
    let ghost want = review_plan_spec(files@, existing as nat, username@);
    let mut out: Vec<UploadStep> = Vec::new();
    let mut i: usize = 0;
    while i < n
        invariant
            i <= n,
            n <= files.len(),
            n <= room,
            room == (if existing >= MAX_MEDIA_PER_PLAYER { 0 } else { MAX_MEDIA_PER_PLAYER - existing }),
            want == review_plan_spec(files@, existing as nat, username@),
            want.len() == n,
            step_views(out@) == want.take(i as int),
        decreases n - i,
    {
        let ext = match &files[i] {
            Some(f) => review_ext_of(f),
            None => Vec::new(),
        };
        let st = step_of(&files[i], &ext, existing, i, username);
        let ghost before = step_views(out@);
        out.push(st);
        assert(step_views(out@) =~= before.push(want[i as int]));
        assert(want.take(i + 1) =~= want.take(i as int).push(want[i as int]));
        i = i + 1;
    }
    assert(want.take(n as int) =~= want);
    out
}


/// The names that the uploads add to a post: those of the files kept by the
/// plan whose download succeeded, in order.
pub open spec fn added_names(steps: Seq<StepView>, downloaded: Seq<bool>) -> Seq<Seq<char>>
    decreases steps.len(),
{
    if steps.len() == 0 {
        Seq::empty()
    } else {
        let prev = added_names(steps.drop_last(), downloaded);
        match steps.last() {
            StepView::Kept(n) => if downloaded[steps.len() - 1] { prev.push(n) } else { prev },
            _ => prev,
        }
    }
}

/// How many uploads were refused: not images or videos, or kept but not
/// downloaded.
pub open spec fn refused_count(steps: Seq<StepView>, downloaded: Seq<bool>) -> nat
    decreases steps.len(),
{
    if steps.len() == 0 {
        0
    } else {
        let prev = refused_count(steps.drop_last(), downloaded);
        match steps.last() {
            StepView::Kept(_) => if downloaded[steps.len() - 1] { prev } else { prev + 1 },
            StepView::Refused => prev + 1,
            StepView::Skipped => prev,
        }
    }
}

proof fn lemma_added_prefix(steps: Seq<StepView>, downloaded: Seq<bool>, i: int)
    requires
        0 <= i < steps.len(),
    ensures
        added_names(steps.take(i + 1), downloaded) == ({
            let prev = added_names(steps.take(i), downloaded);
            match steps[i] {
                StepView::Kept(n) => if downloaded[i] { prev.push(n) } else { prev },
                _ => prev,
            }
        }),
        refused_count(steps.take(i + 1), downloaded) == ({
            let prev = refused_count(steps.take(i), downloaded);
            match steps[i] {
                StepView::Kept(_) => if downloaded[i] { prev } else { prev + 1 },
                StepView::Refused => prev + 1,
                StepView::Skipped => prev,
            }
        }),
{
    assert(steps.take(i + 1).drop_last() =~= steps.take(i));
    assert(steps.take(i + 1).last() == steps[i]);
}

/// A post's evidence after an upload: the items it had, in order, then the
/// names of the kept uploads that downloaded, in order. `downloaded` tells
/// for each step of the plan whether its file was fetched.
pub fn evidence_after_uploads(existing: &Vec<EvidenceItem>, plan: &Vec<UploadStep>, downloaded: &Vec<bool>) -> (r: Vec<EvidenceItem>)
    requires
        plan.len() == downloaded.len(),
    ensures
        item_names(r@) == item_names(existing@) + added_names(step_views(plan@), downloaded@),
{
    let ghost steps = step_views(plan@);
    let mut out: Vec<EvidenceItem> = Vec::new();
    let mut j: usize = 0;
    while j < existing.len()
        invariant
            j <= existing.len(),
            item_names(out@) == item_names(existing@).take(j as int),
        decreases existing.len() - j,
    {
        let ghost before = out@;
        let name = existing[j].filename.clone();
        out.push(EvidenceItem { filename: name });
        assert(item_names(out@) =~= item_names(before).push(existing@[j as int].filename@));
        assert(item_names(existing@).take(j + 1) =~= item_names(existing@).take(j as int).push(existing@[j as int].filename@));
        j = j + 1;
    }
    assert(item_names(existing@).take(existing.len() as int) =~= item_names(existing@));
    assert(steps.take(0) =~= Seq::<StepView>::empty());
    assert(item_names(out@) =~= item_names(existing@) + added_names(steps.take(0), downloaded@));
    let mut i: usize = 0;
    while i < plan.len()
        invariant
            i <= plan.len(),
            plan.len() == downloaded.len(),
            steps == step_views(plan@),
            item_names(out@) == item_names(existing@) + added_names(steps.take(i as int), downloaded@),
        decreases plan.len() - i,
    {
        proof {
            lemma_added_prefix(steps, downloaded@, i as int);
        }
        match &plan[i] {
            UploadStep::Kept(n) => {
                if downloaded[i] {
                    let ghost before = out@;
                    let name = n.clone();
                    out.push(EvidenceItem { filename: name });
                    assert(steps[i as int] == StepView::Kept(n@));
                    assert(item_names(out@) =~= item_names(before).push(n@));
                    assert(item_names(out@) =~= item_names(existing@) + added_names(steps.take(i + 1), downloaded@));
                }
            },
            _ => {},
        }
        i = i + 1;
    }
    assert(steps.take(plan.len() as int) =~= steps);
    out
}

/// How many uploads an upload added and how many it refused.
pub fn upload_counts(plan: &Vec<UploadStep>, downloaded: &Vec<bool>) -> (r: (usize, usize))
    requires
        plan.len() == downloaded.len(),
    ensures
        r.0 == added_names(step_views(plan@), downloaded@).len(),
        r.1 == refused_count(step_views(plan@), downloaded@),
{
    let ghost steps = step_views(plan@);
    let mut kept: usize = 0;
    let mut refused: usize = 0;
    let mut i: usize = 0;
    assert(steps.take(0) =~= Seq::<StepView>::empty());
    while i < plan.len()
        invariant
            i <= plan.len(),
            plan.len() == downloaded.len(),
            steps == step_views(plan@),
            kept == added_names(steps.take(i as int), downloaded@).len(),
            refused == refused_count(steps.take(i as int), downloaded@),
            kept + refused <= i,
        decreases plan.len() - i,
    {
        proof {
            lemma_added_prefix(steps, downloaded@, i as int);
        }
        match &plan[i] {
            UploadStep::Kept(_) => {
                if downloaded[i] {
                    kept = kept + 1;
                } else {
                    refused = refused + 1;
                }
            },
            UploadStep::Refused => {
                refused = refused + 1;
            },
            UploadStep::Skipped => {},
        }
        i = i + 1;
    }
    assert(steps.take(plan.len() as int) =~= steps);
    (kept, refused)
}

/// What an upload to an evidence post does to the post.
#[derive(Clone, Copy, Debug, PartialEq, Eq, Structural)]
pub enum PostUpdate {
    /// No file was attached: the post is left as it is.
    Untouched,
    /// Every file was refused or failed to download: the post is left as it
    /// is and the reply lists the accepted types.
    Refused,
    /// The post is redrawn with its new evidence.
    Edit,
}

/// The update an upload of `attachments` files makes, of which `added` were
/// added and `refused` refused.
pub fn post_update(attachments: usize, added: usize, refused: usize) -> (r: PostUpdate)
    ensures
        r == (if attachments == 0 {
            PostUpdate::Untouched
        } else if added == 0 && refused > 0 {
            PostUpdate::Refused
        } else {
            PostUpdate::Edit
        }),
{
    if attachments == 0 {
        PostUpdate::Untouched
    } else if added == 0 && refused > 0 {
        PostUpdate::Refused
    } else {
        PostUpdate::Edit
    }
}

/// Whether the player's tag becomes a confirmed cheater tag: the post held
/// no evidence before, and redrawing it succeeded.
pub fn converts_to_confirmed(existing_count: usize, edited: bool) -> (r: bool)
    ensures
        r == (existing_count == 0 && edited),
{
    existing_count == 0 && edited
}

} // verus!
