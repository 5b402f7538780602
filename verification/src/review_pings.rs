//! Opting in to review pings: which role a button toggles, when the panel
//! cannot be shown, and the panel's lines and buttons.

use vstd::prelude::*;
use crate::text::{chars_of, join, join_strings, push_str, str_eq, string_of, strip_prefix_chars, after_prefix};

verus! {

/// Why the ping panel cannot be opened: no role the member could toggle is configured.
pub open spec fn panel_refusal_spec(review_role: Option<u64>, dispute_role: Option<u64>, is_staff: bool) -> bool {
    review_role is None && (dispute_role is None || !is_staff)
}

/// The refusal shown instead of the panel, when there is one.
pub fn panel_refusal(review_role: Option<u64>, dispute_role: Option<u64>, is_staff: bool) -> (r: Option<&'static str>)
    ensures
        r is Some <==> panel_refusal_spec(review_role, dispute_role, is_staff),
        r is Some ==> r->Some_0@ == "Review ping role is not configured"@,
{
    if review_role.is_none() && (dispute_role.is_none() || !is_staff) {
        Some("Review ping role is not configured")
    } else {
        None
    }
}

/// The role a choice button toggles: `guide_ping_choice:disputes` the
/// dispute role, any other the review role.
pub open spec fn ping_target_spec(custom_id: Seq<char>, review_role: Option<u64>, dispute_role: Option<u64>) -> Option<u64> {
    let choice = match after_prefix(custom_id, "guide_ping_choice:"@) {
        Some(c) => c,
        None => Seq::empty(),
    };
    if choice == "disputes"@ { dispute_role } else { review_role }
}

/// The role a choice button toggles, if it is configured.
pub fn ping_target(custom_id: &str, review_role: Option<u64>, dispute_role: Option<u64>) -> (r: Option<u64>)
    ensures
        r == ping_target_spec(custom_id@, review_role, dispute_role),
{
    proof {
        reveal_strlit("disputes");
    }
    let v = chars_of(custom_id);
    let ghost choice = match after_prefix(custom_id@, "guide_ping_choice:"@) {
        Some(c) => c,
        None => Seq::<char>::empty(),
    };
    let disputes = match strip_prefix_chars(&v, "guide_ping_choice:") {
        Some(rest) => {
            let c = string_of(&rest);
            assert(c@ == choice);
            str_eq(c.as_str(), "disputes")
        },
        None => {
            assert(choice.len() == 0);
            false
        },
    };
    assert(disputes == (choice == "disputes"@));
    if disputes { dispute_role } else { review_role }
}

/// A button of the panel: its id, its label, and whether its role is on.
pub struct PingButton {
    pub custom_id: String,
    pub label: String,
    pub on: bool,
}

/// The panel: one line and one button for the review role where it is
/// configured, and the same for the dispute role where it is configured
/// and the member is staff.
pub struct PingPanel {
    pub content: String,
    pub buttons: Vec<PingButton>,
}

pub open spec fn on_off(on: bool) -> Seq<char> {
    if on { "on"@ } else { "off"@ }
}

/// The rows of the panel: (line, button id, button label, on).
pub open spec fn panel_rows(
    review_role: Option<u64>,
    dispute_role: Option<u64>,
    is_staff: bool,
    roles: Seq<u64>,
) -> Seq<(Seq<char>, Seq<char>, Seq<char>, bool)> {
    let first = match review_role {
        Some(r) => seq![(
            "All reviews: **"@ + on_off(roles.contains(r)) + "**"@,
            "guide_ping_choice:all"@,
            if roles.contains(r) { "Turn Off All Reviews"@ } else { "Turn On All Reviews"@ },
            roles.contains(r),
        )],
        None => Seq::empty(),
    };
    let second = match dispute_role {
        Some(d) => if is_staff {
            seq![(
                "Disputes only: **"@ + on_off(roles.contains(d)) + "**"@,
                "guide_ping_choice:disputes"@,
                if roles.contains(d) { "Turn Off Disputes Only"@ } else { "Turn On Disputes Only"@ },
                roles.contains(d),
            )]
        } else {
            Seq::empty()
        },
        None => Seq::empty(),
    };
    first + second
}

fn has_role(roles: &Vec<u64>, role: u64) -> (r: bool)
    ensures
        r == roles@.contains(role),
{
    let mut i: usize = 0;
    while i < roles.len()
        invariant
            i <= roles.len(),
            forall|j: int| 0 <= j < i ==> roles@[j] != role,
        decreases roles.len() - i,
    {
        if roles[i] == role {
            assert(roles@[i as int] == role);
            return true;
        }
        i = i + 1;
    }
    false
}

fn text_of(s: &str) -> (r: String)
    ensures
        r@ == s@,
{
    let mut v: Vec<char> = Vec::new();
    push_str(&mut v, s);
    assert(v@ =~= s@);
    string_of(&v)
}

fn state_line(head: &str, on: bool) -> (r: String)
    ensures
        r@ == head@ + on_off(on) + "**"@,
{
    let mut v: Vec<char> = Vec::new();
    push_str(&mut v, head);
    if on {
        push_str(&mut v, "on");
    } else {
        push_str(&mut v, "off");
    }
    push_str(&mut v, "**");
    string_of(&v)
}

/// The ping panel of a member who holds `roles`.
pub fn ping_panel(review_role: Option<u64>, dispute_role: Option<u64>, is_staff: bool, roles: &Vec<u64>) -> (p: PingPanel)
    ensures
        p.buttons@.len() == panel_rows(review_role, dispute_role, is_staff, roles@).len(),
        forall|i: int| 0 <= i < p.buttons@.len() ==> {
            let row = panel_rows(review_role, dispute_role, is_staff, roles@)[i];
            &&& (#[trigger] p.buttons@[i]).custom_id@ == row.1
            &&& p.buttons@[i].label@ == row.2
            &&& p.buttons@[i].on == row.3
        },
        p.content@ == join(Seq::new(panel_rows(review_role, dispute_role, is_staff, roles@).len(),
            |i: int| panel_rows(review_role, dispute_role, is_staff, roles@)[i].0), "\n"@),
{
    let ghost rows = panel_rows(review_role, dispute_role, is_staff, roles@);
    let mut lines: Vec<String> = Vec::new();
    let mut buttons: Vec<PingButton> = Vec::new();
    if let Some(r) = review_role {
        let on = has_role(roles, r);
        lines.push(state_line("All reviews: **", on));
        let label = if on { text_of("Turn Off All Reviews") } else { text_of("Turn On All Reviews") };
        buttons.push(PingButton { custom_id: text_of("guide_ping_choice:all"), label, on });
    }
    if is_staff {
        if let Some(d) = dispute_role {
            let on = has_role(roles, d);
            lines.push(state_line("Disputes only: **", on));
            let label = if on { text_of("Turn Off Disputes Only") } else { text_of("Turn On Disputes Only") };
            buttons.push(PingButton { custom_id: text_of("guide_ping_choice:disputes"), label, on });
        }
    }
    proof {
        assert(lines.deep_view() =~= Seq::new(rows.len(), |i: int| rows[i].0));
    }
    let content = join_strings(&lines, "\n");
    PingPanel { content, buttons }
}


/// Seconds between checks of the review guide thread.
pub const GUIDE_REFRESH_SECS: u64 = 900;

/// Whether the guide thread must be reopened: its opt-in button works only
/// while the thread is neither archived nor locked.
pub fn guide_needs_reopen(archived: bool, locked: bool) -> (r: bool)
    ensures
        r == (archived || locked),
{
    archived || locked
}


/// What one check of the review guide does.
#[derive(Clone, Copy, Debug, PartialEq, Eq, Structural)]
pub enum GuideCheck {
    /// No guide has been posted: nothing is done.
    NoGuide,
    /// The guide thread `t` is remembered and left as it is.
    Keep(u64),
    /// The guide thread `t` is remembered and reopened (unarchived and
    /// unlocked).
    Reopen(u64),
}

/// One check of the guide: `posted` is the guide thread on record, `state`
/// its (archived, locked) flags where the thread could be read.
pub fn guide_check(posted: Option<u64>, state: Option<(bool, bool)>) -> (r: GuideCheck)
    ensures
        posted is None ==> r == GuideCheck::NoGuide,
        posted is Some ==> r == (match state {
            Some((archived, locked)) => if archived || locked {
                GuideCheck::Reopen(posted->0)
            } else {
                GuideCheck::Keep(posted->0)
            },
            None => GuideCheck::Keep(posted->0),
        }),
{
    match posted {
        None => GuideCheck::NoGuide,
        Some(t) => match state {
            Some((archived, locked)) => if guide_needs_reopen(archived, locked) {
                GuideCheck::Reopen(t)
            } else {
                GuideCheck::Keep(t)
            },
            None => GuideCheck::Keep(t),
        },
    }
}

} // verus!
