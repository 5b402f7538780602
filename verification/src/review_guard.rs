//! Which messages the bot clears from review threads: replies in the guide
//! thread, and messages by anyone but the submitter in a thread whose
//! submission is still being assembled.

use vstd::prelude::*;

verus! {

/// What becomes of a message posted in a review thread.
#[derive(Debug, PartialEq, Eq, Structural)]
pub enum GuardAction {
    Keep,
    /// Deleted: the guide thread takes no replies.
    DeleteFromGuide,
    /// Deleted: only the submitter writes in a submission being assembled.
    DeleteFromAssembly,
}

/// The action on a message: `guide_thread` is the guide thread's id, if
/// known; `assembling_submitter` the submitter of the submission being
/// assembled in the message's channel, if any.
pub open spec fn guard_spec(
    author_is_bot: bool,
    author_id: u64,
    channel_id: u64,
    guide_thread: Option<u64>,
    assembling_submitter: Option<u64>,
) -> GuardAction {
    if author_is_bot {
        GuardAction::Keep
    } else if guide_thread == Some(channel_id) {
        GuardAction::DeleteFromGuide
    } else {
        match assembling_submitter {
            Some(s) => if s == author_id { GuardAction::Keep } else { GuardAction::DeleteFromAssembly },
            None => GuardAction::Keep,
        }
    }
}

/// Decides what becomes of a message posted in a review thread.
pub fn guard_action(
    author_is_bot: bool,
    author_id: u64,
    channel_id: u64,
    guide_thread: Option<u64>,
    assembling_submitter: Option<u64>,
) -> (r: GuardAction)
    ensures
        r == guard_spec(author_is_bot, author_id, channel_id, guide_thread, assembling_submitter),
{
    if author_is_bot {
        return GuardAction::Keep;
    }
    if let Some(g) = guide_thread {
        if g == channel_id {
            return GuardAction::DeleteFromGuide;
        }
    }
    match assembling_submitter {
        Some(s) => if s == author_id { GuardAction::Keep } else { GuardAction::DeleteFromAssembly },
        None => GuardAction::Keep,
    }
}

/// The submitter of a submission being assembled may always write in it.
pub proof fn submitter_may_write(author_id: u64, channel_id: u64, guide_thread: Option<u64>)
    requires
        guide_thread != Some(channel_id),
    ensures
        guard_spec(false, author_id, channel_id, guide_thread, Some(author_id)) == GuardAction::Keep,
{
}

} // verus!
