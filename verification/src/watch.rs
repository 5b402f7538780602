//! The rules of the watch command, which marks a player as needing replays.

use vstd::prelude::*;
use crate::access::AccessRank;
use crate::tag_text::TagOpError;
use crate::text::{string_of, push_str, push_chars, signed_decimal, i64_decimal_chars};

verus! {

/// Days until a watch expires when none are given.
pub const DEFAULT_EXPIRY_DAYS: i64 = 14;

/// Seconds in a day.
pub const DAY_SECS: i64 = 86400;

/// Refuses members below helper.
pub fn watch_permission(rank: AccessRank) -> (r: Option<&'static str>)
    ensures
        rank.level() < AccessRank::Helper.level() ==> r == Some("Only helpers and above can use /watch"),
        rank.level() >= AccessRank::Helper.level() ==> r is None,
{
    if rank.at_least(AccessRank::Helper) {
        None
    } else {
        Some("Only helpers and above can use /watch")
    }
}

/// The number of days asked for, or the default.
pub fn watch_days(days: Option<i64>) -> (r: i64)
    ensures
        r == match days {
            Some(d) => d,
            None => DEFAULT_EXPIRY_DAYS,
        },
{
    match days {
        Some(d) => d,
        None => DEFAULT_EXPIRY_DAYS,
    }
}

/// When a watch set at `now` (seconds since the epoch) for `days` days
/// ends: never for 0 days.
pub fn watch_expiry(now: i64, days: i64) -> (r: Option<i64>)
    requires
        0 <= days <= 365,
        now + days * 86400 <= i64::MAX,
    ensures
        r == (if days == 0 { None } else { Some((now + days * 86400) as i64) }),
{
    if days == 0 {
        None
    } else {
        Some(now + days * DAY_SECS)
    }
}

/// The message for a refused watch, or `None` where the refusal is an
/// error the command passes on.
pub fn watch_error_message(e: TagOpError) -> (r: Option<&'static str>)
    ensures
        r == match e {
            TagOpError::PlayerLocked => Some("This player's tags are locked"),
            TagOpError::TagAlreadyExists => Some("Player already has a replays needed tag"),
            TagOpError::PriorityConflict => Some("Player already has a replays needed tag"),
            _ => None::<&'static str>,
        },
{
    match e {
        TagOpError::PlayerLocked => Some("This player's tags are locked"),
        TagOpError::TagAlreadyExists => Some("Player already has a replays needed tag"),
        TagOpError::PriorityConflict => Some("Player already has a replays needed tag"),
        _ => None,
    }
}

/// The reply to a watch: who is watched, until when, and the uuid.
pub open spec fn watch_text(username: Seq<char>, expires: Option<int>, dashed_uuid: Seq<char>) -> Seq<char> {
    let expiry = match expires {
        Some(ts) => "expires <t:"@ + signed_decimal(ts) + ":R>"@,
        None => "no expiration"@,
    };
    "## Replays Needed\n`"@ + username + "` is now being watched ("@ + expiry + ")\n-# UUID: "@ + dashed_uuid
}

pub fn watch_reply(username: &str, expires: Option<i64>, dashed_uuid: &str) -> (r: String)
    ensures
        r@ == watch_text(username@, match expires {
            Some(ts) => Some(ts as int),
            None => None,
        }, dashed_uuid@),
{
    let mut out: Vec<char> = Vec::new();
    push_str(&mut out, "## Replays Needed\n`");
    push_str(&mut out, username);
    push_str(&mut out, "` is now being watched (");
    match expires {
        Some(ts) => {
            push_str(&mut out, "expires <t:");
            let d = i64_decimal_chars(ts);
            push_chars(&mut out, &d);
            push_str(&mut out, ":R>");
        },
        None => {
            push_str(&mut out, "no expiration");
        },
    }
    push_str(&mut out, ")\n-# UUID: ");
    push_str(&mut out, dashed_uuid);
    string_of(&out)
}

} // verus!
