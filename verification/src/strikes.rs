//! The rules of striking a member: who may strike whom, the reason kept,
//! and the ids of the strike buttons.

use vstd::prelude::*;
use crate::access::AccessRank;
use crate::text::{
    chars_of, string_of, push_str, push_chars, decimal, decimal_chars, after_prefix,
    strip_prefix_chars, parse_u64, u64_in, lemma_decimal_reads_back, has_prefix,
};

verus! {

/// Why a strike from the command is refused, checked in order: the invoker
/// is below moderator; the target is not registered; the target's rank is
/// not below the invoker's.
pub open spec fn strike_refusal(invoker: AccessRank, target_registered: bool, target: AccessRank, target_id: u64) -> Option<Seq<char>> {
    if invoker.level() < AccessRank::Moderator.level() {
        Some("You don't have permission to use this command"@)
    } else if !target_registered {
        Some("<@"@ + decimal(target_id as nat) + "> is not registered"@)
    } else if invoker.level() <= target.level() {
        Some("Cannot strike a user with equal or higher rank"@)
    } else {
        None
    }
}

pub fn strike_check(invoker: AccessRank, target_registered: bool, target: AccessRank, target_id: u64) -> (r: Option<String>)
    ensures
        match strike_refusal(invoker, target_registered, target, target_id) {
            Some(m) => r is Some && r->Some_0@ == m,
            None => r is None,
        },
{
    if !invoker.at_least(AccessRank::Moderator) {
        return Some(string_of(&chars_of("You don't have permission to use this command")));
    }
    if !target_registered {
        let mut out: Vec<char> = Vec::new();
        push_str(&mut out, "<@");
        let d = decimal_chars(target_id);
        push_chars(&mut out, &d);
        push_str(&mut out, "> is not registered");
        return Some(string_of(&out));
    }
    if !invoker.above(target) {
        return Some(string_of(&chars_of("Cannot strike a user with equal or higher rank")));
    }
    None
}

/// The reason recorded for a strike: the one given, or a stock phrase when
/// it is empty.
pub open spec fn strike_reason_text(raw: Seq<char>) -> Seq<char> {
    if raw.len() == 0 { "No reason provided"@ } else { raw }
}

pub fn strike_reason(raw: &str) -> (r: String)
    ensures
        r@ == strike_reason_text(raw@),
{
    let v = chars_of(raw);
    if v.len() == 0 {
        string_of(&chars_of("No reason provided"))
    } else {
        string_of(&v)
    }
}

/// The reply once a strike is recorded.
pub open spec fn strike_added_text(target_id: u64, reason: Seq<char>) -> Seq<char> {
    "Strike added for <@"@ + decimal(target_id as nat) + ">: \""@ + reason + "\""@
}

pub fn strike_added(target_id: u64, reason: &str) -> (r: String)
    ensures
        r@ == strike_added_text(target_id, reason@),
{
    let mut out: Vec<char> = Vec::new();
    push_str(&mut out, "Strike added for <@");
    let d = decimal_chars(target_id);
    push_chars(&mut out, &d);
    push_str(&mut out, ">: \"");
    push_str(&mut out, reason);
    push_str(&mut out, "\"");
    string_of(&out)
}

/// The member a strike button or form is for: the number after `prefix`.
pub open spec fn strike_target(custom_id: Seq<char>, prefix: Seq<char>) -> Option<u64> {
    match after_prefix(custom_id, prefix) {
        Some(rest) => u64_in(rest),
        None => None,
    }
}

pub fn parse_strike_target(custom_id: &str, prefix: &str) -> (r: Option<u64>)
    ensures
        r == strike_target(custom_id@, prefix@),
{
    let v = chars_of(custom_id);
    match strip_prefix_chars(&v, prefix) {
        Some(rest) => parse_u64(&rest),
        None => None,
    }
}

/// The id of a strike button or form for `target_id`.
pub fn strike_id(prefix: &str, target_id: u64) -> (r: String)
    ensures
        r@ == prefix@ + decimal(target_id as nat),
{
    let mut out: Vec<char> = Vec::new();
    push_str(&mut out, prefix);
    let d = decimal_chars(target_id);
    push_chars(&mut out, &d);
    string_of(&out)
}

/// A strike button's id reads back as the member it was made for.
pub proof fn strike_id_reads_back(prefix: Seq<char>, target_id: u64)
    ensures
        strike_target(prefix + decimal(target_id as nat), prefix) == Some(target_id),
{
    let id = prefix + decimal(target_id as nat);
    assert(id.take(prefix.len() as int) =~= prefix);
    assert(id.skip(prefix.len() as int) =~= decimal(target_id as nat));
    lemma_decimal_reads_back(target_id as nat);
}

} // verus!
