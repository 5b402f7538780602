//! Reading the roles a guild sync job's payload names.

use vstd::prelude::*;
use crate::text::{chars_of, parse_u64, parsed_int, push_str, string_of};

verus! {

/// A field of a job's JSON payload, as far as reading a role id needs.
pub enum PayloadValue {
    /// The field is absent.
    Missing,
    Null,
    Text(String),
    /// A number, with its value where it is a non-negative integer that
    /// fits in 64 bits.
    Number(Option<u64>),
    /// A boolean, array or object.
    Other,
}

/// The role id a payload field names: none where the field is absent or
/// null; a string holding an unsigned integer, or such a number, gives it;
/// anything else is refused.
pub open spec fn payload_role_spec(v: PayloadValue) -> Option<Option<u64>> {
    match v {
        PayloadValue::Missing | PayloadValue::Null => Some(None),
        PayloadValue::Text(s) => match parsed_int(s@, false) {
            Some(n) => if 0 <= n <= u64::MAX { Some(Some(n as u64)) } else { None },
            None => None,
        },
        PayloadValue::Number(Some(n)) => Some(Some(n)),
        _ => None,
    }
}

/// The error for a payload field that names no role.
pub open spec fn invalid_field_text(key: Seq<char>) -> Seq<char> {
    "invalid "@ + key + " in job payload"@
}

/// Reads the role id the payload field `key` holds.
pub fn payload_role(value: &PayloadValue, key: &str) -> (r: Result<Option<u64>, String>)
    ensures
        match payload_role_spec(*value) {
            Some(o) => r == Ok::<Option<u64>, String>(o),
            None => r is Err && r->Err_0@ == invalid_field_text(key@),
        },
{
    let parsed: Option<Option<u64>> = match value {
        PayloadValue::Missing => Some(None),
        PayloadValue::Null => Some(None),
        PayloadValue::Text(s) => {
            let v = chars_of(s.as_str());
            match parse_u64(&v) {
                Some(n) => Some(Some(n)),
                None => None,
            }
        },
        PayloadValue::Number(Some(n)) => Some(Some(*n)),
        _ => None,
    };
    match parsed {
        Some(o) => Ok(o),
        None => {
            let mut out: Vec<char> = Vec::new();
            push_str(&mut out, "invalid ");
            push_str(&mut out, key);
            push_str(&mut out, " in job payload");
            Err(string_of(&out))
        },
    }
}

} // verus!
