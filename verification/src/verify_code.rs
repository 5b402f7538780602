//! One-time codes that link a Minecraft account to Discord: a player joining
//! the verification server is given a code, stored under a Redis key with the
//! account's UUID and name, and redeemed once in Discord.

use vstd::prelude::*;
use crate::text::{chars_of, push_chars, push_str, slice_chars, string_of};

verus! {

/// Seconds a code stays redeemable.
pub const CODE_TTL_SECS: u64 = 120;

/// The account a redeemed code belongs to.
#[derive(Debug, Clone, PartialEq, Eq)]
pub struct VerifiedPlayer {
    pub uuid: u128,
    pub username: String,
}

/// The Redis key prefix of verification codes.
pub open spec fn code_prefix() -> Seq<char> {
    "verify:"@
}

/// The Redis key of a code.
pub fn code_key(code: &str) -> (k: String)
    ensures
        k@ == code_prefix() + code@,
{
    let mut out: Vec<char> = Vec::new();
    push_str(&mut out, "verify:");
    push_str(&mut out, code);
    string_of(&out)
}

/// The lower-case hexadecimal digit for `d < 16`.
pub open spec fn hex_digit(d: nat) -> char {
    if d < 10 { ((d + 48) as u32) as char } else { ((d + 87) as u32) as char }
}

/// The last `k` hexadecimal digits of `n`, most significant first.
pub open spec fn hex_digits(n: nat, k: nat) -> Seq<char>
    decreases k,
{
    if k == 0 {
        seq![]
    } else {
        hex_digits(n / 16, (k - 1) as nat).push(hex_digit(n % 16))
    }
}

/// A UUID in the simple format: 32 lower-case hexadecimal digits.
pub open spec fn simple_uuid(n: u128) -> Seq<char> {
    hex_digits(n as nat, 32)
}

fn hex_digit_of(d: u128) -> (c: char)
    requires
        d < 16,
    ensures
        c == hex_digit(d as nat),
{
    let b: u8 = if d < 10 { (d as u8) + 48 } else { (d as u8) + 87 };
    b as char
}

fn hex_chars(n: u128, k: usize) -> (v: Vec<char>)
    ensures
        v@ == hex_digits(n as nat, k as nat),
    decreases k,
{
    if k == 0 {
        Vec::new()
    } else {
        let mut v = hex_chars(n / 16, k - 1);
        v.push(hex_digit_of(n % 16));
        v
    }
}

/// The value stored under a code: the account's UUID in the simple format,
/// a colon, and the account name.
pub open spec fn code_value_of(uuid: u128, username: Seq<char>) -> Seq<char> {
    simple_uuid(uuid) + seq![':'] + username
}

/// The value stored under a code.
pub fn code_value(uuid: u128, username: &str) -> (v: String)
    ensures
        v@ == code_value_of(uuid, username@),
{
    let mut out = hex_chars(uuid, 32);
    out.push(':');
    push_str(&mut out, username);
    string_of(&out)
}

/// Whether `c` is a hexadecimal digit of either case.
pub open spec fn is_hex_char(c: char) -> bool {
    ('0' <= c <= '9') || ('a' <= c <= 'f') || ('A' <= c <= 'F')
}

/// The value of a hexadecimal digit.
pub open spec fn hex_char_value(c: char) -> nat {
    if '0' <= c <= '9' {
        ((c as u32) - 48) as nat
    } else if 'a' <= c <= 'f' {
        ((c as u32) - 87) as nat
    } else {
        ((c as u32) - 55) as nat
    }
}

/// The value of a string of hexadecimal digits.
pub open spec fn hex_value(s: Seq<char>) -> nat
    decreases s.len(),
{
    if s.len() == 0 {
        0
    } else {
        hex_value(s.drop_last()) * 16 + hex_char_value(s.last())
    }
}

/// What `uuid::Uuid::parse_str` reads from `s`, as the UUID's 128-bit value.
pub uninterp spec fn parsed_uuid(s: Seq<char>) -> Option<u128>;

/// `uuid::Uuid::parse_str`, taken as its 128-bit value (`Uuid::as_u128`).
/// The crate accepts the simple, hyphenated, braced and URN formats; of the
/// simple format (32 hexadecimal digits of either case) its source shows that
/// the value is those digits read big-endian. The other formats are left to
/// the name.
#[verifier::external_body]
fn parse_uuid(s: &str) -> (r: Option<u128>)
    ensures
        r == parsed_uuid(s@),
        s@.len() == 32 && (forall|i: int| 0 <= i < 32 ==> is_hex_char(#[trigger] s@[i]))
            ==> r == Some(hex_value(s@) as u128),
{
    uuid::Uuid::parse_str(s).ok().map(|u| u.as_u128())
}

/// Index of the first `:` in `s`, if any.
pub open spec fn first_colon(s: Seq<char>) -> Option<int> {
    if exists|i: int| 0 <= i < s.len() && s[i] == ':' {
        Some(choose|i: int| 0 <= i < s.len() && s[i] == ':' && forall|j: int| 0 <= j < i ==> s[j] != ':')
    } else {
        None
    }
}

/// The account a stored value names: the text before the first colon read
/// as a UUID, and the text after it as the account name.
pub open spec fn read_code_value(value: Seq<char>) -> Option<(u128, Seq<char>)> {
    match first_colon(value) {
        None => None,
        Some(i) => match parsed_uuid(value.take(i)) {
            None => None,
            Some(u) => Some((u, value.skip(i + 1))),
        },
    }
}

/// Reads the account back out of a stored value (`split_once(':')`, then the UUID).
pub fn parse_code_value(value: &str) -> (r: Option<VerifiedPlayer>)
    ensures
        match read_code_value(value@) {
            None => r is None,
            Some((u, name)) => r is Some && r->Some_0.uuid == u && r->Some_0.username@ == name,
        },
        forall|u: u128, name: Seq<char>| value@ == code_value_of(u, name)
            ==> r is Some && r->Some_0.uuid == u && r->Some_0.username@ == name,
{
    let v = chars_of(value);
    let mut i: usize = 0;
    while i < v.len() && v[i] != ':'
        invariant
            i <= v.len(),
            v@ == value@,
            forall|j: int| 0 <= j < i ==> v@[j] != ':',
        decreases v.len() - i,
    {
        i = i + 1;
    }
    if i == v.len() {
        proof {
            assert forall|u: u128, name: Seq<char>| value@ == code_value_of(u, name) implies false by {
                stored_value_splits_back(u, name);
                assert(v@[32] == ':');
            }
        }
        return None;
    }
    proof {
        let k = choose|k: int| 0 <= k < v@.len() && v@[k] == ':' && forall|j: int| 0 <= j < k ==> v@[j] != ':';
        assert(k == i);
    }
    let head = slice_chars(&v, 0, i);
    let tail = slice_chars(&v, i + 1, v.len());
    assert(head@ == value@.take(i as int));
    assert(tail@ == value@.skip(i + 1));
    let head_s = string_of(&head);
    proof {
        assert forall|u: u128, name: Seq<char>| value@ == code_value_of(u, name)
            implies head@ == simple_uuid(u) && tail@ == name by {
            stored_value_splits_back(u, name);
        }
    }
    let parsed = parse_uuid(head_s.as_str());
    proof {
        assert forall|u: u128, name: Seq<char>| value@ == code_value_of(u, name) implies parsed == Some(u) by {
            stored_value_splits_back(u, name);
            assert(head_s@ == simple_uuid(u));
            assert(forall|k: int| 0 <= k < 32 ==> is_hex_char(#[trigger] head_s@[k]));
        }
    }
    match parsed {
        None => None,
        Some(u) => {
            proof {
                assert forall|w: u128, name: Seq<char>| value@ == code_value_of(w, name) implies u == w by {
                    stored_value_splits_back(w, name);
                }
            }
            Some(VerifiedPlayer { uuid: u, username: string_of(&tail) })
        },
    }
}

proof fn lemma_hex_digits_shape(n: nat, k: nat)
    ensures
        hex_digits(n, k).len() == k,
        forall|i: int| 0 <= i < k ==> is_hex_char(#[trigger] hex_digits(n, k)[i]) && hex_digits(n, k)[i] != ':',
    decreases k,
{
    if k > 0 {
        lemma_hex_digits_shape(n / 16, (k - 1) as nat);
    }
}

/// 16 to the power `k`.
pub open spec fn pow16(k: nat) -> nat
    decreases k,
{
    if k == 0 { 1 } else { 16 * pow16((k - 1) as nat) }
}

proof fn lemma_hex_round_trip(n: nat, k: nat)
    requires
        n < pow16(k),
    ensures
        hex_value(hex_digits(n, k)) == n,
    decreases k,
{
    if k > 0 {
        assert(n / 16 < pow16((k - 1) as nat)) by (nonlinear_arith)
            requires n < 16 * pow16((k - 1) as nat);
        lemma_hex_round_trip(n / 16, (k - 1) as nat);
        let h = hex_digits(n, k);
        assert(h.drop_last() == hex_digits(n / 16, (k - 1) as nat));
        let d = n % 16;
        assert(hex_char_value(hex_digit(d)) == d);
        assert((n / 16) * 16 + n % 16 == n) by (nonlinear_arith);
    } else {
        assert(n == 0);
    }
}

proof fn lemma_pow16_32()
    ensures
        pow16(32) == 0x1_0000_0000_0000_0000_0000_0000_0000_0000,
{
    reveal_with_fuel(pow16, 33);
}

/// A stored value splits at its first colon into the account's UUID, whose
/// digits read back as the same number, and the account's name, whatever
/// the name holds, colons included.
pub proof fn stored_value_splits_back(uuid: u128, username: Seq<char>)
    ensures
        first_colon(code_value_of(uuid, username)) == Some(32int),
        code_value_of(uuid, username).take(32) == simple_uuid(uuid),
        code_value_of(uuid, username).skip(33) == username,
        simple_uuid(uuid).len() == 32,
        forall|i: int| 0 <= i < 32 ==> is_hex_char(#[trigger] simple_uuid(uuid)[i]),
        hex_value(simple_uuid(uuid)) == uuid,
{
    let v = code_value_of(uuid, username);
    let h = simple_uuid(uuid);
    lemma_hex_digits_shape(uuid as nat, 32);
    assert(v[32] == ':');
    let k = choose|k: int| 0 <= k < v.len() && v[k] == ':' && forall|j: int| 0 <= j < k ==> v[j] != ':';
    if k < 32 {
        assert(v[k] == h[k]);
    }
    if k > 32 {
        assert(v[32] != ':');
    }
    assert(k == 32);
    assert(v.take(32) == h);
    assert(v.skip(33) == username);
    lemma_pow16_32();
    lemma_hex_round_trip(uuid as nat, 32);
}

} // verus!
