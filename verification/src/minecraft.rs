//! Player-facing text helpers: number grouping and the escaping of tag
//! reasons for Discord markdown.

use vstd::prelude::*;
use crate::text::{chars_of, decimal, decimal_chars, string_of, utf8_width, byte_cut, char_width, lemma_width_grows, lemma_cut_is, slice_chars, push_chars};

verus! {

/// `d` (the decimal digits of a number) with a comma between each group of
/// three digits, counted from the right.
pub open spec fn group_thousands(d: Seq<char>) -> Seq<char>
    decreases d.len(),
{
    if d.len() <= 3 {
        d
    } else {
        group_thousands(d.take(d.len() - 3)) + seq![','] + d.skip(d.len() - 3)
    }
}

/// Formats `n` in decimal with thousands separators, e.g. `1234567` as `1,234,567`.
pub fn format_number(n: u64) -> (s: String)
    ensures
        s@ == group_thousands(decimal(n as nat)),
{
    let d = decimal_chars(n);
    let len = d.len();
    let mut first = len % 3;
    if first == 0 {
        first = 3;
    }
    if first > len {
        first = len;
    }
    let mut out: Vec<char> = Vec::new();
    let mut i: usize = 0;
    while i < first
        invariant
            first <= len,
            len == d.len(),
            i <= first,
            out@ == d@.take(i as int),
        decreases first - i,
    {
        out.push(d[i]);
        i = i + 1;
        assert(d@.take(i as int) == d@.take((i - 1) as int).push(d@[i - 1]));
    }
    assert(group_thousands(d@.take(first as int)) == d@.take(first as int));
    let mut k: usize = first;
    while k < len
        invariant
            len == d.len(),
            1 <= first <= 3 || len == 0,
            first <= k <= len,
            (k - first) % 3 == 0,
            (len - first) % 3 == 0,
            out@ == group_thousands(d@.take(k as int)),
        decreases len - k,
    {
        let ghost prev = out@;
        out.push(',');
        out.push(d[k]);
        out.push(d[k + 1]);
        out.push(d[k + 2]);
        proof {
            let t = d@.take(k + 3);
            assert(t.len() > 3);
            assert(t.take(t.len() - 3) == d@.take(k as int));
            assert(t.skip(t.len() - 3) == seq![d@[k as int], d@[k + 1], d@[k + 2]]);
            assert(out@ == prev + seq![','] + seq![d@[k as int], d@[k + 1], d@[k + 2]]);
        }
        k = k + 3;
    }
    assert(d@.take(len as int) == d@);
    string_of(&out)
}

/// Whether the byte offsets at which a 32-byte id is cut fall on character
/// boundaries (for an id of another length nothing is cut).
pub open spec fn uuid_cuts_ok(s: Seq<char>) -> bool {
    utf8_width(s) == 32 ==> {
        &&& byte_cut(s, 8) is Some
        &&& byte_cut(s, 12) is Some
        &&& byte_cut(s, 16) is Some
        &&& byte_cut(s, 20) is Some
    }
}

/// A 32-byte id with dashes after bytes 8, 12, 16 and 20; any other text
/// unchanged.
pub open spec fn dashed_uuid(s: Seq<char>) -> Seq<char> {
    if utf8_width(s) != 32 {
        s
    } else {
        let a = byte_cut(s, 8)->0;
        let b = byte_cut(s, 12)->0;
        let c = byte_cut(s, 16)->0;
        let d = byte_cut(s, 20)->0;
        s.subrange(0, a) + seq!['-'] + s.subrange(a, b) + seq!['-'] + s.subrange(b, c) + seq!['-']
            + s.subrange(c, d) + seq!['-'] + s.skip(d)
    }
}

proof fn lemma_cut_order(s: Seq<char>, x: int, y: int)
    requires
        0 <= x <= s.len(),
        0 <= y <= s.len(),
        utf8_width(s.take(x)) < utf8_width(s.take(y)),
    ensures
        x < y,
{
    if y < x {
        lemma_width_grows(s, y, x);
    }
}

/// Writes a 32-byte player id in the dashed form `8-4-4-4-12`; any other
/// text is returned as it is.
#[verifier::rlimit(50)]
#[verifier::spinoff_prover]
pub fn format_uuid_dashed(uuid: &str) -> (r: String)
    requires
        uuid_cuts_ok(uuid@),
    ensures
        r@ == dashed_uuid(uuid@),
{
    let s = chars_of(uuid);
    let mut w: usize = 0;
    let mut i: usize = 0;
    let mut c8: Option<usize> = None;
    let mut c12: Option<usize> = None;
    let mut c16: Option<usize> = None;
    let mut c20: Option<usize> = None;
    assert(s@.take(0) == Seq::<char>::empty());
    while i < s.len() && w <= 32
        invariant
            i <= s.len(),
            w == utf8_width(s@.take(i as int)),
            w <= 36,
            match c8 {
                Some(x) => x < i && utf8_width(s@.take(x as int)) == 8,
                None => forall|x: int| 0 <= x < i ==> utf8_width(#[trigger] s@.take(x)) != 8,
            },
            match c12 {
                Some(x) => x < i && utf8_width(s@.take(x as int)) == 12,
                None => forall|x: int| 0 <= x < i ==> utf8_width(#[trigger] s@.take(x)) != 12,
            },
            match c16 {
                Some(x) => x < i && utf8_width(s@.take(x as int)) == 16,
                None => forall|x: int| 0 <= x < i ==> utf8_width(#[trigger] s@.take(x)) != 16,
            },
            match c20 {
                Some(x) => x < i && utf8_width(s@.take(x as int)) == 20,
                None => forall|x: int| 0 <= x < i ==> utf8_width(#[trigger] s@.take(x)) != 20,
            },
        decreases s.len() - i,
    {
        if w == 8 {
            c8 = Some(i);
        }
        if w == 12 {
            c12 = Some(i);
        }
        if w == 16 {
            c16 = Some(i);
        }
        if w == 20 {
            c20 = Some(i);
        }
        assert(s@.take(i + 1).drop_last() == s@.take(i as int));
        w = w + char_width(s[i]);
        i = i + 1;
    }
    if i < s.len() {
        proof {
            lemma_width_grows(s@, i as int, s@.len() as int);
            assert(s@.take(s@.len() as int) == s@);
        }
        return string_of(&s);
    }
    assert(s@.take(s@.len() as int) == s@);
    if w != 32 {
        return string_of(&s);
    }
    let a = match c8 {
        Some(x) => x,
        None => {
            proof {
                let x = byte_cut(s@, 8)->0;
                assert(utf8_width(s@.take(x)) == 8);
            }
            i
        },
    };
    let b = match c12 {
        Some(x) => x,
        None => {
            proof {
                let x = byte_cut(s@, 12)->0;
                assert(utf8_width(s@.take(x)) == 12);
            }
            i
        },
    };
    let c = match c16 {
        Some(x) => x,
        None => {
            proof {
                let x = byte_cut(s@, 16)->0;
                assert(utf8_width(s@.take(x)) == 16);
            }
            i
        },
    };
    let d = match c20 {
        Some(x) => x,
        None => {
            proof {
                let x = byte_cut(s@, 20)->0;
                assert(utf8_width(s@.take(x)) == 20);
            }
            i
        },
    };
    proof {
        lemma_cut_is(s@, 8, a as int);
        lemma_cut_is(s@, 12, b as int);
        lemma_cut_is(s@, 16, c as int);
        lemma_cut_is(s@, 20, d as int);
        lemma_cut_order(s@, a as int, b as int);
        lemma_cut_order(s@, b as int, c as int);
        lemma_cut_order(s@, c as int, d as int);
    }
    let mut out: Vec<char> = Vec::new();
    let p1 = slice_chars(&s, 0, a);
    push_chars(&mut out, &p1);
    out.push('-');
    let p2 = slice_chars(&s, a, b);
    push_chars(&mut out, &p2);
    out.push('-');
    let p3 = slice_chars(&s, b, c);
    push_chars(&mut out, &p3);
    out.push('-');
    let p4 = slice_chars(&s, c, d);
    push_chars(&mut out, &p4);
    out.push('-');
    let p5 = slice_chars(&s, d, s.len());
    push_chars(&mut out, &p5);
    assert(s@.subrange(d as int, s@.len() as int) == s@.skip(d as int));
    string_of(&out)
}

/// Whether `c` is a lowercase hexadecimal digit.
pub open spec fn is_lower_hex(c: char) -> bool {
    ('0' <= c <= '9') || ('a' <= c <= 'f')
}

/// The hyphenated lowercase text of a random (version 4, RFC 4122 variant)
/// id: `xxxxxxxx-xxxx-4xxx-Nxxx-xxxxxxxxxxxx` with `N` one of `8 9 a b`.
pub open spec fn is_v4_text(s: Seq<char>) -> bool {
    &&& s.len() == 36
    &&& forall|i: int|
        0 <= i < 36 ==> if i == 8 || i == 13 || i == 18 || i == 23 {
            #[trigger] s[i] == '-'
        } else {
            is_lower_hex(s[i])
        }
    &&& s[14] == '4'
    &&& (s[19] == '8' || s[19] == '9' || s[19] == 'a' || s[19] == 'b')
}

/// `uuid::Uuid::new_v4()` written with `to_string()`. In the crate's source
/// the id is 128 random bits with the version nibble set to 4 and the
/// variant bits to `10`, and its text is the lowercase hyphenated form;
/// which id comes out is left open.
#[verifier::external_body]
pub(crate) fn new_v4_text() -> (r: String)
    ensures
        is_v4_text(r@),
{
    uuid::Uuid::new_v4().to_string()
}

/// A fresh API key: a random id in its hyphenated text form.
pub fn generate_api_key() -> (r: String)
    ensures
        is_v4_text(r@),
{
    new_v4_text()
}

/// Characters that Discord markdown would interpret inside a tag reason.
pub open spec fn is_escaped_char(ch: char) -> bool {
    ch == '\\' || ch == '*' || ch == '_' || ch == '~' || ch == '`' || ch == '|' || ch == '>'
        || ch == '#' || ch == '[' || ch == ']' || ch == '(' || ch == ')' || ch == '-' || ch == '@'
        || ch == '<'
}

/// Whether `ch` is escaped with a backslash when a reason is rendered.
pub fn is_escaped_in_reason(ch: char) -> (r: bool)
    ensures
        r == is_escaped_char(ch),
{
    ch == '\\' || ch == '*' || ch == '_' || ch == '~' || ch == '`' || ch == '|' || ch == '>'
        || ch == '#' || ch == '[' || ch == ']' || ch == '(' || ch == ')' || ch == '-' || ch == '@'
        || ch == '<'
}

/// How one character of a reason is rendered.
pub open spec fn sanitize_char(ch: char) -> Seq<char> {
    if is_escaped_char(ch) {
        seq!['\\', ch]
    } else if ch == '\n' || ch == '\r' {
        seq![' ']
    } else {
        seq![ch]
    }
}

/// A reason as rendered: markdown characters escaped, line breaks turned into spaces.
pub open spec fn sanitized(s: Seq<char>) -> Seq<char>
    decreases s.len(),
{
    if s.len() == 0 {
        seq![]
    } else {
        sanitize_char(s[0]) + sanitized(s.drop_first())
    }
}

/// A rendered reason read back, left to right: a backslash and the
/// escapable character after it give that character, both consumed; any
/// other character stands for itself.
pub open spec fn unsanitized(s: Seq<char>) -> Seq<char>
    decreases s.len(),
{
    if s.len() == 0 {
        seq![]
    } else if s[0] == '\\' && s.len() > 1 && is_escaped_char(s[1]) {
        seq![s[1]] + unsanitized(s.skip(2))
    } else {
        seq![s[0]] + unsanitized(s.drop_first())
    }
}

/// Escapes Discord markdown in a tag reason and flattens it to one line.
pub fn sanitize_reason(reason: &str) -> (out: String)
    ensures
        out@ == sanitized(reason@),
{
    let s = chars_of(reason);
    let mut out: Vec<char> = Vec::new();
    let mut i: usize = 0;
    assert(s@.skip(0) =~= s@);
    assert(out@ + s@ =~= s@);
    while i < s.len()
        invariant
            i <= s.len(),
            s@ == reason@,
            sanitized(s@) == out@ + sanitized(s@.skip(i as int)),
        decreases s.len() - i,
    {
        let ch = s[i];
        proof {
            assert(s@.skip(i as int).drop_first() == s@.skip(i + 1));
        }
        if is_escaped_in_reason(ch) {
            out.push('\\');
            out.push(ch);
        } else if ch == '\n' || ch == '\r' {
            out.push(' ');
        } else {
            out.push(ch);
        }
        i = i + 1;
    }
    assert(s@.skip(s.len() as int) == Seq::<char>::empty());
    string_of(&out)
}

/// Reverses [`sanitize_reason`]: each escape is read back as the character
/// it escapes.
pub fn unsanitize_reason(reason: &str) -> (out: String)
    ensures
        out@ == unsanitized(reason@),
{
    let s = chars_of(reason);
    let mut out: Vec<char> = Vec::new();
    let mut i: usize = 0;
    assert(s@.skip(0) =~= s@);
    assert(out@ + s@ =~= s@);
    while i < s.len()
        invariant
            i <= s.len(),
            s@ == reason@,
            unsanitized(s@) == out@ + unsanitized(s@.skip(i as int)),
        decreases s.len() - i,
    {
        let ch = s[i];
        proof {
            assert(s@.skip(i as int).drop_first() == s@.skip(i + 1));
        }
        if ch == '\\' && i + 1 < s.len() && is_escaped_in_reason(s[i + 1]) {
            proof {
                assert(s@.skip(i as int).skip(2) == s@.skip(i + 2));
            }
            out.push(s[i + 1]);
            i = i + 2;
        } else {
            out.push(ch);
            i = i + 1;
        }
    }
    assert(s@.skip(s.len() as int) == Seq::<char>::empty());
    string_of(&out)
}

/// The reasons on which rendering then reading back is lossless: those
/// without line breaks, which rendering turns into spaces.
pub open spec fn round_trip_safe(s: Seq<char>) -> bool {
    forall|i: int| 0 <= i < s.len() ==> s[i] != '\n' && s[i] != '\r'
}

pub proof fn lemma_sanitized_first(s: Seq<char>)
    requires
        s.len() > 0,
    ensures
        sanitized(s).len() > 0,
        sanitized(s)[0] == (if is_escaped_char(s[0]) { '\\' } else if s[0] == '\n' || s[0] == '\r' { ' ' } else { s[0] }),
{
}

/// A rendered reason without line breaks ends with the reason's last character.
pub proof fn lemma_sanitized_last(s: Seq<char>)
    requires
        s.len() > 0,
        forall|i: int| 0 <= i < s.len() ==> s[i] != '\n' && s[i] != '\r',
    ensures
        sanitized(s).len() > 0,
        sanitized(s).last() == s.last(),
    decreases s.len(),
{
    let rest = s.drop_first();
    if rest.len() > 0 {
        assert forall|i: int| 0 <= i < rest.len() implies rest[i] != '\n' && rest[i] != '\r' by {
            assert(rest[i] == s[i + 1]);
        }
        lemma_sanitized_last(rest);
        assert(sanitized(s) == sanitize_char(s[0]) + sanitized(rest));
        assert(rest.last() == s.last());
    } else {
        assert(s.len() == 1);
        assert(sanitized(rest) == Seq::<char>::empty());
        assert(sanitized(s) =~= sanitize_char(s[0]));
    }
}

/// Reading back a rendered reason gives the reason itself, for every reason
/// without line breaks.
pub proof fn unsanitize_inverts_sanitize(s: Seq<char>)
    requires
        round_trip_safe(s),
    ensures
        unsanitized(sanitized(s)) == s,
    decreases s.len(),
{
    if s.len() > 0 {
        let c = s[0];
        let rest = s.drop_first();
        assert(round_trip_safe(rest)) by {
            assert forall|i: int| 0 <= i < rest.len() implies rest[i] != '\n' && rest[i] != '\r' by {
                assert(s[i + 1] == rest[i]);
            }
        }
        unsanitize_inverts_sanitize(rest);
        let sr = sanitized(rest);
        assert(sanitized(s) == sanitize_char(c) + sr);
        assert(c != '\n' && c != '\r');
        if is_escaped_char(c) {
            let t = seq!['\\', c] + sr;
            assert(t.skip(2) =~= sr);
            assert(unsanitized(t) == seq![c] + unsanitized(sr));
        } else {
            let u = seq![c] + sr;
            assert(u.drop_first() == sr);
            assert(unsanitized(u) == seq![c] + unsanitized(sr));
        }
        assert(seq![c] + rest =~= s);
    }
}

/// Rendering a reason that was read back from its rendering gives the same
/// rendering again, so escapes do not stack up on each redraw, for every
/// reason without line breaks.
pub proof fn sanitize_is_stable_across_redraws(s: Seq<char>)
    requires
        round_trip_safe(s),
    ensures
        sanitized(unsanitized(sanitized(s))) == sanitized(s),
{
    unsanitize_inverts_sanitize(s);
}

} // verus!
