//! Character-level helpers shared by the message formatting and parsing code.

use vstd::prelude::*;

verus! {

/// The characters of `s`, in order.
pub fn chars_of(s: &str) -> (v: Vec<char>)
    ensures
        v@ == s@,
{
    let mut v: Vec<char> = Vec::new();
    for c in it: s.chars()
        invariant
            v@ == it.seq().take(it.index() as int),
            it.seq() == s@,
    {
        v.push(c);
    }
    v
}

/// Collects characters into an owned string (`FromIterator<&char> for String`).
#[verifier::external_body]
pub(crate) fn string_of(v: &Vec<char>) -> (s: String)
    ensures
        s@ == v@,
{
    v.iter().collect::<String>()
}

/// Whether two strings hold the same characters.
pub fn str_eq(a: &str, b: &str) -> (r: bool)
    ensures
        r == (a@ == b@),
{
    let x = chars_of(a);
    let y = chars_of(b);
    seq_eq(&x, &y)
}

/// Whether two character vectors are equal.
pub fn seq_eq(x: &Vec<char>, y: &Vec<char>) -> (r: bool)
    ensures
        r == (x@ == y@),
{
    if x.len() != y.len() {
        return false;
    }
    let mut i: usize = 0;
    while i < x.len()
        invariant
            x.len() == y.len(),
            i <= x.len(),
            forall|j: int| 0 <= j < i ==> x@[j] == y@[j],
        decreases x.len() - i,
    {
        if x[i] != y[i] {
            return false;
        }
        i = i + 1;
    }
    assert(x@ =~= y@);
    true
}

/// The decimal digit character for `d < 10`.
pub open spec fn digit_char(d: nat) -> char {
    if d == 0 { '0' } else if d == 1 { '1' } else if d == 2 { '2' } else if d == 3 { '3' }
    else if d == 4 { '4' } else if d == 5 { '5' } else if d == 6 { '6' } else if d == 7 { '7' }
    else if d == 8 { '8' } else { '9' }
}

/// The decimal representation of `n`, as `n.to_string()` writes it.
pub open spec fn decimal(n: nat) -> Seq<char>
    decreases n,
{
    if n < 10 {
        seq![digit_char(n)]
    } else {
        decimal(n / 10).push(digit_char(n % 10))
    }
}

fn digit_of(d: u64) -> (c: char)
    requires
        d < 10,
    ensures
        c == digit_char(d as nat),
{
    if d == 0 { '0' } else if d == 1 { '1' } else if d == 2 { '2' } else if d == 3 { '3' }
    else if d == 4 { '4' } else if d == 5 { '5' } else if d == 6 { '6' } else if d == 7 { '7' }
    else if d == 8 { '8' } else { '9' }
}

/// The decimal digits of `n`.
pub fn decimal_chars(n: u64) -> (v: Vec<char>)
    ensures
        v@ == decimal(n as nat),
    decreases n,
{
    if n < 10 {
        let mut v: Vec<char> = Vec::new();
        v.push(digit_of(n));
        v
    } else {
        let mut v = decimal_chars(n / 10);
        v.push(digit_of(n % 10));
        v
    }
}

/// Appends the characters of `s` to `out`.
pub fn push_str(out: &mut Vec<char>, s: &str)
    ensures
        final(out)@ == old(out)@ + s@,
{
    let v = chars_of(s);
    let mut i: usize = 0;
    while i < v.len()
        invariant
            i <= v.len(),
            v@ == s@,
            out@ == old(out)@ + v@.take(i as int),
        decreases v.len() - i,
    {
        out.push(v[i]);
        i = i + 1;
        assert(v@.take(i as int) == v@.take((i - 1) as int).push(v@[i - 1]));
    }
    assert(v@.take(v.len() as int) == v@);
}

/// Appends the characters of `s` to `out`.
pub fn push_chars(out: &mut Vec<char>, s: &Vec<char>)
    ensures
        final(out)@ == old(out)@ + s@,
{
    let mut i: usize = 0;
    while i < s.len()
        invariant
            i <= s.len(),
            out@ == old(out)@ + s@.take(i as int),
        decreases s.len() - i,
    {
        out.push(s[i]);
        i = i + 1;
        assert(s@.take(i as int) == s@.take((i - 1) as int).push(s@[i - 1]));
    }
    assert(s@.take(s.len() as int) == s@);
}

} // verus!

verus! {

/// The decimal representation of a signed integer, as `to_string()` writes it.
pub open spec fn signed_decimal(n: int) -> Seq<char> {
    if n < 0 {
        seq!['-'] + decimal((-n) as nat)
    } else {
        decimal(n as nat)
    }
}

/// The decimal digits of `n`, with a leading `-` when negative.
pub fn i64_decimal_chars(n: i64) -> (v: Vec<char>)
    ensures
        v@ == signed_decimal(n as int),
{
    if n < 0 {
        let m: u64 = if n == i64::MIN { 9223372036854775808u64 } else { (-n) as u64 };
        let d = decimal_chars(m);
        let mut v: Vec<char> = Vec::new();
        v.push('-');
        push_chars(&mut v, &d);
        v
    } else {
        decimal_chars(n as u64)
    }
}

/// Whether `p` is a prefix of `s`.
pub open spec fn has_prefix(s: Seq<char>, p: Seq<char>) -> bool {
    p.len() <= s.len() && s.take(p.len() as int) == p
}

/// Whether `s` starts with the characters of `p`.
pub fn starts_with(s: &Vec<char>, p: &str) -> (r: bool)
    ensures
        r == has_prefix(s@, p@),
{
    let pv = chars_of(p);
    if pv.len() > s.len() {
        return false;
    }
    let mut i: usize = 0;
    while i < pv.len()
        invariant
            pv@ == p@,
            pv.len() <= s.len(),
            i <= pv.len(),
            forall|j: int| 0 <= j < i ==> s@[j] == pv@[j],
        decreases pv.len() - i,
    {
        if s[i] != pv[i] {
            return false;
        }
        i = i + 1;
    }
    assert(s@.take(pv.len() as int) =~= pv@);
    true
}

/// The characters of `s` from index `from` on.
pub fn suffix_from(s: &Vec<char>, from: usize) -> (v: Vec<char>)
    requires
        from <= s.len(),
    ensures
        v@ == s@.skip(from as int),
{
    slice_chars(s, from, s.len())
}

/// The characters of `s` in `from..to`.
pub fn slice_chars(s: &Vec<char>, from: usize, to: usize) -> (v: Vec<char>)
    requires
        from <= to <= s.len(),
    ensures
        v@ == s@.subrange(from as int, to as int),
{
    let mut v: Vec<char> = Vec::new();
    let mut i: usize = from;
    while i < to
        invariant
            from <= i <= to,
            to <= s.len(),
            v@ == s@.subrange(from as int, i as int),
        decreases to - i,
    {
        v.push(s[i]);
        i = i + 1;
        assert(s@.subrange(from as int, i as int) == s@.subrange(from as int, (i - 1) as int).push(s@[i - 1]));
    }
    v
}

} // verus!

verus! {

/// Whether `c` has the Unicode `White_Space` property, as `char::is_whitespace` tests.
pub open spec fn is_ws(c: char) -> bool {
    ('\t' <= c <= '\r') || c == ' ' || c == '\u{85}' || c == '\u{a0}' || c == '\u{1680}'
        || ('\u{2000}' <= c <= '\u{200a}') || c == '\u{2028}' || c == '\u{2029}' || c == '\u{202f}'
        || c == '\u{205f}' || c == '\u{3000}'
}

/// Whether `c` is whitespace (`char::is_whitespace`).
pub fn is_whitespace(c: char) -> (r: bool)
    ensures
        r == is_ws(c),
{
    ('\t' <= c && c <= '\r') || c == ' ' || c == '\u{85}' || c == '\u{a0}' || c == '\u{1680}'
        || ('\u{2000}' <= c && c <= '\u{200a}') || c == '\u{2028}' || c == '\u{2029}' || c == '\u{202f}'
        || c == '\u{205f}' || c == '\u{3000}'
}

/// `s` without leading whitespace.
pub open spec fn trim_start(s: Seq<char>) -> Seq<char>
    decreases s.len(),
{
    if s.len() > 0 && is_ws(s[0]) { trim_start(s.drop_first()) } else { s }
}

/// `s` without trailing whitespace.
pub open spec fn trim_end(s: Seq<char>) -> Seq<char>
    decreases s.len(),
{
    if s.len() > 0 && is_ws(s.last()) { trim_end(s.drop_last()) } else { s }
}

/// `s` without leading or trailing whitespace (`str::trim`).
pub open spec fn trimmed(s: Seq<char>) -> Seq<char> {
    trim_end(trim_start(s))
}

/// Text that starts and ends with no whitespace is its own trim.
pub proof fn lemma_trimmed_unchanged(s: Seq<char>)
    requires
        s.len() > 0,
        !is_ws(s[0]),
        !is_ws(s.last()),
    ensures
        trimmed(s) == s,
{
    assert(trim_start(s) == s);
    assert(trim_end(s) == s);
}

/// Text whose first character differs from that of `p` does not start with `p`.
pub proof fn lemma_no_prefix(s: Seq<char>, p: Seq<char>)
    requires
        s.len() > 0,
        p.len() > 0,
        s[0] != p[0],
    ensures
        !has_prefix(s, p),
        after_prefix(s, p) is None,
{
    if has_prefix(s, p) {
        assert(s.take(p.len() as int)[0] == s[0]);
    }
}

/// `s` without leading or trailing whitespace.
pub fn trim_chars(s: &Vec<char>) -> (r: Vec<char>)
    ensures
        r@ == trimmed(s@),
{
    let mut i: usize = 0;
    assert(s@.skip(0) == s@);
    while i < s.len() && is_whitespace(s[i])
        invariant
            i <= s.len(),
            trim_start(s@) == trim_start(s@.skip(i as int)),
        decreases s.len() - i,
    {
        assert(s@.skip(i as int).drop_first() == s@.skip(i + 1));
        i = i + 1;
    }
    let mut j: usize = s.len();
    let ghost t = s@.skip(i as int);
    assert(trim_start(s@) == t);
    assert(s@.subrange(i as int, j as int) == t);
    while j > i && is_whitespace(s[j - 1])
        invariant
            i <= j <= s.len(),
            t == s@.skip(i as int),
            trim_end(t) == trim_end(s@.subrange(i as int, j as int)),
        decreases j,
    {
        assert(s@.subrange(i as int, j as int).drop_last() == s@.subrange(i as int, j - 1));
        j = j - 1;
    }
    slice_chars(s, i, j)
}

/// Whether every character of `d` is an ASCII digit.
pub open spec fn all_digits(d: Seq<char>) -> bool {
    forall|k: int| 0 <= k < d.len() ==> '0' <= #[trigger] d[k] <= '9'
}

/// The value of a string of ASCII digits.
pub open spec fn digits_value(d: Seq<char>) -> nat
    decreases d.len(),
{
    if d.len() == 0 {
        0
    } else {
        digits_value(d.drop_last()) * 10 + ((d.last() as u32) - ('0' as u32)) as nat
    }
}

/// The integer `str::parse` reads from `s`: an optional `+` or `-` sign, then
/// one or more ASCII digits; `None` for anything else. Unsigned parses refuse `-`.
pub open spec fn parsed_int(s: Seq<char>, signed: bool) -> Option<int> {
    if s.len() == 0 {
        None
    } else {
        let neg = s[0] == '-';
        let body = if s[0] == '-' || s[0] == '+' { s.drop_first() } else { s };
        if body.len() == 0 || !all_digits(body) || (neg && !signed) {
            None
        } else if neg {
            Some(-(digits_value(body) as int))
        } else {
            Some(digits_value(body) as int)
        }
    }
}

/// Reads a decimal integer from `s` as `str::parse::<i64>` does.
pub fn parse_i64(s: &Vec<char>) -> (r: Option<i64>)
    ensures
        r == (match parsed_int(s@, true) {
            Some(v) => if i64::MIN <= v <= i64::MAX { Some(v as i64) } else { None },
            None => None,
        }),
{
    match parse_magnitude(s, true) {
        None => None,
        Some((neg, m)) => {
            if neg {
                if m <= 9223372036854775808u128 {
                    let v: i128 = -(m as i128);
                    Some(v as i64)
                } else {
                    None
                }
            } else {
                if m <= 9223372036854775807u128 {
                    Some(m as i64)
                } else {
                    None
                }
            }
        },
    }
}

/// Reads a decimal integer from `s` as `str::parse::<u64>` does.
pub fn parse_u64(s: &Vec<char>) -> (r: Option<u64>)
    ensures
        r == (match parsed_int(s@, false) {
            Some(v) => if 0 <= v <= u64::MAX { Some(v as u64) } else { None },
            None => None,
        }),
{
    match parse_magnitude(s, false) {
        None => None,
        Some((_, m)) => {
            if m <= 18446744073709551615u128 {
                Some(m as u64)
            } else {
                None
            }
        },
    }
}

/// The sign and magnitude of a decimal integer; `None` when malformed, or when
/// the magnitude exceeds `u64::MAX + 1` (then no 64-bit type can hold it).
#[verifier::rlimit(40)]
#[verifier::spinoff_prover]
fn parse_magnitude(s: &Vec<char>, signed: bool) -> (r: Option<(bool, u128)>)
    ensures
        match r {
            Some((neg, m)) => parsed_int(s@, signed) == Some(if neg { -(m as int) } else { m as int })
                && m <= 18446744073709551616,
            None => parsed_int(s@, signed).is_none()
                || (parsed_int(s@, signed).unwrap() > 18446744073709551616
                    || parsed_int(s@, signed).unwrap() < -18446744073709551616),
        },
{
    if s.len() == 0 {
        return None;
    }
    let neg = s[0] == '-';
    let start: usize = if s[0] == '-' || s[0] == '+' { 1 } else { 0 };
    if start == s.len() || (neg && !signed) {
        return None;
    }
    let ghost body = if s@[0] == '-' || s@[0] == '+' { s@.drop_first() } else { s@ };
    assert(body == s@.skip(start as int));
    let mut acc: u128 = 0;
    let mut i: usize = start;
    while i < s.len()
        invariant
            start <= i <= s.len(),
            start < s.len(),
            body == s@.skip(start as int),
            parsed_int(s@, signed) == (if body.len() == 0 || !all_digits(body) { None } else if neg {
                Some(-(digits_value(body) as int))
            } else {
                Some(digits_value(body) as int)
            }),
            all_digits(body.take(i - start)),
            acc == digits_value(body.take(i - start)),
            acc <= 18446744073709551616,
        decreases s.len() - i,
    {
        let c = s[i];
        proof {
            assert(body[i - start] == c);
        }
        if !('0' <= c && c <= '9') {
            return None;
        }
        let dv: u128 = ((c as u32) - ('0' as u32)) as u128;
        proof {
            lemma_digit_step(body, i - start, acc as nat, dv as nat);
        }
        if acc > 1844674407370955161u128 {
            proof {
                lemma_value_grows(body, i - start + 1);
            }
            return None;
        }
        acc = acc * 10 + dv;
        if acc > 18446744073709551616u128 {
            proof {
                lemma_value_grows(body, i - start + 1);
            }
            return None;
        }
        i = i + 1;
    }
    assert(body.take(s.len() - start) == body);
    Some((neg, acc))
}

proof fn lemma_digit_step(d: Seq<char>, k: int, acc: nat, dv: nat)
    requires
        0 <= k < d.len(),
        all_digits(d.take(k)),
        acc == digits_value(d.take(k)),
        '0' <= d[k] <= '9',
        dv == (d[k] as u32) - ('0' as u32),
    ensures
        all_digits(d.take(k + 1)),
        digits_value(d.take(k + 1)) == acc * 10 + dv,
{
    let t = d.take(k + 1);
    assert(t.drop_last() == d.take(k));
    assert(t.last() == d[k]);
    assert forall|j: int| 0 <= j < t.len() implies '0' <= #[trigger] t[j] <= '9' by {
        if j < k {
            assert(t[j] == d.take(k)[j]);
        }
    }
}

/// The value of a digit string is at least the value of any prefix.
proof fn lemma_value_grows(d: Seq<char>, k: int)
    requires
        0 <= k <= d.len(),
    ensures
        all_digits(d) ==> digits_value(d) >= digits_value(d.take(k)),
    decreases d.len() - k,
{
    if k < d.len() && all_digits(d) {
        lemma_value_grows(d, k + 1);
        let t = d.take(k + 1);
        assert(t.drop_last() == d.take(k));
        assert(all_digits(t));
    }
    if k == d.len() {
        assert(d.take(k) == d);
    }
}

} // verus!

verus! {

/// The pieces of `s` between occurrences of `sep` (`str::split` with a
/// character pattern): always at least one piece.
pub open spec fn split_on(s: Seq<char>, sep: char) -> Seq<Seq<char>>
    decreases s.len(),
{
    if s.len() == 0 {
        seq![Seq::<char>::empty()]
    } else {
        let p = split_on(s.drop_last(), sep);
        if s.last() == sep {
            p.push(Seq::<char>::empty())
        } else {
            p.update(p.len() - 1, p.last().push(s.last()))
        }
    }
}

proof fn lemma_split_nonempty(s: Seq<char>, sep: char)
    ensures
        split_on(s, sep).len() >= 1,
    decreases s.len(),
{
    if s.len() > 0 {
        lemma_split_nonempty(s.drop_last(), sep);
    }
}

/// The character sequences held by a vector of character vectors.
pub open spec fn views(v: Seq<Vec<char>>) -> Seq<Seq<char>> {
    Seq::new(v.len(), |i: int| v[i]@)
}

/// The pieces of `s` between occurrences of `sep`.
pub fn split_chars(s: &Vec<char>, sep: char) -> (r: Vec<Vec<char>>)
    ensures
        views(r@) == split_on(s@, sep),
        r@.len() >= 1,
{
    let mut r: Vec<Vec<char>> = Vec::new();
    let mut cur: Vec<char> = Vec::new();
    let mut i: usize = 0;
    assert(s@.take(0) == Seq::<char>::empty());
    while i < s.len()
        invariant
            i <= s.len(),
            views(r@).push(cur@) == split_on(s@.take(i as int), sep),
        decreases s.len() - i,
    {
        let c = s[i];
        let ghost t = s@.take(i + 1);
        proof {
            assert(t.drop_last() == s@.take(i as int));
            assert(t.last() == c);
            lemma_split_nonempty(s@.take(i as int), sep);
        }
        if c == sep {
            let ghost before = views(r@);
            r.push(cur);
            cur = Vec::new();
            assert(views(r@) =~= before.push(split_on(s@.take(i as int), sep).last()));
            assert(views(r@).push(cur@) =~= split_on(t, sep));
        } else {
            cur.push(c);
            assert(views(r@).push(cur@) =~= split_on(t, sep));
        }
        i = i + 1;
    }
    assert(s@.take(s.len() as int) == s@);
    let ghost before = views(r@);
    r.push(cur);
    assert(views(r@) =~= before.push(cur@));
    r
}

/// Reads a decimal `usize` as `str::parse::<usize>` does.
pub fn parse_usize(s: &Vec<char>) -> (r: Option<usize>)
    ensures
        r == (match parsed_int(s@, false) {
            Some(v) => if 0 <= v <= usize::MAX { Some(v as usize) } else { None },
            None => None,
        }),
{
    match parse_u64(s) {
        None => None,
        Some(v) => {
            if v as u128 <= usize::MAX as u128 {
                Some(v as usize)
            } else {
                None
            }
        },
    }
}

/// The `usize` written in `s`, or 0 when `s` holds none (`parse().unwrap_or(0)`).
pub open spec fn usize_or_zero(s: Seq<char>) -> usize {
    match parsed_int(s, false) {
        Some(v) => if 0 <= v <= usize::MAX { v as usize } else { 0 },
        None => 0,
    }
}

/// The `u64` written in `s`, or 0 when `s` holds none (`parse().unwrap_or(0)`).
pub open spec fn u64_or_zero(s: Seq<char>) -> u64 {
    match parsed_int(s, false) {
        Some(v) => if 0 <= v <= u64::MAX { v as u64 } else { 0 },
        None => 0,
    }
}

/// The `u64` written in `s`, if any.
pub open spec fn u64_in(s: Seq<char>) -> Option<u64> {
    match parsed_int(s, false) {
        Some(v) => if 0 <= v <= u64::MAX { Some(v as u64) } else { None },
        None => None,
    }
}

} // verus!

verus! {

/// `pieces` with `c` put in front of its first piece.
pub open spec fn prepend_first(c: Seq<char>, pieces: Seq<Seq<char>>) -> Seq<Seq<char>> {
    pieces.update(0, c + pieces[0])
}

/// The pieces of `s` between the non-overlapping occurrences of `pat`, found
/// from the left (`str::split` with a string pattern): at least one piece.
pub open spec fn split_str(s: Seq<char>, pat: Seq<char>) -> Seq<Seq<char>>
    decreases s.len(),
{
    if s.len() == 0 || pat.len() == 0 {
        seq![s]
    } else if has_prefix(s, pat) {
        seq![Seq::<char>::empty()] + split_str(s.skip(pat.len() as int), pat)
    } else {
        prepend_first(seq![s[0]], split_str(s.drop_first(), pat))
    }
}

proof fn lemma_split_str_nonempty(s: Seq<char>, pat: Seq<char>)
    ensures
        split_str(s, pat).len() >= 1,
    decreases s.len(),
{
    if s.len() > 0 && pat.len() > 0 {
        if has_prefix(s, pat) {
            lemma_split_str_nonempty(s.skip(pat.len() as int), pat);
        } else {
            lemma_split_str_nonempty(s.drop_first(), pat);
        }
    }
}

/// Where `pat` starts nowhere inside `a`, splitting `a`, `pat`, `b` at
/// `pat` gives `a` and then the pieces of `b`.
pub proof fn lemma_split_str_concat(a: Seq<char>, pat: Seq<char>, b: Seq<char>)
    requires
        pat.len() > 0,
        forall|i: int| 0 <= i < a.len() ==> !has_prefix(#[trigger] (a + pat + b).skip(i), pat),
    ensures
        split_str(a + pat + b, pat) == seq![a] + split_str(b, pat),
    decreases a.len(),
{
    let s = a + pat + b;
    if a.len() == 0 {
        assert(s =~= pat + b);
        assert(s.take(pat.len() as int) =~= pat);
        assert(s.skip(pat.len() as int) =~= b);
        assert(a =~= Seq::<char>::empty());
    } else {
        assert(s.skip(0) =~= s);
        let a2 = a.drop_first();
        assert(s.drop_first() =~= a2 + pat + b);
        assert forall|i: int| 0 <= i < a2.len() implies !has_prefix(#[trigger] (a2 + pat + b).skip(i), pat) by {
            assert((a2 + pat + b).skip(i) =~= s.skip(i + 1));
        }
        lemma_split_str_concat(a2, pat, b);
        lemma_split_str_nonempty(b, pat);
        assert(seq![seq![s[0]] + a2] + split_str(b, pat) =~= prepend_first(seq![s[0]], seq![a2] + split_str(b, pat)));
        assert(seq![s[0]] + a2 =~= a);
    }
}

/// Where `pat` starts nowhere in `b`, splitting `b` at `pat` gives `b` whole.
pub proof fn lemma_split_str_none(b: Seq<char>, pat: Seq<char>)
    requires
        forall|i: int| 0 <= i < b.len() ==> !has_prefix(#[trigger] b.skip(i), pat),
    ensures
        split_str(b, pat) == seq![b],
    decreases b.len(),
{
    if b.len() > 0 && pat.len() > 0 {
        assert(b.skip(0) =~= b);
        let b2 = b.drop_first();
        assert forall|i: int| 0 <= i < b2.len() implies !has_prefix(#[trigger] b2.skip(i), pat) by {
            assert(b2.skip(i) =~= b.skip(i + 1));
        }
        lemma_split_str_none(b2, pat);
        assert(seq![seq![b[0]] + b2] =~= prepend_first(seq![b[0]], seq![b2]));
        assert(seq![b[0]] + b2 =~= b);
    }
}

/// Whether `pat` occurs in `s` at index `i`.
pub fn matches_at(s: &Vec<char>, i: usize, pat: &Vec<char>) -> (r: bool)
    requires
        i <= s.len(),
    ensures
        r == has_prefix(s@.skip(i as int), pat@),
{
    if pat.len() > s.len() - i {
        return false;
    }
    let mut k: usize = 0;
    while k < pat.len()
        invariant
            i <= s.len(),
            pat.len() <= s.len() - i,
            k <= pat.len(),
            forall|j: int| 0 <= j < k ==> s@[i + j] == pat@[j],
        decreases pat.len() - k,
    {
        if s[i + k] != pat[k] {
            assert(s@.skip(i as int).take(pat.len() as int)[k as int] == s@[i + k]);
            return false;
        }
        k = k + 1;
    }
    assert(s@.skip(i as int).take(pat.len() as int) =~= pat@);
    true
}

/// The pieces of `s` between the occurrences of `pat`.
pub fn split_by(s: &Vec<char>, pat: &str) -> (r: Vec<Vec<char>>)
    ensures
        views(r@) == split_str(s@, pat@),
        r@.len() >= 1,
{
    let p = chars_of(pat);
    if p.len() == 0 || s.len() == 0 {
        let mut r: Vec<Vec<char>> = Vec::new();
        r.push(slice_chars(s, 0, s.len()));
        assert(s@.subrange(0, s.len() as int) == s@);
        assert(views(r@) =~= seq![s@]);
        return r;
    }
    let mut r: Vec<Vec<char>> = Vec::new();
    let mut cur: Vec<char> = Vec::new();
    let mut i: usize = 0;
    proof {
        assert(s@.skip(0) == s@);
        lemma_split_str_nonempty(s@, p@);
        assert(prepend_first(cur@, split_str(s@, p@)) =~= split_str(s@, p@));
        assert(views(r@) + split_str(s@, p@) =~= split_str(s@, p@));
    }
    while i < s.len()
        invariant
            i <= s.len(),
            p@ == pat@,
            p@.len() > 0,
            split_str(s@, p@) == views(r@) + prepend_first(cur@, split_str(s@.skip(i as int), p@)),
        decreases s.len() - i,
    {
        let ghost t = s@.skip(i as int);
        proof {
            lemma_split_str_nonempty(t, p@);
        }
        if matches_at(s, i, &p) {
            proof {
                assert(t.skip(p@.len() as int) == s@.skip(i + p@.len()));
                let rest = split_str(s@.skip(i + p@.len()), p@);
                lemma_split_str_nonempty(s@.skip(i + p@.len()), p@);
                assert(split_str(t, p@) == seq![Seq::<char>::empty()] + rest);
                assert(prepend_first(cur@, split_str(t, p@)) =~= seq![cur@] + rest);
                assert(prepend_first(Seq::<char>::empty(), rest) =~= rest);
            }
            let ghost before = views(r@);
            r.push(cur);
            cur = Vec::new();
            assert(views(r@) =~= before.push(r@[r@.len() - 1]@));
            i = i + p.len();
        } else {
            let c = s[i];
            proof {
                assert(t.drop_first() == s@.skip(i + 1));
                assert(t[0] == c);
                let rest = split_str(s@.skip(i + 1), p@);
                lemma_split_str_nonempty(s@.skip(i + 1), p@);
                assert(cur@ + (seq![c] + rest[0]) =~= cur@.push(c) + rest[0]);
                assert(prepend_first(cur@, prepend_first(seq![c], rest)) =~= prepend_first(cur@.push(c), rest));
            }
            cur.push(c);
            i = i + 1;
        }
    }
    proof {
        assert(s@.skip(i as int).len() == 0);
        assert(split_str(s@.skip(i as int), p@) == seq![s@.skip(i as int)]);
        assert(prepend_first(cur@, seq![s@.skip(i as int)]) =~= seq![cur@]);
    }
    let ghost before = views(r@);
    r.push(cur);
    assert(views(r@) =~= before.push(r@[r@.len() - 1]@));
    r
}

/// Whether `c` is an ASCII hexadecimal digit (`char::is_ascii_hexdigit`).
pub open spec fn is_ascii_hex(c: char) -> bool {
    ('0' <= c <= '9') || ('a' <= c <= 'f') || ('A' <= c <= 'F')
}

/// The test "is not `c`".
pub open spec fn not_char(c: char) -> spec_fn(char) -> bool {
    |x: char| x != c
}

/// `s` with every `c` removed (`str::replace(c, "")`).
pub open spec fn remove_char(s: Seq<char>, c: char) -> Seq<char> {
    s.filter(not_char(c))
}

/// `s` with every `c` removed.
pub fn remove_all(s: &Vec<char>, c: char) -> (r: Vec<char>)
    ensures
        r@ == remove_char(s@, c),
{
    let ghost pred = not_char(c);
    let mut r: Vec<char> = Vec::new();
    let mut i: usize = 0;
    while i < s.len()
        invariant
            i <= s.len(),
            pred == not_char(c),
            r@ == s@.take(i as int).filter(pred),
        decreases s.len() - i,
    {
        if s[i] != c {
            r.push(s[i]);
        }
        proof {
            assert(s@.take(i + 1) == s@.take(i as int).push(s@[i as int]));
            s@.take(i as int).lemma_filter_push(s@[i as int], pred);
        }
        i = i + 1;
    }
    assert(s@.take(s.len() as int) == s@);
    r
}

} // verus!

verus! {

/// Whether `p` is a suffix of `s`.
pub open spec fn has_suffix(s: Seq<char>, p: Seq<char>) -> bool {
    p.len() <= s.len() && s.skip(s.len() - p.len()) == p
}

/// Whether `s` ends with the characters of `p`.
pub fn ends_with(s: &Vec<char>, p: &str) -> (r: bool)
    ensures
        r == has_suffix(s@, p@),
{
    let pv = chars_of(p);
    if pv.len() > s.len() {
        return false;
    }
    let off = s.len() - pv.len();
    let r = matches_at(s, off, &pv);
    assert(s@.skip(off as int).take(pv.len() as int) == s@.skip(off as int));
    r
}

/// Index of the first `c` in `s`, if any.
pub open spec fn first_index(s: Seq<char>, c: char) -> Option<int> {
    if exists|i: int| 0 <= i < s.len() && s[i] == c {
        Some(choose|i: int| 0 <= i < s.len() && s[i] == c && forall|j: int| 0 <= j < i ==> s[j] != c)
    } else {
        None
    }
}

/// Index of the first `c` in `s`, if any.
pub fn find_char(s: &Vec<char>, c: char) -> (r: Option<usize>)
    ensures
        match first_index(s@, c) {
            Some(i) => r == Some(i as usize),
            None => r is None,
        },
        match r {
            Some(i) => i < s@.len() && s@[i as int] == c && forall|j: int| 0 <= j < i ==> s@[j] != c,
            None => forall|j: int| 0 <= j < s@.len() ==> s@[j] != c,
        },
{
    let mut i: usize = 0;
    while i < s.len()
        invariant
            i <= s.len(),
            forall|j: int| 0 <= j < i ==> s@[j] != c,
        decreases s.len() - i,
    {
        if s[i] == c {
            proof {
                let k = choose|k: int| 0 <= k < s@.len() && s@[k] == c && forall|j: int| 0 <= j < k ==> s@[j] != c;
                assert(k == i);
            }
            return Some(i);
        }
        i = i + 1;
    }
    None
}

/// Whether `c` occurs in `s`.
pub fn contains_char(s: &Vec<char>, c: char) -> (r: bool)
    ensures
        r == s@.contains(c),
{
    match find_char(s, c) {
        Some(i) => {
            assert(s@[i as int] == c);
            true
        },
        None => false,
    }
}

/// `pieces` joined with `sep` between consecutive pieces.
pub open spec fn join(pieces: Seq<Seq<char>>, sep: Seq<char>) -> Seq<char>
    decreases pieces.len(),
{
    if pieces.len() == 0 {
        seq![]
    } else if pieces.len() == 1 {
        pieces[0]
    } else {
        join(pieces.drop_last(), sep) + sep + pieces.last()
    }
}

/// Strings joined with `sep` between consecutive strings.
pub fn join_strings(v: &Vec<String>, sep: &str) -> (r: String)
    ensures
        r@ == join(v.deep_view(), sep@),
{
    let mut out: Vec<char> = Vec::new();
    let mut i: usize = 0;
    while i < v.len()
        invariant
            i <= v.len(),
            out@ == join(v.deep_view().take(i as int), sep@),
        decreases v.len() - i,
    {
        let ghost before = out@;
        if i > 0 {
            push_str(&mut out, sep);
        }
        push_str(&mut out, v[i].as_str());
        proof {
            let t = v.deep_view().take(i + 1);
            assert(t.drop_last() == v.deep_view().take(i as int));
            assert(t.last() == v@[i as int]@);
            if i == 0 {
                assert(t.len() == 1);
            }
        }
        i = i + 1;
    }
    assert(v.deep_view().take(v.len() as int) == v.deep_view());
    string_of(&out)
}

} // verus!

verus! {

/// Index of the last `c` in `s`, if any.
pub open spec fn last_index(s: Seq<char>, c: char) -> Option<int> {
    if exists|i: int| 0 <= i < s.len() && s[i] == c {
        Some(choose|i: int| 0 <= i < s.len() && s[i] == c && forall|j: int| i < j < s.len() ==> s[j] != c)
    } else {
        None
    }
}

/// In `head`, `c`, `rest`, where `head` holds no `c`, the first `c` is the
/// one after `head`.
pub proof fn lemma_first_index_after(head: Seq<char>, c: char, rest: Seq<char>)
    requires
        !head.contains(c),
    ensures
        first_index(head + seq![c] + rest, c) == Some(head.len() as int),
{
    let t = head + seq![c] + rest;
    assert(t[head.len() as int] == c);
    let i = choose|i: int| 0 <= i < t.len() && t[i] == c && forall|j: int| 0 <= j < i ==> t[j] != c;
    if i < head.len() {
        assert(t[i] == head[i]);
    }
}

/// In `head`, `c`, `tail`, where `tail` holds no `c`, the last `c` is the
/// one before `tail`.
pub proof fn lemma_last_index_before(head: Seq<char>, c: char, tail: Seq<char>)
    requires
        !tail.contains(c),
    ensures
        last_index(head + seq![c] + tail, c) == Some(head.len() as int),
{
    let t = head + seq![c] + tail;
    assert(t[head.len() as int] == c);
    let i = choose|i: int| 0 <= i < t.len() && t[i] == c && forall|j: int| i < j < t.len() ==> t[j] != c;
    if i > head.len() {
        assert(t[i] == tail[i - head.len() - 1]);
    }
}

/// Index of the last `c` in `s`, if any.
pub fn rfind_char(s: &Vec<char>, c: char) -> (r: Option<usize>)
    ensures
        match last_index(s@, c) {
            Some(i) => r == Some(i as usize),
            None => r is None,
        },
        match r {
            Some(i) => i < s@.len() && s@[i as int] == c && forall|j: int| i < j < s@.len() ==> s@[j] != c,
            None => forall|j: int| 0 <= j < s@.len() ==> s@[j] != c,
        },
{
    let mut i: usize = s.len();
    while i > 0
        invariant
            i <= s.len(),
            forall|j: int| i <= j < s.len() ==> s@[j] != c,
        decreases i,
    {
        if s[i - 1] == c {
            proof {
                let k = choose|k: int| 0 <= k < s@.len() && s@[k] == c && forall|j: int| k < j < s@.len() ==> s@[j] != c;
                assert(k == i - 1);
            }
            return Some(i - 1);
        }
        i = i - 1;
    }
    None
}

/// `c` in lower case if it is an ASCII capital (`char::to_ascii_lowercase`).
pub open spec fn ascii_lower(c: char) -> char {
    if 'A' <= c <= 'Z' { ((c as u32) + 32) as char } else { c }
}

/// `s` with ASCII capitals in lower case (`str::to_ascii_lowercase`).
pub open spec fn ascii_lowercase(s: Seq<char>) -> Seq<char> {
    Seq::new(s.len(), |i: int| ascii_lower(s[i]))
}

/// `s` with ASCII capitals in lower case.
pub fn to_ascii_lowercase(s: &Vec<char>) -> (r: Vec<char>)
    ensures
        r@ == ascii_lowercase(s@),
{
    let mut r: Vec<char> = Vec::new();
    let mut i: usize = 0;
    while i < s.len()
        invariant
            i <= s.len(),
            r@ == ascii_lowercase(s@.take(i as int)),
        decreases s.len() - i,
    {
        let c = s[i];
        let l = if 'A' <= c && c <= 'Z' { ((c as u8) + 32) as char } else { c };
        r.push(l);
        assert(r@ =~= ascii_lowercase(s@.take(i + 1)));
        i = i + 1;
    }
    assert(s@.take(s.len() as int) == s@);
    r
}

/// `s` with `p` stripped from its end as many times as it occurs there
/// (`str::trim_end_matches` with a non-empty pattern).
pub open spec fn trim_end_all(s: Seq<char>, p: Seq<char>) -> Seq<char>
    decreases s.len(),
{
    if p.len() > 0 && has_suffix(s, p) {
        trim_end_all(s.take(s.len() - p.len()), p)
    } else {
        s
    }
}

/// `s` with the non-empty `p` stripped from its end as often as it occurs there.
pub fn trim_end_matches(s: &Vec<char>, p: &str) -> (r: Vec<char>)
    ensures
        r@ == trim_end_all(s@, p@),
{
    let pv = chars_of(p);
    let mut end: usize = s.len();
    assert(s@.take(end as int) == s@);
    while pv.len() > 0 && pv.len() <= end && matches_at(s, end - pv.len(), &pv)
        invariant
            end <= s.len(),
            pv@ == p@,
            trim_end_all(s@, p@) == trim_end_all(s@.take(end as int), p@),
        decreases end,
    {
        proof {
            let t = s@.take(end as int);
            assert(s@.skip(end - pv.len()).take(pv.len() as int) == t.skip(t.len() - pv.len()));
            assert(t.take(t.len() - pv.len()) == s@.take(end - pv.len()));
        }
        end = end - pv.len();
    }
    proof {
        let t = s@.take(end as int);
        if pv.len() > 0 && pv.len() <= end {
            assert(s@.skip(end - pv.len()).take(pv.len() as int) == t.skip(t.len() - pv.len()));
        }
    }
    slice_chars(s, 0, end)
}

} // verus!

verus! {

/// What follows `p` in `s`, where `s` starts with `p` (`str::strip_prefix`).
pub open spec fn after_prefix(s: Seq<char>, p: Seq<char>) -> Option<Seq<char>> {
    if has_prefix(s, p) {
        Some(s.skip(p.len() as int))
    } else {
        None
    }
}

/// What follows `p` in `s`, where `s` starts with `p`.
pub fn strip_prefix_chars(s: &Vec<char>, p: &str) -> (r: Option<Vec<char>>)
    ensures
        match after_prefix(s@, p@) {
            Some(t) => r is Some && r->0@ == t,
            None => r is None,
        },
{
    if starts_with(s, p) {
        let pv = chars_of(p);
        Some(suffix_from(s, pv.len()))
    } else {
        None
    }
}

/// Whether `p` occurs somewhere in `s` (`str::contains`).
pub open spec fn occurs_in(s: Seq<char>, p: Seq<char>) -> bool {
    exists|i: int| 0 <= i <= s.len() && #[trigger] has_prefix(s.skip(i), p)
}

/// Whether `p` occurs somewhere in `s`.
pub fn contains_str(s: &Vec<char>, p: &str) -> (r: bool)
    ensures
        r == occurs_in(s@, p@),
{
    let pv = chars_of(p);
    let mut i: usize = 0;
    while i < s.len()
        invariant
            pv@ == p@,
            i <= s.len(),
            forall|j: int| 0 <= j < i ==> !#[trigger] has_prefix(s@.skip(j), p@),
        decreases s.len() - i,
    {
        if matches_at(s, i, &pv) {
            return true;
        }
        i = i + 1;
    }
    if matches_at(s, i, &pv) {
        return true;
    }
    assert forall|j: int| 0 <= j <= s@.len() implies !#[trigger] has_prefix(s@.skip(j), p@) by {}
    false
}

/// The leading run of non-whitespace characters of `t`.
pub open spec fn take_word(t: Seq<char>) -> Seq<char>
    decreases t.len(),
{
    if t.len() == 0 || is_ws(t[0]) {
        Seq::empty()
    } else {
        seq![t[0]] + take_word(t.drop_first())
    }
}

/// The first whitespace-separated word of `s`, or nothing
/// (`s.split_whitespace().next().unwrap_or("")`).
pub open spec fn first_word(s: Seq<char>) -> Seq<char> {
    take_word(trim_start(s))
}

proof fn lemma_take_word(t: Seq<char>, k: int)
    requires
        0 <= k <= t.len(),
        forall|j: int| 0 <= j < k ==> !is_ws(#[trigger] t[j]),
        k == t.len() || is_ws(t[k]),
    ensures
        take_word(t) == t.take(k),
    decreases t.len(),
{
    if k > 0 {
        assert forall|j: int| 0 <= j < k - 1 implies !is_ws(#[trigger] t.drop_first()[j]) by {
            assert(t.drop_first()[j] == t[j + 1]);
        }
        lemma_take_word(t.drop_first(), k - 1);
        assert(seq![t[0]] + t.drop_first().take(k - 1) =~= t.take(k));
    }
}

/// The first whitespace-separated word of `s`.
pub fn first_word_chars(s: &Vec<char>) -> (r: Vec<char>)
    ensures
        r@ == first_word(s@),
{
    let mut i: usize = 0;
    assert(s@.skip(0) == s@);
    while i < s.len() && is_whitespace(s[i])
        invariant
            i <= s.len(),
            trim_start(s@) == trim_start(s@.skip(i as int)),
        decreases s.len() - i,
    {
        assert(s@.skip(i as int).drop_first() == s@.skip(i + 1));
        i = i + 1;
    }
    let ghost t = s@.skip(i as int);
    assert(trim_start(s@) == t);
    let mut j: usize = i;
    while j < s.len() && !is_whitespace(s[j])
        invariant
            i <= j <= s.len(),
            t == s@.skip(i as int),
            forall|m: int| 0 <= m < j - i ==> !is_ws(#[trigger] t[m]),
        decreases s.len() - j,
    {
        j = j + 1;
    }
    proof {
        lemma_take_word(t, j - i);
        assert(t.take(j - i) == s@.subrange(i as int, j as int));
    }
    slice_chars(s, i, j)
}

/// `l` without one trailing carriage return.
pub open spec fn strip_cr(l: Seq<char>) -> Seq<char> {
    if l.len() > 0 && l.last() == '\r' {
        l.drop_last()
    } else {
        l
    }
}

/// The lines of `s` as `str::lines` gives them: split at each `\n`, a
/// `\r` before the `\n` dropped, no empty last line after a final `\n`.
pub open spec fn lines_of(s: Seq<char>) -> Seq<Seq<char>> {
    let p = split_on(s, '\n');
    let body = p.drop_last().map_values(|l: Seq<char>| strip_cr(l));
    if p.last().len() == 0 {
        body
    } else {
        body.push(p.last())
    }
}

/// The lines of `s`.
pub fn lines(s: &Vec<char>) -> (r: Vec<Vec<char>>)
    ensures
        views(r@) == lines_of(s@),
{
    let pieces = split_chars(s, '\n');
    let ghost p = split_on(s@, '\n');
    let n = pieces.len();
    let mut r: Vec<Vec<char>> = Vec::new();
    let mut i: usize = 0;
    while i + 1 < n
        invariant
            n == pieces.len(),
            n >= 1,
            views(pieces@) == p,
            i + 1 <= n,
            views(r@) == p.drop_last().take(i as int).map_values(|l: Seq<char>| strip_cr(l)),
        decreases n - i,
    {
        let piece = &pieces[i];
        assert(piece@ == p[i as int]);
        let cut = if piece.len() > 0 && piece[piece.len() - 1] == '\r' {
            slice_chars(piece, 0, piece.len() - 1)
        } else {
            slice_chars(piece, 0, piece.len())
        };
        assert(cut@ == strip_cr(p[i as int]));
        let ghost before = views(r@);
        r.push(cut);
        assert(views(r@) =~= before.push(cut@));
        assert(p.drop_last().take(i + 1) =~= p.drop_last().take(i as int).push(p[i as int]));
        i = i + 1;
    }
    assert(p.drop_last().take(i as int) =~= p.drop_last());
    let last = &pieces[n - 1];
    assert(last@ == p.last());
    if last.len() > 0 {
        let ghost before = views(r@);
        let whole = slice_chars(last, 0, last.len());
        assert(whole@ =~= last@);
        r.push(whole);
        assert(views(r@) =~= before.push(p.last()));
    }
    r
}

} // verus!

verus! {

/// The number of bytes `c` takes in UTF-8.
pub open spec fn utf8_len(c: char) -> nat {
    if (c as u32) < 0x80 {
        1
    } else if (c as u32) < 0x800 {
        2
    } else if (c as u32) < 0x10000 {
        3
    } else {
        4
    }
}

/// The number of bytes `s` takes in UTF-8 (`str::len`).
pub open spec fn utf8_width(s: Seq<char>) -> nat
    decreases s.len(),
{
    if s.len() == 0 {
        0
    } else {
        utf8_width(s.drop_last()) + utf8_len(s.last())
    }
}

/// The byte width of a character.
pub fn char_width(c: char) -> (r: usize)
    ensures
        r == utf8_len(c),
{
    let v = c as u32;
    if v < 0x80 {
        1
    } else if v < 0x800 {
        2
    } else if v < 0x10000 {
        3
    } else {
        4
    }
}

/// Byte offsets grow strictly with character positions.
pub proof fn lemma_width_grows(s: Seq<char>, i: int, j: int)
    requires
        0 <= i < j <= s.len(),
    ensures
        utf8_width(s.take(i)) < utf8_width(s.take(j)),
    decreases j - i,
{
    assert(s.take(j).drop_last() == s.take(j - 1));
    if i < j - 1 {
        lemma_width_grows(s, i, j - 1);
    }
}

/// Two character positions at the same byte offset are the same position.
pub proof fn lemma_cut_unique(s: Seq<char>, x: int, y: int)
    requires
        0 <= x <= s.len(),
        0 <= y <= s.len(),
        utf8_width(s.take(x)) == utf8_width(s.take(y)),
    ensures
        x == y,
{
    if x < y {
        lemma_width_grows(s, x, y);
    } else if y < x {
        lemma_width_grows(s, y, x);
    }
}

/// The position at byte offset `k` is the one whose prefix is `k` bytes long.
pub proof fn lemma_cut_is(s: Seq<char>, k: nat, x: int)
    requires
        0 <= x <= s.len(),
        utf8_width(s.take(x)) == k,
    ensures
        byte_cut(s, k) == Some(x),
{
    assert(utf8_width(s.take(x)) == k);
    let c = choose|i: int| 0 <= i <= s.len() && utf8_width(#[trigger] s.take(i)) == k;
    lemma_cut_unique(s, c, x);
}

/// The character position at byte offset `k` of `s`, where `k` falls on a
/// character boundary.
pub open spec fn byte_cut(s: Seq<char>, k: nat) -> Option<int> {
    if exists|i: int| 0 <= i <= s.len() && utf8_width(#[trigger] s.take(i)) == k {
        Some(choose|i: int| 0 <= i <= s.len() && utf8_width(#[trigger] s.take(i)) == k)
    } else {
        None
    }
}

} // verus!

verus! {

proof fn lemma_digit_char_value(d: nat)
    requires
        d < 10,
    ensures
        '0' <= digit_char(d) <= '9',
        (digit_char(d) as u32) - ('0' as u32) == d,
{
}

/// The decimal text of a number is a nonempty run of digits whose value is
/// the number, so reading it back gives the number.
pub proof fn lemma_decimal_reads_back(n: nat)
    ensures
        decimal(n).len() > 0,
        all_digits(decimal(n)),
        digits_value(decimal(n)) == n,
        parsed_int(decimal(n), false) == Some(n as int),
        parsed_int(decimal(n), true) == Some(n as int),
    decreases n,
{
    if n < 10 {
        lemma_digit_char_value(n);
        assert(decimal(n).drop_last() =~= Seq::<char>::empty());
        assert(decimal(n).last() == digit_char(n));
        assert(digits_value(decimal(n)) == digits_value(Seq::<char>::empty()) * 10 + ((digit_char(n) as u32) - ('0' as u32)) as nat);
    } else {
        lemma_decimal_reads_back(n / 10);
        lemma_digit_char_value(n % 10);
        let d = decimal(n);
        assert(d.drop_last() == decimal(n / 10));
        assert(d.last() == digit_char(n % 10));
        assert(digits_value(d) == digits_value(decimal(n / 10)) * 10 + ((digit_char(n % 10) as u32) - ('0' as u32)) as nat);
        assert((n / 10) * 10 + n % 10 == n) by (nonlinear_arith);
        assert forall|k: int| 0 <= k < d.len() implies '0' <= #[trigger] d[k] <= '9' by {
            if k < d.len() - 1 {
                assert(d[k] == decimal(n / 10)[k]);
            }
        }
    }
    let d = decimal(n);
    assert(d[0] != '-' && d[0] != '+');
}

/// A decimal text holds no character other than digits.
pub proof fn lemma_decimal_has_no(n: nat, c: char)
    requires
        !('0' <= c <= '9'),
    ensures
        !decimal(n).contains(c),
{
    lemma_decimal_reads_back(n);
}

} // verus!
