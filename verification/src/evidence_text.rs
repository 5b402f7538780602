//! Text of evidence posts: the UUID in a thread title, media file names and
//! their labels, and the player name in an evidence header.

use vstd::prelude::*;
use crate::text::{
    ascii_lowercase, chars_of, first_index, is_ascii_hex, last_index, push_chars, push_str, remove_all, remove_char,
    rfind_char, seq_eq, slice_chars, split_by, split_chars, split_on, split_str, string_of, suffix_from,
    to_ascii_lowercase, trim_chars, trim_end_all, trim_end_matches, trimmed,
};

verus! {

/// Whether `s` is exactly 32 ASCII hexadecimal digits.
pub open spec fn is_uuid_hex(s: Seq<char>) -> bool {
    s.len() == 32 && forall|i: int| 0 <= i < s.len() ==> is_ascii_hex(#[trigger] s[i])
}

fn all_hex(s: &Vec<char>) -> (r: bool)
    ensures
        r == is_uuid_hex(s@),
{
    if s.len() != 32 {
        return false;
    }
    let mut i: usize = 0;
    while i < s.len()
        invariant
            i <= s.len(),
            forall|j: int| 0 <= j < i ==> is_ascii_hex(#[trigger] s@[j]),
        decreases s.len() - i,
    {
        let c = s[i];
        if !(('0' <= c && c <= '9') || ('a' <= c && c <= 'f') || ('A' <= c && c <= 'F')) {
            assert(!is_ascii_hex(s@[i as int]));
            return false;
        }
        i = i + 1;
    }
    true
}

/// Whether `s`, once its hyphens are removed, is 32 hexadecimal digits.
pub fn looks_like_uuid(s: &str) -> (r: bool)
    ensures
        r == is_uuid_hex(remove_char(s@, '-')),
{
    let v = chars_of(s);
    let w = remove_all(&v, '-');
    all_hex(&w)
}

/// The UUID an evidence thread title ends with, after its last `|`, as 32
/// hexadecimal digits without hyphens.
pub open spec fn title_uuid(title: Seq<char>) -> Option<Seq<char>> {
    let u = remove_char(trimmed(split_on(title, '|').last()), '-');
    if is_uuid_hex(u) { Some(u) } else { None }
}

/// The UUID an evidence thread title ends with.
pub fn extract_uuid_from_title(title: &str) -> (r: Option<String>)
    ensures
        match title_uuid(title@) {
            Some(u) => r is Some && r->Some_0@ == u,
            None => r is None,
        },
{
    let v = chars_of(title);
    let parts = split_chars(&v, '|');
    let last = trim_chars(&parts[parts.len() - 1]);
    let u = remove_all(&last, '-');
    if all_hex(&u) {
        Some(string_of(&u))
    } else {
        None
    }
}

/// A file name split into its name and its `_<n>` index, after dropping the
/// extension: `clip_2.mp4` gives (`clip`, `2`).
pub open spec fn name_index(filename: Seq<char>) -> (Seq<char>, Option<Seq<char>>) {
    let stem = file_stem(filename);
    match last_index(stem, '_') {
        Some(k) => (stem.take(k), Some(stem.skip(k + 1))),
        None => (stem, None),
    }
}

/// A file name without its extension (the part from its last `.`).
pub open spec fn file_stem(filename: Seq<char>) -> Seq<char> {
    match last_index(filename, '.') {
        Some(k) => filename.take(k),
        None => filename,
    }
}

fn stem_of(v: &Vec<char>) -> (r: Vec<char>)
    ensures
        r@ == file_stem(v@),
{
    match rfind_char(v, '.') {
        Some(k) => slice_chars(v, 0, k),
        None => {
            assert(v@.subrange(0, v@.len() as int) == v@);
            slice_chars(v, 0, v.len())
        },
    }
}

/// A file name split into its name and its index.
pub fn evidence_name_index(filename: &str) -> (r: (String, Option<String>))
    ensures
        r.0@ == name_index(filename@).0,
        match name_index(filename@).1 {
            Some(n) => r.1 is Some && r.1->Some_0@ == n,
            None => r.1 is None,
        },
{
    let v = chars_of(filename);
    let stem = stem_of(&v);
    assert(name_index(filename@) == (match last_index(stem@, '_') {
        Some(k) => (stem@.take(k), Some(stem@.skip(k + 1))),
        None => (stem@, None),
    }));
    match rfind_char(&stem, '_') {
        Some(k) => {
            let name = slice_chars(&stem, 0, k);
            let n = suffix_from(&stem, k + 1);
            (string_of(&name), Some(string_of(&n)))
        },
        None => (string_of(&stem), None),
    }
}

/// The label of a piece of media: `name (n)`, or just the name.
pub open spec fn media_label(filename: Seq<char>) -> Seq<char> {
    match name_index(filename) {
        (name, Some(n)) => name + " ("@ + n + ")"@,
        (name, None) => name,
    }
}

/// The label of a piece of media.
pub fn evidence_label(filename: &str) -> (r: String)
    ensures
        r@ == media_label(filename@),
{
    let (name, n) = evidence_name_index(filename);
    match n {
        Some(n) => {
            let mut out = chars_of(name.as_str());
            push_str(&mut out, " (");
            push_str(&mut out, n.as_str());
            push_str(&mut out, ")");
            string_of(&out)
        },
        None => name,
    }
}

/// The label of a piece of media with the name in code style.
pub open spec fn media_label_code(filename: Seq<char>) -> Seq<char> {
    match name_index(filename) {
        (name, Some(n)) => "`"@ + name + "` ("@ + n + ")"@,
        (name, None) => "`"@ + name + "`"@,
    }
}

/// The label of a piece of media with the name in code style.
pub fn evidence_label_code(filename: &str) -> (r: String)
    ensures
        r@ == media_label_code(filename@),
{
    let (name, n) = evidence_name_index(filename);
    let mut out: Vec<char> = Vec::new();
    push_str(&mut out, "`");
    push_str(&mut out, name.as_str());
    match n {
        Some(n) => {
            push_str(&mut out, "` (");
            push_str(&mut out, n.as_str());
            push_str(&mut out, ")");
        },
        None => {
            push_str(&mut out, "`");
        },
    }
    string_of(&out)
}

/// The extension of the file a URL points at: the part after the last `.`
/// of the last path segment, query removed.
pub open spec fn url_ext(url: Seq<char>) -> Seq<char> {
    split_on(split_on(split_on(url, '/').last(), '?')[0], '.').last()
}

/// The extension of the file a URL points at.
pub fn url_extension(url: &str) -> (r: String)
    ensures
        r@ == url_ext(url@),
{
    let v = chars_of(url);
    let segs = split_chars(&v, '/');
    let q = split_chars(&segs[segs.len() - 1], '?');
    let dots = split_chars(&q[0], '.');
    string_of(&dots[dots.len() - 1])
}

/// Whether an extension (already in lower case) is one of the accepted media types.
pub open spec fn is_media_extension(e: Seq<char>) -> bool {
    e == "png"@ || e == "jpg"@ || e == "jpeg"@ || e == "gif"@ || e == "webp"@ || e == "mp4"@
        || e == "webm"@ || e == "mov"@
}

/// Whether a file is an image or video that evidence may hold, by its
/// extension in any case.
pub fn is_media(filename: &str) -> (r: bool)
    ensures
        r == is_media_extension(ascii_lowercase(split_on(filename@, '.').last())),
{
    let v = chars_of(filename);
    let parts = split_chars(&v, '.');
    let e = to_ascii_lowercase(&parts[parts.len() - 1]);
    let s = string_of(&e);
    crate::text::str_eq(s.as_str(), "png") || crate::text::str_eq(s.as_str(), "jpg")
        || crate::text::str_eq(s.as_str(), "jpeg") || crate::text::str_eq(s.as_str(), "gif")
        || crate::text::str_eq(s.as_str(), "webp") || crate::text::str_eq(s.as_str(), "mp4")
        || crate::text::str_eq(s.as_str(), "webm") || crate::text::str_eq(s.as_str(), "mov")
}

/// The player name in an evidence header `… — \`name\``, without an
/// ` (Archived)` mark or closing backticks.
pub open spec fn evidence_header_name(header: Seq<char>) -> Option<Seq<char>> {
    let p = split_str(header, " \u{2014} `"@);
    if p.len() < 2 {
        None
    } else {
        Some(trim_end_all(trim_end_all(p[1], " (Archived)"@), "`"@))
    }
}

/// The player name in an evidence header.
pub fn extract_evidence_name(header: &str) -> (r: Option<String>)
    ensures
        match evidence_header_name(header@) {
            Some(n) => r is Some && r->Some_0@ == n,
            None => r is None,
        },
{
    let v = chars_of(header);
    let p = split_by(&v, " \u{2014} `");
    if p.len() < 2 {
        return None;
    }
    let a = trim_end_matches(&p[1], " (Archived)");
    let b = trim_end_matches(&a, "`");
    Some(string_of(&b))
}

/// The test "may stand in a component label".
pub open spec fn label_char(c: char) -> bool {
    c != '`' && c != '\n' && c != '\r'
}

/// A name made safe for a component label: no backticks or line breaks,
/// at most 32 characters.
pub fn sanitize_label(s: &str) -> (r: String)
    ensures
        r@ == ({
            let f = s@.filter(|c: char| label_char(c));
            if f.len() <= 32 { f } else { f.take(32) }
        }),
{
    let v = chars_of(s);
    let ghost pred = |c: char| label_char(c);
    let mut r: Vec<char> = Vec::new();
    let mut i: usize = 0;
    while i < v.len()
        invariant
            i <= v.len(),
            v@ == s@,
            pred == (|c: char| label_char(c)),
            r@ == v@.take(i as int).filter(pred),
        decreases v.len() - i,
    {
        let c = v[i];
        if c != '`' && c != '\n' && c != '\r' {
            r.push(c);
        }
        proof {
            assert(v@.take(i + 1) == v@.take(i as int).push(c));
            v@.take(i as int).lemma_filter_push(c, pred);
        }
        i = i + 1;
    }
    assert(v@.take(v.len() as int) == v@);
    if r.len() <= 32 {
        string_of(&r)
    } else {
        let t = slice_chars(&r, 0, 32);
        assert(r@.subrange(0, 32) == r@.take(32));
        string_of(&t)
    }
}


/// The media a post accepts are exactly images and videos of the formats
/// png, jpg, jpeg, gif, webp, mp4, webm and mov; a file's extension is read
/// in lower case, so upper-case extensions count too.
pub proof fn accepted_media_extensions()
    ensures
        is_media_extension("png"@),
        is_media_extension("jpg"@),
        is_media_extension("jpeg"@),
        is_media_extension("gif"@),
        is_media_extension("webp"@),
        is_media_extension("mp4"@),
        is_media_extension("webm"@),
        is_media_extension("mov"@),
        !is_media_extension("txt"@),
        !is_media_extension("svg"@),
        !is_media_extension(Seq::<char>::empty()),
{
    reveal_strlit("png");
    reveal_strlit("jpg");
    reveal_strlit("jpeg");
    reveal_strlit("gif");
    reveal_strlit("webp");
    reveal_strlit("mp4");
    reveal_strlit("webm");
    reveal_strlit("mov");
    reveal_strlit("txt");
    reveal_strlit("svg");
    assert(Seq::<char>::empty().len() != "png"@.len());
    assert("txt"@[0] != "png"@[0]);
    assert("txt"@[0] != "jpg"@[0]);
    assert("txt"@[0] != "jpeg"@[0]);
    assert("txt"@[0] != "gif"@[0]);
    assert("txt"@[0] != "webp"@[0]);
    assert("txt"@[0] != "mp4"@[0]);
    assert("txt"@[0] != "webm"@[0]);
    assert("txt"@[0] != "mov"@[0]);
    assert("svg"@[0] != "png"@[0]);
    assert("svg"@[0] != "jpg"@[0]);
    assert("svg"@[0] != "jpeg"@[0]);
    assert("svg"@[0] != "gif"@[0]);
    assert("svg"@[0] != "webp"@[0]);
    assert("svg"@[0] != "mp4"@[0]);
    assert("svg"@[0] != "webm"@[0]);
    assert("svg"@[0] != "mov"@[0]);
}


/// Extensions are matched whatever their case: a file named in capitals,
/// once its extension is lowered, is accepted like the same name in lower case.
pub proof fn media_extensions_in_capitals()
    ensures
        is_media_extension(crate::text::ascii_lowercase("PNG"@)),
        is_media_extension(crate::text::ascii_lowercase("JPG"@)),
        is_media_extension(crate::text::ascii_lowercase("JPEG"@)),
        is_media_extension(crate::text::ascii_lowercase("GIF"@)),
        is_media_extension(crate::text::ascii_lowercase("WEBP"@)),
        is_media_extension(crate::text::ascii_lowercase("MP4"@)),
        is_media_extension(crate::text::ascii_lowercase("WEBM"@)),
        is_media_extension(crate::text::ascii_lowercase("MOV"@)),
{
    reveal_strlit("PNG");
    reveal_strlit("png");
    assert(crate::text::ascii_lowercase("PNG"@) =~= "png"@);
    reveal_strlit("JPG");
    reveal_strlit("jpg");
    assert(crate::text::ascii_lowercase("JPG"@) =~= "jpg"@);
    reveal_strlit("JPEG");
    reveal_strlit("jpeg");
    assert(crate::text::ascii_lowercase("JPEG"@) =~= "jpeg"@);
    reveal_strlit("GIF");
    reveal_strlit("gif");
    assert(crate::text::ascii_lowercase("GIF"@) =~= "gif"@);
    reveal_strlit("WEBP");
    reveal_strlit("webp");
    assert(crate::text::ascii_lowercase("WEBP"@) =~= "webp"@);
    reveal_strlit("MP4");
    reveal_strlit("mp4");
    assert(crate::text::ascii_lowercase("MP4"@) =~= "mp4"@);
    reveal_strlit("WEBM");
    reveal_strlit("webm");
    assert(crate::text::ascii_lowercase("WEBM"@) =~= "webm"@);
    reveal_strlit("MOV");
    reveal_strlit("mov");
    assert(crate::text::ascii_lowercase("MOV"@) =~= "mov"@);
}
} // verus!
