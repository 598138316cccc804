//! The standard-library calls that vstd leaves unspecified and that the
//! library needs: contracts for those it calls, and verified code for the
//! few whose whole behaviour is a short statement.
use vstd::prelude::*;

verus! {

/// ASCII lowercase: `A` to `Z` become `a` to `z`, anything else stays.
pub open spec fn ascii_lower(c: char) -> char {
    if 'A' <= c && c <= 'Z' {
        (((c as u32) + 32) as u8) as char
    } else {
        c
    }
}

/// What `char::to_lowercase` yields first: the first character of the
/// lowercase mapping of `c`.
pub uninterp spec fn lowercase_first(c: char) -> char;

/// Whether `c` has the Unicode `White_Space` property (`char::is_whitespace`):
/// the code points U+0009 to U+000D, U+0020, U+0085, U+00A0, U+1680, U+2000
/// to U+200A, U+2028, U+2029, U+202F, U+205F and U+3000.
pub open spec fn is_unicode_whitespace(c: char) -> bool {
    let u = c as u32;
    ||| 0x9 <= u <= 0xd
    ||| u == 0x20
    ||| u == 0x85
    ||| u == 0xa0
    ||| u == 0x1680
    ||| 0x2000 <= u <= 0x200a
    ||| u == 0x2028
    ||| u == 0x2029
    ||| u == 0x202f
    ||| u == 0x205f
    ||| u == 0x3000
}

/// Appends one character (`String::push`). The string afterwards holds the
/// old characters followed by `ch`.
#[verifier::external_body]
pub fn string_push(s: &mut String, ch: char)
    ensures
        final(s)@ == old(s)@.push(ch),
{
    s.push(ch);
}

/// First character of the lowercase mapping (`char::to_lowercase`, then the
/// iterator's `next`). The mapping always yields at least one character, so
/// the result is `Some`; which character it is, is named `lowercase_first`.
/// On ASCII it is ASCII lowercase.
#[verifier::external_body]
pub fn char_lowercase_first(c: char) -> (r: Option<char>)
    ensures
        r == Some(lowercase_first(c)),
        (c as u32) < 128 ==> r == Some(ascii_lower(c)),
{
    c.to_lowercase().next()
}

/// Whether `c` has the Unicode `White_Space` property (as
/// `char::is_whitespace` answers), the set `is_unicode_whitespace` lists.
pub fn char_is_whitespace(c: char) -> (r: bool)
    ensures
        r == is_unicode_whitespace(c),
{
    let u = c as u32;
    (0x9 <= u && u <= 0xd) || u == 0x20 || u == 0x85 || u == 0xa0 || u == 0x1680 || (0x2000 <= u && u
        <= 0x200a) || u == 0x2028 || u == 0x2029 || u == 0x202f || u == 0x205f || u == 0x3000
}

/// Removes the last character (`String::pop`): `None` and no change for an
/// empty string, otherwise the last character, which the string loses.
#[verifier::external_body]
pub fn string_pop(s: &mut String) -> (r: Option<char>)
    ensures
        old(s)@.len() == 0 ==> r is None && final(s)@ == old(s)@,
        old(s)@.len() > 0 ==> r == Some(old(s)@.last()) && final(s)@ == old(s)@.drop_last(),
{
    s.pop()
}

/// The lowercase mapping of a whole string (`str::to_lowercase`).
pub uninterp spec fn lowercase_str(s: Seq<char>) -> Seq<char>;

/// The parent of the path `s` (`Path::parent`), when it has one.
pub uninterp spec fn path_parent_of(s: Seq<char>) -> Option<Seq<char>>;

/// The last component of the path `s` (`Path::file_name`), when it is a
/// normal component.
pub uninterp spec fn path_file_name_of(s: Seq<char>) -> Option<Seq<char>>;

/// The path `rel` joined onto `base` (`Path::join` on Unix): an absolute
/// `rel` replaces `base`; otherwise `rel` follows `base`, after a `/` unless
/// `base` is empty or already ends in one.
pub open spec fn path_join_of(base: Seq<char>, rel: Seq<char>) -> Seq<char> {
    if rel.len() > 0 && rel[0] == '/' {
        rel
    } else if base.len() == 0 || base.last() == '/' {
        base + rel
    } else {
        base + seq!['/'] + rel
    }
}

/// `str::to_lowercase`: the lowercase mapping of the whole string, named
/// `lowercase_str`. An ASCII string maps character by character to ASCII
/// lowercase.
#[verifier::external_body]
pub fn str_to_lowercase(s: &str) -> (r: String)
    ensures
        r@ == lowercase_str(s@),
        (forall|i: int| 0 <= i < s@.len() ==> ((#[trigger] s@[i]) as u32) < 128) ==> r@ == s@.map_values(
            |c: char| ascii_lower(c),
        ),
{
    s.to_lowercase()
}

/// Whether the path `s` is absolute, as `Path::is_absolute` answers on
/// Unix: it starts at the root, that is with `/`.
pub fn path_is_absolute(s: &str) -> (r: bool)
    ensures
        r == (s@.len() > 0 && s@[0] == '/'),
{
    let chars = crate::utf8::str_chars(s);
    chars.len() > 0 && chars[0] == '/'
}

/// `Path::parent`, written out as a string; named `path_parent_of`.
#[verifier::external_body]
pub fn path_parent(s: &str) -> (r: Option<String>)
    ensures
        match r {
            Some(p) => path_parent_of(s@) == Some(p@),
            None => path_parent_of(s@) is None,
        },
{
    match std::path::Path::new(s).parent() {
        Some(p) => Some(p.to_string_lossy().into_owned()),
        None => None,
    }
}

/// `Path::file_name`, written out as a string; named `path_file_name_of`.
#[verifier::external_body]
pub fn path_file_name(s: &str) -> (r: Option<String>)
    ensures
        match r {
            Some(p) => path_file_name_of(s@) == Some(p@),
            None => path_file_name_of(s@) is None,
        },
{
    match std::path::Path::new(s).file_name() {
        Some(p) => Some(p.to_string_lossy().into_owned()),
        None => None,
    }
}

/// The path `rel` joined onto `base`, as `Path::join` does on Unix
/// (`path_join_of`).
pub fn path_join(base: &str, rel: &str) -> (r: String)
    ensures
        r@ == path_join_of(base@, rel@),
{
    if path_is_absolute(rel) {
        return crate::strings::owned(rel);
    }
    let b = crate::utf8::str_chars(base);
    let mut r = crate::strings::owned(base);
    if b.len() > 0 && b[b.len() - 1] != '/' {
        string_push(&mut r, '/');
    }
    crate::strings::push_str(&mut r, rel);
    r
}

/// The path `s` relative to `base` (`Path::strip_prefix`), when `base` is a
/// leading run of its components.
pub uninterp spec fn path_strip_prefix_of(s: Seq<char>, base: Seq<char>) -> Option<Seq<char>>;

/// `Path::strip_prefix`, written out as a string; named
/// `path_strip_prefix_of`. The error case becomes `None`.
#[verifier::external_body]
pub fn path_strip_prefix(s: &str, base: &str) -> (r: Option<String>)
    ensures
        match r {
            Some(p) => path_strip_prefix_of(s@, base@) == Some(p@),
            None => path_strip_prefix_of(s@, base@) is None,
        },
{
    match std::path::Path::new(s).strip_prefix(base) {
        Ok(p) => Some(p.to_string_lossy().into_owned()),
        Err(_) => None,
    }
}

/// The components of the path `s` (`Path::components`), each written out
/// (the root as `/`).
pub uninterp spec fn path_components_of(s: Seq<char>) -> Seq<Seq<char>>;

/// `Path::components`, each component written out; named
/// `path_components_of`.
#[verifier::external_body]
pub fn path_components(s: &str) -> (r: Vec<String>)
    ensures
        r@.map_values(|c: String| c@) == path_components_of(s@),
{
    std::path::Path::new(s).components().map(|c| c.as_os_str().to_string_lossy().into_owned()).collect()
}

} // verus!
