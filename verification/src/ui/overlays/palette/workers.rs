//! The global search: splitting the input into tokens and flags, scoping
//! and excluding project-relative paths, finding the query (with regex) in
//! each file's lines, and formatting the preview of each match. Reading the
//! files and the file-system checks of `--dir` are the application's part:
//! it hands the contents and the answers in.
use vstd::prelude::*;

use crate::std_calls::{
    char_is_whitespace, is_unicode_whitespace, path_is_absolute, path_join, path_join_of, path_strip_prefix,
    path_strip_prefix_of, string_push,
};
use crate::strings::{
    decimal_chars, has_prefix, join, join_seqs, lemma_text_lines_bounds, owned, push_str, starts_with, str_eq,
    str_lines, string_from_chars, string_views, text_lines, trim, trimmed, u64_to_decimal,
};
use crate::utf8::{byte_len, char_len_utf8, lemma_byte_len_take_mono, lemma_byte_len_take_step, str_chars};
use regex::{Regex, RegexBuilder};

verus! {

/// Lines of context shown above and below a search match.
pub const GLOBAL_SEARCH_CONTEXT_LINES: usize = 3;

/// How long the input rests before a global search runs, in milliseconds.
pub const GLOBAL_SEARCH_DEBOUNCE_MS: u64 = 120;

/// Where the tokenizer is: outside quotes, inside single or double quotes,
/// or right after a backslash inside double quotes.
#[derive(Debug, Clone, Copy, PartialEq, Eq)]
pub enum QuoteState {
    Plain,
    Single,
    Double,
    DoubleEscape,
}

/// The tokenizer's state after a prefix of the input: the quote state, the
/// token being built and the tokens finished so far.
pub type TokState = (QuoteState, Seq<char>, Seq<Seq<char>>);

/// One step of the tokenizer. Outside quotes whitespace ends a non-empty
/// token and quotes open quoting; inside single quotes everything but the
/// closing quote is literal; inside double quotes a backslash makes the next
/// character literal.
pub open spec fn tok_step(st: TokState, c: char) -> TokState {
    let (q, cur, toks) = st;
    match q {
        QuoteState::Plain => if is_unicode_whitespace(c) {
            (QuoteState::Plain, Seq::empty(), if cur.len() > 0 { toks.push(cur) } else { toks })
        } else if c == '\'' {
            (QuoteState::Single, cur, toks)
        } else if c == '"' {
            (QuoteState::Double, cur, toks)
        } else {
            (QuoteState::Plain, cur.push(c), toks)
        },
        QuoteState::Single => if c == '\'' {
            (QuoteState::Plain, cur, toks)
        } else {
            (QuoteState::Single, cur.push(c), toks)
        },
        QuoteState::Double => if c == '"' {
            (QuoteState::Plain, cur, toks)
        } else if c == '\\' {
            (QuoteState::DoubleEscape, cur, toks)
        } else {
            (QuoteState::Double, cur.push(c), toks)
        },
        QuoteState::DoubleEscape => (QuoteState::Double, cur.push(c), toks),
    }
}

/// The tokenizer's state after reading `s`.
pub open spec fn tok_run(s: Seq<char>) -> TokState
    decreases s.len(),
{
    if s.len() == 0 {
        (QuoteState::Plain, Seq::empty(), Seq::empty())
    } else {
        tok_step(tok_run(s.drop_last()), s.last())
    }
}

/// The tokens of a search input, or `None` when a quote is left open.
pub open spec fn search_tokens(s: Seq<char>) -> Option<Seq<Seq<char>>> {
    let (q, cur, toks) = tok_run(s);
    if q != QuoteState::Plain {
        None
    } else if cur.len() > 0 {
        Some(toks.push(cur))
    } else {
        Some(toks)
    }
}

/// Splits a global-search input into whitespace-separated tokens, honoring
/// single quotes, double quotes and backslash escapes inside double quotes.
pub fn tokenize_search_input(input: &str) -> (r: Result<Vec<String>, String>)
    ensures
        match search_tokens(input@) {
            Some(t) => r matches Ok(v) && string_views(v@) == t,
            None => r matches Err(e) && e@ == "Unterminated quote in global search input"@,
        },
{
    let chars = str_chars(input);
    let mut tokens: Vec<String> = Vec::new();
    let mut current = String::new();
    let mut state = QuoteState::Plain;
    let mut i: usize = 0;
    while i < chars.len()
        invariant
            i <= chars@.len(),
            chars@ == input@,
            tok_run(input@.take(i as int)) == (state, current@, string_views(tokens@)),
        decreases chars@.len() - i,
    {
        let ch = chars[i];
        proof {
            assert(input@.take(i + 1).drop_last() =~= input@.take(i as int));
            assert(input@.take(i + 1).last() == ch);
        }
        match state {
            QuoteState::Plain => {
                if char_is_whitespace(ch) {
                    if !current.as_str().is_empty() {
                        let ghost before = string_views(tokens@);
                        let done = current;
                        current = String::new();
                        tokens.push(done);
                        proof {
                            assert(string_views(tokens@) =~= before.push(done@));
                        }
                    }
                    proof {
                        assert(current@ =~= Seq::<char>::empty());
                    }
                } else if ch == '\'' {
                    state = QuoteState::Single;
                } else if ch == '"' {
                    state = QuoteState::Double;
                } else {
                    string_push(&mut current, ch);
                }
            },
            QuoteState::Single => {
                if ch == '\'' {
                    state = QuoteState::Plain;
                } else {
                    string_push(&mut current, ch);
                }
            },
            QuoteState::Double => {
                if ch == '"' {
                    state = QuoteState::Plain;
                } else if ch == '\\' {
                    state = QuoteState::DoubleEscape;
                } else {
                    string_push(&mut current, ch);
                }
            },
            QuoteState::DoubleEscape => {
                string_push(&mut current, ch);
                state = QuoteState::Double;
            },
        }
        i = i + 1;
    }
    proof {
        assert(input@.take(i as int) =~= input@);
    }
    match state {
        QuoteState::Plain => {},
        _ => {
            return Err(owned("Unterminated quote in global search input"));
        },
    }
    if !current.as_str().is_empty() {
        let ghost before = string_views(tokens@);
        let done = current;
        tokens.push(done);
        proof {
            assert(string_views(tokens@) =~= before.push(done@));
        }
    }
    Ok(tokens)
}

/// Backslashes turned into slashes.
pub open spec fn backslash_to_slash(s: Seq<char>) -> Seq<char> {
    s.map_values(|c: char| if c == '\\' { '/' } else { c })
}

/// `s` without every leading `./`.
pub open spec fn strip_dot_slashes(s: Seq<char>) -> Seq<char>
    decreases s.len(),
{
    if s.len() >= 2 && s[0] == '.' && s[1] == '/' {
        strip_dot_slashes(s.skip(2))
    } else {
        s
    }
}

/// `s` without every leading `/`.
pub open spec fn strip_slashes(s: Seq<char>) -> Seq<char>
    decreases s.len(),
{
    if s.len() >= 1 && s[0] == '/' {
        strip_slashes(s.skip(1))
    } else {
        s
    }
}

/// A project-relative path with forward slashes and no leading `./` or `/`.
pub open spec fn normalized_rel_path(s: Seq<char>) -> Seq<char> {
    strip_slashes(strip_dot_slashes(backslash_to_slash(s)))
}

/// Writes a project-relative path with forward slashes and without its
/// leading `./` and `/` parts.
pub fn normalize_rel_path(path: &str) -> (r: String)
    ensures
        r@ == normalized_rel_path(path@),
{
    let chars = str_chars(path);
    let mut slashed: Vec<char> = Vec::new();
    let mut i: usize = 0;
    while i < chars.len()
        invariant
            i <= chars@.len(),
            chars@ == path@,
            slashed@ == backslash_to_slash(path@.take(i as int)),
        decreases chars@.len() - i,
    {
        slashed.push(if chars[i] == '\\' { '/' } else { chars[i] });
        i = i + 1;
        proof {
            assert(slashed@ =~= backslash_to_slash(path@.take(i as int)));
        }
    }
    proof {
        assert(path@.take(i as int) =~= path@);
    }
    let ghost s = slashed@;
    let mut start: usize = 0;
    proof {
        assert(s.skip(0) =~= s);
    }
    while slashed.len() - start >= 2 && slashed[start] == '.' && slashed[start + 1] == '/'
        invariant
            start <= slashed@.len(),
            s == slashed@,
            strip_dot_slashes(s.skip(start as int)) == strip_dot_slashes(s),
        decreases slashed@.len() - start,
    {
        proof {
            assert(s.skip(start as int).skip(2) =~= s.skip(start + 2));
        }
        start = start + 2;
    }
    let ghost after_dots = s.skip(start as int);
    proof {
        assert(strip_dot_slashes(after_dots) == after_dots);
    }
    while start < slashed.len() && slashed[start] == '/'
        invariant
            start <= slashed@.len(),
            s == slashed@,
            strip_dot_slashes(s) == after_dots,
            after_dots.len() <= s.len(),
            start >= s.len() - after_dots.len(),
            strip_slashes(s.skip(start as int)) == strip_slashes(after_dots),
        decreases slashed@.len() - start,
    {
        proof {
            assert(s.skip(start as int).skip(1) =~= s.skip(start + 1));
        }
        start = start + 1;
    }
    proof {
        assert(strip_slashes(s.skip(start as int)) == s.skip(start as int));
    }
    let mut kept: Vec<char> = Vec::new();
    let mut k = start;
    while k < slashed.len()
        invariant
            start <= k <= slashed@.len(),
            s == slashed@,
            kept@ == s.subrange(start as int, k as int),
        decreases slashed@.len() - k,
    {
        kept.push(slashed[k]);
        k = k + 1;
        proof {
            assert(kept@ =~= s.subrange(start as int, k as int));
        }
    }
    proof {
        assert(kept@ =~= s.skip(start as int));
    }
    string_from_chars(&kept)
}

/// Whether `rel_path` lies in the directory `include_dir` (every path does
/// when there is none or it is empty).
pub fn is_included_dir(rel_path: &str, include_dir: Option<&str>) -> (r: bool)
    ensures
        r == match include_dir {
            None => true,
            Some(dir) => dir@.len() == 0 || rel_path@ == dir@ || has_prefix(rel_path@, dir@.push('/')),
        },
{
    let dir = match include_dir {
        None => return true,
        Some(d) => d,
    };
    if dir.is_empty() {
        return true;
    }
    let mut with_slash = owned(dir);
    string_push(&mut with_slash, '/');
    str_eq(rel_path, dir) || starts_with(rel_path, with_slash.as_str())
}

/// `n` spaces.
pub open spec fn spaces(n: int) -> Seq<char> {
    Seq::new(if n > 0 { n as nat } else { 0 }, |i: int| ' ')
}

/// A preview line: the 1-based line number right-aligned in five columns,
/// a bar, then the line.
pub open spec fn search_preview_line(line_no: int, line: Seq<char>) -> Seq<char> {
    let digits = decimal_chars((line_no + 1) as nat);
    spaces(5 - digits.len()) + digits + " | "@ + line
}

/// Formats one line of a search preview.
pub fn format_search_preview_line(line_no: usize, line: &str) -> (r: String)
    requires
        line_no < usize::MAX,
    ensures
        r@ == search_preview_line(line_no as int, line@),
{
    let digits = u64_to_decimal((line_no + 1) as u64);
    let mut out = String::new();
    let mut pad: usize = 0;
    let width = digits.as_str().unicode_len();
    proof {
        assert(digits@.len() >= 1);
    }
    while pad < 5 && width < 5 - pad
        invariant
            width == digits@.len(),
            width >= 1,
            pad <= 5,
            width < 5 ==> pad <= 5 - width,
            width >= 5 ==> pad == 0,
            out@ == spaces(pad as int),
        decreases 5 - pad,
    {
        string_push(&mut out, ' ');
        pad = pad + 1;
        proof {
            assert(out@ =~= spaces(pad as int));
        }
    }
    proof {
        assert(out@ =~= spaces(5 - digits@.len()));
    }
    push_str(&mut out, digits.as_str());
    push_str(&mut out, " | ");
    push_str(&mut out, line);
    out
}

/// The preview around a match on line `match_line`: up to three lines of
/// context on each side, each formatted with its number.
pub open spec fn search_preview(lines: Seq<Seq<char>>, match_line: int) -> Seq<Seq<char>> {
    let start = if match_line > 3 { match_line - 3 } else { 0 };
    let end = if match_line + 4 < lines.len() { match_line + 4 } else { lines.len() as int };
    Seq::new(if end > start { (end - start) as nat } else { 0 }, |k: int| search_preview_line(start + k, lines[start + k]))
}

/// Views of string slices.
pub open spec fn str_views(v: Seq<&str>) -> Seq<Seq<char>> {
    v.map_values(|t: &str| t@)
}

/// Builds the preview around a match on line `match_line`.
pub fn build_search_preview(lines: &[&str], match_line: usize) -> (r: Vec<String>)
    requires
        match_line + GLOBAL_SEARCH_CONTEXT_LINES + 1 <= usize::MAX,
    ensures
        string_views(r@) == search_preview(str_views(lines@), match_line as int),
{
    let start = match_line.saturating_sub(GLOBAL_SEARCH_CONTEXT_LINES);
    let last = match_line + GLOBAL_SEARCH_CONTEXT_LINES + 1;
    let end = if last < lines.len() { last } else { lines.len() };
    let mut preview: Vec<String> = Vec::new();
    let mut idx = start;
    let ghost want = search_preview(str_views(lines@), match_line as int);
    while idx < end
        invariant
            start <= idx,
            end <= lines@.len(),
            idx <= end || end < start,
            end < start ==> idx == start,
            preview@.len() == idx - start,
            want == search_preview(str_views(lines@), match_line as int),
            forall|k: int| 0 <= k < preview@.len() ==> #[trigger] preview@[k]@ == want[k],
            start == if match_line > 3 { match_line - 3 } else { 0 },
            end == if match_line + 4 < lines@.len() { match_line + 4 } else { lines@.len() as int },
        decreases end - idx,
    {
        let ghost before = preview@;
        let line = format_search_preview_line(idx, lines[idx]);
        preview.push(line);
        proof {
            assert(want[idx - start] == search_preview_line(idx as int, lines@[idx as int]@));
            assert forall|k: int| 0 <= k < preview@.len() implies #[trigger] preview@[k]@ == want[k] by {
                if k < before.len() {
                    assert(preview@[k] == before[k]);
                }
            }
        }
        idx = idx + 1;
    }
    proof {
        if end >= start {
            assert(idx == end);
            assert(want.len() == end - start);
        } else {
            assert(idx == start);
            assert(want.len() == 0);
        }
        assert(preview@.len() == want.len());
        assert forall|k: int| 0 <= k < want.len() implies string_views(preview@)[k] == want[k] by {
            assert(preview@[k]@ == want[k]);
        }
        assert(string_views(preview@) =~= want);
    }
    preview
}

/// Most matches one global search reports.
pub const GLOBAL_SEARCH_MAX_RESULTS: usize = 400;

/// The regular expression type of regex.
#[verifier::external_type_specification]
#[verifier::external_body]
pub struct ExRegex(Regex);

/// A compiled regular expression, kept with the pattern it was compiled from
/// and whether it ignores case.
pub struct CompiledRegex {
    pattern: String,
    case_insensitive: bool,
    regex: Regex,
}

impl CompiledRegex {
    /// The pattern this regex was compiled from.
    pub closed spec fn pattern(self) -> Seq<char> {
        self.pattern@
    }

    /// Whether this regex ignores case.
    pub closed spec fn case_insensitive(self) -> bool {
        self.case_insensitive
    }
}

/// Whether `c` means something in a regular expression
/// (`regex_syntax::is_meta_character`).
pub open spec fn is_regex_meta(c: char) -> bool {
    c == '\\' || c == '.' || c == '+' || c == '*' || c == '?' || c == '(' || c == ')' || c == '|' || c == '['
        || c == ']' || c == '{' || c == '}' || c == '^' || c == '$' || c == '#' || c == '&' || c == '-' || c == '~'
}

/// `text` with a backslash before each meta character, so that it matches
/// itself literally.
pub open spec fn regex_escaped(text: Seq<char>) -> Seq<char>
    decreases text.len(),
{
    if text.len() == 0 {
        Seq::empty()
    } else {
        let c = text.last();
        let prev = regex_escaped(text.drop_last());
        if is_regex_meta(c) {
            prev.push('\\').push(c)
        } else {
            prev.push(c)
        }
    }
}

/// What `Regex::new` says of `pattern`: `None` when it compiles, else its
/// error's text.
pub uninterp spec fn regex_new_error(pattern: Seq<char>) -> Option<Seq<char>>;

/// Whether a case-insensitive regex builds from `pattern`.
pub uninterp spec fn case_insensitive_regex_builds(pattern: Seq<char>) -> bool;

/// The byte offset at which the first match of the regex compiled from
/// `pattern` (ignoring case when `case_insensitive`) starts in `haystack`.
pub uninterp spec fn regex_first_match(pattern: Seq<char>, case_insensitive: bool, haystack: Seq<char>) -> Option<nat>;

/// `regex::escape`: a backslash before each character that means something
/// in a regular expression (`\ . + * ? ( ) | [ ] { } ^ $ # & - ~`), as its
/// source does.
#[verifier::external_body]
fn regex_escape(text: &str) -> (r: String)
    ensures
        r@ == regex_escaped(text@),
{
    regex::escape(text)
}

/// `Regex::new`: the compiled regex, or the text of the error it gives;
/// which of the two comes is named `regex_new_error`.
#[verifier::external_body]
fn regex_new(pattern: &str) -> (r: Result<CompiledRegex, String>)
    ensures
        match r {
            Ok(re) => regex_new_error(pattern@) is None && re.pattern() == pattern@ && !re.case_insensitive(),
            Err(e) => regex_new_error(pattern@) == Some(e@),
        },
{
    match Regex::new(pattern) {
        Ok(regex) => Ok(CompiledRegex { pattern: pattern.to_string(), case_insensitive: false, regex }),
        Err(err) => Err(err.to_string()),
    }
}

/// `RegexBuilder::new(pattern).case_insensitive(true).build()`: the
/// compiled regex, or `None` when it does not build; which of the two comes
/// is named `case_insensitive_regex_builds`.
#[verifier::external_body]
fn regex_case_insensitive(pattern: &str) -> (r: Option<CompiledRegex>)
    ensures
        match r {
            Some(re) => case_insensitive_regex_builds(pattern@) && re.pattern() == pattern@ && re.case_insensitive(),
            None => !case_insensitive_regex_builds(pattern@),
        },
{
    match RegexBuilder::new(pattern).case_insensitive(true).build() {
        Ok(regex) => Some(CompiledRegex { pattern: pattern.to_string(), case_insensitive: true, regex }),
        Err(_) => None,
    }
}

/// `Regex::find`, as the start of the match: named `regex_first_match`.
/// The crate documents the start as a character boundary of the haystack.
#[verifier::external_body]
fn regex_find_start(re: &CompiledRegex, haystack: &str) -> (r: Option<usize>)
    ensures
        match r {
            Some(b) => regex_first_match(re.pattern(), re.case_insensitive(), haystack@) == Some(b as nat)
                && exists|k: int| 0 <= k <= haystack@.len() && byte_len(#[trigger] haystack@.take(k)) == b,
            None => regex_first_match(re.pattern(), re.case_insensitive(), haystack@) is None,
        },
{
    re.regex.find(haystack).map(|m| m.start())
}

/// The number of characters in the first `b` bytes of `s`, when `b` ends on
/// a character.
pub open spec fn chars_before(s: Seq<char>, b: nat) -> int {
    choose|k: int| 0 <= k <= s.len() && byte_len(s.take(k)) == b
}

/// The number of characters of `s` that its first `b` bytes hold.
fn count_chars_before(s: &str, b: usize) -> (k: usize)
    requires
        exists|k: int| 0 <= k <= s@.len() && byte_len(#[trigger] s@.take(k)) == b,
    ensures
        k == chars_before(s@, b as nat),
        k <= s@.len(),
{
    let chars = str_chars(s);
    let n = chars.len();
    let ghost k0 = chars_before(s@, b as nat);
    let mut k: usize = 0;
    let mut acc: usize = 0;
    proof {
        assert(s@.take(0) =~= Seq::<char>::empty());
        lemma_byte_len_take_mono(s@, 0, k0);
    }
    while acc < b
        invariant
            chars@ == s@,
            n == chars@.len(),
            0 <= k0 <= s@.len(),
            byte_len(s@.take(k0)) == b,
            k <= k0,
            acc == byte_len(s@.take(k as int)),
            acc <= b,
        decreases k0 - k,
    {
        proof {
            if k == k0 {
                assert(false);
            }
            lemma_byte_len_take_step(s@, k as int);
            lemma_byte_len_take_mono(s@, k + 1, k0);
        }
        acc = acc + char_len_utf8(chars[k]);
        k = k + 1;
    }
    proof {
        if k < k0 {
            lemma_byte_len_take_mono(s@, k as int, k0);
        }
    }
    k
}

/// Later lines only add matches.
proof fn lemma_hits_len_mono(lines: Seq<Seq<char>>, pattern: Seq<char>, m: int, n: int)
    requires
        0 <= m <= n,
    ensures
        hits(lines, pattern, m).len() <= hits(lines, pattern, n).len(),
    decreases n - m,
{
    if m < n {
        lemma_hits_len_mono(lines, pattern, m, n - 1);
    }
}

/// The matches in the first `m` lines start the matches in the first `n`.
proof fn lemma_hits_prefix(lines: Seq<Seq<char>>, pattern: Seq<char>, m: int, n: int)
    requires
        0 <= m <= n,
    ensures
        hits(lines, pattern, n).take(hits(lines, pattern, m).len() as int) == hits(lines, pattern, m),
    decreases n - m,
{
    if m < n {
        lemma_hits_prefix(lines, pattern, m, n - 1);
        lemma_hits_len_mono(lines, pattern, m, n - 1);
        let hn = hits(lines, pattern, n);
        let hp = hits(lines, pattern, n - 1);
        let k = hits(lines, pattern, m).len() as int;
        assert(hn.take(k) =~= hp.take(k));
    } else {
        assert(hits(lines, pattern, n).take(hits(lines, pattern, n).len() as int) =~= hits(lines, pattern, n));
    }
}

/// One match of a global search: where it is and the lines shown for it.
#[derive(Debug, Clone, PartialEq, Eq)]
pub struct GlobalSearchResultEntry {
    pub rel_path: String,
    pub line: usize,
    pub char_col: usize,
    pub preview_lines: Vec<String>,
}

/// The first preview line of a match: `path:line:column`, both 1-based.
pub open spec fn hit_header(rel: Seq<char>, line: int, col: int) -> Seq<char> {
    rel + ":"@ + decimal_chars((line + 1) as nat) + ":"@ + decimal_chars((col + 1) as nat)
}

/// `e` reports a match in the file `rel` with lines `lines`, on line `line`
/// at character `col`.
pub open spec fn entry_is(e: GlobalSearchResultEntry, rel: Seq<char>, lines: Seq<Seq<char>>, line: int, col: int) -> bool {
    &&& e.rel_path@ == rel
    &&& e.line == line
    &&& e.char_col == col
    &&& string_views(e.preview_lines@) == seq![hit_header(rel, line, col)] + search_preview(lines, line)
}

/// The lines among the first `n` where the regex compiled from `pattern`
/// (ignoring case) matches, each with the character at which the match
/// starts.
pub open spec fn hits(lines: Seq<Seq<char>>, pattern: Seq<char>, n: int) -> Seq<(int, int)>
    decreases n,
{
    if n <= 0 {
        Seq::empty()
    } else {
        let prev = hits(lines, pattern, n - 1);
        match regex_first_match(pattern, true, lines[n - 1]) {
            Some(b) => prev.push((n - 1, chars_before(lines[n - 1], b))),
            None => prev,
        }
    }
}

/// How many matches a search that may report `max` of them keeps out of
/// `found`: the search stops once it holds `max`, and it always takes the
/// first one.
pub open spec fn kept_hits(found: int, max: int) -> int {
    let cap = if max == 0 {
        1
    } else {
        max
    };
    if found < cap {
        found
    } else {
        cap
    }
}

/// The matches for `query` in a file: each line where the query occurs,
/// ignoring case and taken literally, up to `max_results` of them (at least
/// one), with its position and the lines around it.
pub fn find_global_search_matches(rel_path: &str, content: &str, query: &str, max_results: usize) -> (r: Vec<
    GlobalSearchResultEntry,
>)
    requires
        content@.len() + 8 <= usize::MAX,
    ensures
        trimmed(query@).len() == 0 || !case_insensitive_regex_builds(regex_escaped(query@)) ==> r@.len() == 0,
        trimmed(query@).len() > 0 && case_insensitive_regex_builds(regex_escaped(query@)) ==> {
            let lines = text_lines(content@);
            let h = hits(lines, regex_escaped(query@), lines.len() as int);
            &&& r@.len() == kept_hits(h.len() as int, max_results as int)
            &&& forall|k: int| 0 <= k < r@.len() ==> entry_is(#[trigger] r@[k], rel_path@, lines, h[k].0, h[k].1)
        },
{
    let mut results: Vec<GlobalSearchResultEntry> = Vec::new();
    if trim(query).as_str().is_empty() {
        return results;
    }
    let pattern = regex_escape(query);
    let re = match regex_case_insensitive(pattern.as_str()) {
        Some(re) => re,
        None => return results,
    };
    let lines = str_lines(content);
    let mut refs: Vec<&str> = Vec::new();
    let mut j: usize = 0;
    while j < lines.len()
        invariant
            j <= lines@.len(),
            refs@.len() == j,
            forall|k: int| 0 <= k < j ==> (#[trigger] refs@[k])@ == lines@[k]@,
        decreases lines@.len() - j,
    {
        refs.push(lines[j].as_str());
        j = j + 1;
    }
    let ghost lv = text_lines(content@);
    proof {
        lemma_text_lines_bounds(content@);
        assert(string_views(lines@) == lv);
        assert(str_views(refs@) =~= lv);
    }
    let mut idx: usize = 0;
    while idx < lines.len()
        invariant
            idx <= lines@.len(),
            lv == text_lines(content@),
            str_views(refs@) == lv,
            string_views(lines@) == lv,
            lv.len() <= content@.len() + 1,
            content@.len() + 8 <= usize::MAX,
            forall|i: int| 0 <= i < lv.len() ==> (#[trigger] lv[i]).len() <= content@.len(),
            re.pattern() == regex_escaped(query@),
            re.case_insensitive(),
            trimmed(query@).len() > 0,
            case_insensitive_regex_builds(regex_escaped(query@)),
            results@.len() == hits(lv, regex_escaped(query@), idx as int).len(),
            results@.len() < (if max_results == 0 { 1 } else { max_results as int }),
            forall|k: int|
                0 <= k < results@.len() ==> entry_is(
                    #[trigger] results@[k],
                    rel_path@,
                    lv,
                    hits(lv, regex_escaped(query@), idx as int)[k].0,
                    hits(lv, regex_escaped(query@), idx as int)[k].1,
                ),
        decreases lines@.len() - idx,
    {
        let line = lines[idx].as_str();
        proof {
            assert(line@ == lv[idx as int]);
        }
        let found = regex_find_start(&re, line);
        let ghost before = results@;
        match found {
            None => {},
            Some(b) => {
                let col = count_chars_before(line, b);
                let preview = build_search_preview(refs.as_slice(), idx);
                let mut header = owned(rel_path);
                push_str(&mut header, ":");
                push_str(&mut header, u64_to_decimal((idx + 1) as u64).as_str());
                push_str(&mut header, ":");
                push_str(&mut header, u64_to_decimal((col + 1) as u64).as_str());
                let mut preview_lines: Vec<String> = Vec::new();
                preview_lines.push(header);
                let ghost pv = preview@;
                let mut p = preview;
                preview_lines.append(&mut p);
                proof {
                    assert(preview_lines@ =~= seq![preview_lines@[0]] + pv);
                    assert(string_views(preview_lines@) =~= seq![hit_header(rel_path@, idx as int, col as int)]
                        + string_views(pv));
                }
                results.push(
                    GlobalSearchResultEntry { rel_path: owned(rel_path), line: idx, char_col: col, preview_lines },
                );
                proof {
                    let h1 = hits(lv, regex_escaped(query@), idx + 1);
                    let h0 = hits(lv, regex_escaped(query@), idx as int);
                    assert(h1 == h0.push((idx as int, col as int)));
                    assert forall|k: int|
                        0 <= k < results@.len() implies entry_is(#[trigger] results@[k], rel_path@, lv, h1[k].0, h1[k].1) by {
                        if k < before.len() {
                            assert(results@[k] == before[k]);
                            assert(h1[k] == h0[k]);
                        }
                    }
                }
                if results.len() >= max_results {
                    proof {
                        lemma_hits_len_mono(lv, regex_escaped(query@), idx + 1, lv.len() as int);
                        lemma_hits_prefix(lv, regex_escaped(query@), idx + 1, lv.len() as int);
                    }
                    return results;
                }
            },
        }
        idx = idx + 1;
    }
    results
}

/// What a global-search input asks for: the text to find, and the values
/// of its `--dir` and `--exclude` flags.
#[derive(Debug, Clone, PartialEq, Eq)]
pub struct SearchFlags {
    pub query: String,
    pub include_dir_arg: Option<String>,
    pub exclude_arg: Option<String>,
}

/// Reads the tokens from position `i` on, given the query tokens and flag
/// values read before it: `--dir` and `--exclude` take the next token as
/// their value (the last one given wins); every other token is query text.
pub open spec fn scan_flags(
    t: Seq<Seq<char>>,
    i: int,
    q: Seq<Seq<char>>,
    d: Option<Seq<char>>,
    e: Option<Seq<char>>,
) -> Result<(Seq<Seq<char>>, Option<Seq<char>>, Option<Seq<char>>), Seq<char>>
    decreases t.len() - i,
{
    if i < 0 || i >= t.len() {
        Ok((q, d, e))
    } else if t[i] == "--dir"@ {
        if i + 1 >= t.len() {
            Err("Missing value for --dir"@)
        } else {
            scan_flags(t, i + 2, q, Some(t[i + 1]), e)
        }
    } else if t[i] == "--exclude"@ {
        if i + 1 >= t.len() {
            Err("Missing value for --exclude"@)
        } else {
            scan_flags(t, i + 2, q, d, Some(t[i + 1]))
        }
    } else {
        scan_flags(t, i + 1, q.push(t[i]), d, e)
    }
}

/// The flags of a search input: its tokens read by `scan_flags`, the query
/// tokens joined by single spaces.
pub open spec fn search_flags(input: Seq<char>) -> Result<(Seq<char>, Option<Seq<char>>, Option<Seq<char>>), Seq<char>> {
    match search_tokens(input) {
        None => Err("Unterminated quote in global search input"@),
        Some(t) => match scan_flags(t, 0, Seq::empty(), None, None) {
            Err(m) => Err(m),
            Ok((q, d, e)) => Ok((join_seqs(q, " "@), d, e)),
        },
    }
}

/// The view of an optional string.
pub open spec fn opt_view(o: Option<String>) -> Option<Seq<char>> {
    match o {
        Some(s) => Some(s@),
        None => None,
    }
}

/// Splits a global-search input into the text to find and its `--dir` and
/// `--exclude` values.
pub fn split_search_flags(input: &str) -> (r: Result<SearchFlags, String>)
    ensures
        match search_flags(input@) {
            Err(m) => r matches Err(e) && e@ == m,
            Ok((q, d, e)) => r matches Ok(f) && f.query@ == q && opt_view(f.include_dir_arg) == d && opt_view(
                f.exclude_arg,
            ) == e,
        },
{
    let tokens = match tokenize_search_input(input) {
        Ok(t) => t,
        Err(e) => return Err(e),
    };
    let ghost t = string_views(tokens@);
    let mut query_tokens: Vec<String> = Vec::new();
    let mut include_dir_arg: Option<String> = None;
    let mut exclude_arg: Option<String> = None;
    let mut i: usize = 0;
    proof {
        assert(string_views(query_tokens@) =~= Seq::<Seq<char>>::empty());
    }
    while i < tokens.len()
        invariant
            i <= tokens@.len() + 1,
            t == string_views(tokens@),
            t == search_tokens(input@).unwrap(),
            search_tokens(input@) is Some,
            scan_flags(t, 0, Seq::empty(), None, None) == scan_flags(
                t,
                i as int,
                string_views(query_tokens@),
                opt_view(include_dir_arg),
                opt_view(exclude_arg),
            ),
        decreases tokens@.len() + 1 - i,
    {
        let tok = tokens[i].as_str();
        proof {
            assert(t[i as int] == tok@);
        }
        if str_eq(tok, "--dir") {
            if i + 1 >= tokens.len() {
                return Err(owned("Missing value for --dir"));
            }
            include_dir_arg = Some(tokens[i + 1].clone());
            i = i + 2;
        } else if str_eq(tok, "--exclude") {
            if i + 1 >= tokens.len() {
                return Err(owned("Missing value for --exclude"));
            }
            exclude_arg = Some(tokens[i + 1].clone());
            i = i + 2;
        } else {
            let ghost before = string_views(query_tokens@);
            query_tokens.push(tokens[i].clone());
            proof {
                assert(string_views(query_tokens@) =~= before.push(t[i as int]));
            }
            i = i + 1;
        }
    }
    proof {
        assert(scan_flags(t, i as int, string_views(query_tokens@), opt_view(include_dir_arg), opt_view(exclude_arg))
            == Ok::<(Seq<Seq<char>>, Option<Seq<char>>, Option<Seq<char>>), Seq<char>>((
            string_views(query_tokens@),
            opt_view(include_dir_arg),
            opt_view(exclude_arg),
        )));
    }
    Ok(SearchFlags { query: join(&query_tokens, " "), include_dir_arg, exclude_arg })
}

/// The directory a `--dir` value names: the value itself when absolute,
/// else the value below the project root.
pub fn include_dir_candidate(project_root: &str, dir_arg: &str) -> (r: String)
    ensures
        r@ == if dir_arg@.len() > 0 && dir_arg@[0] == '/' {
            dir_arg@
        } else {
            path_join_of(project_root@, dir_arg@)
        },
{
    if path_is_absolute(dir_arg) {
        owned(dir_arg)
    } else {
        path_join(project_root, dir_arg)
    }
}

/// What a `--dir` value limits the search to, given what the file system
/// says of its directory: whether it exists and is a directory, and the
/// canonical forms of the project root and of the directory. The result is
/// the directory below the root, with forward slashes and no leading `/`
/// (`None` for the root itself), or why the value is refused.
pub open spec fn include_dir_result(
    arg: Seq<char>,
    exists: bool,
    is_dir: bool,
    root_canonical: Seq<char>,
    candidate_canonical: Seq<char>,
) -> Result<Option<Seq<char>>, Seq<char>> {
    if !exists {
        Err("--dir path does not exist: "@ + arg)
    } else if !is_dir {
        Err("--dir path is not a directory: "@ + arg)
    } else {
        match path_strip_prefix_of(candidate_canonical, root_canonical) {
            None => Err("--dir path is outside project root: "@ + arg),
            Some(rel) => {
                let r = strip_slashes(backslash_to_slash(rel));
                if r.len() == 0 {
                    Ok(None)
                } else {
                    Ok(Some(r))
                }
            },
        }
    }
}

/// `s` with forward slashes and without its leading slashes.
fn slashed_without_leading(s: &str) -> (r: String)
    ensures
        r@ == strip_slashes(backslash_to_slash(s@)),
{
    let chars = str_chars(s);
    let mut slashed: Vec<char> = Vec::new();
    let mut i: usize = 0;
    while i < chars.len()
        invariant
            i <= chars@.len(),
            chars@ == s@,
            slashed@ == backslash_to_slash(s@.take(i as int)),
        decreases chars@.len() - i,
    {
        slashed.push(if chars[i] == '\\' { '/' } else { chars[i] });
        i = i + 1;
        proof {
            assert(slashed@ =~= backslash_to_slash(s@.take(i as int)));
        }
    }
    proof {
        assert(s@.take(i as int) =~= s@);
    }
    let ghost t = slashed@;
    let mut start: usize = 0;
    proof {
        assert(t.skip(0) =~= t);
    }
    while start < slashed.len() && slashed[start] == '/'
        invariant
            start <= slashed@.len(),
            t == slashed@,
            strip_slashes(t.skip(start as int)) == strip_slashes(t),
        decreases slashed@.len() - start,
    {
        proof {
            assert(t.skip(start as int).skip(1) =~= t.skip(start + 1));
        }
        start = start + 1;
    }
    let mut kept: Vec<char> = Vec::new();
    let mut k = start;
    while k < slashed.len()
        invariant
            start <= k <= slashed@.len(),
            t == slashed@,
            kept@ == t.subrange(start as int, k as int),
        decreases slashed@.len() - k,
    {
        kept.push(slashed[k]);
        k = k + 1;
        proof {
            assert(kept@ =~= t.subrange(start as int, k as int));
        }
    }
    proof {
        assert(kept@ =~= t.skip(start as int));
        assert(strip_slashes(t.skip(start as int)) == t.skip(start as int));
    }
    string_from_chars(&kept)
}

/// Resolves a `--dir` value from what the file system says of it.
pub fn resolve_include_dir(
    dir_arg: &str,
    exists: bool,
    is_dir: bool,
    root_canonical: &str,
    candidate_canonical: &str,
) -> (r: Result<Option<String>, String>)
    ensures
        match include_dir_result(dir_arg@, exists, is_dir, root_canonical@, candidate_canonical@) {
            Err(m) => r matches Err(e) && e@ == m,
            Ok(d) => r matches Ok(o) && opt_view(o) == d,
        },
{
    if !exists {
        let mut m = owned("--dir path does not exist: ");
        push_str(&mut m, dir_arg);
        return Err(m);
    }
    if !is_dir {
        let mut m = owned("--dir path is not a directory: ");
        push_str(&mut m, dir_arg);
        return Err(m);
    }
    match path_strip_prefix(candidate_canonical, root_canonical) {
        None => {
            let mut m = owned("--dir path is outside project root: ");
            push_str(&mut m, dir_arg);
            Err(m)
        },
        Some(rel) => {
            let r = slashed_without_leading(rel.as_str());
            if r.as_str().is_empty() {
                Ok(None)
            } else {
                Ok(Some(r))
            }
        },
    }
}

/// A global search ready to run: the text to find, the directory it is
/// limited to, and the regex of paths it leaves out.
pub struct ParsedGlobalSearchRequest {
    pub query: String,
    pub include_dir: Option<String>,
    pub exclude_regex: Option<CompiledRegex>,
}

/// The pattern of the regex of paths a search leaves out.
pub open spec fn exclude_pattern(p: ParsedGlobalSearchRequest) -> Option<(Seq<char>, bool)> {
    match p.exclude_regex {
        Some(re) => Some((re.pattern(), re.case_insensitive())),
        None => None,
    }
}

/// Puts a search together from its flags and the resolved `--dir` value:
/// a refused `--dir` and an `--exclude` pattern that does not compile are
/// reported, in that order.
pub fn parse_global_search_request(flags: SearchFlags, include_dir: Result<Option<String>, String>) -> (r: Result<
    ParsedGlobalSearchRequest,
    String,
>)
    ensures
        include_dir matches Err(e2) ==> (r matches Err(e) && e == e2),
        include_dir matches Ok(d) ==> match flags.exclude_arg {
            None => (r matches Ok(p) && p.query == flags.query && p.include_dir == d && p.exclude_regex is None),
            Some(pat) => match regex_new_error(pat@) {
                Some(m) => (r matches Err(e) && e@ == "Invalid --exclude regex: "@ + m),
                None => (r matches Ok(p) && p.query == flags.query && p.include_dir == d && exclude_pattern(p)
                    == Some((pat@, false))),
            },
        },
{
    let include_dir = match include_dir {
        Ok(d) => d,
        Err(e) => return Err(e),
    };
    let exclude_regex = match flags.exclude_arg {
        None => None,
        Some(pattern) => match regex_new(pattern.as_str()) {
            Ok(re) => Some(re),
            Err(e) => {
                let mut m = owned("Invalid --exclude regex: ");
                push_str(&mut m, e.as_str());
                return Err(m);
            },
        },
    };
    Ok(ParsedGlobalSearchRequest { query: flags.query, include_dir, exclude_regex })
}

/// Whether a search with the given directory and exclusion looks at the
/// file `rel` (project-relative): its normalized path must lie in the
/// directory and must not match the exclusion regex.
pub open spec fn search_wants(include_dir: Option<Seq<char>>, exclude: Option<(Seq<char>, bool)>, rel: Seq<char>) -> bool {
    let n = normalized_rel_path(rel);
    &&& match include_dir {
        None => true,
        Some(dir) => dir.len() == 0 || n == dir || has_prefix(n, dir.push('/')),
    }
    &&& match exclude {
        None => true,
        Some((p, ci)) => regex_first_match(p, ci, n) is None,
    }
}

/// Whether the search looks at the file `rel_path`.
pub fn wants_file(parsed: &ParsedGlobalSearchRequest, rel_path: &str) -> (r: bool)
    ensures
        r == search_wants(opt_view(parsed.include_dir), exclude_pattern(*parsed), rel_path@),
{
    let normalized = normalize_rel_path(rel_path);
    let dir = match &parsed.include_dir {
        Some(d) => Some(d.as_str()),
        None => None,
    };
    if !is_included_dir(normalized.as_str(), dir) {
        return false;
    }
    match &parsed.exclude_regex {
        Some(re) => regex_find_start(re, normalized.as_str()).is_none(),
        None => true,
    }
}

/// What a search run answers: the request it answers, the matches found,
/// and why the search could not run, if it could not.
pub struct GlobalSearchBatch {
    pub generation: u64,
    pub results: Vec<GlobalSearchResultEntry>,
    pub error: Option<String>,
}

/// The matches in the file `files[j]`, when it was read: its lines where
/// the query occurs, ignoring case.
pub open spec fn file_hits(files: Seq<(String, Option<String>)>, j: int, query: Seq<char>) -> Seq<(int, int)> {
    match files[j].1 {
        Some(c) => if case_insensitive_regex_builds(regex_escaped(query)) {
            hits(text_lines(c@), regex_escaped(query), text_lines(c@).len() as int)
        } else {
            Seq::empty()
        },
        None => Seq::empty(),
    }
}

/// Every match of a search in the first `n` files it looks at, in order:
/// the file, the line and the character.
pub open spec fn all_hits(
    files: Seq<(String, Option<String>)>,
    include_dir: Option<Seq<char>>,
    exclude: Option<(Seq<char>, bool)>,
    query: Seq<char>,
    n: int,
) -> Seq<(int, int, int)>
    decreases n,
{
    if n <= 0 {
        Seq::empty()
    } else {
        let prev = all_hits(files, include_dir, exclude, query, n - 1);
        if search_wants(include_dir, exclude, files[n - 1].0@) && files[n - 1].1 is Some {
            prev + file_hits(files, n - 1, query).map_values(|h: (int, int)| (n - 1, h.0, h.1))
        } else {
            prev
        }
    }
}

/// The matches in the first `m` files start the matches in the first `n`.
proof fn lemma_all_hits_prefix(
    files: Seq<(String, Option<String>)>,
    include_dir: Option<Seq<char>>,
    exclude: Option<(Seq<char>, bool)>,
    query: Seq<char>,
    m: int,
    n: int,
)
    requires
        0 <= m <= n,
    ensures
        all_hits(files, include_dir, exclude, query, m).len() <= all_hits(files, include_dir, exclude, query, n).len(),
        all_hits(files, include_dir, exclude, query, n).take(
            all_hits(files, include_dir, exclude, query, m).len() as int,
        ) == all_hits(files, include_dir, exclude, query, m),
    decreases n - m,
{
    let am = all_hits(files, include_dir, exclude, query, m);
    if m < n {
        lemma_all_hits_prefix(files, include_dir, exclude, query, m, n - 1);
        let an = all_hits(files, include_dir, exclude, query, n);
        let ap = all_hits(files, include_dir, exclude, query, n - 1);
        assert(an.take(am.len() as int) =~= ap.take(am.len() as int));
    } else {
        assert(am.take(am.len() as int) =~= am);
    }
}

/// Runs a search over the project's files, given the contents of the files
/// it looks at (`None` for a file that could not be read): the matches of
/// each file, in order, until `GLOBAL_SEARCH_MAX_RESULTS` of them.
pub fn execute_global_search(
    generation: u64,
    parsed: Result<ParsedGlobalSearchRequest, String>,
    files: &Vec<(String, Option<String>)>,
) -> (r: GlobalSearchBatch)
    requires
        forall|j: int| 0 <= j < files@.len() ==> ((#[trigger] files@[j]).1 matches Some(c) ==> c@.len() + 8 <= usize::MAX),
    ensures
        r.generation == generation,
        parsed matches Err(e) ==> r.results@.len() == 0 && r.error == Some(e),
        parsed matches Ok(p) ==> r.error is None && if trimmed(p.query@).len() == 0 {
            r.results@.len() == 0
        } else {
            let all = all_hits(files@, opt_view(p.include_dir), exclude_pattern(p), p.query@, files@.len() as int);
            &&& r.results@.len() == if all.len() < GLOBAL_SEARCH_MAX_RESULTS {
                all.len() as int
            } else {
                GLOBAL_SEARCH_MAX_RESULTS as int
            }
            &&& forall|k: int|
                0 <= k < r.results@.len() ==> entry_is(
                    #[trigger] r.results@[k],
                    normalized_rel_path(files@[all[k].0].0@),
                    text_lines(files@[all[k].0].1.unwrap()@),
                    all[k].1,
                    all[k].2,
                )
        },
{
    let req = match parsed {
        Ok(p) => p,
        Err(e) => return GlobalSearchBatch { generation, results: Vec::new(), error: Some(e) },
    };
    if trim(req.query.as_str()).as_str().is_empty() {
        return GlobalSearchBatch { generation, results: Vec::new(), error: None };
    }
    let ghost inc = opt_view(req.include_dir);
    let ghost exc = exclude_pattern(req);
    let ghost q = req.query@;
    let mut results: Vec<GlobalSearchResultEntry> = Vec::new();
    let mut j: usize = 0;
    while j < files.len()
        invariant
            j <= files@.len(),
            parsed == Ok::<ParsedGlobalSearchRequest, String>(req),
            inc == opt_view(req.include_dir),
            exc == exclude_pattern(req),
            q == req.query@,
            trimmed(q).len() > 0,
            forall|i: int| 0 <= i < files@.len() ==> ((#[trigger] files@[i]).1 matches Some(c) ==> c@.len() + 8 <= usize::MAX),
            results@.len() == all_hits(files@, inc, exc, q, j as int).len(),
            results@.len() < GLOBAL_SEARCH_MAX_RESULTS,
            forall|k: int|
                0 <= k < results@.len() ==> entry_is(
                    #[trigger] results@[k],
                    normalized_rel_path(files@[all_hits(files@, inc, exc, q, j as int)[k].0].0@),
                    text_lines(files@[all_hits(files@, inc, exc, q, j as int)[k].0].1.unwrap()@),
                    all_hits(files@, inc, exc, q, j as int)[k].1,
                    all_hits(files@, inc, exc, q, j as int)[k].2,
                ),
        decreases files@.len() - j,
    {
        let rel_path = files[j].0.as_str();
        let ghost prev = all_hits(files@, inc, exc, q, j as int);
        let ghost next = all_hits(files@, inc, exc, q, j + 1);
        if !wants_file(&req, rel_path) {
            proof {
                assert(next == prev);
            }
            j = j + 1;
            continue;
        }
        let content = match &files[j].1 {
            Some(c) => c.as_str(),
            None => {
                proof {
                    assert(next == prev);
                }
                j = j + 1;
                continue;
            },
        };
        let remaining = GLOBAL_SEARCH_MAX_RESULTS - results.len();
        let normalized = normalize_rel_path(rel_path);
        let mut file_results = find_global_search_matches(normalized.as_str(), content, req.query.as_str(), remaining);
        let ghost fh = file_hits(files@, j as int, q);
        let ghost before = results@;
        let ghost fr = file_results@;
        proof {
            assert(files@[j as int].1 == Some(files@[j as int].1.unwrap()));
            assert(content@ == files@[j as int].1.unwrap()@);
            assert(next == prev + fh.map_values(|h: (int, int)| (j as int, h.0, h.1)));
        }
        results.append(&mut file_results);
        proof {
            assert(results@ =~= before + fr);
            assert forall|k: int|
                0 <= k < results@.len() implies entry_is(
                    #[trigger] results@[k],
                    normalized_rel_path(files@[next[k].0].0@),
                    text_lines(files@[next[k].0].1.unwrap()@),
                    next[k].1,
                    next[k].2,
                ) by {
                if k < before.len() {
                    assert(results@[k] == before[k]);
                    assert(next[k] == prev[k]);
                } else {
                    assert(results@[k] == fr[k - before.len()]);
                    assert(next[k] == (j as int, fh[k - before.len()].0, fh[k - before.len()].1));
                }
            }
        }
        if results.len() >= GLOBAL_SEARCH_MAX_RESULTS {
            proof {
                lemma_all_hits_prefix(files@, inc, exc, q, j + 1, files@.len() as int);
                let all = all_hits(files@, inc, exc, q, files@.len() as int);
                assert(fr.len() <= fh.len());
                assert(results@.len() == GLOBAL_SEARCH_MAX_RESULTS);
                assert(next.len() >= GLOBAL_SEARCH_MAX_RESULTS);
                assert(all.len() >= GLOBAL_SEARCH_MAX_RESULTS);
                assert forall|k: int| 0 <= k < results@.len() implies all[k] == next[k] by {
                    assert(all.take(next.len() as int)[k] == all[k]);
                }
            }
            return GlobalSearchBatch { generation, results, error: None };
        }
        j = j + 1;
    }
    GlobalSearchBatch { generation, results, error: None }
}

} // verus!
