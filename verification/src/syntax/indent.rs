//! Indentation: the spaces for an indent level, and the indentation of an
//! existing line of a buffer.
use vstd::prelude::*;

use crate::std_calls::string_push;
use crate::utf8::str_chars;
use ropey::Rope;

verus! {

/// Convert an indent level to a spaces string.
pub fn indent_string(level: usize, tab_width: usize) -> (s: String)
    requires
        level * tab_width <= usize::MAX,
    ensures
        s@ == Seq::new((level * tab_width) as nat, |i: int| ' '),
{
    let n = level * tab_width;
    let mut s = String::new();
    let mut i: usize = 0;
    while i < n
        invariant
            i <= n,
            s@ == Seq::new(i as nat, |k: int| ' '),
        decreases n - i,
    {
        string_push(&mut s, ' ');
        i = i + 1;
        assert(s@ =~= Seq::new(i as nat, |k: int| ' '));
    }
    s
}

/// The rope type of ropey, which holds a buffer's text.
#[verifier::external_type_specification]
#[verifier::external_body]
pub struct ExRope(Rope);

/// The lines of a rope, in order, each with the line break that ends it.
pub uninterp spec fn rope_lines(r: Rope) -> Seq<Seq<char>>;

/// `Rope::len_lines`: the number of lines.
#[verifier::external_body]
fn rope_len_lines(rope: &Rope) -> (n: usize)
    ensures
        n == rope_lines(*rope).len(),
{
    rope.len_lines()
}

/// `Rope::line`, written out: the line at `line_idx`, which must exist
/// (ropey panics otherwise).
#[verifier::external_body]
fn rope_line(rope: &Rope, line_idx: usize) -> (s: String)
    requires
        line_idx < rope_lines(*rope).len(),
    ensures
        s@ == rope_lines(*rope)[line_idx as int],
{
    rope.line(line_idx).to_string()
}

/// The run of spaces and tabs `line` starts with.
pub open spec fn leading_blanks(line: Seq<char>) -> Seq<char>
    decreases line.len(),
{
    if line.len() > 0 && (line[0] == ' ' || line[0] == '\t') {
        seq![line[0]] + leading_blanks(line.skip(1))
    } else {
        Seq::empty()
    }
}

/// The indentation of line `line_idx` (its leading spaces and tabs), or
/// nothing when there is no such line.
pub fn copy_line_indent(rope: &Rope, line_idx: usize) -> (r: String)
    ensures
        line_idx >= rope_lines(*rope).len() ==> r@.len() == 0,
        line_idx < rope_lines(*rope).len() ==> r@ == leading_blanks(rope_lines(*rope)[line_idx as int]),
{
    if line_idx >= rope_len_lines(rope) {
        return String::new();
    }
    let line = rope_line(rope, line_idx);
    let chars = str_chars(line.as_str());
    let mut indent = String::new();
    let mut i: usize = 0;
    proof {
        assert(chars@.skip(0) =~= chars@);
        assert(chars@.take(0) + leading_blanks(chars@) =~= leading_blanks(chars@));
    }
    while i < chars.len() && (chars[i] == ' ' || chars[i] == '\t')
        invariant
            i <= chars@.len(),
            chars@ == line@,
            indent@ == chars@.take(i as int),
            leading_blanks(line@) == chars@.take(i as int) + leading_blanks(chars@.skip(i as int)),
        decreases chars@.len() - i,
    {
        proof {
            let rest = chars@.skip(i as int);
            assert(rest.skip(1) =~= chars@.skip(i + 1));
            assert(chars@.take(i as int) + (seq![rest[0]] + leading_blanks(rest.skip(1))) =~= chars@.take(i + 1)
                + leading_blanks(chars@.skip(i + 1)));
        }
        string_push(&mut indent, chars[i]);
        i = i + 1;
        proof {
            assert(indent@ =~= chars@.take(i as int));
        }
    }
    proof {
        assert(leading_blanks(chars@.skip(i as int)) =~= Seq::<char>::empty());
        assert(chars@.take(i as int) + Seq::<char>::empty() =~= chars@.take(i as int));
    }
    indent
}

} // verus!
