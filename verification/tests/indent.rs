use gargo::syntax::indent::{copy_line_indent, indent_string};
use ropey::Rope;

#[test]
fn indent_string_zero() {
    assert_eq!(indent_string(0, 4), "");
}

#[test]
fn indent_string_one_level() {
    assert_eq!(indent_string(1, 4), "    ");
}

#[test]
fn indent_string_two_levels() {
    assert_eq!(indent_string(2, 4), "        ");
}

#[test]
fn indent_string_custom_tab_width() {
    assert_eq!(indent_string(1, 2), "  ");
    assert_eq!(indent_string(2, 2), "    ");
}


#[test]
fn copy_line_indent_spaces() {
    let rope = Rope::from_str("    hello\n");
    assert_eq!(copy_line_indent(&rope, 0), "    ");
}

#[test]
fn copy_line_indent_tabs() {
    let rope = Rope::from_str("\t\thello\n");
    assert_eq!(copy_line_indent(&rope, 0), "\t\t");
}

#[test]
fn copy_line_indent_no_indent() {
    let rope = Rope::from_str("hello\n");
    assert_eq!(copy_line_indent(&rope, 0), "");
}

#[test]
fn copy_line_indent_out_of_range() {
    let rope = Rope::from_str("hello\n");
    assert_eq!(copy_line_indent(&rope, 99), "");
}

#[test]
fn copy_line_indent_reads_the_requested_line() {
    let rope = Rope::from_str("a\n \tb\n   \n");
    assert_eq!(copy_line_indent(&rope, 1), " \t");
    assert_eq!(copy_line_indent(&rope, 2), "   ");
    assert_eq!(copy_line_indent(&rope, 3), "");
}
