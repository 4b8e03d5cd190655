use rust_hdl::code_writer::CodeWriter;
use rust_hdl::named_path::NamedPath;
use rust_hdl::text::{
    decimal_string, hexadecimal_string, join_strings, numeral_string, split_text, text_lt,
};

#[test]
fn numbers_are_written_without_leading_zeros() {
    assert_eq!(decimal_string(0), "0");
    assert_eq!(decimal_string(7), "7");
    assert_eq!(decimal_string(10), "10");
    assert_eq!(decimal_string(1234567890), "1234567890");
    assert_eq!(decimal_string(usize::MAX), usize::MAX.to_string());
    assert_eq!(hexadecimal_string(0), "0");
    assert_eq!(hexadecimal_string(255), "ff");
    assert_eq!(hexadecimal_string(0xdead_beef), "deadbeef");
    assert_eq!(hexadecimal_string(u64::MAX), "ffffffffffffffff");
    assert_eq!(numeral_string(5, 2), "101");
    assert_eq!(numeral_string(64, 8), "100");
}

#[test]
fn joining_puts_the_separator_between_neighbours() {
    let none: Vec<String> = vec![];
    assert_eq!(join_strings(&none, ","), "");
    assert_eq!(join_strings(&vec!["a".to_string()], ","), "a");
    assert_eq!(join_strings(&vec!["a".to_string(), "b".to_string(), "c".to_string()], ", "), "a, b, c");
    assert_eq!(join_strings(&vec![String::new(), String::new()], "_"), "_");
}

#[test]
fn a_line_break_at_the_end_opens_no_line() {
    let none: Vec<String> = vec![];
    assert_eq!(split_text(""), none);
    assert_eq!(split_text("a"), vec!["a"]);
    assert_eq!(split_text("a\n"), vec!["a"]);
    assert_eq!(split_text("a\n\n"), vec!["a", ""]);
    assert_eq!(split_text("\na"), vec!["", "a"]);
    assert_eq!(split_text("\n"), vec![""]);
    assert_eq!(split_text("\n\nmodule top();"), vec!["", "", "module top();"]);
    assert_eq!(split_text("é\nü"), vec!["é", "ü"]);
}

#[test]
fn texts_are_ordered_by_their_first_difference() {
    assert!(text_lt("", "a"));
    assert!(!text_lt("a", ""));
    assert!(!text_lt("", ""));
    assert!(!text_lt("top", "top"));
    assert!(text_lt("top", "top.add1"));
    assert!(text_lt("top.add1", "top.add2"));
    assert!(!text_lt("top.add2", "top.add1"));
    assert!(text_lt("top.b", "top_a"));
    assert!(text_lt("Z", "a"));
    assert!(text_lt("z", "é"));
    for (a, b) in [("a", "b"), ("top.x", "top"), ("é", "z"), ("abc", "abd"), ("", "")] {
        assert_eq!(text_lt(a, b), a < b);
        assert_eq!(text_lt(b, a), b < a);
    }
}

#[test]
fn lines_are_indented_by_the_depth_at_which_they_are_added() {
    let mut io = CodeWriter::new();
    assert_eq!(io.to_string(), "");
    io.add("begin");
    io.push();
    io.add("one\ntwo\n");
    io.push();
    io.add_line("three");
    io.pop();
    io.add("\nfour");
    io.pop();
    io.add("end");
    assert_eq!(io.to_string(), "begin\n    one\n    two\n        three\n    \n    four\nend\n");
}

#[test]
fn add_line_does_not_split() {
    let mut io = CodeWriter::new();
    io.add_line("a\nb");
    io.add("");
    assert_eq!(io.to_string(), "a\nb\n");
}

#[test]
fn a_path_is_written_with_dots() {
    let mut path = NamedPath::new();
    assert_eq!(path.len(), 0);
    assert_eq!(path.to_string(), "");
    path.pop();
    assert_eq!(path.len(), 0);
    path.push("top");
    assert_eq!(path.to_string(), "top");
    assert_eq!(path.parent(), "");
    assert_eq!(path.last(), "top");
    path.push("fader");
    path.push("strobe");
    assert_eq!(path.len(), 3);
    assert_eq!(path.to_string(), "top.fader.strobe");
    assert_eq!(path.parent(), "top.fader");
    assert_eq!(path.last(), "strobe");
    assert_eq!(path.flat("_"), "top_fader_strobe");
    path.pop();
    assert_eq!(path.to_string(), "top.fader");
    path.reset();
    assert_eq!(path.len(), 0);
    assert_eq!(path.flat("_"), "");
}
