use cydonia::members::{holds, put, toggle};
use cydonia::board::card_matches;
use cydonia::external::folder_of;
use cydonia::terminal::directory_label;
use cydonia::runs::cut_runs;
use cydonia::text::{
    chars_of, contains, is_blank, is_whitespace, lines, one_line, same_text, trim,
};

#[test]
fn one_line_collapses_whitespace() {
    assert_eq!(one_line("  a \n\t b  c "), "a b c");
    assert_eq!(one_line(""), "");
}

#[test]
fn trim_and_blank() {
    assert_eq!(trim("\u{a0} x y \n"), "x y");
    assert!(is_blank(" \n\t"));
    assert!(!is_blank(" x"));
    assert!(is_whitespace('\u{3000}'));
    assert!(!is_whitespace('x'));
}

#[test]
fn lines_split_as_std_does() {
    let got: Vec<String> = lines(&chars_of("a\r\nb\n\nc\n")).iter().map(|l| l.iter().collect::<String>()).collect();
    assert_eq!(got, vec!["a", "b", "", "c"]);
}

#[test]
fn texts_compare_and_search() {
    assert!(same_text("abc", "abc"));
    assert!(!same_text("abc", "abd"));
    assert!(contains(&chars_of("hello"), &chars_of("ell")));
    assert!(!contains(&chars_of("hello"), &chars_of("xyz")));
    assert!(card_matches("ÀBC", None, "àbc"));
    assert!(!card_matches("ÀBC", None, "abc"));
}

#[test]
fn runs_are_maximal() {
    assert_eq!(cut_runs(&vec![true, true, false, true], 0, 4), vec![(0, 2), (2, 3), (3, 4)]);
    assert_eq!(cut_runs(&vec![true], 1, 1), vec![]);
}

#[test]
fn a_set_of_texts_toggles_and_fills() {
    let mut keys: Vec<String> = Vec::new();
    put(&mut keys, "a");
    put(&mut keys, "a");
    assert_eq!(keys.len(), 1);
    assert!(holds(&keys, "a"));
    toggle(&mut keys, "a");
    assert!(!holds(&keys, "a"));
    toggle(&mut keys, "b");
    assert!(holds(&keys, "b"));
}

#[test]
fn paths_read_as_std_reads_them() {
    assert_eq!(directory_label("/a/b.txt"), "b.txt");
    assert_eq!(directory_label("/a/.."), "/a/..");
    assert_eq!(folder_of("/a/b"), "/a");
    assert_eq!(folder_of("/"), "/");
}
