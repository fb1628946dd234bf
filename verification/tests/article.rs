use cydonia::article::{opened_caret, refocus_body, toggled_mode, Caret, Mode};

#[test]
fn an_unnamed_page_asks_for_its_name() {
    assert_eq!(opened_caret(true, true, true), Caret::Title);
    assert_eq!(opened_caret(false, true, true), Caret::Body);
    assert_eq!(opened_caret(true, false, true), Caret::Body);
    assert_eq!(opened_caret(true, false, false), Caret::Nowhere);
}

#[test]
fn plain_text_flips_the_mode() {
    assert_eq!(toggled_mode(Some(true)), Some(Mode::Blocks));
    assert_eq!(toggled_mode(Some(false)), Some(Mode::Source));
    assert_eq!(toggled_mode(None), None);
}

#[test]
fn the_caret_is_never_pulled_off_the_title() {
    assert!(refocus_body(true, false, true));
    assert!(!refocus_body(true, true, true));
    assert!(!refocus_body(false, false, true));
}
