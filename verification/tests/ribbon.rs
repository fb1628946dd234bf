use cydonia::ribbon::{formats, keystroke, link, turned_blocks, Mark, Ribbon};

#[test]
fn formats_light_what_the_selection_carries() {
    let out = formats(false, &vec![Mark::Italic, Mark::Link("u".to_owned())]);
    let got: Vec<(&str, bool)> = out.iter().map(|f| (f.label, f.lit)).collect();
    assert_eq!(
        got,
        vec![("Bold", false), ("Italic", true), ("Strikethrough", false), ("Code", false)]
    );
    let fenced = formats(true, &vec![Mark::Code]);
    assert_eq!(fenced[3].label, "Code block");
    assert!(fenced[3].lit);
}

#[test]
fn only_italic_and_strike_print_a_chord() {
    assert_eq!(keystroke(&Mark::Italic), Some("⌘I"));
    assert_eq!(keystroke(&Mark::Strike), Some("⇧⌘X"));
    assert_eq!(keystroke(&Mark::Bold), None);
    assert_eq!(keystroke(&Mark::Code), None);
}

#[test]
fn link_finds_the_first_url() {
    let marks = vec![Mark::Bold, Mark::Link("a".to_owned()), Mark::Link("b".to_owned())];
    assert_eq!(link(&marks).map(|s| s.as_str()), Some("a"));
    assert_eq!(link(&vec![Mark::Bold]), None);
}

#[test]
fn confirming_a_link_swaps_the_old_for_the_new() {
    let mut r = Ribbon::new();
    assert_eq!(r.open_link(Some("old".to_owned())), "old");
    let toggles = r.confirm_link("  new  ").unwrap();
    let urls: Vec<String> = toggles
        .iter()
        .map(|m| match m {
            Mark::Link(u) => u.clone(),
            _ => String::new(),
        })
        .collect();
    assert_eq!(urls, vec!["old".to_owned(), "new".to_owned()]);
    assert!(r.linking.is_none());
    assert!(r.confirm_link("x").is_none());
}

#[test]
fn an_empty_field_takes_the_link_off() {
    let mut r = Ribbon::new();
    r.open_link(Some("old".to_owned()));
    assert_eq!(r.confirm_link("   ").unwrap().len(), 1);
    r.open_link(None);
    assert!(r.confirm_link("").unwrap().is_empty());
}

#[test]
fn the_bar_rests() {
    let mut r = Ribbon::new();
    assert!(r.set_selecting(true));
    assert!(!r.set_selecting(true));
    r.open_link(None);
    assert!(r.rest());
    assert!(!r.selecting);
    assert!(!r.rest());
    assert!(!r.dismiss_link());
    r.open_link(None);
    assert!(r.dismiss_link());
}

#[test]
fn a_turn_reaches_every_block_between() {
    assert_eq!(turned_blocks(2, 5), vec![2, 3, 4, 5]);
    assert_eq!(turned_blocks(4, 4), vec![4]);
}
