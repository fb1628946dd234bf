use cydonia::identity::{filed_name, InfoPanel, Making};

#[test]
fn an_unnamed_board_is_filed_under_the_fallback() {
    assert_eq!(filed_name("  Roadmap \n", "Untitled"), "Roadmap");
    assert_eq!(filed_name("   ", "Untitled"), "Untitled");
    assert_eq!(filed_name("", "Untitled"), "Untitled");
}

#[test]
fn the_key_follows_the_name_until_typed_over() {
    let mut m = Making::new(2, "BRD".to_owned());
    assert!(m.follows());
    assert_eq!(m.key, "BRD");
    m.follow_key("ROAD".to_owned());
    assert_eq!(m.key, "ROAD");
    assert_eq!(m.derived, "ROAD");
    m.key = "MINE".to_owned();
    assert!(!m.follows());
    m.follow_key("ROADM".to_owned());
    assert_eq!(m.key, "MINE");
    assert_eq!(m.derived, "ROAD");
}

#[test]
fn create_files_the_trimmed_name_and_key() {
    let mut m = Making::new(1, "K".to_owned());
    m.name = " Plans ".to_owned();
    m.key = " PL ".to_owned();
    assert_eq!(m.filed("Untitled"), (1, "Plans".to_owned(), "PL".to_owned()));
    m.refused("key taken".to_owned());
    assert_eq!(m.error.as_deref(), Some("key taken"));
    assert_eq!(m.key, " PL ");
}

#[test]
fn a_click_on_a_board_name_opens_and_shuts_its_panel() {
    let mut p = InfoPanel::new();
    p.press("b1");
    assert!(!p.pressed);
    p.toggle("b1", Some(("Roadmap".to_owned(), "RM".to_owned())));
    let info = p.shown_for("b1").expect("open on b1");
    assert_eq!(info.name, "Roadmap");
    assert_eq!(info.key, "RM");
    assert!(p.shown_for("b2").is_none());
    p.press("b1");
    assert!(p.pressed);
    p.toggle("b1", Some(("Roadmap".to_owned(), "RM".to_owned())));
    assert!(p.info.is_none());
    assert!(!p.pressed);
}

#[test]
fn a_board_gone_opens_no_panel() {
    let mut p = InfoPanel::new();
    p.toggle("gone", None);
    assert!(p.info.is_none());
}

#[test]
fn save_shuts_the_panel_or_keeps_it_with_the_reason() {
    let mut p = InfoPanel::new();
    p.toggle("b1", Some((" New name ".to_owned(), " NN ".to_owned())));
    assert_eq!(
        p.filed(),
        Some(("b1".to_owned(), "New name".to_owned(), "NN".to_owned()))
    );
    p.saved(Err("key taken".to_owned()));
    assert_eq!(p.info.as_ref().and_then(|i| i.error.clone()), Some("key taken".to_owned()));
    assert_eq!(p.info.as_ref().map(|i| i.name.clone()), Some(" New name ".to_owned()));
    p.saved(Ok(()));
    assert!(p.info.is_none());
    assert_eq!(p.filed(), None);
    p.toggle("b1", Some(("x".to_owned(), "X".to_owned())));
    p.dismiss();
    assert!(p.info.is_none());
}
