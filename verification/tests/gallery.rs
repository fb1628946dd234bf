use cydonia::gallery::{image_source, source_from, Gallery, ImageSource, Swipe};

#[test]
fn a_relative_picture_is_read_from_the_session_folder() {
    match image_source("shots/a.png", "/work") {
        ImageSource::Local(p) => assert_eq!(p, "/work/shots/a.png"),
        ImageSource::Remote(_) => panic!("a path"),
    }
}

#[test]
fn a_file_url_is_read_from_disk_and_a_web_url_fetched() {
    match image_source("file:///tmp/a.png", "/work") {
        ImageSource::Local(p) => assert_eq!(p, "/tmp/a.png"),
        ImageSource::Remote(_) => panic!("a file"),
    }
    match image_source("https://example.com/a.png", "/work") {
        ImageSource::Remote(u) => assert_eq!(u, "https://example.com/a.png"),
        ImageSource::Local(_) => panic!("a url"),
    }
}

#[test]
fn source_from_follows_what_parsing_gave() {
    assert!(matches!(source_from(Some((Some("/x".to_owned()), "file:///x".to_owned())), "t", "/w"), ImageSource::Local(p) if p == "/x"));
    assert!(matches!(source_from(Some((None, "https://a/".to_owned())), "t", "/w"), ImageSource::Remote(u) if u == "https://a/"));
    assert!(matches!(source_from(None, "t.png", "/w"), ImageSource::Local(p) if p == "/w/t.png"));
}

#[test]
fn swipes_step_through_the_strip_and_stop_at_the_ends() {
    let mut g = Gallery::new(3);
    g.press();
    assert!(!g.finish(Swipe::Next, true));
    assert_eq!(g.selected, 1);
    g.press();
    g.finish(Swipe::Next, true);
    g.press();
    g.finish(Swipe::Next, true);
    assert_eq!(g.selected, 2);
    g.press();
    g.finish(Swipe::Previous, true);
    assert_eq!(g.selected, 1);
    g.finish(Swipe::Previous, true);
    assert_eq!(g.selected, 1);
}

#[test]
fn a_tap_opens_the_preview_where_allowed() {
    let mut g = Gallery::new(2);
    g.press();
    assert!(!g.finish(Swipe::Tap, false));
    assert!(!g.is_preview_open());
    g.press();
    assert!(g.finish(Swipe::Tap, true));
    assert!(g.is_preview_open());
    g.close();
    assert!(!g.is_preview_open());
    g.press();
    assert!(!g.finish(Swipe::Stay, true));
    assert!(!g.pressed);
}
