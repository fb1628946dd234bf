use cydonia::file::{
    line_endings, may_write, normalized, temporary_name, text_from, FileError, FileView, LIMIT,
};

#[test]
fn normalized_turns_every_break_into_a_line_feed() {
    assert_eq!(normalized("a\r\nb\rc\nd"), "a\nb\nc\nd");
    assert_eq!(normalized("\r\r\n"), "\n\n");
    assert_eq!(normalized(""), "");
}

#[test]
fn line_endings_follow_a_crlf_file() {
    assert_eq!(line_endings("a\nb\n", "x\r\ny\r\n"), "a\r\nb\r\n");
}

#[test]
fn line_endings_follow_a_cr_file() {
    assert_eq!(line_endings("a\nb", "x\ry"), "a\rb");
}

#[test]
fn line_endings_stay_in_a_mixed_or_plain_file() {
    assert_eq!(line_endings("a\nb", "x\r\ny\nz"), "a\nb");
    assert_eq!(line_endings("a\nb", "x\ny"), "a\nb");
    assert_eq!(line_endings("a\nb", "plain"), "a\nb");
}

#[test]
fn line_endings_round_trip_through_normalizing() {
    for saved in ["x\r\ny", "x\ry", "x\ny", ""] {
        let written = line_endings("one\ntwo\n\nthree", saved);
        assert_eq!(normalized(&written), "one\ntwo\n\nthree");
    }
}

#[test]
fn text_from_refuses_what_is_not_a_regular_file() {
    assert!(matches!(text_from(false, Ok(b"hi".to_vec())), Err(FileError::NotFile)));
}

#[test]
fn text_from_reads_utf8() {
    match text_from(true, Ok("héllo".as_bytes().to_vec())) {
        Ok(s) => assert_eq!(s, "héllo"),
        Err(_) => panic!("expected text"),
    }
}

#[test]
fn text_from_refuses_large_binary_and_broken_files() {
    let big = vec![b'a'; (LIMIT + 1) as usize];
    assert!(matches!(text_from(true, Ok(big)), Err(FileError::TooLarge)));
    let exact = vec![b'a'; LIMIT as usize];
    assert!(text_from(true, Ok(exact)).is_ok());
    assert!(matches!(text_from(true, Ok(vec![b'a', 0, b'b'])), Err(FileError::Binary)));
    assert!(matches!(text_from(true, Ok(vec![0xff, 0xfe])), Err(FileError::NotText(_))));
    match text_from(true, Err("denied".to_owned())) {
        Err(FileError::Io(m)) => assert_eq!(m, "denied"),
        _ => panic!("expected the read's error"),
    }
}

#[test]
fn error_messages_read_as_the_editor_says_them() {
    assert_eq!(FileError::NotFile.message(), "Choose a regular file");
    assert_eq!(
        FileError::TooLarge.message(),
        "Files larger than 256 KiB must be opened externally"
    );
    assert_eq!(FileError::Binary.message(), "Binary files must be opened externally");
    assert_eq!(
        FileError::Changed.message(),
        "File changed on disk. Reload or overwrite to continue."
    );
    assert_eq!(
        FileError::TooLargeToSave.message(),
        "Files larger than 256 KiB must be edited externally"
    );
    assert_eq!(FileError::Io("boom".to_owned()).message(), "boom");
}

#[test]
fn may_write_checks_the_disk_unless_overwriting() {
    assert!(may_write(false, Some(Ok("old".to_owned())), "old", "new").is_ok());
    assert!(matches!(
        may_write(false, Some(Ok("other".to_owned())), "old", "new"),
        Err(FileError::Changed)
    ));
    assert!(may_write(true, None, "old", "new").is_ok());
    assert!(matches!(
        may_write(false, Some(Err(FileError::Binary)), "old", "new"),
        Err(FileError::Binary)
    ));
    let big = "a".repeat((LIMIT + 1) as usize);
    assert!(matches!(may_write(true, None, "old", &big), Err(FileError::TooLargeToSave)));
}

#[test]
fn temporary_name_spells_process_and_sequence() {
    assert_eq!(temporary_name(4321, 7), ".cydonia-save-4321-7");
}

#[test]
fn a_first_read_is_shown() {
    let mut view = FileView::new();
    assert!(view.loading && !view.ready);
    let shown = view.receive(Ok("one\r\ntwo".to_owned()), "");
    assert_eq!(shown.as_deref(), Some("one\r\ntwo"));
    assert!(view.ready && !view.loading);
    assert_eq!(view.saved, "one\r\ntwo");
    assert!(!view.dirty("one\ntwo"));
    assert!(view.dirty("one\ntwo!"));
}

#[test]
fn a_read_under_edits_only_marks_the_change() {
    let mut view = FileView::new();
    view.receive(Ok("a".to_owned()), "");
    let shown = view.receive(Ok("b".to_owned()), "edited");
    assert!(shown.is_none());
    assert!(view.changed);
    assert_eq!(view.saved, "a");
    assert_eq!(
        view.notice().as_deref(),
        Some("File changed on disk. Reload discards your edits; overwrite saves your version.")
    );
}

#[test]
fn a_failed_read_is_the_notice() {
    let mut view = FileView::new();
    assert!(view.receive(Err("gone".to_owned()), "").is_none());
    assert_eq!(view.notice().as_deref(), Some("gone"));
    assert!(!view.ready);
}

#[test]
fn saving_edits_keeps_line_endings_and_leaves_it_clean() {
    let mut view = FileView::new();
    view.receive(Ok("a\r\nb".to_owned()), "");
    let source = view.save_source("a\nb\nc").unwrap();
    assert_eq!(source, "a\r\nb\r\nc");
    assert!(view.save(source, Ok(())));
    assert!(!view.dirty("a\nb\nc"));
    assert!(!view.save("x".to_owned(), Err("full".to_owned())));
    assert_eq!(view.error.as_deref(), Some("full"));
}

#[test]
fn nothing_is_saved_before_a_read() {
    let view = FileView::new();
    assert!(view.save_source("text").is_none());
}

#[test]
fn reload_drops_the_edits() {
    let mut view = FileView::new();
    view.receive(Ok("a".to_owned()), "");
    view.receive(Ok("b".to_owned()), "mine");
    assert!(view.changed);
    assert_eq!(view.reload(Ok("b".to_owned())).as_deref(), Some("b"));
    assert!(!view.changed);
    assert_eq!(view.saved, "b");
}

#[test]
fn preview_toggles() {
    let mut view = FileView::new();
    assert!(view.preview);
    assert!(!view.toggle_preview());
    assert!(view.toggle_preview());
}

#[test]
fn the_breadcrumb_steps_from_the_project_to_the_file() {
    assert_eq!(
        cydonia::file::breadcrumb("/r/proj/src/main.rs", "/r/proj"),
        "proj  \u{203a}  src  \u{203a}  main.rs"
    );
    assert_eq!(
        cydonia::file::breadcrumb("/elsewhere/a.txt", "/r/proj"),
        "proj  \u{203a}    \u{203a}  elsewhere  \u{203a}  a.txt"
    );
    assert_eq!(cydonia::file::breadcrumb("/a.txt", "/"), "/  \u{203a}  a.txt");
}
