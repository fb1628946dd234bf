use cydonia::changes::{
    clipped_range, file_label, fold_hunk, message, number_digits, reselect, segments, sync,
    toggled, visual_rows, Changes, FileKey, PanelChange, Span,
};

fn span(start: usize, end: usize) -> Span {
    Span { start, end }
}

#[test]
fn clipped_range_rebases_to_the_row() {
    let r = clipped_range(&span(2, 10), &span(5, 8)).unwrap();
    assert_eq!((r.start, r.end), (0, 3));
    let r = clipped_range(&span(6, 7), &span(5, 8)).unwrap();
    assert_eq!((r.start, r.end), (1, 2));
    assert!(clipped_range(&span(0, 5), &span(5, 8)).is_none());
    assert!(clipped_range(&span(9, 12), &span(5, 8)).is_none());
}

#[test]
fn segments_run_between_wraps() {
    let rows = segments(&vec![4, 9], 12);
    let got: Vec<(usize, usize)> = rows.iter().map(|s| (s.start, s.end)).collect();
    assert_eq!(got, vec![(0, 4), (4, 9), (9, 12)]);
    let whole = segments(&vec![], 7);
    assert_eq!((whole[0].start, whole[0].end), (0, 7));
}

#[test]
fn number_digits_is_at_least_two() {
    assert_eq!(number_digits(&vec![]), 2);
    assert_eq!(number_digits(&vec![3, 9]), 2);
    assert_eq!(number_digits(&vec![120, 7]), 3);
    assert_eq!(number_digits(&vec![5, 10000]), 5);
}

#[test]
fn visual_rows_flatten_in_order() {
    let wrapped = vec![vec![span(0, 3)], vec![span(0, 2), span(2, 5)], vec![span(0, 1)]];
    let out = visual_rows(&vec![2, 1], &wrapped);
    let got: Vec<(usize, usize, usize)> = out.iter().map(|(i, s)| (*i, s.start, s.end)).collect();
    assert_eq!(got, vec![(2, 0, 1), (1, 0, 2), (1, 2, 5)]);
}

#[test]
fn message_says_what_stands_in_for_the_list() {
    assert_eq!(message(Some("bad"), true, true, 3).as_deref(), Some("bad"));
    assert_eq!(message(None, false, false, 0).as_deref(), Some("Loading Git changes…"));
    assert_eq!(
        message(None, true, false, 0).as_deref(),
        Some("This directory is not in a Git repository.")
    );
    assert_eq!(message(None, true, true, 0).as_deref(), Some("Working tree clean"));
    assert_eq!(message(None, true, true, 2), None);
}

#[test]
fn file_label_shows_a_move() {
    assert_eq!(file_label("b.rs", None), "b.rs");
    assert_eq!(file_label("b.rs", Some("a.rs")), "a.rs → b.rs");
}

#[test]
fn sync_opens_keeps_and_closes() {
    assert!(matches!(sync(true, true, Some("/p"), Some("/p")), PanelChange::Keep));
    match sync(true, true, Some("/p"), Some("/q")) {
        PanelChange::Open(d) => assert_eq!(d, "/p"),
        _ => panic!("expected a new panel"),
    }
    match sync(true, true, Some("/p"), None) {
        PanelChange::Open(d) => assert_eq!(d, "/p"),
        _ => panic!("expected a new panel"),
    }
    assert!(matches!(sync(false, true, Some("/p"), Some("/p")), PanelChange::Close));
    assert!(matches!(sync(true, false, Some("/p"), None), PanelChange::Close));
    assert!(matches!(sync(true, true, None, Some("/p")), PanelChange::Close));
}

#[test]
fn the_changes_toggle_turns_only_over_a_chat() {
    assert!(toggled(false, true));
    assert!(!toggled(true, true));
    assert!(toggled(true, false));
}

#[test]
fn folding_a_hunk_twice_opens_it_again() {
    let mut folded: Vec<String> = vec!["@@ -1 +1 @@".to_owned()];
    fold_hunk(&mut folded, "@@ -5 +5 @@");
    assert_eq!(folded.len(), 2);
    fold_hunk(&mut folded, "@@ -5 +5 @@");
    assert_eq!(folded, vec!["@@ -1 +1 @@".to_owned()]);
}

fn key(path: &str, area: &str) -> FileKey {
    FileKey { path: path.to_owned(), area: area.to_owned() }
}

#[test]
fn reselect_keeps_the_file_shown() {
    let files = vec![key("a", "Staged"), key("b", "Unstaged"), key("b", "Staged")];
    assert_eq!(reselect(&files, Some(&key("b", "Staged"))), Some(2));
    assert_eq!(reselect(&files, Some(&key("c", "Staged"))), Some(0));
    assert_eq!(reselect(&files, None), Some(0));
    assert_eq!(reselect(&vec![], Some(&key("a", "Staged"))), None);
}

#[test]
fn the_panel_reads_one_status_at_a_time() {
    let mut panel = Changes::new("/repo".to_owned());
    assert!(panel.loading);
    assert!(!panel.poll());
    panel.loaded(Ok((true, 2, false)));
    assert!(panel.ready && !panel.loading);
    assert_eq!(panel.notice(), None);
    assert!(panel.poll());
    panel.refresh();
    assert!(panel.loading);
    panel.loaded(Err("git failed".to_owned()));
    assert_eq!(panel.notice().as_deref(), Some("git failed"));
    assert_eq!(panel.count, 0);
}

#[test]
fn another_file_drops_the_folds() {
    let mut panel = Changes::new("/repo".to_owned());
    fold_hunk(&mut panel.collapsed, "@@");
    panel.loaded(Ok((true, 1, false)));
    assert_eq!(panel.collapsed.len(), 1);
    panel.loaded(Ok((true, 1, true)));
    assert!(panel.collapsed.is_empty());
}

#[test]
fn clicking_another_file_drops_the_folds_and_reads_again() {
    let mut panel = Changes::new("/repo".to_owned());
    panel.loaded(Ok((true, 2, false)));
    fold_hunk(&mut panel.collapsed, "@@ -1 +1 @@");
    panel.select(false);
    assert_eq!(panel.collapsed.len(), 1);
    assert!(!panel.loading);
    panel.select(true);
    assert!(panel.collapsed.is_empty());
    assert!(panel.loading);
}
