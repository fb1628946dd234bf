use cydonia::panel::{
    path, restored_files_width, Chosen, Closing, Content, Cydonia, Front, Panel, FILES_DEFAULT,
    FILES_MAX, FILES_MIN, FILE, MIN_WIDTH,
};

#[test]
fn panels_are_written_in_the_settings_directory() {
    assert_eq!(FILE, "right-panels.json");
    assert_eq!(path(Some("/cfg".to_owned())).as_deref(), Some("/cfg/right-panels.json"));
    assert_eq!(path(Some("/cfg/".to_owned())).as_deref(), Some("/cfg/right-panels.json"));
    assert_eq!(path(None), None);
}

#[test]
fn a_saved_width_is_kept_only_if_it_is_wide_enough() {
    let mut c = Cydonia::new();
    c.restore_panel_layout(Some(320f32.to_bits()));
    assert_eq!(c.changes_width, Some(320f32.to_bits()));
    c.restore_panel_layout(Some(199.5f32.to_bits()));
    assert_eq!(c.changes_width, None);
    c.restore_panel_layout(Some(f32::NAN.to_bits()));
    assert_eq!(c.changes_width, None);
    c.restore_panel_layout(Some(f32::INFINITY.to_bits()));
    assert_eq!(c.changes_width, None);
    c.restore_panel_layout(Some(200f32.to_bits()));
    assert_eq!(c.changes_width, Some(MIN_WIDTH));
    c.restore_panel_layout(None);
    assert_eq!(c.changes_width, None);
}

#[test]
fn a_file_tree_width_is_held_to_its_bounds() {
    assert_eq!(restored_files_width(300f32.to_bits()), 300f32.to_bits());
    assert_eq!(restored_files_width(10f32.to_bits()), FILES_MIN);
    assert_eq!(restored_files_width((-5f32).to_bits()), FILES_MIN);
    assert_eq!(restored_files_width(9000f32.to_bits()), FILES_MAX);
    assert_eq!(restored_files_width(f32::NAN.to_bits()), FILES_DEFAULT);
    assert_eq!(f32::from_bits(FILES_DEFAULT), 220.0);
}

#[test]
fn the_panel_follows_the_session_in_front() {
    let mut c = Cydonia::new();
    c.follow_changes(Some(1), Some(false));
    c.set_changes_open(true, Some(1));
    c.follow_changes(Some(2), Some(false));
    assert!(!c.changes_open);
    c.follow_changes(Some(1), Some(false));
    assert!(c.changes_open);
}

#[test]
fn a_session_not_seen_this_run_comes_back_as_saved() {
    let mut c = Cydonia::new();
    c.follow_changes(Some(7), Some(true));
    assert!(c.changes_open);
    c.follow_changes(None, None);
    assert!(!c.changes_open);
    c.follow_changes(Some(7), Some(false));
    assert!(c.changes_open);
}

#[test]
fn review_is_opened_once_and_then_brought_forward() {
    let mut p = Panel::new("/w".to_owned());
    assert!(matches!(p.review(&vec![]), Front::Opened(0)));
    let t = p.terminal();
    assert_eq!(t, 1);
    assert!(matches!(p.review(&vec![1, 0]), Front::Activate(0)));
    assert_eq!(p.contents.len(), 2);
}

#[test]
fn a_file_is_opened_once() {
    let mut p = Panel::new("/w".to_owned());
    assert!(matches!(p.open_file(&vec![], "/w/a.rs".to_owned()), Front::Opened(0)));
    assert!(p.focus_pending);
    assert!(matches!(p.open_file(&vec![0], "/w/b.rs".to_owned()), Front::Opened(1)));
    assert!(matches!(p.open_file(&vec![0, 1], "/w/a.rs".to_owned()), Front::Activate(0)));
    match p.contents.get(&1) {
        Some(Content::File(path)) => assert_eq!(path, "/w/b.rs"),
        _ => panic!("a file tab"),
    }
}

#[test]
fn a_dirty_file_asks_before_it_closes() {
    let mut p = Panel::new("/w".to_owned());
    p.open_file(&vec![], "/w/a.rs".to_owned());
    assert!(matches!(p.close(0, true), Closing::Ask));
    assert_eq!(p.closing, Some(0));
    assert!(matches!(p.close(0, false), Closing::Remove));
    p.remove(0, false);
    assert_eq!(p.contents.len(), 1);
    p.remove(0, true);
    assert!(p.contents.is_empty());
    assert_eq!(p.closing, None);
}

#[test]
fn the_menu_picks_and_goes_down() {
    let mut p = Panel::new("/w".to_owned());
    p.menu = true;
    assert!(matches!(p.pick(0), Chosen::Review));
    assert!(!p.menu);
    assert!(matches!(p.pick(1), Chosen::Terminal));
    assert!(matches!(p.pick(2), Chosen::Files));
    assert!(matches!(p.pick(3), Chosen::Nothing));
}

#[test]
fn the_file_tree_toggles() {
    let mut p = Panel::new("/w".to_owned());
    assert!(p.toggle_files());
    assert!(!p.toggle_files());
    p.files();
    assert!(p.files_open);
    assert!(!p.cycles(1));
    assert!(p.cycles(2));
}

#[test]
fn a_width_written_down_reads_back() {
    let mut window = cydonia::panel::Cydonia::new();
    assert_eq!(window.width_to_save(), None);
    window.restore_panel_layout(Some(320f32.to_bits()));
    let written = window.width_to_save();
    assert_eq!(written, Some(320f32.to_bits()));
    let mut again = cydonia::panel::Cydonia::new();
    again.restore_panel_layout(written);
    assert_eq!(again.width_to_save(), written);
    again.restore_panel_layout(Some(150f32.to_bits()));
    assert_eq!(again.width_to_save(), None);
}

#[test]
fn removing_a_tab_keeps_the_others() {
    let mut panel = cydonia::panel::Panel::new("/p".to_owned());
    let a = panel.terminal();
    let b = panel.terminal();
    let c = panel.terminal();
    panel.remove(b, true);
    let mut ids: Vec<usize> = panel.contents.keys().copied().collect();
    ids.sort();
    assert_eq!(ids, vec![a, c]);
    panel.remove(a, false);
    assert_eq!(panel.contents.len(), 2);
}

#[test]
fn a_tab_is_named_by_its_last_component() {
    let review = Panel::tab_title(&Content::Review, "/w");
    assert_eq!(review, ("Review".to_owned(), "Review".to_owned()));
    let term = Panel::tab_title(&Content::Terminal, "/home/me/proj");
    assert_eq!(term, ("proj".to_owned(), "/home/me/proj".to_owned()));
    let root = Panel::tab_title(&Content::Terminal, "/");
    assert_eq!(root, ("/".to_owned(), "/".to_owned()));
    let file = Panel::tab_title(&Content::File("/w/src/a.rs".to_owned()), "/w");
    assert_eq!(file, ("a.rs".to_owned(), "/w/src/a.rs".to_owned()));
}

#[test]
fn saved_tabs_open_again_once() {
    let mut p = Panel::new("/w".to_owned());
    p.restore_pending = Some(cydonia::panel::SavedPanel {
        tabs: vec![
            cydonia::panel::SavedTab::Review,
            cydonia::panel::SavedTab::Terminal(Some("/w/sub".to_owned())),
            cydonia::panel::SavedTab::Terminal(None),
            cydonia::panel::SavedTab::File("/w/a.rs".to_owned()),
            cydonia::panel::SavedTab::Review,
        ],
        active: Some(3),
        files_open: true,
        files_width: 1000f32.to_bits(),
    });
    let r = p.restore_tabs(&vec![]).expect("restored");
    assert_eq!(r.steps.len(), 5);
    let ids: Vec<usize> = r.steps.iter().map(|s| s.id).collect();
    assert_eq!(ids, vec![0, 1, 2, 3, 0]);
    assert!(r.steps[0].opened && !r.steps[4].opened);
    assert_eq!(r.steps[1].directory.as_deref(), Some("/w/sub"));
    assert_eq!(r.steps[2].directory.as_deref(), Some("/w"));
    assert_eq!(r.active, Some(3));
    assert!(p.files_open);
    assert_eq!(p.files_width, FILES_MAX);
    assert!(p.restore_pending.is_none());
    assert!(!p.take_focus());
    assert!(p.restore_tabs(&vec![0, 1, 2, 3]).is_none());
}

#[test]
fn the_focus_follows_an_opened_file_once() {
    let mut p = Panel::new("/w".to_owned());
    p.open_file(&vec![], "/w/a.rs".to_owned());
    assert!(p.take_focus());
    assert!(!p.take_focus());
    assert!(matches!(Panel::focus_on(p.contents.get(&0)), cydonia::panel::FocusOn::File));
    assert!(matches!(Panel::focus_on(None), cydonia::panel::FocusOn::Panel));
    assert!(matches!(Panel::focus_on(Some(&Content::Review)), cydonia::panel::FocusOn::Panel));
    assert!(matches!(Panel::focus_on(Some(&Content::Terminal)), cydonia::panel::FocusOn::Terminal));
}
