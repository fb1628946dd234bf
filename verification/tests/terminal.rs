use cydonia::terminal::{
    directory_label, sent_char, shell_program, Closed, Terminal, TerminalPanel, DEFAULT_SHELL,
};

#[test]
fn the_shell_is_the_environments_or_zsh() {
    assert_eq!(shell_program(Some("/bin/fish".to_owned())), "/bin/fish");
    assert_eq!(shell_program(Some(String::new())), "/bin/zsh");
    assert_eq!(shell_program(None), DEFAULT_SHELL);
}

#[test]
fn a_tab_is_labelled_by_its_folder() {
    assert_eq!(directory_label("/home/me/project"), "project");
    assert_eq!(directory_label("/home/me/project/"), "project");
    assert_eq!(directory_label("/"), "/");
}

#[test]
fn option_sends_the_key_itself() {
    assert_eq!(sent_char("a", Some("å"), true, false, false).as_deref(), Some("a"));
    assert_eq!(sent_char("a", Some("Å"), true, false, true).as_deref(), Some("A"));
    assert_eq!(sent_char("a", Some("a"), false, false, false).as_deref(), Some("a"));
    assert_eq!(sent_char("a", Some("x"), true, true, false).as_deref(), Some("x"));
    assert_eq!(sent_char("enter", None, true, false, false), None);
}

#[test]
fn tabs_open_at_the_end_and_come_to_the_front() {
    let mut panel = TerminalPanel::new();
    assert_eq!(panel.ids, vec![1]);
    assert_eq!(panel.add(), 2);
    assert_eq!(panel.add(), 3);
    assert_eq!(panel.ids, vec![1, 2, 3]);
    assert_eq!(panel.active, 3);
}

#[test]
fn cycling_wraps_and_steps_back() {
    let mut panel = TerminalPanel::new();
    panel.add();
    panel.add();
    assert_eq!(panel.cycle(1), Some(1));
    assert_eq!(panel.cycle(-1), Some(3));
    assert_eq!(panel.cycle(5), Some(2));
    assert_eq!(panel.cycle(-5), Some(3));
    let mut lone = TerminalPanel::new();
    assert_eq!(lone.cycle(1), None);
}

#[test]
fn closing_the_front_tab_brings_its_neighbour() {
    let mut panel = TerminalPanel::new();
    panel.add();
    panel.add();
    panel.cycle(-1);
    assert_eq!(panel.active, 2);
    assert!(matches!(panel.close(2), Closed::Left { front: Some(3) }));
    assert_eq!(panel.ids, vec![1, 3]);
    assert!(matches!(panel.close(3), Closed::Left { front: Some(1) }));
    assert!(matches!(panel.close(9), Closed::Missing));
    assert!(matches!(panel.close(1), Closed::Emptied));
}

#[test]
fn closing_another_tab_leaves_the_front() {
    let mut panel = TerminalPanel::new();
    panel.add();
    assert!(matches!(panel.close(1), Closed::Left { front: None }));
    assert_eq!(panel.active, 2);
}

#[test]
fn closing_a_tab_just_opened_gives_back_the_tabs() {
    let mut panel = TerminalPanel::new();
    panel.add();
    let before = panel.ids.clone();
    let id = panel.add();
    panel.close(id);
    assert_eq!(panel.ids, before);
}

#[test]
fn a_terminal_follows_its_shell() {
    let mut t = Terminal::new("/a".to_owned(), Ok(()));
    assert!(t.running && t.status.is_none());
    assert!(!t.moved(Some("/a".to_owned())));
    assert!(t.moved(Some("/b".to_owned())));
    assert_eq!(t.directory, "/b");
    assert!(!t.moved(None));
    assert!(t.sends(&vec![1]));
    assert!(!t.sends(&vec![]));
    t.exited();
    assert!(!t.sends(&vec![1]));
}

#[test]
fn a_terminal_that_did_not_start_says_so() {
    let t = Terminal::new("/a".to_owned(), Err("no pty".to_owned()));
    assert!(!t.running);
    assert_eq!(t.status.as_deref(), Some("Could not start terminal: no pty"));
}
