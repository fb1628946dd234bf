use cydonia::arrangement::{
    front_of, kept_after_close, key_of, pane_of, same_member, seam_id, step_target, stepped, Kind,
    Member, Pane,
};

fn member(id: &str) -> Member {
    Member { project: "p".to_owned(), kind: Kind::Session, id: id.to_owned() }
}

#[test]
fn a_pane_shows_what_was_put_in_front_while_it_is_there() {
    let stack = vec![member("a"), member("b")];
    assert_eq!(front_of(Some(&member("b")), &stack, &member("z")).id, "b");
    assert_eq!(front_of(Some(&member("c")), &stack, &member("z")).id, "a");
    assert_eq!(front_of(None, &vec![], &member("z")).id, "z");
}

#[test]
fn closing_a_tab_leaves_its_neighbour() {
    let stack = vec![member("a"), member("b"), member("c")];
    assert_eq!(kept_after_close(&stack, &member("b")).unwrap().id, "a");
    assert_eq!(kept_after_close(&stack, &member("a")).unwrap().id, "b");
    assert!(kept_after_close(&vec![member("a")], &member("a")).is_none());
    assert!(kept_after_close(&stack, &member("x")).is_none());
}

#[test]
fn the_focus_steps_round_the_panes() {
    assert_eq!(step_target(0, 1, 3), Some(1));
    assert_eq!(step_target(2, 1, 3), Some(0));
    assert_eq!(step_target(0, -1, 3), Some(2));
    assert_eq!(step_target(0, 1, 1), None);
}

#[test]
fn members_and_panes() {
    assert!(same_member(&member("a"), &member("a")));
    let mut other = member("a");
    other.kind = Kind::Board;
    assert!(!same_member(&member("a"), &other));
    assert_eq!(pane_of(Kind::Session), Pane::Chat);
    assert_eq!(pane_of(Kind::Table), Pane::Table);
}

#[test]
fn a_seam_id_folds_its_path() {
    assert_eq!(seam_id(&vec![], 2), 33);
    assert_eq!(seam_id(&vec![1], 0), (31 + 1) * 31);
}

#[test]
fn a_pane_is_keyed_by_what_it_shows() {
    assert_eq!(key_of(&member("s1")), "p::Session::s1");
}

#[test]
fn the_focus_steps_from_the_pane_in_front() {
    let panes = vec![member("a"), member("b"), member("c")];
    assert_eq!(stepped(&panes, Some(&member("b")), 1), Some(2));
    assert_eq!(stepped(&panes, Some(&member("a")), -1), Some(2));
    assert_eq!(stepped(&panes, Some(&member("zz")), 1), Some(1));
    assert_eq!(stepped(&panes, None, 4), Some(1));
    assert_eq!(stepped(&vec![member("a")], None, 1), None);
}
