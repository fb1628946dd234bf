use cydonia::board::{
    aimed_at, card_matches, card_spin, commit_write, deletable, drop_move, edit_alive, first_line,
    folded, follows_lane, lane_cards, lane_steps, resting, tally, BoardWrite, CardRef, Editing,
    Landing, Move, Place, Spin, Status,
};

#[test]
fn filing_the_field_writes_the_card() {
    assert!(matches!(commit_write(Editing::New(Place::Top, "c1".to_owned()), "  hi "),
        BoardWrite::Prepend { column, text } if column == "c1" && text == "hi"));
    assert!(matches!(commit_write(Editing::New(Place::End, "c1".to_owned()), "hi"),
        BoardWrite::Add { text, .. } if text == "hi"));
    assert!(matches!(commit_write(Editing::New(Place::End, "c1".to_owned()), "   "), BoardWrite::Nothing));
    assert!(matches!(commit_write(Editing::Card("k".to_owned()), ""), BoardWrite::Remove { card } if card == "k"));
    assert!(matches!(commit_write(Editing::Card("k".to_owned()), "new"),
        BoardWrite::Rewrite { card, text } if card == "k" && text == "new"));
}

#[test]
fn an_edit_lives_while_its_target_does() {
    assert!(edit_alive(&Editing::New(Place::Top, "c".to_owned()), true, false));
    assert!(!edit_alive(&Editing::Card("k".to_owned()), true, false));
    assert!(follows_lane(&Editing::New(Place::End, "c".to_owned())));
    assert!(!follows_lane(&Editing::New(Place::Top, "c".to_owned())));
}

#[test]
fn a_drop_lands_where_it_was_aimed() {
    let aim = Some(Landing { column: "todo".to_owned(), before: Some("k2".to_owned()) });
    match drop_move("k1".to_owned(), (0, 0), (0, 0), "todo", aim.clone()) {
        Move::Within { before, .. } => assert_eq!(before.as_deref(), Some("k2")),
        Move::Carry { .. } => panic!("same board"),
    }
    match drop_move("k1".to_owned(), (0, 0), (0, 0), "done", aim.clone()) {
        Move::Within { before, column, .. } => {
            assert_eq!(before, None);
            assert_eq!(column, "done");
        }
        Move::Carry { .. } => panic!("same board"),
    }
    assert!(matches!(drop_move("k1".to_owned(), (0, 0), (1, 0), "todo", aim), Move::Carry { .. }));
    assert!(aimed_at(true, &Some(Landing { column: "todo".to_owned(), before: None }), "todo"));
    assert!(!aimed_at(false, &Some(Landing { column: "todo".to_owned(), before: None }), "todo"));
}

#[test]
fn the_find_field_matches_text_and_handle() {
    assert!(card_matches("Fix the Login", None, " login "));
    assert!(card_matches("x", Some("BUG-7"), "bug"));
    assert!(!card_matches("x", None, "y"));
    assert!(card_matches("x", None, "  "));
    let cards = vec![
        CardRef { id: "1", text: "alpha", handle: None },
        CardRef { id: "2", text: "beta", handle: Some("ALPHA-2") },
        CardRef { id: "3", text: "gamma", handle: None },
    ];
    assert_eq!(lane_cards(&cards, "alpha"), vec!["1".to_owned(), "2".to_owned()]);
}

#[test]
fn a_lane_counts_and_folds() {
    assert_eq!(tally(12, 12), "12");
    assert_eq!(tally(12, 3), "3/12");
    assert!(folded(true, "", false));
    assert!(!folded(true, "x", false));
    assert!(!folded(true, "", true));
    assert_eq!(lane_steps(0, 3), (false, true));
    assert_eq!(lane_steps(2, 3), (true, false));
    assert!(deletable(0));
    assert!(!deletable(1));
}

#[test]
fn only_resting_statuses_get_a_chip_and_busy_spins() {
    assert_eq!(resting(Some(Status::Busy)), None);
    assert_eq!(resting(Some(Status::Done)), Some(Status::Done));
    assert_eq!(card_spin(true, None), Spin::Session);
    assert_eq!(card_spin(false, Some(Status::Busy)), Spin::Tagged);
    assert_eq!(card_spin(false, Some(Status::Blocked)), Spin::Still);
}

#[test]
fn a_card_shows_its_first_line_with_words() {
    assert_eq!(first_line("\n  \n  title here \nmore"), "title here");
    assert_eq!(first_line(""), "");
}

#[test]
fn a_card_lands_by_the_half_the_pointer_is_in() {
    let upper = cydonia::board::landing_over("todo", "c2", Some("c3"), true);
    assert_eq!(upper.column, "todo");
    assert_eq!(upper.before.as_deref(), Some("c2"));
    let lower = cydonia::board::landing_over("todo", "c2", Some("c3"), false);
    assert_eq!(lower.before.as_deref(), Some("c3"));
    let last = cydonia::board::landing_over("todo", "c9", None, false);
    assert_eq!(last.before, None);
}

#[test]
fn a_card_offers_its_session_or_a_run() {
    use_offers();
}

fn use_offers() {
    assert_eq!(cydonia::board::card_offers(true, Some(4), None), (Some(4), false));
    assert_eq!(cydonia::board::card_offers(true, None, None), (None, true));
    assert_eq!(
        cydonia::board::card_offers(true, None, Some(cydonia::board::Status::Busy)),
        (None, false)
    );
    assert_eq!(cydonia::board::card_offers(false, Some(4), None), (None, false));
}
