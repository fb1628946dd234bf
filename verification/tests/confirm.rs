use cydonia::confirm::{ask, ask_card, goes_with, title, Doomed, UNDONE};

#[test]
fn a_session_names_its_record() {
    let (goes, note) = goes_with(&Doomed::Session { record: Some("abc".to_owned()) }, "data.db");
    assert_eq!(goes.as_deref(), Some(".cydonia/sessions/abc.json"));
    assert_eq!(note, UNDONE);
}

#[test]
fn a_session_without_a_turn_has_nothing_on_disk() {
    let (goes, note) = goes_with(&Doomed::Session { record: None }, "data.db");
    assert_eq!(goes, None);
    assert_eq!(
        note,
        "It has had no turn, so nothing on disk goes with it. This cannot be undone."
    );
}

#[test]
fn boards_articles_and_tables_point_at_their_files() {
    let (goes, _) = goes_with(&Doomed::Board { id: Some("b1".to_owned()) }, "d");
    assert_eq!(goes.as_deref(), Some(".cydonia/boards/b1.toml"));
    let (goes, _) = goes_with(&Doomed::Article { folder: Some("notes".to_owned()) }, "d");
    assert_eq!(goes.as_deref(), Some(".cydonia/articles/notes/"));
    let (goes, note) = goes_with(&Doomed::Table { rows: Some(12) }, "data.db");
    assert_eq!(goes.as_deref(), Some(".cydonia/data.db"));
    assert_eq!(note, "Its 12 rows are dropped; the database stays. This cannot be undone.");
    let (_, note) = goes_with(&Doomed::Table { rows: None }, "data.db");
    assert_eq!(note, "Its 0 rows are dropped; the database stays. This cannot be undone.");
    let (goes, note) = goes_with(&Doomed::Other, "d");
    assert_eq!(goes, None);
    assert_eq!(note, "This cannot be undone.");
}

#[test]
fn the_question_is_asked_by_name() {
    let c = ask("Plans".to_owned(), &Doomed::Board { id: None }, "d");
    assert_eq!(c.label, "Plans");
    assert_eq!(c.goes, None);
    let card = ask_card("Fix it".to_owned());
    assert_eq!(card.note, UNDONE);
    assert_eq!(title("Plans"), "Delete Plans?");
}
