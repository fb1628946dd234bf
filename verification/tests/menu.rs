use cydonia::menu::{is_same, Menu, Menus};

#[test]
fn menus_compare_by_kind_and_key() {
    assert!(is_same(&Menu::Entry("a".to_string()), &Menu::Entry("a".to_string())));
    assert!(!is_same(&Menu::Entry("a".to_string()), &Menu::Entry("b".to_string())));
    assert!(!is_same(&Menu::Entry("a".to_string()), &Menu::Card("a".to_string())));
    assert!(is_same(&Menu::Add(2), &Menu::Add(2)));
    assert!(!is_same(&Menu::Add(2), &Menu::Project(2)));
    assert!(is_same(&Menu::Header, &Menu::Header));
}

#[test]
fn a_click_opens_a_closed_menu_where_it_was_pressed() {
    let mut menus: Menus<(i32, i32)> = Menus::new();
    menus.press(&Menu::Header);
    menus.toggle_at(Menu::Header, Some((3, 4)));
    assert!(matches!(menus.open, Some(Menu::Header)));
    assert_eq!(menus.point_of(&Menu::Header), Some((3, 4)));
    assert_eq!(menus.point_of(&Menu::Launch), None);
    assert!(!menus.pressed);
}

#[test]
fn a_click_on_the_open_menu_shuts_it() {
    let mut menus: Menus<(i32, i32)> = Menus::new();
    menus.toggle_at(Menu::Lane("todo".to_string()), Some((1, 1)));
    menus.cursor = Some(2);
    menus.press(&Menu::Lane("todo".to_string()));
    assert!(menus.pressed);
    menus.toggle_at(Menu::Lane("todo".to_string()), Some((5, 5)));
    assert!(menus.open.is_none());
    assert_eq!(menus.point, None);
    assert_eq!(menus.cursor, None);
}

#[test]
fn a_click_on_another_trigger_opens_that_one_instead() {
    let mut menus: Menus<(i32, i32)> = Menus::new();
    menus.toggle_at(Menu::Column(0), Some((1, 1)));
    menus.cursor = Some(1);
    menus.press(&Menu::Column(1));
    assert!(!menus.pressed);
    menus.toggle_at(Menu::Column(1), Some((7, 8)));
    assert!(matches!(menus.open, Some(Menu::Column(1))));
    assert_eq!(menus.point, Some((7, 8)));
    assert_eq!(menus.cursor, None);
}

#[test]
fn shutting_clears_the_open_menu() {
    let mut menus: Menus<(i32, i32)> = Menus::new();
    menus.toggle_at(Menu::App, Some((0, 0)));
    menus.cursor = Some(3);
    menus.shut();
    assert!(menus.open.is_none());
    assert_eq!(menus.point, None);
    assert_eq!(menus.cursor, None);
    assert_eq!(menus.point_of(&Menu::App), None);
}
