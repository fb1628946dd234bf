use cydonia::applications::{arrange, picture, tooltip, Application, Menu};
use cydonia::external::Target;

fn app(name: &str, path: &str, kind: &str, icon: &str) -> Application {
    Application {
        name: name.to_owned(),
        path: path.to_owned(),
        kind: kind.to_owned(),
        icon: icon.to_owned(),
        image: None,
    }
}

#[test]
fn the_menu_puts_zed_first_ways_last_and_drops_this_app() {
    let apps = vec![
        app("Default app", "/F.app", "default", ""),
        app("sublime", "/S.app", "", ""),
        app("Cydonia", "/C.app", "", ""),
        app("Atom", "/A.app", "", ""),
        app("Zed", "/Z.app", "", ""),
        app("Terminal", "/T.app", "terminal", ""),
    ];
    let out = arrange(&apps);
    let names: Vec<&str> = out.iter().map(|a| a.name.as_str()).collect();
    assert_eq!(names, vec!["Zed", "Atom", "sublime", "Default app", "Terminal"]);
}

#[test]
fn an_application_listed_twice_is_kept_once() {
    let apps = vec![
        app("Zed", "/Z.app", "", ""),
        app("Code", "/V.app", "", ""),
        app("Zed", "/Z.app", "", ""),
    ];
    let out = arrange(&apps);
    let paths: Vec<&str> = out.iter().map(|a| a.path.as_str()).collect();
    assert_eq!(paths, vec!["/Z.app", "/V.app"]);
}

#[test]
fn names_alike_keep_the_order_they_came_in() {
    let apps = vec![app("Code", "/2.app", "", ""), app("code", "/1.app", "", "")];
    let out = arrange(&apps);
    let paths: Vec<&str> = out.iter().map(|a| a.path.as_str()).collect();
    assert_eq!(paths, vec!["/2.app", "/1.app"]);
}

#[test]
fn icons_are_decoded() {
    let out = arrange(&vec![app("A", "/A.app", "", "aGk="), app("B", "/B.app", "", "!!")]);
    assert_eq!(out[0].image.as_deref(), Some(&b"hi"[..]));
    assert_eq!(out[0].icon, "");
    assert_eq!(out[1].image, None);
    assert_eq!(picture(""), None);
    assert_eq!(picture("aGk="), Some(b"hi".to_vec()));
}

#[test]
fn an_entry_opens_the_way_its_kind_says() {
    assert!(matches!(app("x", "/x", "default", "").target(), Target::Default));
    assert!(matches!(app("x", "/x", "terminal", "").target(), Target::Terminal));
    assert!(matches!(app("x", "/x.app", "", "").target(), Target::Application(p) if p == "/x.app"));
}

#[test]
fn the_button_says_what_it_will_do() {
    assert_eq!(tooltip(true, true), "Opening…");
    assert_eq!(tooltip(false, true), "Open externally (saves edits first)");
    assert_eq!(tooltip(false, false), "Open externally");
}

#[test]
fn the_menu_lists_once_and_toggles_on_click() {
    let mut m = Menu::new();
    assert!(m.start_loading());
    assert!(!m.start_loading());
    assert_eq!(m.listed(Err("no osascript".to_owned())).as_deref(), Some("Could not list applications: no osascript"));
    assert!(!m.start_loading());
    m.press();
    m.click();
    assert!(m.open);
    m.press();
    m.click();
    assert!(!m.open);
    m.press();
    m.click();
    m.close();
    assert!(!m.open);
}
