use cydonia::external::{open, output, show, waits_for_exit, Arg, CommandLine, Desktop, Target};

fn args(c: &CommandLine) -> Vec<String> {
    c.args
        .iter()
        .map(|a| match a {
            Arg::Plain(s) => s.clone(),
            Arg::Raw(s) => format!("raw:{s}"),
        })
        .collect()
}

#[test]
fn macos_opens_through_open() {
    let c = open("/w/a.rs", &Target::Application("/Applications/Zed.app".to_owned()), Desktop::MacOs);
    assert_eq!(c.program, "/usr/bin/open");
    assert_eq!(args(&c), vec!["-a", "/Applications/Zed.app", "--", "/w/a.rs"]);
    let t = open("/w/a.rs", &Target::Terminal, Desktop::MacOs);
    assert_eq!(args(&t), vec!["-a", "Terminal", "--", "/w"]);
    let f = open("/w/a.rs", &Target::Folder, Desktop::MacOs);
    assert_eq!(args(&f), vec!["-R", "--", "/w/a.rs"]);
    assert!(!f.no_window);
}

#[test]
fn windows_selects_in_explorer_without_a_console() {
    let c = open("C:/w/a.rs", &Target::Folder, Desktop::Windows);
    assert_eq!(c.program, "explorer.exe");
    assert_eq!(args(&c), vec!["raw:/select,\"C:/w/a.rs\""]);
    assert!(c.no_window);
    assert!(!waits_for_exit(Desktop::Windows));
}

#[test]
fn elsewhere_the_desktop_opens_it() {
    let c = open("/w/a.rs", &Target::Default, Desktop::Other);
    assert_eq!(c.program, "xdg-open");
    assert_eq!(args(&c), vec!["/w/a.rs"]);
    let t = open("/w/a.rs", &Target::Terminal, Desktop::Other);
    assert_eq!(args(&t), vec!["/w"]);
    assert!(waits_for_exit(Desktop::Other));
}

#[test]
fn show_opens_a_folder_and_selects_a_file() {
    let d = show("/w/src", true, Desktop::Other);
    assert_eq!(args(&d), vec!["/w/src"]);
    let f = show("/w/a.rs", false, Desktop::MacOs);
    assert_eq!(args(&f), vec!["-R", "--", "/w/a.rs"]);
}

#[test]
fn output_keeps_what_was_printed_or_the_complaint() {
    assert_eq!(output(true, b"done\n\n".to_vec(), vec![]).unwrap(), "done");
    assert_eq!(output(false, vec![], b"  broke \n".to_vec()).unwrap_err(), "broke");
    assert!(output(true, vec![0xff, 0xfe], vec![]).is_err());
    assert_eq!(output(false, vec![], vec![b'x', 0xff]).unwrap_err(), "x\u{fffd}");
}
