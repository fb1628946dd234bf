use cydonia::activity::Activity;
use cydonia::composer::menu_items;
use cydonia::switches::{Switch, SwitchId, SwitchOption};
use cydonia::composer::dimensions;
use cydonia::composer::{quoted, Composer, Picked};

fn typed(text: &str) -> Composer<u8> {
    let mut c: Composer<u8> = Composer::new();
    c.content = text.to_owned();
    c.caret = text.chars().count();
    c
}

#[test]
fn a_new_composer_is_empty_and_writes_nowhere() {
    let c: Composer<u8> = Composer::new();
    assert!(c.is_empty());
    assert_eq!(c.session(), None);
}

#[test]
fn whitespace_alone_is_empty() {
    assert!(typed("  \n ").is_empty());
    assert!(!typed("hi").is_empty());
    let mut c = typed("");
    c.attachments.push(1);
    assert!(!c.is_empty());
}

#[test]
fn a_quote_goes_above_the_message_marked() {
    assert_eq!(quoted(None, "hello"), "hello");
    assert_eq!(quoted(Some("one\n\ntwo".to_owned()), "hello"), "> one\n>\n> two\n\nhello");
}

#[test]
fn submitting_sends_and_empties() {
    let mut c = typed("hello");
    c.quote(" earlier words ");
    c.attachments.push(7);
    let (text, pictures) = c.submit(None).unwrap();
    assert_eq!(text, "> earlier words\n\nhello");
    assert_eq!(pictures, vec![7]);
    assert!(c.content.is_empty());
    assert!(c.quote.is_none());
    assert!(c.attachments.is_empty());
}

#[test]
fn nothing_to_send_sends_nothing() {
    let mut c = typed("   ");
    assert!(c.submit(None).is_none());
    assert_eq!(c.content, "   ");
}

#[test]
fn a_blank_quote_is_no_quote() {
    let mut c = typed("x");
    c.quote("  ");
    assert!(c.quote.is_none());
}

#[test]
fn a_slash_opens_the_command_picker() {
    let mut c = typed("/mod");
    c.has_commands = true;
    c.reread();
    assert_eq!(c.command, Some(0));
    assert_eq!(c.command_query().as_deref(), Some("mod"));
    let mut spaced = typed("/mod rest");
    spaced.has_commands = true;
    spaced.reread();
    assert_eq!(spaced.command, None);
    let mut none = typed("/mod");
    none.reread();
    assert_eq!(none.command, None);
}

#[test]
fn a_picked_command_replaces_the_word() {
    let mut c = typed("/mo tail");
    c.caret = 3;
    c.accept("/model");
    assert_eq!(c.content, "/model  tail");
    assert_eq!(c.command, None);
}

#[test]
fn enter_on_a_lit_command_picks_rather_than_sends() {
    let mut c = typed("/mod");
    c.has_commands = true;
    c.reread();
    assert!(c.submit(Some("/model")).is_none());
    assert_eq!(c.command, None);
}

#[test]
fn a_queued_prompt_comes_back_above_the_draft() {
    let mut c = typed("draft");
    c.attachments.push(2);
    c.restore_queued("queued", vec![1]);
    assert_eq!(c.content, "queued\n\ndraft");
    assert_eq!(c.attachments, vec![1, 2]);
    let mut empty = typed("");
    empty.restore_queued("queued", vec![]);
    assert_eq!(empty.content, "queued");
}

#[test]
fn each_session_keeps_its_own_attachments_and_quote() {
    let mut c: Composer<u8> = Composer::new();
    c.set_session(Some(1), "");
    c.attachments.push(9);
    c.quote("said before");
    c.set_session(Some(2), "two's draft");
    assert_eq!(c.content, "two's draft");
    assert!(c.attachments.is_empty());
    assert!(c.quote.is_none());
    c.set_session(Some(1), "one's draft");
    assert_eq!(c.attachments, vec![9]);
    assert_eq!(c.quote.as_deref(), Some("said before"));
}

#[test]
fn the_window_draft_survives_a_session() {
    let mut c = typed("no session yet");
    c.set_session(Some(3), "");
    assert_eq!(c.content, "");
    c.set_session(None, "");
    assert_eq!(c.content, "no session yet");
}

#[test]
fn escape_closes_the_innermost_thing_first() {
    let mut c = typed("x");
    c.preview = Some(0);
    c.tools_menu = true;
    assert!(!c.dismiss());
    assert!(c.preview.is_none() && c.tools_menu);
    assert!(!c.dismiss());
    assert!(!c.tools_menu);
    c.menu = true;
    assert!(!c.dismiss());
    assert!(!c.menu);
    assert!(c.dismiss());
    c.command = Some(0);
    assert!(!c.dismiss());
    assert_eq!(c.command, None);
}

#[test]
fn closing_the_menu_closes_its_parts() {
    let mut c = typed("");
    c.menu = true;
    c.submenu = true;
    c.picking = Some(1);
    c.close_menu();
    assert!(!c.menu && !c.submenu && c.picking.is_none());
}

fn crc32(bytes: &[u8]) -> u32 {
    let mut crc = 0xffff_ffffu32;
    for &b in bytes {
        crc ^= b as u32;
        for _ in 0..8 {
            crc = if crc & 1 == 1 { (crc >> 1) ^ 0xedb8_8320 } else { crc >> 1 };
        }
    }
    !crc
}

#[test]
fn a_picture_is_measured_from_its_header() {
    let mut png = vec![0x89, b'P', b'N', b'G', 0x0d, 0x0a, 0x1a, 0x0a];
    png.extend_from_slice(&[0, 0, 0, 13]);
    let mut chunk = b"IHDR".to_vec();
    chunk.extend_from_slice(&3u32.to_be_bytes());
    chunk.extend_from_slice(&2u32.to_be_bytes());
    chunk.extend_from_slice(&[8, 6, 0, 0, 0]);
    png.extend_from_slice(&chunk);
    png.extend_from_slice(&crc32(&chunk).to_be_bytes());
    png.extend_from_slice(&[0, 0, 0, 0]);
    png.extend_from_slice(b"IDAT");
    png.extend_from_slice(&crc32(b"IDAT").to_be_bytes());
    assert_eq!(dimensions(&png), Some((3, 2)));
    assert_eq!(dimensions(&b"not a picture".to_vec()), None);
}

#[test]
fn setters_report_a_change() {
    let mut c: Composer<u8> = Composer::new();
    assert!(c.set_tools(false));
    assert!(!c.set_tools(false));
    assert!(c.set_streaming(true));
    assert!(!c.set_streaming(true));
    assert!(c.set_usage(Some((10, 100))));
    assert!(!c.set_usage(Some((10, 100))));
    assert!(c.set_usage(None));
    c.set_placeholder("message Ada…");
    assert_eq!(c.placeholder, "message Ada…");
}

#[test]
fn new_commands_close_the_picker() {
    let mut c = typed("/mo");
    assert!(c.set_commands(&vec!["model".to_owned(), "help".to_owned()]));
    assert_eq!(c.commands, vec!["/model".to_owned(), "/help".to_owned()]);
    c.reread();
    assert_eq!(c.command, Some(0));
    assert!(!c.set_commands(&vec!["model".to_owned(), "help".to_owned()]));
    assert_eq!(c.command, Some(0));
    assert!(c.set_commands(&vec![]));
    assert_eq!(c.command, None);
    assert!(!c.has_commands);
}

#[test]
fn new_agents_close_the_menu() {
    let mut c: Composer<u8> = Composer::new();
    c.menu = true;
    assert!(!c.set_agents(vec![], None));
    assert!(c.menu);
    assert!(c.set_agents(vec!["Ada".to_owned()], Some(0)));
    assert!(!c.menu);
    assert_eq!(c.agent, Some(0));
}

#[test]
fn switches_are_taken_in_and_listed() {
    use_switches();
}

fn use_switches() {
    let sw = vec![Switch {
        id: SwitchId::Config("model".to_owned()),
        name: "Model".to_owned(),
        current: Some("b".to_owned()),
        options: vec![
            SwitchOption { id: "a".to_owned(), name: "Alpha".to_owned() },
            SwitchOption { id: "b".to_owned(), name: "Beta".to_owned() },
        ],
    }];
    let mut c: Composer<u8> = Composer::new();
    assert!(c.set_switches(sw.clone()));
    assert!(!c.set_switches(sw.clone()));
    let rows = menu_items(&c.switches);
    assert_eq!(rows.len(), 1);
    assert_eq!(rows[0].label, "Model: Beta");
    assert!(!rows[0].list);
    assert_eq!(rows[0].options, vec![("Alpha".to_owned(), false), ("Beta".to_owned(), true)]);
}

#[test]
fn the_activity_clock_ticks_while_something_runs() {
    use_activity();
}

fn use_activity() {
    let running = Activity {
        label: "Working…".to_owned(),
        since: 0,
        last_event: 0,
        tools: vec![],
        permission: None,
        disconnected: false,
        reconnectable: false,
    };
    let mut c: Composer<u8> = Composer::new();
    c.activity_open = true;
    assert!(c.set_activity(Some(running.clone())));
    assert!(c.ticking);
    assert!(!c.set_activity(Some(running.clone())));
    let mut lost = running.clone();
    lost.disconnected = true;
    assert!(c.set_activity(Some(lost)));
    assert!(!c.ticking);
    assert!(c.activity_open);
    assert!(c.set_activity(None));
    assert!(!c.activity_open);
}

fn model_switch() -> Switch {
    Switch {
        id: SwitchId::Config("model".to_owned()),
        name: "Model".to_owned(),
        current: Some("b".to_owned()),
        options: vec![
            SwitchOption { id: "a".to_owned(), name: "Alpha".to_owned() },
            SwitchOption { id: "b".to_owned(), name: "Beta".to_owned() },
        ],
    }
}

#[test]
fn choosing_an_option_sets_the_switch_and_shuts_the_menu() {
    let mut c: Composer<u8> = Composer::new();
    c.switches = vec![model_switch()];
    c.menu = true;
    c.submenu = true;
    match c.pick_row(&vec![0, 0]) {
        Picked::Setting(SwitchId::Config(id), option) => {
            assert_eq!(id, "model");
            assert_eq!(option, "a");
        }
        _ => panic!("expected a setting"),
    }
    assert!(!c.menu && !c.submenu && c.picking.is_none());
    c.menu = true;
    assert!(matches!(c.pick_row(&vec![0, 5]), Picked::Nothing));
    assert!(!c.menu);
}

#[test]
fn choosing_a_long_switch_opens_its_list_at_its_value() {
    let mut c: Composer<u8> = Composer::new();
    c.switches = vec![model_switch()];
    c.menu = true;
    match c.pick_row(&vec![0]) {
        Picked::List { row, at } => {
            assert_eq!(row, 0);
            assert_eq!(at, Some(1));
        }
        _ => panic!("expected a list"),
    }
    assert!(!c.menu);
    assert_eq!(c.picking, Some(0));
    c.menu = true;
    assert!(matches!(c.pick_row(&vec![]), Picked::Nothing));
    assert!(c.menu);
}
