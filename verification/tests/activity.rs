use cydonia::activity::{elapsed, tail_of, ticking, Activity, QUIET};
use cydonia::chat::{last_question, ChatItem, ChatSession, Connection, ToolStatus};

fn session(items: Vec<ChatItem>) -> ChatSession {
    ChatSession {
        connection: Connection::Connected,
        streaming: false,
        permission: None,
        items,
        turn_started: None,
        last_activity: 1_000,
        resumable: false,
    }
}

fn running(label: &str, started: u64) -> ChatItem {
    ChatItem::Tool {
        id: "1".to_owned(),
        label: label.to_owned(),
        status: ToolStatus::Running,
        output: "out".to_owned(),
        started: Some(started),
    }
}

#[test]
fn an_idle_session_has_no_activity() {
    assert!(Activity::of(&session(vec![])).is_none());
    assert!(!ticking(&None));
}

#[test]
fn a_running_tool_names_the_activity() {
    let mut chat = session(vec![ChatItem::User("go".to_owned()), running("cargo\nbuild", 500)]);
    chat.streaming = true;
    chat.turn_started = Some(100);
    let a = Activity::of(&chat).unwrap();
    assert_eq!(a.label, "Running cargo build");
    assert_eq!(a.since, 500);
    assert_eq!(a.tools, vec![("cargo\nbuild".to_owned(), "out".to_owned())]);
    assert!(ticking(&Some(a)));
}

#[test]
fn several_tools_are_counted() {
    let mut chat = session(vec![
        ChatItem::User("go".to_owned()),
        running("a", 700),
        running("b", 600),
    ]);
    chat.streaming = true;
    let a = Activity::of(&chat).unwrap();
    assert_eq!(a.label, "Running 2 tools");
    assert_eq!(a.since, 600);
}

#[test]
fn a_lost_connection_outranks_the_rest() {
    let mut chat = session(vec![]);
    chat.connection = Connection::Lost;
    chat.permission = Some("write?".to_owned());
    chat.resumable = true;
    let a = Activity::of(&chat).unwrap();
    assert_eq!(a.label, "Connection lost");
    assert!(a.disconnected && a.reconnectable);
    let row = a.row(5_000, true);
    assert!(row.alert && row.reconnect && !row.details);
    assert_eq!(row.timing, None);
}

#[test]
fn a_request_and_a_connect_have_their_own_labels() {
    let mut chat = session(vec![]);
    chat.permission = Some("write?".to_owned());
    assert_eq!(Activity::of(&chat).unwrap().label, "Needs your approval");
    let mut chat = session(vec![]);
    chat.connection = Connection::Connecting;
    assert_eq!(Activity::of(&chat).unwrap().label, "Connecting…");
    let mut chat = session(vec![]);
    chat.streaming = true;
    assert_eq!(Activity::of(&chat).unwrap().label, "Working…");
}

#[test]
fn a_quiet_agent_is_waited_on() {
    let mut chat = session(vec![]);
    chat.streaming = true;
    chat.turn_started = Some(0);
    chat.last_activity = 0;
    let a = Activity::of(&chat).unwrap();
    let row = a.row(QUIET + 65_000, false);
    assert_eq!(row.label, "Waiting for an update…");
    assert_eq!(row.timing.as_deref(), Some("1m 35s · last activity 1m 35s ago"));
    let row = a.row(5_000, false);
    assert_eq!(row.label, "Working…");
    assert_eq!(row.timing.as_deref(), Some("5s"));
}

#[test]
fn elapsed_pads_seconds_after_a_minute() {
    assert_eq!(elapsed(42), "42s");
    assert_eq!(elapsed(187), "3m 07s");
    assert_eq!(elapsed(600), "10m 00s");
}

#[test]
fn the_tail_is_the_last_characters() {
    assert_eq!(tail_of(&"héllo".to_owned(), 3), "llo");
    assert_eq!(tail_of(&"hi".to_owned(), 3), "hi");
}

#[test]
fn the_last_question_opens_the_turn() {
    let items = vec![
        ChatItem::User("a".to_owned()),
        ChatItem::Agent("b".to_owned()),
        ChatItem::User("c".to_owned()),
        ChatItem::Agent("d".to_owned()),
    ];
    assert_eq!(last_question(&items), 2);
    assert_eq!(last_question(&vec![]), 0);
}
