use cydonia::transcript::sent_time;
use cydonia::chat::{ChatItem, ToolStatus};
use cydonia::transcript::{orb_of, 
    clipped, copied, last_asked, live_run, orb_for, reading_turn, since, title, turns_for_cache,
    verb, work_boxes, work_label, working_word, zone_runs, Pointer, State, ORB_SHAPES, WORKING,
};

fn tool(label: &str) -> ChatItem {
    ChatItem::Tool {
        id: "t".to_owned(),
        label: label.to_owned(),
        status: ToolStatus::Success,
        output: String::new(),
        started: None,
    }
}

fn thought() -> ChatItem {
    ChatItem::Thinking { text: "hm".to_owned() }
}

fn said(text: &str) -> ChatItem {
    ChatItem::Agent(text.to_owned())
}

fn asked(text: &str) -> ChatItem {
    ChatItem::User(text.to_owned())
}

#[test]
fn a_turn_is_cut_into_work_and_answer() {
    let items = vec![asked("q"), tool("a"), thought(), tool("b"), said("x"), tool("c")];
    let runs = zone_runs(&items, 0, 6);
    let got: Vec<(usize, usize, bool, usize)> =
        runs.iter().map(|r| (r.start, r.end, r.work, r.steps)).collect();
    assert_eq!(got, vec![(1, 4, true, 2), (4, 5, false, 0), (5, 6, true, 1)]);
}

#[test]
fn work_is_boxed_by_runs_of_tools() {
    let items = vec![tool("a"), tool("b"), thought(), tool("c")];
    assert_eq!(work_boxes(&items, 0, 4), vec![(0, 2), (2, 3), (3, 4)]);
}

#[test]
fn work_labels_count_steps() {
    assert_eq!(work_label(0), "Thought");
    assert_eq!(work_label(1), "Worked · 1 step");
    assert_eq!(work_label(12), "Worked · 12 steps");
}

#[test]
fn only_the_last_run_in_flight_is_live() {
    assert!(live_run(true, 9, 9));
    assert!(!live_run(true, 8, 9));
    assert!(!live_run(false, 9, 9));
}

#[test]
fn the_cache_keeps_two_turns_either_side() {
    let turns = vec![(0, 2), (2, 5), (5, 6), (6, 9), (9, 10), (10, 14)];
    assert_eq!(turns_for_cache(&turns, 14, (3, 4)), (2, 14));
    assert_eq!(turns_for_cache(&turns, 14, (0, 1)), (0, 6));
    assert_eq!(turns_for_cache(&turns, 14, (2, 3)), (0, 10));
    assert_eq!(turns_for_cache(&vec![], 0, (0, 0)), (0, 0));
}

#[test]
fn the_reading_mark_follows_a_press_until_the_list_moves() {
    assert_eq!(reading_turn(5, 1, Some((3, true))), (3, true));
    assert_eq!(reading_turn(5, 1, Some((3, false))), (1, false));
    assert_eq!(reading_turn(5, 1, Some((7, true))), (1, false));
    assert_eq!(reading_turn(5, 9, None), (4, false));
    assert_eq!(reading_turn(0, 0, None), (0, false));
}

#[test]
fn a_turns_age_reads_in_minutes_from_a_minute() {
    assert_eq!(since(42), "42s");
    assert_eq!(since(187), "3m 7s");
}

#[test]
fn a_title_splits_its_head_from_the_rest() {
    let t = title("  cargo test --all  ");
    assert_eq!(t.name, "cargo");
    assert_eq!(t.rest.as_deref(), Some("test --all"));
    assert_eq!(t.full, None);
    let script = title("echo one\necho two");
    assert_eq!(script.name, "echo");
    assert_eq!(script.rest.as_deref(), Some("one echo two"));
    assert_eq!(script.full.as_deref(), Some("echo one\necho two"));
    let long = "x".repeat(30);
    let t = title(&long);
    assert_eq!(t.name, "x".repeat(24));
    assert_eq!(t.rest.as_deref(), Some("xxxxxx"));
}

#[test]
fn clipped_ellipsizes_past_the_limit() {
    assert_eq!(clipped("one  two\nthree", 50), "one two three");
    assert_eq!(clipped("one two three", 8), "one two…");
    assert_eq!(clipped("abc", 3), "abc");
}

#[test]
fn the_working_word_comes_from_the_last_question() {
    let items = vec![asked("first"), said("a"), asked("second"), tool("x")];
    assert_eq!(last_asked(&items).map(|s| s.as_str()), Some("second"));
    assert_eq!(working_word(&items), verb("second"));
    assert_eq!(verb("second"), verb("second"));
    assert!(WORKING.contains(&verb("anything")));
    assert_eq!(last_asked(&vec![said("a")]), None);
    assert_eq!(working_word(&vec![]), verb(""));
    assert!(orb_for("second") < ORB_SHAPES);
    assert_eq!(orb_for("second"), orb_for("second"));
}

#[test]
fn a_press_holds_the_selection_in_one_item() {
    let mut st: State<(u32, u32)> = State::new();
    st.point(2, Pointer::Down((5, 5)));
    assert!(st.dragging_in(2));
    assert!(!st.dragging_in(1));
    st.point(1, Pointer::Move((9, 9)));
    assert_eq!(st.selection(2), Some(&(5, 5)));
    st.point(2, Pointer::Move((5, 8)));
    assert_eq!(st.selection(2), Some(&(5, 8)));
    assert_eq!(st.selection_perch(false), None);
    st.point(2, Pointer::Up);
    assert_eq!(st.selection_perch(false), Some(2));
    assert_eq!(st.selection_perch(true), None);
    st.point(4, Pointer::Down((0, 0)));
    assert_eq!(st.selection(2), None);
    st.clear_selection();
    assert_eq!(st.selection(4), None);
    assert!(!st.dragging);
}

#[test]
fn a_copy_of_nothing_is_nothing() {
    assert_eq!(copied(String::new()), None);
    assert_eq!(copied("x".to_owned()).as_deref(), Some("x"));
}

#[test]
fn a_time_past_any_clock_is_not_shown() {
    assert_eq!(sent_time(u64::MAX), None);
    let shown = sent_time(1_431_648_000).unwrap();
    assert!(shown.ends_with("AM") || shown.ends_with("PM"));
}

#[test]
fn every_moment_up_to_the_last_reads_as_a_clock() {
    for seconds in [0u64, 59, 1_431_648_000, 253_402_300_799] {
        let shown = sent_time(seconds).unwrap();
        let (hour, rest) = shown.split_once(':').unwrap();
        let hour: u32 = hour.parse().unwrap();
        assert!((1..=12).contains(&hour));
        assert!(!shown.starts_with('0'));
        let (minute, half) = rest.split_once(' ').unwrap();
        assert_eq!(minute.len(), 2);
        assert!(minute.parse::<u32>().unwrap() < 60);
        assert!(half == "AM" || half == "PM");
    }
    assert_eq!(sent_time(9_223_372_036_854_775_808), None);
}

#[test]
fn the_orb_comes_from_where_the_turn_opened() {
    let items = vec![asked("first"), said("a"), asked("second"), tool("x")];
    assert_eq!(orb_of(&items), orb_for("second"));
    assert_eq!(orb_of(&vec![said("hello"), tool("x")]), orb_for("hello"));
    assert_eq!(orb_of(&vec![tool("x")]), orb_for(""));
    assert_eq!(orb_of(&vec![]), orb_for(""));
    assert_eq!(working_word(&vec![said("hello")]), verb(""));
}

#[test]
fn a_fork_names_its_source() {
    assert_eq!(cydonia::transcript::fork_label("Plan the week"), "Forked from Plan the week");
    assert_eq!(cydonia::transcript::fork_label(""), "Forked from session");
}

#[test]
fn only_the_last_turn_runs_and_shows_working_while_bare() {
    assert!(cydonia::transcript::turn_running(true, 2, 3));
    assert!(!cydonia::transcript::turn_running(true, 1, 3));
    assert!(!cydonia::transcript::turn_running(false, 2, 3));
    assert!(cydonia::transcript::working_shown(true, 1));
    assert!(!cydonia::transcript::working_shown(true, 2));
    assert!(!cydonia::transcript::working_shown(false, 0));
}

#[test]
fn the_clock_reads_the_moment_in_its_zone() {
    use_clock();
}

fn use_clock() {
    let at = cydonia::transcript::clock_at;
    assert_eq!(at(0, 0), "12:00 AM");
    assert_eq!(at(13 * 3600 + 7 * 60 + 59, 0), "1:07 PM");
    assert_eq!(at(12 * 3600, 0), "12:00 PM");
    assert_eq!(at(0, -3600), "11:00 PM");
    assert_eq!(at(1_431_648_000, 2 * 3600 + 30 * 60), "2:30 AM");
    assert_eq!(at(9 * 3600 + 5 * 60, 0), "9:05 AM");
}
