use cydonia::detail::{
    adrift, adrift_line, agent_missing, agent_position, placeholder_for, plan_shown, shown_path,
    take_queued, PlanStatus,
};

#[test]
fn a_missing_agent_is_named() {
    assert_eq!(agent_missing(Some("Ada")), "Ada is not installed");
    assert_eq!(agent_missing(None), "No agent installed");
}

#[test]
fn what_is_left_to_do_depends_on_the_other_agents() {
    assert_eq!(
        adrift(Some("Ada"), true),
        "Open a session on an agent that is, or install this one again."
    );
    assert_eq!(adrift(Some("Ada"), false), "No other agent is installed either.");
    assert_eq!(adrift(None, true), "Install one to open a session here.");
}

#[test]
fn the_strip_line_says_it_in_one_go() {
    assert_eq!(
        adrift_line("Codex", true),
        "Codex is not installed — open a session on an agent that is, or install it again in Settings › Agents."
    );
}

#[test]
fn home_is_shown_as_a_tilde() {
    assert_eq!(shown_path("/home/me/src/app", Some("/home/me")), "~/src/app");
    assert_eq!(shown_path("/srv/app", Some("/home/me")), "/srv/app");
    assert_eq!(shown_path("/srv/app", None), "/srv/app");
}

#[test]
fn a_queued_prompt_is_taken_only_while_it_is_still_there() {
    let mut queue = vec!["a".to_owned(), "b".to_owned()];
    assert_eq!(take_queued(&mut queue, true, 1, "b").as_deref(), Some("b"));
    assert_eq!(queue, vec!["a".to_owned()]);
    assert_eq!(take_queued(&mut queue, true, 0, "x"), None);
    assert_eq!(take_queued(&mut queue, false, 0, "a"), None);
    assert_eq!(take_queued(&mut queue, true, 3, "a"), None);
    assert_eq!(queue, vec!["a".to_owned()]);
}

#[test]
fn the_placeholder_names_the_agent() {
    assert_eq!(placeholder_for(Some("Ada")), "message Ada…");
    assert_eq!(placeholder_for(None), "message the agent…");
}

#[test]
fn the_agent_in_use_is_found_by_name() {
    let agents = vec!["Ada".to_owned(), "Bo".to_owned(), "Bo".to_owned()];
    assert_eq!(agent_position(&agents, Some("Bo")), Some(1));
    assert_eq!(agent_position(&agents, Some("Cy")), None);
    assert_eq!(agent_position(&agents, None), None);
}

#[test]
fn the_plan_shows_while_a_step_is_left() {
    assert!(!plan_shown(&vec![]));
    assert!(!plan_shown(&vec![PlanStatus::Done, PlanStatus::Done]));
    assert!(plan_shown(&vec![PlanStatus::Done, PlanStatus::Active]));
    assert!(plan_shown(&vec![PlanStatus::Pending]));
}
