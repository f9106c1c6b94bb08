use find_project::error::{ExternalToolError, NameResolutionError, Tool, ToolFailure};
use find_project::project::Project;
use find_project::reconcile::{
    check_run, decide, reconcile, switch_to_project_in_tmux, ReconciliationAction,
};
use find_project::session::SessionFacts;

fn facts(inside: bool, live: &[&str]) -> SessionFacts {
    SessionFacts::new(inside, live.iter().map(|n| n.to_string()).collect())
}

fn runs(lists: &[&[&str]]) -> Vec<Vec<String>> {
    lists.iter().map(|args| args.iter().map(|a| a.to_string()).collect()).collect()
}

fn foo() -> Project {
    Project::new("/x/foo".to_string())
}

#[test]
fn outside_a_session_without_the_target_one_new_session_takes_over_the_terminal() {
    let plan = switch_to_project_in_tmux(&foo(), &facts(false, &[])).unwrap();
    assert_eq!(plan, runs(&[&["new-session", "-c", "/x/foo", "-s", "foo"]]));
}

#[test]
fn inside_a_session_without_the_target_a_detached_session_is_created_then_switched_to() {
    let plan = switch_to_project_in_tmux(&foo(), &facts(true, &[])).unwrap();
    assert_eq!(
        plan,
        runs(&[&["new-session", "-c", "/x/foo", "-s", "foo", "-d"], &["switch", "-t", "foo"]])
    );
}

#[test]
fn inside_a_session_with_the_target_the_client_switches() {
    let plan = switch_to_project_in_tmux(&foo(), &facts(true, &["bar", "foo"])).unwrap();
    assert_eq!(plan, runs(&[&["switch", "-t", "foo"]]));
}

#[test]
fn outside_a_session_with_the_target_the_terminal_attaches() {
    let plan = switch_to_project_in_tmux(&foo(), &facts(false, &["foo"])).unwrap();
    assert_eq!(plan, runs(&[&["attach", "-t", "foo"]]));
}

#[test]
fn reconcile_gives_each_of_the_four_actions() {
    let target = "foo".to_string();
    let work_dir = "/x/foo".to_string();
    assert_eq!(
        reconcile(&foo(), &facts(true, &["foo"])),
        Ok(ReconciliationAction::Switch { target: target.clone() })
    );
    assert_eq!(
        reconcile(&foo(), &facts(true, &["other"])),
        Ok(ReconciliationAction::CreateDetachedThenSwitch {
            target: target.clone(),
            work_dir: work_dir.clone()
        })
    );
    assert_eq!(
        reconcile(&foo(), &facts(false, &["foo"])),
        Ok(ReconciliationAction::AttachExisting { target: target.clone() })
    );
    assert_eq!(
        reconcile(&foo(), &facts(false, &["other"])),
        Ok(ReconciliationAction::CreateAttached { target, work_dir })
    );
}

#[test]
fn decide_follows_the_table() {
    assert_eq!(decide(true, true, "n", "/d"), ReconciliationAction::Switch { target: "n".to_string() });
    assert_eq!(
        decide(true, false, "n", "/d"),
        ReconciliationAction::CreateDetachedThenSwitch { target: "n".to_string(), work_dir: "/d".to_string() }
    );
    assert_eq!(
        decide(false, true, "n", "/d"),
        ReconciliationAction::AttachExisting { target: "n".to_string() }
    );
    assert_eq!(
        decide(false, false, "n", "/d"),
        ReconciliationAction::CreateAttached { target: "n".to_string(), work_dir: "/d".to_string() }
    );
}

#[test]
fn action_target_is_the_session_it_ends_in() {
    assert_eq!(decide(true, true, "a", "/d").target(), "a");
    assert_eq!(decide(true, false, "b", "/d").target(), "b");
    assert_eq!(decide(false, true, "c", "/d").target(), "c");
    assert_eq!(decide(false, false, "d", "/d").target(), "d");
}

#[test]
fn the_session_looked_for_bears_the_name_that_is_acted_on() {
    let project = Project::new("/home/u/src/My Tool/".to_string());
    let plan = switch_to_project_in_tmux(&project, &facts(true, &["My Tool"])).unwrap();
    assert_eq!(plan, runs(&[&["switch", "-t", "My Tool"]]));
    let other = switch_to_project_in_tmux(&project, &facts(false, &["my tool"])).unwrap();
    assert_eq!(other, runs(&[&["new-session", "-c", "/home/u/src/My Tool/", "-s", "My Tool"]]));
}

#[test]
fn a_project_without_a_name_cannot_be_reconciled() {
    let root = Project::new("/".to_string());
    assert_eq!(reconcile(&root, &facts(true, &[])), Err(NameResolutionError));
    assert_eq!(switch_to_project_in_tmux(&root, &facts(false, &["foo"])), Err(NameResolutionError));
    let empty = Project::new("".to_string());
    assert_eq!(reconcile(&empty, &facts(false, &[""])), Err(NameResolutionError));
    let parent = Project::new("/x/foo/..".to_string());
    assert_eq!(reconcile(&parent, &facts(false, &[])), Err(NameResolutionError));
}

#[test]
fn a_run_of_the_multiplexer_went_well_only_with_exit_code_0() {
    use_check_run(Some(0), Ok(()));
    use_check_run(
        Some(1),
        Err(ExternalToolError { tool: Tool::Multiplexer, failure: ToolFailure::ExitCode(1) }),
    );
    use_check_run(
        Some(-9),
        Err(ExternalToolError { tool: Tool::Multiplexer, failure: ToolFailure::ExitCode(-9) }),
    );
    use_check_run(
        None,
        Err(ExternalToolError { tool: Tool::Multiplexer, failure: ToolFailure::NoExitCode }),
    );
}

fn use_check_run(exit_code: Option<i32>, expected: Result<(), ExternalToolError>) {
    assert_eq!(check_run(exit_code), expected);
}
