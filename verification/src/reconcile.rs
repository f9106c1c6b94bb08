//! From the chosen project and the facts about the multiplexer to the one thing to
//! do: switch to the project's session, attach to it, or create it first.

use vstd::prelude::*;
use crate::error::{ExternalToolError, NameResolutionError, Tool, ToolFailure};
use crate::paths::{final_component, is_entry_name, lemma_final_component_is_a_name};
use crate::project::Project;
use crate::session::{SessionFacts, SessionFactsView};

verus! {

/// What brings the user into the session of a project.
#[derive(Debug, PartialEq, Eq)]
pub enum ReconciliationAction {
    /// Switch the current client to the live session `target`.
    Switch { target: String },
    /// Attach the terminal to the live session `target`.
    AttachExisting { target: String },
    /// Create the session `target` in `work_dir` without taking over the terminal,
    /// then switch the current client to it.
    CreateDetachedThenSwitch { target: String, work_dir: String },
    /// Create the session `target` in `work_dir`, taking over the terminal.
    CreateAttached { target: String, work_dir: String },
}

/// A `ReconciliationAction` as the texts that it holds.
pub enum ActionView {
    Switch { target: Seq<char> },
    AttachExisting { target: Seq<char> },
    CreateDetachedThenSwitch { target: Seq<char>, work_dir: Seq<char> },
    CreateAttached { target: Seq<char>, work_dir: Seq<char> },
}

impl View for ReconciliationAction {
    type V = ActionView;

    open spec fn view(&self) -> ActionView {
        match self {
            ReconciliationAction::Switch { target } => ActionView::Switch { target: target@ },
            ReconciliationAction::AttachExisting { target } => ActionView::AttachExisting {
                target: target@,
            },
            ReconciliationAction::CreateDetachedThenSwitch {
                target,
                work_dir,
            } => ActionView::CreateDetachedThenSwitch { target: target@, work_dir: work_dir@ },
            ReconciliationAction::CreateAttached { target, work_dir } => ActionView::CreateAttached {
                target: target@,
                work_dir: work_dir@,
            },
        }
    }
}

/// The action for a project named `name` that lies in `work_dir`, by whether the
/// caller runs inside a session and whether a session of that name is live.
pub open spec fn choice(inside: bool, live: bool, name: Seq<char>, work_dir: Seq<char>)
    -> ActionView {
    if inside {
        if live {
            ActionView::Switch { target: name }
        } else {
            ActionView::CreateDetachedThenSwitch { target: name, work_dir }
        }
    } else {
        if live {
            ActionView::AttachExisting { target: name }
        } else {
            ActionView::CreateAttached { target: name, work_dir }
        }
    }
}

/// The argument lists with which the multiplexer is to be run for `action`, one
/// after the other.
pub open spec fn command_lines(action: ActionView) -> Seq<Seq<Seq<char>>> {
    match action {
        ActionView::Switch { target } => seq![seq!["switch"@, "-t"@, target]],
        ActionView::AttachExisting { target } => seq![seq!["attach"@, "-t"@, target]],
        ActionView::CreateDetachedThenSwitch { target, work_dir } => seq![
            seq!["new-session"@, "-c"@, work_dir, "-s"@, target, "-d"@],
            seq!["switch"@, "-t"@, target],
        ],
        ActionView::CreateAttached { target, work_dir } => seq![
            seq!["new-session"@, "-c"@, work_dir, "-s"@, target],
        ],
    }
}

/// The action for a project at `path`, given the facts: the project's name is the
/// final component of its path, and the session looked for and the session acted on
/// both bear that name. A path without a final component names no session.
pub open spec fn reconciliation(path: Seq<char>, facts: SessionFactsView) -> Result<
    ActionView,
    NameResolutionError,
> {
    match final_component(path) {
        Some(name) => Ok(choice(facts.running_inside_session, facts.live.contains(name), name, path)),
        None => Err(NameResolutionError),
    }
}

/// What a run of the multiplexer came to, by its exit code: it went well with code
/// 0, and failed with any other code and without one.
pub open spec fn run_outcome(exit_code: Option<i32>) -> Result<(), ExternalToolError> {
    match exit_code {
        Some(code) => if code == 0 {
            Ok(())
        } else {
            Err(ExternalToolError { tool: Tool::Multiplexer, failure: ToolFailure::ExitCode(code) })
        },
        None => Err(ExternalToolError { tool: Tool::Multiplexer, failure: ToolFailure::NoExitCode }),
    }
}

/// Whether a run of the multiplexer went well. A run that failed is the end: the
/// runs after it are not made, and none is made again.
pub fn check_run(exit_code: Option<i32>) -> (outcome: Result<(), ExternalToolError>)
    ensures
        outcome == run_outcome(exit_code),
{
    match exit_code {
        Some(code) => {
            if code == 0 {
                Ok(())
            } else {
                Err(
                    ExternalToolError {
                        tool: Tool::Multiplexer,
                        failure: ToolFailure::ExitCode(code),
                    },
                )
            }
        },
        None => Err(ExternalToolError { tool: Tool::Multiplexer, failure: ToolFailure::NoExitCode }),
    }
}

/// The action for a project named `name` that lies in `work_dir`.
pub fn decide(inside: bool, live: bool, name: &str, work_dir: &str) -> (action:
    ReconciliationAction)
    ensures
        action@ == choice(inside, live, name@, work_dir@),
{
    if inside {
        if live {
            ReconciliationAction::Switch { target: name.to_owned() }
        } else {
            ReconciliationAction::CreateDetachedThenSwitch {
                target: name.to_owned(),
                work_dir: work_dir.to_owned(),
            }
        }
    } else {
        if live {
            ReconciliationAction::AttachExisting { target: name.to_owned() }
        } else {
            ReconciliationAction::CreateAttached {
                target: name.to_owned(),
                work_dir: work_dir.to_owned(),
            }
        }
    }
}

/// The multiplexer's arguments for switching the current client to `target`.
fn switch_to(target: &String) -> (args: Vec<String>)
    ensures
        args.deep_view() == seq!["switch"@, "-t"@, target@],
{
    let mut args: Vec<String> = Vec::new();
    args.push("switch".to_owned());
    args.push("-t".to_owned());
    args.push(target.clone());
    args
}

/// The multiplexer's arguments for attaching the terminal to `target`.
fn attach_to(target: &String) -> (args: Vec<String>)
    ensures
        args.deep_view() == seq!["attach"@, "-t"@, target@],
{
    let mut args: Vec<String> = Vec::new();
    args.push("attach".to_owned());
    args.push("-t".to_owned());
    args.push(target.clone());
    args
}

/// The multiplexer's arguments for creating the session `target` in `work_dir`,
/// in the background if `detached`.
fn create(target: &String, work_dir: &String, detached: bool) -> (args: Vec<String>)
    ensures
        args.deep_view() == if detached {
            seq!["new-session"@, "-c"@, work_dir@, "-s"@, target@, "-d"@]
        } else {
            seq!["new-session"@, "-c"@, work_dir@, "-s"@, target@]
        },
{
    let mut args: Vec<String> = Vec::new();
    args.push("new-session".to_owned());
    args.push("-c".to_owned());
    args.push(work_dir.clone());
    args.push("-s".to_owned());
    args.push(target.clone());
    if detached {
        args.push("-d".to_owned());
    }
    args
}

impl ReconciliationAction {
    /// The session that the action ends in.
    pub fn target(&self) -> (name: &str)
        ensures
            name@ == match self@ {
                ActionView::Switch { target } => target,
                ActionView::AttachExisting { target } => target,
                ActionView::CreateDetachedThenSwitch { target, .. } => target,
                ActionView::CreateAttached { target, .. } => target,
            },
    {
        match self {
            ReconciliationAction::Switch { target } => target.as_str(),
            ReconciliationAction::AttachExisting { target } => target.as_str(),
            ReconciliationAction::CreateDetachedThenSwitch { target, .. } => target.as_str(),
            ReconciliationAction::CreateAttached { target, .. } => target.as_str(),
        }
    }

    /// The argument lists with which the multiplexer is to be run, one after the
    /// other: one run, or two where a session is created in the background.
    pub fn invocations(&self) -> (runs: Vec<Vec<String>>)
        ensures
            runs.deep_view() == command_lines(self@),
    {
        let mut runs: Vec<Vec<String>> = Vec::new();
        match self {
            ReconciliationAction::Switch { target } => {
                runs.push(switch_to(target));
            },
            ReconciliationAction::AttachExisting { target } => {
                runs.push(attach_to(target));
            },
            ReconciliationAction::CreateDetachedThenSwitch { target, work_dir } => {
                runs.push(create(target, work_dir, true));
                runs.push(switch_to(target));
            },
            ReconciliationAction::CreateAttached { target, work_dir } => {
                runs.push(create(target, work_dir, false));
            },
        }
        runs
    }
}

/// The action that brings the user into the session of `project`.
pub fn reconcile(project: &Project, facts: &SessionFacts) -> (action: Result<
    ReconciliationAction,
    NameResolutionError,
>)
    ensures
        match action {
            Ok(a) => reconciliation(project@, facts@) == Ok::<ActionView, NameResolutionError>(a@),
            Err(e) => reconciliation(project@, facts@) == Err::<ActionView, NameResolutionError>(e),
        },
{
    match project.name() {
        Some(name) => Ok(
            decide(
                facts.running_inside_session(),
                facts.has_session(name),
                name,
                project.full_path(),
            ),
        ),
        None => Err(NameResolutionError),
    }
}

/// The runs of the multiplexer that bring the user into the session of `project`:
/// the argument lists, in the order in which to run them.
pub fn switch_to_project_in_tmux(project: &Project, facts: &SessionFacts) -> (runs: Result<
    Vec<Vec<String>>,
    NameResolutionError,
>)
    ensures
        match runs {
            Ok(r) => reconciliation(project@, facts@) matches Ok(a) && r.deep_view()
                == command_lines(a),
            Err(e) => reconciliation(project@, facts@) is Err,
        },
{
    match reconcile(project, facts) {
        Ok(action) => Ok(action.invocations()),
        Err(e) => Err(e),
    }
}

/// A session is never named by an empty text, nor by one that holds a `/`: the name
/// that an action acts on is the final component of the project's path.
pub proof fn lemma_target_is_a_name(path: Seq<char>, facts: SessionFactsView)
    ensures
        reconciliation(path, facts) matches Ok(action) ==> {
            let target = match action {
                ActionView::Switch { target } => target,
                ActionView::AttachExisting { target } => target,
                ActionView::CreateDetachedThenSwitch { target, .. } => target,
                ActionView::CreateAttached { target, .. } => target,
            };
            is_entry_name(target) && final_component(path) == Some(target)
        },
{
    lemma_final_component_is_a_name(path);
}

} // verus!
