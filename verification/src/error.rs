//! What can go wrong between the configuration and the session.

use vstd::prelude::*;

verus! {

/// The outside programs that a run talks to.
#[derive(Debug, Clone, Copy, PartialEq, Eq, Structural)]
pub enum Tool {
    /// The interactive picker.
    Picker,
    /// The terminal multiplexer.
    Multiplexer,
}

/// How an outside program let a run down.
#[derive(Debug, Clone, Copy, PartialEq, Eq, Structural)]
pub enum ToolFailure {
    /// It exited with a code that tells of no success.
    ExitCode(i32),
    /// It ended without an exit code, as a process does that a signal killed.
    NoExitCode,
    /// It wrote what cannot be read as text.
    UndecodableOutput,
}

/// An outside program failed. This ends the run.
#[derive(Debug, Clone, Copy, PartialEq, Eq, Structural)]
pub struct ExternalToolError {
    pub tool: Tool,
    pub failure: ToolFailure,
}

/// Why no project came out of the picker.
#[derive(Debug, Clone, Copy, PartialEq, Eq, Structural)]
pub enum SelectError {
    /// The user left the picker without choosing. Expected, and no fault of any program.
    NoSelection,
    /// The picker failed.
    Tool(ExternalToolError),
}

/// A project's path has no final component, so no session can be named after it.
#[derive(Debug, Clone, Copy, PartialEq, Eq, Structural)]
pub struct NameResolutionError;

/// What keeps the list of source roots from being built.
#[derive(Debug, Clone, Copy, PartialEq, Eq, Structural)]
pub enum ConfigError {
    /// The directory for configurations is not known.
    NoConfigHome,
    /// The configuration file could not be read.
    Unreadable,
    /// The home directory, under which the default source root lies, is not known.
    NoHome,
}

} // verus!
