//! Finds the project directories below a set of source roots, lets the user pick
//! one, and brings the user into the terminal-multiplexer session named after it.
//!
//! The library decides and computes; it reads no file and runs no program. What it
//! needs from outside it takes as plain values: the contents of the configuration
//! file, the entries of a directory, the exit code and the output of a process.
//! What is to be done outside it hands back in the same way: the directory to read
//! next, the text for the picker, the arguments for the multiplexer.

use vstd::prelude::*;

pub mod config;
pub mod discovery;
pub mod encoding;
pub mod error;
pub mod paths;
pub mod project;
pub mod reconcile;
pub mod scanner;
pub mod scanner_laws;
pub mod selection;
pub mod session;
pub mod text;

verus! {

/// The program that lets the user pick a project.
pub const FZF_BIN: &'static str = "/usr/bin/fzf";

/// The terminal multiplexer.
pub const TMUX_BIN: &'static str = "/usr/bin/tmux";

/// The argument with which the multiplexer lists its sessions.
pub const LIST_SESSIONS: &'static str = "list-sessions";

/// The variable that the multiplexer sets in the environment of what runs inside it.
pub const SESSION_MARKER: &'static str = "TMUX";

/// The variable that names the directory for configurations.
pub const CONFIG_HOME: &'static str = "XDG_CONFIG_HOME";

/// The variable that names the home directory.
pub const HOME: &'static str = "HOME";

} // verus!
