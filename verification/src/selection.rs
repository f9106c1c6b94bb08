//! The way through the picker: what it is given to choose from, and what its exit
//! and its output amount to.

use vstd::prelude::*;
use vstd::string::StringExecFns;
use vstd::utf8::{decode_utf8, encode_utf8, valid_utf8};
use crate::encoding::decode;
use crate::error::{ExternalToolError, SelectError, Tool, ToolFailure};
use crate::project::Project;
use crate::text::{is_bare, lemma_trimmed_line, trim, trimmed};

verus! {

/// The exit code with which the picker says that it ran and the user chose.
pub const CHOSEN: i32 = 0;

/// The exit code with which the picker says that the user left without choosing.
pub const CANCELLED: i32 = 130;

/// What the picker is given to choose from: the path of each project, in order,
/// each followed by a line feed. No project at all is an empty text.
pub open spec fn picker_text(projects: Seq<Seq<char>>) -> Seq<char>
    decreases projects.len(),
{
    if projects.len() == 0 {
        Seq::empty()
    } else {
        picker_text(projects.drop_last()) + projects.last() + seq!['\n']
    }
}

/// What the picker's exit and output amount to. With exit code 0 the output is the
/// chosen path, with white space around it that does not belong to it; output that
/// is no text is a failure of the picker. Exit code 130 says that the user chose
/// nothing, whatever the output holds. Any other exit code, and an exit without one,
/// is a failure of the picker.
pub open spec fn selection(exit_code: Option<i32>, stdout: Seq<u8>) -> Result<
    Seq<char>,
    SelectError,
> {
    match exit_code {
        Some(code) => if code == CHOSEN {
            if valid_utf8(stdout) {
                Ok(trimmed(decode_utf8(stdout)))
            } else {
                Err(
                    SelectError::Tool(
                        ExternalToolError {
                            tool: Tool::Picker,
                            failure: ToolFailure::UndecodableOutput,
                        },
                    ),
                )
            }
        } else if code == CANCELLED {
            Err(SelectError::NoSelection)
        } else {
            Err(
                SelectError::Tool(
                    ExternalToolError { tool: Tool::Picker, failure: ToolFailure::ExitCode(code) },
                ),
            )
        },
        None => Err(
            SelectError::Tool(
                ExternalToolError { tool: Tool::Picker, failure: ToolFailure::NoExitCode },
            ),
        ),
    }
}

/// What the picker is given to choose from.
pub fn picker_input(projects: &Vec<Project>) -> (text: String)
    ensures
        text@ == picker_text(projects.deep_view()),
{
    let mut text = String::new();
    let mut i: usize = 0;
    while i < projects.len()
        invariant
            i <= projects.len(),
            text@ == picker_text(projects.deep_view().take(i as int)),
        decreases projects.len() - i,
    {
        assert(projects.deep_view().take(i + 1).drop_last() == projects.deep_view().take(
            i as int,
        ));
        text.append(projects[i].full_path());
        proof {
            reveal_strlit("\n");
        }
        text.append("\n");
        i += 1;
    }
    assert(projects.deep_view().take(projects.len() as int) == projects.deep_view());
    text
}

/// The project that the user chose, from the picker's exit code and the bytes that
/// it wrote.
pub fn select(exit_code: Option<i32>, stdout: &[u8]) -> (chosen: Result<Project, SelectError>)
    ensures
        match chosen {
            Ok(project) => selection(exit_code, stdout@) == Ok::<Seq<char>, SelectError>(
                project@,
            ),
            Err(e) => selection(exit_code, stdout@) == Err::<Seq<char>, SelectError>(e),
        },
        exit_code == Some(CANCELLED) ==> chosen == Err::<Project, SelectError>(
            SelectError::NoSelection,
        ),
{
    match exit_code {
        Some(code) => {
            if code == CHOSEN {
                match decode(stdout) {
                    Some(text) => Ok(Project::new(trim(text).to_owned())),
                    None => Err(
                        SelectError::Tool(
                            ExternalToolError {
                                tool: Tool::Picker,
                                failure: ToolFailure::UndecodableOutput,
                            },
                        ),
                    ),
                }
            } else if code == CANCELLED {
                Err(SelectError::NoSelection)
            } else {
                Err(
                    SelectError::Tool(
                        ExternalToolError {
                            tool: Tool::Picker,
                            failure: ToolFailure::ExitCode(code),
                        },
                    ),
                )
            }
        },
        None => Err(
            SelectError::Tool(
                ExternalToolError { tool: Tool::Picker, failure: ToolFailure::NoExitCode },
            ),
        ),
    }
}

/// A line that the picker was given comes back as the project that it stands for:
/// where the picker exits with code 0 and writes the path of a project followed by a
/// line feed, as it was given it, the selection is that path. This holds of every
/// path that has no white space at either end.
pub proof fn lemma_chosen_line_comes_back(path: Seq<char>)
    requires
        is_bare(path),
    ensures
        selection(Some(CHOSEN), encode_utf8(path + seq!['\n'])) == Ok::<Seq<char>, SelectError>(
            path,
        ),
{
    let line = path + seq!['\n'];
    vstd::utf8::encode_utf8_valid_utf8(line);
    vstd::utf8::encode_utf8_decode_utf8(line);
    lemma_trimmed_line(path);
}

} // verus!
