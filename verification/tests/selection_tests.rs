use find_project::error::{ExternalToolError, SelectError, Tool, ToolFailure};
use find_project::project::Project;
use find_project::selection::{picker_input, select, CANCELLED, CHOSEN};

fn failure(failure: ToolFailure) -> SelectError {
    SelectError::Tool(ExternalToolError { tool: Tool::Picker, failure })
}

#[test]
fn picker_input_is_one_path_a_line_in_the_order_of_discovery() {
    let projects = vec![
        Project::new("/r/b".to_string()),
        Project::new("/r/a".to_string()),
        Project::new("/r/with space".to_string()),
    ];
    assert_eq!(picker_input(&projects), "/r/b\n/r/a\n/r/with space\n");
}

#[test]
fn picker_input_for_no_project_is_empty() {
    assert_eq!(picker_input(&Vec::new()), "");
}

#[test]
fn select_with_exit_code_130_is_no_selection_whatever_was_written() {
    assert_eq!(CANCELLED, 130);
    assert_eq!(select(Some(130), b""), Err(SelectError::NoSelection));
    assert_eq!(select(Some(130), b"/a/b/proj\n"), Err(SelectError::NoSelection));
    assert_eq!(select(Some(130), &[0xff, 0xfe]), Err(SelectError::NoSelection));
}

#[test]
fn select_with_exit_code_0_gives_the_path_without_the_newline() {
    assert_eq!(CHOSEN, 0);
    let chosen = select(Some(0), b"/a/b/proj\n").unwrap();
    assert_eq!(chosen.full_path(), "/a/b/proj");
    assert_eq!(chosen.name(), Some("proj"));
}

#[test]
fn select_strips_white_space_around_the_path_only() {
    assert_eq!(select(Some(0), b"  /a/my proj \r\n"), Ok(Project::new("/a/my proj".to_string())));
    assert_eq!(select(Some(0), b"/a/b"), Ok(Project::new("/a/b".to_string())));
    assert_eq!(select(Some(0), "/a/é\n".as_bytes()), Ok(Project::new("/a/é".to_string())));
}

#[test]
fn select_with_exit_code_0_and_no_output_gives_the_empty_path() {
    let chosen = select(Some(0), b"").unwrap();
    assert_eq!(chosen.full_path(), "");
    assert_eq!(chosen.name(), None);
}

#[test]
fn select_with_output_that_is_no_text_fails() {
    assert_eq!(select(Some(0), &[b'/', b'a', 0xff, b'\n']), Err(failure(ToolFailure::UndecodableOutput)));
    assert_eq!(select(Some(0), &[0xc3]), Err(failure(ToolFailure::UndecodableOutput)));
}

#[test]
fn select_with_another_exit_code_fails_with_the_code() {
    assert_eq!(select(Some(1), b"/a/b/proj\n"), Err(failure(ToolFailure::ExitCode(1))));
    assert_eq!(select(Some(2), b""), Err(failure(ToolFailure::ExitCode(2))));
    assert_eq!(select(Some(-1), b""), Err(failure(ToolFailure::ExitCode(-1))));
    assert_eq!(select(Some(129), b""), Err(failure(ToolFailure::ExitCode(129))));
    assert_eq!(select(Some(131), b""), Err(failure(ToolFailure::ExitCode(131))));
}

#[test]
fn select_without_an_exit_code_fails() {
    assert_eq!(select(None, b"/a/b/proj\n"), Err(failure(ToolFailure::NoExitCode)));
}

#[test]
fn select_returns_a_line_that_the_picker_was_given() {
    let projects = vec![Project::new("/r/b".to_string()), Project::new("/r/a".to_string())];
    let input = picker_input(&projects);
    let second = input.lines().nth(1).unwrap();
    let written = format!("{}\n", second);
    assert_eq!(select(Some(0), written.as_bytes()), Ok(Project::new("/r/a".to_string())));
}
