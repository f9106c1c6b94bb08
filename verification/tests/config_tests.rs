use find_project::config::{
    config_file_path, default_src_dir, locate_config_file, parse_config, parse_line,
    read_config_file, SourceRoot, CONFIG_FILE_NAME, DEFAULT_SEARCH_DEPTH, DEFAULT_SRC_DIR,
    PROJECT_NAME,
};
use find_project::error::ConfigError;

fn root(path: &str, depth: u8) -> SourceRoot {
    SourceRoot::new(path.to_string(), depth).unwrap()
}

#[test]
fn source_root_keeps_its_path_and_depth() {
    let r = root("/home/u/work", 3);
    assert_eq!(r.path(), "/home/u/work");
    assert_eq!(r.search_depth(), 3);
}

#[test]
fn source_root_with_depth_zero_does_not_exist() {
    assert_eq!(SourceRoot::new("/home/u/work".to_string(), 0), None);
    assert!(SourceRoot::new("/home/u/work".to_string(), 1).is_some());
    assert!(SourceRoot::new("/home/u/work".to_string(), 255).is_some());
}

#[test]
fn config_line_with_path_and_depth_is_a_source_root() {
    assert_eq!(parse_line("/home/u/work 3"), Some(root("/home/u/work", 3)));
    assert_eq!(parse_line("/srv 1"), Some(root("/srv", 1)));
    assert_eq!(parse_line("/srv 255"), Some(root("/srv", 255)));
    assert_eq!(parse_line("/srv +2"), Some(root("/srv", 2)));
}

#[test]
fn config_line_without_depth_is_skipped() {
    assert_eq!(parse_line("/bad"), None);
    assert_eq!(parse_line(""), None);
}

#[test]
fn config_line_with_a_depth_that_is_no_number_is_skipped() {
    assert_eq!(parse_line("/srv two"), None);
    assert_eq!(parse_line("/srv "), None);
    assert_eq!(parse_line("/srv 256"), None);
    assert_eq!(parse_line("/srv -1"), None);
    assert_eq!(parse_line("/srv  3"), None);
    assert_eq!(parse_line("/srv 3 "), None);
}

#[test]
fn config_line_with_too_many_fields_is_skipped() {
    assert_eq!(parse_line("/srv 3 4"), None);
    assert_eq!(parse_line("/my projects 3"), None);
}

#[test]
fn config_line_with_depth_zero_is_skipped() {
    assert_eq!(parse_line("/srv 0"), None);
    assert_eq!(parse_line("/srv 000"), None);
}

#[test]
fn config_bad_line_does_not_stop_the_lines_after_it() {
    let roots = parse_config("/home/u/work 3\n/bad\n/srv/code 1\n", "/home/u");
    assert_eq!(
        roots,
        vec![root("/home/u/work", 3), root("/srv/code", 1), root("/home/u/src", 2)]
    );
}

#[test]
fn config_always_ends_with_the_default_root() {
    assert_eq!(parse_config("", "/home/u"), vec![root("/home/u/src", 2)]);
    assert_eq!(parse_config("nonsense\n\n", "/home/u"), vec![root("/home/u/src", 2)]);
    assert_eq!(
        parse_config("/home/u/src 2", "/home/u"),
        vec![root("/home/u/src", 2), root("/home/u/src", 2)]
    );
}

#[test]
fn config_takes_lines_with_either_line_ending() {
    let roots = parse_config("/a 1\r\n/b 2\r\n", "/h");
    assert_eq!(roots, vec![root("/a", 1), root("/b", 2), root("/h/src", 2)]);
}

#[test]
fn default_root_is_src_in_the_home_directory_two_levels_deep() {
    let r = default_src_dir("/home/u");
    assert_eq!(r.path(), "/home/u/src");
    assert_eq!(r.search_depth(), 2);
    assert_eq!(default_src_dir("/home/u/").path(), "/home/u//src");
    assert_eq!(DEFAULT_SRC_DIR, "/src");
    assert_eq!(DEFAULT_SEARCH_DEPTH, 2);
}

#[test]
fn config_file_lies_in_its_own_directory_under_the_config_home() {
    assert_eq!(
        config_file_path("/home/u/.config"),
        "/home/u/.config/find_project/find_project.conf"
    );
    assert_eq!(
        config_file_path("/home/u/.config/"),
        "/home/u/.config/find_project/find_project.conf"
    );
    assert_eq!(config_file_path(""), "find_project/find_project.conf");
    assert_eq!(PROJECT_NAME, "find_project");
    assert_eq!(CONFIG_FILE_NAME, "find_project.conf");
}

#[test]
fn config_file_cannot_be_located_without_a_config_home() {
    assert_eq!(locate_config_file(None), Err(ConfigError::NoConfigHome));
    assert_eq!(
        locate_config_file(Some("/c")),
        Ok("/c/find_project/find_project.conf".to_string())
    );
}

#[test]
fn read_config_file_gives_the_roots() {
    assert_eq!(
        read_config_file(Some("/home/u/work 3\n"), Some("/home/u")),
        Ok(vec![root("/home/u/work", 3), root("/home/u/src", 2)])
    );
}

#[test]
fn read_config_file_fails_without_the_file() {
    assert_eq!(read_config_file(None, Some("/home/u")), Err(ConfigError::Unreadable));
    assert_eq!(read_config_file(None, None), Err(ConfigError::Unreadable));
}

#[test]
fn read_config_file_fails_without_a_home_directory() {
    assert_eq!(read_config_file(Some("/home/u/work 3\n"), None), Err(ConfigError::NoHome));
}
