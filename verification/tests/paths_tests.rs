use find_project::paths::{file_name, join};
use find_project::project::Project;
use std::path::{Path, PathBuf};

#[test]
fn file_name_is_the_final_component() {
    assert_eq!(file_name("/x/foo"), Some("foo"));
    assert_eq!(file_name("/x/foo/"), Some("foo"));
    assert_eq!(file_name("/x/foo//"), Some("foo"));
    assert_eq!(file_name("/x/foo/."), Some("foo"));
    assert_eq!(file_name("/x/foo/./"), Some("foo"));
    assert_eq!(file_name("foo"), Some("foo"));
    assert_eq!(file_name("foo.txt"), Some("foo.txt"));
    assert_eq!(file_name("/x/.hidden"), Some(".hidden"));
    assert_eq!(file_name("/x/..."), Some("..."));
    assert_eq!(file_name("/x/a b"), Some("a b"));
}

#[test]
fn file_name_is_missing_where_the_path_has_no_final_component() {
    assert_eq!(file_name("/"), None);
    assert_eq!(file_name("//"), None);
    assert_eq!(file_name(""), None);
    assert_eq!(file_name("."), None);
    assert_eq!(file_name("./"), None);
    assert_eq!(file_name("/."), None);
    assert_eq!(file_name(".."), None);
    assert_eq!(file_name("/x/.."), None);
    assert_eq!(file_name("/x/../"), None);
    assert_eq!(file_name("/x/../."), None);
}

#[test]
fn file_name_agrees_with_the_standard_library() {
    let pieces = ["", "/", "//", ".", "..", "a", "bc", ".a", "a.", "...", "é", "./", "../", "a/", "/a", " "];
    let mut samples: Vec<String> = Vec::new();
    for a in pieces {
        samples.push(a.to_string());
        for b in pieces {
            samples.push(format!("{}{}", a, b));
            samples.push(format!("{}/{}", a, b));
            for c in pieces {
                samples.push(format!("{}{}{}", a, b, c));
                samples.push(format!("{}/{}/{}", a, b, c));
            }
        }
    }
    for sample in samples {
        let expected = Path::new(&sample).file_name().and_then(|n| n.to_str());
        assert_eq!(file_name(&sample), expected, "on {:?}", sample);
    }
}

#[test]
fn join_puts_a_separator_where_one_is_needed() {
    assert_eq!(join("/home/u/.config", "find_project"), "/home/u/.config/find_project");
    assert_eq!(join("/home/u/.config/", "find_project"), "/home/u/.config/find_project");
    assert_eq!(join("", "find_project"), "find_project");
    assert_eq!(join("/", "a"), "/a");
    assert_eq!(join("a", ""), "a/");
}

#[test]
fn join_lets_an_absolute_component_take_over() {
    assert_eq!(join("/home/u", "/etc"), "/etc");
    assert_eq!(join("", "/"), "/");
}

#[test]
fn join_agrees_with_the_standard_library() {
    let pieces = ["", "/", "a", "a/", "/a", "/a/b", "a/b/", ".", "..", "é", "//", "a//"];
    for base in pieces {
        for component in pieces {
            let mut expected = PathBuf::from(base);
            expected.push(component);
            assert_eq!(
                join(base, component),
                expected.to_str().unwrap(),
                "on {:?} and {:?}",
                base,
                component
            );
        }
    }
}

#[test]
fn project_name_is_the_final_component_of_its_path() {
    let project = Project::new("/x/foo".to_string());
    assert_eq!(project.name(), Some("foo"));
    assert_eq!(project.full_path(), "/x/foo");
    let nested = Project { inner: "/home/u/src/github.com/tool/".to_string() };
    assert_eq!(nested.name(), Some("tool"));
    assert_eq!(nested.full_path(), "/home/u/src/github.com/tool/");
}

#[test]
fn project_at_the_root_has_no_name() {
    assert_eq!(Project::new("/".to_string()).name(), None);
    assert_eq!(Project::new("".to_string()).name(), None);
    assert_eq!(Project::new("/x/..".to_string()).name(), None);
}

#[test]
fn project_clone_is_the_same_project() {
    let project = Project::new("/x/foo".to_string());
    let copy = project.clone();
    assert_eq!(copy, project);
    assert_eq!(copy.full_path(), "/x/foo");
}
