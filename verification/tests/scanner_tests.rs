use find_project::config::SourceRoot;
use find_project::discovery::Discovery;
use find_project::project::Project;
use find_project::scanner::{DirEntry, EntryKind, Scan, ScanError};
use std::collections::HashMap;

type Tree = HashMap<String, Vec<(String, EntryKind)>>;

fn dir(tree: &mut Tree, path: &str, entries: &[(&str, EntryKind)]) {
    let listed = entries.iter().map(|(name, kind)| (format!("{}/{}", path, name), *kind)).collect();
    tree.insert(path.to_string(), listed);
}

fn read(tree: &Tree, path: &str) -> Option<Vec<DirEntry>> {
    tree.get(path).map(|entries| {
        entries.iter().map(|(path, kind)| DirEntry { path: path.clone(), kind: *kind }).collect()
    })
}

fn run(tree: &Tree, path: &str, depth: u8) -> (Result<Vec<Project>, ScanError>, Vec<String>) {
    let root = SourceRoot::new(path.to_string(), depth).unwrap();
    let mut scan = Scan::start(&root);
    let mut visited = Vec::new();
    loop {
        let next = match scan.next_directory() {
            Some(next) => next.to_string(),
            None => break,
        };
        scan.feed(read(tree, &next));
        visited.push(next);
    }
    (scan.finish(), visited)
}

fn walk(tree: &Tree, path: &str, depth: u8) -> Option<Vec<String>> {
    let mut found = Vec::new();
    for (entry, kind) in tree.get(path)? {
        if *kind == EntryKind::Directory {
            if depth > 1 {
                found.extend(walk(tree, entry, depth - 1)?);
            } else {
                found.push(entry.clone());
            }
        }
    }
    Some(found)
}

fn paths(projects: &[Project]) -> Vec<String> {
    projects.iter().map(|p| p.full_path().to_string()).collect()
}

const DIRECTORY: EntryKind = EntryKind::Directory;
const OTHER: EntryKind = EntryKind::Other;
const UNREADABLE: EntryKind = EntryKind::Unreadable;

fn sample() -> Tree {
    let mut tree = Tree::new();
    dir(&mut tree, "/r", &[("b", DIRECTORY), ("notes.txt", OTHER), ("a", DIRECTORY), ("lost", UNREADABLE), ("c", DIRECTORY)]);
    dir(&mut tree, "/r/b", &[("b2", DIRECTORY), ("b1", DIRECTORY), ("README", OTHER)]);
    dir(&mut tree, "/r/a", &[("LICENSE", OTHER)]);
    dir(&mut tree, "/r/c", &[("c1", DIRECTORY)]);
    dir(&mut tree, "/r/b/b1", &[("x", DIRECTORY)]);
    dir(&mut tree, "/r/b/b2", &[]);
    dir(&mut tree, "/r/c/c1", &[("z", DIRECTORY), ("y", DIRECTORY), ("f", OTHER)]);
    dir(&mut tree, "/files", &[("one", OTHER), ("two", OTHER), ("three", UNREADABLE)]);
    dir(&mut tree, "/empty", &[]);
    dir(&mut tree, "/broken", &[("ok", DIRECTORY), ("gone", DIRECTORY), ("later", DIRECTORY)]);
    dir(&mut tree, "/broken/ok", &[("p", DIRECTORY)]);
    dir(&mut tree, "/broken/later", &[("q", DIRECTORY)]);
    tree
}

#[test]
fn scan_depth_one_finds_the_directories_in_the_root() {
    let (found, visited) = run(&sample(), "/r", 1);
    assert_eq!(paths(&found.unwrap()), vec!["/r/b", "/r/a", "/r/c"]);
    assert_eq!(visited, vec!["/r"]);
}

#[test]
fn scan_depth_two_finds_the_directories_two_levels_down() {
    let (found, visited) = run(&sample(), "/r", 2);
    assert_eq!(paths(&found.unwrap()), vec!["/r/b/b2", "/r/b/b1", "/r/c/c1"]);
    assert_eq!(visited, vec!["/r", "/r/b", "/r/a", "/r/c"]);
}

#[test]
fn scan_depth_three_finds_the_directories_three_levels_down() {
    let (found, visited) = run(&sample(), "/r", 3);
    assert_eq!(paths(&found.unwrap()), vec!["/r/b/b1/x", "/r/c/c1/z", "/r/c/c1/y"]);
    assert_eq!(visited, vec!["/r", "/r/b", "/r/b/b2", "/r/b/b1", "/r/a", "/r/c", "/r/c/c1"]);
}

#[test]
fn scan_found_paths_lie_exactly_as_many_components_below_the_root_as_the_depth() {
    let tree = sample();
    for depth in 1..=3u8 {
        let (found, _) = run(&tree, "/r", depth);
        for path in paths(&found.unwrap()) {
            let below = path.strip_prefix("/r/").unwrap();
            assert_eq!(below.split('/').count(), depth as usize, "on {:?}", path);
        }
    }
}

#[test]
fn scan_agrees_with_a_plain_walk() {
    let tree = sample();
    for root in ["/r", "/files", "/empty", "/broken", "/nowhere", "/r/b", "/r/c"] {
        for depth in 1..=5u8 {
            let (found, _) = run(&tree, root, depth);
            let expected = walk(&tree, root, depth);
            assert_eq!(found.ok().map(|f| paths(&f)), expected, "on {:?} at {}", root, depth);
        }
    }
}

#[test]
fn scan_of_a_root_with_files_only_finds_nothing_and_does_not_fail() {
    let (found, visited) = run(&sample(), "/files", 1);
    assert_eq!(found, Ok(vec![]));
    assert_eq!(visited, vec!["/files"]);
    let (deeper, _) = run(&sample(), "/files", 4);
    assert_eq!(deeper, Ok(vec![]));
    let (empty, _) = run(&sample(), "/empty", 1);
    assert_eq!(empty, Ok(vec![]));
}

#[test]
fn scan_of_a_root_that_does_not_exist_fails() {
    let (found, visited) = run(&sample(), "/nowhere", 1);
    assert_eq!(found, Err(ScanError { directory: "/nowhere".to_string() }));
    assert_eq!(visited, vec!["/nowhere"]);
}

#[test]
fn scan_fails_on_a_directory_on_the_way_that_cannot_be_read() {
    let (found, visited) = run(&sample(), "/broken", 2);
    assert_eq!(found, Err(ScanError { directory: "/broken/gone".to_string() }));
    assert_eq!(visited, vec!["/broken", "/broken/ok", "/broken/gone"]);
}

#[test]
fn scan_does_not_read_the_projects_themselves() {
    let (found, visited) = run(&sample(), "/broken", 1);
    assert_eq!(paths(&found.unwrap()), vec!["/broken/ok", "/broken/gone", "/broken/later"]);
    assert_eq!(visited, vec!["/broken"]);
}

#[test]
fn scan_skips_entries_that_cannot_be_read() {
    let mut tree = Tree::new();
    dir(&mut tree, "/s", &[("u", EntryKind::Unreadable), ("d", EntryKind::Directory)]);
    let (found, _) = run(&tree, "/s", 1);
    assert_eq!(paths(&found.unwrap()), vec!["/s/d"]);
}

#[test]
fn scan_that_is_over_ignores_what_it_is_fed() {
    let root = SourceRoot::new("/r".to_string(), 1).unwrap();
    let mut scan = Scan::start(&root);
    assert_eq!(scan.next_directory(), Some("/r"));
    scan.feed(Some(vec![DirEntry { path: "/r/a".to_string(), kind: EntryKind::Directory }]));
    assert_eq!(scan.next_directory(), None);
    scan.feed(Some(vec![DirEntry { path: "/r/b".to_string(), kind: EntryKind::Directory }]));
    scan.feed(None);
    assert_eq!(scan.next_directory(), None);
    assert_eq!(scan.finish(), Ok(vec![Project::new("/r/a".to_string())]));
}

#[test]
fn scan_that_has_failed_stays_failed() {
    let root = SourceRoot::new("/r".to_string(), 2).unwrap();
    let mut scan = Scan::start(&root);
    scan.feed(Some(vec![
        DirEntry { path: "/r/a".to_string(), kind: EntryKind::Directory },
        DirEntry { path: "/r/b".to_string(), kind: EntryKind::Directory },
    ]));
    assert_eq!(scan.next_directory(), Some("/r/a"));
    scan.feed(None);
    assert_eq!(scan.next_directory(), None);
    scan.feed(Some(vec![DirEntry { path: "/r/b/p".to_string(), kind: EntryKind::Directory }]));
    assert_eq!(scan.finish(), Err(ScanError { directory: "/r/a".to_string() }));
}

#[test]
fn scan_stopped_early_reports_the_directory_it_did_not_read() {
    let root = SourceRoot::new("/r".to_string(), 2).unwrap();
    let scan = Scan::start(&root);
    assert_eq!(scan.finish(), Err(ScanError { directory: "/r".to_string() }));
}

fn discover(tree: &Tree, roots: &[(&str, u8)]) -> Discovery {
    let mut found = Discovery::new();
    for (path, depth) in roots {
        found.add(run(tree, path, *depth).0);
    }
    found
}

#[test]
fn discovery_puts_the_projects_of_the_roots_one_after_the_other() {
    let found = discover(&sample(), &[("/r", 1), ("/broken", 1), ("/r", 1)]);
    assert_eq!(
        paths(found.projects()),
        vec!["/r/b", "/r/a", "/r/c", "/broken/ok", "/broken/gone", "/broken/later", "/r/b", "/r/a", "/r/c"]
    );
    assert!(found.failures().is_empty());
}

#[test]
fn discovery_goes_on_after_a_root_that_does_not_exist() {
    let tree = sample();
    let with = discover(&tree, &[("/r", 1), ("/nowhere", 1), ("/r/c", 2)]);
    let without = discover(&tree, &[("/r", 1), ("/r/c", 2)]);
    assert_eq!(with.projects(), without.projects());
    assert_eq!(paths(with.projects()), vec!["/r/b", "/r/a", "/r/c", "/r/c/c1/z", "/r/c/c1/y"]);
    assert_eq!(with.failures(), &vec![ScanError { directory: "/nowhere".to_string() }]);
    assert_eq!(paths(&with.finish().unwrap()), paths(&without.finish().unwrap()));
}

#[test]
fn discovery_fails_where_every_root_failed() {
    let found = discover(&sample(), &[("/nowhere", 1), ("/broken", 2)]);
    assert_eq!(
        found.finish(),
        Err(vec![
            ScanError { directory: "/nowhere".to_string() },
            ScanError { directory: "/broken/gone".to_string() },
        ])
    );
}

#[test]
fn discovery_without_projects_is_no_failure() {
    assert_eq!(discover(&sample(), &[("/files", 1)]).finish(), Ok(vec![]));
    assert_eq!(discover(&sample(), &[("/files", 1), ("/nowhere", 1)]).finish(), Ok(vec![]));
    assert_eq!(Discovery::new().finish(), Ok(vec![]));
}
