//! The source roots: the directories under which projects are searched, each with
//! the number of levels below it at which its projects lie.

use vstd::prelude::*;
use vstd::string::StringExecFns;
use crate::error::ConfigError;
use crate::paths::{join, joined};
use crate::text::{
    decimal, decimal_u8, lemma_decimal_is_read_back, lemma_first_index,
    lemma_first_index_is, lines, lines_of, parse_u8, split_at_first, split_once,
};

verus! {

/// The name under which the configuration is kept.
pub const PROJECT_NAME: &'static str = "find_project";

/// The name of the configuration file, in the directory `PROJECT_NAME`.
pub const CONFIG_FILE_NAME: &'static str = "find_project.conf";

/// The directory below the home directory that is always searched.
pub const DEFAULT_SRC_DIR: &'static str = "/src";

/// The number of levels below the default directory at which its projects lie.
pub const DEFAULT_SEARCH_DEPTH: u8 = 2;

/// A source root as plain values.
pub struct SourceRootView {
    /// The full path of the directory.
    pub path: Seq<char>,
    /// The number of directory levels from the directory down to its projects.
    pub depth: nat,
}

/// A directory under which projects are searched. Its projects lie a fixed number of
/// levels below it, at least one: with one, they are the directories in it.
#[derive(Debug, PartialEq, Eq)]
pub struct SourceRoot {
    path: String,
    search_depth: u8,
}

impl View for SourceRoot {
    type V = SourceRootView;

    closed spec fn view(&self) -> SourceRootView {
        SourceRootView { path: self.path@, depth: self.search_depth as nat }
    }
}

impl DeepView for SourceRoot {
    type V = SourceRootView;

    open spec fn deep_view(&self) -> SourceRootView {
        self@
    }
}

impl SourceRoot {
    #[verifier::type_invariant]
    spec fn depth_is_positive(self) -> bool {
        self.search_depth >= 1
    }

    /// The source root at `path` whose projects lie `search_depth` levels below it.
    /// There is none with a depth of 0.
    pub fn new(path: String, search_depth: u8) -> (root: Option<SourceRoot>)
        ensures
            root.deep_view() == if search_depth == 0 {
                None
            } else {
                Some(SourceRootView { path: path@, depth: search_depth as nat })
            },
    {
        if search_depth == 0 {
            None
        } else {
            Some(SourceRoot { path, search_depth })
        }
    }

    /// The full path of the directory.
    pub fn path(&self) -> (path: &str)
        ensures
            path@ == self@.path,
    {
        self.path.as_str()
    }

    /// The number of directory levels from the directory down to its projects.
    pub fn search_depth(&self) -> (depth: u8)
        ensures
            depth == self@.depth,
            depth >= 1,
    {
        proof {
            use_type_invariant(self);
        }
        self.search_depth
    }
}

/// The source root that a line of the configuration stands for: a path, one space,
/// and a depth from 1 to 255 in decimal digits. The path ends at the first space of
/// the line, so a line with further fields stands for none, nor does one without a
/// space, nor one whose depth is no such number.
pub open spec fn root_of_line(line: Seq<char>) -> Option<SourceRootView> {
    match split_at_first(line, ' ') {
        Some((path, depth)) => match decimal_u8(depth) {
            Some(d) => if d >= 1 {
                Some(SourceRootView { path, depth: d as nat })
            } else {
                None
            },
            None => None,
        },
        None => None,
    }
}

/// The source roots that `lines` stand for, in order. A line that stands for none
/// is passed over.
pub open spec fn roots_of_lines(lines: Seq<Seq<char>>) -> Seq<SourceRootView>
    decreases lines.len(),
{
    if lines.len() == 0 {
        Seq::empty()
    } else {
        let before = roots_of_lines(lines.drop_last());
        match root_of_line(lines.last()) {
            Some(root) => before.push(root),
            None => before,
        }
    }
}

/// The source root that is searched whatever the configuration says: the directory
/// `src` in the home directory, with projects two levels down.
pub open spec fn default_root(home: Seq<char>) -> SourceRootView {
    SourceRootView { path: home + DEFAULT_SRC_DIR@, depth: DEFAULT_SEARCH_DEPTH as nat }
}

/// All the source roots: those of the configuration's lines, then the default one.
pub open spec fn source_roots(contents: Seq<char>, home: Seq<char>) -> Seq<SourceRootView> {
    roots_of_lines(lines_of(contents)).push(default_root(home))
}

/// Where the configuration file lies, given the directory for configurations.
pub open spec fn config_location(config_home: Seq<char>) -> Seq<char> {
    joined(joined(config_home, PROJECT_NAME@), CONFIG_FILE_NAME@)
}

/// Where the configuration file lies, if the directory for configurations is known.
pub open spec fn located(config_home: Option<Seq<char>>) -> Result<Seq<char>, ConfigError> {
    match config_home {
        Some(dir) => Ok(config_location(dir)),
        None => Err(ConfigError::NoConfigHome),
    }
}

/// What reading the configuration comes to, given the file's contents and the home
/// directory, each as far as it could be had.
pub open spec fn configuration(contents: Option<Seq<char>>, home: Option<Seq<char>>) -> Result<
    Seq<SourceRootView>,
    ConfigError,
> {
    match contents {
        None => Err(ConfigError::Unreadable),
        Some(text) => match home {
            None => Err(ConfigError::NoHome),
            Some(dir) => Ok(source_roots(text, dir)),
        },
    }
}

/// Where the configuration file lies, given the directory for configurations.
pub fn config_file_path(config_home: &str) -> (path: String)
    ensures
        path@ == config_location(config_home@),
{
    let dir = join(config_home, PROJECT_NAME);
    join(dir.as_str(), CONFIG_FILE_NAME)
}

/// Where the configuration file lies, or why that cannot be said: `config_home` is
/// the directory for configurations, if it is known.
pub fn locate_config_file(config_home: Option<&str>) -> (path: Result<String, ConfigError>)
    ensures
        match path {
            Ok(p) => located(config_home.deep_view()) == Ok::<Seq<char>, ConfigError>(p@),
            Err(e) => located(config_home.deep_view()) == Err::<Seq<char>, ConfigError>(e),
        },
{
    match config_home {
        Some(dir) => Ok(config_file_path(dir)),
        None => Err(ConfigError::NoConfigHome),
    }
}

/// Reads one line of the configuration.
pub fn parse_line(line: &str) -> (root: Option<SourceRoot>)
    ensures
        root.deep_view() == root_of_line(line@),
{
    match split_once(line, ' ') {
        Some((path, depth)) => match parse_u8(depth.as_str()) {
            Some(d) => SourceRoot::new(path, d),
            None => None,
        },
        None => None,
    }
}

/// The default source root of the user whose home directory is `home`.
pub fn default_src_dir(home: &str) -> (root: SourceRoot)
    ensures
        root@ == default_root(home@),
{
    let mut path = home.to_owned();
    path.append(DEFAULT_SRC_DIR);
    SourceRoot { path, search_depth: DEFAULT_SEARCH_DEPTH }
}

/// All the source roots, from the contents of the configuration file and the home
/// directory.
pub fn parse_config(contents: &str, home: &str) -> (roots: Vec<SourceRoot>)
    ensures
        roots.deep_view() == source_roots(contents@, home@),
{
    let all = lines(contents);
    let mut roots: Vec<SourceRoot> = Vec::new();
    let mut i: usize = 0;
    while i < all.len()
        invariant
            i <= all.len(),
            roots.deep_view() == roots_of_lines(all.deep_view().take(i as int)),
        decreases all.len() - i,
    {
        assert(all.deep_view().take(i + 1).drop_last() == all.deep_view().take(i as int));
        match parse_line(all[i].as_str()) {
            Some(root) => {
                roots.push(root);
            },
            None => {},
        }
        i += 1;
    }
    assert(all.deep_view().take(all.len() as int) == all.deep_view());
    roots.push(default_src_dir(home));
    roots
}

/// All the source roots, or why there are none: `contents` is what the configuration
/// file holds, if it could be read, and `home` the home directory, if it is known.
/// A file that cannot be read is reported before a home directory that is not
/// known.
pub fn read_config_file(contents: Option<&str>, home: Option<&str>) -> (roots: Result<
    Vec<SourceRoot>,
    ConfigError,
>)
    ensures
        match roots {
            Ok(r) => configuration(contents.deep_view(), home.deep_view()) == Ok::<
                Seq<SourceRootView>,
                ConfigError,
            >(r.deep_view()),
            Err(e) => configuration(contents.deep_view(), home.deep_view()) == Err::<
                Seq<SourceRootView>,
                ConfigError,
            >(e),
        },
{
    match contents {
        None => Err(ConfigError::Unreadable),
        Some(text) => match home {
            None => Err(ConfigError::NoHome),
            Some(dir) => Ok(parse_config(text, dir)),
        },
    }
}

/// The line of the configuration that stands for a source root: its path, a space,
/// and its depth in decimal digits.
pub open spec fn line_of(root: SourceRootView) -> Seq<char> {
    root.path + seq![' '] + decimal(root.depth)
}

/// The line that stands for a source root is read back as that root, whatever its
/// path, as long as the path holds no space, and whatever its depth from 1 to 255.
pub proof fn lemma_line_is_read_back(root: SourceRootView)
    requires
        !root.path.contains(' '),
        1 <= root.depth <= 255,
    ensures
        root_of_line(line_of(root)) == Some(root),
{
    let line = line_of(root);
    let at = root.path.len() as int;
    assert forall|j: int| 0 <= j < at implies line[j] != ' ' by {
        assert(line[j] == root.path[j]);
    }
    lemma_first_index_is(line, ' ', at);
    assert(line.take(at) == root.path);
    assert(line.skip(at + 1) == decimal(root.depth));
    lemma_decimal_is_read_back(root.depth);
}

/// A line without a space stands for no source root.
pub proof fn lemma_line_without_depth(line: Seq<char>)
    requires
        !line.contains(' '),
    ensures
        root_of_line(line) is None,
{
    lemma_first_index(line, ' ');
}

/// The roots of lines in a row are the roots of the first ones, then those of the
/// later ones.
pub proof fn lemma_roots_of_lines_in_turn(first: Seq<Seq<char>>, later: Seq<Seq<char>>)
    ensures
        roots_of_lines(first + later) == roots_of_lines(first) + roots_of_lines(later),
    decreases later.len(),
{
    if later.len() > 0 {
        lemma_roots_of_lines_in_turn(first, later.drop_last());
        assert((first + later).drop_last() == first + later.drop_last());
    }
}

/// A line that stands for no source root is passed over: the lines before it and
/// after it stand for the roots that they would stand for without it.
pub proof fn lemma_bad_line_is_passed_over(
    before: Seq<Seq<char>>,
    line: Seq<char>,
    after: Seq<Seq<char>>,
)
    requires
        root_of_line(line) is None,
    ensures
        roots_of_lines(before + seq![line] + after) == roots_of_lines(before + after),
{
    let bad = seq![line];
    assert(roots_of_lines(bad.drop_last()) == Seq::<SourceRootView>::empty());
    lemma_roots_of_lines_in_turn(before, bad);
    lemma_roots_of_lines_in_turn(before + bad, after);
    lemma_roots_of_lines_in_turn(before, after);
}

} // verus!
