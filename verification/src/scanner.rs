//! The search for projects below one source root.
//!
//! Projects lie a fixed number of levels below their source root. The search reads
//! directories, and reading is not this library's to do: `Scan` says which
//! directory to read next, takes what was found in it, and in the end holds the
//! projects. What it arrives at is stated against `scan_dir`, which describes the
//! search over a whole tree of directories at once.

use vstd::prelude::*;
use crate::config::{SourceRoot, SourceRootView};
use crate::project::Project;

verus! {

/// What an entry of a directory turned out to be.
#[derive(Debug, Clone, Copy, PartialEq, Eq, Structural)]
pub enum EntryKind {
    /// A directory.
    Directory,
    /// Anything else.
    Other,
    /// Unknown: the entry, or what kind it is, could not be read.
    Unreadable,
}

/// An entry of a directory as plain values.
pub struct EntryView {
    pub path: Seq<char>,
    pub kind: EntryKind,
}

/// An entry of a directory: its full path and what it turned out to be.
#[derive(Debug, PartialEq, Eq)]
pub struct DirEntry {
    pub path: String,
    pub kind: EntryKind,
}

impl View for DirEntry {
    type V = EntryView;

    open spec fn view(&self) -> EntryView {
        EntryView { path: self.path@, kind: self.kind }
    }
}

impl DeepView for DirEntry {
    type V = EntryView;

    open spec fn deep_view(&self) -> EntryView {
        self@
    }
}

/// The directories that can be read, each with its entries in the order in which
/// reading gives them. A directory that cannot be read has no place in the map.
pub type Tree = Map<Seq<char>, Seq<EntryView>>;

/// What reading `dir` gives: its entries, or nothing where it cannot be read.
pub open spec fn listing(tree: Tree, dir: Seq<char>) -> Option<Seq<EntryView>> {
    if tree.dom().contains(dir) {
        Some(tree[dir])
    } else {
        None
    }
}

/// The paths of the directories among `entries`, in order.
pub open spec fn subdirectories(entries: Seq<EntryView>) -> Seq<Seq<char>>
    decreases entries.len(),
{
    if entries.len() == 0 {
        Seq::empty()
    } else if entries.first().kind == EntryKind::Directory {
        seq![entries.first().path] + subdirectories(entries.drop_first())
    } else {
        subdirectories(entries.drop_first())
    }
}

/// What a search came to: the projects found, in the order of the walk, or the
/// directory that could not be read.
pub type Searched = Result<Seq<Seq<char>>, Seq<char>>;

/// What the search of two places came to, one after the other: what was found in
/// both, or the directory at which the first of them to fail failed.
pub open spec fn both(first: Searched, then: Searched) -> Searched {
    match first {
        Ok(a) => match then {
            Ok(b) => Ok(a + b),
            Err(dir) => Err(dir),
        },
        Err(dir) => Err(dir),
    }
}

/// The projects that lie `depth` levels below `dir`, in the order of a walk that
/// takes the entries of each directory as reading gives them and goes down into one
/// before it goes on to the next. With a depth of 1 (or less) they are the
/// directories in `dir`; with a greater one, the projects `depth - 1` levels below
/// each of those. Entries that are no directories count for nothing, wherever they
/// lie. Where `dir`, or a directory that the walk goes down into, cannot be read,
/// the search comes to that directory: the first one that the walk meets.
pub open spec fn scan_dir(tree: Tree, dir: Seq<char>, depth: nat) -> Searched
    decreases depth, 1nat, 0nat,
{
    if tree.dom().contains(dir) {
        scan_entries(tree, tree[dir], depth)
    } else {
        Err(dir)
    }
}

/// The projects that lie below `entries`, the entries of a directory whose projects
/// lie `depth` levels below it.
pub open spec fn scan_entries(tree: Tree, entries: Seq<EntryView>, depth: nat) -> Searched
    decreases depth, 0nat, entries.len(),
{
    if entries.len() == 0 {
        Ok(Seq::empty())
    } else {
        let first = entries.first();
        let below_first = if first.kind != EntryKind::Directory {
            Ok(Seq::empty())
        } else if depth <= 1 {
            Ok(seq![first.path])
        } else {
            scan_dir(tree, first.path, (depth - 1) as nat)
        };
        both(below_first, scan_entries(tree, entries.drop_first(), depth))
    }
}

/// A search in progress, as plain values.
pub struct ScanView {
    /// The directories yet to be read, each with the number of levels below it at
    /// which projects lie. The last one is read next.
    pub pending: Seq<(Seq<char>, nat)>,
    /// The projects found so far.
    pub found: Seq<Seq<char>>,
    /// The directory that could not be read, if there was one. It ends the search.
    pub failure: Option<Seq<char>>,
}

/// The search of a source root before anything was read.
pub open spec fn begin(root: SourceRootView) -> ScanView {
    ScanView { pending: seq![(root.path, root.depth)], found: Seq::empty(), failure: None }
}

/// The directory to read next, if the search is not over.
pub open spec fn next_dir(state: ScanView) -> Option<Seq<char>> {
    if state.failure is None && state.pending.len() > 0 {
        Some(state.pending.last().0)
    } else {
        None
    }
}

/// The directories among `entries` as they are put up for reading, each with
/// `depth`: the first entry last, so that it is read first.
pub open spec fn put_up(entries: Seq<EntryView>, depth: nat) -> Seq<(Seq<char>, nat)>
    decreases entries.len(),
{
    if entries.len() == 0 {
        Seq::empty()
    } else if entries.first().kind == EntryKind::Directory {
        put_up(entries.drop_first(), depth).push((entries.first().path, depth))
    } else {
        put_up(entries.drop_first(), depth)
    }
}

/// The search after what reading its next directory gave has been taken in. A
/// directory that could not be read ends the search and voids what it had found. Of
/// one that was read, only the directories in it count: where projects lie one level
/// below it they are projects, found in the order of the entries; else they are put
/// up for reading, one level less to go. A search that is over stays as it is.
pub open spec fn step(state: ScanView, read: Option<Seq<EntryView>>) -> ScanView {
    if next_dir(state) is None {
        state
    } else {
        let (dir, depth) = state.pending.last();
        let others = state.pending.drop_last();
        match read {
            None => ScanView { pending: Seq::empty(), found: Seq::empty(), failure: Some(dir) },
            Some(entries) => if depth <= 1 {
                ScanView {
                    pending: others,
                    found: state.found + subdirectories(entries),
                    failure: None,
                }
            } else {
                ScanView {
                    pending: others + put_up(entries, (depth - 1) as nat),
                    found: state.found,
                    failure: None,
                }
            },
        }
    }
}

/// What a search comes to when it is stopped: the projects found, or the directory
/// that could not be read. A directory that is still to be read counts as one that
/// could not be.
pub open spec fn result(state: ScanView) -> Searched {
    match state.failure {
        Some(dir) => Err(dir),
        None => if state.pending.len() > 0 {
            Err(state.pending.last().0)
        } else {
            Ok(state.found)
        },
    }
}

/// The projects below the directories `pending`, read from the last to the first.
pub open spec fn below_pending(tree: Tree, pending: Seq<(Seq<char>, nat)>) -> Searched
    decreases pending.len(),
{
    if pending.len() == 0 {
        Ok(Seq::empty())
    } else {
        both(
            scan_dir(tree, pending.last().0, pending.last().1),
            below_pending(tree, pending.drop_last()),
        )
    }
}

/// What a search in `tree` will have come to when it is over, seen from `state`.
pub open spec fn outcome(tree: Tree, state: ScanView) -> Searched {
    match state.failure {
        Some(dir) => Err(dir),
        None => both(Ok(state.found), below_pending(tree, state.pending)),
    }
}

/// The search after it has read `steps` directories of `tree`.
pub open spec fn after(tree: Tree, state: ScanView, steps: nat) -> ScanView
    decreases steps,
{
    if steps == 0 {
        state
    } else {
        match next_dir(state) {
            Some(dir) => after(tree, step(state, listing(tree, dir)), (steps - 1) as nat),
            None => state,
        }
    }
}

/// The number of directories that the walk of `scan_dir` reads at most: `dir`, and
/// with a depth above 1 the directories that it goes down into.
pub open spec fn reads(tree: Tree, dir: Seq<char>, depth: nat) -> nat
    decreases depth, 1nat, 0nat,
{
    if tree.dom().contains(dir) {
        1 + reads_below(tree, tree[dir], depth)
    } else {
        1
    }
}

/// The number of directories that the walk reads at most below `entries`, the
/// entries of a directory whose projects lie `depth` levels below it.
pub open spec fn reads_below(tree: Tree, entries: Seq<EntryView>, depth: nat) -> nat
    decreases depth, 0nat, entries.len(),
{
    if entries.len() == 0 {
        0
    } else {
        let first = entries.first();
        let below_first = if first.kind == EntryKind::Directory && depth > 1 {
            reads(tree, first.path, (depth - 1) as nat)
        } else {
            0
        };
        below_first + reads_below(tree, entries.drop_first(), depth)
    }
}

/// The number of directories that are read at most until none of `pending` is left.
pub open spec fn reads_pending(tree: Tree, pending: Seq<(Seq<char>, nat)>) -> nat
    decreases pending.len(),
{
    if pending.len() == 0 {
        0
    } else {
        reads(tree, pending.last().0, pending.last().1) + reads_pending(
            tree,
            pending.drop_last(),
        )
    }
}

/// `path` lies `levels` levels below `dir`: it is `dir` itself, or lies one level
/// less below a directory that is an entry of `dir`.
pub open spec fn lies_below(tree: Tree, dir: Seq<char>, path: Seq<char>, levels: nat) -> bool
    decreases levels,
{
    if levels == 0 {
        path == dir
    } else {
        exists|i: int|
            tree.dom().contains(dir) && 0 <= i < tree[dir].len() && (#[trigger] tree[dir][i]).kind
                == EntryKind::Directory && lies_below(
                tree,
                tree[dir][i].path,
                path,
                (levels - 1) as nat,
            )
    }
}

/// A directory of a source root could not be read, which ends the search of that
/// root. The search of the other roots goes on.
#[derive(Debug, PartialEq, Eq)]
pub struct ScanError {
    /// The full path of the directory that could not be read.
    pub directory: String,
}

impl View for ScanError {
    type V = Seq<char>;

    open spec fn view(&self) -> Seq<char> {
        self.directory@
    }
}

impl DeepView for ScanError {
    type V = Seq<char>;

    open spec fn deep_view(&self) -> Seq<char> {
        self.directory@
    }
}

/// A directory yet to be read.
#[derive(Debug, PartialEq, Eq)]
struct Pending {
    dir: String,
    depth: u8,
}

impl DeepView for Pending {
    type V = (Seq<char>, nat);

    closed spec fn deep_view(&self) -> (Seq<char>, nat) {
        (self.dir@, self.depth as nat)
    }
}

/// The search of one source root, from its first directory to its last.
///
/// `next_directory` names the directory to read; `feed` takes what reading it gave;
/// when no directory is left, `finish` hands out the projects.
#[derive(Debug, PartialEq, Eq)]
pub struct Scan {
    pending: Vec<Pending>,
    found: Vec<Project>,
    failure: Option<ScanError>,
}

impl View for Scan {
    type V = ScanView;

    closed spec fn view(&self) -> ScanView {
        ScanView {
            pending: self.pending.deep_view(),
            found: self.found.deep_view(),
            failure: self.failure.deep_view(),
        }
    }
}

impl Scan {
    /// The search of `root`, with nothing read yet.
    pub fn start(root: &SourceRoot) -> (scan: Scan)
        ensures
            scan@ == begin(root@),
    {
        let mut pending: Vec<Pending> = Vec::new();
        pending.push(Pending { dir: root.path().to_owned(), depth: root.search_depth() });
        let scan = Scan { pending, found: Vec::new(), failure: None };
        assert(scan@.pending == seq![(root@.path, root@.depth)]);
        assert(scan@.found == Seq::<Seq<char>>::empty());
        scan
    }

    /// The directory to read next, or nothing when the search is over.
    pub fn next_directory(&self) -> (dir: Option<&str>)
        ensures
            dir.deep_view() == next_dir(self@),
    {
        if self.failure.is_some() || self.pending.len() == 0 {
            None
        } else {
            Some(self.pending[self.pending.len() - 1].dir.as_str())
        }
    }

    /// Takes in what reading the directory that `next_directory` names gave: its
    /// entries, or nothing where it could not be read.
    pub fn feed(&mut self, read: Option<Vec<DirEntry>>)
        ensures
            final(self)@ == step(old(self)@, read.deep_view()),
    {
        if self.failure.is_some() {
            return ;
        }
        let top = match self.pending.pop() {
            Some(top) => top,
            None => {
                return ;
            },
        };
        let ghost others = self.pending.deep_view();
        let ghost found = self.found.deep_view();
        assert(others == old(self)@.pending.drop_last());
        match read {
            None => {
                self.pending = Vec::new();
                self.found = Vec::new();
                self.failure = Some(ScanError { directory: top.dir });
                assert(self@.pending == Seq::<(Seq<char>, nat)>::empty());
                assert(self@.found == Seq::<Seq<char>>::empty());
            },
            Some(entries) => {
                let ghost all = entries.deep_view();
                if top.depth <= 1 {
                    let mut i: usize = 0;
                    assert(all.skip(0) == all);
                    while i < entries.len()
                        invariant
                            i <= entries.len(),
                            all == entries.deep_view(),
                            self.failure is None,
                            self.pending.deep_view() == others,
                            self.found.deep_view() + subdirectories(all.skip(i as int)) == found
                                + subdirectories(all),
                        decreases entries.len() - i,
                    {
                        assert(all.skip(i as int).drop_first() == all.skip(i + 1));
                        if let EntryKind::Directory = entries[i].kind {
                            self.found.push(Project::new(entries[i].path.clone()));
                        }
                        i += 1;
                    }
                } else {
                    let depth: u8 = top.depth - 1;
                    let mut i: usize = entries.len();
                    while i > 0
                        invariant
                            i <= entries.len(),
                            all == entries.deep_view(),
                            self.failure is None,
                            self.found.deep_view() == found,
                            self.pending.deep_view() == others + put_up(
                                all.skip(i as int),
                                depth as nat,
                            ),
                        decreases i,
                    {
                        let ghost so_far = self.pending.deep_view();
                        i -= 1;
                        assert(all.skip(i as int).drop_first() == all.skip(i + 1));
                        if let EntryKind::Directory = entries[i].kind {
                            self.pending.push(Pending { dir: entries[i].path.clone(), depth });
                            assert(self.pending.deep_view() == so_far.push(
                                (all[i as int].path, depth as nat),
                            ));
                        }
                    }
                    assert(all.skip(0) == all);
                }
            },
        }
    }

    /// Ends the search: the projects found, in the order of the walk, or the
    /// directory that could not be read. A directory that is still to be read
    /// counts as one that could not be.
    pub fn finish(self) -> (found: Result<Vec<Project>, ScanError>)
        ensures
            match found {
                Ok(projects) => result(self@) == Ok::<Seq<Seq<char>>, Seq<char>>(
                    projects.deep_view(),
                ),
                Err(e) => result(self@) == Err::<Seq<Seq<char>>, Seq<char>>(e@),
            },
    {
        let mut scan = self;
        match scan.failure {
            Some(e) => Err(e),
            None => match scan.pending.pop() {
                Some(top) => Err(ScanError { directory: top.dir }),
                None => Ok(scan.found),
            },
        }
    }
}

} // verus!
