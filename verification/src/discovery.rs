//! The projects of all source roots together.

use vstd::prelude::*;
use crate::config::SourceRootView;
use crate::project::Project;
use crate::scanner::{scan_dir, ScanError, Searched, Tree};

verus! {

/// What the searches of the source roots came to, as plain values.
pub struct DiscoveryView {
    /// The projects of the roots whose search went well, root after root.
    pub projects: Seq<Seq<char>>,
    /// The directories that could not be read, one for each root whose search
    /// failed, in the order of the roots.
    pub failures: Seq<Seq<char>>,
    /// Whether the search of some root went well.
    pub searched: bool,
}

/// What the searches of the source roots came to. A root whose search failed adds
/// no project and takes none away.
#[derive(Debug, PartialEq, Eq)]
pub struct Discovery {
    projects: Vec<Project>,
    failures: Vec<ScanError>,
    searched: bool,
}

impl View for Discovery {
    type V = DiscoveryView;

    closed spec fn view(&self) -> DiscoveryView {
        DiscoveryView {
            projects: self.projects.deep_view(),
            failures: self.failures.deep_view(),
            searched: self.searched,
        }
    }
}

/// Before any root was searched.
pub open spec fn nothing_yet() -> DiscoveryView {
    DiscoveryView { projects: Seq::empty(), failures: Seq::empty(), searched: false }
}

/// `so_far` with what the search of one more root came to.
pub open spec fn with_root(so_far: DiscoveryView, root: Searched) -> DiscoveryView {
    match root {
        Ok(projects) => DiscoveryView {
            projects: so_far.projects + projects,
            failures: so_far.failures,
            searched: true,
        },
        Err(directory) => DiscoveryView {
            projects: so_far.projects,
            failures: so_far.failures.push(directory),
            searched: so_far.searched,
        },
    }
}

/// What the searches `roots` came to, taken together in order.
pub open spec fn gathered(roots: Seq<Searched>) -> DiscoveryView
    decreases roots.len(),
{
    if roots.len() == 0 {
        nothing_yet()
    } else {
        with_root(gathered(roots.drop_last()), roots.last())
    }
}

/// What the searches of `roots` in `tree` come to, root by root.
pub open spec fn searches(tree: Tree, roots: Seq<SourceRootView>) -> Seq<Searched> {
    roots.map_values(|root: SourceRootView| scan_dir(tree, root.path, root.depth))
}

/// What the search of `roots` in `tree` comes to, all roots taken together.
pub open spec fn discovered(tree: Tree, roots: Seq<SourceRootView>) -> DiscoveryView {
    gathered(searches(tree, roots))
}

/// What a discovery hands on: its projects, or, where roots were searched and the
/// search of every one failed, the directories that could not be read.
pub open spec fn usable(found: DiscoveryView) -> Result<Seq<Seq<char>>, Seq<Seq<char>>> {
    if !found.searched && found.failures.len() > 0 {
        Err(found.failures)
    } else {
        Ok(found.projects)
    }
}

/// What the search of one root came to, as plain values.
pub open spec fn searched_view(root: Result<Vec<Project>, ScanError>) -> Searched {
    match root {
        Ok(projects) => Ok(projects.deep_view()),
        Err(e) => Err(e@),
    }
}

impl Discovery {
    /// The discovery before any root was searched.
    pub fn new() -> (found: Discovery)
        ensures
            found@ == nothing_yet(),
    {
        let found = Discovery { projects: Vec::new(), failures: Vec::new(), searched: false };
        assert(found@.projects == Seq::<Seq<char>>::empty());
        assert(found@.failures == Seq::<Seq<char>>::empty());
        found
    }

    /// Takes in what the search of one more root came to.
    pub fn add(&mut self, root: Result<Vec<Project>, ScanError>)
        ensures
            final(self)@ == with_root(old(self)@, searched_view(root)),
    {
        match root {
            Ok(projects) => {
                let ghost before = self.projects.deep_view();
                let ghost added = projects.deep_view();
                let mut projects = projects;
                self.projects.append(&mut projects);
                assert(self.projects.deep_view() == before + added);
                self.searched = true;
            },
            Err(e) => {
                let ghost before = self.failures.deep_view();
                self.failures.push(e);
                assert(self.failures.deep_view() == before.push(e@));
            },
        }
    }

    /// The projects found so far, root after root.
    pub fn projects(&self) -> (projects: &Vec<Project>)
        ensures
            projects.deep_view() == self@.projects,
    {
        &self.projects
    }

    /// The failures so far, in the order of the roots.
    pub fn failures(&self) -> (failures: &Vec<ScanError>)
        ensures
            failures.deep_view() == self@.failures,
    {
        &self.failures
    }

    /// Ends the discovery: its projects, or, where roots were searched and the
    /// search of every one failed, the failures. No project at all is no failure.
    pub fn finish(self) -> (found: Result<Vec<Project>, Vec<ScanError>>)
        ensures
            match found {
                Ok(projects) => usable(self@) == Ok::<Seq<Seq<char>>, Seq<Seq<char>>>(
                    projects.deep_view(),
                ),
                Err(failures) => usable(self@) == Err::<Seq<Seq<char>>, Seq<Seq<char>>>(
                    failures.deep_view(),
                ),
            },
    {
        if !self.searched && self.failures.len() > 0 {
            Err(self.failures)
        } else {
            Ok(self.projects)
        }
    }
}

/// What roots in a row come to is what the first ones come to, with the later ones
/// taken in one after the other.
pub proof fn lemma_gathered_in_turn(first: Seq<Searched>, later: Seq<Searched>)
    ensures
        gathered(first + later).projects == gathered(first).projects + gathered(later).projects,
        gathered(first + later).failures == gathered(first).failures + gathered(later).failures,
        gathered(first + later).searched == (gathered(first).searched || gathered(
            later,
        ).searched),
    decreases later.len(),
{
    if later.len() > 0 {
        lemma_gathered_in_turn(first, later.drop_last());
        assert((first + later).drop_last() == first + later.drop_last());
    }
}

/// A root whose search failed is reported, and changes nothing about the projects
/// of the other roots: they are what they would be had the root not been there.
pub proof fn lemma_failed_root_changes_no_projects(
    before: Seq<Searched>,
    directory: Seq<char>,
    after: Seq<Searched>,
)
    ensures
        gathered(before + seq![Err(directory)] + after).projects == gathered(
            before + after,
        ).projects,
        gathered(before + seq![Err(directory)] + after).failures == gathered(
            before,
        ).failures.push(directory) + gathered(after).failures,
{
    let failed: Seq<Searched> = seq![Err(directory)];
    assert(gathered(failed.drop_last()) == nothing_yet());
    lemma_gathered_in_turn(before, failed);
    lemma_gathered_in_turn(before + failed, after);
    lemma_gathered_in_turn(before, after);
}

/// A source root that does not exist, or cannot be read, is reported with its own
/// path, and changes nothing about the projects of the other roots: they are what
/// they would be had the root not been configured.
pub proof fn lemma_missing_root_changes_no_projects(
    tree: Tree,
    before: Seq<SourceRootView>,
    root: SourceRootView,
    after: Seq<SourceRootView>,
)
    requires
        !tree.dom().contains(root.path),
    ensures
        discovered(tree, before + seq![root] + after).projects == discovered(
            tree,
            before + after,
        ).projects,
        discovered(tree, before + seq![root] + after).failures == discovered(
            tree,
            before,
        ).failures.push(root.path) + discovered(tree, after).failures,
{
    let failed: Searched = Err(root.path);
    assert(searches(tree, before + seq![root] + after) == searches(tree, before) + seq![failed]
        + searches(tree, after));
    assert(searches(tree, before + after) == searches(tree, before) + searches(tree, after));
    lemma_failed_root_changes_no_projects(
        searches(tree, before),
        root.path,
        searches(tree, after),
    );
}

} // verus!
