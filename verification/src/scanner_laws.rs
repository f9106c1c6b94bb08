//! What holds of the search for projects: that reading directory after directory
//! arrives at the projects of `scan_dir`, and where those projects lie.

use vstd::prelude::*;
use crate::config::SourceRootView;
use crate::paths::{components, is_entry_name, joined, lemma_components_of_joined};
use crate::scanner::{
    after, begin, below_pending, both, lies_below, listing, next_dir, outcome, put_up, reads,
    reads_below, reads_pending, result, scan_dir, scan_entries, step, subdirectories, EntryKind,
    EntryView, ScanView, Searched, Tree,
};

verus! {

/// Searching three places, one after the other, does not depend on which two are
/// taken together.
pub proof fn lemma_both_associates(a: Searched, b: Searched, c: Searched)
    ensures
        both(both(a, b), c) == both(a, both(b, c)),
{
    if a is Ok && b is Ok && c is Ok {
        assert((a->Ok_0 + b->Ok_0) + c->Ok_0 == a->Ok_0 + (b->Ok_0 + c->Ok_0));
    }
}

/// A place in which nothing is found, and nothing fails, leaves what the search of
/// the other came to.
pub proof fn lemma_both_with_nothing(a: Searched)
    ensures
        both(Ok(Seq::empty()), a) == a,
        both(a, Ok(Seq::empty())) == a,
{
    if a is Ok {
        assert(Seq::<Seq<char>>::empty() + a->Ok_0 == a->Ok_0);
        assert(a->Ok_0 + Seq::<Seq<char>>::empty() == a->Ok_0);
    }
}

/// One level above the projects, the projects below a directory's entries are the
/// directories among them.
pub proof fn lemma_scan_entries_at_last_level(tree: Tree, entries: Seq<EntryView>, depth: nat)
    requires
        depth <= 1,
    ensures
        scan_entries(tree, entries, depth) == Ok::<Seq<Seq<char>>, Seq<char>>(
            subdirectories(entries),
        ),
    decreases entries.len(),
{
    if entries.len() > 0 {
        lemma_scan_entries_at_last_level(tree, entries.drop_first(), depth);
        if entries.first().kind != EntryKind::Directory {
            lemma_both_with_nothing(scan_entries(tree, entries.drop_first(), depth));
        }
    }
}

/// Higher up, the projects below the directories that were put up for reading are
/// the projects below the entries.
pub proof fn lemma_below_put_up(
    tree: Tree,
    others: Seq<(Seq<char>, nat)>,
    entries: Seq<EntryView>,
    depth: nat,
)
    requires
        depth > 1,
    ensures
        below_pending(tree, others + put_up(entries, (depth - 1) as nat)) == both(
            scan_entries(tree, entries, depth),
            below_pending(tree, others),
        ),
    decreases entries.len(),
{
    let less = (depth - 1) as nat;
    if entries.len() == 0 {
        assert(others + put_up(entries, less) == others);
        lemma_both_with_nothing(below_pending(tree, others));
    } else {
        let first = entries.first();
        let rest = entries.drop_first();
        lemma_below_put_up(tree, others, rest, depth);
        if first.kind == EntryKind::Directory {
            let pending = others + put_up(entries, less);
            assert(pending == (others + put_up(rest, less)).push((first.path, less)));
            assert(pending.drop_last() == others + put_up(rest, less));
            assert(pending.last() == (first.path, less));
            lemma_both_associates(
                scan_dir(tree, first.path, less),
                scan_entries(tree, rest, depth),
                below_pending(tree, others),
            );
        } else {
            lemma_both_with_nothing(scan_entries(tree, rest, depth));
        }
    }
}

/// Reading the next directory of `tree` leaves what the search will have found as
/// it was.
pub proof fn lemma_step_keeps_outcome(tree: Tree, state: ScanView)
    requires
        next_dir(state) is Some,
    ensures
        outcome(tree, step(state, listing(tree, next_dir(state)->0))) == outcome(tree, state),
{
    let (dir, depth) = state.pending.last();
    let others = state.pending.drop_last();
    let rest = below_pending(tree, others);
    if tree.dom().contains(dir) {
        let entries = tree[dir];
        if depth <= 1 {
            lemma_scan_entries_at_last_level(tree, entries, depth);
            lemma_both_associates(Ok(state.found), Ok(subdirectories(entries)), rest);
        } else {
            lemma_below_put_up(tree, others, entries, depth);
        }
    }
}

/// However many directories of `tree` the search reads, what it will have found
/// stays as it was.
pub proof fn lemma_reading_keeps_outcome(tree: Tree, state: ScanView, steps: nat)
    ensures
        outcome(tree, after(tree, state, steps)) == outcome(tree, state),
    decreases steps,
{
    if steps > 0 && next_dir(state) is Some {
        lemma_step_keeps_outcome(tree, state);
        lemma_reading_keeps_outcome(
            tree,
            step(state, listing(tree, next_dir(state)->0)),
            (steps - 1) as nat,
        );
    }
}

/// Before anything is read, what the search of a root will have found is what
/// `scan_dir` says of the root.
pub proof fn lemma_outcome_at_begin(tree: Tree, root: SourceRootView)
    ensures
        outcome(tree, begin(root)) == scan_dir(tree, root.path, root.depth),
{
    let pending = seq![(root.path, root.depth)];
    assert(pending.drop_last() == Seq::<(Seq<char>, nat)>::empty());
    assert(below_pending(tree, pending.drop_last()) == Ok::<Seq<Seq<char>>, Seq<char>>(
        Seq::empty(),
    ));
    assert(below_pending(tree, pending) == both(
        scan_dir(tree, root.path, root.depth),
        Ok(Seq::empty()),
    ));
    lemma_both_with_nothing(scan_dir(tree, root.path, root.depth));
}

/// The search of a root, fed with what reading the directories of `tree` gives,
/// arrives at what `scan_dir` says: once no directory is left to read, it holds
/// exactly those projects, in that order, or has failed at exactly that directory.
pub proof fn lemma_scan_arrives(tree: Tree, root: SourceRootView, steps: nat)
    requires
        next_dir(after(tree, begin(root), steps)) is None,
    ensures
        result(after(tree, begin(root), steps)) == scan_dir(tree, root.path, root.depth),
{
    let end = after(tree, begin(root), steps);
    lemma_reading_keeps_outcome(tree, begin(root), steps);
    lemma_outcome_at_begin(tree, root);
    if end.failure is None {
        assert(end.pending.len() == 0);
        lemma_both_with_nothing(Ok(end.found));
    }
}

/// One level above the projects, the walk reads nothing below a directory's
/// entries.
pub proof fn lemma_reads_nothing_at_last_level(tree: Tree, entries: Seq<EntryView>, depth: nat)
    requires
        depth <= 1,
    ensures
        reads_below(tree, entries, depth) == 0,
    decreases entries.len(),
{
    if entries.len() > 0 {
        lemma_reads_nothing_at_last_level(tree, entries.drop_first(), depth);
    }
}

/// Higher up, the directories that were put up for reading take as many readings
/// as the walk makes below the entries.
pub proof fn lemma_reads_of_put_up(
    tree: Tree,
    others: Seq<(Seq<char>, nat)>,
    entries: Seq<EntryView>,
    depth: nat,
)
    requires
        depth > 1,
    ensures
        reads_pending(tree, others + put_up(entries, (depth - 1) as nat)) == reads_pending(
            tree,
            others,
        ) + reads_below(tree, entries, depth),
    decreases entries.len(),
{
    let less = (depth - 1) as nat;
    if entries.len() == 0 {
        assert(others + put_up(entries, less) == others);
    } else {
        let first = entries.first();
        let rest = entries.drop_first();
        lemma_reads_of_put_up(tree, others, rest, depth);
        if first.kind == EntryKind::Directory {
            let pending = others + put_up(entries, less);
            assert(pending == (others + put_up(rest, less)).push((first.path, less)));
            assert(pending.drop_last() == others + put_up(rest, less));
            assert(pending.last() == (first.path, less));
        }
    }
}

/// A search is over once it has read as many directories as its pending ones
/// take, or earlier.
pub proof fn lemma_reading_ends(tree: Tree, state: ScanView, steps: nat)
    requires
        state.failure is None ==> reads_pending(tree, state.pending) <= steps,
    ensures
        next_dir(after(tree, state, steps)) is None,
    decreases steps,
{
    if next_dir(state) is Some {
        let (dir, depth) = state.pending.last();
        let others = state.pending.drop_last();
        let next = step(state, listing(tree, dir));
        if tree.dom().contains(dir) {
            if depth <= 1 {
                lemma_reads_nothing_at_last_level(tree, tree[dir], depth);
            } else {
                lemma_reads_of_put_up(tree, others, tree[dir], depth);
            }
        }
        lemma_reading_ends(tree, next, (steps - 1) as nat);
    }
}

/// The search of a root ends, and ends as `scan_dir` says: when it has read as many
/// directories of `tree` as the walk of `scan_dir` reads at most, no directory is
/// left to read, and it holds exactly the projects of `scan_dir`, in that order, or
/// has failed at exactly that directory.
pub proof fn lemma_scan_ends(tree: Tree, root: SourceRootView)
    ensures
        next_dir(after(tree, begin(root), reads(tree, root.path, root.depth))) is None,
        result(after(tree, begin(root), reads(tree, root.path, root.depth))) == scan_dir(
            tree,
            root.path,
            root.depth,
        ),
{
    let pending = seq![(root.path, root.depth)];
    assert(pending.drop_last() == Seq::<(Seq<char>, nat)>::empty());
    assert(reads_pending(tree, pending.drop_last()) == 0);
    assert(reads_pending(tree, pending) == reads(tree, root.path, root.depth));
    lemma_reading_ends(tree, begin(root), reads(tree, root.path, root.depth));
    lemma_scan_arrives(tree, root, reads(tree, root.path, root.depth));
}

/// Every project below the entries of `dir` from the `from`-th on lies `depth`
/// levels below `dir`.
proof fn lemma_entries_lie_below(tree: Tree, dir: Seq<char>, from: int, depth: nat)
    requires
        depth >= 1,
        tree.dom().contains(dir),
        0 <= from <= tree[dir].len(),
        scan_entries(tree, tree[dir].skip(from), depth) is Ok,
    ensures
        forall|j: int|
            0 <= j < scan_entries(tree, tree[dir].skip(from), depth)->Ok_0.len() ==> lies_below(
                tree,
                dir,
                #[trigger] scan_entries(tree, tree[dir].skip(from), depth)->Ok_0[j],
                depth,
            ),
    decreases depth, 0nat, tree[dir].len() - from,
{
    let entries = tree[dir].skip(from);
    let found = scan_entries(tree, entries, depth)->Ok_0;
    if entries.len() > 0 {
        let first = entries.first();
        assert(first == tree[dir][from]);
        assert(entries.drop_first() == tree[dir].skip(from + 1));
        lemma_entries_lie_below(tree, dir, from + 1, depth);
        let later = scan_entries(tree, tree[dir].skip(from + 1), depth)->Ok_0;
        let below_first: Seq<Seq<char>> = if first.kind != EntryKind::Directory {
            Seq::empty()
        } else if depth <= 1 {
            seq![first.path]
        } else {
            scan_dir(tree, first.path, (depth - 1) as nat)->Ok_0
        };
        assert(found == below_first + later);
        if first.kind == EntryKind::Directory && depth > 1 {
            lemma_projects_lie_below(tree, first.path, (depth - 1) as nat);
        }
        assert forall|j: int| 0 <= j < found.len() implies lies_below(
            tree,
            dir,
            #[trigger] found[j],
            depth,
        ) by {
            if j < below_first.len() {
                assert(found[j] == below_first[j]);
                assert(tree[dir][from].kind == EntryKind::Directory);
                assert(lies_below(tree, first.path, found[j], (depth - 1) as nat));
            } else {
                assert(found[j] == later[j - below_first.len()]);
            }
        }
    }
}

/// Every project that a search with depth `depth` finds below `dir` lies exactly
/// `depth` levels below it: it is reached from `dir` by going down `depth` times into
/// an entry that is a directory, and so is a directory itself.
pub proof fn lemma_projects_lie_below(tree: Tree, dir: Seq<char>, depth: nat)
    requires
        depth >= 1,
        scan_dir(tree, dir, depth) is Ok,
    ensures
        forall|j: int|
            0 <= j < scan_dir(tree, dir, depth)->Ok_0.len() ==> lies_below(
                tree,
                dir,
                #[trigger] scan_dir(tree, dir, depth)->Ok_0[j],
                depth,
            ),
    decreases depth, 1nat, 0nat,
{
    assert(tree[dir].skip(0) == tree[dir]);
    lemma_entries_lie_below(tree, dir, 0, depth);
}

/// What a search finds below entries holds what it finds below each directory among
/// them: the directory itself one level above the projects, and higher up what the
/// search of that directory finds, which does not fail.
proof fn lemma_found_below_entry(tree: Tree, entries: Seq<EntryView>, depth: nat, i: int)
    requires
        scan_entries(tree, entries, depth) is Ok,
        0 <= i < entries.len(),
        entries[i].kind == EntryKind::Directory,
    ensures
        depth <= 1 ==> scan_entries(tree, entries, depth)->Ok_0.contains(entries[i].path),
        depth > 1 ==> scan_dir(tree, entries[i].path, (depth - 1) as nat) is Ok,
        depth > 1 ==> forall|path: Seq<char>|
            scan_dir(tree, entries[i].path, (depth - 1) as nat)->Ok_0.contains(path)
                ==> #[trigger] scan_entries(tree, entries, depth)->Ok_0.contains(path),
    decreases entries.len(),
{
    let found = scan_entries(tree, entries, depth)->Ok_0;
    let first = entries.first();
    let rest = entries.drop_first();
    let later = scan_entries(tree, rest, depth)->Ok_0;
    let below_first: Seq<Seq<char>> = if first.kind != EntryKind::Directory {
        Seq::empty()
    } else if depth <= 1 {
        seq![first.path]
    } else {
        scan_dir(tree, first.path, (depth - 1) as nat)->Ok_0
    };
    assert(found == below_first + later);
    if i == 0 {
        if depth <= 1 {
            assert(found[0] == entries[i].path);
        } else {
            assert forall|path: Seq<char>| below_first.contains(path) implies found.contains(
                path,
            ) by {
                let j = choose|j: int| 0 <= j < below_first.len() && below_first[j] == path;
                assert(found[j] == path);
            }
        }
    } else {
        assert(rest[i - 1] == entries[i]);
        lemma_found_below_entry(tree, rest, depth, i - 1);
        assert forall|path: Seq<char>| later.contains(path) implies found.contains(path) by {
            let j = choose|j: int| 0 <= j < later.len() && later[j] == path;
            assert(found[below_first.len() + j] == path);
        }
    }
}

/// A search that does not fail misses nothing: every path that lies `depth` levels
/// below `dir`, reached through directories only, is among the projects that a
/// search with depth `depth` finds below `dir`.
pub proof fn lemma_all_below_are_found(tree: Tree, dir: Seq<char>, path: Seq<char>, depth: nat)
    requires
        depth >= 1,
        scan_dir(tree, dir, depth) is Ok,
        lies_below(tree, dir, path, depth),
    ensures
        scan_dir(tree, dir, depth)->Ok_0.contains(path),
    decreases depth,
{
    let i = choose|i: int|
        tree.dom().contains(dir) && 0 <= i < tree[dir].len() && (#[trigger] tree[dir][i]).kind
            == EntryKind::Directory && lies_below(
            tree,
            tree[dir][i].path,
            path,
            (depth - 1) as nat,
        );
    lemma_found_below_entry(tree, tree[dir], depth, i);
    if depth > 1 {
        lemma_all_below_are_found(tree, tree[dir][i].path, path, (depth - 1) as nat);
    }
}

/// Whether the entries of `tree` bear the paths that reading a directory gives them:
/// the directory's path, extended by the entry's name.
pub open spec fn entries_are_named(tree: Tree) -> bool {
    forall|dir: Seq<char>, i: int|
        tree.dom().contains(dir) && 0 <= i < tree[dir].len() ==> exists|name: Seq<char>|
            is_entry_name(name) && (#[trigger] tree[dir][i]).path == joined(dir, name)
}

/// Where the entries bear the paths that reading gives them, the path of what lies
/// `levels` levels below `dir` has the components of `dir`, and `levels` more.
pub proof fn lemma_components_below(tree: Tree, dir: Seq<char>, path: Seq<char>, levels: nat)
    requires
        entries_are_named(tree),
        lies_below(tree, dir, path, levels),
    ensures
        components(path).len() == components(dir).len() + levels,
        components(path).take(components(dir).len() as int) == components(dir),
    decreases levels,
{
    if levels == 0 {
        assert(components(dir).take(components(dir).len() as int) == components(dir));
    } else {
        let i = choose|i: int|
            tree.dom().contains(dir) && 0 <= i < tree[dir].len() && (#[trigger] tree[dir][i]).kind
                == EntryKind::Directory && lies_below(
                tree,
                tree[dir][i].path,
                path,
                (levels - 1) as nat,
            );
        let entry = tree[dir][i];
        let name = choose|name: Seq<char>|
            is_entry_name(name) && entry.path == joined(dir, name);
        lemma_components_of_joined(dir, name);
        lemma_components_below(tree, entry.path, path, (levels - 1) as nat);
        assert(components(path).take(components(dir).len() as int) == components(
            entry.path,
        ).take(components(dir).len() as int));
        assert(components(dir).push(name).take(components(dir).len() as int) == components(
            dir,
        ));
    }
}

/// Every project that a search with depth `depth` finds below `dir` has a path with
/// the components of `dir` and exactly `depth` more, where the entries bear the
/// paths that reading gives them.
pub proof fn lemma_projects_are_depth_components_down(tree: Tree, dir: Seq<char>, depth: nat)
    requires
        depth >= 1,
        entries_are_named(tree),
        scan_dir(tree, dir, depth) is Ok,
    ensures
        forall|j: int|
            0 <= j < scan_dir(tree, dir, depth)->Ok_0.len() ==> {
                let path = #[trigger] scan_dir(tree, dir, depth)->Ok_0[j];
                &&& components(path).len() == components(dir).len() + depth
                &&& components(path).take(components(dir).len() as int) == components(dir)
            },
{
    lemma_projects_lie_below(tree, dir, depth);
    let found = scan_dir(tree, dir, depth)->Ok_0;
    assert forall|j: int| 0 <= j < found.len() implies {
        let path = #[trigger] found[j];
        &&& components(path).len() == components(dir).len() + depth
        &&& components(path).take(components(dir).len() as int) == components(dir)
    } by {
        lemma_components_below(tree, dir, found[j], depth);
    }
}

/// A directory that can be read and holds no directory holds no project, and that
/// is no failure.
pub proof fn lemma_no_directories_no_projects(tree: Tree, dir: Seq<char>, depth: nat)
    requires
        tree.dom().contains(dir),
        forall|i: int| 0 <= i < tree[dir].len() ==> (#[trigger] tree[dir][i]).kind
            != EntryKind::Directory,
    ensures
        scan_dir(tree, dir, depth) == Ok::<Seq<Seq<char>>, Seq<char>>(Seq::empty()),
{
    lemma_only_others(tree, tree[dir], depth);
}

/// Entries of which none is a directory have no project below them.
proof fn lemma_only_others(tree: Tree, entries: Seq<EntryView>, depth: nat)
    requires
        forall|i: int| 0 <= i < entries.len() ==> (#[trigger] entries[i]).kind
            != EntryKind::Directory,
    ensures
        scan_entries(tree, entries, depth) == Ok::<Seq<Seq<char>>, Seq<char>>(Seq::empty()),
    decreases entries.len(),
{
    if entries.len() > 0 {
        assert(entries.first() == entries[0]);
        assert forall|i: int| 0 <= i < entries.drop_first().len() implies (
        #[trigger] entries.drop_first()[i]).kind != EntryKind::Directory by {
            assert(entries.drop_first()[i] == entries[i + 1]);
        }
        lemma_only_others(tree, entries.drop_first(), depth);
        lemma_both_with_nothing(Ok(Seq::<Seq<char>>::empty()));
    }
}

} // verus!
