//! Paths as text, under the rules of Unix: components are separated by `/`, empty
//! components and `.` components count for nothing, and a path that starts with `/`
//! is absolute.

use vstd::prelude::*;
use vstd::string::{StrSliceExecFns, StringExecFns};
use crate::text::chars_of;

verus! {

/// Where the last component of `path` starts, taken letter by letter: just after
/// the last `/`, or at 0 when `path` holds none.
pub open spec fn last_segment_start(path: Seq<char>) -> int
    decreases path.len(),
{
    if path.len() == 0 || path.last() == '/' {
        path.len() as int
    } else {
        last_segment_start(path.drop_last())
    }
}

/// The components of `path`, in order: the stretches between its `/`, but for the
/// empty ones and those that are `.`.
pub open spec fn components(path: Seq<char>) -> Seq<Seq<char>>
    decreases path.len(),
{
    let start = last_segment_start(path);
    if path.len() == 0 {
        Seq::empty()
    } else if path.last() == '/' {
        components(path.drop_last())
    } else if 0 <= start < path.len() {
        let before = components(path.take(start));
        if path.skip(start) == seq!['.'] {
            before
        } else {
            before.push(path.skip(start))
        }
    } else {
        Seq::empty()
    }
}

/// The final component of `path`: the last of its components. There is none when
/// the path has no component (the empty path, `/`, `.`) or when the last one is
/// `..`.
pub open spec fn final_component(path: Seq<char>) -> Option<Seq<char>> {
    let all = components(path);
    if all.len() == 0 || all.last() == seq!['.', '.'] {
        None
    } else {
        Some(all.last())
    }
}

/// Whether `text` can be a component of a path: it is not empty, holds no `/`, and
/// is not `.`.
pub open spec fn is_component(text: Seq<char>) -> bool {
    text.len() > 0 && !text.contains('/') && text != seq!['.']
}

/// Whether `name` can be the name of an entry of a directory: it can be a
/// component, and is not `..`.
pub open spec fn is_entry_name(name: Seq<char>) -> bool {
    is_component(name) && name != seq!['.', '.']
}

/// `base` extended by `component`: an absolute `component` takes the place of
/// `base`; any other follows it, after a `/` unless `base` is empty or ends in one.
pub open spec fn joined(base: Seq<char>, component: Seq<char>) -> Seq<char> {
    if component.len() > 0 && component[0] == '/' {
        component
    } else if base.len() == 0 || base.last() == '/' {
        base + component
    } else {
        base + seq!['/'] + component
    }
}

/// `last_segment_start` lies within the path, the text after it holds no `/`, and
/// a `/` stands just before it unless it is 0.
pub proof fn lemma_last_segment_start(path: Seq<char>)
    ensures
        0 <= last_segment_start(path) <= path.len(),
        forall|j: int| last_segment_start(path) <= j < path.len() ==> path[j] != '/',
        last_segment_start(path) > 0 ==> path[last_segment_start(path) - 1] == '/',
    decreases path.len(),
{
    if path.len() > 0 && path.last() != '/' {
        let head = path.drop_last();
        lemma_last_segment_start(head);
        assert forall|j: int| last_segment_start(path) <= j < path.len() implies path[j]
            != '/' by {
            if j < head.len() {
                assert(path[j] == head[j]);
            }
        }
    }
}

/// A position with no `/` after it and a `/` just before it (or none at all, at 0)
/// is `last_segment_start`.
pub proof fn lemma_last_segment_start_is(path: Seq<char>, start: int)
    requires
        0 <= start <= path.len(),
        forall|j: int| start <= j < path.len() ==> path[j] != '/',
        start > 0 ==> path[start - 1] == '/',
    ensures
        last_segment_start(path) == start,
{
    lemma_last_segment_start(path);
}

/// Every component of a path can be one: it is not empty, holds no `/`, and is
/// not `.`.
pub proof fn lemma_components_are_components(path: Seq<char>)
    ensures
        forall|i: int| 0 <= i < components(path).len() ==> is_component(
            #[trigger] components(path)[i],
        ),
    decreases path.len(),
{
    if path.len() == 0 {
        assert(components(path).len() == 0);
    } else if path.last() == '/' {
        lemma_components_are_components(path.drop_last());
        assert(components(path) == components(path.drop_last()));
    } else {
        lemma_last_segment_start(path);
        let start = last_segment_start(path);
        let segment = path.skip(start);
        let before = components(path.take(start));
        lemma_components_are_components(path.take(start));
        if segment.contains('/') {
            let j = choose|j: int| 0 <= j < segment.len() && segment[j] == '/';
            assert(path[start + j] == '/');
        }
        assert forall|i: int| 0 <= i < components(path).len() implies is_component(
            #[trigger] components(path)[i],
        ) by {
            if i < before.len() {
                assert(components(path)[i] == before[i]);
            } else {
                assert(components(path)[i] == segment);
            }
        }
    }
}

/// A final component can be the name of an entry of a directory: it is not empty,
/// holds no `/`, and is neither `.` nor `..`.
pub proof fn lemma_final_component_is_a_name(path: Seq<char>)
    ensures
        final_component(path) matches Some(name) ==> is_entry_name(name),
{
    lemma_components_are_components(path);
}

/// A directory's path extended by the name of one of its entries has the
/// directory's components, and the name as one more.
pub proof fn lemma_components_of_joined(dir: Seq<char>, name: Seq<char>)
    requires
        is_entry_name(name),
    ensures
        components(joined(dir, name)) == components(dir).push(name),
{
    let path = joined(dir, name);
    let start = path.len() - name.len();
    assert(name[0] != '/');
    assert forall|j: int| start <= j < path.len() implies path[j] != '/' by {
        assert(path[j] == name[j - start]);
    }
    lemma_last_segment_start_is(path, start);
    assert(path.skip(start) == name);
    if dir.len() == 0 || dir.last() == '/' {
        assert(path.take(start) == dir);
    } else {
        let with_slash = dir + seq!['/'];
        assert(path.take(start) == with_slash);
        assert(with_slash.drop_last() == dir);
        assert(components(with_slash) == components(dir));
    }
}

/// The final component of `path`, if it has one.
pub fn file_name(path: &str) -> (name: Option<&str>)
    ensures
        match name {
            Some(n) => final_component(path@) == Some(n@),
            None => final_component(path@) is None,
        },
{
    let chars = chars_of(path);
    let mut end: usize = chars.len();
    assert(path@.take(end as int) == path@);
    while end > 0
        invariant
            chars@ == path@,
            end <= chars.len(),
            final_component(path@) == final_component(path@.take(end as int)),
        decreases end,
    {
        let ghost head = path@.take(end as int);
        if chars[end - 1] == '/' {
            assert(head.drop_last() == path@.take(end - 1));
            end -= 1;
        } else {
            let mut start: usize = end - 1;
            while start > 0 && chars[start - 1] != '/'
                invariant
                    chars@ == path@,
                    start < end <= chars.len(),
                    forall|j: int| start <= j < end ==> chars@[j] != '/',
                decreases start,
            {
                start -= 1;
            }
            proof {
                lemma_last_segment_start_is(head, start as int);
                assert(head.skip(start as int) == path@.subrange(start as int, end as int));
            }
            let ghost segment = path@.subrange(start as int, end as int);
            if end - start == 1 && chars[start] == '.' {
                assert(segment == seq!['.']);
                assert(head.drop_last() == path@.take(end - 1));
                end -= 1;
            } else if end - start == 2 && chars[start] == '.' && chars[start + 1] == '.' {
                assert(segment == seq!['.', '.']);
                return None;
            } else {
                assert(segment == seq!['.'] ==> segment.len() == 1 && segment[0] == '.');
                assert(segment == seq!['.', '.'] ==> segment.len() == 2 && segment[1] == '.');
                return Some(path.substring_char(start, end));
            }
        }
    }
    None
}

/// `base` extended by `component`.
pub fn join(base: &str, component: &str) -> (path: String)
    ensures
        path@ == joined(base@, component@),
{
    let base_len = base.unicode_len();
    if component.unicode_len() > 0 && component.get_char(0) == '/' {
        return component.to_owned();
    }
    let mut path = base.to_owned();
    if base_len > 0 && base.get_char(base_len - 1) != '/' {
        proof {
            reveal_strlit("/");
        }
        path.append("/");
    }
    path.append(component);
    path
}

} // verus!
