//! What the multiplexer knows: the sessions that are live, and whether the caller
//! already runs inside one.

use vstd::prelude::*;
use vstd::utf8::{decode_utf8, valid_utf8};
use crate::encoding::{decode_lossy, lossy_text};
use crate::error::{ExternalToolError, Tool, ToolFailure};
use crate::text::{lines, lines_of, split_at_first, split_once};

verus! {

/// The session names that `lines` announce, in order: of each line that holds a
/// colon, the text before the first one. Lines without a colon announce nothing.
pub open spec fn names_in(lines: Seq<Seq<char>>) -> Seq<Seq<char>>
    decreases lines.len(),
{
    if lines.len() == 0 {
        Seq::empty()
    } else {
        let before = names_in(lines.drop_last());
        match split_at_first(lines.last(), ':') {
            Some((name, _)) => before.push(name),
            None => before,
        }
    }
}

/// The session names in the multiplexer's list of sessions.
pub open spec fn session_names(listing: Seq<char>) -> Seq<Seq<char>> {
    names_in(lines_of(listing))
}

/// What a run knows of the multiplexer, taken once and not refreshed.
pub struct SessionFactsView {
    /// Whether the caller runs inside a session of the multiplexer.
    pub running_inside_session: bool,
    /// The names of the live sessions, each once, in the order in which the
    /// multiplexer first listed them.
    pub live: Seq<Seq<char>>,
}

/// What a run knows of the multiplexer, taken once and not refreshed.
#[derive(Debug, PartialEq, Eq)]
pub struct SessionFacts {
    running_inside_session: bool,
    live: Vec<String>,
}

impl View for SessionFacts {
    type V = SessionFactsView;

    closed spec fn view(&self) -> SessionFactsView {
        SessionFactsView {
            running_inside_session: self.running_inside_session,
            live: self.live.deep_view(),
        }
    }
}

/// `names` with each name once, at the place where it first stands.
pub open spec fn each_once(names: Seq<Seq<char>>) -> Seq<Seq<char>>
    decreases names.len(),
{
    if names.len() == 0 {
        Seq::empty()
    } else {
        let before = each_once(names.drop_last());
        if before.contains(names.last()) {
            before
        } else {
            before.push(names.last())
        }
    }
}

/// The facts that a list of sessions and the caller's own state amount to.
pub open spec fn facts_of(listing: Seq<char>, inside: bool) -> SessionFactsView {
    SessionFactsView { running_inside_session: inside, live: each_once(session_names(listing)) }
}

/// What an inspection comes to: the facts, where the multiplexer listed its
/// sessions and exited with code 0, and its failure otherwise. A list of no sessions
/// is a list like any other.
pub open spec fn inspection(exit_code: Option<i32>, listing: Seq<char>, inside: bool) -> Result<
    SessionFactsView,
    ExternalToolError,
> {
    match exit_code {
        Some(code) => if code == 0 {
            Ok(facts_of(listing, inside))
        } else {
            Err(ExternalToolError { tool: Tool::Multiplexer, failure: ToolFailure::ExitCode(code) })
        },
        None => Err(ExternalToolError { tool: Tool::Multiplexer, failure: ToolFailure::NoExitCode }),
    }
}

/// Whether `names` holds `wanted`.
fn holds(names: &Vec<String>, wanted: &String) -> (found: bool)
    ensures
        found == names.deep_view().contains(wanted@),
{
    let mut i: usize = 0;
    while i < names.len()
        invariant
            i <= names.len(),
            forall|j: int| 0 <= j < i ==> names.deep_view()[j] != wanted@,
        decreases names.len() - i,
    {
        if names[i] == *wanted {
            assert(names.deep_view()[i as int] == wanted@);
            return true;
        }
        i += 1;
    }
    false
}

impl SessionFacts {
    #[verifier::type_invariant]
    spec fn each_name_once(self) -> bool {
        self.live.deep_view().no_duplicates()
    }

    /// The facts made of the caller's own state and the names of the live sessions.
    /// A name that `names` holds more than once counts once.
    pub fn new(running_inside_session: bool, names: Vec<String>) -> (facts: SessionFacts)
        ensures
            facts@ == (SessionFactsView {
                running_inside_session,
                live: each_once(names.deep_view()),
            }),
    {
        let mut live: Vec<String> = Vec::new();
        let mut i: usize = 0;
        while i < names.len()
            invariant
                i <= names.len(),
                live.deep_view() == each_once(names.deep_view().take(i as int)),
            decreases names.len() - i,
        {
            assert(names.deep_view().take(i + 1).drop_last() == names.deep_view().take(i as int));
            if !holds(&live, &names[i]) {
                live.push(names[i].clone());
            }
            i += 1;
        }
        assert(names.deep_view().take(names.len() as int) == names.deep_view());
        proof {
            lemma_each_once(names.deep_view());
        }
        SessionFacts { running_inside_session, live }
    }

    /// Whether the caller runs inside a session of the multiplexer.
    pub fn running_inside_session(&self) -> (inside: bool)
        ensures
            inside == self@.running_inside_session,
    {
        self.running_inside_session
    }

    /// Whether a session named `name`, letter for letter, is live.
    pub fn has_session(&self, name: &str) -> (live: bool)
        ensures
            live == self@.live.contains(name@),
    {
        let wanted = name.to_owned();
        holds(&self.live, &wanted)
    }

    /// The names of the live sessions, each once.
    pub fn live_sessions(&self) -> (names: &Vec<String>)
        ensures
            names.deep_view() == self@.live,
            names.deep_view().no_duplicates(),
    {
        proof {
            use_type_invariant(self);
        }
        &self.live
    }
}

/// The session names in the multiplexer's list of sessions, in the order of the list.
pub fn parse_sessions(listing: &str) -> (names: Vec<String>)
    ensures
        names.deep_view() == session_names(listing@),
{
    let all = lines(listing);
    let mut names: Vec<String> = Vec::new();
    let mut i: usize = 0;
    while i < all.len()
        invariant
            i <= all.len(),
            names.deep_view() == names_in(all.deep_view().take(i as int)),
        decreases all.len() - i,
    {
        assert(all.deep_view().take(i + 1).drop_last() == all.deep_view().take(i as int));
        match split_once(all[i].as_str(), ':') {
            Some((name, _)) => {
                names.push(name);
            },
            None => {},
        }
        i += 1;
    }
    assert(all.deep_view().take(all.len() as int) == all.deep_view());
    names
}

/// Whether the caller runs inside a session, going by the marker that the
/// multiplexer leaves in the environment of what runs inside it. The marker's
/// presence decides, whatever its value.
pub fn running_inside(marker: Option<&str>) -> (inside: bool)
    ensures
        inside == marker is Some,
{
    marker.is_some()
}

/// The facts, from the multiplexer's exit code, the list of sessions that it wrote,
/// and the marker in the caller's environment.
pub fn inspect_text(exit_code: Option<i32>, listing: &str, marker: Option<&str>) -> (facts: Result<
    SessionFacts,
    ExternalToolError,
>)
    ensures
        match facts {
            Ok(f) => inspection(exit_code, listing@, marker is Some) == Ok::<
                SessionFactsView,
                ExternalToolError,
            >(f@),
            Err(e) => inspection(exit_code, listing@, marker is Some) == Err::<
                SessionFactsView,
                ExternalToolError,
            >(e),
        },
{
    match exit_code {
        Some(code) => {
            if code == 0 {
                Ok(SessionFacts::new(running_inside(marker), parse_sessions(listing)))
            } else {
                Err(
                    ExternalToolError {
                        tool: Tool::Multiplexer,
                        failure: ToolFailure::ExitCode(code),
                    },
                )
            }
        },
        None => Err(ExternalToolError { tool: Tool::Multiplexer, failure: ToolFailure::NoExitCode }),
    }
}

/// The facts, from the multiplexer's exit code, the bytes that it wrote, and the
/// marker in the caller's environment. The bytes are read as text without fail: a
/// session name that is no UTF-8 is no reason to give up the others. Bytes that are
/// UTF-8 are read as the text that they encode.
pub fn inspect(exit_code: Option<i32>, stdout: &[u8], marker: Option<&str>) -> (facts: Result<
    SessionFacts,
    ExternalToolError,
>)
    ensures
        match facts {
            Ok(f) => inspection(exit_code, lossy_text(stdout@), marker is Some) == Ok::<
                SessionFactsView,
                ExternalToolError,
            >(f@),
            Err(e) => inspection(exit_code, lossy_text(stdout@), marker is Some) == Err::<
                SessionFactsView,
                ExternalToolError,
            >(e),
        },
        valid_utf8(stdout@) ==> lossy_text(stdout@) == decode_utf8(stdout@),
{
    let listing = decode_lossy(stdout);
    inspect_text(exit_code, listing.as_str(), marker)
}

/// Asked twice of the same multiplexer in the same environment, an inspection
/// answers the same: its facts depend on nothing but the exit code, the list and
/// the marker.
pub proof fn lemma_inspection_repeats(
    exit_code: Option<i32>,
    listing: Seq<char>,
    inside: bool,
    first: Result<SessionFactsView, ExternalToolError>,
    second: Result<SessionFactsView, ExternalToolError>,
)
    requires
        first == inspection(exit_code, listing, inside),
        second == inspection(exit_code, listing, inside),
    ensures
        first == second,
{
}

/// `each_once` holds the names that it was given, and none of them twice.
pub proof fn lemma_each_once(names: Seq<Seq<char>>)
    ensures
        each_once(names).no_duplicates(),
        forall|name: Seq<char>| each_once(names).contains(name) <==> names.contains(name),
    decreases names.len(),
{
    if names.len() > 0 {
        let before = each_once(names.drop_last());
        let last = names.last();
        lemma_each_once(names.drop_last());
        let all = each_once(names);
        assert forall|name: Seq<char>| all.contains(name) <==> names.contains(name) by {
            if names.contains(name) {
                let i = choose|i: int| 0 <= i < names.len() && names[i] == name;
                if i < names.len() - 1 {
                    assert(names.drop_last()[i] == name);
                    assert(names.drop_last().contains(name));
                    assert(before.contains(name));
                    let j = choose|j: int| 0 <= j < before.len() && before[j] == name;
                    assert(all[j] == name);
                } else if before.contains(last) {
                    let j = choose|j: int| 0 <= j < before.len() && before[j] == last;
                    assert(all[j] == name);
                } else {
                    assert(all[before.len() as int] == name);
                }
            }
            if all.contains(name) {
                let j = choose|j: int| 0 <= j < all.len() && all[j] == name;
                if j < before.len() {
                    assert(before[j] == name);
                    assert(before.contains(name));
                    assert(names.drop_last().contains(name));
                    let i = choose|i: int|
                        0 <= i < names.drop_last().len() && names.drop_last()[i] == name;
                    assert(names[i] == name);
                } else {
                    assert(names[names.len() - 1] == name);
                }
            }
        }
    }
}

/// A session counts as live exactly where the multiplexer listed it, and the facts
/// hold no name twice.
pub proof fn lemma_live_is_what_was_listed(listing: Seq<char>, inside: bool)
    ensures
        facts_of(listing, inside).live.no_duplicates(),
        forall|name: Seq<char>|
            facts_of(listing, inside).live.contains(name) <==> session_names(listing).contains(
                name,
            ),
{
    lemma_each_once(session_names(listing));
}

} // verus!
