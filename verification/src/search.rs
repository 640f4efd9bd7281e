//! The dispatch loop's bookkeeping and the termination state machine.
//!
//! A `Searcher` owns the set of article identifiers already admitted to
//! expansion and the Running/Terminated state. The surrounding loop hands it
//! every frontier arrival and every task outcome; the `Searcher` decides, and
//! its decisions follow the spec-level transition functions below, on which
//! the deduplication and termination laws are proved.

use vstd::prelude::*;
use crate::classifier::str_eq;
use crate::expand::Expansion;

verus! {

/// What the dispatch loop does with one arriving frontier path.
pub enum Dispatch {
    Spawn,
    Duplicate,
    Halted,
}

/// The mathematical state of the search: which identifiers have been
/// admitted to expansion, in admission order, and whether the search has
/// terminated.
#[verifier::ext_equal]
pub struct SearchModel {
    pub visited: Seq<Seq<char>>,
    pub terminated: bool,
}

/// The decision for a frontier path ending in `id`: nothing is dispatched
/// after termination, a visited identifier is a duplicate, and anything else
/// is spawned.
pub open spec fn dispatch_decision(m: SearchModel, id: Seq<char>) -> Dispatch {
    if m.terminated {
        Dispatch::Halted
    } else if m.visited.contains(id) {
        Dispatch::Duplicate
    } else {
        Dispatch::Spawn
    }
}

/// The state after a frontier path ending in `id` has been handled: only a
/// spawn admits the identifier; nothing else changes anything.
pub open spec fn dispatch_next(m: SearchModel, id: Seq<char>) -> SearchModel {
    if m.terminated || m.visited.contains(id) {
        m
    } else {
        SearchModel { visited: m.visited.push(id), ..m }
    }
}

/// The state after one expansion outcome: a match terminates the search,
/// once and for all; a completion changes nothing.
pub open spec fn outcome_next(m: SearchModel, matched: bool) -> SearchModel {
    if matched {
        SearchModel { terminated: true, ..m }
    } else {
        m
    }
}

pub struct Searcher {
    visited: Vec<String>,
    terminated: bool,
}

impl Searcher {
    /// The abstract state this value stands for.
    pub closed spec fn model(self) -> SearchModel {
        SearchModel { visited: self.visited.deep_view(), terminated: self.terminated }
    }

    /// A fresh search: nothing visited, running.
    pub fn new() -> (s: Searcher)
        ensures
            s.model() == (SearchModel { visited: Seq::<Seq<char>>::empty(), terminated: false }),
    {
        let s = Searcher { visited: Vec::new(), terminated: false };
        proof {
            assert(s.model().visited =~= Seq::<Seq<char>>::empty());
        }
        s
    }

    /// Is the search over?
    pub fn is_terminated(&self) -> (t: bool)
        ensures
            t == self.model().terminated,
    {
        self.terminated
    }

    /// Handles one frontier arrival, deciding by the path's last identifier:
    /// after termination nothing is dispatched; a duplicate is dropped; and
    /// otherwise the identifier is admitted, exactly once, for expansion.
    pub fn on_frontier_path(&mut self, path: &Vec<String>) -> (d: Dispatch)
        requires
            path@.len() > 0,
        ensures
            d == dispatch_decision(old(self).model(), path.deep_view().last()),
            final(self).model() == dispatch_next(old(self).model(), path.deep_view().last()),
    {
        if self.terminated {
            return Dispatch::Halted;
        }
        let node = &path[path.len() - 1];
        let ghost id = path.deep_view().last();
        proof {
            assert(node@ == id);
        }
        let mut i: usize = 0;
        while i < self.visited.len()
            invariant
                i <= self.visited@.len(),
                *self == *old(self),
                !old(self).terminated,
                forall|j: int| 0 <= j < i ==> self.visited.deep_view()[j] != id,
                node@ == id,
                path@.len() > 0,
                id == path.deep_view().last(),
            decreases self.visited@.len() - i,
        {
            if str_eq(self.visited[i].as_str(), node.as_str()) {
                proof {
                    assert(old(self).model().visited[i as int] == id);
                    assert(old(self).model().visited.contains(id));
                }
                return Dispatch::Duplicate;
            }
            i += 1;
        }
        proof {
            assert(forall|j: int|
                0 <= j < old(self).model().visited.len() ==> old(self).model().visited[j] != id);
            assert(!old(self).model().visited.contains(id));
        }
        self.visited.push(node.clone());
        proof {
            assert(self.model().visited =~= old(self).model().visited.push(id));
            assert(self.model() =~= dispatch_next(old(self).model(), id));
        }
        Dispatch::Spawn
    }

    /// Consumes one task outcome. The first match flips the state to
    /// Terminated and hands back the winning path; a completion changes
    /// nothing and hands back nothing.
    pub fn on_outcome(&mut self, outcome: Expansion) -> (r: Option<Vec<String>>)
        ensures
            final(self).model() == outcome_next(old(self).model(), outcome is Matched),
            match outcome {
                Expansion::Completed => r is None,
                Expansion::Matched(p) => r == Some(p),
            },
    {
        match outcome {
            Expansion::Completed => {
                proof {
                    assert(self.model() =~= outcome_next(self.model(), false));
                }
                None
            },
            Expansion::Matched(p) => {
                self.terminated = true;
                proof {
                    assert(self.model() =~= outcome_next(old(self).model(), true));
                }
                Some(p)
            },
        }
    }
}

/// Law: an identifier admitted once is never admitted again — after a spawn
/// for `id`, every later arrival ending in `id` is classified a duplicate
/// and changes nothing, so at most one expansion task exists per identifier.
pub proof fn lemma_duplicate_dropped(m: SearchModel, id: Seq<char>)
    requires
        dispatch_decision(m, id) == Dispatch::Spawn,
    ensures
        dispatch_decision(dispatch_next(m, id), id) == Dispatch::Duplicate,
        dispatch_next(dispatch_next(m, id), id) == dispatch_next(m, id),
{
    let next = dispatch_next(m, id);
    assert(next.visited[m.visited.len() as int] == id);
    assert(next.visited.contains(id));
}

/// Law: the first match terminates the search, Terminated is absorbing, and
/// a terminated search dispatches nothing — no later frontier arrival is
/// spawned or recorded, and no later outcome changes the state.
pub proof fn lemma_match_terminates(m: SearchModel, id: Seq<char>, matched_again: bool)
    ensures
        outcome_next(m, true).terminated,
        dispatch_decision(outcome_next(m, true), id) == Dispatch::Halted,
        dispatch_next(outcome_next(m, true), id) == outcome_next(m, true),
        outcome_next(outcome_next(m, true), matched_again) =~= outcome_next(m, true),
{
}

} // verus!
