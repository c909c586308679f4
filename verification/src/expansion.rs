//! Which items are expanded, and the body lines cached for them.

use crate::message::{body_lines, body_of};
use std::collections::{HashMap, HashSet};
use vstd::prelude::*;

verus! {

/// The cached bodies as plain text: each index with the lines of its body.
pub open spec fn body_texts(cache: Map<usize, Vec<String>>) -> Map<usize, Seq<Seq<char>>> {
    cache.map_values(|lines: Vec<String>| lines.deep_view())
}

/// The mathematical content of an [`ExpansionStore`].
pub struct ExpansionState {
    /// Indices whose body is to be shown.
    pub expanded: Set<usize>,
    /// Body lines by index, for the indices whose body has been fetched.
    pub bodies: Map<usize, Seq<Seq<char>>>,
}

impl ExpansionState {
    /// Nothing expanded, nothing cached.
    pub open spec fn empty() -> ExpansionState {
        ExpansionState { expanded: Set::empty(), bodies: Map::empty() }
    }

    /// The state after the expansion of `index` has been toggled: membership
    /// of `index` flips, the cache stays as it is.
    pub open spec fn toggle(self, index: usize) -> ExpansionState {
        ExpansionState {
            expanded: if self.expanded.contains(index) {
                self.expanded.remove(index)
            } else {
                self.expanded.insert(index)
            },
            bodies: self.bodies,
        }
    }

    /// The state after `index` has been collapsed.
    pub open spec fn collapse(self, index: usize) -> ExpansionState {
        ExpansionState { expanded: self.expanded.remove(index), bodies: self.bodies }
    }

    /// Whether toggling `index` calls for its message to be fetched: the
    /// toggle expands it and no body is cached for it.
    pub open spec fn wants_body(self, index: usize) -> bool {
        !self.expanded.contains(index) && !self.bodies.contains_key(index)
    }

    /// The state after `lines` have been offered as the body of `index`: they
    /// are cached unless a body is cached for it already.
    pub open spec fn cache(self, index: usize, lines: Seq<Seq<char>>) -> ExpansionState {
        if self.bodies.contains_key(index) {
            self
        } else {
            ExpansionState { expanded: self.expanded, bodies: self.bodies.insert(index, lines) }
        }
    }

    /// Rows that the item at `index` takes: one, plus one per cached body
    /// line while it is expanded.
    pub open spec fn height(self, index: usize) -> int {
        if self.expanded.contains(index) && self.bodies.contains_key(index) {
            1 + self.bodies[index].len() as int
        } else {
            1
        }
    }

    /// Every cached body has at least one line, and few enough for the
    /// height of its item to be a `usize`.
    pub open spec fn bounded(self) -> bool {
        forall|index: usize| #[trigger]
            self.bodies.contains_key(index) ==> 1 <= self.bodies[index].len() < usize::MAX
    }
}

/// The state that a set of expanded indices and a cache of bodies stand for.
pub open spec fn state_of(expanded: Set<usize>, cache: Map<usize, Vec<String>>) -> ExpansionState {
    ExpansionState { expanded, bodies: body_texts(cache) }
}

/// Toggling the same index twice restores the state it started from, cache
/// included.
pub proof fn lemma_toggle_twice(state: ExpansionState, index: usize)
    ensures
        state.toggle(index).toggle(index) == state,
{
    let once = state.toggle(index);
    let twice = once.toggle(index);
    assert(twice.expanded =~= state.expanded);
}

/// Once a body is cached for an index, no toggle of it asks for a fetch, no
/// toggle or collapse changes the cache, and a second offer leaves the first
/// in place.
pub proof fn lemma_body_cached_once(
    state: ExpansionState,
    index: usize,
    first: Seq<Seq<char>>,
    second: Seq<Seq<char>>,
    other: usize,
)
    ensures
        state.cache(index, first).bodies.contains_key(index),
        !state.cache(index, first).wants_body(index),
        !state.cache(index, first).toggle(other).wants_body(index),
        !state.cache(index, first).collapse(other).wants_body(index),
        state.cache(index, first).toggle(other).bodies == state.cache(index, first).bodies,
        state.cache(index, first).collapse(other).bodies == state.cache(index, first).bodies,
        state.cache(index, first).cache(index, second) == state.cache(index, first),
        state.bodies.contains_key(other) ==> state.cache(index, first).bodies[other]
            == state.bodies[other],
{
}

/// The set of expanded items and the cache of their bodies. A body enters
/// the cache when it is first offered for its index and stays as it is from
/// then on; nothing is ever evicted.
pub struct ExpansionStore {
    expanded: HashSet<usize>,
    bodies: HashMap<usize, Vec<String>>,
}

impl View for ExpansionStore {
    type V = ExpansionState;

    closed spec fn view(&self) -> ExpansionState {
        state_of(self.expanded@, self.bodies@)
    }
}

impl ExpansionStore {
    /// The invariant of the store: see [`ExpansionState::bounded`].
    pub open spec fn wf(&self) -> bool {
        self@.bounded()
    }

    /// The cache as it is held: each index with the lines of its body.
    pub closed spec fn cache(&self) -> Map<usize, Vec<String>> {
        self.bodies@
    }

    /// A store with nothing expanded and nothing cached.
    pub fn new() -> (store: ExpansionStore)
        ensures
            store@ == ExpansionState::empty(),
            store.wf(),
    {
        let store = ExpansionStore { expanded: HashSet::new(), bodies: HashMap::new() };
        assert(store@.bodies =~= Map::empty());
        store
    }

    /// The expanded indices.
    pub fn expanded(&self) -> (set: &HashSet<usize>)
        ensures
            set@ == self@.expanded,
            state_of(set@, self.cache()) == self@,
    {
        &self.expanded
    }

    /// The cached bodies.
    pub fn bodies(&self) -> (cache: &HashMap<usize, Vec<String>>)
        ensures
            cache@ == self.cache(),
            body_texts(cache@) == self@.bodies,
    {
        &self.bodies
    }

    /// Whether `index` is expanded.
    pub fn is_expanded(&self, index: usize) -> (yes: bool)
        ensures
            yes == self@.expanded.contains(index),
    {
        broadcast use vstd::std_specs::hash::group_hash_axioms;

        self.expanded.contains(&index)
    }

    /// The cached body of `index`, if there is one.
    pub fn body(&self, index: usize) -> (body: Option<&Vec<String>>)
        ensures
            body is Some <==> self@.bodies.contains_key(index),
            body is Some ==> body->0.deep_view() == self@.bodies[index],
    {
        broadcast use vstd::std_specs::hash::group_hash_axioms;

        self.bodies.get(&index)
    }

    /// Whether toggling `index` now would call for its message.
    pub fn wants_body(&self, index: usize) -> (wanted: bool)
        ensures
            wanted == self@.wants_body(index),
    {
        broadcast use vstd::std_specs::hash::group_hash_axioms;

        !self.expanded.contains(&index) && !self.bodies.contains_key(&index)
    }

    /// Toggles the expansion of `index` and says whether its message should
    /// now be fetched and offered through [`ExpansionStore::cache_body`].
    pub fn toggle(&mut self, index: usize) -> (fetch: bool)
        ensures
            final(self)@ == old(self)@.toggle(index),
            fetch == old(self)@.wants_body(index),
    {
        broadcast use vstd::std_specs::hash::group_hash_axioms;

        if self.expanded.contains(&index) {
            self.expanded.remove(&index);
            false
        } else {
            self.expanded.insert(index);
            !self.bodies.contains_key(&index)
        }
    }

    /// Collapses `index`; its cached body, if any, stays.
    pub fn collapse(&mut self, index: usize)
        ensures
            final(self)@ == old(self)@.collapse(index),
    {
        broadcast use vstd::std_specs::hash::group_hash_axioms;

        self.expanded.remove(&index);
    }

    /// Offers the full message of the item at `index`. Unless a body is
    /// cached for it already, the body lines of `message` are cached.
    pub fn cache_body(&mut self, index: usize, message: &str)
        requires
            old(self).wf(),
        ensures
            final(self)@ == old(self)@.cache(index, body_of(message@)),
            final(self).wf(),
    {
        broadcast use vstd::std_specs::hash::group_hash_axioms;

        if !self.bodies.contains_key(&index) {
            let body = body_lines(message);
            let ghost lines = body.deep_view();
            self.bodies.insert(index, body);
            assert(body_texts(self.bodies@) =~= body_texts(old(self).bodies@).insert(index, lines));
        }
    }

    /// Rows that the item at `index` takes on screen.
    pub fn height(&self, index: usize) -> (rows: usize)
        requires
            self.wf(),
        ensures
            rows == self@.height(index),
    {
        broadcast use vstd::std_specs::hash::group_hash_axioms;

        if self.expanded.contains(&index) {
            match self.bodies.get(&index) {
                Some(body) => {
                    assert(self@.bodies.contains_key(index));
                    assert(self@.bodies[index].len() == body@.len());
                    1 + body.len()
                },
                None => 1,
            }
        } else {
            1
        }
    }
}

} // verus!
