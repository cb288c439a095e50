use vstd::prelude::*;
use crate::access::AccessSet;
use crate::group::Group;
use crate::query::{BindingViolation, QueryFetch, QueryState};

verus! {

/// A row's item under the overlap-aware combinator: the first sub-query's
/// item, the second's, or both when both sub-queries match the row's group.
#[derive(Debug, PartialEq, Eq, PartialOrd, Ord, Clone, Copy, Hash)]
pub enum EitherBoth<T, U> {
    Left(T),
    Right(U),
    Both(T, U),
}

/// The cached decision of the overlap-aware combinator for the group
/// currently bound: which participant(s) are authoritative for its rows.
#[derive(Debug, PartialEq, Eq, Clone, Copy)]
pub enum OverlapBinding {
    Left,
    Right,
    Both,
}

impl OverlapBinding {
    /// The decision as the integer code used by the `QueryFetch` contract.
    pub open spec fn code(self) -> int {
        match self {
            OverlapBinding::Left => 0,
            OverlapBinding::Right => 1,
            OverlapBinding::Both => 2,
        }
    }
}

/// The overlap-aware resolution policy: `Both` exactly when both
/// participants match, one side exactly when it alone matches.
pub open spec fn overlap_choice(left_matches: bool, right_matches: bool) -> OverlapBinding {
    if left_matches && right_matches {
        OverlapBinding::Both
    } else if left_matches {
        OverlapBinding::Left
    } else {
        OverlapBinding::Right
    }
}

/// Turn the two participants' match results into the overlap-aware
/// decision, or report the binding invariant violation when neither
/// matches: a group no participant matches must never have been visited,
/// and is never silently resolved to a default.
pub fn resolve_overlap(left_matches: bool, right_matches: bool) -> (r: Result<
    OverlapBinding,
    BindingViolation,
>)
    ensures
        r is Ok <==> (left_matches || right_matches),
        (left_matches || right_matches) ==> r == Ok::<OverlapBinding, BindingViolation>(
            overlap_choice(left_matches, right_matches),
        ),
{
    if left_matches && right_matches {
        Ok(OverlapBinding::Both)
    } else if left_matches {
        Ok(OverlapBinding::Left)
    } else if right_matches {
        Ok(OverlapBinding::Right)
    } else {
        Err(BindingViolation)
    }
}

/// Overlap completeness: under the overlap-aware policy, `Both` is chosen
/// if and only if both participants match, and each single side if and only
/// if exactly that side matches.
pub proof fn lemma_overlap_complete(left_matches: bool, right_matches: bool)
    requires
        left_matches || right_matches,
    ensures
        overlap_choice(left_matches, right_matches) == OverlapBinding::Both <==> (left_matches
            && right_matches),
        overlap_choice(left_matches, right_matches) == OverlapBinding::Left <==> (left_matches
            && !right_matches),
        overlap_choice(left_matches, right_matches) == OverlapBinding::Right <==> (!left_matches
            && right_matches),
{
}

/// The combinator's group-predicate state: one participant state per side.
/// Its own predicate is the logical or of its participants', and its access
/// footprint is the union of theirs.
pub struct EitherBothState<T: QueryState, U: QueryState> {
    /// The first (higher-priority) participant's state.
    pub left_state: T,
    /// The second participant's state.
    pub right_state: U,
}

impl<T: QueryState, U: QueryState> EitherBothState<T, U> {
    /// Combine two participant states.
    pub fn init(left_state: T, right_state: U) -> (s: EitherBothState<T, U>)
        ensures
            s.left_state == left_state,
            s.right_state == right_state,
    {
        EitherBothState { left_state, right_state }
    }
}

impl<T: QueryState, U: QueryState> QueryState for EitherBothState<T, U> {
    open spec fn reads(&self) -> Set<u64> {
        self.left_state.reads().union(self.right_state.reads())
    }

    open spec fn writes(&self) -> Set<u64> {
        self.left_state.writes().union(self.right_state.writes())
    }

    open spec fn group_reads(&self, g: Group) -> Set<u64> {
        self.left_state.group_reads(g).union(self.right_state.group_reads(g))
    }

    open spec fn group_writes(&self, g: Group) -> Set<u64> {
        self.left_state.group_writes(g).union(self.right_state.group_writes(g))
    }

    open spec fn spec_matches(&self, g: Group) -> bool {
        self.left_state.spec_matches(g) || self.right_state.spec_matches(g)
    }

    fn matches_archetype(&self, g: &Group) -> (b: bool) {
        self.left_state.matches_archetype(g) || self.right_state.matches_archetype(g)
    }

    fn matches_table(&self, t: &Group) -> (b: bool) {
        self.left_state.matches_table(t) || self.right_state.matches_table(t)
    }

    fn update_component_access(&self, access: &mut AccessSet) {
        self.left_state.update_component_access(access);
        self.right_state.update_component_access(access);
        proof {
            assert(access.reads_set() =~= old(access).reads_set().union(self.reads()));
            assert(access.writes_set() =~= old(access).writes_set().union(self.writes()));
        }
    }

    fn update_archetype_component_access(&self, g: &Group, access: &mut AccessSet) {
        self.left_state.update_archetype_component_access(g, access);
        self.right_state.update_archetype_component_access(g, access);
        proof {
            assert(access.reads_set() =~= old(access).reads_set().union(self.group_reads(*g)));
            assert(access.writes_set() =~= old(access).writes_set().union(self.group_writes(*g)));
        }
    }
}

/// Access-union soundness: the combinator state's reported footprint is
/// exactly the union of its participants' footprints, whatever those are.
pub proof fn lemma_state_access_union<T: QueryState, U: QueryState>(s: EitherBothState<T, U>)
    ensures
        s.reads() == s.left_state.reads().union(s.right_state.reads()),
        s.writes() == s.left_state.writes().union(s.right_state.writes()),
{
}

/// Read-only propagation: the combinator writes nothing if and only if
/// neither participant writes anything.
pub proof fn lemma_state_read_only<T: QueryState, U: QueryState>(s: EitherBothState<T, U>)
    ensures
        s.writes() =~= Set::<u64>::empty() <==> (s.left_state.writes() =~= Set::<u64>::empty()
            && s.right_state.writes() =~= Set::<u64>::empty()),
{
    if s.writes() =~= Set::<u64>::empty() {
        assert forall|c: u64| !(#[trigger] s.left_state.writes().contains(c)) by {
            assert(!s.writes().contains(c));
        }
        assert forall|c: u64| !(#[trigger] s.right_state.writes().contains(c)) by {
            assert(!s.writes().contains(c));
        }
    }
}

/// The overlap-aware combinator's row fetcher: one participant fetcher per
/// side plus the decision cached at the latest group rebinding.
pub struct EitherBothFetch<T, U> {
    /// The first participant's fetcher.
    pub left: T,
    /// The second participant's fetcher.
    pub right: U,
    /// Which participant(s) are bound to the current group.
    pub binding: OverlapBinding,
}

impl<T: QueryFetch, U: QueryFetch> EitherBothFetch<T, U> {
    /// Combine two participant fetchers; the cached decision starts at the
    /// first side and is overwritten by the first rebinding.
    pub fn init(left: T, right: U) -> (f: EitherBothFetch<T, U>)
        requires
            left.inv(),
            right.inv(),
        ensures
            f.left == left,
            f.right == right,
            f.binding == OverlapBinding::Left,
            f.inv(),
    {
        EitherBothFetch { left, right, binding: OverlapBinding::Left }
    }
}

impl<T: QueryFetch, U: QueryFetch> QueryFetch for EitherBothFetch<T, U> {
    type State = EitherBothState<T::State, U::State>;

    type Item = EitherBoth<T::Item, U::Item>;

    open spec fn inv(&self) -> bool {
        &&& self.left.inv()
        &&& self.right.inv()
        &&& (self.binding == OverlapBinding::Both ==> self.left.num_rows()
            == self.right.num_rows())
    }

    open spec fn compatible(&self, state: EitherBothState<T::State, U::State>) -> bool {
        self.left.compatible(state.left_state) && self.right.compatible(state.right_state)
    }

    open spec fn dense(&self) -> bool {
        self.left.dense() && self.right.dense()
    }

    open spec fn num_rows(&self) -> int {
        match self.binding {
            OverlapBinding::Left => self.left.num_rows(),
            OverlapBinding::Right => self.right.num_rows(),
            OverlapBinding::Both => self.left.num_rows(),
        }
    }

    open spec fn decision(&self) -> int {
        self.binding.code()
    }

    open spec fn item_at(&self, row: int) -> EitherBoth<T::Item, U::Item> {
        match self.binding {
            OverlapBinding::Left => EitherBoth::Left(self.left.item_at(row)),
            OverlapBinding::Right => EitherBoth::Right(self.right.item_at(row)),
            OverlapBinding::Both => EitherBoth::Both(
                self.left.item_at(row),
                self.right.item_at(row),
            ),
        }
    }

    open spec fn decision_of(state: EitherBothState<T::State, U::State>, g: Group) -> int {
        overlap_choice(
            state.left_state.spec_matches(g),
            state.right_state.spec_matches(g),
        ).code()
    }

    open spec fn group_item(state: EitherBothState<T::State, U::State>, g: Group, row: int)
        -> EitherBoth<T::Item, U::Item> {
        match overlap_choice(state.left_state.spec_matches(g), state.right_state.spec_matches(g)) {
            OverlapBinding::Left => EitherBoth::Left(T::group_item(state.left_state, g, row)),
            OverlapBinding::Right => EitherBoth::Right(U::group_item(state.right_state, g, row)),
            OverlapBinding::Both => EitherBoth::Both(
                T::group_item(state.left_state, g, row),
                U::group_item(state.right_state, g, row),
            ),
        }
    }

    fn is_dense(&self) -> (b: bool) {
        self.left.is_dense() && self.right.is_dense()
    }

    fn set_archetype(&mut self, state: &EitherBothState<T::State, U::State>, g: &Group) {
        let left_match = state.left_state.matches_archetype(g);
        let right_match = state.right_state.matches_archetype(g);
        match resolve_overlap(left_match, right_match) {
            Ok(OverlapBinding::Both) => {
                self.left.set_archetype(&state.left_state, g);
                self.right.set_archetype(&state.right_state, g);
                self.binding = OverlapBinding::Both;
            },
            Ok(OverlapBinding::Left) => {
                self.left.set_archetype(&state.left_state, g);
                self.binding = OverlapBinding::Left;
            },
            Ok(OverlapBinding::Right) => {
                self.binding = OverlapBinding::Right;
                self.right.set_archetype(&state.right_state, g);
            },
            Err(_) => {
                proof {
                    assert(false);
                }
            },
        }
    }

    fn set_table(&mut self, state: &EitherBothState<T::State, U::State>, t: &Group) {
        let left_match = state.left_state.matches_table(t);
        let right_match = state.right_state.matches_table(t);
        match resolve_overlap(left_match, right_match) {
            Ok(OverlapBinding::Both) => {
                self.left.set_table(&state.left_state, t);
                self.right.set_table(&state.right_state, t);
                self.binding = OverlapBinding::Both;
            },
            Ok(OverlapBinding::Left) => {
                self.left.set_table(&state.left_state, t);
                self.binding = OverlapBinding::Left;
            },
            Ok(OverlapBinding::Right) => {
                self.binding = OverlapBinding::Right;
                self.right.set_table(&state.right_state, t);
            },
            Err(_) => {
                proof {
                    assert(false);
                }
            },
        }
    }

    fn archetype_fetch(&mut self, row: usize) -> (it: EitherBoth<T::Item, U::Item>) {
        match self.binding {
            OverlapBinding::Both => EitherBoth::Both(
                self.left.archetype_fetch(row),
                self.right.archetype_fetch(row),
            ),
            OverlapBinding::Left => EitherBoth::Left(self.left.archetype_fetch(row)),
            OverlapBinding::Right => EitherBoth::Right(self.right.archetype_fetch(row)),
        }
    }

    fn table_fetch(&mut self, row: usize) -> (it: EitherBoth<T::Item, U::Item>) {
        match self.binding {
            OverlapBinding::Both => EitherBoth::Both(
                self.left.table_fetch(row),
                self.right.table_fetch(row),
            ),
            OverlapBinding::Left => EitherBoth::Left(self.left.table_fetch(row)),
            OverlapBinding::Right => EitherBoth::Right(self.right.table_fetch(row)),
        }
    }
}

} // verus!
