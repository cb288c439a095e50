use vstd::prelude::*;
use crate::either_both::{overlap_choice, EitherBothState, OverlapBinding};
use crate::group::Group;
use crate::query::{BindingViolation, QueryFetch, QueryState};

verus! {

/// A row's item under the binary priority combinator: the first sub-query's
/// item whenever the first sub-query matches the row's group, the second's
/// only as the fallback.  There is no "both" case — when both match, the
/// first wins.
#[derive(Debug, PartialEq, Eq, PartialOrd, Ord, Clone, Copy, Hash)]
pub enum Either<T, U> {
    Left(T),
    Right(U),
}

/// The cached decision of the priority combinator for the group currently
/// bound: which participant is authoritative for its rows.
#[derive(Debug, PartialEq, Eq, Clone, Copy)]
pub enum PriorityBinding {
    Left,
    Right,
}

impl PriorityBinding {
    /// The decision as the integer code used by the `QueryFetch` contract.
    pub open spec fn code(self) -> int {
        match self {
            PriorityBinding::Left => 0,
            PriorityBinding::Right => 1,
        }
    }
}

/// The priority resolution policy: the first participant wins whenever it
/// matches, regardless of the second; the second is only the fallback.
pub open spec fn priority_choice(left_matches: bool, right_matches: bool) -> PriorityBinding {
    if left_matches {
        PriorityBinding::Left
    } else {
        PriorityBinding::Right
    }
}

/// Turn the two participants' match results into the priority decision, or
/// report the binding invariant violation when neither matches: a group no
/// participant matches must never have been visited, and is never silently
/// resolved to a default.
pub fn resolve_priority(left_matches: bool, right_matches: bool) -> (r: Result<
    PriorityBinding,
    BindingViolation,
>)
    ensures
        r is Ok <==> (left_matches || right_matches),
        (left_matches || right_matches) ==> r == Ok::<PriorityBinding, BindingViolation>(
            priority_choice(left_matches, right_matches),
        ),
{
    if left_matches {
        Ok(PriorityBinding::Left)
    } else if right_matches {
        Ok(PriorityBinding::Right)
    } else {
        Err(BindingViolation)
    }
}

/// The priority property, binary form: whenever the first participant
/// matches the decision is the first side, even if the second also matches;
/// the second side is chosen exactly when it alone matches.
pub proof fn lemma_priority_prefers_first(left_matches: bool, right_matches: bool)
    requires
        left_matches || right_matches,
    ensures
        priority_choice(left_matches, right_matches) == PriorityBinding::Left <==> left_matches,
        priority_choice(left_matches, right_matches) == PriorityBinding::Right <==> (!left_matches
            && right_matches),
{
}

/// The overlap-aware policy strictly generalizes the priority policy: every
/// group the priority policy resolves to one side keeps that side under the
/// overlap-aware policy, except that a group both participants match, which
/// the priority policy collapses into the first side, is exposed as `Both`.
pub proof fn lemma_overlap_refines_priority(left_matches: bool, right_matches: bool)
    requires
        left_matches || right_matches,
    ensures
        (overlap_choice(left_matches, right_matches) == OverlapBinding::Left || overlap_choice(
            left_matches,
            right_matches,
        ) == OverlapBinding::Both) <==> priority_choice(left_matches, right_matches)
            == PriorityBinding::Left,
        overlap_choice(left_matches, right_matches) == OverlapBinding::Right <==> priority_choice(
            left_matches,
            right_matches,
        ) == PriorityBinding::Right,
{
}

/// The binary priority combinator's row fetcher: one participant fetcher
/// per side plus the decision cached at the latest group rebinding.  Its
/// group-predicate state is [`EitherBothState`], shared with the
/// overlap-aware combinator: both decide applicability by the same or of
/// their participants' predicates.
pub struct EitherFetch<T, U> {
    /// The first (higher-priority) participant's fetcher.
    pub left: T,
    /// The second (fallback) participant's fetcher.
    pub right: U,
    /// Which participant is bound to the current group.
    pub binding: PriorityBinding,
}

impl<T: QueryFetch, U: QueryFetch> EitherFetch<T, U> {
    /// Combine two participant fetchers; the cached decision starts at the
    /// first side and is overwritten by the first rebinding.
    pub fn init(left: T, right: U) -> (f: EitherFetch<T, U>)
        requires
            left.inv(),
            right.inv(),
        ensures
            f.left == left,
            f.right == right,
            f.binding == PriorityBinding::Left,
            f.inv(),
    {
        EitherFetch { left, right, binding: PriorityBinding::Left }
    }
}

impl<T: QueryFetch, U: QueryFetch> QueryFetch for EitherFetch<T, U> {
    type State = EitherBothState<T::State, U::State>;

    type Item = Either<T::Item, U::Item>;

    open spec fn inv(&self) -> bool {
        self.left.inv() && self.right.inv()
    }

    open spec fn compatible(&self, state: EitherBothState<T::State, U::State>) -> bool {
        self.left.compatible(state.left_state) && self.right.compatible(state.right_state)
    }

    open spec fn dense(&self) -> bool {
        self.left.dense() && self.right.dense()
    }

    open spec fn num_rows(&self) -> int {
        match self.binding {
            PriorityBinding::Left => self.left.num_rows(),
            PriorityBinding::Right => self.right.num_rows(),
        }
    }

    open spec fn decision(&self) -> int {
        self.binding.code()
    }

    open spec fn item_at(&self, row: int) -> Either<T::Item, U::Item> {
        match self.binding {
            PriorityBinding::Left => Either::Left(self.left.item_at(row)),
            PriorityBinding::Right => Either::Right(self.right.item_at(row)),
        }
    }

    open spec fn decision_of(state: EitherBothState<T::State, U::State>, g: Group) -> int {
        priority_choice(
            state.left_state.spec_matches(g),
            state.right_state.spec_matches(g),
        ).code()
    }

    open spec fn group_item(state: EitherBothState<T::State, U::State>, g: Group, row: int)
        -> Either<T::Item, U::Item> {
        if state.left_state.spec_matches(g) {
            Either::Left(T::group_item(state.left_state, g, row))
        } else {
            Either::Right(U::group_item(state.right_state, g, row))
        }
    }

    fn is_dense(&self) -> (b: bool) {
        self.left.is_dense() && self.right.is_dense()
    }

    fn set_archetype(&mut self, state: &EitherBothState<T::State, U::State>, g: &Group) {
        let left_match = state.left_state.matches_archetype(g);
        let right_match = state.right_state.matches_archetype(g);
        match resolve_priority(left_match, right_match) {
            Ok(PriorityBinding::Left) => {
                self.left.set_archetype(&state.left_state, g);
                self.binding = PriorityBinding::Left;
            },
            Ok(PriorityBinding::Right) => {
                self.binding = PriorityBinding::Right;
                self.right.set_archetype(&state.right_state, g);
            },
            Err(_) => {
                proof {
                    assert(false);
                }
            },
        }
    }

    fn set_table(&mut self, state: &EitherBothState<T::State, U::State>, t: &Group) {
        let left_match = state.left_state.matches_table(t);
        let right_match = state.right_state.matches_table(t);
        match resolve_priority(left_match, right_match) {
            Ok(PriorityBinding::Left) => {
                self.left.set_table(&state.left_state, t);
                self.binding = PriorityBinding::Left;
            },
            Ok(PriorityBinding::Right) => {
                self.binding = PriorityBinding::Right;
                self.right.set_table(&state.right_state, t);
            },
            Err(_) => {
                proof {
                    assert(false);
                }
            },
        }
    }

    fn archetype_fetch(&mut self, row: usize) -> (it: Either<T::Item, U::Item>) {
        match self.binding {
            PriorityBinding::Left => Either::Left(self.left.archetype_fetch(row)),
            PriorityBinding::Right => Either::Right(self.right.archetype_fetch(row)),
        }
    }

    fn table_fetch(&mut self, row: usize) -> (it: Either<T::Item, U::Item>) {
        match self.binding {
            PriorityBinding::Left => Either::Left(self.left.table_fetch(row)),
            PriorityBinding::Right => Either::Right(self.right.table_fetch(row)),
        }
    }
}

} // verus!
