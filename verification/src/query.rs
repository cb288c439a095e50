use vstd::prelude::*;
use crate::access::AccessSet;
use crate::group::Group;

verus! {

/// The one error this crate's policies report: `bind` was asked to resolve a
/// group that no participant matches.  The store only visits groups the
/// combined predicate accepts, so reaching this value means the caller broke
/// that contract; it is never silently downgraded to a default case.
#[derive(Clone, Copy, Debug, PartialEq, Eq)]
pub struct BindingViolation;

/// The group-predicate side of a component query: decides which storage
/// groups the query can satisfy and reports the query's access footprint to
/// the scheduler.  Combinators implement it over their participants' states,
/// so a combinator state nests inside another combinator.
pub trait QueryState: Sized {
    /// The components this query reads, as reported to the scheduler.
    spec fn reads(&self) -> Set<u64>;

    /// The components this query writes, as reported to the scheduler.
    spec fn writes(&self) -> Set<u64>;

    /// The components of group `g` this query reads.
    spec fn group_reads(&self, g: Group) -> Set<u64>;

    /// The components of group `g` this query writes.
    spec fn group_writes(&self, g: Group) -> Set<u64>;

    /// Whether this query can satisfy group `g`.  Both granularities the
    /// store asks about — the coarse archetype and the dense table — decide
    /// by this one predicate.
    spec fn spec_matches(&self, g: Group) -> bool;

    /// Decide whether archetype `g` matches this query.
    fn matches_archetype(&self, g: &Group) -> (b: bool)
        requires
            g.wf(),
        ensures
            b == self.spec_matches(*g),
    ;

    /// Decide whether table `t` matches this query.
    fn matches_table(&self, t: &Group) -> (b: bool)
        requires
            t.wf(),
        ensures
            b == self.spec_matches(*t),
    ;

    /// Add this query's component footprint to `access`.
    fn update_component_access(&self, access: &mut AccessSet)
        ensures
            final(access).reads_set() == old(access).reads_set().union(self.reads()),
            final(access).writes_set() == old(access).writes_set().union(self.writes()),
    ;

    /// Add this query's footprint on group `g` to `access`.
    fn update_archetype_component_access(&self, g: &Group, access: &mut AccessSet)
        requires
            g.wf(),
        ensures
            final(access).reads_set() == old(access).reads_set().union(self.group_reads(*g)),
            final(access).writes_set() == old(access).writes_set().union(self.group_writes(*g)),
    ;
}

/// The row-fetcher side of a component query.  A fetcher is rebound once per
/// group transition (`set_archetype` / `set_table`); between rebindings it
/// answers one fetch per row, dispatching purely on the decision cached at
/// binding time.
///
/// The binding decision is exposed as an integer code so that every
/// implementation, whatever its own discriminant type, states the same two
/// facts: after a rebinding the cached decision equals `decision_of` for the
/// bound state and group, and no fetch ever changes it.
pub trait QueryFetch: Sized {
    /// The group-predicate state this fetcher is driven by.
    type State: QueryState;

    /// The value produced per matched row.
    type Item;

    /// Well-formedness of the fetcher, established by its constructor and
    /// preserved by every operation.
    spec fn inv(&self) -> bool;

    /// Whether this fetcher belongs to `state`: both were built over the
    /// same participants, so `state`'s decisions drive this fetcher.
    spec fn compatible(&self, state: Self::State) -> bool;

    /// The density hint handed to the store's row-addressing strategy.
    spec fn dense(&self) -> bool;

    /// The number of rows of the group this fetcher is currently bound to.
    spec fn num_rows(&self) -> int;

    /// The currently cached binding decision, as an integer code.
    spec fn decision(&self) -> int;

    /// The item this fetcher yields for `row` of its bound group.
    spec fn item_at(&self, row: int) -> Self::Item;

    /// The decision that binding `state` to group `g` resolves to: a
    /// function of the state and the group alone, so rebinding the same
    /// group always caches the same decision.
    spec fn decision_of(state: Self::State, g: Group) -> int;

    /// The item row `row` of group `g` yields under `state`: a function of
    /// the state, the group and the row alone, so repeated runs fetch
    /// identical items.
    spec fn group_item(state: Self::State, g: Group, row: int) -> Self::Item;

    /// Report the density hint.
    fn is_dense(&self) -> (b: bool)
        requires
            self.inv(),
        ensures
            b == self.dense(),
    ;

    /// Rebind this fetcher to archetype `g`: re-run the resolution policy,
    /// cache its decision, and bind the winning participants' fetchers.
    /// Only groups the predicate accepts are ever visited, so a match is
    /// owed.
    fn set_archetype(&mut self, state: &Self::State, g: &Group)
        requires
            old(self).inv(),
            old(self).compatible(*state),
            g.wf(),
            state.spec_matches(*g),
        ensures
            final(self).inv(),
            final(self).compatible(*state),
            final(self).dense() == old(self).dense(),
            final(self).num_rows() == g.rows as int,
            final(self).decision() == Self::decision_of(*state, *g),
            forall|r: int|
                0 <= r < g.rows as int ==> final(self).item_at(r) == Self::group_item(
                    *state,
                    *g,
                    r,
                ),
    ;

    /// Rebind this fetcher to table `t`; the same policy and the same
    /// guarantees as `set_archetype`.
    fn set_table(&mut self, state: &Self::State, t: &Group)
        requires
            old(self).inv(),
            old(self).compatible(*state),
            t.wf(),
            state.spec_matches(*t),
        ensures
            final(self).inv(),
            final(self).compatible(*state),
            final(self).dense() == old(self).dense(),
            final(self).num_rows() == t.rows as int,
            final(self).decision() == Self::decision_of(*state, *t),
            forall|r: int|
                0 <= r < t.rows as int ==> final(self).item_at(r) == Self::group_item(
                    *state,
                    *t,
                    r,
                ),
    ;

    /// Fetch the item for one row of the bound archetype, dispatching on the
    /// cached decision.  No predicate is re-evaluated and the decision never
    /// changes between rebindings.
    fn archetype_fetch(&mut self, row: usize) -> (it: Self::Item)
        requires
            old(self).inv(),
            (row as int) < old(self).num_rows(),
        ensures
            it == old(self).item_at(row as int),
            final(self).inv(),
            final(self).decision() == old(self).decision(),
            final(self).dense() == old(self).dense(),
            final(self).num_rows() == old(self).num_rows(),
            forall|r: int| final(self).item_at(r) == old(self).item_at(r),
            forall|s: Self::State| #[trigger]
                final(self).compatible(s) == old(self).compatible(s),
    ;

    /// Fetch the item for one row of the bound table; the same guarantees as
    /// `archetype_fetch`.
    fn table_fetch(&mut self, row: usize) -> (it: Self::Item)
        requires
            old(self).inv(),
            (row as int) < old(self).num_rows(),
        ensures
            it == old(self).item_at(row as int),
            final(self).inv(),
            final(self).decision() == old(self).decision(),
            final(self).dense() == old(self).dense(),
            final(self).num_rows() == old(self).num_rows(),
            forall|r: int| final(self).item_at(r) == old(self).item_at(r),
            forall|s: Self::State| #[trigger]
                final(self).compatible(s) == old(self).compatible(s),
    ;
}

} // verus!
