use vstd::prelude::*;
use crate::access::AccessSet;
use crate::group::Group;
use crate::query::{QueryFetch, QueryState};

verus! {

/// The leaf group predicate: matches exactly the groups that carry one
/// component, and reports that component as its footprint — read-only
/// unless declared writeable.
pub struct ComponentState {
    /// The component this query asks for.
    pub component: u64,
    /// Whether the query takes mutable access to the component.
    pub writeable: bool,
}

/// The leaf row fetcher: once bound to a group it holds a copy of that
/// group's column for its component and yields the column's value per row.
pub struct ComponentFetch {
    /// The component whose column is fetched.
    pub component: u64,
    /// The bound group's column for `component`.
    pub column: Vec<u64>,
    /// The density hint this fetcher reports.
    pub is_dense_hint: bool,
}

impl ComponentState {
    /// A query for `component`, writeable or read-only.
    pub fn init(component: u64, writeable: bool) -> (s: ComponentState)
        ensures
            s.component == component,
            s.writeable == writeable,
    {
        ComponentState { component, writeable }
    }
}

impl QueryState for ComponentState {
    open spec fn reads(&self) -> Set<u64> {
        set![self.component]
    }

    open spec fn writes(&self) -> Set<u64> {
        if self.writeable {
            set![self.component]
        } else {
            Set::empty()
        }
    }

    open spec fn group_reads(&self, g: Group) -> Set<u64> {
        if g.has(self.component) {
            set![self.component]
        } else {
            Set::empty()
        }
    }

    open spec fn group_writes(&self, g: Group) -> Set<u64> {
        if self.writeable && g.has(self.component) {
            set![self.component]
        } else {
            Set::empty()
        }
    }

    open spec fn spec_matches(&self, g: Group) -> bool {
        g.has(self.component)
    }

    fn matches_archetype(&self, g: &Group) -> (b: bool) {
        g.has_component(self.component)
    }

    fn matches_table(&self, t: &Group) -> (b: bool) {
        t.has_component(self.component)
    }

    fn update_component_access(&self, access: &mut AccessSet) {
        access.add_read(self.component);
        if self.writeable {
            access.add_write(self.component);
        }
        proof {
            assert(access.reads_set() =~= old(access).reads_set().union(self.reads()));
            assert(access.writes_set() =~= old(access).writes_set().union(self.writes()));
        }
    }

    fn update_archetype_component_access(&self, g: &Group, access: &mut AccessSet) {
        if g.has_component(self.component) {
            access.add_read(self.component);
            if self.writeable {
                access.add_write(self.component);
            }
        }
        proof {
            assert(access.reads_set() =~= old(access).reads_set().union(self.group_reads(*g)));
            assert(access.writes_set() =~= old(access).writes_set().union(self.group_writes(*g)));
        }
    }
}

impl ComponentFetch {
    /// A fetcher for `component`, not yet bound to any group.
    pub fn init(component: u64, is_dense_hint: bool) -> (f: ComponentFetch)
        ensures
            f.component == component,
            f.dense() == is_dense_hint,
            f.inv(),
            f.num_rows() == 0,
    {
        ComponentFetch { component, column: Vec::new(), is_dense_hint }
    }
}

impl QueryFetch for ComponentFetch {
    type State = ComponentState;

    type Item = u64;

    open spec fn inv(&self) -> bool {
        true
    }

    open spec fn compatible(&self, state: ComponentState) -> bool {
        state.component == self.component
    }

    open spec fn dense(&self) -> bool {
        self.is_dense_hint
    }

    open spec fn num_rows(&self) -> int {
        self.column@.len() as int
    }

    open spec fn decision(&self) -> int {
        0
    }

    open spec fn item_at(&self, row: int) -> u64 {
        self.column@[row]
    }

    open spec fn decision_of(state: ComponentState, g: Group) -> int {
        0
    }

    open spec fn group_item(state: ComponentState, g: Group, row: int) -> u64 {
        g.column_of(state.component)[row]
    }

    fn is_dense(&self) -> (b: bool) {
        self.is_dense_hint
    }

    fn set_archetype(&mut self, state: &ComponentState, g: &Group) {
        self.column = g.column_copy(self.component);
    }

    fn set_table(&mut self, state: &ComponentState, t: &Group) {
        self.column = t.column_copy(self.component);
    }

    fn archetype_fetch(&mut self, row: usize) -> (it: u64) {
        self.column[row]
    }

    fn table_fetch(&mut self, row: usize) -> (it: u64) {
        self.column[row]
    }
}

} // verus!
