use vstd::prelude::*;
use crate::access::AccessSet;
use crate::group::Group;
use crate::query::{QueryFetch, QueryState};

verus! {

/// The n-ary resolution policy: the position of the earliest participant,
/// in declared order, whose predicate matches `g`.  Participants after the
/// winner are not consulted, so a later match never displaces an earlier
/// one.
pub open spec fn first_match<S: QueryState>(states: Seq<S>, g: Group) -> int
    decreases states.len(),
{
    if states.len() == 0 {
        0
    } else if states[0].spec_matches(g) {
        0
    } else {
        1 + first_match(states.skip(1), g)
    }
}

/// When some participant matches `g`, the n-ary policy resolves to a
/// participant that matches, and every participant declared before the
/// winner does not match.
pub proof fn lemma_first_match_resolves<S: QueryState>(states: Seq<S>, g: Group)
    requires
        exists|j: int| 0 <= j < states.len() && #[trigger] states[j].spec_matches(g),
    ensures
        0 <= first_match(states, g) < states.len(),
        states[first_match(states, g)].spec_matches(g),
        forall|j: int| 0 <= j < first_match(states, g) ==> !(#[trigger] states[j].spec_matches(
            g,
        )),
    decreases states.len(),
{
    if states[0].spec_matches(g) {
    } else {
        let w = choose|j: int| 0 <= j < states.len() && #[trigger] states[j].spec_matches(g);
        assert(states.skip(1)[w - 1] == states[w]);
        lemma_first_match_resolves(states.skip(1), g);
        let i = first_match(states.skip(1), g);
        assert(states[i + 1] == states.skip(1)[i]);
        assert forall|j: int| 0 <= j < first_match(states, g) implies !(
        #[trigger] states[j].spec_matches(g)) by {
            if j >= 1 {
                assert(states.skip(1)[j - 1] == states[j]);
            }
        }
    }
}

/// The priority property, n-ary form: if participant `i` matches `g` and
/// every participant declared before `i` does not, the policy resolves to
/// exactly `i`.
pub proof fn lemma_first_match_is_priority<S: QueryState>(states: Seq<S>, g: Group, i: int)
    requires
        0 <= i < states.len(),
        states[i].spec_matches(g),
        forall|j: int| 0 <= j < i ==> !(#[trigger] states[j].spec_matches(g)),
    ensures
        first_match(states, g) == i,
{
    lemma_first_match_resolves(states, g);
    let m = first_match(states, g);
    if m < i {
        assert(states[m].spec_matches(g));
        assert(false);
    }
    if m > i {
        assert(!states[i].spec_matches(g));
        assert(false);
    }
}

/// Decision stability across groups: the resolved position depends only on
/// which participants match, so two groups every participant decides alike
/// resolve to the same position.
pub proof fn lemma_first_match_stable<S: QueryState>(states: Seq<S>, g1: Group, g2: Group)
    requires
        forall|j: int|
            0 <= j < states.len() ==> (#[trigger] states[j].spec_matches(g1) == states[
                j
            ].spec_matches(g2)),
    ensures
        first_match(states, g1) == first_match(states, g2),
    decreases states.len(),
{
    if states.len() == 0 {
    } else if states[0].spec_matches(g1) {
    } else {
        assert forall|j: int| 0 <= j < states.skip(1).len() implies (
        #[trigger] states.skip(1)[j].spec_matches(g1) == states.skip(1)[j].spec_matches(g2)) by {
            assert(states.skip(1)[j] == states[j + 1]);
        }
        lemma_first_match_stable(states.skip(1), g1, g2);
    }
}

/// The union of the component reads of an ordered list of participants.
pub open spec fn seq_reads<S: QueryState>(states: Seq<S>) -> Set<u64>
    decreases states.len(),
{
    if states.len() == 0 {
        Set::empty()
    } else {
        seq_reads(states.drop_last()).union(states.last().reads())
    }
}

/// The union of the component writes of an ordered list of participants.
pub open spec fn seq_writes<S: QueryState>(states: Seq<S>) -> Set<u64>
    decreases states.len(),
{
    if states.len() == 0 {
        Set::empty()
    } else {
        seq_writes(states.drop_last()).union(states.last().writes())
    }
}

/// The union of the footprints of an ordered list of participants on group
/// `g`, read side.
pub open spec fn seq_group_reads<S: QueryState>(states: Seq<S>, g: Group) -> Set<u64>
    decreases states.len(),
{
    if states.len() == 0 {
        Set::empty()
    } else {
        seq_group_reads(states.drop_last(), g).union(states.last().group_reads(g))
    }
}

/// The union of the footprints of an ordered list of participants on group
/// `g`, write side.
pub open spec fn seq_group_writes<S: QueryState>(states: Seq<S>, g: Group) -> Set<u64>
    decreases states.len(),
{
    if states.len() == 0 {
        Set::empty()
    } else {
        seq_group_writes(states.drop_last(), g).union(states.last().group_writes(g))
    }
}

/// Access-union soundness, n-ary form: a component stands in the combined
/// footprint exactly when some participant's footprint holds it, whatever
/// the participants' footprints are.
pub proof fn lemma_seq_access_union<S: QueryState>(states: Seq<S>)
    ensures
        forall|c: u64| #[trigger]
            seq_reads(states).contains(c) <==> exists|j: int|
                0 <= j < states.len() && (#[trigger] states[j].reads().contains(c)),
        forall|c: u64| #[trigger]
            seq_writes(states).contains(c) <==> exists|j: int|
                0 <= j < states.len() && (#[trigger] states[j].writes().contains(c)),
    decreases states.len(),
{
    if states.len() == 0 {
    } else {
        lemma_seq_access_union(states.drop_last());
        assert forall|c: u64| #[trigger] seq_reads(states).contains(c) implies exists|j: int|
            0 <= j < states.len() && (#[trigger] states[j].reads().contains(c)) by {
            if seq_reads(states.drop_last()).contains(c) {
                let j = choose|j: int|
                    0 <= j < states.drop_last().len() && (#[trigger] states.drop_last(
                    )[j].reads().contains(c));
                assert(states[j].reads().contains(c));
            } else {
                assert(states[states.len() - 1].reads().contains(c));
            }
        }
        assert forall|c: u64|
            (exists|j: int| 0 <= j < states.len() && (#[trigger] states[j].reads().contains(c)))
            implies #[trigger] seq_reads(states).contains(c) by {
            let j = choose|j: int|
                0 <= j < states.len() && (#[trigger] states[j].reads().contains(c));
            if j < states.len() - 1 {
                assert(states.drop_last()[j].reads().contains(c));
                assert(seq_reads(states.drop_last()).contains(c));
            } else {
                assert(states.last().reads().contains(c));
            }
        }
        assert forall|c: u64| #[trigger] seq_writes(states).contains(c) implies exists|j: int|
            0 <= j < states.len() && (#[trigger] states[j].writes().contains(c)) by {
            if seq_writes(states.drop_last()).contains(c) {
                let j = choose|j: int|
                    0 <= j < states.drop_last().len() && (#[trigger] states.drop_last(
                    )[j].writes().contains(c));
                assert(states[j].writes().contains(c));
            } else {
                assert(states[states.len() - 1].writes().contains(c));
            }
        }
        assert forall|c: u64|
            (exists|j: int| 0 <= j < states.len() && (#[trigger] states[j].writes().contains(c)))
            implies #[trigger] seq_writes(states).contains(c) by {
            let j = choose|j: int|
                0 <= j < states.len() && (#[trigger] states[j].writes().contains(c));
            if j < states.len() - 1 {
                assert(states.drop_last()[j].writes().contains(c));
                assert(seq_writes(states.drop_last()).contains(c));
            } else {
                assert(states.last().writes().contains(c));
            }
        }
    }
}

/// Read-only propagation, n-ary form: the combined footprint writes nothing
/// if and only if no participant writes anything.  Declaring the combined
/// query read-only is sound exactly under that condition.
pub proof fn lemma_seq_read_only<S: QueryState>(states: Seq<S>)
    ensures
        seq_writes(states) =~= Set::<u64>::empty() <==> forall|j: int|
            0 <= j < states.len() ==> (#[trigger] states[j].writes()) =~= Set::<u64>::empty(),
{
    lemma_seq_access_union(states);
    if seq_writes(states) =~= Set::<u64>::empty() {
        assert forall|j: int| 0 <= j < states.len() implies (#[trigger] states[j].writes())
            =~= Set::<u64>::empty() by {
            assert forall|c: u64| !(#[trigger] states[j].writes().contains(c)) by {
                assert(!seq_writes(states).contains(c));
            }
        }
    }
    if forall|j: int| 0 <= j < states.len() ==> (#[trigger] states[j].writes()) =~= Set::<
        u64,
    >::empty() {
        assert forall|c: u64| !(#[trigger] seq_writes(states).contains(c)) by {
            if seq_writes(states).contains(c) {
                let j = choose|j: int|
                    0 <= j < states.len() && (#[trigger] states[j].writes().contains(c));
                assert(!states[j].writes().contains(c));
            }
        }
    }
}

/// A row's item under the n-ary combinator: the winning participant's item
/// tagged with that participant's position in the declared order.
#[derive(Debug, PartialEq, Eq, Clone, Copy)]
pub struct EitherManyItem<I> {
    /// The position, in declared order, of the participant that produced
    /// the item.
    pub index: usize,
    /// The winning participant's fetched value.
    pub item: I,
}

/// The n-ary combinator's group-predicate state: one participant state per
/// declared position, priority highest first.  Its own predicate is the
/// logical or of its participants', and its footprint is the union of
/// theirs.
pub struct EitherManyState<S: QueryState> {
    /// The participants' states, in declared (priority) order.
    pub participants: Vec<S>,
}

impl<S: QueryState> EitherManyState<S> {
    /// Combine an ordered list of participant states.
    pub fn init(participants: Vec<S>) -> (s: EitherManyState<S>)
        ensures
            s.participants == participants,
    {
        EitherManyState { participants }
    }
}

impl<S: QueryState> QueryState for EitherManyState<S> {
    open spec fn reads(&self) -> Set<u64> {
        seq_reads(self.participants@)
    }

    open spec fn writes(&self) -> Set<u64> {
        seq_writes(self.participants@)
    }

    open spec fn group_reads(&self, g: Group) -> Set<u64> {
        seq_group_reads(self.participants@, g)
    }

    open spec fn group_writes(&self, g: Group) -> Set<u64> {
        seq_group_writes(self.participants@, g)
    }

    open spec fn spec_matches(&self, g: Group) -> bool {
        exists|j: int|
            0 <= j < self.participants@.len() && (#[trigger] self.participants@[j].spec_matches(g))
    }

    fn matches_archetype(&self, g: &Group) -> (b: bool) {
        let n = self.participants.len();
        let mut i: usize = 0;
        while i < n
            invariant
                i <= n,
                n == self.participants@.len(),
                g.wf(),
                forall|j: int| 0 <= j < i ==> !(#[trigger] self.participants@[j].spec_matches(*g)),
            decreases n - i,
        {
            if self.participants[i].matches_archetype(g) {
                return true;
            }
            i += 1;
        }
        proof {
            if self.spec_matches(*g) {
                let j = choose|j: int|
                    0 <= j < self.participants@.len() && (
                    #[trigger] self.participants@[j].spec_matches(*g));
                assert(false);
            }
        }
        false
    }

    fn matches_table(&self, t: &Group) -> (b: bool) {
        let n = self.participants.len();
        let mut i: usize = 0;
        while i < n
            invariant
                i <= n,
                n == self.participants@.len(),
                t.wf(),
                forall|j: int| 0 <= j < i ==> !(#[trigger] self.participants@[j].spec_matches(*t)),
            decreases n - i,
        {
            if self.participants[i].matches_table(t) {
                return true;
            }
            i += 1;
        }
        proof {
            if self.spec_matches(*t) {
                let j = choose|j: int|
                    0 <= j < self.participants@.len() && (
                    #[trigger] self.participants@[j].spec_matches(*t));
                assert(false);
            }
        }
        false
    }

    fn update_component_access(&self, access: &mut AccessSet) {
        let n = self.participants.len();
        let mut i: usize = 0;
        proof {
            assert(self.participants@.take(0) =~= Seq::<S>::empty());
            assert(access.reads_set() =~= old(access).reads_set().union(
                seq_reads(self.participants@.take(0)),
            ));
            assert(access.writes_set() =~= old(access).writes_set().union(
                seq_writes(self.participants@.take(0)),
            ));
        }
        while i < n
            invariant
                i <= n,
                n == self.participants@.len(),
                access.reads_set() == old(access).reads_set().union(
                    seq_reads(self.participants@.take(i as int)),
                ),
                access.writes_set() == old(access).writes_set().union(
                    seq_writes(self.participants@.take(i as int)),
                ),
            decreases n - i,
        {
            self.participants[i].update_component_access(access);
            proof {
                let pre = self.participants@.take(i as int);
                let post = self.participants@.take(i + 1);
                assert(post.drop_last() =~= pre);
                assert(post.last() == self.participants@[i as int]);
                assert(access.reads_set() =~= old(access).reads_set().union(seq_reads(post)));
                assert(access.writes_set() =~= old(access).writes_set().union(seq_writes(post)));
            }
            i += 1;
        }
        proof {
            assert(self.participants@.take(n as int) =~= self.participants@);
        }
    }

    fn update_archetype_component_access(&self, g: &Group, access: &mut AccessSet) {
        let n = self.participants.len();
        let mut i: usize = 0;
        proof {
            assert(self.participants@.take(0) =~= Seq::<S>::empty());
            assert(access.reads_set() =~= old(access).reads_set().union(
                seq_group_reads(self.participants@.take(0), *g),
            ));
            assert(access.writes_set() =~= old(access).writes_set().union(
                seq_group_writes(self.participants@.take(0), *g),
            ));
        }
        while i < n
            invariant
                i <= n,
                n == self.participants@.len(),
                g.wf(),
                access.reads_set() == old(access).reads_set().union(
                    seq_group_reads(self.participants@.take(i as int), *g),
                ),
                access.writes_set() == old(access).writes_set().union(
                    seq_group_writes(self.participants@.take(i as int), *g),
                ),
            decreases n - i,
        {
            self.participants[i].update_archetype_component_access(g, access);
            proof {
                let pre = self.participants@.take(i as int);
                let post = self.participants@.take(i + 1);
                assert(post.drop_last() =~= pre);
                assert(post.last() == self.participants@[i as int]);
                assert(access.reads_set() =~= old(access).reads_set().union(
                    seq_group_reads(post, *g),
                ));
                assert(access.writes_set() =~= old(access).writes_set().union(
                    seq_group_writes(post, *g),
                ));
            }
            i += 1;
        }
        proof {
            assert(self.participants@.take(n as int) =~= self.participants@);
        }
    }
}

/// Find the position of the earliest participant whose predicate matches
/// archetype `g`; a match is owed.
fn find_first_archetype<S: QueryState>(states: &Vec<S>, g: &Group) -> (i: usize)
    requires
        g.wf(),
        exists|j: int| 0 <= j < states@.len() && (#[trigger] states@[j].spec_matches(*g)),
    ensures
        i as int == first_match(states@, *g),
        i < states@.len(),
        states@[i as int].spec_matches(*g),
        forall|j: int| 0 <= j < i ==> !(#[trigger] states@[j].spec_matches(*g)),
{
    let n = states.len();
    let mut i: usize = 0;
    while i < n
        invariant
            i <= n,
            n == states@.len(),
            g.wf(),
            forall|j: int| 0 <= j < i ==> !(#[trigger] states@[j].spec_matches(*g)),
        decreases n - i,
    {
        if states[i].matches_archetype(g) {
            proof {
                lemma_first_match_is_priority(states@, *g, i as int);
            }
            return i;
        }
        i += 1;
    }
    proof {
        let j = choose|j: int| 0 <= j < states@.len() && (#[trigger] states@[j].spec_matches(*g));
        assert(false);
    }
    0
}

/// Find the position of the earliest participant whose predicate matches
/// table `t`; a match is owed.
fn find_first_table<S: QueryState>(states: &Vec<S>, t: &Group) -> (i: usize)
    requires
        t.wf(),
        exists|j: int| 0 <= j < states@.len() && (#[trigger] states@[j].spec_matches(*t)),
    ensures
        i as int == first_match(states@, *t),
        i < states@.len(),
        states@[i as int].spec_matches(*t),
        forall|j: int| 0 <= j < i ==> !(#[trigger] states@[j].spec_matches(*t)),
{
    let n = states.len();
    let mut i: usize = 0;
    while i < n
        invariant
            i <= n,
            n == states@.len(),
            t.wf(),
            forall|j: int| 0 <= j < i ==> !(#[trigger] states@[j].spec_matches(*t)),
        decreases n - i,
    {
        if states[i].matches_table(t) {
            proof {
                lemma_first_match_is_priority(states@, *t, i as int);
            }
            return i;
        }
        i += 1;
    }
    proof {
        let j = choose|j: int| 0 <= j < states@.len() && (#[trigger] states@[j].spec_matches(*t));
        assert(false);
    }
    0
}

/// The n-ary combinator's row fetcher: one participant fetcher per declared
/// position plus the position cached at the latest group rebinding.
pub struct EitherManyFetch<F> {
    /// The participants' fetchers, in declared (priority) order.
    pub fetchers: Vec<F>,
    /// The position of the participant bound to the current group.
    pub binding: usize,
}

impl<F: QueryFetch> EitherManyFetch<F> {
    /// Combine an ordered, non-empty list of participant fetchers; the
    /// cached position starts at the first participant and is overwritten
    /// by the first rebinding.
    pub fn init(fetchers: Vec<F>) -> (f: EitherManyFetch<F>)
        requires
            fetchers@.len() > 0,
            forall|j: int| 0 <= j < fetchers@.len() ==> (#[trigger] fetchers@[j].inv()),
        ensures
            f.fetchers == fetchers,
            f.binding == 0,
            f.inv(),
    {
        EitherManyFetch { fetchers, binding: 0 }
    }
}

impl<F: QueryFetch> QueryFetch for EitherManyFetch<F> {
    type State = EitherManyState<F::State>;

    type Item = EitherManyItem<F::Item>;

    open spec fn inv(&self) -> bool {
        &&& (self.binding as int) < self.fetchers@.len()
        &&& (forall|j: int| 0 <= j < self.fetchers@.len() ==> (#[trigger] self.fetchers@[j].inv()))
    }

    open spec fn compatible(&self, state: EitherManyState<F::State>) -> bool {
        &&& state.participants@.len() == self.fetchers@.len()
        &&& (forall|j: int|
            0 <= j < self.fetchers@.len() ==> (#[trigger] self.fetchers@[j].compatible(
                state.participants@[j],
            )))
    }

    open spec fn dense(&self) -> bool {
        exists|j: int| 0 <= j < self.fetchers@.len() && (#[trigger] self.fetchers@[j].dense())
    }

    open spec fn num_rows(&self) -> int {
        self.fetchers@[self.binding as int].num_rows()
    }

    open spec fn decision(&self) -> int {
        self.binding as int
    }

    open spec fn item_at(&self, row: int) -> EitherManyItem<F::Item> {
        EitherManyItem {
            index: self.binding,
            item: self.fetchers@[self.binding as int].item_at(row),
        }
    }

    open spec fn decision_of(state: EitherManyState<F::State>, g: Group) -> int {
        first_match(state.participants@, g)
    }

    open spec fn group_item(state: EitherManyState<F::State>, g: Group, row: int)
        -> EitherManyItem<F::Item> {
        let m = first_match(state.participants@, g);
        EitherManyItem {
            index: m as usize,
            item: F::group_item(state.participants@[m], g, row),
        }
    }

    fn is_dense(&self) -> (b: bool) {
        let n = self.fetchers.len();
        let mut i: usize = 0;
        let mut d: bool = false;
        while i < n
            invariant
                i <= n,
                n == self.fetchers@.len(),
                self.inv(),
                d == exists|j: int| 0 <= j < i && (#[trigger] self.fetchers@[j].dense()),
            decreases n - i,
        {
            if !d {
                if self.fetchers[i].is_dense() {
                    d = true;
                    assert(self.fetchers@[i as int].dense());
                }
            }
            i += 1;
        }
        d
    }

    fn set_archetype(&mut self, state: &EitherManyState<F::State>, g: &Group) {
        let idx = find_first_archetype(&state.participants, g);
        let f = &mut self.fetchers[idx];
        f.set_archetype(&state.participants[idx], g);
        self.binding = idx;
        proof {
            assert forall|j: int| 0 <= j < self.fetchers@.len() implies (
            #[trigger] self.fetchers@[j].inv()) by {
                if j != idx as int {
                    assert(self.fetchers@[j] == old(self).fetchers@[j]);
                }
            }
            assert forall|j: int| 0 <= j < self.fetchers@.len() implies (
            #[trigger] self.fetchers@[j].compatible(state.participants@[j])) by {
                if j != idx as int {
                    assert(self.fetchers@[j] == old(self).fetchers@[j]);
                }
            }
            assert(self.dense() == old(self).dense()) by {
                if old(self).dense() {
                    let j = choose|j: int|
                        0 <= j < old(self).fetchers@.len() && (
                        #[trigger] old(self).fetchers@[j].dense());
                    assert(self.fetchers@[j].dense());
                }
                if self.dense() {
                    let j = choose|j: int|
                        0 <= j < self.fetchers@.len() && (#[trigger] self.fetchers@[j].dense());
                    assert(old(self).fetchers@[j].dense());
                }
            }
        }
    }

    fn set_table(&mut self, state: &EitherManyState<F::State>, t: &Group) {
        let idx = find_first_table(&state.participants, t);
        let f = &mut self.fetchers[idx];
        f.set_table(&state.participants[idx], t);
        self.binding = idx;
        proof {
            assert forall|j: int| 0 <= j < self.fetchers@.len() implies (
            #[trigger] self.fetchers@[j].inv()) by {
                if j != idx as int {
                    assert(self.fetchers@[j] == old(self).fetchers@[j]);
                }
            }
            assert forall|j: int| 0 <= j < self.fetchers@.len() implies (
            #[trigger] self.fetchers@[j].compatible(state.participants@[j])) by {
                if j != idx as int {
                    assert(self.fetchers@[j] == old(self).fetchers@[j]);
                }
            }
            assert(self.dense() == old(self).dense()) by {
                if old(self).dense() {
                    let j = choose|j: int|
                        0 <= j < old(self).fetchers@.len() && (
                        #[trigger] old(self).fetchers@[j].dense());
                    assert(self.fetchers@[j].dense());
                }
                if self.dense() {
                    let j = choose|j: int|
                        0 <= j < self.fetchers@.len() && (#[trigger] self.fetchers@[j].dense());
                    assert(old(self).fetchers@[j].dense());
                }
            }
        }
    }

    fn archetype_fetch(&mut self, row: usize) -> (it: EitherManyItem<F::Item>) {
        let idx = self.binding;
        let f = &mut self.fetchers[idx];
        let item = f.archetype_fetch(row);
        proof {
            assert forall|j: int| 0 <= j < self.fetchers@.len() implies (
            #[trigger] self.fetchers@[j].inv()) by {
                if j != idx as int {
                    assert(self.fetchers@[j] == old(self).fetchers@[j]);
                }
            }
            assert forall|s: EitherManyState<F::State>| #[trigger]
                self.compatible(s) == old(self).compatible(s) by {
                assert(self.fetchers@.len() == old(self).fetchers@.len());
                if old(self).compatible(s) {
                    assert forall|j: int| 0 <= j < self.fetchers@.len() implies (
                    #[trigger] self.fetchers@[j].compatible(s.participants@[j])) by {
                        assert(old(self).fetchers@[j].compatible(s.participants@[j]));
                        if j != idx as int {
                            assert(self.fetchers@[j] == old(self).fetchers@[j]);
                        }
                    }
                    assert(self.compatible(s));
                }
                if self.compatible(s) {
                    assert forall|j: int| 0 <= j < old(self).fetchers@.len() implies (
                    #[trigger] old(self).fetchers@[j].compatible(s.participants@[j])) by {
                        assert(self.fetchers@[j].compatible(s.participants@[j]));
                        if j != idx as int {
                            assert(self.fetchers@[j] == old(self).fetchers@[j]);
                        }
                    }
                    assert(old(self).compatible(s));
                }
            }
            assert(self.dense() == old(self).dense()) by {
                if old(self).dense() {
                    let j = choose|j: int|
                        0 <= j < old(self).fetchers@.len() && (
                        #[trigger] old(self).fetchers@[j].dense());
                    assert(self.fetchers@[j].dense());
                }
                if self.dense() {
                    let j = choose|j: int|
                        0 <= j < self.fetchers@.len() && (#[trigger] self.fetchers@[j].dense());
                    assert(old(self).fetchers@[j].dense());
                }
            }
        }
        EitherManyItem { index: idx, item }
    }

    fn table_fetch(&mut self, row: usize) -> (it: EitherManyItem<F::Item>) {
        let idx = self.binding;
        let f = &mut self.fetchers[idx];
        let item = f.table_fetch(row);
        proof {
            assert forall|j: int| 0 <= j < self.fetchers@.len() implies (
            #[trigger] self.fetchers@[j].inv()) by {
                if j != idx as int {
                    assert(self.fetchers@[j] == old(self).fetchers@[j]);
                }
            }
            assert forall|s: EitherManyState<F::State>| #[trigger]
                self.compatible(s) == old(self).compatible(s) by {
                assert(self.fetchers@.len() == old(self).fetchers@.len());
                if old(self).compatible(s) {
                    assert forall|j: int| 0 <= j < self.fetchers@.len() implies (
                    #[trigger] self.fetchers@[j].compatible(s.participants@[j])) by {
                        assert(old(self).fetchers@[j].compatible(s.participants@[j]));
                        if j != idx as int {
                            assert(self.fetchers@[j] == old(self).fetchers@[j]);
                        }
                    }
                    assert(self.compatible(s));
                }
                if self.compatible(s) {
                    assert forall|j: int| 0 <= j < old(self).fetchers@.len() implies (
                    #[trigger] old(self).fetchers@[j].compatible(s.participants@[j])) by {
                        assert(self.fetchers@[j].compatible(s.participants@[j]));
                        if j != idx as int {
                            assert(self.fetchers@[j] == old(self).fetchers@[j]);
                        }
                    }
                    assert(old(self).compatible(s));
                }
            }
            assert(self.dense() == old(self).dense()) by {
                if old(self).dense() {
                    let j = choose|j: int|
                        0 <= j < old(self).fetchers@.len() && (
                        #[trigger] old(self).fetchers@[j].dense());
                    assert(self.fetchers@[j].dense());
                }
                if self.dense() {
                    let j = choose|j: int|
                        0 <= j < self.fetchers@.len() && (#[trigger] self.fetchers@[j].dense());
                    assert(old(self).fetchers@[j].dense());
                }
            }
        }
        EitherManyItem { index: idx, item }
    }
}

} // verus!
