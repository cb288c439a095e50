use vstd::prelude::*;

verus! {

/// The access footprint a query reports to the scheduler before iteration:
/// which components it reads and which it writes.  The scheduler uses these
/// footprints to decide which queries may run in parallel; a combinator's
/// footprint is the union of its participants' footprints.
pub struct AccessSet {
    reads: Vec<u64>,
    writes: Vec<u64>,
}

impl AccessSet {
    /// The set of components recorded as read.
    pub closed spec fn reads_set(&self) -> Set<u64> {
        self.reads@.to_set()
    }

    /// The set of components recorded as written.
    pub closed spec fn writes_set(&self) -> Set<u64> {
        self.writes@.to_set()
    }

    /// An empty footprint.
    pub fn new() -> (a: AccessSet)
        ensures
            a.reads_set() == Set::<u64>::empty(),
            a.writes_set() == Set::<u64>::empty(),
    {
        let a = AccessSet { reads: Vec::new(), writes: Vec::new() };
        proof {
            assert(a.reads_set() =~= Set::<u64>::empty());
            assert(a.writes_set() =~= Set::<u64>::empty());
        }
        a
    }

    /// Record a read of component `c`.
    pub fn add_read(&mut self, c: u64)
        ensures
            final(self).reads_set() == old(self).reads_set().insert(c),
            final(self).writes_set() == old(self).writes_set(),
    {
        let ghost pre = self.reads@;
        self.reads.push(c);
        proof {
            lemma_push_to_set(pre, c);
        }
    }

    /// Record a write of component `c`.
    pub fn add_write(&mut self, c: u64)
        ensures
            final(self).writes_set() == old(self).writes_set().insert(c),
            final(self).reads_set() == old(self).reads_set(),
    {
        let ghost pre = self.writes@;
        self.writes.push(c);
        proof {
            lemma_push_to_set(pre, c);
        }
    }

    /// Whether component `c` is recorded as read.
    pub fn has_read(&self, c: u64) -> (b: bool)
        ensures
            b == self.reads_set().contains(c),
    {
        contains_id(&self.reads, c)
    }

    /// Whether component `c` is recorded as written.
    pub fn has_write(&self, c: u64) -> (b: bool)
        ensures
            b == self.writes_set().contains(c),
    {
        contains_id(&self.writes, c)
    }
}

/// Pushing an element onto a sequence inserts it into the sequence's set of
/// elements.
proof fn lemma_push_to_set(s: Seq<u64>, c: u64)
    ensures
        s.push(c).to_set() == s.to_set().insert(c),
{
    assert forall|x: u64| s.push(c).to_set().contains(x)
        implies s.to_set().insert(c).contains(x) by {
        let i = choose|i: int| 0 <= i < s.push(c).len() && s.push(c)[i] == x;
        if i < s.len() {
            assert(s[i] == x);
        }
    }
    assert forall|x: u64| s.to_set().insert(c).contains(x)
        implies s.push(c).to_set().contains(x) by {
        if s.to_set().contains(x) {
            let i = choose|i: int| 0 <= i < s.len() && s[i] == x;
            assert(s.push(c)[i] == x);
        } else {
            assert(s.push(c)[s.len() as int] == c);
        }
    }
    assert(s.push(c).to_set() =~= s.to_set().insert(c));
}

/// Linear scan for an id in a vector.
fn contains_id(v: &Vec<u64>, c: u64) -> (b: bool)
    ensures
        b == v@.to_set().contains(c),
{
    let n = v.len();
    let mut i: usize = 0;
    while i < n
        invariant
            i <= n,
            n == v@.len(),
            forall|j: int| 0 <= j < i ==> v@[j] != c,
        decreases n - i,
    {
        if v[i] == c {
            assert(v@.contains(c));
            return true;
        }
        i += 1;
    }
    proof {
        if v@.to_set().contains(c) {
            let j = choose|j: int| 0 <= j < v@.len() && v@[j] == c;
            assert(false);
        }
    }
    false
}

} // verus!
