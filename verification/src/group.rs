use vstd::prelude::*;

verus! {

/// One columnar storage group of the entity-component store: the identity of
/// a storage partition defined by the exact set of components its member
/// entities carry.  `components[i]` names the component stored in
/// `columns[i]`, and every column holds one value per row.  The same shape
/// stands for both granularities the store exposes: the coarse archetype and
/// the dense table beneath it.
pub struct Group {
    /// The component ids carried by every entity of this group, one entry
    /// per column, no id twice.
    pub components: Vec<u64>,
    /// One column per component, each holding one value per row.
    pub columns: Vec<Vec<u64>>,
    /// The number of rows (entities) in this group.
    pub rows: usize,
}

impl Group {
    /// Well-formedness: one column per component, no component twice, and
    /// every column holds exactly one value per row.
    pub open spec fn wf(&self) -> bool {
        &&& self.columns@.len() == self.components@.len()
        &&& (forall|i: int, j: int|
            0 <= i < self.components@.len() && 0 <= j < self.components@.len() && i != j
                ==> self.components@[i] != self.components@[j])
        &&& (forall|i: int|
            0 <= i < self.columns@.len() ==> (#[trigger] self.columns@[i])@.len()
                == self.rows as int)
    }

    /// Whether this group carries component `c`.
    pub open spec fn has(&self, c: u64) -> bool {
        self.components@.contains(c)
    }

    /// The position of component `c` among this group's components.
    pub open spec fn component_index(&self, c: u64) -> int {
        choose|i: int| 0 <= i < self.components@.len() && self.components@[i] == c
    }

    /// The column of values stored for component `c`.
    pub open spec fn column_of(&self, c: u64) -> Seq<u64> {
        self.columns@[self.component_index(c)]@
    }

    /// Whether this group carries component `c`.
    pub fn has_component(&self, c: u64) -> (b: bool)
        ensures
            b == self.has(c),
    {
        let n = self.components.len();
        let mut i: usize = 0;
        while i < n
            invariant
                i <= n,
                n == self.components@.len(),
                forall|j: int| 0 <= j < i ==> self.components@[j] != c,
            decreases n - i,
        {
            if self.components[i] == c {
                assert(self.components@.contains(c));
                return true;
            }
            i += 1;
        }
        proof {
            if self.components@.contains(c) {
                let j = choose|j: int| 0 <= j < self.components@.len()
                    && self.components@[j] == c;
                assert(false);
            }
        }
        false
    }

    /// Find the column position of component `c`.
    pub fn find_component(&self, c: u64) -> (i: usize)
        requires
            self.wf(),
            self.has(c),
        ensures
            i as int == self.component_index(c),
            i < self.components@.len(),
            self.components@[i as int] == c,
    {
        let n = self.components.len();
        let mut i: usize = 0;
        while i < n
            invariant
                i <= n,
                n == self.components@.len(),
                self.wf(),
                self.has(c),
                forall|j: int| 0 <= j < i ==> self.components@[j] != c,
            decreases n - i,
        {
            if self.components[i] == c {
                proof {
                    let k = self.component_index(c);
                    assert(0 <= k < self.components@.len() && self.components@[k] == c);
                    assert(k == i as int);
                }
                return i;
            }
            i += 1;
        }
        proof {
            let j = choose|j: int| 0 <= j < self.components@.len() && self.components@[j] == c;
            assert(false);
        }
        0
    }

    /// Copy out the column of values stored for component `c`.
    pub fn column_copy(&self, c: u64) -> (col: Vec<u64>)
        requires
            self.wf(),
            self.has(c),
        ensures
            col@ == self.column_of(c),
            col@.len() == self.rows as int,
    {
        let ci = self.find_component(c);
        let src = &self.columns[ci];
        let n = src.len();
        let mut col: Vec<u64> = Vec::new();
        let mut k: usize = 0;
        while k < n
            invariant
                k <= n,
                n == src@.len(),
                col@.len() == k,
                forall|j: int| 0 <= j < k ==> col@[j] == src@[j],
            decreases n - k,
        {
            col.push(src[k]);
            k += 1;
        }
        proof {
            assert(col@ =~= src@);
        }
        col
    }
}

} // verus!
