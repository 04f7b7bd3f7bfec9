use crate::math::Axial;
use vstd::prelude::*;

verus! {

/// A set of cells, such as a ring or an area, that keeps the order in which
/// its cells came.
pub struct CellSet {
    cells: Vec<Axial>,
}

impl View for CellSet {
    type V = Set<Axial>;

    closed spec fn view(&self) -> Set<Axial> {
        self.cells@.to_set()
    }
}

impl CellSet {
    /// The cells in the order in which they came.
    pub closed spec fn spec_cells(&self) -> Seq<Axial> {
        self.cells@
    }

    /// Holds of every set: no cell is listed twice, and the listed cells are
    /// the cells of the set.
    pub closed spec fn wf(&self) -> bool {
        self.cells@.no_duplicates()
    }

    /// The list of a set holds each of its cells once and nothing else.
    pub proof fn lemma_cells(&self)
        requires
            self.wf(),
        ensures
            self.spec_cells().no_duplicates(),
            self.spec_cells().to_set() == self@,
            self.spec_cells().len() == self@.len(),
            self@.finite(),
    {
        self.cells@.unique_seq_to_set();
        vstd::seq_lib::seq_to_set_is_finite(self.cells@);
    }

    /// The empty set.
    pub fn new() -> (s: CellSet)
        ensures
            s.wf(),
            s@ == Set::<Axial>::empty(),
            s.spec_cells() == Seq::<Axial>::empty(),
    {
        let s = CellSet { cells: Vec::new() };
        assert(s@ =~= Set::<Axial>::empty());
        s
    }

    /// The cells in the order in which they came.
    pub fn cells(&self) -> (list: &Vec<Axial>)
        ensures
            list@ == self.spec_cells(),
    {
        &self.cells
    }

    /// The number of cells.
    pub fn len(&self) -> (n: usize)
        requires
            self.wf(),
        ensures
            n == self@.len(),
            n == self.spec_cells().len(),
    {
        proof {
            self.lemma_cells();
        }
        self.cells.len()
    }

    /// Reports whether a cell is in the set.
    pub fn contains(&self, hex: &Axial) -> (b: bool)
        ensures
            b == self@.contains(*hex),
    {
        let mut i: usize = 0;
        while i < self.cells.len()
            invariant
                i <= self.cells.len(),
                forall|j: int| 0 <= j < i ==> self.cells@[j] != *hex,
            decreases self.cells.len() - i,
        {
            if self.cells[i].q == hex.q && self.cells[i].r == hex.r {
                return true;
            }
            i = i + 1;
        }
        false
    }

    /// Puts a cell into the set and reports whether it was new.
    pub fn insert(&mut self, hex: Axial) -> (fresh: bool)
        requires
            old(self).wf(),
        ensures
            final(self).wf(),
            fresh == !old(self)@.contains(hex),
            final(self)@ == old(self)@.insert(hex),
            final(self).spec_cells() == (if fresh {
                old(self).spec_cells().push(hex)
            } else {
                old(self).spec_cells()
            }),
    {
        if self.contains(&hex) {
            assert(self@ =~= old(self)@.insert(hex));
            false
        } else {
            self.cells.push(hex);
            proof {
                let before = old(self).cells@;
                assert forall|c: Axial| self.cells@.contains(c) <==> (before.contains(c) || c
                    == hex) by {
                    if before.contains(c) {
                        let i = choose|i: int| 0 <= i < before.len() && before[i] == c;
                        assert(self.cells@[i] == c);
                    }
                    if c == hex {
                        assert(self.cells@[before.len() as int] == c);
                    }
                }
                assert(self@ =~= old(self)@.insert(hex));
            }
            true
        }
    }

    /// Puts every cell of a list into the set.
    pub fn extend(&mut self, list: &Vec<Axial>)
        requires
            old(self).wf(),
        ensures
            final(self).wf(),
            final(self)@ == old(self)@.union(list@.to_set()),
    {
        let mut i: usize = 0;
        while i < list.len()
            invariant
                i <= list.len(),
                self.wf(),
                self@ == old(self)@.union(list@.take(i as int).to_set()),
            decreases list.len() - i,
        {
            let ghost before = self@;
            self.insert(list[i]);
            proof {
                let head = list@.take(i as int);
                let more = list@.take(i + 1);
                assert forall|c: Axial| more.contains(c) <==> (head.contains(c) || c == list@[i as int]) by {
                    if head.contains(c) {
                        let j = choose|j: int| 0 <= j < head.len() && head[j] == c;
                        assert(more[j] == c);
                    }
                    if c == list@[i as int] {
                        assert(more[i as int] == c);
                    }
                    if more.contains(c) {
                        let j = choose|j: int| 0 <= j < more.len() && more[j] == c;
                        if j < i {
                            assert(head[j] == c);
                        }
                    }
                }
                assert(self@ =~= old(self)@.union(more.to_set()));
            }
            i = i + 1;
        }
        proof {
            assert(list@.take(list.len() as int) =~= list@);
            assert(old(self)@.union(list@.take(0).to_set()) =~= old(self)@);
        }
    }
}

} // verus!
