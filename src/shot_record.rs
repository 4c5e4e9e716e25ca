use vstd::prelude::*;

use crate::coord::Coordinate;

verus! {

/// The cells that a record holds after `c` is appended to `s`: a cell that is
/// already there is not added again.
pub open spec fn appended(s: Seq<Coordinate>, c: Coordinate) -> Seq<Coordinate> {
    if s.contains(c) {
        s
    } else {
        s.push(c)
    }
}

/// A set of board cells, kept in the order of first arrival: each record of
/// shots, and the cells of a fleet.
pub struct ShotRecord {
    cells: Vec<Coordinate>,
}

impl View for ShotRecord {
    type V = Seq<Coordinate>;

    closed spec fn view(&self) -> Seq<Coordinate> {
        self.cells@
    }
}

impl ShotRecord {
    /// No cell is recorded twice.
    pub open spec fn wf(&self) -> bool {
        self@.no_duplicates()
    }

    pub fn new() -> (r: ShotRecord)
        ensures
            r.wf(),
            r@ == Seq::<Coordinate>::empty(),
    {
        ShotRecord { cells: Vec::new() }
    }

    pub fn contains(&self, c: Coordinate) -> (r: bool)
        ensures
            r == self@.contains(c),
    {
        let mut i: usize = 0;
        while i < self.cells.len()
            invariant
                i <= self@.len(),
                forall|j: int| 0 <= j < i ==> self@[j] != c,
            decreases self@.len() - i,
        {
            if self.cells[i] == c {
                return true;
            }
            i = i + 1;
        }
        false
    }

    /// Appends `c` unless it is already recorded.
    pub fn append(&mut self, c: Coordinate)
        requires
            old(self).wf(),
        ensures
            final(self).wf(),
            final(self)@ == appended(old(self)@, c),
    {
        if !self.contains(c) {
            self.cells.push(c);
            proof {
                let s = old(self)@;
                assert forall|i: int, j: int|
                    0 <= i < j < s.len() + 1 implies self@[i] != self@[j] by {
                    if j == s.len() {
                        assert(s[i] != c);
                    }
                }
            }
        }
    }

    /// Number of distinct cells recorded.
    pub fn len(&self) -> (r: usize)
        ensures
            r == self@.len(),
    {
        self.cells.len()
    }

    /// The recorded cells, in order of first arrival.
    pub fn cells(&self) -> (r: Vec<Coordinate>)
        ensures
            r@ == self@,
    {
        crate::coord::copy_cells(&self.cells)
    }
}

/// Appending a cell that is already there changes nothing, so appending the
/// same cell twice leaves as many cells as appending it once, and the cell
/// counts once.
pub proof fn lemma_append_idempotent(s: Seq<Coordinate>, c: Coordinate)
    requires
        s.no_duplicates(),
    ensures
        appended(appended(s, c), c) == appended(s, c),
        appended(s, c).no_duplicates(),
        appended(s, c).contains(c),
        appended(s, c).len() == if s.contains(c) { s.len() } else { s.len() + 1 },
{
    let t = s.push(c);
    if !s.contains(c) {
        assert(t[s.len() as int] == c);
        assert forall|i: int, j: int| 0 <= i < j < t.len() implies t[i] != t[j] by {
            if j == s.len() {
                assert(t[i] == s[i]);
            }
        }
    }
    assert(appended(s, c).contains(c));
}

} // verus!
