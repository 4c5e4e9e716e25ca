use vstd::prelude::*;

use crate::config::BOARD_LENGTH;

verus! {

/// A cell of the board, or a cell offset.
#[derive(PartialEq, Eq, Structural, Clone, Copy, Debug)]
pub struct Coordinate {
    pub x: i32,
    pub y: i32,
}

impl Coordinate {
    pub open spec fn on_board(self) -> bool {
        0 <= self.x < BOARD_LENGTH && 0 <= self.y < BOARD_LENGTH
    }

    pub fn new(x: i32, y: i32) -> (r: Coordinate)
        ensures
            r.x == x,
            r.y == y,
    {
        Coordinate { x, y }
    }
}

/// Copies a sequence of cells into a fresh vector.
pub fn copy_cells(cells: &Vec<Coordinate>) -> (r: Vec<Coordinate>)
    ensures
        r@ == cells@,
{
    let mut r: Vec<Coordinate> = Vec::new();
    let mut i: usize = 0;
    while i < cells.len()
        invariant
            i <= cells@.len(),
            r@ == cells@.subrange(0, i as int),
        decreases cells@.len() - i,
    {
        r.push(cells[i]);
        i = i + 1;
    }
    assert(r@ =~= cells@);
    r
}

} // verus!
