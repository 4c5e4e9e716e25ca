use vstd::prelude::*;

use crate::config::BOARD_LENGTH;
use crate::coord::Coordinate;

verus! {

#[derive(PartialEq, Eq, Structural, Clone, Copy, Debug)]
pub enum ShipType {
    Carrier,
    Battleship,
    Destroyer,
    Submarine,
    PatrolBoat,
}

pub open spec fn ship_length(t: ShipType) -> nat {
    match t {
        ShipType::Carrier => 5,
        ShipType::Battleship => 4,
        ShipType::Destroyer => 3,
        ShipType::Submarine => 3,
        ShipType::PatrolBoat => 2,
    }
}

pub open spec fn on_board_at(x: int, y: int) -> bool {
    0 <= x < BOARD_LENGTH && 0 <= y < BOARD_LENGTH
}

/// At least one cell, and every cell on the board.
pub open spec fn body_ok(s: Seq<Coordinate>) -> bool {
    s.len() > 0 && forall|i: int| 0 <= i < s.len() ==> (#[trigger] s[i]).on_board()
}

/// The cells of a fresh ship: a horizontal row from the top-left corner.
pub open spec fn initial_body(t: ShipType) -> Seq<Coordinate> {
    Seq::new(ship_length(t), |i: int| Coordinate { x: i as i32, y: 0 })
}

pub open spec fn can_move(s: Seq<Coordinate>, d: Coordinate) -> bool {
    forall|i: int| 0 <= i < s.len() ==> on_board_at(s[i].x + d.x, s[i].y + d.y)
}

pub open spec fn moved(s: Seq<Coordinate>, d: Coordinate) -> Seq<Coordinate> {
    s.map_values(|c: Coordinate| Coordinate { x: (c.x + d.x) as i32, y: (c.y + d.y) as i32 })
}

/// The pivot of a rotation: the middle cell.
pub open spec fn pivot(s: Seq<Coordinate>) -> Coordinate {
    s[s.len() as int / 2]
}

/// Where a quarter turn about `m` takes `c`.
pub open spec fn turned_x(c: Coordinate, m: Coordinate) -> int {
    m.x - (c.y - m.y)
}

pub open spec fn turned_y(c: Coordinate, m: Coordinate) -> int {
    m.y - (c.x - m.x)
}

pub open spec fn can_rotate(s: Seq<Coordinate>) -> bool {
    forall|i: int|
        0 <= i < s.len() ==> on_board_at(turned_x(s[i], pivot(s)), turned_y(s[i], pivot(s)))
}

pub open spec fn rotated(s: Seq<Coordinate>) -> Seq<Coordinate> {
    s.map_values(
        |c: Coordinate|
            Coordinate { x: turned_x(c, pivot(s)) as i32, y: turned_y(c, pivot(s)) as i32 },
    )
}

/// A ship being placed: the cells it covers.
pub struct Ship {
    pub body: Vec<Coordinate>,
}

impl View for Ship {
    type V = Seq<Coordinate>;

    open spec fn view(&self) -> Seq<Coordinate> {
        self.body@
    }
}

impl Clone for Ship {
    fn clone(&self) -> (r: Ship)
        ensures
            r@ == self@,
    {
        Ship { body: crate::coord::copy_cells(&self.body) }
    }
}

impl Ship {
    pub open spec fn wf(&self) -> bool {
        body_ok(self@)
    }

    pub fn new(ship_type: ShipType) -> (r: Ship)
        ensures
            r@ == initial_body(ship_type),
            r.wf(),
    {
        let n: i32 = match ship_type {
            ShipType::Carrier => 5,
            ShipType::Battleship => 4,
            ShipType::Destroyer | ShipType::Submarine => 3,
            ShipType::PatrolBoat => 2,
        };
        let mut body: Vec<Coordinate> = Vec::new();
        let mut i: i32 = 0;
        while i < n
            invariant
                n == ship_length(ship_type),
                0 <= i <= n,
                body@ == initial_body(ship_type).subrange(0, i as int),
            decreases n - i,
        {
            body.push(Coordinate { x: i, y: 0 });
            i = i + 1;
        }
        assert(body@ =~= initial_body(ship_type));
        Ship { body }
    }

    // is inside map borders?
    fn is_valid_move(&self, dxy: &Coordinate) -> (r: bool)
        ensures
            r == can_move(self@, *dxy),
    {
        let mut i: usize = 0;
        while i < self.body.len()
            invariant
                i <= self@.len(),
                forall|k: int|
                    0 <= k < i ==> on_board_at(self@[k].x + dxy.x, self@[k].y + dxy.y),
            decreases self@.len() - i,
        {
            let new_x = self.body[i].x as i64 + dxy.x as i64;
            let new_y = self.body[i].y as i64 + dxy.y as i64;
            if new_x < 0 || new_x >= BOARD_LENGTH as i64 || new_y < 0 || new_y >= BOARD_LENGTH
                as i64 {
                return false;
            }
            i = i + 1;
        }
        true
    }

    /// Shifts the ship by `dxy` when it stays on the board; otherwise leaves it.
    pub fn move_xy(&mut self, dxy: &Coordinate)
        requires
            old(self).wf(),
        ensures
            final(self).wf(),
            final(self)@ == if can_move(old(self)@, *dxy) {
                moved(old(self)@, *dxy)
            } else {
                old(self)@
            },
    {
        if self.is_valid_move(dxy) {
            let ghost s = self@;
            let mut body: Vec<Coordinate> = Vec::new();
            let mut i: usize = 0;
            while i < self.body.len()
                invariant
                    self@ == s,
                    can_move(s, *dxy),
                    i <= s.len(),
                    body@ == moved(s, *dxy).subrange(0, i as int),
                decreases s.len() - i,
            {
                let c = self.body[i];
                assert(on_board_at(s[i as int].x + dxy.x, s[i as int].y + dxy.y));
                body.push(Coordinate { x: c.x + dxy.x, y: c.y + dxy.y });
                i = i + 1;
            }
            assert(body@ =~= moved(s, *dxy));
            self.body = body;
            assert forall|k: int| 0 <= k < self@.len() implies (#[trigger] self@[k]).on_board() by {
                assert(on_board_at(s[k].x + dxy.x, s[k].y + dxy.y));
            }
        }
    }

    fn is_valid_rotate(&self) -> (r: bool)
        requires
            self.wf(),
        ensures
            r == can_rotate(self@),
    {
        let mid_point = self.body[self.body.len() / 2];
        let mut i: usize = 0;
        while i < self.body.len()
            invariant
                self.wf(),
                mid_point == pivot(self@),
                i <= self@.len(),
                forall|k: int|
                    0 <= k < i ==> on_board_at(
                        turned_x(self@[k], pivot(self@)),
                        turned_y(self@[k], pivot(self@)),
                    ),
            decreases self@.len() - i,
        {
            let p = self.body[i];
            assert(self@[i as int].on_board());
            let new_x = mid_point.x - (p.y - mid_point.y);
            let new_y = mid_point.y - (p.x - mid_point.x);
            if new_x < 0 || new_x >= BOARD_LENGTH || new_y < 0 || new_y >= BOARD_LENGTH {
                return false;
            }
            i = i + 1;
        }
        true
    }

    /// Turns the ship a quarter about its middle cell when it stays on the
    /// board; otherwise leaves it.
    pub fn rotate(&mut self)
        requires
            old(self).wf(),
        ensures
            final(self).wf(),
            final(self)@ == if can_rotate(old(self)@) {
                rotated(old(self)@)
            } else {
                old(self)@
            },
    {
        if self.is_valid_rotate() {
            let ghost s = self@;
            let mid_point = self.body[self.body.len() / 2];
            let mut body: Vec<Coordinate> = Vec::new();
            let mut i: usize = 0;
            while i < self.body.len()
                invariant
                    self@ == s,
                    can_rotate(s),
                    mid_point == pivot(s),
                    i <= s.len(),
                    body@ == rotated(s).subrange(0, i as int),
                decreases s.len() - i,
            {
                let p = self.body[i];
                assert(on_board_at(turned_x(s[i as int], pivot(s)), turned_y(s[i as int], pivot(s))));
                body.push(
                    Coordinate { x: mid_point.x - (p.y - mid_point.y), y: mid_point.y - (p.x - mid_point.x) },
                );
                i = i + 1;
            }
            assert(body@ =~= rotated(s));
            self.body = body;
            assert forall|k: int| 0 <= k < self@.len() implies (#[trigger] self@[k]).on_board() by {
                assert(on_board_at(turned_x(s[k], pivot(s)), turned_y(s[k], pivot(s))));
            }
        }
    }
}

} // verus!
