use vstd::prelude::*;

use crate::battle_state::{fleet_cells, initial_battle, ship_bodies, BattleState};
use crate::coord::Coordinate;
use crate::ship::{
    body_ok, can_move, can_rotate, initial_body, moved, rotated, Ship, ShipType,
};
use crate::state::{direction, direction_of, InputEvent, NextState, Phase};

verus! {

/// How many ships a fleet has.
pub const FLEET_SIZE: usize = 5;

/// The order in which the ships of the fleet are placed.
pub open spec fn fleet_type(i: int) -> ShipType {
    if i == 0 {
        ShipType::Carrier
    } else if i == 1 {
        ShipType::Battleship
    } else if i == 2 {
        ShipType::Destroyer
    } else if i == 3 {
        ShipType::Submarine
    } else {
        ShipType::PatrolBoat
    }
}

/// The setup phase as plain values.
pub struct SetupView {
    /// The ships placed so far.
    pub ships: Seq<Seq<Coordinate>>,
    /// The fleet index of the ship that comes after the current one.
    pub next_index: int,
    /// The ship being placed, if any is left.
    pub current: Option<Seq<Coordinate>>,
    pub is_host: bool,
}

pub open spec fn setup_wf(v: SetupView) -> bool {
    &&& 1 <= v.next_index <= FLEET_SIZE
    &&& v.current matches Some(c) ==> body_ok(c)
    &&& v.current is None ==> v.next_index == FLEET_SIZE
}

/// Some cell of `cells` is already taken by a placed ship.
pub open spec fn overlaps(cells: Seq<Coordinate>, ships: Seq<Seq<Coordinate>>) -> bool {
    exists|k: int, j: int| 0 <= k < cells.len() && 0 <= j < ships.len() && ships[j].contains(cells[k])
}

pub open spec fn placeable(v: SetupView) -> bool {
    v.current matches Some(c) && !overlaps(c, v.ships)
}

/// The setup at its start, with the first ship of the fleet to place.
pub open spec fn setup_start(is_host: bool) -> SetupView {
    SetupView {
        ships: Seq::empty(),
        next_index: 1,
        current: Some(initial_body(fleet_type(0))),
        is_host,
    }
}

/// The ship that follows, and the index after it.
pub open spec fn next_ship(i: int) -> (Option<Seq<Coordinate>>, int) {
    if i >= FLEET_SIZE {
        (None, i)
    } else {
        (Some(initial_body(fleet_type(i))), i + 1)
    }
}

/// How a batch of events in setup ends.
pub enum SetupOutcome {
    Continue,
    Quit,
    /// The whole fleet is placed.
    Done,
}

/// One input event in setup.
pub open spec fn setup_on_event(v: SetupView, e: InputEvent) -> (SetupView, SetupOutcome) {
    if e == InputEvent::Quit {
        (v, SetupOutcome::Quit)
    } else if e == InputEvent::Confirm {
        let w = if placeable(v) {
            let (n, i) = next_ship(v.next_index);
            SetupView { ships: v.ships.push(v.current->Some_0), current: n, next_index: i, ..v }
        } else {
            v
        };
        (w, if w.current is None { SetupOutcome::Done } else { SetupOutcome::Continue })
    } else if let Some(d) = direction_of(e) {
        match v.current {
            Some(c) => (
                SetupView {
                    current: Some(
                        if can_move(c, d) {
                            moved(c, d)
                        } else {
                            c
                        },
                    ),
                    ..v
                },
                SetupOutcome::Continue,
            ),
            None => (v, SetupOutcome::Continue),
        }
    } else if e == InputEvent::Rotate {
        match v.current {
            Some(c) => (
                SetupView {
                    current: Some(
                        if can_rotate(c) {
                            rotated(c)
                        } else {
                            c
                        },
                    ),
                    ..v
                },
                SetupOutcome::Continue,
            ),
            None => (v, SetupOutcome::Continue),
        }
    } else {
        (v, SetupOutcome::Continue)
    }
}

/// A batch of input events in setup, taken in order up to the first that
/// ends the phase.
pub open spec fn setup_on_events(v: SetupView, es: Seq<InputEvent>) -> (SetupView, SetupOutcome)
    decreases es.len(),
{
    if es.len() == 0 {
        (v, SetupOutcome::Continue)
    } else {
        let (w, out) = setup_on_events(v, es.drop_last());
        if out is Continue {
            setup_on_event(w, es.last())
        } else {
            (w, out)
        }
    }
}

fn ship_type_at(i: usize) -> (r: ShipType)
    requires
        i < FLEET_SIZE,
    ensures
        r == fleet_type(i as int),
{
    if i == 0 {
        ShipType::Carrier
    } else if i == 1 {
        ShipType::Battleship
    } else if i == 2 {
        ShipType::Destroyer
    } else if i == 3 {
        ShipType::Submarine
    } else {
        ShipType::PatrolBoat
    }
}

/// The setup phase: the fleet is placed ship by ship.
pub struct InitialState {
    ships: Vec<Ship>,
    curr_ship_index: usize,
    curr_ship: Option<Ship>,
    is_host: bool,
}

impl View for InitialState {
    type V = SetupView;

    closed spec fn view(&self) -> SetupView {
        SetupView {
            ships: ship_bodies(self.ships@),
            next_index: self.curr_ship_index as int,
            current: match self.curr_ship {
                Some(s) => Some(s@),
                None => None,
            },
            is_host: self.is_host,
        }
    }
}

impl InitialState {
    pub open spec fn wf(&self) -> bool {
        setup_wf(self@)
    }

    /// Starts the setup with the first ship of the fleet. The host is the
    /// peer that fires first in battle.
    pub fn new(is_host: bool) -> (r: InitialState)
        ensures
            r.wf(),
            r@ == setup_start(is_host),
    {
        let r = InitialState {
            ships: Vec::new(),
            curr_ship_index: 1,
            curr_ship: Some(Ship::new(ship_type_at(0))),
            is_host,
        };
        assert(r@.ships =~= Seq::<Seq<Coordinate>>::empty());
        r
    }

    fn get_next_ship(&mut self) -> (r: Option<Ship>)
        requires
            1 <= old(self).curr_ship_index <= FLEET_SIZE,
        ensures
            final(self).ships == old(self).ships,
            final(self).curr_ship == old(self).curr_ship,
            final(self).is_host == old(self).is_host,
            1 <= final(self).curr_ship_index <= FLEET_SIZE,
            r matches Some(s) ==> s.wf(),
            ((match r {
                Some(s) => Some(s@),
                None => None,
            }), final(self).curr_ship_index as int) == next_ship(old(self).curr_ship_index as int),
    {
        if self.curr_ship_index >= FLEET_SIZE {
            return None;
        }
        let result = Some(Ship::new(ship_type_at(self.curr_ship_index)));
        self.curr_ship_index = self.curr_ship_index + 1;
        result
    }

    /// The current ship exists and overlaps no placed ship.
    fn is_valid_ship(&self) -> (r: bool)
        ensures
            r == placeable(self@),
    {
        let cur = match &self.curr_ship {
            Some(s) => s,
            None => {
                return false;
            },
        };
        let ghost ships = self@.ships;
        let mut k: usize = 0;
        while k < cur.body.len()
            invariant
                ships == ship_bodies(self.ships@),
                self.curr_ship == Some(*cur),
                k <= cur@.len(),
                forall|k2: int, j: int|
                    0 <= k2 < k && 0 <= j < ships.len() ==> !ships[j].contains(cur@[k2]),
            decreases cur@.len() - k,
        {
            let c = cur.body[k];
            let mut j: usize = 0;
            while j < self.ships.len()
                invariant
                    ships == ship_bodies(self.ships@),
                    self.curr_ship == Some(*cur),
                    k < cur@.len(),
                    c == cur@[k as int],
                    j <= ships.len(),
                    forall|k2: int, j2: int|
                        0 <= k2 < k && 0 <= j2 < ships.len() ==> !ships[j2].contains(cur@[k2]),
                    forall|j2: int| 0 <= j2 < j ==> !ships[j2].contains(c),
                decreases ships.len() - j,
            {
                let body = &self.ships[j].body;
                let mut m: usize = 0;
                while m < body.len()
                    invariant
                        ships == ship_bodies(self.ships@),
                        self.curr_ship == Some(*cur),
                        k < cur@.len(),
                        c == cur@[k as int],
                        j < ships.len(),
                        body@ == ships[j as int],
                        m <= body@.len(),
                        forall|m2: int| 0 <= m2 < m ==> body@[m2] != c,
                    decreases body@.len() - m,
                {
                    if body[m] == c {
                        assert(ships[j as int][m as int] == cur@[k as int]);
                        assert(ships[j as int].contains(cur@[k as int]));
                        return false;
                    }
                    m = m + 1;
                }
                j = j + 1;
            }
            k = k + 1;
        }
        true
    }

    /// One cycle of the setup phase. Confirming places the current ship
    /// where it overlaps none placed before; once the last ship is placed,
    /// battle starts with the whole fleet.
    pub fn handle_events(&mut self, events: &Vec<InputEvent>) -> (r: NextState)
        requires
            old(self).wf(),
        ensures
            final(self).wf(),
            ({
                let (w, out) = setup_on_events(old(self)@, events@);
                &&& final(self)@ == w
                &&& match out {
                    SetupOutcome::Continue => r is Continue,
                    SetupOutcome::Quit => r is Quit,
                    SetupOutcome::Done => r matches NextState::Update(Phase::Battle(b)) && b.wf()
                        && b@ == initial_battle(fleet_cells(w.ships), w.is_host),
                }
            }),
    {
        let ghost v0 = self@;
        let mut quit = false;
        let mut done = false;
        let mut i: usize = 0;
        assert(events@.take(0) =~= Seq::<InputEvent>::empty());
        while i < events.len()
            invariant
                self.wf(),
                i <= events@.len(),
                !(quit && done),
                (self@, if quit {
                    SetupOutcome::Quit
                } else if done {
                    SetupOutcome::Done
                } else {
                    SetupOutcome::Continue
                }) == setup_on_events(v0, events@.take(i as int)),
            decreases events@.len() - i,
        {
            assert(events@.take(i + 1).drop_last() =~= events@.take(i as int));
            let e = events[i];
            if !quit && !done {
                if e == InputEvent::Quit {
                    quit = true;
                } else if e == InputEvent::Confirm {
                    if self.is_valid_ship() {
                        let ghost before = self@;
                        match &self.curr_ship {
                            Some(s) => {
                                let placed = s.clone();
                                self.ships.push(placed);
                            },
                            None => {},
                        }
                        assert(self@.ships =~= before.ships.push(before.current->Some_0));
                        self.curr_ship = self.get_next_ship();
                    }
                    if self.curr_ship.is_none() {
                        done = true;
                    }
                } else if let Some(d) = direction(e) {
                    match &mut self.curr_ship {
                        Some(s) => s.move_xy(&d),
                        None => {},
                    }
                } else if e == InputEvent::Rotate {
                    match &mut self.curr_ship {
                        Some(s) => s.rotate(),
                        None => {},
                    }
                }
            }
            i = i + 1;
        }
        assert(events@.take(i as int) =~= events@);
        if quit {
            NextState::Quit
        } else if done {
            NextState::Update(Phase::Battle(BattleState::new(&self.ships, self.is_host)))
        } else {
            NextState::Continue
        }
    }

    pub fn is_host(&self) -> (r: bool)
        ensures
            r == self@.is_host,
    {
        self.is_host
    }

    /// The ships placed so far.
    pub fn ships(&self) -> (r: &Vec<Ship>)
        ensures
            ship_bodies(r@) == self@.ships,
    {
        &self.ships
    }

    /// The ship being placed, if any is left.
    pub fn current_ship(&self) -> (r: &Option<Ship>)
        ensures
            match r {
                Some(s) => self@.current == Some(s@),
                None => self@.current is None,
            },
    {
        &self.curr_ship
    }
}

} // verus!
