use vstd::prelude::*;

use crate::battle_state::BattleState;
use crate::choose_state::ChooseState;
use crate::coord::Coordinate;
use crate::initial_state::InitialState;
use crate::stats_state::StatsState;

verus! {

/// An input event, already decoded from keys and mouse.
#[derive(PartialEq, Eq, Structural, Clone, Copy, Debug)]
pub enum InputEvent {
    Up,
    Down,
    Left,
    Right,
    Rotate,
    Confirm,
    /// A left click at a window position.
    Click { x: i32, y: i32 },
    Quit,
    Other,
}

/// The phase of a match that is active.
pub enum Phase {
    Choose(ChooseState),
    Setup(InitialState),
    Battle(BattleState),
    Resolution(StatsState),
}

/// What a phase asks for at the end of a cycle.
pub enum NextState {
    Update(Phase),
    Continue,
    Quit,
}

/// The offset that a direction event stands for.
pub open spec fn direction_of(e: InputEvent) -> Option<Coordinate> {
    match e {
        InputEvent::Up => Some(Coordinate { x: 0, y: -1i32 }),
        InputEvent::Down => Some(Coordinate { x: 0, y: 1 }),
        InputEvent::Left => Some(Coordinate { x: -1i32, y: 0 }),
        InputEvent::Right => Some(Coordinate { x: 1, y: 0 }),
        _ => None,
    }
}

pub fn direction(e: InputEvent) -> (r: Option<Coordinate>)
    ensures
        r == direction_of(e),
{
    match e {
        InputEvent::Up => Some(Coordinate { x: 0, y: -1 }),
        InputEvent::Down => Some(Coordinate { x: 0, y: 1 }),
        InputEvent::Left => Some(Coordinate { x: -1, y: 0 }),
        InputEvent::Right => Some(Coordinate { x: 1, y: 0 }),
        _ => None,
    }
}

} // verus!
