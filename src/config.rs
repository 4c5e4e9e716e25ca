use vstd::prelude::*;

verus! {

/// Side length of the square board.
pub const BOARD_LENGTH: i32 = 10;

pub const WINDOW_WIDTH: u32 = 1000;

pub const WINDOW_HEIGHT: u32 = 800;

} // verus!
