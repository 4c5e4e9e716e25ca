use vstd::prelude::*;

pub mod battle_state;
pub mod choose_state;
pub mod codec;
pub mod config;
pub mod coord;
pub mod initial_state;
pub mod ship;
pub mod shot_record;
pub mod state;
pub mod stats_state;

verus! {

} // verus!
