use vstd::prelude::*;

use crate::coord::{copy_cells, Coordinate};
use crate::state::{InputEvent, NextState};

verus! {

/// The four shot records shown once a match is over.
pub struct StatsView {
    pub opponent_hits: Seq<Coordinate>,
    pub opponent_misses: Seq<Coordinate>,
    pub my_hits: Seq<Coordinate>,
    pub my_misses: Seq<Coordinate>,
}

/// Whether a batch of events holds a request to quit.
pub open spec fn has_quit(events: Seq<InputEvent>) -> bool {
    exists|i: int| 0 <= i < events.len() && events[i] == InputEvent::Quit
}

/// The resolution phase: a read-only summary of the match.
pub struct StatsState {
    opponent_hit_shots: Vec<Coordinate>,
    opponent_miss_shots: Vec<Coordinate>,
    my_hit_shots: Vec<Coordinate>,
    my_miss_shots: Vec<Coordinate>,
}

impl View for StatsState {
    type V = StatsView;

    closed spec fn view(&self) -> StatsView {
        StatsView {
            opponent_hits: self.opponent_hit_shots@,
            opponent_misses: self.opponent_miss_shots@,
            my_hits: self.my_hit_shots@,
            my_misses: self.my_miss_shots@,
        }
    }
}

impl StatsState {
    pub fn new(
        opponent_hit_shots: Vec<Coordinate>,
        opponent_miss_shots: Vec<Coordinate>,
        my_hit_shots: Vec<Coordinate>,
        my_miss_shots: Vec<Coordinate>,
    ) -> (r: StatsState)
        ensures
            r@ == (StatsView {
                opponent_hits: opponent_hit_shots@,
                opponent_misses: opponent_miss_shots@,
                my_hits: my_hit_shots@,
                my_misses: my_miss_shots@,
            }),
    {
        StatsState { opponent_hit_shots, opponent_miss_shots, my_hit_shots, my_miss_shots }
    }

    /// The summary only waits for a request to quit.
    pub fn handle_events(&self, events: &Vec<InputEvent>) -> (r: NextState)
        ensures
            if has_quit(events@) {
                r is Quit
            } else {
                r is Continue
            },
    {
        let mut i: usize = 0;
        while i < events.len()
            invariant
                i <= events@.len(),
                forall|k: int| 0 <= k < i ==> events@[k] != InputEvent::Quit,
            decreases events@.len() - i,
        {
            if events[i] == InputEvent::Quit {
                return NextState::Quit;
            }
            i = i + 1;
        }
        NextState::Continue
    }

    pub fn opponent_hits(&self) -> (r: Vec<Coordinate>)
        ensures
            r@ == self@.opponent_hits,
    {
        copy_cells(&self.opponent_hit_shots)
    }

    pub fn opponent_misses(&self) -> (r: Vec<Coordinate>)
        ensures
            r@ == self@.opponent_misses,
    {
        copy_cells(&self.opponent_miss_shots)
    }

    pub fn my_hits(&self) -> (r: Vec<Coordinate>)
        ensures
            r@ == self@.my_hits,
    {
        copy_cells(&self.my_hit_shots)
    }

    pub fn my_misses(&self) -> (r: Vec<Coordinate>)
        ensures
            r@ == self@.my_misses,
    {
        copy_cells(&self.my_miss_shots)
    }
}

} // verus!
