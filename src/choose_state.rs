use vstd::prelude::*;

use crate::config::{WINDOW_HEIGHT, WINDOW_WIDTH};
use crate::initial_state::{setup_start, InitialState};
use crate::state::{InputEvent, NextState, Phase};

verus! {

/// A clickable rectangle of the window.
#[derive(PartialEq, Eq, Structural, Clone, Copy, Debug)]
pub struct Button {
    pub x: i32,
    pub y: i32,
    pub width: u32,
    pub height: u32,
}

impl Button {
    pub open spec fn contains(self, px: int, py: int) -> bool {
        self.x <= px < self.x + self.width && self.y <= py < self.y + self.height
    }

    pub fn is_click(&self, x: i32, y: i32) -> (r: bool)
        ensures
            r == self.contains(x as int, y as int),
    {
        let x = x as i64;
        let y = y as i64;
        x >= self.x as i64 && x < self.x as i64 + self.width as i64 && y >= self.y as i64 && y
            < self.y as i64 + self.height as i64
    }
}

/// The role chosen on the first screen.
pub enum Choice {
    Quit,
    /// Start the rendezvous service and fire first.
    Host,
    /// Join a rendezvous service and wait for the first shot.
    Guest,
}

pub open spec fn create_button() -> Button {
    Button {
        x: (WINDOW_WIDTH / 2 - 100) as i32,
        y: (WINDOW_HEIGHT / 3 - 20) as i32,
        width: 200,
        height: 40,
    }
}

pub open spec fn join_button() -> Button {
    Button {
        x: (WINDOW_WIDTH / 2 - 100) as i32,
        y: (WINDOW_HEIGHT / 2 - 20) as i32,
        width: 200,
        height: 40,
    }
}

/// One input event on the first screen.
pub open spec fn choice_on_event(s: ChooseView, e: InputEvent) -> Option<Choice> {
    match e {
        InputEvent::Quit => Some(Choice::Quit),
        InputEvent::Click { x, y } => if s.create.contains(x as int, y as int) {
            Some(Choice::Host)
        } else if s.join.contains(x as int, y as int) {
            Some(Choice::Guest)
        } else {
            None
        },
        _ => None,
    }
}

/// The first event of a batch that makes a choice decides it.
pub open spec fn choice_on_events(s: ChooseView, es: Seq<InputEvent>) -> Option<Choice>
    decreases es.len(),
{
    if es.len() == 0 {
        None
    } else {
        match choice_on_events(s, es.drop_last()) {
            Some(c) => Some(c),
            None => choice_on_event(s, es.last()),
        }
    }
}

pub struct ChooseView {
    pub create: Button,
    pub join: Button,
}

/// The first screen: host a match or join one.
pub struct ChooseState {
    create_button: Button,
    join_button: Button,
}

impl View for ChooseState {
    type V = ChooseView;

    closed spec fn view(&self) -> ChooseView {
        ChooseView { create: self.create_button, join: self.join_button }
    }
}

impl ChooseState {
    pub fn new() -> (r: ChooseState)
        ensures
            r@ == (ChooseView { create: create_button(), join: join_button() }),
    {
        ChooseState {
            create_button: Button {
                x: (WINDOW_WIDTH / 2 - 100) as i32,
                y: (WINDOW_HEIGHT / 3 - 20) as i32,
                width: 200,
                height: 40,
            },
            join_button: Button {
                x: (WINDOW_WIDTH / 2 - 100) as i32,
                y: (WINDOW_HEIGHT / 2 - 20) as i32,
                width: 200,
                height: 40,
            },
        }
    }

    /// One cycle of the first screen: the first click on a button chooses the
    /// role and starts the setup.
    pub fn handle_events(&self, events: &Vec<InputEvent>) -> (r: NextState)
        ensures
            match choice_on_events(self@, events@) {
                None => r is Continue,
                Some(Choice::Quit) => r is Quit,
                Some(Choice::Host) => r matches NextState::Update(Phase::Setup(st)) && st.wf()
                    && st@ == setup_start(true),
                Some(Choice::Guest) => r matches NextState::Update(Phase::Setup(st)) && st.wf()
                    && st@ == setup_start(false),
            },
    {
        let mut i: usize = 0;
        assert(events@.take(0) =~= Seq::<InputEvent>::empty());
        while i < events.len()
            invariant
                i <= events@.len(),
                choice_on_events(self@, events@.take(i as int)) is None,
            decreases events@.len() - i,
        {
            assert(events@.take(i + 1).drop_last() =~= events@.take(i as int));
            let e = events[i];
            match e {
                InputEvent::Quit => {
                    proof {
                        lemma_choice_kept(self@, events@, i as int + 1);
                    }
                    return NextState::Quit;
                },
                InputEvent::Click { x, y } => {
                    if self.create_button.is_click(x, y) {
                        proof {
                            lemma_choice_kept(self@, events@, i as int + 1);
                        }
                        return NextState::Update(Phase::Setup(InitialState::new(true)));
                    } else if self.join_button.is_click(x, y) {
                        proof {
                            lemma_choice_kept(self@, events@, i as int + 1);
                        }
                        return NextState::Update(Phase::Setup(InitialState::new(false)));
                    }
                },
                _ => {},
            }
            i = i + 1;
        }
        assert(events@.take(i as int) =~= events@);
        NextState::Continue
    }

    pub fn create_button(&self) -> (r: Button)
        ensures
            r == self@.create,
    {
        self.create_button
    }

    pub fn join_button(&self) -> (r: Button)
        ensures
            r == self@.join,
    {
        self.join_button
    }
}

/// Once a prefix of the batch has made a choice, later events keep it.
proof fn lemma_choice_kept(s: ChooseView, es: Seq<InputEvent>, n: int)
    requires
        0 <= n <= es.len(),
        choice_on_events(s, es.take(n)) is Some,
    ensures
        choice_on_events(s, es) == choice_on_events(s, es.take(n)),
    decreases es.len() - n,
{
    if n < es.len() {
        assert(es.take(n + 1).drop_last() =~= es.take(n));
        lemma_choice_kept(s, es, n + 1);
    } else {
        assert(es.take(n) =~= es);
    }
}

} // verus!
