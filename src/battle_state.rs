use vstd::prelude::*;

use crate::codec::{
    ack_text, decode_ack, decode_shot, decoded_ack, decoded_shot, encode_ack, Ack, DecodeError,
};
use crate::config::BOARD_LENGTH;
use crate::coord::Coordinate;
use crate::ship::{on_board_at, Ship};
use crate::shot_record::{appended, ShotRecord};
use crate::state::{direction, direction_of, InputEvent, NextState, Phase};
use crate::stats_state::{StatsState, StatsView};

verus! {

/// The state of a match in battle, as plain values.
pub struct BattleView {
    /// The cells of the local fleet.
    pub ship_cells: Seq<Coordinate>,
    /// The cell that the local player aims at.
    pub cursor: Coordinate,
    /// The opponent's shots that hit the local fleet.
    pub opponent_hits: Seq<Coordinate>,
    pub opponent_misses: Seq<Coordinate>,
    /// The local player's shots that the opponent reported as hits.
    pub my_hits: Seq<Coordinate>,
    pub my_misses: Seq<Coordinate>,
    /// A shot may be fired.
    pub may_send: bool,
    /// An incoming shot may be awaited.
    pub may_receive: bool,
    pub is_over: bool,
}

/// No record repeats a cell; the aim is on the board; every hit of the
/// opponent lies on the fleet and every miss off it; a sunk fleet has ended
/// the match.
pub open spec fn battle_wf(v: BattleView) -> bool {
    &&& v.ship_cells.no_duplicates()
    &&& v.opponent_hits.no_duplicates()
    &&& v.opponent_misses.no_duplicates()
    &&& v.my_hits.no_duplicates()
    &&& v.my_misses.no_duplicates()
    &&& v.cursor.on_board()
    &&& v.ship_cells.len() > 0 && v.opponent_hits.len() == v.ship_cells.len() ==> v.is_over
    &&& forall|i: int|
        0 <= i < v.opponent_hits.len() ==> v.ship_cells.contains(#[trigger] v.opponent_hits[i])
    &&& forall|i: int|
        0 <= i < v.opponent_misses.len() ==> !v.ship_cells.contains(
            #[trigger] v.opponent_misses[i],
        )
}

/// `cells` appended one by one to `s`.
pub open spec fn append_all(s: Seq<Coordinate>, cells: Seq<Coordinate>) -> Seq<Coordinate>
    decreases cells.len(),
{
    if cells.len() == 0 {
        s
    } else {
        appended(append_all(s, cells.drop_last()), cells.last())
    }
}

/// The distinct cells of a fleet, in order of first occurrence.
pub open spec fn fleet_cells(bodies: Seq<Seq<Coordinate>>) -> Seq<Coordinate>
    decreases bodies.len(),
{
    if bodies.len() == 0 {
        Seq::empty()
    } else {
        append_all(fleet_cells(bodies.drop_last()), bodies.last())
    }
}

pub open spec fn ship_bodies(ships: Seq<Ship>) -> Seq<Seq<Coordinate>> {
    Seq::new(ships.len(), |i: int| ships[i]@)
}

/// The middle of the board, where the aim starts.
pub open spec fn board_center() -> Coordinate {
    Coordinate { x: (BOARD_LENGTH / 2) as i32, y: (BOARD_LENGTH / 2) as i32 }
}

/// The state at the start of battle: the host fires first, the guest waits
/// for a shot.
pub open spec fn initial_battle(cells: Seq<Coordinate>, is_host: bool) -> BattleView {
    BattleView {
        ship_cells: cells,
        cursor: board_center(),
        opponent_hits: Seq::empty(),
        opponent_misses: Seq::empty(),
        my_hits: Seq::empty(),
        my_misses: Seq::empty(),
        may_send: is_host,
        may_receive: !is_host,
        is_over: false,
    }
}

/// The check made once per cycle: whether to start waiting for a shot, which
/// takes the permission to receive.
pub open spec fn polled(v: BattleView) -> (BattleView, bool) {
    if v.may_receive {
        (BattleView { may_receive: false, ..v }, true)
    } else {
        (v, false)
    }
}

/// Firing at the cursor, when permitted, takes the permission to send.
pub open spec fn fired(v: BattleView) -> (BattleView, Option<Coordinate>) {
    if v.may_send {
        (BattleView { may_send: false, ..v }, Some(v.cursor))
    } else {
        (v, None)
    }
}

/// A shot of the opponent at `c` is recorded and answered; the local player
/// may fire next. The last cell of the fleet hit ends the match.
pub open spec fn shot_received(v: BattleView, c: Coordinate) -> (BattleView, Ack) {
    if v.ship_cells.contains(c) {
        let hits = appended(v.opponent_hits, c);
        let sunk = hits.len() == v.ship_cells.len();
        (
            BattleView { opponent_hits: hits, is_over: v.is_over || sunk, may_send: true, ..v },
            if sunk {
                Ack::GameOver
            } else {
                Ack::Hit
            },
        )
    } else {
        (
            BattleView {
                opponent_misses: appended(v.opponent_misses, c),
                may_send: true,
                ..v
            },
            Ack::Miss,
        )
    }
}

/// The opponent's answer to a shot at `target` is recorded; the local player
/// may wait for the opponent's shot next.
pub open spec fn ack_received(v: BattleView, target: Coordinate, a: Ack) -> BattleView {
    match a {
        Ack::Hit => BattleView { my_hits: appended(v.my_hits, target), may_receive: true, ..v },
        Ack::Miss => BattleView {
            my_misses: appended(v.my_misses, target),
            may_receive: true,
            ..v
        },
        Ack::GameOver => BattleView { is_over: true, may_receive: true, ..v },
    }
}

/// The aim moved by `(dx, dy)` when it stays on the board.
pub open spec fn aim_moved(v: BattleView, d: Coordinate) -> BattleView {
    if on_board_at(v.cursor.x + d.x, v.cursor.y + d.y) {
        BattleView {
            cursor: Coordinate { x: (v.cursor.x + d.x) as i32, y: (v.cursor.y + d.y) as i32 },
            ..v
        }
    } else {
        v
    }
}

/// One input event in battle: the new state, the shot fired, and whether
/// the player quit.
pub open spec fn battle_on_event(v: BattleView, e: InputEvent) -> (BattleView, Option<Coordinate>, bool) {
    if e == InputEvent::Quit {
        (v, None, true)
    } else if e == InputEvent::Confirm {
        let (w, shot) = fired(v);
        (w, shot, false)
    } else if let Some(d) = direction_of(e) {
        (aim_moved(v, d), None, false)
    } else {
        (v, None, false)
    }
}

/// A batch of input events in battle, taken in order up to the first request
/// to quit.
pub open spec fn battle_on_events(v: BattleView, es: Seq<InputEvent>) -> (BattleView, Option<Coordinate>, bool)
    decreases es.len(),
{
    if es.len() == 0 {
        (v, None, false)
    } else {
        let (w, shot, quit) = battle_on_events(v, es.drop_last());
        if quit {
            (w, shot, true)
        } else {
            let (w2, shot2, quit2) = battle_on_event(w, es.last());
            (w2, if shot2 is Some { shot2 } else { shot }, quit2)
        }
    }
}

pub open spec fn stats_of(v: BattleView) -> StatsView {
    StatsView {
        opponent_hits: v.opponent_hits,
        opponent_misses: v.opponent_misses,
        my_hits: v.my_hits,
        my_misses: v.my_misses,
    }
}

/// What one cycle of the battle phase asks of the network and of the match
/// flow.
pub struct BattleCycle {
    /// Start waiting for the opponent's shot.
    pub start_receive: bool,
    /// Send a shot at this cell and wait for its answer.
    pub shot: Option<Coordinate>,
    pub next: NextState,
}

/// The battle phase: the local fleet, the four shot records and the turn
/// permissions. Network work happens outside; each method here is one step
/// of the exchange.
pub struct BattleState {
    ship_cells: ShotRecord,
    my_shot: Coordinate,
    opponent_hit_shots: ShotRecord,
    opponent_miss_shots: ShotRecord,
    my_hit_shots: ShotRecord,
    my_miss_shots: ShotRecord,
    is_send_shot: bool,
    is_receive_shot: bool,
    is_quit: bool,
}

impl View for BattleState {
    type V = BattleView;

    closed spec fn view(&self) -> BattleView {
        BattleView {
            ship_cells: self.ship_cells@,
            cursor: self.my_shot,
            opponent_hits: self.opponent_hit_shots@,
            opponent_misses: self.opponent_miss_shots@,
            my_hits: self.my_hit_shots@,
            my_misses: self.my_miss_shots@,
            may_send: self.is_send_shot,
            may_receive: self.is_receive_shot,
            is_over: self.is_quit,
        }
    }
}

impl BattleState {
    pub open spec fn wf(&self) -> bool {
        battle_wf(self@)
    }

    /// Starts the battle with the cells of `my_ships` as the fleet.
    pub fn new(my_ships: &Vec<Ship>, is_host: bool) -> (r: BattleState)
        ensures
            r.wf(),
            r@ == initial_battle(fleet_cells(ship_bodies(my_ships@)), is_host),
    {
        let ghost bodies = ship_bodies(my_ships@);
        let mut cells = ShotRecord::new();
        let mut i: usize = 0;
        assert(bodies.take(0) =~= Seq::<Seq<Coordinate>>::empty());
        while i < my_ships.len()
            invariant
                bodies == ship_bodies(my_ships@),
                i <= my_ships@.len(),
                cells.wf(),
                cells@ == fleet_cells(bodies.take(i as int)),
            decreases my_ships@.len() - i,
        {
            let body = &my_ships[i].body;
            let ghost start = cells@;
            let mut j: usize = 0;
            assert(body@.take(0) =~= Seq::<Coordinate>::empty());
            while j < body.len()
                invariant
                    bodies == ship_bodies(my_ships@),
                    i < my_ships@.len(),
                    body@ == bodies[i as int],
                    j <= body@.len(),
                    cells.wf(),
                    cells@ == append_all(start, body@.take(j as int)),
                decreases body@.len() - j,
            {
                cells.append(body[j]);
                assert(body@.take(j + 1).drop_last() =~= body@.take(j as int));
                j = j + 1;
            }
            assert(body@.take(j as int) =~= body@);
            assert(bodies.take(i + 1).drop_last() =~= bodies.take(i as int));
            i = i + 1;
        }
        assert(bodies.take(i as int) =~= bodies);
        BattleState {
            ship_cells: cells,
            my_shot: Coordinate { x: BOARD_LENGTH / 2, y: BOARD_LENGTH / 2 },
            opponent_hit_shots: ShotRecord::new(),
            opponent_miss_shots: ShotRecord::new(),
            my_hit_shots: ShotRecord::new(),
            my_miss_shots: ShotRecord::new(),
            is_send_shot: is_host,
            is_receive_shot: !is_host,
            is_quit: false,
        }
    }

    /// The per-cycle check: takes the permission to receive, when held, and
    /// says whether to start waiting for the opponent's shot.
    pub fn update(&mut self) -> (r: bool)
        requires
            old(self).wf(),
        ensures
            final(self).wf(),
            (final(self)@, r) == polled(old(self)@),
    {
        if self.is_receive_shot {
            self.is_receive_shot = false;
            true
        } else {
            false
        }
    }

    /// Fires at the aimed cell when a shot may be sent: takes the permission
    /// to send and returns the target.
    pub fn fire(&mut self) -> (r: Option<Coordinate>)
        requires
            old(self).wf(),
        ensures
            final(self).wf(),
            (final(self)@, r) == fired(old(self)@),
            r matches Some(c) ==> c.on_board(),
    {
        if self.is_send_shot {
            self.is_send_shot = false;
            Some(self.my_shot)
        } else {
            None
        }
    }

    /// Records the opponent's shot at `shot` and gives the answer to send
    /// back.
    pub fn receive_shot(&mut self, shot: Coordinate) -> (r: Ack)
        requires
            old(self).wf(),
        ensures
            final(self).wf(),
            (final(self)@, r) == shot_received(old(self)@, shot),
    {
        let ghost v = self@;
        let reply;
        if self.ship_cells.contains(shot) {
            self.opponent_hit_shots.append(shot);
            if self.opponent_hit_shots.len() == self.ship_cells.len() {
                self.is_quit = true;
                reply = Ack::GameOver;
            } else {
                reply = Ack::Hit;
            }
            proof {
                assert forall|i: int| 0 <= i < self@.opponent_hits.len() implies v.ship_cells.contains(
                    #[trigger] self@.opponent_hits[i],
                ) by {
                    if i < v.opponent_hits.len() {
                        assert(self@.opponent_hits[i] == v.opponent_hits[i]);
                    }
                }
            }
        } else {
            self.opponent_miss_shots.append(shot);
            reply = Ack::Miss;
            proof {
                assert forall|i: int| 0 <= i < self@.opponent_misses.len() implies !v.ship_cells.contains(
                    #[trigger] self@.opponent_misses[i],
                ) by {
                    if i < v.opponent_misses.len() {
                        assert(self@.opponent_misses[i] == v.opponent_misses[i]);
                    }
                }
            }
        }
        self.is_send_shot = true;
        reply
    }

    /// The receive path once a payload has arrived: decodes the shot, records
    /// it and returns the answer's payload. A payload that does not decode
    /// changes nothing and is returned as the error.
    pub fn rcv_snd(&mut self, payload: &[u8]) -> (r: Result<Vec<u8>, DecodeError>)
        requires
            old(self).wf(),
        ensures
            final(self).wf(),
            match decoded_shot(payload@) {
                Ok(c) => {
                    &&& final(self)@ == shot_received(old(self)@, c).0
                    &&& r matches Ok(reply) && reply@ == ack_text(shot_received(old(self)@, c).1)
                },
                Err(e) => final(self)@ == old(self)@ && r == Err::<Vec<u8>, DecodeError>(e),
            },
    {
        match decode_shot(payload) {
            Ok(c) => {
                let a = self.receive_shot(c);
                Ok(encode_ack(a))
            },
            Err(e) => Err(e),
        }
    }

    /// Records the opponent's answer `a` to the shot at `target`.
    pub fn receive_ack(&mut self, target: Coordinate, a: Ack)
        requires
            old(self).wf(),
        ensures
            final(self).wf(),
            final(self)@ == ack_received(old(self)@, target, a),
    {
        match a {
            Ack::Hit => self.my_hit_shots.append(target),
            Ack::Miss => self.my_miss_shots.append(target),
            Ack::GameOver => self.is_quit = true,
        }
        self.is_receive_shot = true;
    }

    /// The send path once the answer to the shot at `target` has arrived. A
    /// payload that does not decode changes nothing and is returned as the
    /// error.
    pub fn snd_rcv(&mut self, target: Coordinate, payload: &[u8]) -> (r: Result<Ack, DecodeError>)
        requires
            old(self).wf(),
        ensures
            final(self).wf(),
            r == decoded_ack(payload@),
            match r {
                Ok(a) => final(self)@ == ack_received(old(self)@, target, a),
                Err(_) => final(self)@ == old(self)@,
            },
    {
        let r = decode_ack(payload);
        if let Ok(a) = r {
            self.receive_ack(target, a);
        }
        r
    }

    fn is_valid_shot_move(&self, dxy: &Coordinate) -> (r: bool)
        ensures
            r == on_board_at(self@.cursor.x + dxy.x, self@.cursor.y + dxy.y),
    {
        let x = self.my_shot.x as i64 + dxy.x as i64;
        let y = self.my_shot.y as i64 + dxy.y as i64;
        0 <= x && x < BOARD_LENGTH as i64 && 0 <= y && y < BOARD_LENGTH as i64
    }

    /// Moves the aim by `dxy` when it stays on the board.
    pub fn move_shot(&mut self, dxy: &Coordinate)
        requires
            old(self).wf(),
        ensures
            final(self).wf(),
            final(self)@ == aim_moved(old(self)@, *dxy),
    {
        if self.is_valid_shot_move(dxy) {
            self.my_shot.x = self.my_shot.x + dxy.x;
            self.my_shot.y = self.my_shot.y + dxy.y;
        }
    }

    pub fn is_over(&self) -> (r: bool)
        ensures
            r == self@.is_over,
    {
        self.is_quit
    }

    pub fn may_send(&self) -> (r: bool)
        ensures
            r == self@.may_send,
    {
        self.is_send_shot
    }

    pub fn may_receive(&self) -> (r: bool)
        ensures
            r == self@.may_receive,
    {
        self.is_receive_shot
    }

    pub fn cursor(&self) -> (r: Coordinate)
        ensures
            r == self@.cursor,
    {
        self.my_shot
    }

    pub fn ship_cells(&self) -> (r: Vec<Coordinate>)
        ensures
            r@ == self@.ship_cells,
    {
        self.ship_cells.cells()
    }

    pub fn opponent_hits(&self) -> (r: Vec<Coordinate>)
        ensures
            r@ == self@.opponent_hits,
    {
        self.opponent_hit_shots.cells()
    }

    pub fn opponent_misses(&self) -> (r: Vec<Coordinate>)
        ensures
            r@ == self@.opponent_misses,
    {
        self.opponent_miss_shots.cells()
    }

    pub fn my_hits(&self) -> (r: Vec<Coordinate>)
        ensures
            r@ == self@.my_hits,
    {
        self.my_hit_shots.cells()
    }

    pub fn my_misses(&self) -> (r: Vec<Coordinate>)
        ensures
            r@ == self@.my_misses,
    {
        self.my_miss_shots.cells()
    }

    /// One cycle of the battle phase: the per-cycle check, then, once the
    /// match is over, the move to the summary; else the batch of events.
    pub fn handle_events(&mut self, events: &Vec<InputEvent>) -> (r: BattleCycle)
        requires
            old(self).wf(),
        ensures
            final(self).wf(),
            r.start_receive == polled(old(self)@).1,
            ({
                let p = polled(old(self)@).0;
                if p.is_over {
                    &&& final(self)@ == p
                    &&& r.shot is None
                    &&& r.next matches NextState::Update(Phase::Resolution(st)) && st@ == stats_of(p)
                } else {
                    let (w, shot, quit) = battle_on_events(p, events@);
                    &&& final(self)@ == w
                    &&& r.shot == shot
                    &&& if quit {
                        r.next is Quit
                    } else {
                        r.next is Continue
                    }
                }
            }),
    {
        let start_receive = self.update();
        if self.is_quit {
            let stats = StatsState::new(
                self.opponent_hit_shots.cells(),
                self.opponent_miss_shots.cells(),
                self.my_hit_shots.cells(),
                self.my_miss_shots.cells(),
            );
            return BattleCycle {
                start_receive,
                shot: None,
                next: NextState::Update(Phase::Resolution(stats)),
            };
        }
        let ghost p = self@;
        let mut shot: Option<Coordinate> = None;
        let mut quit = false;
        let mut i: usize = 0;
        assert(events@.take(0) =~= Seq::<InputEvent>::empty());
        while i < events.len()
            invariant
                self.wf(),
                i <= events@.len(),
                (self@, shot, quit) == battle_on_events(p, events@.take(i as int)),
            decreases events@.len() - i,
        {
            assert(events@.take(i + 1).drop_last() =~= events@.take(i as int));
            let e = events[i];
            if !quit {
                if e == InputEvent::Quit {
                    quit = true;
                } else if e == InputEvent::Confirm {
                    let fired_at = self.fire();
                    if fired_at.is_some() {
                        shot = fired_at;
                    }
                } else if let Some(d) = direction(e) {
                    self.move_shot(&d);
                }
            }
            i = i + 1;
        }
        assert(events@.take(i as int) =~= events@);
        BattleCycle { start_receive, shot, next: if quit { NextState::Quit } else { NextState::Continue } }
    }
}

/// One round trip: the receiver starts waiting, the shooter fires at its aim,
/// the receiver answers, and the shooter records the answer.
pub open spec fn round_trip(shooter: BattleView, receiver: BattleView) -> (BattleView, BattleView) {
    let waiting = polled(receiver).0;
    let sent = fired(shooter).0;
    let (answered, reply) = shot_received(waiting, shooter.cursor);
    (ack_received(sent, shooter.cursor, reply), answered)
}

/// Turns alternate: when one peer may send and the other may receive, a
/// round trip hands the turn to the other peer, and a second round trip in
/// the other direction gives both peers their first permissions back.
pub proof fn lemma_turns_alternate(a: BattleView, b: BattleView)
    requires
        a.may_send && !a.may_receive,
        !b.may_send && b.may_receive,
    ensures
        polled(b).1,
        fired(a).1 == Some(a.cursor),
        ({
            let (a1, b1) = round_trip(a, b);
            &&& !a1.may_send && a1.may_receive
            &&& b1.may_send && !b1.may_receive
            &&& polled(a1).1
            &&& fired(b1).1 == Some(b1.cursor)
            &&& ({
                let (b2, a2) = round_trip(b1, a1);
                &&& a2.may_send == a.may_send && a2.may_receive == a.may_receive
                &&& b2.may_send == b.may_send && b2.may_receive == b.may_receive
            })
        }),
{
}

/// No shot of the opponent is recorded both as a hit and as a miss.
pub proof fn lemma_opponent_records_disjoint(v: BattleView, c: Coordinate)
    requires
        battle_wf(v),
    ensures
        !(v.opponent_hits.contains(c) && v.opponent_misses.contains(c)),
{
    if v.opponent_hits.contains(c) && v.opponent_misses.contains(c) {
        let i = choose|i: int| 0 <= i < v.opponent_hits.len() && v.opponent_hits[i] == c;
        let j = choose|j: int| 0 <= j < v.opponent_misses.len() && v.opponent_misses[j] == c;
        assert(v.ship_cells.contains(v.opponent_hits[i]));
        assert(!v.ship_cells.contains(v.opponent_misses[j]));
    }
}

/// A fleet's hit record never holds more cells than the fleet.
pub proof fn lemma_hits_within_fleet(v: BattleView)
    requires
        battle_wf(v),
    ensures
        v.opponent_hits.len() <= v.ship_cells.len(),
{
    v.opponent_hits.unique_seq_to_set();
    v.ship_cells.unique_seq_to_set();
    assert(v.opponent_hits.to_set().subset_of(v.ship_cells.to_set())) by {
        assert forall|c: Coordinate| v.opponent_hits.to_set().contains(c) implies v.ship_cells.to_set().contains(c) by {
            let i = choose|i: int| 0 <= i < v.opponent_hits.len() && v.opponent_hits[i] == c;
            assert(v.ship_cells.contains(v.opponent_hits[i]));
        }
    }
    vstd::set_lib::lemma_len_subset(v.opponent_hits.to_set(), v.ship_cells.to_set());
}

/// A match that is not over ends on a received shot exactly when the hit
/// record reaches the number of cells of the fleet, and not before.
pub proof fn lemma_over_when_fleet_sunk(v: BattleView, c: Coordinate)
    requires
        battle_wf(v),
        v.ship_cells.len() > 0,
        !v.is_over,
    ensures
        ({
            let (w, reply) = shot_received(v, c);
            &&& battle_wf(w)
            &&& w.is_over <==> w.opponent_hits.len() == w.ship_cells.len()
            &&& w.is_over <==> reply == Ack::GameOver
            &&& !w.is_over ==> w.opponent_hits.len() < w.ship_cells.len()
        }),
{
    let (w, reply) = shot_received(v, c);
    if v.ship_cells.contains(c) {
        crate::shot_record::lemma_append_idempotent(v.opponent_hits, c);
        assert forall|i: int| 0 <= i < w.opponent_hits.len() implies w.ship_cells.contains(
            #[trigger] w.opponent_hits[i],
        ) by {
            if i < v.opponent_hits.len() {
                assert(w.opponent_hits[i] == v.opponent_hits[i]);
            }
        }
    } else {
        crate::shot_record::lemma_append_idempotent(v.opponent_misses, c);
        assert forall|i: int| 0 <= i < w.opponent_misses.len() implies !w.ship_cells.contains(
            #[trigger] w.opponent_misses[i],
        ) by {
            if i < v.opponent_misses.len() {
                assert(w.opponent_misses[i] == v.opponent_misses[i]);
            }
        }
    }
    lemma_hits_within_fleet(w);
    lemma_hits_within_fleet(v);
}

} // verus!
