use battleship::battle_state::BattleState;
use battleship::codec::{encode_shot, Ack, DecodeError};
use battleship::coord::Coordinate;
use battleship::ship::Ship;
use battleship::state::{InputEvent, NextState, Phase};

fn fleet(cells: &[(i32, i32)]) -> Vec<Ship> {
    vec![Ship { body: cells.iter().map(|&(x, y)| Coordinate::new(x, y)).collect() }]
}

fn c(x: i32, y: i32) -> Coordinate {
    Coordinate::new(x, y)
}

#[test]
fn host_sends_first_and_guest_receives_first() {
    let host = BattleState::new(&fleet(&[(0, 0)]), true);
    assert!(host.may_send() && !host.may_receive() && !host.is_over());
    let guest = BattleState::new(&fleet(&[(0, 0)]), false);
    assert!(!guest.may_send() && guest.may_receive() && !guest.is_over());
    assert_eq!(host.cursor(), c(5, 5));
}

#[test]
fn fleet_cells_are_deduplicated() {
    let ships = vec![fleet(&[(0, 0), (1, 0)]).remove(0), fleet(&[(1, 0), (2, 0)]).remove(0)];
    let b = BattleState::new(&ships, true);
    assert_eq!(b.ship_cells(), vec![c(0, 0), c(1, 0), c(2, 0)]);
}

#[test]
fn last_cell_hit_ends_the_match() {
    let mut b = BattleState::new(&fleet(&[(0, 0), (1, 0)]), false);
    assert_eq!(b.rcv_snd(b"SHOT 0 0"), Ok(b"HIT".to_vec()));
    assert_eq!(b.opponent_hits(), vec![c(0, 0)]);
    assert!(!b.is_over());
    assert_eq!(b.rcv_snd(b"SHOT 1 0"), Ok(b"GAMEOVER".to_vec()));
    assert_eq!(b.opponent_hits(), vec![c(0, 0), c(1, 0)]);
    assert!(b.is_over());
}

#[test]
fn a_miss_grants_the_turn_to_receive() {
    let mut b = BattleState::new(&fleet(&[(0, 0), (1, 0)]), true);
    let cycle = b.handle_events(&vec![InputEvent::Confirm]);
    assert_eq!(cycle.shot, Some(c(5, 5)));
    assert!(!cycle.start_receive);
    assert!(matches!(cycle.next, NextState::Continue));
    assert_eq!(encode_shot(c(5, 5)), b"SHOT 5 5".to_vec());
    assert_eq!(b.snd_rcv(c(5, 5), b"MISS"), Ok(Ack::Miss));
    assert_eq!(b.my_misses(), vec![c(5, 5)]);
    assert!(b.my_hits().is_empty());
    assert!(b.may_receive());
    assert!(!b.may_send());
}

#[test]
fn replayed_shot_is_recorded_once_and_answered_twice() {
    let mut b = BattleState::new(&fleet(&[(2, 2), (3, 2)]), false);
    assert_eq!(b.rcv_snd(b"SHOT 2 2"), Ok(b"HIT".to_vec()));
    assert_eq!(b.rcv_snd(b"SHOT 2 2"), Ok(b"HIT".to_vec()));
    assert_eq!(b.opponent_hits(), vec![c(2, 2)]);
    assert!(b.opponent_misses().is_empty());
    assert!(!b.is_over());
}

#[test]
fn replayed_miss_is_recorded_once_and_answered_twice() {
    let mut b = BattleState::new(&fleet(&[(0, 0)]), false);
    assert_eq!(b.rcv_snd(b"SHOT 2 2"), Ok(b"MISS".to_vec()));
    assert_eq!(b.rcv_snd(b"SHOT 2 2"), Ok(b"MISS".to_vec()));
    assert_eq!(b.opponent_misses(), vec![c(2, 2)]);
    assert!(b.opponent_hits().is_empty());
}

#[test]
fn replayed_hit_on_own_shot_is_recorded_once() {
    let mut b = BattleState::new(&fleet(&[(0, 0)]), true);
    assert_eq!(b.snd_rcv(c(4, 4), b"HIT"), Ok(Ack::Hit));
    assert_eq!(b.snd_rcv(c(4, 4), b"HIT"), Ok(Ack::Hit));
    assert_eq!(b.my_hits(), vec![c(4, 4)]);
}

#[test]
fn turns_alternate_over_a_full_round_trip() {
    let mut a = BattleState::new(&fleet(&[(0, 0), (1, 0)]), true);
    let mut b = BattleState::new(&fleet(&[(5, 5), (6, 5)]), false);
    // b starts waiting, a fires, b answers, a records the answer
    assert!(b.handle_events(&vec![]).start_receive);
    let shot = a.handle_events(&vec![InputEvent::Confirm]).shot.unwrap();
    let reply = b.rcv_snd(&encode_shot(shot)).unwrap();
    assert_eq!(reply, b"HIT".to_vec());
    assert_eq!(a.snd_rcv(shot, &reply), Ok(Ack::Hit));
    assert!(!a.may_send() && a.may_receive());
    assert!(b.may_send() && !b.may_receive());
    // the other way round
    assert!(a.handle_events(&vec![]).start_receive);
    let shot = b.handle_events(&vec![InputEvent::Confirm]).shot.unwrap();
    let reply = a.rcv_snd(&encode_shot(shot)).unwrap();
    assert_eq!(reply, b"MISS".to_vec());
    assert_eq!(b.snd_rcv(shot, &reply), Ok(Ack::Miss));
    assert!(a.may_send() && !a.may_receive());
    assert!(!b.may_send() && b.may_receive());
}

#[test]
fn over_exactly_when_every_cell_is_hit() {
    let mut b = BattleState::new(&fleet(&[(0, 0), (1, 0), (2, 0)]), false);
    assert_eq!(b.receive_shot(c(0, 0)), Ack::Hit);
    assert!(!b.is_over());
    assert_eq!(b.receive_shot(c(0, 0)), Ack::Hit);
    assert!(!b.is_over());
    assert_eq!(b.receive_shot(c(9, 9)), Ack::Miss);
    assert!(!b.is_over());
    assert_eq!(b.receive_shot(c(1, 0)), Ack::Hit);
    assert!(!b.is_over());
    assert_eq!(b.receive_shot(c(2, 0)), Ack::GameOver);
    assert!(b.is_over());
    assert_eq!(b.opponent_hits().len(), 3);
}

#[test]
fn gameover_answer_ends_the_match() {
    let mut b = BattleState::new(&fleet(&[(0, 0)]), true);
    assert_eq!(b.snd_rcv(c(3, 3), b"GAMEOVER"), Ok(Ack::GameOver));
    assert!(b.is_over());
    assert!(b.my_hits().is_empty());
}

#[test]
fn malformed_payloads_change_nothing() {
    let mut b = BattleState::new(&fleet(&[(0, 0)]), false);
    assert_eq!(b.rcv_snd(b"SHOT 10 0"), Err(DecodeError::OutOfBoard));
    assert_eq!(b.rcv_snd(b"SHOT x 0"), Err(DecodeError::Malformed));
    assert!(!b.may_send());
    assert!(b.opponent_hits().is_empty() && b.opponent_misses().is_empty());
    assert_eq!(b.snd_rcv(c(1, 1), b"HITS"), Err(DecodeError::Malformed));
    assert!(b.my_hits().is_empty() && b.my_misses().is_empty());
}

#[test]
fn fire_needs_the_permission_to_send() {
    let mut b = BattleState::new(&fleet(&[(0, 0)]), false);
    assert_eq!(b.fire(), None);
    let mut h = BattleState::new(&fleet(&[(0, 0)]), true);
    assert_eq!(h.fire(), Some(c(5, 5)));
    assert_eq!(h.fire(), None);
}

#[test]
fn aim_moves_and_stays_on_the_board() {
    let mut b = BattleState::new(&fleet(&[(0, 0)]), true);
    let ev = vec![InputEvent::Up, InputEvent::Up, InputEvent::Left, InputEvent::Other];
    let cycle = b.handle_events(&ev);
    assert_eq!(cycle.shot, None);
    assert_eq!(b.cursor(), c(4, 3));
    for _ in 0..10 {
        b.move_shot(&c(1, 0));
    }
    assert_eq!(b.cursor(), c(9, 3));
    b.move_shot(&c(0, -4));
    assert_eq!(b.cursor(), c(9, 3));
    b.move_shot(&c(-9, -3));
    assert_eq!(b.cursor(), c(0, 0));
}

#[test]
fn one_shot_per_cycle_and_quit_stops_the_batch() {
    let mut b = BattleState::new(&fleet(&[(0, 0)]), true);
    let ev = vec![InputEvent::Confirm, InputEvent::Right, InputEvent::Confirm];
    let cycle = b.handle_events(&ev);
    assert_eq!(cycle.shot, Some(c(5, 5)));
    assert_eq!(b.cursor(), c(6, 5));
    let mut h = BattleState::new(&fleet(&[(0, 0)]), true);
    let cycle = h.handle_events(&vec![InputEvent::Quit, InputEvent::Confirm]);
    assert!(matches!(cycle.next, NextState::Quit));
    assert_eq!(cycle.shot, None);
    assert!(h.may_send());
}

#[test]
fn over_match_moves_to_the_summary() {
    let mut b = BattleState::new(&fleet(&[(0, 0)]), false);
    assert_eq!(b.rcv_snd(b"SHOT 7 7"), Ok(b"MISS".to_vec()));
    assert_eq!(b.rcv_snd(b"SHOT 0 0"), Ok(b"GAMEOVER".to_vec()));
    let cycle = b.handle_events(&vec![InputEvent::Confirm]);
    assert_eq!(cycle.shot, None);
    match cycle.next {
        NextState::Update(Phase::Resolution(st)) => {
            assert_eq!(st.opponent_hits(), vec![c(0, 0)]);
            assert_eq!(st.opponent_misses(), vec![c(7, 7)]);
            assert!(st.my_hits().is_empty());
            assert!(st.my_misses().is_empty());
        }
        _ => panic!("expected the summary"),
    }
}
