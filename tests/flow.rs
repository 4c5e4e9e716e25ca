use battleship::choose_state::ChooseState;
use battleship::coord::Coordinate;
use battleship::initial_state::InitialState;
use battleship::state::{InputEvent, NextState, Phase};
use battleship::stats_state::StatsState;

fn c(x: i32, y: i32) -> Coordinate {
    Coordinate::new(x, y)
}

#[test]
fn create_button_makes_the_host() {
    let s = ChooseState::new();
    let b = s.create_button();
    let ev = vec![InputEvent::Other, InputEvent::Click { x: b.x + 1, y: b.y + 1 }];
    match s.handle_events(&ev) {
        NextState::Update(Phase::Setup(st)) => assert!(st.is_host()),
        _ => panic!("expected setup"),
    }
}

#[test]
fn join_button_makes_the_guest() {
    let s = ChooseState::new();
    let b = s.join_button();
    let ev = vec![InputEvent::Click { x: b.x + b.width as i32 - 1, y: b.y }];
    match s.handle_events(&ev) {
        NextState::Update(Phase::Setup(st)) => assert!(!st.is_host()),
        _ => panic!("expected setup"),
    }
}

#[test]
fn clicks_beside_the_buttons_do_nothing() {
    let s = ChooseState::new();
    let b = s.join_button();
    assert!(!b.is_click(b.x + b.width as i32, b.y));
    assert!(!b.is_click(b.x, b.y - 1));
    assert!(b.is_click(b.x, b.y));
    let ev = vec![InputEvent::Click { x: 0, y: 0 }, InputEvent::Confirm];
    assert!(matches!(s.handle_events(&ev), NextState::Continue));
    assert!(matches!(s.handle_events(&vec![InputEvent::Quit]), NextState::Quit));
}

#[test]
fn setup_starts_with_the_carrier() {
    let st = InitialState::new(true);
    assert!(st.ships().is_empty());
    let cur = st.current_ship().as_ref().unwrap();
    assert_eq!(cur.body, vec![c(0, 0), c(1, 0), c(2, 0), c(3, 0), c(4, 0)]);
}

#[test]
fn overlapping_ship_is_not_placed() {
    let mut st = InitialState::new(false);
    assert!(matches!(st.handle_events(&vec![InputEvent::Confirm]), NextState::Continue));
    assert_eq!(st.ships().len(), 1);
    // the battleship starts on the carrier's row
    assert!(matches!(st.handle_events(&vec![InputEvent::Confirm]), NextState::Continue));
    assert_eq!(st.ships().len(), 1);
    assert_eq!(st.current_ship().as_ref().unwrap().body.len(), 4);
}

#[test]
fn placing_the_whole_fleet_starts_battle() {
    let mut st = InitialState::new(false);
    let mut ev = vec![InputEvent::Confirm];
    for row in 1..5 {
        for _ in 0..row {
            ev.push(InputEvent::Down);
        }
        ev.push(InputEvent::Confirm);
    }
    ev.push(InputEvent::Quit);
    match st.handle_events(&ev) {
        NextState::Update(Phase::Battle(b)) => {
            assert_eq!(b.ship_cells().len(), 5 + 4 + 3 + 3 + 2);
            assert!(!b.may_send());
            assert!(b.may_receive());
            assert_eq!(b.ship_cells()[5], c(0, 1));
        }
        _ => panic!("expected battle"),
    }
    assert_eq!(st.ships().len(), 5);
    assert!(st.current_ship().is_none());
}

#[test]
fn setup_moves_and_rotates_the_current_ship() {
    let mut st = InitialState::new(true);
    let ev = vec![InputEvent::Down, InputEvent::Down, InputEvent::Rotate, InputEvent::Right];
    assert!(matches!(st.handle_events(&ev), NextState::Continue));
    let cur = st.current_ship().as_ref().unwrap();
    assert_eq!(cur.body, vec![c(3, 4), c(3, 3), c(3, 2), c(3, 1), c(3, 0)]);
    assert!(matches!(st.handle_events(&vec![InputEvent::Quit]), NextState::Quit));
}

#[test]
fn summary_waits_for_quit() {
    let st = StatsState::new(vec![c(1, 1)], vec![], vec![c(2, 2)], vec![c(3, 3)]);
    assert!(matches!(st.handle_events(&vec![InputEvent::Confirm]), NextState::Continue));
    assert!(matches!(st.handle_events(&vec![InputEvent::Up, InputEvent::Quit]), NextState::Quit));
    assert_eq!(st.opponent_hits(), vec![c(1, 1)]);
    assert!(st.opponent_misses().is_empty());
    assert_eq!(st.my_hits(), vec![c(2, 2)]);
    assert_eq!(st.my_misses(), vec![c(3, 3)]);
}
