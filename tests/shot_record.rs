use battleship::coord::Coordinate;
use battleship::shot_record::ShotRecord;

#[test]
fn appending_twice_keeps_cardinality() {
    let mut r = ShotRecord::new();
    r.append(Coordinate::new(4, 2));
    assert_eq!(r.len(), 1);
    r.append(Coordinate::new(4, 2));
    assert_eq!(r.len(), 1);
    assert_eq!(r.cells(), vec![Coordinate::new(4, 2)]);
}

#[test]
fn appending_distinct_cells_keeps_order() {
    let mut r = ShotRecord::new();
    assert_eq!(r.len(), 0);
    assert!(!r.contains(Coordinate::new(1, 1)));
    r.append(Coordinate::new(1, 1));
    r.append(Coordinate::new(0, 3));
    r.append(Coordinate::new(1, 1));
    assert_eq!(r.cells(), vec![Coordinate::new(1, 1), Coordinate::new(0, 3)]);
    assert!(r.contains(Coordinate::new(0, 3)));
    assert!(!r.contains(Coordinate::new(3, 0)));
}
