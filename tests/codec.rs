use battleship::codec::{decode_ack, decode_shot, encode_ack, encode_shot, Ack, DecodeError};
use battleship::coord::Coordinate;

#[test]
fn decodes_shot_on_board() {
    assert_eq!(decode_shot(b"SHOT 3 7"), Ok(Coordinate::new(3, 7)));
    assert_eq!(decode_shot(b"SHOT 0 0"), Ok(Coordinate::new(0, 0)));
    assert_eq!(decode_shot(b"SHOT 9 9"), Ok(Coordinate::new(9, 9)));
}

#[test]
fn rejects_shot_off_board() {
    assert_eq!(decode_shot(b"SHOT 10 0"), Err(DecodeError::OutOfBoard));
    assert_eq!(decode_shot(b"SHOT 0 10"), Err(DecodeError::OutOfBoard));
    assert_eq!(decode_shot(b"SHOT 99999999999999999999 1"), Err(DecodeError::OutOfBoard));
}

#[test]
fn leading_zeros_keep_their_value() {
    assert_eq!(decode_shot(b"SHOT 03 007"), Ok(Coordinate::new(3, 7)));
    assert_eq!(decode_shot(b"SHOT 010 1"), Err(DecodeError::OutOfBoard));
}

#[test]
fn rejects_malformed_shot() {
    for p in [
        &b""[..],
        b"SHOT",
        b"SHOT ",
        b"SHOT 3",
        b"SHOT 3 ",
        b"SHOT  3 7",
        b"SHOT 3  7",
        b"SHOT a 7",
        b"SHOT 3 x",
        b"SHOT -1 2",
        b"SHOT 1 2 3",
        b"shot 3 7",
        b"FIRE 3 7",
        b"3 7",
    ] {
        assert_eq!(decode_shot(p), Err(DecodeError::Malformed), "{:?}", p);
    }
}

#[test]
fn encodes_shot_as_text() {
    assert_eq!(encode_shot(Coordinate::new(3, 7)), b"SHOT 3 7".to_vec());
    assert_eq!(encode_shot(Coordinate::new(0, 9)), b"SHOT 0 9".to_vec());
}

#[test]
fn encoded_shots_decode_back() {
    for x in 0..10 {
        for y in 0..10 {
            let c = Coordinate::new(x, y);
            assert_eq!(decode_shot(&encode_shot(c)), Ok(c));
        }
    }
}

#[test]
fn encodes_acks() {
    assert_eq!(encode_ack(Ack::Hit), b"HIT".to_vec());
    assert_eq!(encode_ack(Ack::Miss), b"MISS".to_vec());
    assert_eq!(encode_ack(Ack::GameOver), b"GAMEOVER".to_vec());
}

#[test]
fn decodes_acks() {
    assert_eq!(decode_ack(b"HIT"), Ok(Ack::Hit));
    assert_eq!(decode_ack(b"MISS"), Ok(Ack::Miss));
    assert_eq!(decode_ack(b"GAMEOVER"), Ok(Ack::GameOver));
}

#[test]
fn rejects_unknown_acks() {
    for p in [&b""[..], b"hit", b"HITS", b"HI", b"MISS ", b"GAME OVER", b"SHOT 1 1"] {
        assert_eq!(decode_ack(p), Err(DecodeError::Malformed), "{:?}", p);
    }
}
