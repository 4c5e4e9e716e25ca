use vstd::prelude::*;

use crate::config::BOARD_LENGTH;
use crate::coord::Coordinate;

verus! {

/// The reply to a received shot.
#[derive(PartialEq, Eq, Structural, Clone, Copy, Debug)]
pub enum Ack {
    Hit,
    Miss,
    GameOver,
}

/// Why a payload could not be decoded. Either one ends the match.
#[derive(PartialEq, Eq, Structural, Clone, Copy, Debug)]
pub enum DecodeError {
    /// Unknown keyword, missing field or non-numeric coordinate.
    Malformed,
    /// A well-formed shot at a cell outside the board.
    OutOfBoard,
}

pub open spec fn is_digit(b: u8) -> bool {
    48 <= b <= 57
}

/// A non-empty run of ASCII decimal digits.
pub open spec fn all_digits(s: Seq<u8>) -> bool {
    s.len() > 0 && forall|i: int| 0 <= i < s.len() ==> is_digit(#[trigger] s[i])
}

/// The number that a run of decimal digits denotes.
pub open spec fn digits_value(s: Seq<u8>) -> nat
    decreases s.len(),
{
    if s.len() == 0 {
        0
    } else {
        10 * digits_value(s.drop_last()) + (s.last() - 48) as nat
    }
}

/// `SHOT ` with its trailing space.
pub open spec fn shot_keyword() -> Seq<u8> {
    seq![83u8, 72u8, 79u8, 84u8, 32u8]
}

/// The payload `SHOT <xs> <ys>`.
pub open spec fn shot_text(xs: Seq<u8>, ys: Seq<u8>) -> Seq<u8> {
    shot_keyword() + xs + seq![32u8] + ys
}

pub open spec fn is_shot_text(p: Seq<u8>) -> bool {
    exists|xs: Seq<u8>, ys: Seq<u8>| all_digits(xs) && all_digits(ys) && p == shot_text(xs, ys)
}

/// The two digit runs of a shot payload (unique: see `lemma_shot_split`).
pub open spec fn shot_fields(p: Seq<u8>) -> (Seq<u8>, Seq<u8>) {
    choose|xs: Seq<u8>, ys: Seq<u8>| all_digits(xs) && all_digits(ys) && p == shot_text(xs, ys)
}

/// What a received shot payload means.
pub open spec fn decoded_shot(p: Seq<u8>) -> Result<Coordinate, DecodeError> {
    if !is_shot_text(p) {
        Err(DecodeError::Malformed)
    } else {
        let (xs, ys) = shot_fields(p);
        if digits_value(xs) < BOARD_LENGTH && digits_value(ys) < BOARD_LENGTH {
            Ok(Coordinate { x: digits_value(xs) as i32, y: digits_value(ys) as i32 })
        } else {
            Err(DecodeError::OutOfBoard)
        }
    }
}

/// The single digit that writes a board index.
pub open spec fn digit_of(v: i32) -> Seq<u8> {
    seq![(48 + v) as u8]
}

pub open spec fn ack_text(a: Ack) -> Seq<u8> {
    match a {
        Ack::Hit => seq![72u8, 73u8, 84u8],
        Ack::Miss => seq![77u8, 73u8, 83u8, 83u8],
        Ack::GameOver => seq![71u8, 65u8, 77u8, 69u8, 79u8, 86u8, 69u8, 82u8],
    }
}

/// What a received acknowledgement payload means.
pub open spec fn decoded_ack(p: Seq<u8>) -> Result<Ack, DecodeError> {
    if p == ack_text(Ack::Hit) {
        Ok(Ack::Hit)
    } else if p == ack_text(Ack::Miss) {
        Ok(Ack::Miss)
    } else if p == ack_text(Ack::GameOver) {
        Ok(Ack::GameOver)
    } else {
        Err(DecodeError::Malformed)
    }
}

/// A shot payload splits at its first space after the keyword, so its two
/// digit runs are determined by the payload.
pub proof fn lemma_shot_split(p: Seq<u8>, xs: Seq<u8>, ys: Seq<u8>, j: int)
    requires
        all_digits(xs),
        all_digits(ys),
        p == shot_text(xs, ys),
        5 <= j < p.len(),
        p[j] == 32,
        forall|k: int| 5 <= k < j ==> p[k] != 32,
    ensures
        j == 5 + xs.len(),
        xs == p.subrange(5, j),
        ys == p.subrange(j + 1, p.len() as int),
{
    let n = xs.len() as int;
    assert(p[5 + n] == 32);
    if j < 5 + n {
        assert(p[j] == xs[j - 5]);
        assert(is_digit(xs[j - 5]));
    }
    assert(xs =~= p.subrange(5, j));
    assert(ys =~= p.subrange(j + 1, p.len() as int));
}

/// A payload made of two digit runs decodes to the cell they denote, or is
/// rejected as off the board.
pub proof fn lemma_decoded_shot_text(xs: Seq<u8>, ys: Seq<u8>)
    requires
        all_digits(xs),
        all_digits(ys),
    ensures
        decoded_shot(shot_text(xs, ys)) == if digits_value(xs) < BOARD_LENGTH && digits_value(ys)
            < BOARD_LENGTH {
            Ok::<Coordinate, DecodeError>(
                Coordinate { x: digits_value(xs) as i32, y: digits_value(ys) as i32 },
            )
        } else {
            Err(DecodeError::OutOfBoard)
        },
{
    let p = shot_text(xs, ys);
    assert(is_shot_text(p));
    let (fx, fy) = shot_fields(p);
    let j = 5 + xs.len() as int;
    assert(p[j] == 32);
    assert forall|k: int| 5 <= k < j implies p[k] != 32 by {
        assert(p[k] == xs[k - 5]);
    }
    lemma_shot_split(p, xs, ys, j);
    lemma_shot_split(p, fx, fy, j);
}

/// The shot payload written for an on-board cell decodes to that cell.
proof fn lemma_shot_round_trip(c: Coordinate)
    requires
        c.on_board(),
    ensures
        decoded_shot(shot_text(digit_of(c.x), digit_of(c.y))) == Ok::<Coordinate, DecodeError>(c),
{
    let xs = digit_of(c.x);
    let ys = digit_of(c.y);
    assert(xs.drop_last() =~= Seq::<u8>::empty());
    assert(ys.drop_last() =~= Seq::<u8>::empty());
    assert(digits_value(Seq::<u8>::empty()) == 0);
    assert(xs.last() == 48 + c.x);
    assert(ys.last() == 48 + c.y);
    assert(digits_value(xs) == c.x);
    assert(digits_value(ys) == c.y);
    lemma_decoded_shot_text(xs, ys);
}

/// Writes the shot payload for an on-board cell.
pub fn encode_shot(c: Coordinate) -> (r: Vec<u8>)
    requires
        c.on_board(),
    ensures
        r@ == shot_text(digit_of(c.x), digit_of(c.y)),
        decoded_shot(r@) == Ok::<Coordinate, DecodeError>(c),
{
    let mut r: Vec<u8> = Vec::new();
    r.push(83u8);
    r.push(72u8);
    r.push(79u8);
    r.push(84u8);
    r.push(32u8);
    r.push((48 + c.x) as u8);
    r.push(32u8);
    r.push((48 + c.y) as u8);
    assert(r@ =~= shot_text(digit_of(c.x), digit_of(c.y)));
    proof {
        lemma_shot_round_trip(c);
    }
    r
}

/// Writes the acknowledgement payload.
pub fn encode_ack(a: Ack) -> (r: Vec<u8>)
    ensures
        r@ == ack_text(a),
        decoded_ack(r@) == Ok::<Ack, DecodeError>(a),
{
    let mut r: Vec<u8> = Vec::new();
    match a {
        Ack::Hit => {
            r.push(72u8);
            r.push(73u8);
            r.push(84u8);
        },
        Ack::Miss => {
            r.push(77u8);
            r.push(73u8);
            r.push(83u8);
            r.push(83u8);
        },
        Ack::GameOver => {
            r.push(71u8);
            r.push(65u8);
            r.push(77u8);
            r.push(69u8);
            r.push(79u8);
            r.push(86u8);
            r.push(69u8);
            r.push(82u8);
        },
    }
    assert(r@ =~= ack_text(a));
    assert(ack_text(Ack::Hit) != ack_text(Ack::Miss));
    assert(ack_text(Ack::Hit) != ack_text(Ack::GameOver));
    assert(ack_text(Ack::Miss) != ack_text(Ack::GameOver));
    r
}

fn equals_text(p: &[u8], q: &Vec<u8>) -> (r: bool)
    ensures
        r == (p@ == q@),
{
    if p.len() != q.len() {
        return false;
    }
    let mut i: usize = 0;
    while i < p.len()
        invariant
            p@.len() == q@.len(),
            i <= p@.len(),
            forall|k: int| 0 <= k < i ==> p@[k] == q@[k],
        decreases p@.len() - i,
    {
        if p[i] != q[i] {
            return false;
        }
        i = i + 1;
    }
    assert(p@ =~= q@);
    true
}

/// Reads an acknowledgement payload: exactly `HIT`, `MISS` or `GAMEOVER`.
pub fn decode_ack(p: &[u8]) -> (r: Result<Ack, DecodeError>)
    ensures
        r == decoded_ack(p@),
{
    if equals_text(p, &encode_ack(Ack::Hit)) {
        Ok(Ack::Hit)
    } else if equals_text(p, &encode_ack(Ack::Miss)) {
        Ok(Ack::Miss)
    } else if equals_text(p, &encode_ack(Ack::GameOver)) {
        Ok(Ack::GameOver)
    } else {
        Err(DecodeError::Malformed)
    }
}

/// Index of the first space at or after `from`, if any.
fn find_space(p: &[u8], from: usize) -> (r: Option<usize>)
    requires
        from <= p@.len(),
    ensures
        match r {
            Some(j) => from <= j < p@.len() && p@[j as int] == 32 && forall|k: int|
                from <= k < j ==> p@[k] != 32,
            None => forall|k: int| from <= k < p@.len() ==> p@[k] != 32,
        },
{
    let mut i: usize = from;
    while i < p.len()
        invariant
            from <= i <= p@.len(),
            forall|k: int| from <= k < i ==> p@[k] != 32,
        decreases p@.len() - i,
    {
        if p[i] == 32u8 {
            return Some(i);
        }
        i = i + 1;
    }
    None
}

fn digits_between(p: &[u8], lo: usize, hi: usize) -> (r: bool)
    requires
        lo <= hi <= p@.len(),
    ensures
        r == all_digits(p@.subrange(lo as int, hi as int)),
{
    if lo == hi {
        return false;
    }
    let mut i: usize = lo;
    while i < hi
        invariant
            lo <= i <= hi <= p@.len(),
            forall|k: int| lo <= k < i ==> is_digit(p@[k]),
        decreases hi - i,
    {
        if p[i] < 48u8 || p[i] > 57u8 {
            assert(p@.subrange(lo as int, hi as int)[i - lo] == p@[i as int]);
            return false;
        }
        i = i + 1;
    }
    assert forall|k: int| 0 <= k < hi - lo implies is_digit(
        #[trigger] p@.subrange(lo as int, hi as int)[k],
    ) by {
        assert(p@.subrange(lo as int, hi as int)[k] == p@[lo + k]);
    }
    true
}

/// The value of the digits in `p[lo..hi]`, or the board length where it is
/// that much or more.
fn bounded_value(p: &[u8], lo: usize, hi: usize) -> (r: i32)
    requires
        lo <= hi <= p@.len(),
        forall|k: int| lo <= k < hi ==> is_digit(#[trigger] p@[k]),
    ensures
        r == if digits_value(p@.subrange(lo as int, hi as int)) < BOARD_LENGTH {
            digits_value(p@.subrange(lo as int, hi as int)) as int
        } else {
            BOARD_LENGTH as int
        },
{
    let mut acc: i32 = 0;
    let mut i: usize = lo;
    assert(p@.subrange(lo as int, lo as int) =~= Seq::<u8>::empty());
    while i < hi
        invariant
            lo <= i <= hi <= p@.len(),
            forall|k: int| lo <= k < hi ==> is_digit(#[trigger] p@[k]),
            acc == if digits_value(p@.subrange(lo as int, i as int)) < BOARD_LENGTH {
                digits_value(p@.subrange(lo as int, i as int)) as int
            } else {
                BOARD_LENGTH as int
            },
        decreases hi - i,
    {
        let d = p[i] - 48u8;
        let ghost prev = p@.subrange(lo as int, i as int);
        let ghost next = p@.subrange(lo as int, i + 1);
        assert(next.drop_last() =~= prev);
        assert(next.last() == p@[i as int]);
        assert(digits_value(next) == 10 * digits_value(prev) + d);
        if acc >= BOARD_LENGTH {
            assert(digits_value(prev) >= 10);
            assert(digits_value(next) >= 10) by (nonlinear_arith)
                requires
                    digits_value(next) == 10 * digits_value(prev) + d,
                    digits_value(prev) >= 10,
            ;
        } else {
            let v = 10 * acc + d as i32;
            if v >= BOARD_LENGTH {
                acc = BOARD_LENGTH;
            } else {
                acc = v;
            }
        }
        i = i + 1;
    }
    acc
}

/// Reads a shot payload, `SHOT <x> <y>` with decimal coordinates on the board.
pub fn decode_shot(p: &[u8]) -> (r: Result<Coordinate, DecodeError>)
    ensures
        r == decoded_shot(p@),
{
    if p.len() < 5 || p[0] != 83u8 || p[1] != 72u8 || p[2] != 79u8 || p[3] != 84u8 || p[4]
        != 32u8 {
        proof {
            if is_shot_text(p@) {
                let (xs, ys) = shot_fields(p@);
                assert(p@[0] == shot_text(xs, ys)[0]);
                assert(p@[1] == shot_text(xs, ys)[1]);
                assert(p@[2] == shot_text(xs, ys)[2]);
                assert(p@[3] == shot_text(xs, ys)[3]);
                assert(p@[4] == shot_text(xs, ys)[4]);
            }
        }
        return Err(DecodeError::Malformed);
    }
    let n = p.len();
    match find_space(p, 5) {
        None => {
            proof {
                if is_shot_text(p@) {
                    let (xs, ys) = shot_fields(p@);
                    assert(p@[5 + xs.len() as int] == 32);
                }
            }
            Err(DecodeError::Malformed)
        },
        Some(j) => {
            let ghost xs = p@.subrange(5, j as int);
            let ghost ys = p@.subrange(j + 1, n as int);
            if !digits_between(p, 5, j) || !digits_between(p, j + 1, n) {
                proof {
                    if is_shot_text(p@) {
                        let (fx, fy) = shot_fields(p@);
                        lemma_shot_split(p@, fx, fy, j as int);
                    }
                }
                return Err(DecodeError::Malformed);
            }
            assert(p@ =~= shot_text(xs, ys));
            assert(is_shot_text(p@));
            let ghost (fx, fy) = shot_fields(p@);
            proof {
                lemma_shot_split(p@, fx, fy, j as int);
                assert forall|k: int| 5 <= k < j implies is_digit(#[trigger] p@[k]) by {
                    assert(p@[k] == xs[k - 5]);
                }
                assert forall|k: int| j + 1 <= k < n implies is_digit(#[trigger] p@[k]) by {
                    assert(p@[k] == ys[k - j - 1]);
                }
            }
            let x = bounded_value(p, 5, j);
            let y = bounded_value(p, j + 1, n);
            if x < BOARD_LENGTH && y < BOARD_LENGTH {
                Ok(Coordinate { x, y })
            } else {
                Err(DecodeError::OutOfBoard)
            }
        },
    }
}

} // verus!
