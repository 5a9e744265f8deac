//! The request matrix of one car and the scan rules that decide where it goes.
//!
//! A matrix has one row per floor and one column per call kind (`Call::index`).
use vstd::prelude::*;

use crate::direction::{Direction, hall_call_of, opposite};

verus! {

/// Whether the matrix holds a request at floor `f`, column `c`.
pub open spec fn at(m: Seq<Vec<bool>>, f: int, c: int) -> bool {
    m[f]@[c]
}

/// `m` has `n` rows of `width` columns each.
pub open spec fn matrix_shape(m: Seq<Vec<bool>>, n: int, width: int) -> bool {
    &&& m.len() == n
    &&& forall|f: int| 0 <= f < n ==> #[trigger] m[f]@.len() == width
}

/// Some call of any kind is requested at floor `f`.
pub open spec fn floor_has_request(m: Seq<Vec<bool>>, f: int) -> bool {
    at(m, f, 0) || at(m, f, 1) || at(m, f, 2)
}

/// Floor `f` lies strictly beyond `floor` when travelling in `d` within `n` floors.
pub open spec fn beyond(n: int, floor: int, d: Direction, f: int) -> bool {
    if d == Direction::Up {
        floor < f < n
    } else {
        0 <= f < floor
    }
}

/// Some request exists strictly beyond `floor` in direction `d`.
pub open spec fn further_requests(m: Seq<Vec<bool>>, n: int, floor: int, d: Direction) -> bool {
    exists|f: int| beyond(n, floor, d, f) && #[trigger] floor_has_request(m, f)
}

/// The stopping rule: a cab call here, a hall call here in the direction of
/// travel, or nothing left beyond this floor.
pub open spec fn stop_here(m: Seq<Vec<bool>>, n: int, floor: int, d: Direction) -> bool {
    at(m, floor, 2) || at(m, floor, hall_call_of(d).index()) || !further_requests(m, n, floor, d)
}

/// The scan rule: keep going while work lies ahead, else turn, else rest.
pub open spec fn scan_direction(m: Seq<Vec<bool>>, n: int, floor: int, d: Direction) -> Option<
    Direction,
> {
    if further_requests(m, n, floor, d) {
        Some(d)
    } else if further_requests(m, n, floor, opposite(d)) {
        Some(opposite(d))
    } else {
        None
    }
}

/// The scan rule lets a car rest (no next direction) exactly when no floor
/// but its own holds a request.
pub proof fn lemma_scan_rests_iff_no_work_elsewhere(
    m: Seq<Vec<bool>>,
    n: int,
    floor: int,
    d: Direction,
)
    requires
        0 <= floor < n,
    ensures
        scan_direction(m, n, floor, d).is_none() <==> forall|f: int|
            0 <= f < n && f != floor ==> !#[trigger] floor_has_request(m, f),
{
    if scan_direction(m, n, floor, d).is_none() {
        assert forall|f: int| 0 <= f < n && f != floor implies !#[trigger] floor_has_request(m, f) by {
            if floor_has_request(m, f) {
                if beyond(n, floor, d, f) {
                    assert(further_requests(m, n, floor, d));
                } else {
                    assert(beyond(n, floor, opposite(d), f));
                    assert(further_requests(m, n, floor, opposite(d)));
                }
            }
        }
    }
}

/// Whether some request exists beyond `floor` in direction `direction`.
pub fn further_requests_in_direction(
    requests: &Vec<Vec<bool>>,
    num_floors: u8,
    floor: u8,
    direction: Direction,
) -> (r: bool)
    requires
        matrix_shape(requests@, num_floors as int, 3),
        floor < num_floors,
    ensures
        r == further_requests(requests@, num_floors as int, floor as int, direction),
{
    let (low, high): (usize, usize) = if direction == Direction::Up {
        (floor as usize + 1, num_floors as usize)
    } else {
        (0, floor as usize)
    };
    let mut f: usize = low;
    while f < high
        invariant
            matrix_shape(requests@, num_floors as int, 3),
            floor < num_floors,
            low <= f <= high,
            high <= num_floors,
            direction == Direction::Up ==> low == floor + 1 && high == num_floors,
            direction != Direction::Up ==> low == 0 && high == floor,
            forall|g: int| low <= g < f ==> !#[trigger] floor_has_request(requests@, g),
        decreases high - f,
    {
        if requests[f][0] || requests[f][1] || requests[f][2] {
            assert(beyond(num_floors as int, floor as int, direction, f as int));
            assert(floor_has_request(requests@, f as int));
            return true;
        }
        f = f + 1;
    }
    assert forall|g: int|
        beyond(num_floors as int, floor as int, direction, g) implies !#[trigger] floor_has_request(
        requests@,
        g,
    ) by {
        assert(low <= g < f);
    }
    false
}

/// Whether the car at `floor`, travelling in `direction`, stops there.
pub fn should_stop(requests: &Vec<Vec<bool>>, num_floors: u8, floor: u8, direction: Direction) -> (r:
    bool)
    requires
        matrix_shape(requests@, num_floors as int, 3),
        floor < num_floors,
    ensures
        r == stop_here(requests@, num_floors as int, floor as int, direction),
{
    let hall: usize = if direction == Direction::Up {
        0
    } else {
        1
    };
    requests[floor as usize][2] || requests[floor as usize][hall]
        || !further_requests_in_direction(requests, num_floors, floor, direction)
}

/// The direction the car at `floor`, last travelling in `last_direction`, goes next.
pub fn next_direction(
    requests: &Vec<Vec<bool>>,
    num_floors: u8,
    floor: u8,
    last_direction: Direction,
) -> (r: Option<Direction>)
    requires
        last_direction != Direction::Stop,
        matrix_shape(requests@, num_floors as int, 3),
        floor < num_floors,
    ensures
        r == scan_direction(requests@, num_floors as int, floor as int, last_direction),
{
    let other_direction = if last_direction == Direction::Up {
        Direction::Down
    } else {
        Direction::Up
    };
    if further_requests_in_direction(requests, num_floors, floor, last_direction) {
        Some(last_direction)
    } else if further_requests_in_direction(requests, num_floors, floor, other_direction) {
        Some(other_direction)
    } else {
        None
    }
}

/// Whether any call is requested at `floor`.
pub fn requests_at_floor(requests: &Vec<Vec<bool>>, num_floors: u8, floor: u8) -> (r: bool)
    requires
        matrix_shape(requests@, num_floors as int, 3),
        floor < num_floors,
    ensures
        r == floor_has_request(requests@, floor as int),
{
    requests[floor as usize][0] || requests[floor as usize][1] || requests[floor as usize][2]
}

} // verus!

verus! {

/// `new` is `old`, of `n` rows of `width` columns, with cell (`f`, `c`) set to
/// `v` and every other cell kept.
pub open spec fn cell_set(
    old: Seq<Vec<bool>>,
    new: Seq<Vec<bool>>,
    n: int,
    width: int,
    f: int,
    c: int,
    v: bool,
) -> bool {
    &&& matrix_shape(new, n, width)
    &&& forall|g: int, k: int|
        0 <= g < n && 0 <= k < width ==> #[trigger] at(new, g, k) == if g == f && k == c {
            v
        } else {
            at(old, g, k)
        }
}

/// `new` is the request matrix `old` with entry (`f`, `c`) set to `v`.
pub open spec fn entry_set(
    old: Seq<Vec<bool>>,
    new: Seq<Vec<bool>>,
    n: int,
    f: int,
    c: int,
    v: bool,
) -> bool {
    cell_set(old, new, n, 3, f, c, v)
}

/// Sets one cell of a matrix of `num_floors` rows of `width` columns.
pub fn set_cell(
    requests: &mut Vec<Vec<bool>>,
    num_floors: u8,
    width: u8,
    floor: u8,
    column: usize,
    value: bool,
)
    requires
        matrix_shape(old(requests)@, num_floors as int, width as int),
        floor < num_floors,
        column < width,
    ensures
        cell_set(
            old(requests)@,
            final(requests)@,
            num_floors as int,
            width as int,
            floor as int,
            column as int,
            value,
        ),
{
    let mut row = requests[floor as usize].clone();
    assert(row@ =~= requests@[floor as int]@);
    row.set(column, value);
    requests.set(floor as usize, row);
}

/// Sets one entry of a request matrix.
pub fn set_entry(requests: &mut Vec<Vec<bool>>, num_floors: u8, floor: u8, column: usize, value: bool)
    requires
        matrix_shape(old(requests)@, num_floors as int, 3),
        floor < num_floors,
        column < 3,
    ensures
        entry_set(old(requests)@, final(requests)@, num_floors as int, floor as int, column as int, value),
{
    set_cell(requests, num_floors, 3, floor, column, value);
}

/// A matrix of `num_floors` rows of `width` columns, all clear.
pub fn empty_matrix(num_floors: u8, width: u8) -> (r: Vec<Vec<bool>>)
    ensures
        matrix_shape(r@, num_floors as int, width as int),
        forall|f: int, c: int| 0 <= f < num_floors && 0 <= c < width ==> !#[trigger] at(r@, f, c),
{
    let mut r: Vec<Vec<bool>> = Vec::new();
    let mut f: u8 = 0;
    while f < num_floors
        invariant
            f <= num_floors,
            matrix_shape(r@, f as int, width as int),
            forall|g: int, c: int| 0 <= g < f && 0 <= c < width ==> !#[trigger] at(r@, g, c),
        decreases num_floors - f,
    {
        let mut row: Vec<bool> = Vec::new();
        let mut c: u8 = 0;
        while c < width
            invariant
                c <= width,
                row@.len() == c,
                forall|k: int| 0 <= k < c ==> !#[trigger] row@[k],
            decreases width - c,
        {
            row.push(false);
            c = c + 1;
        }
        let ghost prev = r@;
        let ghost row_view = row@;
        r.push(row);
        assert forall|g: int, c: int| 0 <= g < f + 1 && 0 <= c < width implies !#[trigger] at(
            r@,
            g,
            c,
        ) by {
            if g < f {
                assert(r@[g] == prev[g]);
                assert(!at(prev, g, c));
            } else {
                assert(r@[g]@ == row_view);
                assert(!row_view[c]);
            }
        }
        f = f + 1;
    }
    r
}

/// A copy of a matrix, row by row.
pub fn copy_matrix(m: &Vec<Vec<bool>>) -> (r: Vec<Vec<bool>>)
    ensures
        r@.len() == m@.len(),
        forall|f: int| 0 <= f < m@.len() ==> #[trigger] r@[f]@ == m@[f]@,
{
    let mut r: Vec<Vec<bool>> = Vec::new();
    let mut f: usize = 0;
    while f < m.len()
        invariant
            f <= m@.len(),
            r@.len() == f,
            forall|g: int| 0 <= g < f ==> #[trigger] r@[g]@ == m@[g]@,
        decreases m@.len() - f,
    {
        let row = m[f].clone();
        assert(row@ =~= m@[f as int]@);
        r.push(row);
        f = f + 1;
    }
    r
}

} // verus!
