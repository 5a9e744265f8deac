use vstd::prelude::*;

use crate::call::Call;
use crate::direction::{Direction, hall_call_of};
use crate::ledger::{
    at, entry_set, floor_has_request, further_requests, matrix_shape, scan_direction, stop_here,
};
use crate::ledger;

verus! {

/// Every floor's requests of one car, by call kind.
#[derive(Clone, Debug)]
pub struct RequestCollection {
    requests: Vec<Vec<bool>>,
    num_floors: u8,
}

/// `new` keeps the cab column of `old` and takes both hall columns from `hall`.
pub open spec fn hall_columns_replaced(
    old: Seq<Vec<bool>>,
    new: Seq<Vec<bool>>,
    hall: Seq<Vec<bool>>,
    n: int,
) -> bool {
    &&& matrix_shape(new, n, 3)
    &&& forall|f: int, c: int|
        0 <= f < n && 0 <= c < 3 ==> #[trigger] at(new, f, c) == if c < 2 {
            at(hall, f, c)
        } else {
            at(old, f, c)
        }
}

/// `hall` has at least `n` rows, each with both hall columns.
pub open spec fn covers_hall(hall: Seq<Vec<bool>>, n: int) -> bool {
    &&& hall.len() >= n
    &&& forall|f: int| 0 <= f < n ==> #[trigger] hall[f]@.len() >= 2
}

impl RequestCollection {
    /// The request matrix: one row per floor, columns by `Call::index`.
    pub closed spec fn matrix(&self) -> Seq<Vec<bool>> {
        self.requests@
    }

    pub closed spec fn floors(&self) -> int {
        self.num_floors as int
    }

    pub open spec fn wf(&self) -> bool {
        matrix_shape(self.matrix(), self.floors(), 3)
    }

    /// The floor count is a `u8`.
    pub proof fn lemma_floors_fit(&self)
        ensures
            0 <= self.floors() <= 255,
    {
    }

    pub open spec fn has(&self, floor: int, call: Call) -> bool {
        at(self.matrix(), floor, call.index())
    }

    pub fn new(num_floors: u8) -> (r: Self)
        ensures
            r.wf(),
            r.floors() == num_floors,
            forall|f: int, c: Call| 0 <= f < num_floors ==> !#[trigger] r.has(f, c),
    {
        let r = RequestCollection { requests: ledger::empty_matrix(num_floors, 3), num_floors };
        assert forall|f: int, c: Call| 0 <= f < num_floors implies !#[trigger] r.has(f, c) by {
            assert(!at(r.requests@, f, c.index()));
        }
        r
    }

    pub fn num_floors(&self) -> (r: u8)
        ensures
            r == self.floors(),
    {
        self.num_floors
    }

    pub fn add_request(&mut self, floor: u8, call: Call)
        requires
            old(self).wf(),
            floor < old(self).floors(),
        ensures
            final(self).floors() == old(self).floors(),
            entry_set(old(self).matrix(), final(self).matrix(), old(self).floors(), floor as int, call.index(), true),
    {
        ledger::set_entry(&mut self.requests, self.num_floors, floor, call.as_index(), true);
    }

    pub fn clear_request(&mut self, call: Call, floor: u8)
        requires
            old(self).wf(),
            floor < old(self).floors(),
        ensures
            final(self).floors() == old(self).floors(),
            entry_set(old(self).matrix(), final(self).matrix(), old(self).floors(), floor as int, call.index(), false),
    {
        ledger::set_entry(&mut self.requests, self.num_floors, floor, call.as_index(), false);
    }

    /// Takes both hall columns from `our_hall_requests`, the hall calls assigned to this car.
    pub fn update_hall_requests(&mut self, our_hall_requests: Vec<Vec<bool>>)
        requires
            old(self).wf(),
            covers_hall(our_hall_requests@, old(self).floors()),
        ensures
            final(self).floors() == old(self).floors(),
            hall_columns_replaced(old(self).matrix(), final(self).matrix(), our_hall_requests@, old(self).floors()),
    {
        let n = self.num_floors;
        let mut floor: u8 = 0;
        while floor < n
            invariant
                n == self.num_floors,
                n == old(self).floors(),
                floor <= n,
                covers_hall(our_hall_requests@, n as int),
                matrix_shape(self.requests@, n as int, 3),
                forall|f: int, c: int|
                    0 <= f < n && 0 <= c < 3 ==> #[trigger] at(self.requests@, f, c) == if c < 2
                        && f < floor {
                        at(our_hall_requests@, f, c)
                    } else {
                        at(old(self).requests@, f, c)
                    },
            decreases n - floor,
        {
            let up = our_hall_requests[floor as usize][0];
            let down = our_hall_requests[floor as usize][1];
            ledger::set_entry(&mut self.requests, n, floor, 0, up);
            ledger::set_entry(&mut self.requests, n, floor, 1, down);
            floor = floor + 1;
        }
    }

    /// The cab column, one entry per floor.
    pub fn get_cab_requests(&self) -> (r: Vec<bool>)
        requires
            self.wf(),
        ensures
            r@.len() == self.floors(),
            forall|f: int| 0 <= f < self.floors() ==> #[trigger] r@[f] == at(self.matrix(), f, 2),
    {
        let mut cab_requests: Vec<bool> = Vec::new();
        let mut floor: u8 = 0;
        while floor < self.num_floors
            invariant
                self.wf(),
                floor <= self.num_floors,
                cab_requests@.len() == floor,
                forall|f: int| 0 <= f < floor ==> #[trigger] cab_requests@[f] == at(self.requests@, f, 2),
            decreases self.num_floors - floor,
        {
            cab_requests.push(self.requests[floor as usize][2]);
            floor = floor + 1;
        }
        cab_requests
    }

    pub fn should_stop(&self, floor: u8, direction: Direction) -> (r: bool)
        requires
            self.wf(),
            floor < self.floors(),
        ensures
            r == stop_here(self.matrix(), self.floors(), floor as int, direction),
    {
        ledger::should_stop(&self.requests, self.num_floors, floor, direction)
    }

    pub fn cab_request_at_floor(&self, floor: u8) -> (r: bool)
        requires
            self.wf(),
            floor < self.floors(),
        ensures
            r == self.has(floor as int, Call::Cab),
    {
        self.requests[floor as usize][2]
    }

    /// Whether the hall call of `direction` is requested at `floor`.
    pub fn requests_in_direction_at_this_floor(&self, floor: u8, direction: Direction) -> (r: bool)
        requires
            self.wf(),
            floor < self.floors(),
        ensures
            r == self.has(floor as int, hall_call_of(direction)),
    {
        let hall_button = if direction == Direction::Up {
            Call::HallUp
        } else {
            Call::HallDown
        };
        self.requests[floor as usize][hall_button.as_index()]
    }

    pub fn further_requests_in_direction(&self, floor: u8, direction: Direction) -> (r: bool)
        requires
            self.wf(),
            floor < self.floors(),
        ensures
            r == further_requests(self.matrix(), self.floors(), floor as int, direction),
    {
        ledger::further_requests_in_direction(&self.requests, self.num_floors, floor, direction)
    }

    pub fn next_direction(&self, floor: u8, last_direction: Direction) -> (r: Option<Direction>)
        requires
            last_direction != Direction::Stop,
            self.wf(),
            floor < self.floors(),
        ensures
            r == scan_direction(self.matrix(), self.floors(), floor as int, last_direction),
    {
        ledger::next_direction(&self.requests, self.num_floors, floor, last_direction)
    }

    /// The row of `floor`: hall-up, hall-down and cab.
    pub fn get_requests_at_floor(&self, floor: u8) -> (r: Vec<bool>)
        requires
            self.wf(),
            floor < self.floors(),
        ensures
            r@ == self.matrix()[floor as int]@,
    {
        self.requests[floor as usize].clone()
    }

    /// Whether any call is requested at `floor`.
    pub fn requests_at_floor(&self, floor: u8) -> (r: bool)
        requires
            self.wf(),
            floor < self.floors(),
        ensures
            r == floor_has_request(self.matrix(), floor as int),
    {
        ledger::requests_at_floor(&self.requests, self.num_floors, floor)
    }

    /// Whether any call is requested anywhere.
    pub fn has_unserved_requests(&self) -> (r: bool)
        requires
            self.wf(),
        ensures
            r == exists|f: int| 0 <= f < self.floors() && #[trigger] floor_has_request(self.matrix(), f),
    {
        let mut floor: u8 = 0;
        while floor < self.num_floors
            invariant
                self.wf(),
                floor <= self.num_floors,
                forall|f: int| 0 <= f < floor ==> !#[trigger] floor_has_request(self.requests@, f),
            decreases self.num_floors - floor,
        {
            if ledger::requests_at_floor(&self.requests, self.num_floors, floor) {
                return true;
            }
            floor = floor + 1;
        }
        false
    }
}

} // verus!
