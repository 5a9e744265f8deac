use vstd::prelude::*;

use crate::call::Call;
use crate::direction::{Direction, hall_call_of};
use crate::ledger::{at, entry_set, further_requests, scan_direction, stop_here};
use crate::request_collection::{RequestCollection, covers_hall, hall_columns_replaced};

verus! {

/// The request matrix of one car, as kept by the car's own status record.
#[derive(Clone, Debug)]
pub struct Requests {
    collection: RequestCollection,
}

impl Requests {
    pub closed spec fn matrix(&self) -> Seq<Vec<bool>> {
        self.collection.matrix()
    }

    pub closed spec fn floors(&self) -> int {
        self.collection.floors()
    }

    pub closed spec fn wf(&self) -> bool {
        self.collection.wf()
    }

    pub fn new(num_floors: u8) -> (r: Self)
        ensures
            r.wf(),
            r.floors() == num_floors,
            forall|f: int, c: int| 0 <= f < num_floors && 0 <= c < 3 ==> !#[trigger] at(r.matrix(), f, c),
    {
        let r = Requests { collection: RequestCollection::new(num_floors) };
        assert forall|f: int, c: int| 0 <= f < num_floors && 0 <= c < 3 implies !#[trigger] at(
            r.matrix(),
            f,
            c,
        ) by {
            let call = if c == 0 {
                Call::HallUp
            } else if c == 1 {
                Call::HallDown
            } else {
                Call::Cab
            };
            assert(!r.collection.has(f, call));
        }
        r
    }

    pub fn num_floors(&self) -> (r: u8)
        ensures
            r == self.floors(),
    {
        self.collection.num_floors()
    }

    pub fn add_order(&mut self, floor: u8, call: Call)
        requires
            old(self).wf(),
            floor < old(self).floors(),
        ensures
            final(self).wf(),
            final(self).floors() == old(self).floors(),
            entry_set(old(self).matrix(), final(self).matrix(), old(self).floors(), floor as int, call.index(), true),
    {
        self.collection.add_request(floor, call);
    }

    pub fn clear_cab_request(&mut self, floor: u8)
        requires
            old(self).wf(),
            floor < old(self).floors(),
        ensures
            final(self).wf(),
            final(self).floors() == old(self).floors(),
            entry_set(old(self).matrix(), final(self).matrix(), old(self).floors(), floor as int, 2, false),
    {
        self.collection.clear_request(Call::Cab, floor);
    }

    pub fn update_hall_requests(&mut self, our_hall_requests: Vec<Vec<bool>>)
        requires
            old(self).wf(),
            covers_hall(our_hall_requests@, old(self).floors()),
        ensures
            final(self).wf(),
            final(self).floors() == old(self).floors(),
            hall_columns_replaced(old(self).matrix(), final(self).matrix(), our_hall_requests@, old(self).floors()),
    {
        self.collection.update_hall_requests(our_hall_requests);
    }

    pub fn get_cab_requests(&self) -> (r: Vec<bool>)
        requires
            self.wf(),
        ensures
            r@.len() == self.floors(),
            forall|f: int| 0 <= f < self.floors() ==> #[trigger] r@[f] == at(self.matrix(), f, 2),
    {
        self.collection.get_cab_requests()
    }

    pub fn should_stop(&self, floor: u8, direction: Direction) -> (r: bool)
        requires
            self.wf(),
            floor < self.floors(),
        ensures
            r == stop_here(self.matrix(), self.floors(), floor as int, direction),
    {
        self.collection.should_stop(floor, direction)
    }

    pub fn cab_request_at_floor(&self, floor: u8) -> (r: bool)
        requires
            self.wf(),
            floor < self.floors(),
        ensures
            r == at(self.matrix(), floor as int, 2),
    {
        self.collection.cab_request_at_floor(floor)
    }

    pub fn requests_in_direction_at_this_floor(&self, floor: u8, direction: Direction) -> (r: bool)
        requires
            self.wf(),
            floor < self.floors(),
        ensures
            r == at(self.matrix(), floor as int, hall_call_of(direction).index()),
    {
        self.collection.requests_in_direction_at_this_floor(floor, direction)
    }

    pub fn further_requests_in_direction(&self, floor: u8, direction: Direction) -> (r: bool)
        requires
            self.wf(),
            floor < self.floors(),
        ensures
            r == further_requests(self.matrix(), self.floors(), floor as int, direction),
    {
        self.collection.further_requests_in_direction(floor, direction)
    }

    pub fn next_direction(&self, floor: u8, last_direction: Direction) -> (r: Option<Direction>)
        requires
            last_direction != Direction::Stop,
            self.wf(),
            floor < self.floors(),
        ensures
            r == scan_direction(self.matrix(), self.floors(), floor as int, last_direction),
    {
        self.collection.next_direction(floor, last_direction)
    }

    pub fn get_requests_at_floor(&self, floor: u8) -> (r: Vec<bool>)
        requires
            self.wf(),
            floor < self.floors(),
        ensures
            r@ == self.matrix()[floor as int]@,
            r@.len() == 3,
    {
        self.collection.get_requests_at_floor(floor)
    }
}

} // verus!
