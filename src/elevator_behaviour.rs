//! A car's status record that reports the hall calls it served instead of
//! clearing them itself.
use vstd::prelude::*;

use crate::call::Call;
use crate::direction::{Direction, hall_call_of, opposite};
use crate::ledger::{at, entry_set, floor_has_request, further_requests, scan_direction, stop_here};
use crate::request::Request;
use crate::requests::Requests;

pub use crate::elevator_status::Behaviour;

use crate::elevator_status::served_hall_calls;

verus! {

#[derive(Clone)]
pub struct ElevatorBehaviour {
    pub requests: Requests,
    pub behaviour: Behaviour,
    pub floor: u8,
    pub direction: Direction,
    /// Hall calls served at the last stop, not yet handed out.
    pub served_requests: Vec<Request>,
}

impl ElevatorBehaviour {
    /// The hall calls served at the last stop and not yet handed out.
    pub open spec fn served(&self) -> Seq<Request> {
        self.served_requests@
    }

    /// A car on a valid floor, heading up or down (never `Stop`).
    pub open spec fn wf(&self) -> bool {
        &&& self.requests.wf()
        &&& self.floor < self.requests.floors()
        &&& self.direction != Direction::Stop
    }

    pub fn new(num_floors: u8) -> (r: Self)
        ensures
            num_floors > 0 ==> r.wf(),
            r.requests.floors() == num_floors,
            r.behaviour == Behaviour::Moving,
            r.floor == 0,
            r.direction == Direction::Down,
            r.served() == Seq::<Request>::empty(),
            forall|f: int, c: int|
                0 <= f < num_floors && 0 <= c < 3 ==> !#[trigger] at(r.requests.matrix(), f, c),
    {
        ElevatorBehaviour {
            requests: Requests::new(num_floors),
            behaviour: Behaviour::Moving,
            floor: 0,
            direction: Direction::Down,
            served_requests: Vec::new(),
        }
    }

    /// Clears the cab call here and records the hall calls served here.
    pub fn serve_requests_here(&mut self)
        requires
            old(self).wf(),
        ensures
            final(self).wf(),
            final(self).floor == old(self).floor,
            final(self).direction == old(self).direction,
            final(self).behaviour == old(self).behaviour,
            final(self).requests.floors() == old(self).requests.floors(),
            entry_set(
                old(self).requests.matrix(),
                final(self).requests.matrix(),
                old(self).requests.floors(),
                old(self).floor as int,
                2,
                false,
            ),
            final(self).served() == served_hall_calls(
                old(self).requests.matrix(),
                old(self).requests.floors(),
                old(self).floor,
                old(self).direction,
            ),
    {
        let further = self.requests.further_requests_in_direction(self.floor, self.direction);
        self.requests.clear_cab_request(self.floor);
        self.served_requests.clear();
        let (here, other) = if self.direction == Direction::Up {
            (Call::HallUp, Call::HallDown)
        } else {
            (Call::HallDown, Call::HallUp)
        };
        self.served_requests.push(Request { floor: self.floor, call: here });
        if !further {
            self.served_requests.push(Request { floor: self.floor, call: other });
        }
        proof {
            let expected = served_hall_calls(
                old(self).requests.matrix(),
                old(self).requests.floors(),
                old(self).floor,
                old(self).direction,
            );
            assert(self.served_requests@ =~= expected);
        }
    }

    /// Hands out the recorded served hall calls and forgets them.
    pub fn pop_served_requests(&mut self) -> (r: Vec<Request>)
        ensures
            r@ == old(self).served(),
            final(self).served() == Seq::<Request>::empty(),
            final(self).requests == old(self).requests,
            final(self).behaviour == old(self).behaviour,
            final(self).floor == old(self).floor,
            final(self).direction == old(self).direction,
    {
        let mut served_requests: Vec<Request> = Vec::new();
        std::mem::swap(&mut served_requests, &mut self.served_requests);
        served_requests
    }

    pub fn should_stop(&self) -> (r: bool)
        requires
            self.wf(),
        ensures
            r == stop_here(self.requests.matrix(), self.requests.floors(), self.floor as int, self.direction),
    {
        self.requests.should_stop(self.floor, self.direction)
    }

    pub fn next_direction(&self) -> (r: Option<Direction>)
        requires
            self.wf(),
        ensures
            r == scan_direction(self.requests.matrix(), self.requests.floors(), self.floor as int, self.direction),
    {
        self.requests.next_direction(self.floor, self.direction)
    }

    pub fn current_floor_has_requests(&self) -> (r: bool)
        requires
            self.wf(),
        ensures
            r == floor_has_request(self.requests.matrix(), self.floor as int),
    {
        let calls = self.requests.get_requests_at_floor(self.floor);
        let mut i: usize = 0;
        while i < calls.len()
            invariant
                calls@ == self.requests.matrix()[self.floor as int]@,
                calls@.len() == 3,
                i <= 3,
                forall|k: int| 0 <= k < i ==> !#[trigger] calls@[k],
            decreases 3 - i,
        {
            if calls[i] {
                return true;
            }
            i = i + 1;
        }
        false
    }
}

} // verus!
