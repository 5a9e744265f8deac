//! The live state of one car and the state machine that drives it.
use vstd::prelude::*;

use crate::call::Call;
use crate::direction::{Direction, hall_call_of, opposite};
use crate::ledger::{at, beyond, entry_set, floor_has_request, further_requests, scan_direction, stop_here};
use crate::request::Request;
use crate::request_collection::{RequestCollection, covers_hall, hall_columns_replaced};

verus! {

/// What a car is doing.
#[derive(Debug, Clone, Copy, PartialEq, Eq, Structural)]
pub enum Behaviour {
    Idle,
    Moving,
    DoorOpen,
}

/// Wire name of a behaviour.
pub open spec fn behaviour_name(b: Behaviour) -> Seq<char> {
    match b {
        Behaviour::Idle => "idle"@,
        Behaviour::Moving => "moving"@,
        Behaviour::DoorOpen => "doorOpen"@,
    }
}

/// The behaviour a wire name stands for, if any.
pub open spec fn behaviour_from_name(s: Seq<char>) -> Option<Behaviour> {
    if s == "idle"@ {
        Some(Behaviour::Idle)
    } else if s == "moving"@ {
        Some(Behaviour::Moving)
    } else if s == "doorOpen"@ {
        Some(Behaviour::DoorOpen)
    } else {
        None
    }
}

impl Behaviour {
    pub fn as_string(&self) -> (r: String)
        ensures
            r@ == behaviour_name(*self),
    {
        match self {
            Behaviour::Idle => "idle".to_owned(),
            Behaviour::Moving => "moving".to_owned(),
            Behaviour::DoorOpen => "doorOpen".to_owned(),
        }
    }

    /// Reads a wire name; any other name is rejected.
    pub fn parse(s: &String) -> (r: Option<Behaviour>)
        ensures
            r == behaviour_from_name(s@),
    {
        proof {
            reveal_strlit("idle");
            reveal_strlit("moving");
            reveal_strlit("doorOpen");
            assert("idle"@.len() != "moving"@.len());
            assert("idle"@.len() != "doorOpen"@.len());
            assert("moving"@.len() != "doorOpen"@.len());
        }
        if *s == "idle".to_owned() {
            Some(Behaviour::Idle)
        } else if *s == "moving".to_owned() {
            Some(Behaviour::Moving)
        } else if *s == "doorOpen".to_owned() {
            Some(Behaviour::DoorOpen)
        } else {
            None
        }
    }
}

/// A command for the motor and door that a transition asks for.
#[derive(Debug, Clone, Copy, PartialEq, Eq, Structural)]
pub enum FsmAction {
    /// Nothing to do.
    Stay,
    /// Open (or keep open) the door; the motor is already still.
    OpenDoor,
    /// Stop the motor and open the door.
    StopAndOpenDoor,
    /// Run the motor in this direction.
    Move(Direction),
}

/// Whether serving at `floor` while travelling in `d` clears column `c` there:
/// the cab call, the hall call of `d`, and the other hall call only when
/// nothing lies beyond in `d`.
pub open spec fn served_column(m: Seq<Vec<bool>>, n: int, floor: int, d: Direction, c: int) -> bool {
    c == 2 || c == hall_call_of(d).index() || (c == hall_call_of(opposite(d)).index()
        && !further_requests(m, n, floor, d))
}

/// `new` is `old` after serving at `floor` in direction `d`.
pub open spec fn served_matrix(
    old: Seq<Vec<bool>>,
    new: Seq<Vec<bool>>,
    n: int,
    floor: int,
    d: Direction,
) -> bool {
    &&& new.len() == n
    &&& forall|f: int| 0 <= f < n ==> #[trigger] new[f]@.len() == 3
    &&& forall|f: int, c: int|
        0 <= f < n && 0 <= c < 3 ==> #[trigger] at(new, f, c) == if f == floor && served_column(
            old,
            n,
            floor,
            d,
            c,
        ) {
            false
        } else {
            at(old, f, c)
        }
}

/// The hall calls reported served at `floor` when travelling in `d`: the one
/// of `d`, then the other one when nothing lies beyond in `d`.
pub open spec fn served_hall_calls(m: Seq<Vec<bool>>, n: int, floor: u8, d: Direction) -> Seq<
    Request,
> {
    let first = seq![Request { floor, call: hall_call_of(d) }];
    if further_requests(m, n, floor as int, d) {
        first
    } else {
        first.push(Request { floor, call: hall_call_of(opposite(d)) })
    }
}

/// Serving changes only the row of its floor, so what lies beyond that floor,
/// and with it the hall calls the serving counts as served, read the same
/// before and after.
pub proof fn lemma_served_calls_read_after(
    old: Seq<Vec<bool>>,
    new: Seq<Vec<bool>>,
    n: int,
    floor: u8,
    d: Direction,
)
    requires
        served_matrix(old, new, n, floor as int, d),
        floor < n,
    ensures
        further_requests(new, n, floor as int, d) == further_requests(old, n, floor as int, d),
        served_hall_calls(new, n, floor, d) == served_hall_calls(old, n, floor, d),
{
    assert forall|f: int| beyond(n, floor as int, d, f) implies #[trigger] floor_has_request(new, f)
        == floor_has_request(old, f) by {
        assert(at(new, f, 0) == at(old, f, 0));
        assert(at(new, f, 1) == at(old, f, 1));
        assert(at(new, f, 2) == at(old, f, 2));
    }
    if further_requests(old, n, floor as int, d) {
        let g = choose|g: int| beyond(n, floor as int, d, g) && #[trigger] floor_has_request(old, g);
        assert(floor_has_request(new, g));
    }
    if further_requests(new, n, floor as int, d) {
        let g = choose|g: int| beyond(n, floor as int, d, g) && #[trigger] floor_has_request(new, g);
        assert(floor_has_request(old, g));
    }
}

/// The direction a car takes when it settles: the scan rule's choice, or its
/// old direction when the scan rule finds nothing.
pub open spec fn settled_direction(m: Seq<Vec<bool>>, n: int, floor: int, d: Direction) -> Direction {
    match scan_direction(m, n, floor, d) {
        Some(x) => x,
        None => d,
    }
}

/// Whether a settling car opens its door: it stops here in its settled
/// direction and some call waits at this floor.
pub open spec fn settles_with_open_door(m: Seq<Vec<bool>>, n: int, floor: int, d: Direction) -> bool {
    stop_here(m, n, floor, settled_direction(m, n, floor, d)) && floor_has_request(m, floor)
}

/// The status of one car: its requests, what it does, where it is and where it heads.
#[derive(Clone, Debug)]
pub struct ElevatorStatus {
    pub requests: RequestCollection,
    pub behaviour: Behaviour,
    pub floor: u8,
    pub direction: Direction,
}

impl ElevatorStatus {
    /// A car on a valid floor, heading up or down (never `Stop`).
    pub open spec fn wf(&self) -> bool {
        &&& self.requests.wf()
        &&& self.floor < self.requests.floors()
        &&& self.direction != Direction::Stop
    }

    pub open spec fn matrix(&self) -> Seq<Vec<bool>> {
        self.requests.matrix()
    }

    pub open spec fn floors(&self) -> int {
        self.requests.floors()
    }

    /// What `self` settled into, from `old`, when `settle` returned `r`.
    pub open spec fn settled_from(&self, old: ElevatorStatus, r: FsmAction) -> bool {
        let m = old.matrix();
        let n = old.floors();
        let d = settled_direction(m, n, old.floor as int, old.direction);
        &&& self.wf()
        &&& self.floor == old.floor
        &&& self.floors() == n
        &&& self.direction == d
        &&& if settles_with_open_door(m, n, old.floor as int, old.direction) {
            &&& self.behaviour == Behaviour::DoorOpen
            &&& r == FsmAction::OpenDoor
            &&& served_matrix(m, self.matrix(), n, old.floor as int, d)
        } else if scan_direction(m, n, old.floor as int, old.direction).is_some() {
            &&& self.behaviour == Behaviour::Moving
            &&& r == FsmAction::Move(d)
            &&& self.requests == old.requests
        } else {
            &&& self.behaviour == Behaviour::Idle
            &&& r == FsmAction::Stay
            &&& self.requests == old.requests
        }
    }

    /// A car on its way down to find a floor, with no requests.
    pub fn new(num_floors: u8) -> (r: Self)
        ensures
            num_floors > 0 ==> r.wf(),
            r.floors() == num_floors,
            r.behaviour == Behaviour::Moving,
            r.floor == 0,
            r.direction == Direction::Down,
            forall|f: int, c: Call| 0 <= f < num_floors ==> !#[trigger] r.requests.has(f, c),
    {
        ElevatorStatus {
            requests: RequestCollection::new(num_floors),
            behaviour: Behaviour::Moving,
            floor: 0,
            direction: Direction::Down,
        }
    }

    /// Clears what is served at the current floor: the cab call, the hall call
    /// in the direction of travel, and the other hall call when nothing lies
    /// beyond in that direction.
    pub fn serve_requests_here(&mut self)
        requires
            old(self).wf(),
        ensures
            final(self).wf(),
            final(self).floor == old(self).floor,
            final(self).direction == old(self).direction,
            final(self).behaviour == old(self).behaviour,
            final(self).floors() == old(self).floors(),
            served_matrix(
                old(self).matrix(),
                final(self).matrix(),
                old(self).floors(),
                old(self).floor as int,
                old(self).direction,
            ),
    {
        let further = self.requests.further_requests_in_direction(self.floor, self.direction);
        let (here, other) = if self.direction == Direction::Up {
            (Call::HallUp, Call::HallDown)
        } else {
            (Call::HallDown, Call::HallUp)
        };
        self.requests.clear_request(Call::Cab, self.floor);
        self.requests.clear_request(here, self.floor);
        if !further {
            self.requests.clear_request(other, self.floor);
        }
    }

    pub fn should_stop(&self) -> (r: bool)
        requires
            self.wf(),
        ensures
            r == stop_here(self.matrix(), self.floors(), self.floor as int, self.direction),
    {
        self.requests.should_stop(self.floor, self.direction)
    }

    /// Whether any call waits at the current floor.
    pub fn requests_at_this_floor(&self) -> (r: bool)
        requires
            self.wf(),
        ensures
            r == floor_has_request(self.matrix(), self.floor as int),
    {
        self.requests.requests_at_floor(self.floor)
    }

    /// Whether a cab call, or the hall call of the direction of travel, waits here.
    pub fn requests_in_direction_at_this_floor(&self) -> (r: bool)
        requires
            self.wf(),
        ensures
            r == (at(self.matrix(), self.floor as int, hall_call_of(self.direction).index()) || at(
                self.matrix(),
                self.floor as int,
                2,
            )),
    {
        self.requests.requests_in_direction_at_this_floor(self.floor, self.direction)
            || self.requests.cab_request_at_floor(self.floor)
    }

    pub fn next_direction(&self) -> (r: Option<Direction>)
        requires
            self.wf(),
        ensures
            r == scan_direction(self.matrix(), self.floors(), self.floor as int, self.direction),
    {
        self.requests.next_direction(self.floor, self.direction)
    }

    /// Picks the next direction, then opens the door if there is work here,
    /// else starts moving, else rests.
    fn settle(&mut self) -> (r: FsmAction)
        requires
            old(self).wf(),
        ensures
            final(self).settled_from(*old(self), r),
    {
        let next = self.requests.next_direction(self.floor, self.direction);
        match next {
            Some(d) => {
                self.direction = d;
            },
            None => {},
        }
        if self.requests.should_stop(self.floor, self.direction) && self.requests.requests_at_floor(
            self.floor,
        ) {
            self.serve_requests_here();
            self.behaviour = Behaviour::DoorOpen;
            FsmAction::OpenDoor
        } else {
            match next {
                Some(d) => {
                    self.behaviour = Behaviour::Moving;
                    FsmAction::Move(d)
                },
                None => {
                    self.behaviour = Behaviour::Idle;
                    FsmAction::Stay
                },
            }
        }
    }

    /// A request was recorded: an idle car settles; a moving car or an open
    /// door carries on.
    pub fn on_new_request(&mut self) -> (r: FsmAction)
        requires
            old(self).wf(),
        ensures
            final(self).wf(),
            old(self).behaviour == Behaviour::Idle ==> final(self).settled_from(*old(self), r),
            old(self).behaviour != Behaviour::Idle ==> *final(self) == *old(self) && r == FsmAction::Stay,
            old(self).behaviour == Behaviour::Idle && final(self).behaviour == Behaviour::DoorOpen ==> stop_here(
                old(self).matrix(),
                old(self).floors(),
                old(self).floor as int,
                final(self).direction,
            ),
    {
        if self.behaviour == Behaviour::Idle {
            self.settle()
        } else {
            FsmAction::Stay
        }
    }

    /// What `self` became, from `old`, when the sensor reported `floor` and
    /// `on_floor_arrival` returned `r`.
    pub open spec fn arrived_from(&self, old: ElevatorStatus, floor: u8, r: FsmAction) -> bool {
        let stops = old.behaviour == Behaviour::Moving && stop_here(
            old.matrix(),
            old.floors(),
            floor as int,
            old.direction,
        );
        &&& self.wf()
        &&& self.floor == floor
        &&& self.direction == old.direction
        &&& self.floors() == old.floors()
        &&& stops ==> self.behaviour == Behaviour::DoorOpen && r == FsmAction::StopAndOpenDoor
            && served_matrix(old.matrix(), self.matrix(), old.floors(), floor as int, old.direction)
        &&& !stops ==> self.behaviour == old.behaviour && r == FsmAction::Stay && self.requests
            == old.requests
    }

    /// The floor sensor reports `floor`: a moving car stops there when the
    /// stopping rule says so.
    pub fn on_floor_arrival(&mut self, floor: u8) -> (r: FsmAction)
        requires
            old(self).wf(),
            floor < old(self).floors(),
        ensures
            final(self).arrived_from(*old(self), floor, r),
    {
        self.floor = floor;
        if self.behaviour == Behaviour::Moving && self.requests.should_stop(floor, self.direction) {
            self.serve_requests_here();
            self.behaviour = Behaviour::DoorOpen;
            FsmAction::StopAndOpenDoor
        } else {
            FsmAction::Stay
        }
    }

    /// The door timer fired: an open door settles again; otherwise nothing.
    pub fn on_door_closed(&mut self) -> (r: FsmAction)
        requires
            old(self).wf(),
        ensures
            final(self).wf(),
            old(self).behaviour == Behaviour::DoorOpen ==> final(self).settled_from(*old(self), r),
            old(self).behaviour != Behaviour::DoorOpen ==> *final(self) == *old(self) && r
                == FsmAction::Stay,
    {
        if self.behaviour == Behaviour::DoorOpen {
            self.settle()
        } else {
            FsmAction::Stay
        }
    }

    /// A cab button was pressed: the call is recorded, and an idle car settles.
    pub fn on_cab_button(&mut self, floor: u8) -> (r: FsmAction)
        requires
            old(self).wf(),
            floor < old(self).floors(),
        ensures
            final(self).wf(),
            exists|recorded: ElevatorStatus|
                {
                    &&& recorded.wf()
                    &&& recorded.floors() == old(self).floors()
                    &&& recorded.floor == old(self).floor
                    &&& recorded.direction == old(self).direction
                    &&& recorded.behaviour == old(self).behaviour
                    &&& entry_set(old(self).matrix(), recorded.matrix(), old(self).floors(), floor as int, 2, true)
                    &&& old(self).behaviour == Behaviour::Idle ==> final(self).settled_from(recorded, r)
                    &&& old(self).behaviour != Behaviour::Idle ==> *final(self) == recorded && r == FsmAction::Stay
                },
    {
        self.requests.add_request(floor, Call::Cab);
        let ghost recorded = *self;
        self.on_new_request()
    }

    /// The coordinator assigned hall calls to this car: they replace the hall
    /// columns, and an idle car settles.
    pub fn on_hall_assignment(&mut self, our_hall_requests: Vec<Vec<bool>>) -> (r: FsmAction)
        requires
            old(self).wf(),
            covers_hall(our_hall_requests@, old(self).floors()),
        ensures
            final(self).wf(),
            exists|recorded: ElevatorStatus|
                {
                    &&& recorded.wf()
                    &&& recorded.floors() == old(self).floors()
                    &&& recorded.floor == old(self).floor
                    &&& recorded.direction == old(self).direction
                    &&& recorded.behaviour == old(self).behaviour
                    &&& hall_columns_replaced(old(self).matrix(), recorded.matrix(), our_hall_requests@, old(self).floors())
                    &&& old(self).behaviour == Behaviour::Idle ==> final(self).settled_from(recorded, r)
                    &&& old(self).behaviour != Behaviour::Idle ==> *final(self) == recorded && r == FsmAction::Stay
                },
    {
        self.requests.update_hall_requests(our_hall_requests);
        let ghost recorded = *self;
        self.on_new_request()
    }

    /// The hall calls to report served after a transition that returned
    /// `action`, read on the state it left: when the door opened, the hall
    /// call of the direction of travel at this floor, and the other one when
    /// nothing lies beyond (by `lemma_served_calls_read_after`, the same calls
    /// as on the matrix that was served); otherwise none.
    pub fn served_hall_requests(&self, action: FsmAction) -> (r: Vec<Request>)
        requires
            self.wf(),
        ensures
            action == FsmAction::OpenDoor || action == FsmAction::StopAndOpenDoor ==> r@
                == served_hall_calls(self.matrix(), self.floors(), self.floor, self.direction),
            !(action == FsmAction::OpenDoor || action == FsmAction::StopAndOpenDoor) ==> r@
                == Seq::<Request>::empty(),
    {
        let mut served: Vec<Request> = Vec::new();
        if action == FsmAction::OpenDoor || action == FsmAction::StopAndOpenDoor {
            let (here, other) = if self.direction == Direction::Up {
                (Call::HallUp, Call::HallDown)
            } else {
                (Call::HallDown, Call::HallUp)
            };
            served.push(Request { floor: self.floor, call: here });
            if !self.requests.further_requests_in_direction(self.floor, self.direction) {
                served.push(Request { floor: self.floor, call: other });
            }
            assert(served@ =~= served_hall_calls(self.matrix(), self.floors(), self.floor, self.direction));
        } else {
            assert(served@ =~= Seq::<Request>::empty());
        }
        served
    }

    /// The command that resumes this state after a restart from a snapshot.
    pub fn resume_action(&self) -> (r: FsmAction)
        ensures
            self.behaviour == Behaviour::Moving ==> r == FsmAction::Move(self.direction),
            self.behaviour == Behaviour::DoorOpen ==> r == FsmAction::OpenDoor,
            self.behaviour == Behaviour::Idle ==> r == FsmAction::Stay,
    {
        match self.behaviour {
            Behaviour::Moving => FsmAction::Move(self.direction),
            Behaviour::DoorOpen => FsmAction::OpenDoor,
            Behaviour::Idle => FsmAction::Stay,
        }
    }
}

/// A transition that settles a car never leaves it moving, or commands the
/// motor, with direction `Stop`; and a car that goes from idle to an open
/// door does so only where the stopping rule holds for its floor.
pub proof fn lemma_settle_is_safe(old: ElevatorStatus, new: ElevatorStatus, r: FsmAction)
    requires
        old.wf(),
        new.settled_from(old, r),
    ensures
        new.behaviour == Behaviour::Moving ==> new.direction != Direction::Stop,
        r matches FsmAction::Move(d) ==> d != Direction::Stop && d == new.direction,
        new.behaviour == Behaviour::DoorOpen ==> stop_here(old.matrix(), old.floors(), old.floor as int, new.direction),
{
}

/// A car settles into rest only when no request is left anywhere: the scan
/// rule finds no next direction, and nothing waits at its own floor.
pub proof fn lemma_rests_only_when_all_served(old: ElevatorStatus, new: ElevatorStatus, r: FsmAction)
    requires
        old.wf(),
        new.settled_from(old, r),
        new.behaviour == Behaviour::Idle,
    ensures
        forall|f: int| 0 <= f < old.floors() ==> !#[trigger] floor_has_request(old.matrix(), f),
        new.requests == old.requests,
        scan_direction(new.matrix(), new.floors(), new.floor as int, new.direction).is_none(),
{
    crate::ledger::lemma_scan_rests_iff_no_work_elsewhere(
        old.matrix(),
        old.floors(),
        old.floor as int,
        old.direction,
    );
    crate::ledger::lemma_scan_rests_iff_no_work_elsewhere(
        old.matrix(),
        old.floors(),
        old.floor as int,
        new.direction,
    );
}

} // verus!
