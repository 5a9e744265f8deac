//! The status message a car sends to the coordinator on every tick.
use vstd::prelude::*;

use crate::direction::direction_name;
use crate::elevator_behaviour::ElevatorBehaviour;
use crate::elevator_status::{ElevatorStatus, behaviour_name};
use crate::ledger::at;
use crate::request::Request;
use crate::request_buffer::{RequestBuffer, requests_of};

verus! {

#[derive(Clone, Debug)]
pub struct ElevatorMessage {
    pub id: String,
    pub behaviour: String,
    pub floor: u8,
    pub direction: String,
    pub cab_requests: Vec<bool>,
    pub new_hall_orders: Vec<Request>,
    pub served_hall_orders: Vec<Request>,
}

/// `msg` reports car `id` in the given state, with the buffer's new and served hall calls.
pub open spec fn reports(
    msg: ElevatorMessage,
    id: Seq<char>,
    matrix: Seq<Vec<bool>>,
    floors: int,
    behaviour: crate::elevator_status::Behaviour,
    floor: u8,
    direction: crate::direction::Direction,
    buffer: RequestBuffer,
) -> bool {
    &&& msg.id@ == id
    &&& msg.behaviour@ == behaviour_name(behaviour)
    &&& msg.floor == floor
    &&& msg.direction@ == direction_name(direction)
    &&& msg.cab_requests@.len() == floors
    &&& forall|f: int| 0 <= f < floors ==> #[trigger] msg.cab_requests@[f] == at(matrix, f, 2)
    &&& msg.new_hall_orders@ == requests_of(buffer.new_entries())
    &&& msg.served_hall_orders@ == requests_of(buffer.served_entries())
}

impl ElevatorMessage {
    pub fn new(id: String, elevator_behaviour: ElevatorBehaviour, request_buffer: &RequestBuffer) -> (r:
        Self)
        requires
            elevator_behaviour.wf(),
        ensures
            reports(
                r,
                id@,
                elevator_behaviour.requests.matrix(),
                elevator_behaviour.requests.floors(),
                elevator_behaviour.behaviour,
                elevator_behaviour.floor,
                elevator_behaviour.direction,
                *request_buffer,
            ),
    {
        let direction = match elevator_behaviour.direction.as_string() {
            Some(name) => name,
            None => String::new(),
        };
        ElevatorMessage {
            id,
            behaviour: elevator_behaviour.behaviour.as_string(),
            floor: elevator_behaviour.floor,
            direction,
            cab_requests: elevator_behaviour.requests.get_cab_requests(),
            new_hall_orders: request_buffer.get_new_requests(),
            served_hall_orders: request_buffer.get_served_requests(),
        }
    }
}

/// The status message of car `id`.
pub fn generate_elevator_message(
    id: String,
    elevator_behaviour: ElevatorStatus,
    request_buffer: &RequestBuffer,
) -> (r: ElevatorMessage)
    requires
        elevator_behaviour.wf(),
    ensures
        reports(
            r,
            id@,
            elevator_behaviour.matrix(),
            elevator_behaviour.floors(),
            elevator_behaviour.behaviour,
            elevator_behaviour.floor,
            elevator_behaviour.direction,
            *request_buffer,
        ),
{
    let direction = match elevator_behaviour.direction.as_string() {
        Some(name) => name,
        None => String::new(),
    };
    ElevatorMessage {
        id,
        behaviour: elevator_behaviour.behaviour.as_string(),
        floor: elevator_behaviour.floor,
        direction,
        cab_requests: elevator_behaviour.requests.get_cab_requests(),
        new_hall_orders: request_buffer.get_new_requests(),
        served_hall_orders: request_buffer.get_served_requests(),
    }
}

} // verus!
