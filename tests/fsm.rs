use elevator_fleet::call::Call;
use elevator_fleet::direction::Direction;
use elevator_fleet::elevator_behaviour::ElevatorBehaviour;
use elevator_fleet::elevator_status::{Behaviour, ElevatorStatus, FsmAction};
use elevator_fleet::request::Request;

fn idle_at(num_floors: u8, floor: u8, direction: Direction) -> ElevatorStatus {
    let mut e = ElevatorStatus::new(num_floors);
    e.behaviour = Behaviour::Idle;
    e.floor = floor;
    e.direction = direction;
    e
}

#[test]
fn behaviour_wire_names() {
    assert_eq!(Behaviour::Idle.as_string(), "idle");
    assert_eq!(Behaviour::Moving.as_string(), "moving");
    assert_eq!(Behaviour::DoorOpen.as_string(), "doorOpen");
    assert_eq!(Behaviour::parse(&"doorOpen".to_string()), Some(Behaviour::DoorOpen));
    assert_eq!(Behaviour::parse(&"idle".to_string()), Some(Behaviour::Idle));
    assert_eq!(Behaviour::parse(&"moving".to_string()), Some(Behaviour::Moving));
    assert_eq!(Behaviour::parse(&"dooropen".to_string()), None);
}

#[test]
fn cold_start_moves_down() {
    let e = ElevatorStatus::new(4);
    assert_eq!(e.behaviour, Behaviour::Moving);
    assert_eq!(e.direction, Direction::Down);
    assert_eq!(e.floor, 0);
    assert_eq!(e.resume_action(), FsmAction::Move(Direction::Down));
}

#[test]
fn cold_start_arrival_on_empty_ledger_opens_then_idles() {
    let mut e = ElevatorStatus::new(4);
    assert_eq!(e.on_floor_arrival(2), FsmAction::StopAndOpenDoor);
    assert_eq!(e.behaviour, Behaviour::DoorOpen);
    assert_eq!(e.floor, 2);
    assert_eq!(e.on_door_closed(), FsmAction::Stay);
    assert_eq!(e.behaviour, Behaviour::Idle);
}

#[test]
fn serve_requests_here_clears_opposite_only_without_work_beyond() {
    let mut e = idle_at(4, 1, Direction::Up);
    e.requests.add_request(1, Call::Cab);
    e.requests.add_request(1, Call::HallUp);
    e.requests.add_request(1, Call::HallDown);
    e.requests.add_request(3, Call::Cab);
    e.serve_requests_here();
    assert_eq!(e.requests.get_requests_at_floor(1), vec![false, true, false]);

    let mut e = idle_at(4, 1, Direction::Up);
    e.requests.add_request(1, Call::HallUp);
    e.requests.add_request(1, Call::HallDown);
    e.serve_requests_here();
    assert_eq!(e.requests.get_requests_at_floor(1), vec![false, false, false]);
}

#[test]
fn idle_with_cab_call_here_opens_door() {
    let mut e = idle_at(4, 2, Direction::Down);
    let action = e.on_cab_button(2);
    assert_eq!(action, FsmAction::OpenDoor);
    assert_eq!(e.behaviour, Behaviour::DoorOpen);
    assert!(!e.requests.cab_request_at_floor(2));
}

#[test]
fn idle_with_call_elsewhere_starts_moving() {
    let mut e = idle_at(4, 0, Direction::Down);
    let action = e.on_cab_button(3);
    assert_eq!(action, FsmAction::Move(Direction::Up));
    assert_eq!(e.behaviour, Behaviour::Moving);
    assert_eq!(e.direction, Direction::Up);
    assert!(e.requests.cab_request_at_floor(3));
}

#[test]
fn idle_without_requests_stays_idle() {
    let mut e = idle_at(4, 1, Direction::Up);
    assert_eq!(e.on_new_request(), FsmAction::Stay);
    assert_eq!(e.behaviour, Behaviour::Idle);
}

#[test]
fn moving_car_only_records_cab_call() {
    let mut e = idle_at(4, 0, Direction::Up);
    e.behaviour = Behaviour::Moving;
    assert_eq!(e.on_cab_button(0), FsmAction::Stay);
    assert_eq!(e.behaviour, Behaviour::Moving);
    assert!(e.requests.cab_request_at_floor(0));
}

#[test]
fn moving_car_passes_floor_without_reason_to_stop() {
    let mut e = idle_at(4, 0, Direction::Up);
    e.behaviour = Behaviour::Moving;
    e.requests.add_request(3, Call::Cab);
    e.requests.add_request(1, Call::HallDown);
    assert_eq!(e.on_floor_arrival(1), FsmAction::Stay);
    assert_eq!(e.behaviour, Behaviour::Moving);
    assert_eq!(e.on_floor_arrival(3), FsmAction::StopAndOpenDoor);
    assert!(!e.requests.cab_request_at_floor(3));
}

#[test]
fn door_close_reopens_for_call_in_new_direction() {
    let mut e = idle_at(4, 2, Direction::Up);
    e.behaviour = Behaviour::DoorOpen;
    e.requests.add_request(2, Call::HallDown);
    e.requests.add_request(0, Call::Cab);
    assert_eq!(e.on_door_closed(), FsmAction::OpenDoor);
    assert_eq!(e.direction, Direction::Down);
    assert_eq!(e.behaviour, Behaviour::DoorOpen);
    assert_eq!(e.requests.get_requests_at_floor(2), vec![false, false, false]);
    assert_eq!(e.on_door_closed(), FsmAction::Move(Direction::Down));
}

#[test]
fn hall_assignment_wakes_idle_car() {
    let mut e = idle_at(3, 0, Direction::Down);
    let action = e.on_hall_assignment(vec![vec![false, false], vec![false, false], vec![false, true]]);
    assert_eq!(action, FsmAction::Move(Direction::Up));
    assert_eq!(e.requests.get_requests_at_floor(2), vec![false, true, false]);
}

#[test]
fn resume_from_snapshot_reissues_command() {
    let mut e = idle_at(4, 1, Direction::Up);
    assert_eq!(e.resume_action(), FsmAction::Stay);
    e.behaviour = Behaviour::DoorOpen;
    assert_eq!(e.resume_action(), FsmAction::OpenDoor);
    e.behaviour = Behaviour::Moving;
    assert_eq!(e.resume_action(), FsmAction::Move(Direction::Up));
}

/// Drives a car through its events until it rests; returns the floors it
/// opened its door at and the number of events used.
fn run_until_idle(e: &mut ElevatorStatus, mut action: FsmAction, limit: usize) -> (Vec<u8>, usize) {
    let mut stops = Vec::new();
    let mut ticks = 0;
    while ticks < limit {
        match action {
            FsmAction::OpenDoor | FsmAction::StopAndOpenDoor => {
                stops.push(e.floor);
                action = e.on_door_closed();
            }
            _ if e.behaviour == Behaviour::Moving => {
                let next = if e.direction == Direction::Up { e.floor + 1 } else { e.floor - 1 };
                action = e.on_floor_arrival(next);
            }
            _ => break,
        }
        ticks += 1;
    }
    (stops, ticks)
}

#[test]
fn scan_serves_all_requests_then_rests() {
    let mut e = idle_at(4, 2, Direction::Down);
    e.requests.add_request(1, Call::HallUp);
    e.requests.add_request(3, Call::HallDown);
    let first = e.on_new_request();
    let (stops, ticks) = run_until_idle(&mut e, first, 4 * 2);
    assert_eq!(stops, vec![1, 3]);
    assert!(ticks <= 4 * 2);
    assert_eq!(e.behaviour, Behaviour::Idle);
    assert!(!e.requests.has_unserved_requests());
    assert_eq!(e.next_direction(), None);
}

#[test]
fn moving_never_reports_stop_direction() {
    let mut e = idle_at(4, 3, Direction::Up);
    e.requests.add_request(0, Call::Cab);
    let action = e.on_new_request();
    assert_eq!(action, FsmAction::Move(Direction::Down));
    assert_eq!(e.behaviour, Behaviour::Moving);
    assert_ne!(e.direction, Direction::Stop);
}

#[test]
fn status_queries() {
    let mut e = idle_at(4, 1, Direction::Up);
    assert!(e.should_stop());
    assert!(!e.requests_at_this_floor());
    e.requests.add_request(1, Call::HallUp);
    e.requests.add_request(2, Call::Cab);
    assert!(e.requests_at_this_floor());
    assert!(e.requests_in_direction_at_this_floor());
    assert_eq!(e.next_direction(), Some(Direction::Up));
}

#[test]
fn elevator_behaviour_reports_served_hall_calls() {
    let mut e = ElevatorBehaviour::new(4);
    e.behaviour = Behaviour::DoorOpen;
    e.floor = 2;
    e.direction = Direction::Up;
    e.requests.add_order(2, Call::Cab);
    assert!(e.current_floor_has_requests());
    assert!(e.should_stop());
    e.serve_requests_here();
    assert!(!e.requests.cab_request_at_floor(2));
    assert_eq!(
        e.pop_served_requests(),
        vec![Request { floor: 2, call: Call::HallUp }, Request { floor: 2, call: Call::HallDown }]
    );
    assert_eq!(e.pop_served_requests(), vec![]);
    assert_eq!(e.next_direction(), None);

    e.requests.add_order(3, Call::Cab);
    e.serve_requests_here();
    assert_eq!(e.pop_served_requests(), vec![Request { floor: 2, call: Call::HallUp }]);
    assert_eq!(e.next_direction(), Some(Direction::Up));
    assert!(!e.current_floor_has_requests());
}

#[test]
fn served_hall_requests_follow_the_door() {
    let mut e = idle_at(4, 1, Direction::Up);
    e.requests.add_request(1, Call::HallDown);
    let action = e.on_new_request();
    assert_eq!(action, FsmAction::OpenDoor);
    assert_eq!(
        e.served_hall_requests(action),
        vec![Request { floor: 1, call: Call::HallUp }, Request { floor: 1, call: Call::HallDown }]
    );
    assert_eq!(e.served_hall_requests(FsmAction::Stay), vec![]);

    let mut e = idle_at(4, 0, Direction::Up);
    e.behaviour = Behaviour::Moving;
    e.requests.add_request(1, Call::HallUp);
    e.requests.add_request(3, Call::Cab);
    let action = e.on_floor_arrival(1);
    assert_eq!(action, FsmAction::StopAndOpenDoor);
    assert_eq!(e.served_hall_requests(action), vec![Request { floor: 1, call: Call::HallUp }]);
    assert_eq!(e.served_hall_requests(FsmAction::Move(Direction::Up)), vec![]);
}
