use elevator_fleet::call::Call;
use elevator_fleet::direction::Direction;
use elevator_fleet::elevator_behaviour::ElevatorBehaviour;
use elevator_fleet::elevator_message::ElevatorMessage;
use elevator_fleet::elevator_status::Behaviour;
use elevator_fleet::master_message::{CoordinatorLink, MasterMessage, MASTER_TIMEOUT_MS};
use elevator_fleet::request::Request;
use elevator_fleet::request_buffer::RequestBuffer;

#[test]
fn master_message_merges_all_and_picks_ours() {
    let message = vec![
        ("0".to_string(), vec![vec![true, false], vec![false, false], vec![false, false]]),
        ("1".to_string(), vec![vec![false, false], vec![false, true], vec![false, false]]),
    ];
    let m = MasterMessage::parse(message, 3, "1".to_string());
    assert_eq!(m.our_hall_requests, vec![vec![false, false], vec![false, true], vec![false, false]]);
    assert_eq!(m.all_hall_requests, vec![vec![true, false], vec![false, true], vec![false, false]]);
}

#[test]
fn master_message_for_unknown_car_assigns_nothing() {
    let message = vec![("0".to_string(), vec![vec![true, true]; 2])];
    let m = MasterMessage::parse(message, 2, "5".to_string());
    assert_eq!(m.our_hall_requests, vec![vec![false, false]; 2]);
    assert_eq!(m.all_hall_requests, vec![vec![true, true]; 2]);
}

#[test]
fn master_message_with_short_matrix_pads_with_clear_cells() {
    let message = vec![("0".to_string(), vec![vec![true]])];
    let m = MasterMessage::parse(message, 2, "0".to_string());
    assert_eq!(m.our_hall_requests, vec![vec![true, false], vec![false, false]]);
    assert_eq!(m.all_hall_requests, vec![vec![true, false], vec![false, false]]);
}

#[test]
fn elevator_message_reports_state_and_buffer() {
    let mut e = ElevatorBehaviour::new(3);
    e.behaviour = Behaviour::Idle;
    e.floor = 1;
    e.direction = Direction::Up;
    e.requests.add_order(2, Call::Cab);
    let mut buffer = RequestBuffer::new(5);
    buffer.insert_new_request(Request { floor: 0, call: Call::HallUp }, 0);
    buffer.insert_served_request(Request { floor: 1, call: Call::HallDown }, 0);
    let msg = ElevatorMessage::new("2".to_string(), e, &buffer);
    assert_eq!(msg.id, "2");
    assert_eq!(msg.behaviour, "idle");
    assert_eq!(msg.floor, 1);
    assert_eq!(msg.direction, "up");
    assert_eq!(msg.cab_requests, vec![false, false, true]);
    assert_eq!(msg.new_hall_orders, vec![Request { floor: 0, call: Call::HallUp }]);
    assert_eq!(msg.served_hall_orders, vec![Request { floor: 1, call: Call::HallDown }]);
}

#[test]
fn coordinator_link_hands_over_hall_calls_once_when_silent() {
    let mut link = CoordinatorLink::new(2);
    assert!(!link.connected);
    assert_eq!(link.on_tick(100_000), None);
    link.on_orders(vec![vec![true, false], vec![false, true]], 1_000);
    assert!(link.connected);
    assert_eq!(link.on_tick(1_000 + MASTER_TIMEOUT_MS), None);
    assert_eq!(
        link.on_tick(1_001 + MASTER_TIMEOUT_MS),
        Some(vec![vec![true, false], vec![false, true]])
    );
    assert!(!link.connected);
    assert_eq!(link.on_tick(10_000 + MASTER_TIMEOUT_MS), None);
}
