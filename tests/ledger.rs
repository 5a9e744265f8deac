use elevator_fleet::call::{Call, CAB, HALL_DOWN, HALL_UP};
use elevator_fleet::direction::Direction;
use elevator_fleet::request_collection::RequestCollection;
use elevator_fleet::requests::Requests;

fn collection_with(num_floors: u8, calls: &[(u8, Call)]) -> RequestCollection {
    let mut r = RequestCollection::new(num_floors);
    for (floor, call) in calls {
        r.add_request(*floor, *call);
    }
    r
}

#[test]
fn call_counts_and_order() {
    assert_eq!(Call::num_calls(), 3);
    assert_eq!(Call::num_hall_calls(), 2);
    assert_eq!(Call::iter(), vec![Call::HallUp, Call::HallDown, Call::Cab]);
    assert_eq!(Call::iter_hall(), vec![Call::HallUp, Call::HallDown]);
    assert_eq!(Call::Cab.as_index(), 2);
}

#[test]
fn call_driver_constants_round_trip() {
    assert_eq!(Call::from_elev_constant(HALL_UP), Some(Call::HallUp));
    assert_eq!(Call::from_elev_constant(HALL_DOWN), Some(Call::HallDown));
    assert_eq!(Call::from_elev_constant(CAB), Some(Call::Cab));
    assert_eq!(Call::from_elev_constant(7), None);
    assert_eq!(Call::HallDown.as_elev_constant(), 1);
}

#[test]
fn direction_names_and_calls() {
    assert_eq!(Direction::Up.as_string(), Some("up".to_string()));
    assert_eq!(Direction::Down.as_string(), Some("down".to_string()));
    assert_eq!(Direction::Stop.as_string(), None);
    assert_eq!(Direction::Up.to_call(), Some(Call::HallUp));
    assert_eq!(Direction::Down.to_call(), Some(Call::HallDown));
    assert_eq!(Direction::Stop.to_call(), None);
    assert_eq!(Direction::Down.as_elev_constant(), 255);
    assert_eq!(Direction::Stop.as_elev_constant(), 0);
    assert_eq!(Direction::Up.as_elev_constant(), 1);
}

#[test]
fn direction_parse_rejects_unknown_names() {
    assert_eq!(Direction::parse(&"up".to_string()), Some(Direction::Up));
    assert_eq!(Direction::parse(&"down".to_string()), Some(Direction::Down));
    assert_eq!(Direction::parse(&"stop".to_string()), None);
    assert_eq!(Direction::parse(&"".to_string()), None);
}

#[test]
fn new_collection_is_empty() {
    let r = RequestCollection::new(4);
    assert_eq!(r.num_floors(), 4);
    assert!(!r.has_unserved_requests());
    assert_eq!(r.get_cab_requests(), vec![false; 4]);
    assert_eq!(r.get_requests_at_floor(3), vec![false, false, false]);
}

#[test]
fn add_and_clear_request() {
    let mut r = RequestCollection::new(4);
    r.add_request(2, Call::Cab);
    assert!(r.cab_request_at_floor(2));
    assert!(r.has_unserved_requests());
    assert_eq!(r.get_cab_requests(), vec![false, false, true, false]);
    r.clear_request(Call::Cab, 2);
    assert!(!r.cab_request_at_floor(2));
    assert!(!r.has_unserved_requests());
}

#[test]
fn should_stop_on_cab_call_here() {
    let r = collection_with(4, &[(1, Call::Cab), (3, Call::HallDown)]);
    assert!(r.should_stop(1, Direction::Up));
}

#[test]
fn should_stop_on_hall_call_in_direction() {
    let r = collection_with(4, &[(1, Call::HallUp), (3, Call::Cab)]);
    assert!(r.should_stop(1, Direction::Up));
    // nothing lies below floor 1, so a car going down stops there too
    assert!(r.should_stop(1, Direction::Down));
}

#[test]
fn should_not_stop_for_hall_call_against_direction_with_work_ahead() {
    let r = collection_with(4, &[(1, Call::HallDown), (3, Call::Cab)]);
    assert!(!r.should_stop(1, Direction::Up));
}

#[test]
fn should_stop_when_nothing_lies_beyond() {
    let r = collection_with(4, &[(0, Call::Cab)]);
    assert!(r.should_stop(2, Direction::Up));
    assert!(!r.should_stop(2, Direction::Down));
}

#[test]
fn further_requests_strictly_beyond() {
    let r = collection_with(4, &[(2, Call::HallUp)]);
    assert!(r.further_requests_in_direction(1, Direction::Up));
    assert!(!r.further_requests_in_direction(2, Direction::Up));
    assert!(!r.further_requests_in_direction(2, Direction::Down));
    assert!(r.further_requests_in_direction(3, Direction::Down));
}

#[test]
fn next_direction_prefers_current_direction() {
    let r = collection_with(4, &[(0, Call::Cab), (3, Call::Cab)]);
    assert_eq!(r.next_direction(1, Direction::Up), Some(Direction::Up));
    assert_eq!(r.next_direction(1, Direction::Down), Some(Direction::Down));
}

#[test]
fn next_direction_turns_when_nothing_ahead() {
    let r = collection_with(4, &[(0, Call::HallUp)]);
    assert_eq!(r.next_direction(2, Direction::Up), Some(Direction::Down));
}

#[test]
fn next_direction_none_when_only_this_floor_or_empty() {
    let r = collection_with(4, &[(2, Call::HallDown)]);
    assert_eq!(r.next_direction(2, Direction::Up), None);
    let empty = RequestCollection::new(4);
    assert_eq!(empty.next_direction(0, Direction::Down), None);
}

#[test]
fn update_hall_requests_keeps_cab_column() {
    let mut r = collection_with(3, &[(0, Call::Cab), (1, Call::HallUp)]);
    r.update_hall_requests(vec![vec![false, true], vec![false, false], vec![true, false]]);
    assert_eq!(r.get_requests_at_floor(0), vec![false, true, true]);
    assert_eq!(r.get_requests_at_floor(1), vec![false, false, false]);
    assert_eq!(r.get_requests_at_floor(2), vec![true, false, false]);
}

#[test]
fn requests_in_direction_at_this_floor_picks_hall_column() {
    let r = collection_with(4, &[(1, Call::HallDown)]);
    assert!(r.requests_in_direction_at_this_floor(1, Direction::Down));
    assert!(!r.requests_in_direction_at_this_floor(1, Direction::Up));
}

#[test]
fn requests_matrix_operations() {
    let mut r = Requests::new(4);
    assert_eq!(r.num_floors(), 4);
    r.add_order(3, Call::Cab);
    r.add_order(0, Call::HallUp);
    assert!(r.cab_request_at_floor(3));
    assert_eq!(r.get_cab_requests(), vec![false, false, false, true]);
    assert!(r.requests_in_direction_at_this_floor(0, Direction::Up));
    assert!(r.further_requests_in_direction(1, Direction::Up));
    assert_eq!(r.next_direction(1, Direction::Up), Some(Direction::Up));
    assert!(!r.should_stop(1, Direction::Up));
    r.clear_cab_request(3);
    assert_eq!(r.next_direction(1, Direction::Up), Some(Direction::Down));
    r.update_hall_requests(vec![vec![false, false]; 4]);
    assert_eq!(r.next_direction(1, Direction::Up), None);
    assert_eq!(r.get_requests_at_floor(0), vec![false, false, false]);
}
