use elevator_fleet::call::Call;
use elevator_fleet::request::Request;
use elevator_fleet::request_buffer::{request_shown, RequestBuffer};

fn req(floor: u8, call: Call) -> Request {
    Request { floor, call }
}

fn hall_matrix(num_floors: usize, set: &[(usize, usize)]) -> Vec<Vec<bool>> {
    let mut m = vec![vec![false, false]; num_floors];
    for (f, c) in set {
        m[*f][*c] = true;
    }
    m
}

#[test]
fn new_buffer_is_empty() {
    let b = RequestBuffer::new(5);
    assert!(b.get_new_requests().is_empty());
    assert!(b.get_served_requests().is_empty());
}

#[test]
fn inserted_requests_are_reported_in_order_with_duplicates() {
    let mut b = RequestBuffer::new(5);
    b.insert_new_request(req(1, Call::HallUp), 0);
    b.insert_new_request(req(3, Call::HallDown), 10);
    b.insert_new_request(req(1, Call::HallUp), 20);
    b.insert_served_request(req(2, Call::HallDown), 30);
    assert_eq!(
        b.get_new_requests(),
        vec![req(1, Call::HallUp), req(3, Call::HallDown), req(1, Call::HallUp)]
    );
    assert_eq!(b.get_served_requests(), vec![req(2, Call::HallDown)]);
}

#[test]
fn confirmation_drops_new_requests_the_matrix_shows() {
    let mut b = RequestBuffer::new(5);
    b.insert_new_request(req(1, Call::HallUp), 0);
    b.insert_new_request(req(3, Call::HallDown), 0);
    b.insert_new_request(req(1, Call::HallUp), 5);
    b.remove_confirmed_requests(&hall_matrix(4, &[(1, 0)]));
    assert_eq!(b.get_new_requests(), vec![req(3, Call::HallDown)]);
}

#[test]
fn confirmation_drops_served_requests_the_matrix_no_longer_shows() {
    let mut b = RequestBuffer::new(5);
    b.insert_served_request(req(0, Call::HallUp), 0);
    b.insert_served_request(req(2, Call::HallDown), 0);
    b.remove_confirmed_requests(&hall_matrix(4, &[(2, 1)]));
    assert_eq!(b.get_served_requests(), vec![req(2, Call::HallDown)]);
}

#[test]
fn confirmed_request_stays_gone_until_reinserted() {
    let mut b = RequestBuffer::new(5);
    b.insert_new_request(req(2, Call::HallUp), 0);
    b.remove_confirmed_requests(&hall_matrix(4, &[(2, 0)]));
    assert!(!b.get_new_requests().contains(&req(2, Call::HallUp)));
    b.insert_new_request(req(1, Call::HallDown), 100);
    b.remove_confirmed_requests(&hall_matrix(4, &[]));
    b.remove_timed_out_orders(200);
    assert!(!b.get_new_requests().contains(&req(2, Call::HallUp)));
    b.insert_new_request(req(2, Call::HallUp), 300);
    assert!(b.get_new_requests().contains(&req(2, Call::HallUp)));
}

#[test]
fn new_and_served_are_disjoint_after_confirmation() {
    let mut b = RequestBuffer::new(5);
    b.insert_new_request(req(1, Call::HallUp), 0);
    b.insert_served_request(req(1, Call::HallUp), 0);
    b.insert_new_request(req(2, Call::HallDown), 0);
    b.insert_served_request(req(2, Call::HallDown), 0);
    b.remove_confirmed_requests(&hall_matrix(4, &[(1, 0)]));
    let new = b.get_new_requests();
    let served = b.get_served_requests();
    assert_eq!(new, vec![req(2, Call::HallDown)]);
    assert_eq!(served, vec![req(1, Call::HallUp)]);
    for r in &new {
        assert!(!served.contains(r));
    }
}

#[test]
fn cell_outside_matrix_counts_as_absent() {
    let m = hall_matrix(2, &[(1, 1)]);
    assert!(request_shown(&m, req(1, Call::HallDown)));
    assert!(!request_shown(&m, req(5, Call::HallDown)));
    assert!(!request_shown(&m, req(1, Call::Cab)));
    let mut b = RequestBuffer::new(5);
    b.insert_new_request(req(7, Call::HallUp), 0);
    b.insert_served_request(req(7, Call::HallUp), 0);
    b.remove_confirmed_requests(&m);
    assert_eq!(b.get_new_requests(), vec![req(7, Call::HallUp)]);
    assert!(b.get_served_requests().is_empty());
}

#[test]
fn timed_out_entries_are_dropped() {
    let mut b = RequestBuffer::new(2);
    b.insert_new_request(req(0, Call::HallUp), 1_000);
    b.insert_new_request(req(1, Call::HallUp), 2_500);
    b.insert_served_request(req(3, Call::HallDown), 1_000);
    b.remove_timed_out_orders(3_000);
    assert_eq!(b.get_new_requests().len(), 2);
    b.remove_timed_out_orders(3_001);
    assert_eq!(b.get_new_requests(), vec![req(1, Call::HallUp)]);
    assert!(b.get_served_requests().is_empty());
}

#[test]
fn timeout_with_clock_behind_keeps_entries() {
    let mut b = RequestBuffer::new(0);
    b.insert_new_request(req(0, Call::HallUp), 5_000);
    b.remove_timed_out_orders(4_000);
    assert_eq!(b.get_new_requests(), vec![req(0, Call::HallUp)]);
    b.remove_timed_out_orders(5_001);
    assert!(b.get_new_requests().is_empty());
}

#[test]
fn huge_timeout_does_not_overflow() {
    let mut b = RequestBuffer::new(u64::MAX);
    b.insert_new_request(req(0, Call::HallUp), 0);
    b.remove_timed_out_orders(u64::MAX);
    assert_eq!(b.get_new_requests(), vec![req(0, Call::HallUp)]);
}
