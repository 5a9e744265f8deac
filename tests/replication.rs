use elevator_fleet::call::Call;
use elevator_fleet::direction::Direction;
use elevator_fleet::elevator_status::{Behaviour, ElevatorStatus, FsmAction};
use elevator_fleet::replication::{Standby, StandbyAction, StandbyEvent, GRACE_PERIOD_MS};

#[test]
fn standby_adopts_last_snapshot_after_grace_period() {
    let mut standby = Standby::new(ElevatorStatus::new(4), 0);
    let mut snapshot = ElevatorStatus::new(4);
    snapshot.behaviour = Behaviour::DoorOpen;
    snapshot.floor = 2;
    snapshot.direction = Direction::Up;
    snapshot.requests.add_request(3, Call::Cab);
    snapshot.requests.add_request(1, Call::HallDown);
    let t0 = 10_000;
    assert_eq!(standby.on_event(StandbyEvent::Snapshot(snapshot), t0), StandbyAction::KeepListening);
    assert_eq!(standby.on_event(StandbyEvent::Silence, t0 + GRACE_PERIOD_MS - 1), StandbyAction::KeepListening);
    assert_eq!(standby.on_event(StandbyEvent::Silence, t0 + GRACE_PERIOD_MS), StandbyAction::TakeOver);
    let adopted = standby.take_over();
    assert_eq!(adopted.floor, 2);
    assert_eq!(adopted.behaviour, Behaviour::DoorOpen);
    assert_eq!(adopted.direction, Direction::Up);
    for f in 0..4 {
        let expected = match f {
            1 => vec![false, true, false],
            3 => vec![false, false, true],
            _ => vec![false, false, false],
        };
        assert_eq!(adopted.requests.get_requests_at_floor(f), expected);
    }
    assert_eq!(adopted.resume_action(), FsmAction::OpenDoor);
}

#[test]
fn standby_without_snapshot_adopts_default() {
    let mut standby = Standby::new(vec![vec![false, false]; 4], 500);
    assert_eq!(standby.on_event(StandbyEvent::Silence, 1_000), StandbyAction::KeepListening);
    assert_eq!(standby.on_event(StandbyEvent::Silence, 2_500), StandbyAction::TakeOver);
    assert_eq!(standby.take_over(), vec![vec![false, false]; 4]);
}

#[test]
fn each_snapshot_restarts_grace_period() {
    let mut standby = Standby::new(0u32, 0);
    assert_eq!(standby.on_event(StandbyEvent::Snapshot(1), 1_500), StandbyAction::KeepListening);
    assert_eq!(standby.on_event(StandbyEvent::Snapshot(2), 3_000), StandbyAction::KeepListening);
    assert_eq!(standby.on_event(StandbyEvent::Silence, 4_000), StandbyAction::KeepListening);
    assert_eq!(standby.on_event(StandbyEvent::Silence, 5_000), StandbyAction::TakeOver);
    assert_eq!(standby.take_over(), 2);
}
