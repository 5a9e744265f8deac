//! An undisturbed run of one car: no new calls arrive, the car reaches each
//! next floor while moving, and each open door closes. Every such run ends.
use vstd::prelude::*;

use crate::direction::Direction;
use crate::elevator_status::{Behaviour, ElevatorStatus, FsmAction, served_column, served_matrix};
use crate::ledger::{at, beyond, floor_has_request, further_requests, stop_here};

verus! {

/// The floor a car moving in `d` from `f` reaches next.
pub open spec fn next_floor(f: u8, d: Direction) -> int {
    if d == Direction::Up {
        f + 1
    } else {
        f - 1
    }
}

/// One event of an undisturbed run, as the state machine's contracts state
/// it: a moving car reaches the next floor, or an open door closes.
pub open spec fn run_step(a: ElevatorStatus, b: ElevatorStatus) -> bool {
    &&& a.wf()
    &&& {
        ||| (a.behaviour == Behaviour::Moving && 0 <= next_floor(a.floor, a.direction) < a.floors()
            && exists|r: FsmAction| #[trigger] b.arrived_from(a, next_floor(a.floor, a.direction) as u8, r))
        ||| (a.behaviour == Behaviour::DoorOpen && exists|r: FsmAction| #[trigger] b.settled_from(a, r))
    }
}

pub open spec fn bit(b: bool) -> int {
    if b {
        1
    } else {
        0
    }
}

/// The number of calls requested at floor `f`.
pub open spec fn row_cells(m: Seq<Vec<bool>>, f: int) -> int {
    bit(at(m, f, 0)) + bit(at(m, f, 1)) + bit(at(m, f, 2))
}

/// The number of calls requested on the floors below `k`.
pub open spec fn cells(m: Seq<Vec<bool>>, k: int) -> int
    decreases k,
{
    if k <= 0 {
        0
    } else {
        cells(m, k - 1) + row_cells(m, k - 1)
    }
}

/// How far a car is from its next event that changes the plan: the floors
/// left to travel while work lies ahead, more while it must still stop
/// without work, and one step for an open door.
pub open spec fn phase(s: ElevatorStatus) -> int {
    let n = s.floors();
    if s.behaviour == Behaviour::Moving {
        if further_requests(s.matrix(), n, s.floor as int, s.direction) {
            if s.direction == Direction::Up {
                n - s.floor
            } else {
                s.floor + 1
            }
        } else {
            n + 2
        }
    } else if s.behaviour == Behaviour::DoorOpen {
        n + 1
    } else {
        0
    }
}

/// A measure that every event of an undisturbed run lowers.
pub open spec fn potential(s: ElevatorStatus) -> int {
    (s.floors() + 3) * cells(s.matrix(), s.floors()) + phase(s)
}

/// The longest an undisturbed run of a car in a building of `n` floors can be.
pub open spec fn run_bound(n: int) -> int {
    (n + 3) * (3 * n) + n + 3
}

proof fn lemma_cells_range(m: Seq<Vec<bool>>, k: int)
    requires
        k >= 0,
    ensures
        0 <= cells(m, k) <= 3 * k,
    decreases k,
{
    if k > 0 {
        lemma_cells_range(m, k - 1);
    }
}

proof fn lemma_scaled_drop(k: int, c_b: int, c_a: int)
    requires
        0 <= c_b < c_a,
        k > 0,
    ensures
        k * c_b + k <= k * c_a,
{
    assert(k * (c_b + 1) <= k * c_a) by (nonlinear_arith)
        requires
            c_b + 1 <= c_a,
            k > 0,
    ;
    assert(k * (c_b + 1) == k * c_b + k) by (nonlinear_arith);
}

proof fn lemma_scaled_le(k: int, c_b: int, c_a: int)
    requires
        c_b <= c_a,
        k > 0,
    ensures
        k * c_b <= k * c_a,
{
    assert(k * c_b <= k * c_a) by (nonlinear_arith)
        requires
            c_b <= c_a,
            k > 0,
    ;
}

/// Serving never adds a call, and removes one when a served column was set.
proof fn lemma_serving_lowers_cells(
    old: Seq<Vec<bool>>,
    new: Seq<Vec<bool>>,
    n: int,
    floor: int,
    d: Direction,
    k: int,
)
    requires
        served_matrix(old, new, n, floor, d),
        0 <= floor < n,
        0 <= k <= n,
    ensures
        cells(new, k) <= cells(old, k),
        floor < k && (exists|c: int| 0 <= c < 3 && served_column(old, n, floor, d, c) && #[trigger] at(old, floor, c))
            ==> cells(new, k) < cells(old, k),
    decreases k,
{
    if k > 0 {
        lemma_serving_lowers_cells(old, new, n, floor, d, k - 1);
        let f = k - 1;
        assert(at(new, f, 0) ==> at(old, f, 0));
        assert(at(new, f, 1) ==> at(old, f, 1));
        assert(at(new, f, 2) ==> at(old, f, 2));
        if f == floor && (exists|c: int| 0 <= c < 3 && served_column(old, n, floor, d, c) && #[trigger] at(old, floor, c)) {
            let c = choose|c: int| 0 <= c < 3 && served_column(old, n, floor, d, c) && #[trigger] at(old, floor, c);
            assert(!at(new, floor, c));
        }
    }
}

/// Serving at a floor where the stopping rule holds and some call waits
/// removes at least one call.
proof fn lemma_stop_with_work_serves_a_call(m: Seq<Vec<bool>>, n: int, floor: int, d: Direction)
    requires
        0 <= floor < n,
        stop_here(m, n, floor, d),
        floor_has_request(m, floor),
    ensures
        exists|c: int| 0 <= c < 3 && served_column(m, n, floor, d, c) && #[trigger] at(m, floor, c),
{
    if at(m, floor, 2) {
        assert(served_column(m, n, floor, d, 2));
    } else if at(m, floor, crate::direction::hall_call_of(d).index()) {
        assert(served_column(m, n, floor, d, crate::direction::hall_call_of(d).index()));
    } else {
        assert(!further_requests(m, n, floor, d));
        assert(served_column(m, n, floor, d, 0));
        assert(served_column(m, n, floor, d, 1));
    }
}

/// Each event of an undisturbed run lowers the potential and keeps the building.
pub proof fn lemma_run_step_lowers_potential(a: ElevatorStatus, b: ElevatorStatus)
    requires
        run_step(a, b),
    ensures
        potential(b) < potential(a),
        b.floors() == a.floors(),
        b.wf(),
{
    let n = a.floors();
    let m = a.matrix();
    let k = n + 3;
    lemma_cells_range(m, n);
    lemma_cells_range(b.matrix(), n);
    let c_a = cells(m, n);
    if a.behaviour == Behaviour::Moving && 0 <= next_floor(a.floor, a.direction) < n && exists|r: FsmAction|
        #[trigger] b.arrived_from(a, next_floor(a.floor, a.direction) as u8, r) {
        let nf = next_floor(a.floor, a.direction);
        let r = choose|r: FsmAction| #[trigger] b.arrived_from(a, nf as u8, r);
        let d = a.direction;
        a.requests.lemma_floors_fit();
        assert((nf as u8) as int == nf);
        if stop_here(m, n, nf, d) {
            lemma_serving_lowers_cells(m, b.matrix(), n, nf, d, n);
            if further_requests(m, n, a.floor as int, d) {
                let g = choose|g: int| beyond(n, a.floor as int, d, g) && #[trigger] floor_has_request(m, g);
                if !further_requests(m, n, nf, d) {
                    if g != nf {
                        assert(beyond(n, nf, d, g));
                    }
                }
                lemma_stop_with_work_serves_a_call(m, n, nf, d);
                lemma_scaled_drop(k, cells(b.matrix(), n), c_a);
            } else {
                lemma_scaled_le(k, cells(b.matrix(), n), c_a);
            }
        } else {
            assert(further_requests(m, n, nf, d));
            let g = choose|g: int| beyond(n, nf, d, g) && #[trigger] floor_has_request(m, g);
            assert(beyond(n, a.floor as int, d, g));
            assert(further_requests(m, n, a.floor as int, d));
        }
    } else {
        let r = choose|r: FsmAction| #[trigger] b.settled_from(a, r);
        if b.behaviour == Behaviour::DoorOpen {
            let d = b.direction;
            lemma_stop_with_work_serves_a_call(m, n, a.floor as int, d);
            lemma_serving_lowers_cells(m, b.matrix(), n, a.floor as int, d, n);
            lemma_scaled_drop(k, cells(b.matrix(), n), c_a);
        }
    }
}

proof fn lemma_potential_falls_along(run: Seq<ElevatorStatus>, i: int)
    requires
        0 <= i < run.len(),
        run[0].wf(),
        forall|j: int| 0 <= j < run.len() - 1 ==> run_step(#[trigger] run[j], run[j + 1]),
    ensures
        run[i].floors() == run[0].floors(),
        run[i].wf(),
        potential(run[i]) <= potential(run[0]) - i,
    decreases i,
{
    if i > 0 {
        lemma_potential_falls_along(run, i - 1);
        lemma_run_step_lowers_potential(run[i - 1], run[i]);
    }
}

/// An undisturbed run of a car ends: a run of events in a building of `n`
/// floors has at most `run_bound(n)` states.
pub proof fn lemma_undisturbed_run_ends(run: Seq<ElevatorStatus>)
    requires
        run.len() > 0,
        run[0].wf(),
        forall|i: int| 0 <= i < run.len() - 1 ==> run_step(#[trigger] run[i], run[i + 1]),
    ensures
        run.len() <= run_bound(run[0].floors()),
{
    let n = run[0].floors();
    lemma_potential_falls_along(run, run.len() - 1);
    let last = run[run.len() - 1];
    lemma_cells_range(last.matrix(), n);
    lemma_cells_range(run[0].matrix(), n);
    let c_last = cells(last.matrix(), n);
    let c_first = cells(run[0].matrix(), n);
    assert((n + 3) * c_last >= 0) by (nonlinear_arith)
        requires
            c_last >= 0,
            n >= 0,
    ;
    assert((n + 3) * c_first <= (n + 3) * (3 * n)) by (nonlinear_arith)
        requires
            c_first <= 3 * n,
            n >= 0,
    ;
}

/// In one event a call is cleared only where the car then stands with its
/// door open; no call is ever added.
pub proof fn lemma_run_step_clears_only_at_open_door(a: ElevatorStatus, b: ElevatorStatus, f: int, c: int)
    requires
        run_step(a, b),
        0 <= f < a.floors(),
        0 <= c < 3,
    ensures
        at(b.matrix(), f, c) ==> at(a.matrix(), f, c),
        at(a.matrix(), f, c) && !at(b.matrix(), f, c) ==> b.floor == f && b.behaviour == Behaviour::DoorOpen,
{
    let n = a.floors();
    if a.behaviour == Behaviour::Moving && 0 <= next_floor(a.floor, a.direction) < n && exists|r: FsmAction|
        #[trigger] b.arrived_from(a, next_floor(a.floor, a.direction) as u8, r) {
        let nf = next_floor(a.floor, a.direction);
        let r = choose|r: FsmAction| #[trigger] b.arrived_from(a, nf as u8, r);
        a.requests.lemma_floors_fit();
        assert((nf as u8) as int == nf);
        if stop_here(a.matrix(), n, nf, a.direction) {
            assert(at(b.matrix(), f, c) == (if f == nf && served_column(a.matrix(), n, nf, a.direction, c) {
                false
            } else {
                at(a.matrix(), f, c)
            }));
        }
    } else {
        let r = choose|r: FsmAction| #[trigger] b.settled_from(a, r);
        if b.behaviour == Behaviour::DoorOpen {
            assert(at(b.matrix(), f, c) == (if f == a.floor && served_column(a.matrix(), n, a.floor as int, b.direction, c) {
                false
            } else {
                at(a.matrix(), f, c)
            }));
        }
    }
}

/// Along an undisturbed run, a call requested at the start and gone by state
/// `j` was served at an earlier event: one after which the car stood at that
/// call's floor with its door open. With `lemma_undisturbed_run_ends` and
/// `lemma_rests_only_when_all_served`, a run that comes to rest has opened its
/// door at every requested floor.
pub proof fn lemma_run_visits_cleared_floors(run: Seq<ElevatorStatus>, j: int, f: int, c: int)
    requires
        0 <= j < run.len(),
        run[0].wf(),
        forall|i: int| 0 <= i < run.len() - 1 ==> run_step(#[trigger] run[i], run[i + 1]),
        0 <= f < run[0].floors(),
        0 <= c < 3,
        at(run[0].matrix(), f, c),
        !at(run[j].matrix(), f, c),
    ensures
        exists|i: int| 0 < i <= j && (#[trigger] run[i]).floor == f && run[i].behaviour == Behaviour::DoorOpen,
    decreases j,
{
    lemma_potential_falls_along(run, j - 1);
    lemma_run_step_clears_only_at_open_door(run[j - 1], run[j], f, c);
    if at(run[j - 1].matrix(), f, c) {
        assert(run[j].floor == f && run[j].behaviour == Behaviour::DoorOpen);
    } else {
        lemma_run_visits_cleared_floors(run, j - 1, f, c);
        let i = choose|i: int| 0 < i <= j - 1 && (#[trigger] run[i]).floor == f && run[i].behaviour == Behaviour::DoorOpen;
        assert(0 < i <= j);
    }
}

} // verus!
