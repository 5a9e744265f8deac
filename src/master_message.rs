//! What a car reads from the coordinator's order broadcast.
use vstd::prelude::*;

use crate::ledger::{at, matrix_shape};
use crate::ledger;

verus! {

/// Cell (`f`, `c`) of `m`; a cell outside the matrix is clear.
pub open spec fn cell(m: Seq<Vec<bool>>, f: int, c: int) -> bool {
    0 <= f < m.len() && 0 <= c < m[f]@.len() && m[f]@[c]
}

/// Some car is assigned hall call `c` at floor `f`.
pub open spec fn assigned_to_any(msg: Seq<(String, Vec<Vec<bool>>)>, f: int, c: int) -> bool {
    exists|k: int| 0 <= k < msg.len() && #[trigger] cell(msg[k].1@, f, c)
}

/// Entry `k` is the first one of `msg` for car `id`.
pub open spec fn first_entry_of(msg: Seq<(String, Vec<Vec<bool>>)>, id: Seq<char>, k: int) -> bool {
    &&& 0 <= k < msg.len()
    &&& msg[k].0@ == id
    &&& forall|j: int| 0 <= j < k ==> (#[trigger] msg[j]).0@ != id
}

/// Car `id` is assigned hall call `c` at floor `f`; a car that the
/// coordinator does not list is assigned nothing.
pub open spec fn assigned_to(msg: Seq<(String, Vec<Vec<bool>>)>, id: Seq<char>, f: int, c: int) -> bool {
    exists|k: int| first_entry_of(msg, id, k) && #[trigger] cell(msg[k].1@, f, c)
}

#[derive(Clone, Debug)]
pub struct MasterMessage {
    /// The hall calls assigned to this car.
    pub our_hall_requests: Vec<Vec<bool>>,
    /// The hall calls assigned to any car: the lamps to light.
    pub all_hall_requests: Vec<Vec<bool>>,
}

/// Cell (`f`, `c`) of `m`.
fn cell_of(m: &Vec<Vec<bool>>, f: usize, c: usize) -> (r: bool)
    ensures
        r == cell(m@, f as int, c as int),
{
    f < m.len() && c < m[f].len() && m[f][c]
}

/// Whether any entry of `message` assigns hall call `c` at floor `f`.
fn any_assigned(message: &Vec<(String, Vec<Vec<bool>>)>, f: usize, c: usize) -> (r: bool)
    ensures
        r == assigned_to_any(message@, f as int, c as int),
{
    let mut k: usize = 0;
    while k < message.len()
        invariant
            k <= message@.len(),
            forall|j: int| 0 <= j < k ==> !#[trigger] cell(message@[j].1@, f as int, c as int),
        decreases message@.len() - k,
    {
        if cell_of(&message[k].1, f, c) {
            return true;
        }
        k = k + 1;
    }
    false
}

impl MasterMessage {
    /// Reads the coordinator's orders, one hall matrix per car id: the hall
    /// calls of car `id`, and the hall calls of all cars together, each as
    /// `num_floors` rows of two columns.
    pub fn parse(message: Vec<(String, Vec<Vec<bool>>)>, num_floors: u8, id: String) -> (r: Self)
        ensures
            matrix_shape(r.all_hall_requests@, num_floors as int, 2),
            matrix_shape(r.our_hall_requests@, num_floors as int, 2),
            forall|f: int, c: int|
                0 <= f < num_floors && 0 <= c < 2 ==> #[trigger] at(r.all_hall_requests@, f, c)
                    == assigned_to_any(message@, f, c),
            forall|f: int, c: int|
                0 <= f < num_floors && 0 <= c < 2 ==> #[trigger] at(r.our_hall_requests@, f, c)
                    == assigned_to(message@, id@, f, c),
    {
        let mut found: Option<usize> = None;
        let mut k: usize = 0;
        while k < message.len()
            invariant
                k <= message@.len(),
                found.is_none() ==> forall|j: int| 0 <= j < k ==> (#[trigger] message@[j]).0@ != id@,
                found.is_some() ==> first_entry_of(message@, id@, found.unwrap() as int),
            decreases message@.len() - k,
        {
            if found.is_none() && message[k].0 == id {
                found = Some(k);
            }
            k = k + 1;
        }
        let mut all_hall_requests: Vec<Vec<bool>> = Vec::new();
        let mut our_hall_requests: Vec<Vec<bool>> = Vec::new();
        let mut f: u8 = 0;
        while f < num_floors
            invariant
                f <= num_floors,
                matrix_shape(all_hall_requests@, f as int, 2),
                matrix_shape(our_hall_requests@, f as int, 2),
                found.is_none() ==> forall|j: int| 0 <= j < message@.len() ==> (#[trigger] message@[j]).0@ != id@,
                found.is_some() ==> first_entry_of(message@, id@, found.unwrap() as int),
                forall|g: int, c: int|
                    0 <= g < f && 0 <= c < 2 ==> #[trigger] at(all_hall_requests@, g, c)
                        == assigned_to_any(message@, g, c),
                forall|g: int, c: int|
                    0 <= g < f && 0 <= c < 2 ==> #[trigger] at(our_hall_requests@, g, c)
                        == assigned_to(message@, id@, g, c),
            decreases num_floors - f,
        {
            let up = any_assigned(&message, f as usize, 0);
            let down = any_assigned(&message, f as usize, 1);
            let (our_up, our_down) = match found {
                Some(j) => (cell_of(&message[j].1, f as usize, 0), cell_of(&message[j].1, f as usize, 1)),
                None => (false, false),
            };
            proof {
                assert forall|c: int| 0 <= c < 2 implies (if c == 0 { our_up } else { our_down })
                    == assigned_to(message@, id@, f as int, c) by {
                    match found {
                        Some(j) => {
                            if assigned_to(message@, id@, f as int, c) {
                                let k = choose|k: int|
                                    first_entry_of(message@, id@, k) && #[trigger] cell(
                                        message@[k].1@,
                                        f as int,
                                        c,
                                    );
                                if k < j {
                                    assert(message@[k].0@ != id@);
                                } else if k > j {
                                    assert(message@[j as int].0@ != id@);
                                }
                            }
                        },
                        None => {},
                    }
                }
            }
            let ghost all_prev = all_hall_requests@;
            let ghost our_prev = our_hall_requests@;
            all_hall_requests.push(vec![up, down]);
            our_hall_requests.push(vec![our_up, our_down]);
            proof {
                assert forall|g: int, c: int| 0 <= g < f + 1 && 0 <= c < 2 implies #[trigger] at(
                    all_hall_requests@,
                    g,
                    c,
                ) == assigned_to_any(message@, g, c) by {
                    if g < f {
                        assert(all_hall_requests@[g] == all_prev[g]);
                        assert(at(all_prev, g, c) == assigned_to_any(message@, g, c));
                    }
                }
                assert forall|g: int, c: int| 0 <= g < f + 1 && 0 <= c < 2 implies #[trigger] at(
                    our_hall_requests@,
                    g,
                    c,
                ) == assigned_to(message@, id@, g, c) by {
                    if g < f {
                        assert(our_hall_requests@[g] == our_prev[g]);
                        assert(at(our_prev, g, c) == assigned_to(message@, id@, g, c));
                    }
                }
            }
            f = f + 1;
        }
        MasterMessage { our_hall_requests, all_hall_requests }
    }
}

/// A car that has heard nothing from the coordinator for this long (ms)
/// serves the hall calls itself.
pub const MASTER_TIMEOUT_MS: u64 = 3000;

/// What a car knows of the coordinator: when it was last heard (ms), whether
/// it counts as present, and the hall calls of all cars it last sent.
#[derive(Debug)]
pub struct CoordinatorLink {
    pub last_seen: u64,
    pub connected: bool,
    pub all_hall_requests: Vec<Vec<bool>>,
}

/// The coordinator is gone at `now`: it was present and has been silent too long.
pub open spec fn went_silent(link: CoordinatorLink, now: u64) -> bool {
    link.connected && now > link.last_seen && now - link.last_seen > MASTER_TIMEOUT_MS
}

impl CoordinatorLink {
    /// A link that has heard nothing yet, knowing no hall call.
    pub fn new(num_floors: u8) -> (r: Self)
        ensures
            !r.connected,
            matrix_shape(r.all_hall_requests@, num_floors as int, 2),
            forall|f: int, c: int| 0 <= f < num_floors && 0 <= c < 2 ==> !#[trigger] at(r.all_hall_requests@, f, c),
    {
        CoordinatorLink { last_seen: 0, connected: false, all_hall_requests: ledger::empty_matrix(num_floors, 2) }
    }

    /// Orders with these hall calls of all cars arrived at `now`.
    pub fn on_orders(&mut self, all_hall_requests: Vec<Vec<bool>>, now: u64)
        ensures
            final(self).connected,
            final(self).last_seen == now,
            final(self).all_hall_requests == all_hall_requests,
    {
        self.all_hall_requests = all_hall_requests;
        self.last_seen = now;
        self.connected = true;
    }

    /// A turn of the car's loop at `now`: when the coordinator has just gone
    /// silent, the link drops and hands out every hall call the car knows of,
    /// for the car to serve itself; otherwise nothing changes.
    pub fn on_tick(&mut self, now: u64) -> (r: Option<Vec<Vec<bool>>>)
        ensures
            went_silent(*old(self), now) ==> {
                &&& r.is_some()
                &&& r.unwrap()@.len() == old(self).all_hall_requests@.len()
                &&& forall|f: int|
                    0 <= f < r.unwrap()@.len() ==> #[trigger] r.unwrap()@[f]@ == old(self).all_hall_requests@[f]@
                &&& !final(self).connected
                &&& final(self).last_seen == old(self).last_seen
                &&& final(self).all_hall_requests == old(self).all_hall_requests
            },
            !went_silent(*old(self), now) ==> r.is_none() && *final(self) == *old(self),
    {
        if self.connected && now > self.last_seen && now - self.last_seen > MASTER_TIMEOUT_MS {
            self.connected = false;
            Some(ledger::copy_matrix(&self.all_hall_requests))
        } else {
            None
        }
    }
}

} // verus!
