//! The coordinator's bookkeeping: which cars are connected, which of them may
//! take new hall calls, and the fleet-wide hall request matrix.
use vstd::prelude::*;

use crate::call::Call;
use crate::direction::{Direction, direction_from_name};
use crate::elevator_message::ElevatorMessage;
use crate::elevator_status::{Behaviour, behaviour_from_name};
use crate::ledger::{at, matrix_shape};
use crate::ledger;
use crate::request::Request;

verus! {

/// A car that has sent nothing for this long (ms) is dropped.
pub const SLAVE_TIMEOUT_MS: u64 = 4000;

/// A car whose state has not moved on for this long (ms) gets no new hall calls.
pub const AVAILABILITY_TIMEOUT_MS: u64 = 4000;

/// What the assignment function needs to know of one car.
#[derive(Debug)]
pub struct HRAElevState {
    pub behaviour: Behaviour,
    pub floor: u8,
    pub direction: Direction,
    pub cab_requests: Vec<bool>,
}

/// The mathematical value of an `HRAElevState`.
pub struct StateModel {
    pub behaviour: Behaviour,
    pub floor: u8,
    pub direction: Direction,
    pub cab_requests: Seq<bool>,
}

impl HRAElevState {
    pub open spec fn model(&self) -> StateModel {
        StateModel {
            behaviour: self.behaviour,
            floor: self.floor,
            direction: self.direction,
            cab_requests: self.cab_requests@,
        }
    }

    pub fn duplicate(&self) -> (r: Self)
        ensures
            r.model() == self.model(),
    {
        let cab_requests = self.cab_requests.clone();
        assert(cab_requests@ =~= self.cab_requests@);
        HRAElevState {
            behaviour: self.behaviour,
            floor: self.floor,
            direction: self.direction,
            cab_requests,
        }
    }
}

/// The input of the assignment function: the hall matrix and the cars that may take calls.
#[derive(Debug)]
pub struct HRAInput {
    pub hall_requests: Vec<Vec<bool>>,
    pub states: Vec<(String, HRAElevState)>,
}

/// What the coordinator knows of one connected car; times in milliseconds.
#[derive(Debug)]
pub struct ElevatorData {
    pub state: HRAElevState,
    pub last_seen: u64,
    pub last_available: u64,
}

/// The mathematical value of one row of the connected-car table.
pub struct EntryModel {
    pub id: Seq<char>,
    pub state: StateModel,
    pub last_seen: u64,
    pub last_available: u64,
}

pub open spec fn entry_model(e: (String, ElevatorData)) -> EntryModel {
    EntryModel {
        id: e.0@,
        state: e.1.state.model(),
        last_seen: e.1.last_seen,
        last_available: e.1.last_available,
    }
}

pub open spec fn models(s: Seq<(String, ElevatorData)>) -> Seq<EntryModel> {
    s.map_values(|e: (String, ElevatorData)| entry_model(e))
}

/// Time passed from `t` to `now`; zero if `now` is not later.
pub open spec fn elapsed(now: u64, t: u64) -> int {
    if now > t {
        now - t
    } else {
        0
    }
}

/// The rows of `entries` hold distinct ids.
pub open spec fn unique_ids(entries: Seq<EntryModel>) -> bool {
    forall|i: int, j: int|
        0 <= i < entries.len() && 0 <= j < entries.len() && i != j ==> (#[trigger] entries[i]).id
            != (#[trigger] entries[j]).id
}

pub open spec fn has_id(entries: Seq<EntryModel>, id: Seq<char>) -> bool {
    exists|i: int| 0 <= i < entries.len() && (#[trigger] entries[i]).id == id
}

/// Row `i` is the first row of `entries` for car `id`.
pub open spec fn first_row(entries: Seq<EntryModel>, id: Seq<char>, i: int) -> bool {
    &&& 0 <= i < entries.len()
    &&& entries[i].id == id
    &&& forall|j: int| 0 <= j < i ==> (#[trigger] entries[j]).id != id
}

/// A car counts as available again when its behaviour changed, it is idle,
/// or it moved to another floor or direction.
pub open spec fn became_available(prev: StateModel, s: StateModel) -> bool {
    s.behaviour != prev.behaviour || s.behaviour == Behaviour::Idle || s.floor != prev.floor
        || s.direction != prev.direction
}

/// Row `prev` after a status `s` arrived at `now`.
pub open spec fn refreshed(prev: EntryModel, s: StateModel, now: u64) -> EntryModel {
    EntryModel {
        id: prev.id,
        state: s,
        last_seen: now,
        last_available: if became_available(prev.state, s) {
            now
        } else {
            prev.last_available
        },
    }
}

/// The table after car `id` reported status `s` at `now`: its row refreshed,
/// or a new row appended for a car not yet known.
pub open spec fn upserted(entries: Seq<EntryModel>, id: Seq<char>, s: StateModel, now: u64) -> Seq<
    EntryModel,
> {
    if has_id(entries, id) {
        let i = choose|i: int| first_row(entries, id, i);
        entries.update(i, refreshed(entries[i], s, now))
    } else {
        entries.push(EntryModel { id, state: s, last_seen: now, last_available: now })
    }
}

/// A row is lost when nothing came from its car for longer than the timeout.
pub open spec fn lost(e: EntryModel, now: u64) -> bool {
    elapsed(now, e.last_seen) > SLAVE_TIMEOUT_MS
}

pub open spec fn still_connected(now: u64) -> spec_fn(EntryModel) -> bool {
    |e: EntryModel| !lost(e, now)
}

/// A car may take new hall calls while its state moved on recently enough.
pub open spec fn available(now: u64) -> spec_fn(EntryModel) -> bool {
    |e: EntryModel| elapsed(now, e.last_available) < AVAILABILITY_TIMEOUT_MS
}

/// The hall call of column `c`.
pub open spec fn hall_call_at(c: int) -> Call {
    if c == 0 {
        Call::HallUp
    } else {
        Call::HallDown
    }
}

/// `rs` names hall call `c` at floor `f`.
pub open spec fn lists(rs: Seq<Request>, f: int, c: int) -> bool {
    exists|k: int| 0 <= k < rs.len() && (#[trigger] rs[k]).floor as int == f && rs[k].call == hall_call_at(c)
}

/// `new` is `old` with the calls of `asserted` set and then those of `served` cleared.
pub open spec fn merged(
    old: Seq<Vec<bool>>,
    new: Seq<Vec<bool>>,
    n: int,
    asserted: Seq<Request>,
    served: Seq<Request>,
) -> bool {
    &&& matrix_shape(new, n, 2)
    &&& forall|f: int, c: int|
        0 <= f < n && 0 <= c < 2 ==> #[trigger] at(new, f, c) == ((at(old, f, c) || lists(asserted, f, c))
            && !lists(served, f, c))
}

/// Dropping rows keeps the ids of the rest distinct.
proof fn lemma_filter_keeps_unique_ids(s: Seq<EntryModel>, pred: spec_fn(EntryModel) -> bool)
    requires
        unique_ids(s),
    ensures
        unique_ids(s.filter(pred)),
    decreases s.len(),
{
    reveal(Seq::filter);
    if s.len() > 0 {
        let rest = s.drop_last();
        assert forall|i: int, j: int|
            0 <= i < rest.len() && 0 <= j < rest.len() && i != j implies (#[trigger] rest[i]).id
            != (#[trigger] rest[j]).id by {
            assert(rest[i] == s[i] && rest[j] == s[j]);
        }
        lemma_filter_keeps_unique_ids(rest, pred);
        let kept = rest.filter(pred);
        if pred(s.last()) {
            assert forall|i: int| 0 <= i < kept.len() implies (#[trigger] kept[i]).id != s.last().id by {
                assert(kept.contains(kept[i]));
                rest.lemma_filter_contains_rev(pred, kept[i]);
                let k = choose|k: int| 0 <= k < rest.len() && rest[k] == kept[i];
                assert(s[k] == rest[k]);
                assert(s[s.len() - 1] == s.last());
            }
            let out = kept.push(s.last());
            assert forall|i: int, j: int|
                0 <= i < out.len() && 0 <= j < out.len() && i != j implies (#[trigger] out[i]).id
                != (#[trigger] out[j]).id by {
                if i < kept.len() && j < kept.len() {
                    assert(out[i] == kept[i] && out[j] == kept[j]);
                } else if i < kept.len() {
                    assert(out[i] == kept[i]);
                } else if j < kept.len() {
                    assert(out[j] == kept[j]);
                }
            }
        }
    }
}

/// Sets the hall calls named in `rs` to `value`; cab calls and calls beyond
/// the matrix are ignored.
fn mark_calls(hall: &mut Vec<Vec<bool>>, num_floors: u8, rs: &Vec<Request>, value: bool)
    requires
        matrix_shape(old(hall)@, num_floors as int, 2),
    ensures
        matrix_shape(final(hall)@, num_floors as int, 2),
        forall|f: int, c: int|
            0 <= f < num_floors && 0 <= c < 2 ==> #[trigger] at(final(hall)@, f, c) == if lists(
                rs@,
                f,
                c,
            ) {
                value
            } else {
                at(old(hall)@, f, c)
            },
{
    let mut k: usize = 0;
    while k < rs.len()
        invariant
            k <= rs@.len(),
            matrix_shape(hall@, num_floors as int, 2),
            forall|f: int, c: int|
                0 <= f < num_floors && 0 <= c < 2 ==> #[trigger] at(hall@, f, c) == if lists(
                    rs@.subrange(0, k as int),
                    f,
                    c,
                ) {
                    value
                } else {
                    at(old(hall)@, f, c)
                },
        decreases rs@.len() - k,
    {
        let r = rs[k];
        let ghost before = hall@;
        if r.floor < num_floors && r.call != Call::Cab {
            ledger::set_cell(hall, num_floors, 2, r.floor, r.call.as_index(), value);
        }
        proof {
            let prefix = rs@.subrange(0, k as int);
            let longer = rs@.subrange(0, k + 1);
            assert forall|f: int, c: int| 0 <= f < num_floors && 0 <= c < 2 implies #[trigger] lists(
                longer,
                f,
                c,
            ) == (lists(prefix, f, c) || (r.floor as int == f && r.call == hall_call_at(c))) by {
                if lists(longer, f, c) {
                    let j = choose|j: int|
                        0 <= j < longer.len() && (#[trigger] longer[j]).floor as int == f && longer[j].call
                            == hall_call_at(c);
                    if j < k {
                        assert(prefix[j] == longer[j]);
                    }
                }
                if lists(prefix, f, c) {
                    let j = choose|j: int|
                        0 <= j < prefix.len() && (#[trigger] prefix[j]).floor as int == f && prefix[j].call
                            == hall_call_at(c);
                    assert(longer[j] == prefix[j]);
                }
                if r.floor as int == f && r.call == hall_call_at(c) {
                    assert(longer[k as int] == r);
                }
            }
            assert forall|f: int, c: int| 0 <= f < num_floors && 0 <= c < 2 implies #[trigger] at(
                hall@,
                f,
                c,
            ) == if lists(longer, f, c) {
                value
            } else {
                at(old(hall)@, f, c)
            } by {
                assert(at(before, f, c) == if lists(prefix, f, c) {
                    value
                } else {
                    at(old(hall)@, f, c)
                });
            }
        }
        k = k + 1;
    }
    assert(rs@.subrange(0, rs@.len() as int) =~= rs@);
}

fn duplicate_entry(e: &(String, ElevatorData)) -> (r: (String, ElevatorData))
    ensures
        entry_model(r) == entry_model(*e),
{
    (
        e.0.clone(),
        ElevatorData {
            state: e.1.state.duplicate(),
            last_seen: e.1.last_seen,
            last_available: e.1.last_available,
        },
    )
}

/// Whether every matrix of an assignment has `num_floors` rows of two columns;
/// an assignment that fails this is discarded.
pub fn assignment_is_well_formed(output: &Vec<(String, Vec<Vec<bool>>)>, num_floors: u8) -> (r: bool)
    ensures
        r == forall|k: int| 0 <= k < output@.len() ==> matrix_shape(#[trigger] output@[k].1@, num_floors as int, 2),
{
    let mut k: usize = 0;
    while k < output.len()
        invariant
            k <= output@.len(),
            forall|j: int| 0 <= j < k ==> matrix_shape(#[trigger] output@[j].1@, num_floors as int, 2),
        decreases output@.len() - k,
    {
        let m = &output[k].1;
        if m.len() != num_floors as usize {
            assert(!matrix_shape(output@[k as int].1@, num_floors as int, 2));
            return false;
        }
        let mut f: usize = 0;
        while f < m.len()
            invariant
                f <= m@.len(),
                k < output@.len(),
                m@.len() == num_floors,
                m == output@[k as int].1,
                forall|g: int| 0 <= g < f ==> #[trigger] m@[g]@.len() == 2,
            decreases m@.len() - f,
        {
            if m[f].len() != 2 {
                assert(!matrix_shape(output@[k as int].1@, num_floors as int, 2));
                return false;
            }
            f = f + 1;
        }
        k = k + 1;
    }
    true
}

/// No two entries of `orders` name the same car.
pub open spec fn distinct_ids(orders: Seq<(String, Vec<Vec<bool>>)>) -> bool {
    forall|i: int, j: int|
        0 <= i < orders.len() && 0 <= j < orders.len() && i != j ==> (#[trigger] orders[i]).0@
            != (#[trigger] orders[j]).0@
}

/// The rows of a matrix, as sequences.
pub open spec fn rows_of(m: Seq<Vec<bool>>) -> Seq<Seq<bool>> {
    m.map_values(|row: Vec<bool>| row@)
}

/// `m` has `n` rows of `width` cells each.
pub open spec fn rows_shape(m: Seq<Seq<bool>>, n: int, width: int) -> bool {
    &&& m.len() == n
    &&& forall|f: int| 0 <= f < n ==> #[trigger] m[f].len() == width
}

/// The map from car id to hall matrix that a JSON text holds, if it is such
/// an object; a key repeated in the text holds its last value.
pub uninterp spec fn json_orders_of(text: Seq<char>) -> Option<Map<Seq<char>, Seq<Seq<bool>>>>;

/// `orders` lists exactly the entries of `map`, each id once.
pub open spec fn lists_exactly(
    orders: Seq<(String, Vec<Vec<bool>>)>,
    map: Map<Seq<char>, Seq<Seq<bool>>>,
) -> bool {
    &&& distinct_ids(orders)
    &&& forall|k: int|
        0 <= k < orders.len() ==> map.contains_key((#[trigger] orders[k]).0@) && map[orders[k].0@]
            == rows_of(orders[k].1@)
    &&& forall|id: Seq<char>|
        #[trigger] map.contains_key(id) ==> exists|k: int| 0 <= k < orders.len() && (#[trigger] orders[k]).0@ == id
}

/// Every matrix of `map` has `n` rows of two cells.
pub open spec fn all_shaped(map: Map<Seq<char>, Seq<Seq<bool>>>, n: int) -> bool {
    forall|id: Seq<char>| #[trigger] map.contains_key(id) ==> rows_shape(map[id], n, 2)
}

/// Relies on serde_json::from_str to read a JSON object from car id to hall
/// matrix into a `HashMap`; the entries handed out are those of the map, each
/// key once, in the order of the map's walk. `None` when the text is not such
/// an object.
#[verifier::external_body]
fn orders_from_json(text: &str) -> (r: Option<Vec<(String, Vec<Vec<bool>>)>>)
    ensures
        r.is_some() == json_orders_of(text@).is_some(),
        r.is_some() ==> lists_exactly(r.unwrap()@, json_orders_of(text@).unwrap()),
{
    match serde_json::from_str::<std::collections::HashMap<String, Vec<Vec<bool>>>>(text) {
        Ok(map) => Some(map.into_iter().collect()),
        Err(_) => None,
    }
}

proof fn lemma_shape_of_rows(v: Seq<Vec<bool>>, n: int, width: int)
    ensures
        matrix_shape(v, n, width) == rows_shape(rows_of(v), n, width),
{
    let r = rows_of(v);
    assert(r.len() == v.len());
    assert forall|f: int| 0 <= f < v.len() implies #[trigger] r[f] == v[f]@ by {}
    if matrix_shape(v, n, width) {
        assert forall|f: int| 0 <= f < n implies #[trigger] r[f].len() == width by {
            assert(v[f]@.len() == width);
        }
    }
    if rows_shape(r, n, width) {
        assert forall|f: int| 0 <= f < n implies #[trigger] v[f]@.len() == width by {
            assert(r[f].len() == width);
        }
    }
}

/// Reads a per-car order map (the assignment program's output, or the
/// coordinator's broadcast). It is `Some` exactly when the text is a JSON
/// object from car id to hall matrix whose matrices all have `num_floors`
/// rows of two columns, and then lists that object's entries.
pub fn decode_orders(text: &str, num_floors: u8) -> (r: Option<Vec<(String, Vec<Vec<bool>>)>>)
    ensures
        r.is_some() <==> (json_orders_of(text@).is_some() && all_shaped(
            json_orders_of(text@).unwrap(),
            num_floors as int,
        )),
        r.is_some() ==> lists_exactly(r.unwrap()@, json_orders_of(text@).unwrap()),
        r.is_some() ==> forall|k: int|
            0 <= k < r.unwrap()@.len() ==> matrix_shape(#[trigger] r.unwrap()@[k].1@, num_floors as int, 2),
{
    match orders_from_json(text) {
        Some(orders) => {
            let ghost map = json_orders_of(text@).unwrap();
            let ghost n = num_floors as int;
            let well_formed = assignment_is_well_formed(&orders, num_floors);
            proof {
                assert forall|k: int| 0 <= k < orders@.len() implies matrix_shape(
                    #[trigger] orders@[k].1@,
                    n,
                    2,
                ) == rows_shape(map[orders@[k].0@], n, 2) by {
                    lemma_shape_of_rows(orders@[k].1@, n, 2);
                }
                if well_formed {
                    assert forall|id: Seq<char>| #[trigger] map.contains_key(id) implies rows_shape(
                        map[id],
                        n,
                        2,
                    ) by {
                        let k = choose|k: int| 0 <= k < orders@.len() && (#[trigger] orders@[k]).0@ == id;
                        assert(matrix_shape(orders@[k].1@, n, 2));
                    }
                } else {
                    let k = choose|k: int|
                        0 <= k < orders@.len() && !matrix_shape(#[trigger] orders@[k].1@, n, 2);
                    assert(map.contains_key(orders@[k].0@));
                }
            }
            if well_formed {
                Some(orders)
            } else {
                None
            }
        },
        None => None,
    }
}

/// The coordinator's state: the connected cars and the fleet-wide hall matrix.
#[derive(Debug)]
pub struct Coordinator {
    pub connected: Vec<(String, ElevatorData)>,
    pub hall_requests: Vec<Vec<bool>>,
    pub num_floors: u8,
    /// The orders broadcast on every turn: the last assignment that succeeded.
    pub orders: Vec<(String, Vec<Vec<bool>>)>,
}

impl Coordinator {
    pub open spec fn entries(&self) -> Seq<EntryModel> {
        models(self.connected@)
    }

    /// One row per car, and a hall matrix of `num_floors` rows of two columns.
    pub open spec fn wf(&self) -> bool {
        &&& unique_ids(self.entries())
        &&& matrix_shape(self.hall_requests@, self.num_floors as int, 2)
    }

    pub fn new(num_floors: u8) -> (r: Self)
        ensures
            r.wf(),
            r.num_floors == num_floors,
            r.entries() == Seq::<EntryModel>::empty(),
            r.orders@ == Seq::<(String, Vec<Vec<bool>>)>::empty(),
            forall|f: int, c: int| 0 <= f < num_floors && 0 <= c < 2 ==> !#[trigger] at(r.hall_requests@, f, c),
    {
        let r = Coordinator {
            connected: Vec::new(),
            hall_requests: ledger::empty_matrix(num_floors, 2),
            num_floors,
            orders: Vec::new(),
        };
        assert(r.entries() =~= Seq::<EntryModel>::empty());
        r
    }

    /// The first row for car `id`, if any.
    fn find(&self, id: &String) -> (r: Option<usize>)
        ensures
            r.is_some() ==> first_row(self.entries(), id@, r.unwrap() as int),
            r.is_none() ==> !has_id(self.entries(), id@),
    {
        let mut i: usize = 0;
        while i < self.connected.len()
            invariant
                i <= self.connected@.len(),
                forall|j: int| 0 <= j < i ==> (#[trigger] self.entries()[j]).id != id@,
            decreases self.connected@.len() - i,
        {
            if self.connected[i].0 == *id {
                return Some(i);
            }
            i = i + 1;
        }
        None
    }

    /// Takes in a car's status message received at `now` (ms). A message whose
    /// behaviour or direction is not a known wire name is discarded (`false`).
    /// Otherwise the car's row is refreshed or created, its asserted hall calls
    /// are set in the hall matrix and its served ones cleared.
    pub fn on_elevator_message(&mut self, msg: &ElevatorMessage, now: u64) -> (accepted: bool)
        requires
            old(self).wf(),
        ensures
            final(self).wf(),
            final(self).num_floors == old(self).num_floors,
            accepted <==> (behaviour_from_name(msg.behaviour@).is_some() && direction_from_name(
                msg.direction@,
            ).is_some()),
            !accepted ==> final(self).entries() == old(self).entries() && final(self).hall_requests
                == old(self).hall_requests,
            accepted ==> final(self).entries() == upserted(
                old(self).entries(),
                msg.id@,
                StateModel {
                    behaviour: behaviour_from_name(msg.behaviour@).unwrap(),
                    floor: msg.floor,
                    direction: direction_from_name(msg.direction@).unwrap(),
                    cab_requests: msg.cab_requests@,
                },
                now,
            ),
            accepted ==> merged(
                old(self).hall_requests@,
                final(self).hall_requests@,
                old(self).num_floors as int,
                msg.new_hall_orders@,
                msg.served_hall_orders@,
            ),
    {
        let behaviour = match Behaviour::parse(&msg.behaviour) {
            Some(b) => b,
            None => {
                return false;
            },
        };
        let direction = match Direction::parse(&msg.direction) {
            Some(d) => d,
            None => {
                return false;
            },
        };
        let cab_requests = msg.cab_requests.clone();
        assert(cab_requests@ =~= msg.cab_requests@);
        let state = HRAElevState { behaviour, floor: msg.floor, direction, cab_requests };
        let ghost s = state.model();
        let ghost before = self.entries();
        match self.find(&msg.id) {
            Some(i) => {
                let prev = &self.connected[i].1;
                let last_available = if behaviour != prev.state.behaviour || behaviour
                    == Behaviour::Idle || msg.floor != prev.state.floor || direction
                    != prev.state.direction {
                    now
                } else {
                    prev.last_available
                };
                let row = (msg.id.clone(), ElevatorData { state, last_seen: now, last_available });
                self.connected.set(i, row);
                proof {
                    let c = choose|c: int| first_row(before, msg.id@, c);
                    if c < i {
                        assert(before[c].id != msg.id@);
                    } else if c > i {
                        assert(before[i as int].id != msg.id@);
                    }
                    assert(self.entries() =~= before.update(i as int, refreshed(before[i as int], s, now)));
                }
            },
            None => {
                let row = (msg.id.clone(), ElevatorData { state, last_seen: now, last_available: now });
                self.connected.push(row);
                assert(self.entries() =~= before.push(
                    EntryModel { id: msg.id@, state: s, last_seen: now, last_available: now },
                ));
            },
        }
        mark_calls(&mut self.hall_requests, self.num_floors, &msg.new_hall_orders, true);
        mark_calls(&mut self.hall_requests, self.num_floors, &msg.served_hall_orders, false);
        true
    }

    /// Takes the outcome of the assignment function: a result replaces the
    /// orders to broadcast; a failed run (`None`) leaves the previous orders
    /// in effect, and the next success corrects them.
    pub fn take_assignment(&mut self, result: Option<Vec<(String, Vec<Vec<bool>>)>>) -> (taken: bool)
        ensures
            taken == result.is_some(),
            result.is_some() ==> final(self).orders == result.unwrap(),
            result.is_none() ==> final(self).orders == old(self).orders,
            final(self).connected == old(self).connected,
            final(self).hall_requests == old(self).hall_requests,
            final(self).num_floors == old(self).num_floors,
    {
        match result {
            Some(orders) => {
                self.orders = orders;
                true
            },
            None => false,
        }
    }

    /// Drops the rows of cars that have sent nothing for longer than
    /// `SLAVE_TIMEOUT_MS` at `now` (ms).
    pub fn evict_lost(&mut self, now: u64)
        requires
            old(self).wf(),
        ensures
            final(self).wf(),
            final(self).num_floors == old(self).num_floors,
            final(self).hall_requests == old(self).hall_requests,
            final(self).entries() == old(self).entries().filter(still_connected(now)),
    {
        let ghost pred = still_connected(now);
        let mut kept: Vec<(String, ElevatorData)> = Vec::new();
        let mut i: usize = 0;
        while i < self.connected.len()
            invariant
                i <= self.connected@.len(),
                pred == still_connected(now),
                models(kept@) == models(self.connected@.subrange(0, i as int)).filter(pred),
            decreases self.connected@.len() - i,
        {
            let e = &self.connected[i];
            let gone = now > e.1.last_seen && now - e.1.last_seen > SLAVE_TIMEOUT_MS;
            let ghost before = models(kept@);
            let ghost m = entry_model(*e);
            assert(pred(m) == !gone);
            if !gone {
                let copy = duplicate_entry(e);
                kept.push(copy);
                assert(models(kept@) =~= before.push(m));
            }
            proof {
                let prefix = models(self.connected@.subrange(0, i as int));
                assert(models(self.connected@.subrange(0, i + 1)) =~= prefix.push(m));
                prefix.lemma_filter_push(m, pred);
            }
            i = i + 1;
        }
        assert(self.connected@.subrange(0, self.connected@.len() as int) =~= self.connected@);
        self.connected = kept;
        proof {
            lemma_filter_keeps_unique_ids(old(self).entries(), pred);
        }
    }

    /// The cars that may take new hall calls at `now` (ms), with their states.
    pub fn available_states(&self, now: u64) -> (r: Vec<(String, HRAElevState)>)
        ensures
            r@.len() == self.entries().filter(available(now)).len(),
            forall|i: int|
                0 <= i < r@.len() ==> (#[trigger] r@[i]).0@ == self.entries().filter(available(now))[i].id
                    && r@[i].1.model() == self.entries().filter(available(now))[i].state,
    {
        let ghost pred = available(now);
        let mut states: Vec<(String, HRAElevState)> = Vec::new();
        let mut i: usize = 0;
        while i < self.connected.len()
            invariant
                i <= self.connected@.len(),
                pred == available(now),
                states@.len() == models(self.connected@.subrange(0, i as int)).filter(pred).len(),
                forall|j: int|
                    0 <= j < states@.len() ==> (#[trigger] states@[j]).0@ == models(
                        self.connected@.subrange(0, i as int),
                    ).filter(pred)[j].id && states@[j].1.model() == models(
                        self.connected@.subrange(0, i as int),
                    ).filter(pred)[j].state,
            decreases self.connected@.len() - i,
        {
            let e = &self.connected[i];
            let fresh = !(now > e.1.last_available && now - e.1.last_available
                >= AVAILABILITY_TIMEOUT_MS);
            let ghost m = entry_model(*e);
            let ghost prefix = models(self.connected@.subrange(0, i as int));
            assert(pred(m) == fresh);
            proof {
                assert(models(self.connected@.subrange(0, i + 1)) =~= prefix.push(m));
                prefix.lemma_filter_push(m, pred);
            }
            if fresh {
                let ghost before = states@;
                states.push((e.0.clone(), e.1.state.duplicate()));
                assert forall|j: int| 0 <= j < states@.len() implies (#[trigger] states@[j]).0@
                    == prefix.push(m).filter(pred)[j].id && states@[j].1.model() == prefix.push(
                    m,
                ).filter(pred)[j].state by {
                    if j < before.len() {
                        assert(states@[j] == before[j]);
                    }
                }
            }
            i = i + 1;
        }
        assert(self.connected@.subrange(0, self.connected@.len() as int) =~= self.connected@);
        states
    }

    /// The input of the assignment function at `now` (ms): the hall matrix and
    /// the available cars.
    pub fn assignment_input(&self, now: u64) -> (r: HRAInput)
        ensures
            r.hall_requests@.len() == self.hall_requests@.len(),
            forall|f: int| 0 <= f < self.hall_requests@.len() ==> #[trigger] r.hall_requests@[f]@ == self.hall_requests@[f]@,
            r.states@.len() == self.entries().filter(available(now)).len(),
            forall|i: int|
                0 <= i < r.states@.len() ==> (#[trigger] r.states@[i]).0@ == self.entries().filter(
                    available(now),
                )[i].id && r.states@[i].1.model() == self.entries().filter(available(now))[i].state,
    {
        HRAInput { hall_requests: ledger::copy_matrix(&self.hall_requests), states: self.available_states(now) }
    }
}

/// A car whose rows have all gone silent for longer than `SLAVE_TIMEOUT_MS`
/// at `now` has no row after the eviction pass at `now`; its next status
/// message, taken in at `later`, gives it a row again, seen at `later`.
pub proof fn lemma_lost_car_leaves_and_returns(
    entries: Seq<EntryModel>,
    id: Seq<char>,
    now: u64,
    s: StateModel,
    later: u64,
)
    requires
        forall|i: int| 0 <= i < entries.len() && (#[trigger] entries[i]).id == id ==> lost(entries[i], now),
    ensures
        !has_id(entries.filter(still_connected(now)), id),
        has_id(upserted(entries.filter(still_connected(now)), id, s, later), id),
        upserted(entries.filter(still_connected(now)), id, s, later).last() == (EntryModel {
            id,
            state: s,
            last_seen: later,
            last_available: later,
        }),
{
    let kept = entries.filter(still_connected(now));
    assert forall|i: int| 0 <= i < kept.len() implies (#[trigger] kept[i]).id != id by {
        assert(kept.contains(kept[i]));
        entries.lemma_filter_contains_rev(still_connected(now), kept[i]);
        let k = choose|k: int| 0 <= k < entries.len() && entries[k] == kept[i];
        entries.lemma_filter_pred(still_connected(now), i);
    }
    let back = upserted(kept, id, s, later);
    assert(back[back.len() - 1].id == id);
}

} // verus!
