//! Hall calls this node has asserted ("new") or believes it has cleared
//! ("served"), kept until the coordinator's merged hall matrix confirms them
//! or they grow too old.
use vstd::prelude::*;

use crate::request::Request;

verus! {

/// A buffered request and the time, in milliseconds, when it was inserted.
pub type Entry = (Request, u64);

/// The matrix shows `r` as present; a cell outside the matrix shows nothing.
pub open spec fn shows(m: Seq<Vec<bool>>, r: Request) -> bool {
    &&& (r.floor as int) < m.len()
    &&& r.call.index() < m[r.floor as int]@.len()
    &&& m[r.floor as int]@[r.call.index()]
}

/// A "new" entry stays until the matrix shows its request.
pub open spec fn unconfirmed_new(m: Seq<Vec<bool>>) -> spec_fn(Entry) -> bool {
    |e: Entry| !shows(m, e.0)
}

/// A "served" entry stays until the matrix no longer shows its request.
pub open spec fn unconfirmed_served(m: Seq<Vec<bool>>) -> spec_fn(Entry) -> bool {
    |e: Entry| shows(m, e.0)
}

/// An entry inserted at `t` has outlived `timeout` seconds at time `now` (ms).
pub open spec fn expired(now: u64, t: u64, timeout: u64) -> bool {
    now > t && (now - t) > timeout * 1000
}

/// Entries that have not outlived `timeout` at `now`.
pub open spec fn fresh(now: u64, timeout: u64) -> spec_fn(Entry) -> bool {
    |e: Entry| !expired(now, e.1, timeout)
}

/// The requests of a list of entries, in order.
pub open spec fn requests_of(s: Seq<Entry>) -> Seq<Request> {
    s.map_values(|e: Entry| e.0)
}

/// No entry of `s` holds request `r`.
pub open spec fn lacks(s: Seq<Entry>, r: Request) -> bool {
    forall|i: int| 0 <= i < s.len() ==> (#[trigger] s[i]).0 != r
}

#[derive(Debug, Clone)]
pub struct RequestBuffer {
    new_requests: Vec<Entry>,
    served_requests: Vec<Entry>,
    timeout: u64,
}

/// Whether `m` shows `r` as present.
pub fn request_shown(m: &Vec<Vec<bool>>, r: Request) -> (b: bool)
    ensures
        b == shows(m@, r),
{
    let floor = r.floor as usize;
    let column = r.call.as_index();
    floor < m.len() && column < m[floor].len() && m[floor][column]
}

/// The entries of `entries` whose request `m` shows (`present`) or does not show.
fn keep_by_matrix(entries: &Vec<Entry>, m: &Vec<Vec<bool>>, present: bool) -> (r: Vec<Entry>)
    ensures
        present ==> r@ == entries@.filter(unconfirmed_served(m@)),
        !present ==> r@ == entries@.filter(unconfirmed_new(m@)),
{
    let ghost pred = if present {
        unconfirmed_served(m@)
    } else {
        unconfirmed_new(m@)
    };
    let mut kept: Vec<Entry> = Vec::new();
    let mut i: usize = 0;
    while i < entries.len()
        invariant
            i <= entries@.len(),
            pred == if present {
                unconfirmed_served(m@)
            } else {
                unconfirmed_new(m@)
            },
            kept@ == entries@.subrange(0, i as int).filter(pred),
        decreases entries@.len() - i,
    {
        let e = entries[i];
        assert(pred(e) == (shows(m@, e.0) == present));
        if request_shown(m, e.0) == present {
            kept.push(e);
        }
        proof {
            assert(entries@.subrange(0, i + 1) =~= entries@.subrange(0, i as int).push(e));
            entries@.subrange(0, i as int).lemma_filter_push(e, pred);
        }
        i = i + 1;
    }
    assert(entries@.subrange(0, entries@.len() as int) =~= entries@);
    kept
}

/// The entries of `entries` that have not outlived `timeout` at `now`.
fn keep_fresh(entries: &Vec<Entry>, now: u64, timeout: u64) -> (r: Vec<Entry>)
    ensures
        r@ == entries@.filter(fresh(now, timeout)),
{
    let ghost pred = fresh(now, timeout);
    let mut kept: Vec<Entry> = Vec::new();
    let mut i: usize = 0;
    while i < entries.len()
        invariant
            i <= entries@.len(),
            pred == fresh(now, timeout),
            kept@ == entries@.subrange(0, i as int).filter(pred),
        decreases entries@.len() - i,
    {
        let e = entries[i];
        let outlived = now > e.1 && ((now - e.1) as u128) > (timeout as u128) * 1000;
        if !outlived {
            kept.push(e);
        }
        proof {
            assert(entries@.subrange(0, i + 1) =~= entries@.subrange(0, i as int).push(e));
            entries@.subrange(0, i as int).lemma_filter_push(e, pred);
        }
        i = i + 1;
    }
    assert(entries@.subrange(0, entries@.len() as int) =~= entries@);
    kept
}

/// The requests of `entries`, in order.
fn requests_in(entries: &Vec<Entry>) -> (r: Vec<Request>)
    ensures
        r@ == requests_of(entries@),
{
    let mut out: Vec<Request> = Vec::new();
    let mut i: usize = 0;
    while i < entries.len()
        invariant
            i <= entries@.len(),
            out@ =~= requests_of(entries@.subrange(0, i as int)),
        decreases entries@.len() - i,
    {
        out.push(entries[i].0);
        i = i + 1;
    }
    assert(entries@.subrange(0, entries@.len() as int) =~= entries@);
    out
}

impl RequestBuffer {
    /// The "new" entries, oldest first.
    pub closed spec fn new_entries(&self) -> Seq<Entry> {
        self.new_requests@
    }

    /// The "served" entries, oldest first.
    pub closed spec fn served_entries(&self) -> Seq<Entry> {
        self.served_requests@
    }

    /// How long, in seconds, an entry is kept without confirmation.
    pub closed spec fn timeout_secs(&self) -> u64 {
        self.timeout
    }

    pub fn new(timeout: u64) -> (r: Self)
        ensures
            r.new_entries() == Seq::<Entry>::empty(),
            r.served_entries() == Seq::<Entry>::empty(),
            r.timeout_secs() == timeout,
    {
        RequestBuffer { new_requests: Vec::new(), served_requests: Vec::new(), timeout }
    }

    pub fn get_new_requests(&self) -> (r: Vec<Request>)
        ensures
            r@ == requests_of(self.new_entries()),
    {
        requests_in(&self.new_requests)
    }

    pub fn get_served_requests(&self) -> (r: Vec<Request>)
        ensures
            r@ == requests_of(self.served_entries()),
    {
        requests_in(&self.served_requests)
    }

    /// Records a hall call observed at time `now` (ms).
    pub fn insert_new_request(&mut self, request: Request, now: u64)
        ensures
            final(self).new_entries() == old(self).new_entries().push((request, now)),
            final(self).served_entries() == old(self).served_entries(),
            final(self).timeout_secs() == old(self).timeout_secs(),
    {
        self.new_requests.push((request, now));
    }

    /// Records a hall call cleared here at time `now` (ms).
    pub fn insert_served_request(&mut self, request: Request, now: u64)
        ensures
            final(self).served_entries() == old(self).served_entries().push((request, now)),
            final(self).new_entries() == old(self).new_entries(),
            final(self).timeout_secs() == old(self).timeout_secs(),
    {
        self.served_requests.push((request, now));
    }

    /// Drops the "new" entries that `all_hall_requests` shows and the "served"
    /// entries that it no longer shows. Afterwards no request is both new and served.
    /// Every buffered request is admitted: one whose cell lies outside the
    /// matrix (a cab call against a hall matrix of two columns, or a floor
    /// beyond its rows) counts as not shown, so it stays among the new entries
    /// and leaves the served ones.
    pub fn remove_confirmed_requests(&mut self, all_hall_requests: &Vec<Vec<bool>>)
        ensures
            final(self).new_entries() == old(self).new_entries().filter(unconfirmed_new(all_hall_requests@)),
            final(self).served_entries() == old(self).served_entries().filter(
                unconfirmed_served(all_hall_requests@),
            ),
            final(self).timeout_secs() == old(self).timeout_secs(),
            forall|i: int, j: int|
                0 <= i < final(self).new_entries().len() && 0 <= j < final(self).served_entries().len()
                    ==> (#[trigger] final(self).new_entries()[i]).0 != (
                #[trigger] final(self).served_entries()[j]).0,
    {
        let m = all_hall_requests;
        self.new_requests = keep_by_matrix(&self.new_requests, m, false);
        self.served_requests = keep_by_matrix(&self.served_requests, m, true);
        proof {
            let kept_new = self.new_requests@;
            let kept_served = self.served_requests@;
            assert forall|i: int, j: int|
                0 <= i < kept_new.len() && 0 <= j < kept_served.len() implies (#[trigger] kept_new[i]).0
                != (#[trigger] kept_served[j]).0 by {
                old(self).new_requests@.lemma_filter_pred(unconfirmed_new(m@), i);
                old(self).served_requests@.lemma_filter_pred(unconfirmed_served(m@), j);
            }
        }
    }

    /// Drops the entries that have outlived the timeout at time `now` (ms).
    pub fn remove_timed_out_orders(&mut self, now: u64)
        ensures
            final(self).new_entries() == old(self).new_entries().filter(fresh(now, old(self).timeout_secs())),
            final(self).served_entries() == old(self).served_entries().filter(
                fresh(now, old(self).timeout_secs()),
            ),
            final(self).timeout_secs() == old(self).timeout_secs(),
    {
        self.new_requests = keep_fresh(&self.new_requests, now, self.timeout);
        self.served_requests = keep_fresh(&self.served_requests, now, self.timeout);
    }
}

/// One call that changes a buffer's "new" list.
pub enum NewListStep {
    /// `insert_new_request(request, now)`.
    Insert(Request, u64),
    /// `remove_confirmed_requests` with this matrix.
    Confirm(Seq<Vec<bool>>),
    /// `remove_timed_out_orders(now)`.
    TimeOut(u64),
}

/// The "new" list after `step`, as the methods' contracts state it.
pub open spec fn after_step(s: Seq<Entry>, step: NewListStep, timeout: u64) -> Seq<Entry> {
    match step {
        NewListStep::Insert(r, t) => s.push((r, t)),
        NewListStep::Confirm(m) => s.filter(unconfirmed_new(m)),
        NewListStep::TimeOut(now) => s.filter(fresh(now, timeout)),
    }
}

/// The "new" list after each of `steps` in turn.
pub open spec fn after_steps(s: Seq<Entry>, steps: Seq<NewListStep>, timeout: u64) -> Seq<Entry>
    decreases steps.len(),
{
    if steps.len() == 0 {
        s
    } else {
        after_steps(after_step(s, steps[0], timeout), steps.drop_first(), timeout)
    }
}

/// Whether `step` inserts request `r`.
pub open spec fn inserts(step: NewListStep, r: Request) -> bool {
    match step {
        NewListStep::Insert(q, _) => q == r,
        _ => false,
    }
}

proof fn lemma_steps_keep_lacking(s: Seq<Entry>, steps: Seq<NewListStep>, timeout: u64, r: Request)
    requires
        lacks(s, r),
        forall|i: int| 0 <= i < steps.len() ==> !inserts(#[trigger] steps[i], r),
    ensures
        lacks(after_steps(s, steps, timeout), r),
    decreases steps.len(),
{
    if steps.len() > 0 {
        let next = after_step(s, steps[0], timeout);
        assert(!inserts(steps[0], r));
        match steps[0] {
            NewListStep::Insert(q, t) => {
                assert forall|i: int| 0 <= i < next.len() implies (#[trigger] next[i]).0 != r by {
                    if i < s.len() {
                        assert(next[i] == s[i]);
                    }
                }
            },
            NewListStep::Confirm(m) => {
                assert forall|i: int| 0 <= i < next.len() implies (#[trigger] next[i]).0 != r by {
                    assert(next.contains(next[i]));
                    s.lemma_filter_contains_rev(unconfirmed_new(m), next[i]);
                    let k = choose|k: int| 0 <= k < s.len() && s[k] == next[i];
                    assert(s[k].0 != r);
                }
            },
            NewListStep::TimeOut(now) => {
                assert forall|i: int| 0 <= i < next.len() implies (#[trigger] next[i]).0 != r by {
                    assert(next.contains(next[i]));
                    s.lemma_filter_contains_rev(fresh(now, timeout), next[i]);
                    let k = choose|k: int| 0 <= k < s.len() && s[k] == next[i];
                    assert(s[k].0 != r);
                }
            },
        }
        assert forall|i: int| 0 <= i < steps.drop_first().len() implies !inserts(
            #[trigger] steps.drop_first()[i],
            r,
        ) by {
            assert(steps.drop_first()[i] == steps[i + 1]);
        }
        lemma_steps_keep_lacking(next, steps.drop_first(), timeout, r);
    }
}

/// Once a confirmation pass has run with a matrix that shows `r`, the "new"
/// list holds no entry for `r`, whatever insertions of other requests,
/// confirmation passes and timeout passes follow.
pub proof fn lemma_confirmed_request_stays_gone(
    s: Seq<Entry>,
    m: Seq<Vec<bool>>,
    r: Request,
    steps: Seq<NewListStep>,
    timeout: u64,
)
    requires
        shows(m, r),
        forall|i: int| 0 <= i < steps.len() ==> !inserts(#[trigger] steps[i], r),
    ensures
        lacks(after_steps(s.filter(unconfirmed_new(m)), steps, timeout), r),
{
    let confirmed = s.filter(unconfirmed_new(m));
    assert forall|i: int| 0 <= i < confirmed.len() implies (#[trigger] confirmed[i]).0 != r by {
        s.lemma_filter_pred(unconfirmed_new(m), i);
    }
    lemma_steps_keep_lacking(confirmed, steps, timeout, r);
}

} // verus!
