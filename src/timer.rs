//! The door timer: a deadline that can be armed, disarmed and checked.
use vstd::prelude::*;

verus! {

/// A deadline in milliseconds and whether it is armed.
#[derive(Debug, Clone, Copy, PartialEq, Eq, Structural)]
pub struct DoorTimer {
    pub end_time: u64,
    pub active: bool,
}

impl DoorTimer {
    /// A disarmed timer.
    pub fn new() -> (r: Self)
        ensures
            !r.active,
    {
        DoorTimer { end_time: 0, active: false }
    }
}

/// Arms the timer to fire `duration` ms after `now`; a deadline past the
/// largest time stays at the largest time.
pub fn timer_start(timer: &mut DoorTimer, now: u64, duration: u64)
    ensures
        final(timer).active,
        final(timer).end_time == if now + duration <= u64::MAX {
            (now + duration) as u64
        } else {
            u64::MAX
        },
{
    timer.end_time = if duration <= u64::MAX - now {
        now + duration
    } else {
        u64::MAX
    };
    timer.active = true;
}

/// Disarms the timer.
pub fn timer_stop(timer: &mut DoorTimer)
    ensures
        !final(timer).active,
        final(timer).end_time == old(timer).end_time,
{
    timer.active = false;
}

/// Whether the timer is armed and its deadline has passed at `now`.
pub fn timer_timed_out(timer: &DoorTimer, now: u64) -> (r: bool)
    ensures
        r == (timer.active && now > timer.end_time),
{
    timer.active && now > timer.end_time
}

} // verus!
