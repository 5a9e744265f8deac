use vstd::prelude::*;

use crate::call::Call;

verus! {

/// Motor command of the hardware driver for going down.
pub const DIRN_DOWN: u8 = 255;

/// Motor command of the hardware driver for standing still.
pub const DIRN_STOP: u8 = 0;

/// Motor command of the hardware driver for going up.
pub const DIRN_UP: u8 = 1;

/// Direction of travel of a car.
#[derive(Debug, Clone, Copy, PartialEq, Eq, Structural)]
pub enum Direction {
    Down,
    Stop,
    Up,
}

/// The hall call that a car travelling in `d` serves; anything but `Up` counts as down.
pub open spec fn hall_call_of(d: Direction) -> Call {
    if d == Direction::Up {
        Call::HallUp
    } else {
        Call::HallDown
    }
}

/// The reverse direction of travel; anything but `Up` counts as down.
pub open spec fn opposite(d: Direction) -> Direction {
    if d == Direction::Up {
        Direction::Down
    } else {
        Direction::Up
    }
}

/// Wire name of a direction of travel.
pub open spec fn direction_name(d: Direction) -> Seq<char> {
    if d == Direction::Up {
        "up"@
    } else {
        "down"@
    }
}

/// The direction a wire name stands for, if any.
pub open spec fn direction_from_name(s: Seq<char>) -> Option<Direction> {
    if s == "up"@ {
        Some(Direction::Up)
    } else if s == "down"@ {
        Some(Direction::Down)
    } else {
        None
    }
}

impl Direction {
    pub fn as_elev_constant(self) -> (r: u8)
        ensures
            self == Direction::Down ==> r == DIRN_DOWN,
            self == Direction::Stop ==> r == DIRN_STOP,
            self == Direction::Up ==> r == DIRN_UP,
    {
        match self {
            Direction::Down => DIRN_DOWN,
            Direction::Stop => DIRN_STOP,
            Direction::Up => DIRN_UP,
        }
    }

    /// Wire name of a direction of travel; a stopped car has none.
    pub fn as_string(self) -> (r: Option<String>)
        ensures
            self == Direction::Stop ==> r.is_none(),
            self != Direction::Stop ==> r.is_some() && r.unwrap()@ == direction_name(self),
    {
        match self {
            Direction::Down => Some("down".to_owned()),
            Direction::Up => Some("up".to_owned()),
            Direction::Stop => None,
        }
    }

    /// The hall call served when travelling this way.
    pub fn to_call(self) -> (r: Option<Call>)
        ensures
            self == Direction::Stop ==> r.is_none(),
            self != Direction::Stop ==> r == Some(hall_call_of(self)),
    {
        match self {
            Direction::Up => Some(Call::HallUp),
            Direction::Down => Some(Call::HallDown),
            Direction::Stop => None,
        }
    }

    /// Reads a wire name; any name but "up" and "down" is rejected.
    pub fn parse(s: &String) -> (r: Option<Direction>)
        ensures
            r == direction_from_name(s@),
    {
        proof {
            reveal_strlit("up");
            reveal_strlit("down");
            assert("up"@.len() != "down"@.len());
        }
        if *s == "up".to_owned() {
            Some(Direction::Up)
        } else if *s == "down".to_owned() {
            Some(Direction::Down)
        } else {
            None
        }
    }
}

} // verus!
