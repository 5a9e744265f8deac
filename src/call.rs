use vstd::prelude::*;

verus! {

/// Button number of the hardware driver for a hall-up call.
pub const HALL_UP: u8 = 0;

/// Button number of the hardware driver for a hall-down call.
pub const HALL_DOWN: u8 = 1;

/// Button number of the hardware driver for a cab call.
pub const CAB: u8 = 2;

/// The kind of a call: a hall button (up or down) or a button inside the car.
#[derive(Debug, Clone, Copy, PartialEq, Eq, Structural)]
pub enum Call {
    HallUp,
    HallDown,
    Cab,
}

impl Call {
    /// Column of this call in a request matrix.
    pub open spec fn index(self) -> int {
        match self {
            Call::HallUp => 0,
            Call::HallDown => 1,
            Call::Cab => 2,
        }
    }

    pub open spec fn is_hall(self) -> bool {
        self != Call::Cab
    }

    /// Column of this call in a request matrix.
    pub fn as_index(self) -> (r: usize)
        ensures
            r == self.index(),
    {
        match self {
            Call::HallUp => 0,
            Call::HallDown => 1,
            Call::Cab => 2,
        }
    }

    pub fn from_elev_constant(elev_constant: u8) -> (r: Option<Call>)
        ensures
            elev_constant == HALL_UP ==> r == Some(Call::HallUp),
            elev_constant == HALL_DOWN ==> r == Some(Call::HallDown),
            elev_constant == CAB ==> r == Some(Call::Cab),
            elev_constant > CAB ==> r.is_none(),
    {
        match elev_constant {
            HALL_UP => Some(Call::HallUp),
            HALL_DOWN => Some(Call::HallDown),
            CAB => Some(Call::Cab),
            _ => None,
        }
    }

    pub fn as_elev_constant(self) -> (r: u8)
        ensures
            r as int == self.index(),
    {
        match self {
            Call::HallUp => HALL_UP,
            Call::HallDown => HALL_DOWN,
            Call::Cab => CAB,
        }
    }

    /// Number of call kinds, the width of a full request matrix.
    pub fn num_calls() -> (r: u8)
        ensures
            r == 3,
    {
        3
    }

    /// Number of hall call kinds, the width of a hall request matrix.
    pub fn num_hall_calls() -> (r: u8)
        ensures
            r == 2,
    {
        2
    }

    /// All call kinds, in column order.
    pub fn iter() -> (r: Vec<Call>)
        ensures
            r@ == seq![Call::HallUp, Call::HallDown, Call::Cab],
    {
        vec![Call::HallUp, Call::HallDown, Call::Cab]
    }

    /// The hall call kinds, in column order.
    pub fn iter_hall() -> (r: Vec<Call>)
        ensures
            r@ == seq![Call::HallUp, Call::HallDown],
    {
        vec![Call::HallUp, Call::HallDown]
    }
}

} // verus!
