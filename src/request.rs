use vstd::prelude::*;

use crate::call::Call;

verus! {

/// A call at a floor. Two requests with equal fields are the same request.
#[derive(Debug, Clone, Copy, PartialEq, Eq, Structural)]
pub struct Request {
    pub floor: u8,
    pub call: Call,
}

} // verus!
