//! A controller position that the scenario staffs.
use vstd::prelude::*;

use crate::text::owned;

verus! {

/// A controller position: its callsign and its frequency, already written
/// with three decimals (as `123.456`).
pub struct Controller {
    pub callsign: String,
    pub frequency: String,
}

impl Controller {
    pub fn new(callsign: &str, frequency: &str) -> (c: Controller)
        ensures
            c.callsign@ == callsign@,
            c.frequency@ == frequency@,
    {
        Controller { callsign: owned(callsign), frequency: owned(frequency) }
    }
}

} // verus!
