//! json_output — fields of tar1090's aircraft.json that the tracker's
//! state determines.

use vstd::prelude::*;
use crate::text::{pad_right, pad_right_spec};

verus! {

/// Width tar1090 expects of the `flight` field.
pub const FLIGHT_WIDTH: usize = 8;

/// The `flight` field for a callsign: padded with spaces to 8 characters.
pub fn flight_field(callsign: &Option<String>) -> (r: Option<String>)
    ensures
        match callsign {
            Some(c) => r matches Some(f) && f@ == pad_right_spec(c@, FLIGHT_WIDTH as nat),
            None => r is None,
        },
{
    match callsign {
        Some(c) => Some(pad_right(c.as_str(), FLIGHT_WIDTH)),
        None => None,
    }
}

/// The `seen_pos` field (ns): only for an aircraft with a position.
pub fn seen_pos_field(lat: Option<i32>, seen_pos: u64) -> (r: Option<u64>)
    ensures
        r == (if lat is Some { Some(seen_pos) } else { None::<u64> }),
{
    if lat.is_some() {
        Some(seen_pos)
    } else {
        None
    }
}

} // verus!
