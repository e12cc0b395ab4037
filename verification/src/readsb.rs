//! readsb — what the tracker reads from readsb's aircraft.json entries.
//!
//! The JSON format is documented at
//! <https://github.com/wiedehopf/readsb/blob/dev/README-json.md>.

use vstd::prelude::*;
use crate::text::{trim, trim_spec};

verus! {

/// The callsign of an entry whose `flight` field is `flight`: the field
/// without surrounding whitespace, unless that leaves nothing.
pub open spec fn callsign_spec(flight: Option<Seq<char>>) -> Option<Seq<char>> {
    match flight {
        Some(f) => if trim_spec(f).len() > 0 {
            Some(trim_spec(f))
        } else {
            None
        },
        None => None,
    }
}

/// Trimmed callsign, if present and not blank.
pub fn callsign(flight: Option<&str>) -> (r: Option<&str>)
    ensures
        match r {
            Some(c) => callsign_spec(match flight { Some(f) => Some(f@), None => None }) == Some(c@),
            None => callsign_spec(match flight { Some(f) => Some(f@), None => None }) is None,
        },
{
    match flight {
        Some(f) => {
            let t = trim(f);
            if t.is_empty() {
                None
            } else {
                Some(t)
            }
        },
        None => None,
    }
}

} // verus!
