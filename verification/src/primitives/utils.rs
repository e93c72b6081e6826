//! Small helpers on primitive values.
use vstd::prelude::*;

verus! {

/// Relies on `std::time::SystemTime::now`: the wall clock, read as
/// milliseconds since the epoch. The clock decides the value; nothing is
/// promised of it.
#[verifier::external_body]
pub fn now_millis() -> u64 {
    match std::time::SystemTime::now().duration_since(std::time::UNIX_EPOCH) {
        Ok(d) => d.as_millis() as u64,
        Err(_) => 0,
    }
}

/// Normalizes a recovery id: 0 and 1 are the two valid parities, anything
/// else is rejected.
pub fn normalize_v(v: u64) -> (r: Option<bool>)
    ensures
        v == 0 ==> r == Some(false),
        v == 1 ==> r == Some(true),
        v > 1 ==> r is None,
{
    match v {
        0 => Some(false),
        1 => Some(true),
        _ => None,
    }
}

} // verus!
