use vstd::prelude::*;

verus! {

/// Relies on std::time::SystemTime::now and its duration_since against
/// UNIX_EPOCH: the clock reading as milliseconds since the Unix epoch, or
/// None when the system clock stands before the epoch. The value depends on
/// the wall clock, so nothing is promised of it.
#[verifier::external_body]
fn unix_millis_now() -> (r: Option<u128>) {
    std::time::SystemTime::now()
        .duration_since(std::time::SystemTime::UNIX_EPOCH)
        .ok()
        .map(|d| d.as_millis())
}

/// What the library does with a clock reading: a successful reading stands
/// as it is, and a clock before the epoch is folded into the sentinel 0 that
/// then appears in the log lines.
pub fn millis_or_zero(reading: Option<u128>) -> (t: u128)
    ensures
        t == (match reading {
            Some(v) => v,
            None => 0u128,
        }),
{
    match reading {
        Some(v) => v,
        None => 0,
    }
}

/// The timestamp written into log lines: milliseconds since the Unix epoch,
/// or zero when the system clock reads earlier than the epoch. The wall
/// clock decides the value, so no more can be stated of it here; what is
/// done with the reading is the contract of `millis_or_zero`.
pub fn get_timestamp() -> u128 {
    millis_or_zero(unix_millis_now())
}

} // verus!
