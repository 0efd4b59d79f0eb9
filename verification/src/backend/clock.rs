use chrono::Utc;
use vstd::prelude::*;

verus! {

/// Trusted: reads the wall clock with `chrono::Utc::now` and converts the reading with
/// `DateTime::timestamp_nanos_opt`, which gives the nanoseconds since the Unix epoch, or
/// `None` where they do not fit an `i64`. Nothing is claimed of the value: it differs
/// from call to call. `Utc::now` panics on a machine whose clock is set before the
/// epoch; no argument could rule that out.
#[verifier::external_body]
pub(crate) fn now_nanos() -> Option<i64> {
    Utc::now().timestamp_nanos_opt()
}

/// The timestamp that a clock reading stands for: its nanoseconds, where the clock could
/// be read and does not lie before the epoch.
pub open spec fn spec_timestamp_from(reading: Option<i64>) -> Option<u64> {
    match reading {
        Some(nanos) => if nanos >= 0 {
            Some(nanos as u64)
        } else {
            None
        },
        None => None,
    }
}

/// Turns a clock reading into a block timestamp.
pub fn timestamp_from(reading: Option<i64>) -> (timestamp: Option<u64>)
    ensures
        timestamp == spec_timestamp_from(reading),
{
    match reading {
        Some(nanos) => if nanos >= 0 {
            Some(nanos as u64)
        } else {
            None
        },
        None => None,
    }
}

} // verus!
