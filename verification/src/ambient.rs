//! What the engine takes from its surroundings: the time and a random column.
//!
//! Neither value is a function of anything the library holds, so nothing is
//! claimed of them beyond what holds of every outcome, and the engine is
//! proved for every value they may take.

use vstd::prelude::*;

verus! {

/// The current time in milliseconds since the Unix epoch, read with
/// `chrono::Utc::now` and `DateTime::timestamp_millis`.
///
/// Nothing is claimed of the value. `Utc::now` panics on a machine whose
/// clock stands before the epoch; no argument decides that.
#[verifier::external_body]
pub(crate) fn now_millis() -> i64 {
    chrono::Utc::now().timestamp_millis()
}

/// A column drawn with `rand::Rng::gen_range` from the thread's generator.
///
/// The draw lies in the half-open range from `low` to `high`; which value of
/// the range comes is left open. `gen_range` panics on an empty range, which
/// the precondition excludes.
#[verifier::external_body]
pub(crate) fn draw_between(low: usize, high: usize) -> (drawn: usize)
    requires
        low < high,
    ensures
        low <= drawn < high,
{
    rand::Rng::gen_range(&mut rand::thread_rng(), low, high)
}

} // verus!
