//! The system clock.

use crate::vtxo::Timestamp;
use vstd::prelude::*;

verus! {

/// Reads the system clock with `std::time::SystemTime::now`, turns the
/// reading into a `jiff::Timestamp` with its `TryFrom` and takes that apart
/// with `jiff::Timestamp::as_duration`.
///
/// `None` stands for a reading that `jiff` refuses, which is one outside of
/// the years -9999 to 9999. Nothing is known of a time that comes back but
/// the range of its nanosecond part.
#[verifier::external_body]
pub(crate) fn now() -> (r: Option<Timestamp>)
    ensures
        r is Some ==> -999_999_999 <= r->Some_0.nanosecond <= 999_999_999,
{
    let now = jiff::Timestamp::try_from(std::time::SystemTime::now()).ok()?;
    let since_epoch = now.as_duration();
    Some(Timestamp { second: since_epoch.as_secs(), nanosecond: since_epoch.subsec_nanos() })
}

} // verus!
