//! The ways in which reconciliation and history reconstruction fail.

use vstd::prelude::*;

verus! {

/// A failure reported to the caller. Nothing is retried or recovered here.
#[derive(Debug)]
pub enum ClientError {
    /// The clock reads a time before the Unix epoch, which cannot be
    /// expressed as a duration since the epoch.
    TimeBeforeEpoch,
    /// The system clock shows a time that cannot be read.
    ClockOutOfRange,
    /// The exit delay does not count time, or counts more of it than an
    /// address can be derived for.
    UnsupportedExitDelay,
    /// A public key is not a point on the curve.
    InvalidKey,
    /// The incoming half of the off-chain history could not be generated.
    IncomingHistory(ark_core::Error),
    /// The outgoing half of the off-chain history could not be generated.
    OutgoingHistory(ark_core::Error),
}

} // verus!
