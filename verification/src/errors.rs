//! Error kinds of the timing engine.
//!
//! All of them are non-retryable by the engine itself: the caller decides any
//! retry policy. No domain error leaves the aggregate partially mutated.

use vstd::prelude::*;

verus! {

/// One error kind per failure condition of the engine.
#[derive(Clone, Copy, Debug, PartialEq, Eq, Structural)]
pub enum TimingError {
    /// A timer was asked to start while already running.
    TimerAlreadyStarted,
    /// A timer was asked to stop, or for its elapsed time, before any start.
    TimerNotStarted,
    /// A track was started with no pending entrant registered.
    TrackNextCarNotRegistered,
    /// A start would have exceeded the track's concurrent-entrant bound.
    TrackOverlapLimitExceeded,
    /// A running entrant addressed by id was not on the track.
    TrackSpecifiedCarNotFound,
    /// A stop without an id found no running entrant on the track.
    TrackNobodyRunning,
    /// A command addressed a track id that the competition does not hold.
    NoSuchTrack,
    /// A record mutation addressed a result id that the competition does not hold.
    NoSuchRecord,
    /// A command arrived before any competition was created.
    CompetitionNotConfigured,
    /// The configuration repository held nothing under the given id.
    CompetitionConfigurationNotFound,
    /// A stop carried a logical timestamp earlier than the entrant's start.
    NegativeDuration,
    /// An internal invariant would have been violated; should be unreachable.
    LogicError,
}

} // verus!
