//! Per-entrant stopwatch state machine.
//!
//! Logical time is carried as milliseconds since a fixed epoch; a duration is
//! likewise a number of milliseconds.

use vstd::prelude::*;

use crate::errors::TimingError;

verus! {

/// The four states of a stopwatch.
#[derive(Clone, Copy, Debug, PartialEq, Eq, Structural)]
pub enum TimerState {
    /// Fresh timer; has never run.
    NotStarted,
    /// On the clock since `start_time`.
    Started { start_time: u64 },
    /// Stopped with a measured `duration`.
    Stopped { duration: u64 },
    /// Forced to a `duration` by a manual correction.
    ManuallySet { duration: u64 },
}

/// What `Timer::start` does to a state: refused only while running.
pub open spec fn timer_start_spec(t: TimerState, ts: u64) -> (TimerState, Result<(), TimingError>) {
    match t {
        TimerState::Started { .. } => (t, Err(TimingError::TimerAlreadyStarted)),
        _ => (TimerState::Started { start_time: ts }, Ok(())),
    }
}

/// What `Timer::stop` does to a state: only a running timer stops, and only
/// at a timestamp not earlier than its start.
pub open spec fn timer_stop_spec(t: TimerState, ts: u64) -> (TimerState, Result<(), TimingError>) {
    match t {
        TimerState::Started { start_time } => {
            if ts >= start_time {
                (TimerState::Stopped { duration: (ts - start_time) as u64 }, Ok(()))
            } else {
                (t, Err(TimingError::NegativeDuration))
            }
        },
        _ => (t, Err(TimingError::TimerNotStarted)),
    }
}

/// What `Timer::elapsed` returns: a live reading while running, the stored
/// value once stopped or set, an error before any start.
pub open spec fn timer_elapsed_spec(t: TimerState, ts: u64) -> Result<u64, TimingError> {
    match t {
        TimerState::NotStarted => Err(TimingError::TimerNotStarted),
        TimerState::Started { start_time } => {
            if ts >= start_time {
                Ok((ts - start_time) as u64)
            } else {
                Err(TimingError::NegativeDuration)
            }
        },
        TimerState::Stopped { duration } => Ok(duration),
        TimerState::ManuallySet { duration } => Ok(duration),
    }
}

/// A stopwatch owned by exactly one running entrant.
#[derive(Clone, Copy, Debug, PartialEq, Eq, Structural)]
pub struct Timer {
    state: TimerState,
}

impl View for Timer {
    type V = TimerState;

    closed spec fn view(&self) -> TimerState {
        self.state
    }
}

impl Timer {
    /// A fresh timer that has never run.
    pub fn new() -> (r: Timer)
        ensures
            r@ == TimerState::NotStarted,
    {
        Timer { state: TimerState::NotStarted }
    }

    /// The current state.
    pub fn state(&self) -> (r: TimerState)
        ensures
            r == self@,
    {
        self.state
    }

    /// Start the clock at `ts`; fails only while already running.
    pub fn start(&mut self, ts: u64) -> (r: Result<(), TimingError>)
        ensures
            final(self)@ == timer_start_spec(old(self)@, ts).0,
            r == timer_start_spec(old(self)@, ts).1,
    {
        if let TimerState::Started { .. } = self.state {
            Err(TimingError::TimerAlreadyStarted)
        } else {
            self.state = TimerState::Started { start_time: ts };
            Ok(())
        }
    }

    /// Stop the clock at `ts`, recording `ts - start_time`.
    pub fn stop(&mut self, ts: u64) -> (r: Result<(), TimingError>)
        ensures
            final(self)@ == timer_stop_spec(old(self)@, ts).0,
            r == timer_stop_spec(old(self)@, ts).1,
    {
        if let TimerState::Started { start_time } = self.state {
            if ts >= start_time {
                self.state = TimerState::Stopped { duration: ts - start_time };
                Ok(())
            } else {
                Err(TimingError::NegativeDuration)
            }
        } else {
            Err(TimingError::TimerNotStarted)
        }
    }

    /// The elapsed time as seen at `ts`; never mutates.
    pub fn elapsed(&self, ts: u64) -> (r: Result<u64, TimingError>)
        ensures
            r == timer_elapsed_spec(self@, ts),
    {
        match self.state {
            TimerState::NotStarted => Err(TimingError::TimerNotStarted),
            TimerState::Started { start_time } => {
                if ts >= start_time {
                    Ok(ts - start_time)
                } else {
                    Err(TimingError::NegativeDuration)
                }
            },
            TimerState::Stopped { duration } => Ok(duration),
            TimerState::ManuallySet { duration } => Ok(duration),
        }
    }

    /// Force the timer to a manually set duration; always succeeds.
    pub fn set_time(&mut self, duration: u64) -> (r: Result<(), TimingError>)
        ensures
            final(self)@ == (TimerState::ManuallySet { duration }),
            r == Ok::<(), TimingError>(()),
    {
        self.state = TimerState::ManuallySet { duration };
        Ok(())
    }

    /// Whether the timer is currently on the clock.
    pub fn is_running(&self) -> (r: bool)
        ensures
            r == (self@ matches TimerState::Started { .. }),
    {
        if let TimerState::Started { .. } = self.state {
            true
        } else {
            false
        }
    }
}

} // verus!
