//! How long a movement of an element of the interface has run.

use vstd::prelude::*;
use std::time::{Duration, Instant};
use crate::cutscene::clock::elapsed_since;

verus! {

/// How long a movement of an element of the interface has run: so many ticks, or so much time.
#[derive(Clone, Copy)]
pub enum UIMovementDuration {
    Ticks { number: usize },
    RealTime { duration: Duration },
}

/// When a movement of an element of the interface began: at a tick, or at a moment on the clock.
#[derive(Clone, Copy)]
pub enum StartTime {
    Tick { number: usize },
    RealTime { instant: Instant },
}

impl UIMovementDuration {
    /// The count of ticks after one more; at the top of its range it stays.
    pub open spec fn one_more(number: usize) -> usize {
        if number < usize::MAX {
            (number + 1) as usize
        } else {
            usize::MAX
        }
    }

    /// How long the step has run by now. A step counted in ticks has run one
    /// tick more than before. A step measured in time has run for what the
    /// clock says has gone by since its start. The start has to be of the
    /// kind that the step is counted in.
    pub fn from_start(&self, start: StartTime) -> (now: Self)
        requires
            start is Tick <==> self is Ticks,
        ensures
            match *self {
                UIMovementDuration::Ticks { number } => now is Ticks && now->Ticks_number
                    == Self::one_more(number),
                UIMovementDuration::RealTime { .. } => now is RealTime,
            },
    {
        match start {
            StartTime::Tick { number: _ } => match self {
                UIMovementDuration::Ticks { number } => UIMovementDuration::Ticks {
                    number: number.saturating_add(1),
                },
                UIMovementDuration::RealTime { duration } => UIMovementDuration::RealTime { duration: *duration },
            },
            StartTime::RealTime { instant } => UIMovementDuration::RealTime {
                duration: elapsed_since(&instant),
            },
        }
    }
}

} // verus!
