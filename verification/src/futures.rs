//! Suspendable computations that the executor can drive.
//!
//! A computation is polled repeatedly; each poll either reports that the
//! computation has finished or that it must be polled again later.  The
//! computations here carry their whole state as plain values and take the
//! current clock reading as an argument, so that a test can drive them with
//! a controlled clock instead of the machine's.

use vstd::prelude::*;

verus! {

/// The outcome of driving a computation one step: either it has finished,
/// or it needs another turn later.
#[derive(Clone, Copy, PartialEq, Eq, Structural, Debug)]
pub enum Poll {
    /// The computation has run to completion.
    Ready,
    /// The computation is not finished and must be polled again.
    Suspended,
}

/// A timer-like computation: it reports `Ready` once the configured number
/// of milliseconds has elapsed since its creation instant, and `Suspended`
/// on every poll strictly before that.
#[derive(Clone, Copy, PartialEq, Eq, Structural, Debug)]
pub struct Sleep {
    /// The clock reading, in milliseconds, at which the timer was created.
    now: u128,
    /// How many milliseconds past the creation instant the timer must wait.
    ms: u128,
}

impl Sleep {
    /// The clock reading at which this timer was created.
    pub closed spec fn start_millis(self) -> int {
        self.now as int
    }

    /// The configured duration in milliseconds.
    pub closed spec fn duration_millis(self) -> int {
        self.ms as int
    }

    /// The clock reading at or after which the timer is elapsed.
    pub open spec fn deadline(self) -> int {
        self.start_millis() + self.duration_millis()
    }

    /// Whether the timer is elapsed at clock reading `now`.
    pub open spec fn elapsed_at(self, now: u128) -> bool {
        now as int >= self.deadline()
    }

    /// Builds a timer of `ms` milliseconds whose creation instant is the
    /// current machine clock.
    pub fn new(ms: u128) -> (s: Sleep)
        ensures
            s.duration_millis() == ms as int,
    {
        Sleep { now: now_millis(), ms }
    }

    /// Builds a timer of `ms` milliseconds whose creation instant is the
    /// given clock reading, for callers that supply their own clock.
    pub fn new_at(ms: u128, now: u128) -> (s: Sleep)
        ensures
            s.duration_millis() == ms as int,
            s.start_millis() == now as int,
    {
        Sleep { now, ms }
    }

    /// One step of the timer at clock reading `now`: `Ready` exactly when
    /// the configured duration has elapsed since the creation instant.
    pub fn poll_at(&self, now: u128) -> (r: Poll)
        ensures
            r == Poll::Ready <==> self.elapsed_at(now),
    {
        if now >= self.now && now - self.now >= self.ms {
            Poll::Ready
        } else {
            Poll::Suspended
        }
    }
}

/// A suspendable computation described as a plain value, so that the
/// executor's handling of it can be stated and proved.  Each variant says
/// when a poll finds it finished and what a poll leaves behind.
pub enum Work {
    /// Reports `Suspended` on each poll while `left` is positive,
    /// decrementing it, and `Ready` once `left` reaches zero.
    CountDown { left: u64 },
    /// Reports `Ready` exactly when the timer has elapsed.
    Timer { sleep: Sleep },
    /// Like `Timer`, but on completion asks the executor to spawn `child`
    /// as a fresh non-blocking task.
    TimerThenSpawn { sleep: Sleep, child: Box<Work> },
}

impl Work {
    /// Whether a poll at clock reading `now` finds the computation
    /// finished.
    pub open spec fn ready_at(self, now: u128) -> bool {
        match self {
            Work::CountDown { left } => left == 0,
            Work::Timer { sleep } => sleep.elapsed_at(now),
            Work::TimerThenSpawn { sleep, .. } => sleep.elapsed_at(now),
        }
    }

    /// What one poll at clock reading `now` leaves of the computation.
    pub open spec fn after_poll(self, now: u128) -> Work {
        match self {
            Work::CountDown { left } => if left > 0 {
                Work::CountDown { left: (left - 1) as u64 }
            } else {
                self
            },
            _ => self,
        }
    }

    /// The computation, if any, that the executor must spawn when this one
    /// completes.
    pub open spec fn spawn_on_completion(self) -> Option<Work> {
        match self {
            Work::TimerThenSpawn { child, .. } => Some(*child),
            _ => None,
        }
    }

    /// One step of the computation at clock reading `now`.
    pub fn poll(&mut self, now: u128) -> (r: Poll)
        ensures
            r == Poll::Ready <==> old(self).ready_at(now),
            *final(self) == old(self).after_poll(now),
    {
        match self {
            Work::CountDown { left } => {
                if *left == 0 {
                    Poll::Ready
                } else {
                    *left = *left - 1;
                    Poll::Suspended
                }
            },
            Work::Timer { sleep } => sleep.poll_at(now),
            Work::TimerThenSpawn { sleep, .. } => sleep.poll_at(now),
        }
    }

    /// Hands out the computation to spawn on completion, consuming this
    /// one.
    pub fn into_spawned_child(self) -> (r: Option<Work>)
        ensures
            r == self.spawn_on_completion(),
    {
        match self {
            Work::TimerThenSpawn { sleep: _, child } => Some(*child),
            _ => None,
        }
    }
}

/// Relies on std::time::SystemTime::now: the current wall-clock instant,
/// converted to whole milliseconds since the Unix epoch (zero if the clock
/// reads before the epoch).  No relation between two readings is assumed.
#[verifier::external_body]
fn now_millis() -> u128 {
    std::time::SystemTime::now()
        .duration_since(std::time::UNIX_EPOCH)
        .map(|d| d.as_millis())
        .unwrap_or(0)
}

} // verus!
