use vstd::prelude::*;

verus! {

/// A computation that becomes ready once a deadline has passed. Times are
/// nanoseconds on one monotonic clock that the caller reads; tasks are named
/// by id.
pub struct Delay {
    /// The deadline.
    pub when: u64,
    /// The task that the timer will wake; `None` until the first poll, which
    /// starts the timer.
    pub waker: Option<u64>,
}

/// What the caller must do after a poll of a `Delay`.
#[derive(Clone, Copy, Debug, PartialEq, Eq, Structural)]
pub enum TimerAction {
    /// First poll: start one timer thread that waits until the deadline and
    /// then wakes `task`.
    Start { task: u64 },
    /// The timer is already running for another task: from now on it wakes
    /// `task` instead.
    Retarget { task: u64 },
    /// The timer already wakes the polling task.
    Keep,
}

/// Time still to wait from `now` until `deadline`; zero once it has passed.
pub open spec fn remaining_spec(now: u64, deadline: u64) -> u64 {
    if now < deadline {
        (deadline - now) as u64
    } else {
        0
    }
}

/// The delay of length `dur` created at `now`.
pub open spec fn delay_spec(now: u64, dur: u64) -> Delay {
    Delay { when: (now + dur) as u64, waker: None }
}

/// Whether a poll of `d` at `now` returns `Ready`.
pub open spec fn ready_at(d: Delay, now: u64) -> bool {
    now >= d.when
}

/// What must be done with the timer when task `task` polls `d`.
pub open spec fn action_spec(d: Delay, task: u64) -> TimerAction {
    match d.waker {
        None => TimerAction::Start { task },
        Some(w) => if w == task {
            TimerAction::Keep
        } else {
            TimerAction::Retarget { task }
        },
    }
}

/// Time that a timer thread started at `now` sleeps before it fires.
pub fn remaining(now: u64, deadline: u64) -> (r: u64)
    ensures
        r == remaining_spec(now, deadline),
        now + r >= deadline,
{
    if now < deadline {
        deadline - now
    } else {
        0
    }
}

/// A delay of `dur` that starts at `now`. The deadline must be representable
/// on the clock.
pub fn delay(now: u64, dur: u64) -> (d: Delay)
    requires
        now + dur <= u64::MAX,
    ensures
        d == delay_spec(now, dur),
{
    Delay { when: now + dur, waker: None }
}

impl Delay {
    /// Polls the delay at time `now` on behalf of task `task`. Returns whether
    /// it is ready (the deadline has passed) and what must be done with the
    /// timer: start it on the first poll, point it at `task` if it wakes
    /// another task, else nothing.
    pub fn poll(&mut self, now: u64, task: u64) -> (r: (bool, TimerAction))
        ensures
            r.0 == ready_at(*old(self), now),
            r.1 == action_spec(*old(self), task),
            final(self).when == old(self).when,
            final(self).waker == Some(task),
    {
        let action = match self.waker {
            None => TimerAction::Start { task },
            Some(w) => if w == task {
                TimerAction::Keep
            } else {
                TimerAction::Retarget { task }
            },
        };
        self.waker = Some(task);
        (now >= self.when, action)
    }
}

/// A delay is never ready before its length has passed since its creation,
/// and always is once it has.
pub proof fn lemma_delay_not_early(t0: u64, dur: u64, t1: u64)
    requires
        t0 + dur <= u64::MAX,
    ensures
        ready_at(delay_spec(t0, dur), t1) <==> t1 >= t0 + dur,
{
}

/// Two delays awaited one after the other: the second is created no earlier
/// than the time at which the first was found ready, so the second is found
/// ready no earlier than the sum of both lengths after the first began.
pub proof fn lemma_sequential_delays(t0: u64, d1: u64, t1: u64, c2: u64, d2: u64, t2: u64)
    requires
        t0 + d1 <= u64::MAX,
        c2 + d2 <= u64::MAX,
        ready_at(delay_spec(t0, d1), t1),
        t1 <= c2,
        ready_at(delay_spec(c2, d2), t2),
    ensures
        t2 >= t0 + d1 + d2,
{
}

} // verus!
