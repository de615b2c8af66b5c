//! The election timer: one deadline at a time, set anew with a random duration on each reset.
//!
//! The timer reads no clock and draws no random numbers. Its caller hands it the time, in
//! milliseconds on any clock that does not run backwards, and a random number.

use vstd::prelude::*;

verus! {

/// What a timer is made of: the range of its durations and the deadline that is live.
pub struct TimerState {
    /// The shortest duration, in milliseconds.
    pub min_ms: u64,
    /// The bound that every duration stays under.
    pub max_ms: u64,
    /// When the timer fires next; `None` while it is not armed.
    pub deadline: Option<u64>,
}

/// The duration that the random number `sample` selects from the range `min_ms..max_ms`.
pub open spec fn timeout_for(min_ms: u64, max_ms: u64, sample: u64) -> int {
    min_ms + (sample as int) % (max_ms - min_ms)
}

/// The time `timeout` milliseconds after `now_ms`, or the last time that can be told if
/// that lies beyond it.
pub open spec fn deadline_after(now_ms: u64, timeout: int) -> u64 {
    if now_ms + timeout > u64::MAX {
        u64::MAX
    } else {
        (now_ms + timeout) as u64
    }
}

impl TimerState {
    /// The timer is armed and its deadline has come.
    pub open spec fn expired(self, now_ms: u64) -> bool {
        self.deadline matches Some(deadline) && deadline <= now_ms
    }

    /// The timer after a reset at `now_ms` with the random number `sample`.
    pub open spec fn reset(self, now_ms: u64, sample: u64) -> TimerState {
        TimerState {
            deadline: Some(
                deadline_after(now_ms, timeout_for(self.min_ms, self.max_ms, sample)),
            ),
            ..self
        }
    }

    /// The timer with no deadline live.
    pub open spec fn disarmed(self) -> TimerState {
        TimerState { deadline: None, ..self }
    }
}

/// Every duration of a range is the duration of some random number, and no random number
/// selects a duration outside the range.
pub proof fn law_timeouts_fill_range(min_ms: u64, max_ms: u64, timeout: int)
    requires
        min_ms < max_ms,
    ensures
        (min_ms <= timeout < max_ms) <==> exists|sample: u64|
            timeout_for(min_ms, max_ms, sample) == timeout,
{
    if min_ms <= timeout < max_ms {
        let sample = (timeout - min_ms) as u64;
        vstd::arithmetic::div_mod::lemma_small_mod(sample as nat, (max_ms - min_ms) as nat);
        assert(timeout_for(min_ms, max_ms, sample) == timeout);
    }
}

/// A single-shot, resettable election timer.
#[derive(Debug)]
pub struct ElectionTimer {
    min_ms: u64,
    max_ms: u64,
    deadline: Option<u64>,
}

impl View for ElectionTimer {
    type V = TimerState;

    closed spec fn view(&self) -> TimerState {
        TimerState { min_ms: self.min_ms, max_ms: self.max_ms, deadline: self.deadline }
    }
}

impl Clone for ElectionTimer {
    fn clone(&self) -> (copy: ElectionTimer)
        ensures
            copy@ == self@,
    {
        proof {
            use_type_invariant(self);
        }
        ElectionTimer { min_ms: self.min_ms, max_ms: self.max_ms, deadline: self.deadline }
    }
}

impl ElectionTimer {
    /// What holds of every timer: its range holds a duration.
    #[verifier::type_invariant]
    pub open spec fn wf(self) -> bool {
        self@.min_ms < self@.max_ms
    }

    /// A timer that is not armed, with durations of at least `min_ms` and less than
    /// `max_ms` milliseconds; `None` if there is no such duration.
    pub fn new(min_ms: u64, max_ms: u64) -> (made: Option<ElectionTimer>)
        ensures
            made is Some <==> min_ms < max_ms,
            made matches Some(timer) ==> timer@ == (TimerState { min_ms, max_ms, deadline: None }),
    {
        if min_ms < max_ms {
            Some(ElectionTimer { min_ms, max_ms, deadline: None })
        } else {
            None
        }
    }

    /// Arms the timer anew: the deadline that was live is dropped, and the new one lies
    /// after `now_ms` by the duration that `sample` selects. Returns the new deadline.
    pub fn reset(&mut self, now_ms: u64, sample: u64) -> (deadline: u64)
        ensures
            final(self)@ == old(self)@.reset(now_ms, sample),
            final(self)@.deadline == Some(deadline),
            deadline < u64::MAX ==> old(self)@.min_ms <= deadline - now_ms < old(self)@.max_ms,
    {
        proof {
            use_type_invariant(&*self);
        }
        let timeout = self.min_ms + sample % (self.max_ms - self.min_ms);
        let deadline = match now_ms.checked_add(timeout) {
            Some(deadline) => deadline,
            None => u64::MAX,
        };
        self.deadline = Some(deadline);
        deadline
    }

    /// Disarms the timer.
    pub fn cancel(&mut self)
        ensures
            final(self)@ == old(self)@.disarmed(),
    {
        proof {
            use_type_invariant(&*self);
        }
        self.deadline = None;
    }

    /// The deadline that is live, if the timer is armed.
    pub fn deadline(&self) -> (deadline: Option<u64>)
        ensures
            deadline == self@.deadline,
    {
        self.deadline
    }

    /// The milliseconds from `now_ms` to the deadline, if the timer is armed; 0 if the
    /// deadline has come.
    pub fn remaining(&self, now_ms: u64) -> (left: Option<u64>)
        ensures
            left is Some <==> self@.deadline is Some,
            left matches Some(ms) ==> ms == if self@.expired(now_ms) {
                0
            } else {
                self@.deadline->0 - now_ms
            },
    {
        match self.deadline {
            Some(deadline) => if deadline <= now_ms {
                Some(0)
            } else {
                Some(deadline - now_ms)
            },
            None => None,
        }
    }

    /// Fires the timer if its deadline has come: it is then disarmed until the next reset,
    /// so one deadline fires once. Returns whether it fired.
    pub fn fire(&mut self, now_ms: u64) -> (fired: bool)
        ensures
            fired == old(self)@.expired(now_ms),
            final(self)@ == if fired {
                old(self)@.disarmed()
            } else {
                old(self)@
            },
    {
        proof {
            use_type_invariant(&*self);
        }
        match self.deadline {
            Some(deadline) => {
                if deadline <= now_ms {
                    self.deadline = None;
                    true
                } else {
                    false
                }
            },
            None => false,
        }
    }
}

} // verus!
