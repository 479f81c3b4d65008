//! Bounded recovery from engine failures: a failed start opens an incident with six retries,
//! after which nothing but a fresh cause starts the engine again.
//!
//! Times are nanoseconds on a monotonic clock.

use vstd::prelude::*;

verus! {

/// One second.
pub const SECOND: u64 = 1_000_000_000;

/// How many retries an incident has.
pub const RETRY_LIMIT: usize = 6;

/// The delay before retry number `n`, counted from zero: 1, 2, 4, 8, 16, and 30 seconds.
pub open spec fn retry_delay(n: int) -> int {
    SECOND * if n == 0 {
        1int
    } else if n == 1 {
        2
    } else if n == 2 {
        4
    } else if n == 3 {
        8
    } else if n == 4 {
        16
    } else {
        30
    }
}

/// There is room on the clock after `now` for the longest delay.
pub open spec fn clock_has_room(now: u64) -> bool {
    now + 30 * SECOND <= u64::MAX
}

/// The state of the current incident.
#[derive(Clone, Copy, Debug, PartialEq, Eq, Structural)]
pub struct Recovery {
    /// Retries that failed so far.
    pub retries_attempted: usize,
    /// When the next retry is due.
    pub next_retry: Option<u64>,
    /// All retries failed.
    pub exhausted: bool,
}

impl Recovery {
    /// No incident.
    pub open spec fn fresh() -> Recovery {
        Recovery { retries_attempted: 0, next_retry: None, exhausted: false }
    }

    /// An incident never has more retries than the limit; once exhausted it has no next one.
    pub open spec fn wf(self) -> bool {
        &&& self.retries_attempted <= RETRY_LIMIT
        &&& self.exhausted ==> self.next_retry is None
        &&& self.next_retry is Some ==> self.retries_attempted < RETRY_LIMIT
    }

    /// The incident after an initial failure.
    pub open spec fn opened(now: u64) -> Recovery {
        Recovery {
            retries_attempted: 0,
            next_retry: Some((now + retry_delay(0)) as u64),
            exhausted: false,
        }
    }

    /// The incident after one more failed retry.
    pub open spec fn after_failure(self, now: u64) -> Recovery {
        let n = self.retries_attempted + 1;
        if n >= RETRY_LIMIT {
            Recovery { retries_attempted: n as usize, next_retry: None, exhausted: true }
        } else {
            Recovery {
                retries_attempted: n as usize,
                next_retry: Some((now + retry_delay(n)) as u64),
                ..self
            }
        }
    }

    /// The state with its next retry cancelled.
    pub open spec fn paused(self) -> Recovery {
        Recovery { next_retry: None, ..self }
    }

    /// The next retry is due.
    pub open spec fn is_due(self, now: u64) -> bool {
        self.next_retry matches Some(at) && now >= at
    }

    /// A new state without an incident.
    pub fn new() -> (r: Recovery)
        ensures
            r == Recovery::fresh(),
            r.wf(),
    {
        Recovery { retries_attempted: 0, next_retry: None, exhausted: false }
    }

    /// Forget the incident.
    pub fn reset(&mut self)
        ensures
            *final(self) == Recovery::fresh(),
            final(self).wf(),
    {
        *self = Recovery::new();
    }

    /// Cancel the next retry, and keep the count.
    pub fn pause(&mut self)
        ensures
            *final(self) == old(self).paused(),
            old(self).wf() ==> final(self).wf(),
    {
        self.next_retry = None;
    }

    /// Schedule after an initial failure, before any retries have run.
    pub fn schedule_initial(&mut self, now: u64)
        requires
            now + retry_delay(0) <= u64::MAX,
        ensures
            *final(self) == Recovery::opened(now),
            final(self).wf(),
    {
        *self = Recovery { retries_attempted: 0, next_retry: Some(now + SECOND), exhausted: false };
    }

    /// Record one failed retry and either schedule the next or exhaust the incident.
    pub fn retry_failed(&mut self, now: u64)
        requires
            old(self).retries_attempted < usize::MAX,
            old(self).retries_attempted + 1 < RETRY_LIMIT ==> now + retry_delay(
                old(self).retries_attempted + 1,
            ) <= u64::MAX,
        ensures
            *final(self) == old(self).after_failure(now),
            old(self).wf() && old(self).retries_attempted < RETRY_LIMIT && !old(self).exhausted
                ==> final(self).wf(),
    {
        let n: usize = self.retries_attempted + 1;
        self.retries_attempted = n;
        if n >= RETRY_LIMIT {
            self.next_retry = None;
            self.exhausted = true;
        } else {
            let delay: u64 = if n == 1 {
                2
            } else if n == 2 {
                4
            } else if n == 3 {
                8
            } else if n == 4 {
                16
            } else {
                30
            };
            self.next_retry = Some(now + delay * SECOND);
        }
    }

    /// Whether the next retry is due.
    pub fn due(&self, now: u64) -> (r: bool)
        ensures
            r == self.is_due(now),
    {
        match self.next_retry {
            Some(at) => now >= at,
            None => false,
        }
    }
}

/// The incident after failed retries at the given times.
pub open spec fn after_failures(r: Recovery, times: Seq<u64>) -> Recovery
    decreases times.len(),
{
    if times.len() == 0 {
        r
    } else {
        after_failures(r, times.drop_last()).after_failure(times.last())
    }
}

/// An incident is bounded: at first the next retry is due after one second; after each of the
/// first five failed retries the next one is due 2, 4, 8, 16, and 30 seconds later; and after
/// six none is scheduled any more.
pub proof fn incident_is_bounded(start: u64, times: Seq<u64>)
    requires
        start + SECOND <= u64::MAX,
        times.len() <= RETRY_LIMIT,
        0 < times.len() < RETRY_LIMIT ==> times.last() + retry_delay(times.len() as int)
            <= u64::MAX,
    ensures
        ({
            let k = times.len();
            let r = after_failures(Recovery::opened(start), times);
            &&& r.wf()
            &&& r.retries_attempted == k
            &&& r.exhausted <==> k == RETRY_LIMIT
            &&& r.next_retry is None <==> k == RETRY_LIMIT
            &&& k == 0 ==> r.next_retry->0 == start + SECOND
            &&& 0 < k < RETRY_LIMIT ==> r.next_retry->0 == times.last() + SECOND * seq![
                2int,
                4,
                8,
                16,
                30,
            ][k - 1]
        }),
{
    failures_count(start, times);
}

proof fn failures_count(start: u64, times: Seq<u64>)
    requires
        times.len() <= RETRY_LIMIT,
    ensures
        ({
            let r = after_failures(Recovery::opened(start), times);
            &&& r.wf()
            &&& r.retries_attempted == times.len()
            &&& r.exhausted <==> times.len() == RETRY_LIMIT
            &&& r.next_retry is None <==> times.len() == RETRY_LIMIT
            &&& 0 < times.len() < RETRY_LIMIT ==> r.next_retry == Some(
                (times.last() + retry_delay(times.len() as int)) as u64,
            )
        }),
    decreases times.len(),
{
    if times.len() > 0 {
        failures_count(start, times.drop_last());
    }
}

/// From any state, the exhausted one included: an incident that is opened is due one second
/// later and from then on, and one that is paused or forgotten is never due. What is due stays
/// due until the state changes.
pub proof fn due_from_then_on(r: Recovery, start: u64, t: u64, later: u64)
    requires
        start + SECOND <= u64::MAX,
    ensures
        Recovery::opened(start).is_due(t) <==> t >= start + SECOND,
        !r.paused().is_due(t),
        !Recovery::fresh().is_due(t),
        r.is_due(t) && t <= later ==> r.is_due(later),
{
}

} // verus!
