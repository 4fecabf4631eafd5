//! Bounded polling for an element that the page may render late.

use vstd::prelude::*;

verus! {

/// How many times a selector is queried before giving up.
pub const MAX_ATTEMPTS: u32 = 5;

/// The pause between two queries, in milliseconds.
pub const POLL_INTERVAL_MS: u64 = 500;

/// What to do after one query of the page.
#[derive(Clone, Copy, Debug, PartialEq, Eq, Structural)]
pub enum PollStep {
    /// The element was found: hand it back.
    Found,
    /// Sleep this long, then query again.
    Retry { sleep_ms: u64 },
    /// Every attempt missed: there is no element.
    GiveUp,
}

/// The attempts made so far for one selector. An absent element and a
/// failed query both count as a miss.
pub struct ElementWait {
    attempts: u32,
}

impl ElementWait {
    pub closed spec fn attempts_made(&self) -> nat {
        self.attempts as nat
    }

    pub fn new() -> (r: ElementWait)
        ensures
            r.attempts_made() == 0,
    {
        ElementWait { attempts: 0 }
    }

    pub fn attempts(&self) -> (r: u32)
        ensures
            r == self.attempts_made(),
    {
        self.attempts
    }

    /// Records the outcome of one more query and says what comes next.
    pub fn record(&mut self, hit: bool) -> (r: PollStep)
        requires
            old(self).attempts_made() < MAX_ATTEMPTS,
        ensures
            final(self).attempts_made() == old(self).attempts_made() + 1,
            r == (if hit {
                PollStep::Found
            } else if final(self).attempts_made() < MAX_ATTEMPTS {
                PollStep::Retry { sleep_ms: POLL_INTERVAL_MS }
            } else {
                PollStep::GiveUp
            }),
    {
        self.attempts = self.attempts + 1;
        if hit {
            PollStep::Found
        } else if self.attempts < MAX_ATTEMPTS {
            PollStep::Retry { sleep_ms: POLL_INTERVAL_MS }
        } else {
            PollStep::GiveUp
        }
    }
}

/// What a wait came to: the attempt that found the element, how many
/// queries were made and how long was slept in between.
#[derive(Clone, Copy, Debug, PartialEq, Eq, Structural)]
pub struct WaitReport {
    pub found_at: Option<u32>,
    pub attempts: u32,
    pub slept_ms: u64,
}

/// Query number `k` (from 0) found the element.
pub open spec fn hit_at(outcomes: Seq<bool>, k: int) -> bool {
    0 <= k < outcomes.len() && outcomes[k]
}

/// Runs the waiter against the outcomes that successive queries would have
/// (queries past the end of `outcomes` miss), sleeping on a counter rather
/// than a clock. The first hit within the bound ends the wait; without one,
/// the wait gives up after exactly `MAX_ATTEMPTS` queries and the pauses
/// between them.
pub fn replay_wait(outcomes: &Vec<bool>) -> (r: WaitReport)
    ensures
        r.found_at matches Some(k) ==> {
            &&& k < MAX_ATTEMPTS
            &&& hit_at(outcomes@, k as int)
            &&& forall|j: int| 0 <= j < k ==> !hit_at(outcomes@, j)
            &&& r.attempts == k + 1
            &&& r.slept_ms == POLL_INTERVAL_MS * k
        },
        r.found_at is None ==> {
            &&& forall|j: int| 0 <= j < MAX_ATTEMPTS ==> !hit_at(outcomes@, j)
            &&& r.attempts == MAX_ATTEMPTS
            &&& r.slept_ms == POLL_INTERVAL_MS * (MAX_ATTEMPTS - 1)
        },
{
    let mut w = ElementWait::new();
    let mut slept: u64 = 0;
    loop
        invariant
            w.attempts_made() < MAX_ATTEMPTS,
            slept == POLL_INTERVAL_MS * w.attempts_made(),
            forall|j: int| 0 <= j < w.attempts_made() ==> !hit_at(outcomes@, j),
        decreases MAX_ATTEMPTS - w.attempts_made(),
    {
        let k = w.attempts();
        let hit = (k as usize) < outcomes.len() && outcomes[k as usize];
        match w.record(hit) {
            PollStep::Found => {
                return WaitReport { found_at: Some(k), attempts: k + 1, slept_ms: slept };
            },
            PollStep::Retry { sleep_ms } => {
                slept = slept + sleep_ms;
            },
            PollStep::GiveUp => {
                return WaitReport { found_at: None, attempts: MAX_ATTEMPTS, slept_ms: slept };
            },
        }
    }
}

} // verus!
