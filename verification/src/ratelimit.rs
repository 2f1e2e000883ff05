//! Pacing for calls to the external metadata service: a token bucket, so a
//! burst of hundreds of identifiers cannot jointly exceed the service's
//! rate however many callers share it.

use vstd::prelude::*;

verus! {

/// A token bucket: it holds at most `capacity` permits and regains one
/// every `interval_ms` milliseconds.
pub struct TokenBucket {
    capacity: u64,
    interval_ms: u64,
    tokens: u64,
    last_ms: u64,
}

impl TokenBucket {
    pub closed spec fn capacity(self) -> u64 {
        self.capacity
    }

    pub closed spec fn interval_ms(self) -> u64 {
        self.interval_ms
    }

    pub closed spec fn tokens(self) -> u64 {
        self.tokens
    }

    pub closed spec fn last_ms(self) -> u64 {
        self.last_ms
    }

    /// The bucket never holds more than its capacity and its interval is
    /// positive.
    pub open spec fn wf(self) -> bool {
        self.tokens() <= self.capacity() && self.interval_ms() >= 1
    }

    /// The permits on hand at `now`: what was left, plus one per elapsed
    /// interval, never beyond capacity.
    pub open spec fn available_at(self, now_ms: u64) -> int {
        let gained = (now_ms - self.last_ms()) / self.interval_ms() as int;
        if self.tokens() + gained <= self.capacity() {
            self.tokens() + gained
        } else {
            self.capacity() as int
        }
    }

    /// A full bucket.
    pub fn new(capacity: u64, interval_ms: u64, now_ms: u64) -> (r: Self)
        requires
            interval_ms >= 1,
        ensures
            r.wf(),
            r.capacity() == capacity,
            r.interval_ms() == interval_ms,
            r.tokens() == capacity,
            r.last_ms() == now_ms,
    {
        Self { capacity, interval_ms, tokens: capacity, last_ms: now_ms }
    }

    /// Takes one permit if one is on hand at `now`. Granted exactly when a
    /// permit is available; refused, nothing is consumed, and the caller
    /// waits and asks again.
    pub fn try_acquire(&mut self, now_ms: u64) -> (r: bool)
        requires
            old(self).wf(),
            now_ms >= old(self).last_ms(),
        ensures
            final(self).wf(),
            final(self).capacity() == old(self).capacity(),
            final(self).interval_ms() == old(self).interval_ms(),
            r == (old(self).available_at(now_ms) >= 1),
            r ==> final(self).tokens() == old(self).available_at(now_ms) - 1,
            r ==> final(self).last_ms() == old(self).last_ms() + ((now_ms - old(self).last_ms())
                / old(self).interval_ms() as int) * old(self).interval_ms(),
            !r ==> final(self).tokens() == old(self).tokens(),
            !r ==> final(self).last_ms() == old(self).last_ms(),
    {
        let elapsed = now_ms - self.last_ms;
        let gained = elapsed / self.interval_ms;
        proof {
            vstd::arithmetic::div_mod::lemma_fundamental_div_mod(
                elapsed as int,
                self.interval_ms as int,
            );
            assert(gained as int * self.interval_ms as int <= elapsed as int);
        }
        let refilled = if gained >= self.capacity - self.tokens {
            self.capacity
        } else {
            self.tokens + gained
        };
        if refilled == 0 {
            return false;
        }
        self.tokens = refilled - 1;
        self.last_ms = self.last_ms + gained * self.interval_ms;
        true
    }
}

} // verus!
