//! Rate limiting for the login route: a token-bucket limiter keyed by client
//! identity. Each key owns a bucket that refills one token per interval up to
//! a burst capacity; a request spends a token or is rejected with an advisory
//! retry-after duration. Time enters as an argument, so the decision itself
//! is a pure, verified computation.

use vstd::prelude::*;

use crate::kv::{KVTable, MemoryTable};

verus! {

/// One client's bucket: how many tokens are left and when tokens were last
/// replenished, in milliseconds.
#[derive(Clone, Copy, PartialEq, Eq, Structural, Debug)]
pub struct BucketState {
    pub tokens: u32,
    pub last_refill_ms: u64,
}

/// The limiter's answer for one request.
#[derive(Clone, Copy, PartialEq, Eq, Structural, Debug)]
pub enum RateLimitOutcome {
    Allowed,
    /// Rejected; the client is advised to retry after this many seconds.
    Limited { retry_after_seconds: u64 },
}

/// The bucket a key starts from when it was never seen: full.
pub open spec fn fresh_bucket(capacity: u32, now: int) -> BucketState {
    BucketState { tokens: capacity, last_refill_ms: now as u64 }
}

/// The bucket after replenishing at time `now`: one token per elapsed
/// interval, capped at the capacity; the refill time advances by the whole
/// intervals consumed, so the remainder keeps counting toward the next token.
pub open spec fn refilled(capacity: int, interval_ms: int, st: BucketState, now: int) -> BucketState
    recommends
        interval_ms >= 1,
{
    let elapsed = if now >= st.last_refill_ms {
        now - st.last_refill_ms
    } else {
        0
    };
    let refill = elapsed / interval_ms;
    if st.tokens + refill >= capacity {
        BucketState { tokens: capacity as u32, last_refill_ms: now as u64 }
    } else {
        BucketState {
            tokens: (st.tokens + refill) as u32,
            last_refill_ms: (st.last_refill_ms + refill * interval_ms) as u64,
        }
    }
}

/// The decision and the bucket it leaves behind: spend a token if one is
/// there, else reject with the time until the next token, rounded up to
/// whole seconds.
pub open spec fn bucket_step(
    capacity: int,
    interval_ms: int,
    st: BucketState,
    now: int,
) -> (BucketState, RateLimitOutcome)
    recommends
        interval_ms >= 1,
{
    let b = refilled(capacity, interval_ms, st, now);
    if b.tokens > 0 {
        (
            BucketState { tokens: (b.tokens - 1) as u32, last_refill_ms: b.last_refill_ms },
            RateLimitOutcome::Allowed,
        )
    } else {
        let elapsed = if now >= b.last_refill_ms {
            now - b.last_refill_ms
        } else {
            0
        };
        let wait_ms = interval_ms - elapsed;
        (b, RateLimitOutcome::Limited { retry_after_seconds: ((wait_ms + 999) / 1000) as u64 })
    }
}

/// The shared limiter: one bucket per client key.
pub struct RateLimit {
    capacity: u32,
    interval_ms: u64,
    buckets: MemoryTable<BucketState>,
}

impl RateLimit {
    /// The representation is well formed: sane parameters, a well-formed
    /// table, and no bucket fuller than the capacity or stamped in the
    /// future's far distance.
    pub closed spec fn wf(&self) -> bool {
        &&& self.capacity >= 1
        &&& self.interval_ms >= 1
        &&& self.interval_ms <= 1_000_000
        &&& self.buckets.wf()
        &&& forall|k: Seq<char>|
            self.buckets@.contains_key(k) ==> #[trigger] self.buckets@[k].tokens <= self.capacity
    }

    /// The burst capacity.
    pub closed spec fn spec_capacity(&self) -> int {
        self.capacity as int
    }

    /// The replenish interval in milliseconds.
    pub closed spec fn spec_interval_ms(&self) -> int {
        self.interval_ms as int
    }

    /// The buckets by key.
    pub closed spec fn view(&self) -> Map<Seq<char>, BucketState> {
        self.buckets@
    }

    /// A limiter that admits bursts of ten and replenishes ten tokens a
    /// minute, the throttle the login route runs under.
    pub fn new() -> (r: RateLimit)
        ensures
            r.wf(),
            r.spec_capacity() == 10,
            r.spec_interval_ms() == 6000,
            r@ == Map::<Seq<char>, BucketState>::empty(),
    {
        RateLimit { capacity: 10, interval_ms: 6000, buckets: MemoryTable::new() }
    }

    /// Decides one request: replenishes the key's bucket to `now`, then
    /// spends a token or rejects with the advisory wait. The outcome and the
    /// stored bucket follow `bucket_step` exactly.
    pub fn check_key(&mut self, key: &str, now_ms: u64) -> (r: RateLimitOutcome)
        requires
            old(self).wf(),
        ensures
            final(self).wf(),
            final(self).spec_capacity() == old(self).spec_capacity(),
            final(self).spec_interval_ms() == old(self).spec_interval_ms(),
            ({
                let st = if old(self)@.contains_key(key@) {
                    old(self)@[key@]
                } else {
                    fresh_bucket(old(self).spec_capacity() as u32, now_ms as int)
                };
                let step = bucket_step(
                    old(self).spec_capacity(),
                    old(self).spec_interval_ms(),
                    st,
                    now_ms as int,
                );
                r == step.1 && final(self)@ == old(self)@.insert(key@, step.0)
            }),
    {
        let st: BucketState = match self.buckets.get(key) {
            Some(b) => *b,
            None => BucketState { tokens: self.capacity, last_refill_ms: now_ms },
        };
        let elapsed: u64 = if now_ms >= st.last_refill_ms {
            now_ms - st.last_refill_ms
        } else {
            0
        };
        let refill: u64 = elapsed / self.interval_ms;
        proof {
            vstd::arithmetic::div_mod::lemma_remainder_lower(elapsed as int, self.interval_ms as int);
            vstd::arithmetic::div_mod::lemma_remainder(elapsed as int, self.interval_ms as int);
            assert(refill * self.interval_ms <= elapsed);
        }
        let refilled_bucket: BucketState = if refill >= self.capacity as u64 || st.tokens as u64
            + refill >= self.capacity as u64 {
            BucketState { tokens: self.capacity, last_refill_ms: now_ms }
        } else {
            BucketState {
                tokens: st.tokens + refill as u32,
                last_refill_ms: st.last_refill_ms + refill * self.interval_ms,
            }
        };
        if refilled_bucket.tokens > 0 {
            let spent = BucketState {
                tokens: refilled_bucket.tokens - 1,
                last_refill_ms: refilled_bucket.last_refill_ms,
            };
            self.buckets.put(key, spent);
            RateLimitOutcome::Allowed
        } else {
            let back_elapsed: u64 = if now_ms >= refilled_bucket.last_refill_ms {
                now_ms - refilled_bucket.last_refill_ms
            } else {
                0
            };
            proof {
                assert(back_elapsed < self.interval_ms);
            }
            let wait_ms: u64 = self.interval_ms - back_elapsed;
            self.buckets.put(key, refilled_bucket);
            RateLimitOutcome::Limited { retry_after_seconds: (wait_ms + 999) / 1000 }
        }
    }
}

} // verus!
