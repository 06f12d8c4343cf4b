//! A token bucket: a capacity of tokens that refill with time and are
//! consumed by permitted actions.

use vstd::prelude::*;
use crate::clock::unix_seconds;

verus! {

/// The state of one bucket. Timestamps are whole seconds.
#[derive(Clone, Copy, Debug, PartialEq, Eq, Structural)]
pub struct TokenBucket {
    pub tokens: u32,
    pub last_refill: u64,
    pub capacity: u32,
    /// Tokens added per second.
    pub refill_rate: u32,
}

/// One operation on a bucket, with the clock reading it is performed at.
pub enum BucketOp {
    Refill { now: u64 },
    Consume { now: u64, tokens: u32 },
}

/// Seconds from `last` to `now`; zero when the clock went backwards.
pub open spec fn elapsed_seconds(last: u64, now: u64) -> nat {
    if now >= last {
        (now - last) as nat
    } else {
        0
    }
}

impl TokenBucket {
    /// The invariant of a bucket: a positive capacity and rate, and never
    /// more tokens than the capacity.
    pub open spec fn wf(self) -> bool {
        &&& self.capacity > 0
        &&& self.refill_rate > 0
        &&& self.tokens <= self.capacity
    }

    /// A full bucket whose last refill was at `now`.
    pub open spec fn full(capacity: u32, refill_rate: u32, now: u64) -> TokenBucket {
        TokenBucket { tokens: capacity, last_refill: now, capacity, refill_rate }
    }

    /// Whole tokens accrued between the last refill and `now`.
    pub open spec fn accrued(self, now: u64) -> nat {
        elapsed_seconds(self.last_refill, now) * (self.refill_rate as nat)
    }

    /// The bucket after a refill at `now`: the accrued tokens are added and
    /// the sum is clamped to the capacity. The refill time moves only when
    /// at least one token was added.
    pub open spec fn refilled(self, now: u64) -> TokenBucket {
        if self.accrued(now) > 0 {
            TokenBucket {
                tokens: if self.tokens + self.accrued(now) > self.capacity {
                    self.capacity
                } else {
                    (self.tokens + self.accrued(now)) as u32
                },
                last_refill: now,
                capacity: self.capacity,
                refill_rate: self.refill_rate,
            }
        } else {
            self
        }
    }

    /// Whether `n` tokens can be taken from the bucket as it stands.
    pub open spec fn can_take(self, n: u32) -> bool {
        self.tokens >= n
    }

    /// The bucket after an attempt to take `n` tokens, without a refill.
    pub open spec fn taken(self, n: u32) -> TokenBucket {
        if self.can_take(n) {
            TokenBucket {
                tokens: (self.tokens - n) as u32,
                last_refill: self.last_refill,
                capacity: self.capacity,
                refill_rate: self.refill_rate,
            }
        } else {
            self
        }
    }

    /// The bucket after `op`.
    pub open spec fn applied(self, op: BucketOp) -> TokenBucket {
        match op {
            BucketOp::Refill { now } => self.refilled(now),
            BucketOp::Consume { now, tokens } => self.refilled(now).taken(tokens),
        }
    }

    /// The bucket after the operations of `ops`, first to last.
    pub open spec fn run(self, ops: Seq<BucketOp>) -> TokenBucket
        decreases ops.len(),
    {
        if ops.len() == 0 {
            self
        } else {
            self.run(ops.drop_last()).applied(ops.last())
        }
    }

    /// Nanoseconds until a token can be had at `now`: none when the refilled
    /// bucket holds a token, else the time one token takes to accrue.
    pub open spec fn wait_nanos_at(self, now: u64) -> nat {
        if self.refilled(now).tokens > 0 {
            0
        } else {
            (1_000_000_000int / (self.refill_rate as int)) as nat
        }
    }

    /// A full bucket, last refilled at `now`.
    pub fn full_at(capacity: u32, refill_rate: u32, now: u64) -> (bucket: TokenBucket)
        ensures
            bucket == TokenBucket::full(capacity, refill_rate, now),
            capacity > 0 && refill_rate > 0 ==> bucket.wf(),
    {
        TokenBucket { tokens: capacity, last_refill: now, capacity, refill_rate }
    }

    /// A full bucket, last refilled at the clock's present reading.
    pub fn new(capacity: u32, refill_rate: u32) -> (bucket: TokenBucket)
        ensures
            exists|now: u64| bucket == #[trigger] TokenBucket::full(capacity, refill_rate, now),
            bucket.tokens == capacity,
            bucket.capacity == capacity,
            bucket.refill_rate == refill_rate,
    {
        let now: u64 = unix_seconds();
        let bucket = TokenBucket::full_at(capacity, refill_rate, now);
        assert(bucket == TokenBucket::full(capacity, refill_rate, now));
        bucket
    }

    /// Refills the bucket at `now`.
    pub fn refill_at(&mut self, now: u64)
        ensures
            *final(self) == old(self).refilled(now),
            old(self).wf() ==> final(self).wf(),
            final(self).tokens >= old(self).tokens || final(self).tokens == old(self).capacity,
    {
        let elapsed: u64 = if now >= self.last_refill {
            now - self.last_refill
        } else {
            0
        };
        assert(elapsed as nat == elapsed_seconds(self.last_refill, now));
        assert((elapsed as int) * (self.refill_rate as int) <= 0xffff_ffff_ffff_ffff * 0xffff_ffff)
            by (nonlinear_arith)
            requires
                0 <= elapsed as int <= 0xffff_ffff_ffff_ffff,
                0 <= self.refill_rate as int <= 0xffff_ffff,
        ;
        let added: u128 = (elapsed as u128) * (self.refill_rate as u128);
        assert(added as nat == self.accrued(now));
        if added > 0 {
            let sum: u128 = (self.tokens as u128) + added;
            if sum > self.capacity as u128 {
                self.tokens = self.capacity;
            } else {
                self.tokens = sum as u32;
            }
            self.last_refill = now;
        }
    }

    /// Refills the bucket at the clock's present reading.
    pub fn refill(&mut self)
        ensures
            exists|now: u64| *final(self) == #[trigger] old(self).refilled(now),
            final(self).capacity == old(self).capacity,
            final(self).refill_rate == old(self).refill_rate,
            old(self).wf() ==> final(self).wf(),
    {
        let now: u64 = unix_seconds();
        self.refill_at(now);
    }

    /// Refills the bucket at `now`, then takes `tokens` from it if it holds
    /// that many. Returns whether they were taken.
    pub fn try_consume_at(&mut self, now: u64, tokens: u32) -> (granted: bool)
        ensures
            granted == old(self).refilled(now).can_take(tokens),
            *final(self) == old(self).refilled(now).taken(tokens),
            granted ==> final(self).tokens + tokens == old(self).refilled(now).tokens,
            !granted ==> final(self).tokens == old(self).refilled(now).tokens,
            old(self).wf() ==> final(self).wf(),
    {
        self.refill_at(now);
        if self.tokens >= tokens {
            self.tokens -= tokens;
            true
        } else {
            false
        }
    }

    /// Refills the bucket at the clock's present reading, then takes
    /// `tokens` from it if it holds that many. Returns whether they were
    /// taken.
    pub fn try_consume(&mut self, tokens: u32) -> (granted: bool)
        ensures
            exists|now: u64|
                {
                    &&& granted == (#[trigger] old(self).refilled(now)).can_take(tokens)
                    &&& *final(self) == old(self).refilled(now).taken(tokens)
                },
            final(self).capacity == old(self).capacity,
            final(self).refill_rate == old(self).refill_rate,
            old(self).wf() ==> final(self).wf(),
    {
        let now: u64 = unix_seconds();
        self.try_consume_at(now, tokens)
    }

    /// Nanoseconds until a token can be had at `now`. The bucket is not
    /// changed: the refill is only computed.
    pub fn wait_nanos(&self, now: u64) -> (nanos: u64)
        requires
            self.refill_rate > 0,
        ensures
            nanos as nat == self.wait_nanos_at(now),
            nanos <= 1_000_000_000,
    {
        let mut virtual_bucket: TokenBucket = *self;
        virtual_bucket.refill_at(now);
        if virtual_bucket.tokens > 0 {
            0
        } else {
            1_000_000_000u64 / (self.refill_rate as u64)
        }
    }
}

/// Whatever operations are applied to a well-formed bucket, in whatever
/// order and at whatever clock readings, its tokens stay within zero and the
/// capacity, and its capacity and rate stay what they were.
pub proof fn lemma_run_keeps_bounds(bucket: TokenBucket, ops: Seq<BucketOp>)
    requires
        bucket.wf(),
    ensures
        bucket.run(ops).wf(),
        0 <= bucket.run(ops).tokens <= bucket.capacity,
        bucket.run(ops).capacity == bucket.capacity,
        bucket.run(ops).refill_rate == bucket.refill_rate,
    decreases ops.len(),
{
    if ops.len() > 0 {
        lemma_run_keeps_bounds(bucket, ops.drop_last());
    }
}

/// A granted consumption lowers the tokens of the refilled bucket by
/// exactly the amount asked; a refused one leaves them as they are. Neither
/// takes the tokens below zero.
pub proof fn lemma_consume_exact(bucket: TokenBucket, now: u64, n: u32)
    ensures
        bucket.refilled(now).can_take(n) ==> bucket.refilled(now).taken(n).tokens
            == bucket.refilled(now).tokens - n,
        !bucket.refilled(now).can_take(n) ==> bucket.refilled(now).taken(n)
            == bucket.refilled(now),
        bucket.refilled(now).taken(n).tokens >= 0,
        bucket.refilled(now).taken(n).tokens <= bucket.refilled(now).tokens,
{
}

/// A drained bucket refuses a token at once and grants its full capacity
/// again once enough seconds have passed to accrue it.
pub proof fn lemma_drained_bucket_recovers(bucket: TokenBucket, later: u64)
    requires
        bucket.wf(),
        bucket.tokens == 0,
        later >= bucket.last_refill,
        (later - bucket.last_refill) * bucket.refill_rate >= bucket.capacity,
    ensures
        !bucket.refilled(bucket.last_refill).can_take(1),
        bucket.wait_nanos_at(bucket.last_refill) == 1_000_000_000int / (bucket.refill_rate as int),
        bucket.refilled(later).can_take(bucket.capacity),
{
    assert(elapsed_seconds(bucket.last_refill, bucket.last_refill) == 0);
    assert(bucket.accrued(bucket.last_refill) == 0) by (nonlinear_arith)
        requires
            bucket.accrued(bucket.last_refill) == 0 * (bucket.refill_rate as nat),
    ;
    assert(bucket.accrued(later) == (later - bucket.last_refill) * bucket.refill_rate);
}

} // verus!
