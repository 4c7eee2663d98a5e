//! A token bucket: up to `max_per_minute` calls at once, refilled at
//! `max_per_minute` tokens per minute.
//!
//! Tokens are counted exactly, in units of 1/(60·10⁹) token: a bucket that
//! allows `m` calls per minute gains `m` units per nanosecond, so every
//! refill is an exact integer.
use crate::clock::{duration_as_nanos, instant_elapsed, instant_now};
use std::time::Instant;
use vstd::prelude::*;

verus! {

/// Units in one token.
pub const UNITS_PER_TOKEN: u128 = 60_000_000_000;

/// Nanoseconds in one second.
pub const NANOS_PER_SEC: u128 = 1_000_000_000;

/// A token bucket that refills with the monotonic clock.
pub struct TokenBucket {
    tokens: u128,
    max_tokens: u128,
    /// Units gained per nanosecond (= calls allowed per minute).
    refill_rate: u128,
    /// When the bucket was made; times are read as nanoseconds since then.
    origin: Instant,
    /// When the bucket last refilled, in nanoseconds since `origin`.
    last_refill_ns: u128,
}

/// The model of a bucket, in units.
pub struct BucketView {
    pub tokens: nat,
    pub max_tokens: nat,
    pub refill_rate: nat,
    /// When the bucket last refilled, in nanoseconds since it was made.
    pub last_refill_ns: nat,
}

/// A well-formed bucket: capacity `refill_rate` tokens, never more than that.
pub open spec fn bucket_wf(b: BucketView) -> bool {
    &&& b.max_tokens == b.refill_rate * UNITS_PER_TOKEN
    &&& b.tokens <= b.max_tokens
    &&& b.refill_rate <= u64::MAX
}

/// The units after `elapsed_ns` nanoseconds of refill, capped at capacity.
pub open spec fn refilled(b: BucketView, elapsed_ns: nat) -> nat {
    if b.tokens + elapsed_ns * b.refill_rate >= b.max_tokens {
        b.max_tokens
    } else {
        b.tokens + elapsed_ns * b.refill_rate
    }
}

/// The nanoseconds from `last` to `now`; none where `now` is earlier.
pub open spec fn elapsed_since(last: nat, now: nat) -> nat {
    if now >= last {
        (now - last) as nat
    } else {
        0
    }
}

/// One call after `elapsed_ns` nanoseconds: refill, then take one token if
/// there is one.  Gives the new bucket and whether the call is allowed.
pub open spec fn consume_after(b: BucketView, elapsed_ns: nat) -> (BucketView, bool) {
    let t = refilled(b, elapsed_ns);
    if t >= UNITS_PER_TOKEN {
        (BucketView { tokens: (t - UNITS_PER_TOKEN) as nat, ..b }, true)
    } else {
        (BucketView { tokens: t, ..b }, false)
    }
}

/// Whole seconds until a token is available: none where one is; the largest
/// `u64` where the bucket never refills; otherwise the missing units divided
/// by the units per second, rounded up.
pub open spec fn spec_retry_after_secs(b: BucketView) -> int {
    if b.tokens >= UNITS_PER_TOKEN {
        0
    } else if b.refill_rate == 0 {
        u64::MAX as int
    } else {
        let missing = UNITS_PER_TOKEN - b.tokens;
        let per_sec = b.refill_rate * NANOS_PER_SEC;
        (missing + per_sec - 1) / per_sec
    }
}

/// `k` calls in a row with no time passing between them: the bucket after
/// them and how many were allowed.
pub open spec fn calls_without_waiting(b: BucketView, k: nat) -> (BucketView, nat)
    decreases k,
{
    if k == 0 {
        (b, 0)
    } else {
        let (b1, ok) = consume_after(b, 0);
        let (b2, n) = calls_without_waiting(b1, (k - 1) as nat);
        (b2, if ok { n + 1 } else { n })
    }
}

impl View for TokenBucket {
    type V = BucketView;

    closed spec fn view(&self) -> BucketView {
        BucketView {
            tokens: self.tokens as nat,
            max_tokens: self.max_tokens as nat,
            refill_rate: self.refill_rate as nat,
            last_refill_ns: self.last_refill_ns as nat,
        }
    }
}

/// Capacity never exceeds what fits a `u128`.
proof fn lemma_capacity_bound(rate: nat)
    requires
        rate <= u64::MAX,
    ensures
        rate * UNITS_PER_TOKEN <= u64::MAX * UNITS_PER_TOKEN,
        rate * NANOS_PER_SEC <= u64::MAX * NANOS_PER_SEC,
{
    assert(rate * UNITS_PER_TOKEN <= u64::MAX * UNITS_PER_TOKEN) by (nonlinear_arith)
        requires
            rate <= u64::MAX,
    ;
    assert(rate * NANOS_PER_SEC <= u64::MAX * NANOS_PER_SEC) by (nonlinear_arith)
        requires
            rate <= u64::MAX,
    ;
}

impl TokenBucket {
    #[verifier::type_invariant]
    spec fn inv(self) -> bool {
        bucket_wf(self@)
    }

    /// A full bucket of `max_per_minute` tokens.
    pub fn new(max_per_minute: u64) -> (r: TokenBucket)
        ensures
            r@.refill_rate == max_per_minute,
            r@.max_tokens == max_per_minute * UNITS_PER_TOKEN,
            r@.tokens == r@.max_tokens,
            r@.last_refill_ns == 0,
    {
        proof {
            lemma_capacity_bound(max_per_minute as nat);
        }
        let rate = max_per_minute as u128;
        let max = rate * UNITS_PER_TOKEN;
        TokenBucket { tokens: max, max_tokens: max, refill_rate: rate, origin: instant_now(), last_refill_ns: 0 }
    }

    /// Refills for `elapsed_ns` nanoseconds.
    fn refill_by(&mut self, elapsed_ns: u128)
        ensures
            final(self)@ == (BucketView { tokens: refilled(old(self)@, elapsed_ns as nat), ..old(self)@ }),
            final(self).origin == old(self).origin,
    {
        proof {
            use_type_invariant(&*self);
        }
        let room = self.max_tokens - self.tokens;
        if self.refill_rate == 0 {
            proof {
                assert(elapsed_ns * 0 == 0) by (nonlinear_arith);
            }
            return;
        }
        let rate = self.refill_rate;
        if elapsed_ns > room / rate {
            proof {
                assert(elapsed_ns * rate > room) by (nonlinear_arith)
                    requires
                        elapsed_ns > room / rate,
                        rate > 0,
                ;
            }
            self.tokens = self.max_tokens;
        } else {
            proof {
                assert(elapsed_ns * rate <= room) by (nonlinear_arith)
                    requires
                        elapsed_ns <= room / rate,
                        rate > 0,
                ;
            }
            self.tokens = self.tokens + elapsed_ns * rate;
        }
    }

    /// One call after `elapsed_ns` nanoseconds since the last refill, with the
    /// time given rather than read from the clock: the bucket refills for that
    /// time, then the call takes a token if one is there.  The refill mark is
    /// left where it was.  Returns whether the call is allowed.
    pub fn try_consume_after(&mut self, elapsed_ns: u128) -> (r: bool)
        ensures
            (final(self)@, r) == consume_after(old(self)@, elapsed_ns as nat),
    {
        self.refill_by(elapsed_ns);
        proof {
            use_type_invariant(&*self);
        }
        if self.tokens >= UNITS_PER_TOKEN {
            self.tokens = self.tokens - UNITS_PER_TOKEN;
            true
        } else {
            false
        }
    }

    /// One call now: the bucket refills for the time since its last refill
    /// (none where the clock reads earlier), is marked refilled now, then the
    /// call takes a token if one is there.  Returns whether the call is allowed.
    pub fn try_consume(&mut self) -> (r: bool)
        ensures
            exists|now: nat|
                (final(self)@, r) == consume_after(
                    BucketView { last_refill_ns: now, ..old(self)@ },
                    elapsed_since(old(self)@.last_refill_ns, now),
                ),
    {
        let elapsed = instant_elapsed(&self.origin);
        let now = duration_as_nanos(&elapsed);
        let ns = if now >= self.last_refill_ns {
            now - self.last_refill_ns
        } else {
            0
        };
        let ghost before = self@;
        self.refill_by(ns);
        proof {
            use_type_invariant(&*self);
        }
        self.last_refill_ns = now;
        let ghost start = BucketView { last_refill_ns: now as nat, ..before };
        let ghost e = elapsed_since(before.last_refill_ns, now as nat);
        assert(refilled(start, e) == refilled(before, ns as nat));
        if self.tokens >= UNITS_PER_TOKEN {
            self.tokens = self.tokens - UNITS_PER_TOKEN;
            assert((self@, true) == consume_after(start, e));
            true
        } else {
            assert((self@, false) == consume_after(start, e));
            false
        }
    }

    /// Whole seconds until a call would be allowed, without refilling first.
    pub fn retry_after_secs(&self) -> (r: u64)
        ensures
            r == spec_retry_after_secs(self@),
    {
        proof {
            use_type_invariant(self);
            lemma_capacity_bound(self.refill_rate as nat);
        }
        if self.tokens >= UNITS_PER_TOKEN {
            return 0;
        }
        if self.refill_rate == 0 {
            return u64::MAX;
        }
        let missing = UNITS_PER_TOKEN - self.tokens;
        let per_sec = self.refill_rate * NANOS_PER_SEC;
        let secs = (missing + per_sec - 1) / per_sec;
        proof {
            assert(secs <= missing) by (nonlinear_arith)
                requires
                    per_sec >= 1,
                    missing >= 1,
                    secs == (missing + per_sec - 1) as int / per_sec as int,
            ;
        }
        secs as u64
    }
}

/// A call never leaves a bucket over capacity: every step keeps a well-formed
/// bucket well-formed.
pub proof fn lemma_consume_keeps_bucket_wf(b: BucketView, elapsed_ns: nat)
    requires
        bucket_wf(b),
    ensures
        bucket_wf(consume_after(b, elapsed_ns).0),
        consume_after(b, elapsed_ns).0.max_tokens == b.max_tokens,
        consume_after(b, elapsed_ns).0.refill_rate == b.refill_rate,
{
}

/// No wait is needed exactly when a whole token is in the bucket.
pub proof fn lemma_retry_after_zero_iff_token(b: BucketView)
    requires
        bucket_wf(b),
    ensures
        (spec_retry_after_secs(b) == 0) == (b.tokens >= UNITS_PER_TOKEN),
{
    if b.tokens < UNITS_PER_TOKEN && b.refill_rate > 0 {
        let missing = UNITS_PER_TOKEN - b.tokens;
        let per_sec = b.refill_rate * NANOS_PER_SEC;
        assert((missing + per_sec - 1) / per_sec >= 1) by (nonlinear_arith)
            requires
                missing >= 1,
                per_sec >= 1,
        ;
    }
}

/// Waiting the advised number of seconds is enough for the next call to be
/// allowed, and one second less is not.
pub proof fn lemma_retry_after_is_exact(b: BucketView)
    requires
        bucket_wf(b),
        b.refill_rate > 0,
    ensures
        consume_after(b, (spec_retry_after_secs(b) * NANOS_PER_SEC) as nat).1,
        spec_retry_after_secs(b) > 0 ==> !consume_after(
            b,
            ((spec_retry_after_secs(b) - 1) * NANOS_PER_SEC) as nat,
        ).1,
{
    let s = spec_retry_after_secs(b);
    let rate = b.refill_rate as int;
    assert(b.max_tokens >= UNITS_PER_TOKEN) by (nonlinear_arith)
        requires
            b.max_tokens == b.refill_rate * UNITS_PER_TOKEN,
            b.refill_rate >= 1,
    ;
    if b.tokens < UNITS_PER_TOKEN {
        let missing = UNITS_PER_TOKEN - b.tokens;
        let per_sec = rate * NANOS_PER_SEC;
        assert(s * per_sec >= missing) by (nonlinear_arith)
            requires
                s == (missing + per_sec - 1) / per_sec,
                per_sec >= 1,
                missing >= 1,
        ;
        assert((s * NANOS_PER_SEC) * rate == s * per_sec) by (nonlinear_arith)
            requires
                per_sec == rate * NANOS_PER_SEC,
        ;
        assert(s >= 1) by (nonlinear_arith)
            requires
                s == (missing + per_sec - 1) / per_sec,
                per_sec >= 1,
                missing >= 1,
        ;
        assert((s - 1) * per_sec < missing) by (nonlinear_arith)
            requires
                s == (missing + per_sec - 1) / per_sec,
                per_sec >= 1,
                missing >= 1,
        ;
        assert(((s - 1) * NANOS_PER_SEC) * rate == (s - 1) * per_sec) by (nonlinear_arith)
            requires
                per_sec == rate * NANOS_PER_SEC,
        ;
    } else {
        assert(s == 0);
        assert((0 * NANOS_PER_SEC) as nat * b.refill_rate == 0);
    }
}

/// From a bucket holding `m` whole tokens, `k` calls in a row with no time
/// passing are allowed `min(k, m)` times and leave `m - min(k, m)` tokens.
pub proof fn lemma_calls_without_waiting(b: BucketView, m: nat, k: nat)
    requires
        bucket_wf(b),
        b.tokens == m * UNITS_PER_TOKEN,
    ensures
        calls_without_waiting(b, k).1 == if k <= m { k } else { m },
        calls_without_waiting(b, k).0.tokens == (m - (if k <= m { k } else { m })) * UNITS_PER_TOKEN,
    decreases k,
{
    if k > 0 {
        let (b1, ok) = consume_after(b, 0);
        assert(refilled(b, 0) == b.tokens) by {
            assert(0 * b.refill_rate == 0);
        }
        if m > 0 {
            assert(b.tokens >= UNITS_PER_TOKEN) by (nonlinear_arith)
                requires
                    b.tokens == m * UNITS_PER_TOKEN,
                    m >= 1,
            ;
            assert(b1.tokens == (m - 1) as nat * UNITS_PER_TOKEN) by (nonlinear_arith)
                requires
                    b1.tokens == b.tokens - UNITS_PER_TOKEN,
                    b.tokens == m * UNITS_PER_TOKEN,
            ;
            lemma_consume_keeps_bucket_wf(b, 0);
            lemma_calls_without_waiting(b1, (m - 1) as nat, (k - 1) as nat);
        } else {
            lemma_consume_keeps_bucket_wf(b, 0);
            lemma_calls_without_waiting(b1, 0, (k - 1) as nat);
        }
    }
}

/// A new bucket for `n` calls a minute allows `n` calls at once and refuses
/// the next one until time passes.
pub proof fn lemma_full_bucket_burst(b: BucketView, k: nat)
    requires
        bucket_wf(b),
        b.tokens == b.max_tokens,
    ensures
        calls_without_waiting(b, k).1 == if k <= b.refill_rate { k } else { b.refill_rate },
{
    lemma_calls_without_waiting(b, b.refill_rate, k);
}

/// The total of a list of waits.
pub open spec fn total_elapsed(es: Seq<nat>) -> nat
    decreases es.len(),
{
    if es.len() == 0 {
        0
    } else {
        es[0] + total_elapsed(es.drop_first())
    }
}

/// Calls made one after another, call `i` coming `es[i]` nanoseconds after
/// the one before it: the bucket after them and how many were allowed.
pub open spec fn calls_over(b: BucketView, es: Seq<nat>) -> (BucketView, nat)
    decreases es.len(),
{
    if es.len() == 0 {
        (b, 0)
    } else {
        let (b1, ok) = consume_after(b, es[0]);
        let (b2, n) = calls_over(b1, es.drop_first());
        (b2, if ok { n + 1 } else { n })
    }
}

/// The rate limit: over any run of calls, the tokens that allowed calls took
/// plus those left never exceed those there were at the start plus those the
/// elapsed time refilled.
pub proof fn lemma_calls_over_rate(b: BucketView, es: Seq<nat>)
    requires
        bucket_wf(b),
    ensures
        calls_over(b, es).1 * UNITS_PER_TOKEN + calls_over(b, es).0.tokens <= b.tokens + total_elapsed(es)
            * b.refill_rate,
    decreases es.len(),
{
    if es.len() > 0 {
        let e0 = es[0];
        let rest = es.drop_first();
        let (b1, ok) = consume_after(b, e0);
        lemma_consume_keeps_bucket_wf(b, e0);
        lemma_calls_over_rate(b1, rest);
        let n = calls_over(b1, rest).1;
        let t = refilled(b, e0);
        assert(t <= b.tokens + e0 * b.refill_rate);
        assert(b1.tokens + (if ok { UNITS_PER_TOKEN as int } else { 0 }) == t);
        assert((e0 + total_elapsed(rest)) * b.refill_rate == e0 * b.refill_rate + total_elapsed(rest)
            * b.refill_rate) by (nonlinear_arith);
        assert((n + 1) * UNITS_PER_TOKEN == n * UNITS_PER_TOKEN + UNITS_PER_TOKEN);
    }
}

/// A bucket for `n` calls a minute, started full, allows at most `n` calls
/// plus `n` for every minute that passes: over waits totalling `T`
/// nanoseconds, allowed × 60·10⁹ ≤ n × 60·10⁹ + T × n.
pub proof fn lemma_full_bucket_rate(b: BucketView, es: Seq<nat>)
    requires
        bucket_wf(b),
        b.tokens == b.max_tokens,
    ensures
        calls_over(b, es).1 * UNITS_PER_TOKEN <= b.refill_rate * UNITS_PER_TOKEN + total_elapsed(es)
            * b.refill_rate,
{
    lemma_calls_over_rate(b, es);
}

/// Waiting refills: a bucket for `n` calls a minute, used again at least
/// `secs` seconds after its last refill with `secs × n ≥ 60`, allows that
/// call, whatever it held before (an empty bucket of 60 a minute allows a
/// call after one second).
pub proof fn lemma_wait_refills(b: BucketView, now: nat, secs: nat)
    requires
        bucket_wf(b),
        now >= b.last_refill_ns + secs * NANOS_PER_SEC,
        secs * b.refill_rate >= 60,
    ensures
        consume_after(BucketView { last_refill_ns: now, ..b }, elapsed_since(b.last_refill_ns, now)).1,
{
    let e = elapsed_since(b.last_refill_ns, now);
    let rate = b.refill_rate;
    assert(e >= secs * NANOS_PER_SEC);
    assert(rate >= 1) by (nonlinear_arith)
        requires
            secs * rate >= 60,
    ;
    assert(e * rate >= UNITS_PER_TOKEN) by (nonlinear_arith)
        requires
            e >= secs * NANOS_PER_SEC,
            secs * rate >= 60,
    ;
    assert(b.max_tokens >= UNITS_PER_TOKEN) by (nonlinear_arith)
        requires
            b.max_tokens == rate * UNITS_PER_TOKEN,
            rate >= 1,
    ;
}

/// Waiting longer never hurts: a call allowed after some wait is allowed
/// after any longer wait, which refills at least as many units.
pub proof fn lemma_longer_wait_allows(b: BucketView, e1: nat, e2: nat)
    requires
        bucket_wf(b),
        e1 <= e2,
    ensures
        consume_after(b, e1).1 ==> consume_after(b, e2).1,
        refilled(b, e1) <= refilled(b, e2),
{
    assert(e1 * b.refill_rate <= e2 * b.refill_rate) by (nonlinear_arith)
        requires
            e1 <= e2,
    ;
}

} // verus!
