//! Token-bucket rate limiting, per provider, with a degraded mode that
//! lowers a provider's limits after throttling and restores them later.
//!
//! Time is a `u64` count of nanoseconds. Each operation that reads the clock
//! has an `_at` form that takes the reading as an argument; the clock-reading
//! form calls it with `now_nanos()`.

use vstd::prelude::*;
use crate::clock::now_nanos;
use crate::table::Table;

verus! {

/// A bucket refills at most once per this many nanoseconds (100 ms).
pub const MIN_REFILL_INTERVAL_NANOS: u64 = 100_000_000;

/// Nanoseconds per minute.
pub const NANOS_PER_MINUTE: u64 = 60_000_000_000;

/// The abstract state of a token bucket.
#[derive(Debug, Clone, Copy, PartialEq, Eq, Structural)]
pub struct BucketModel {
    pub tokens: u64,
    pub capacity: u64,
    pub nanos_per_token: u64,
    pub last_refill: u64,
}

/// A bucket never holds more than its capacity and refills at a positive period.
pub open spec fn bucket_wf(b: BucketModel) -> bool {
    b.tokens <= b.capacity && b.nanos_per_token > 0
}

/// Refill period for `rpm` requests per minute (`u64::MAX` disables refills).
pub open spec fn period_for(rpm: u64) -> u64 {
    if rpm == 0 {
        u64::MAX
    } else {
        (NANOS_PER_MINUTE / rpm) as u64
    }
}

/// The smaller of two integers.
pub open spec fn min_int(a: int, b: int) -> int {
    if a <= b {
        a
    } else {
        b
    }
}

/// Tokens earned since the last refill, when at least 100 ms have passed.
pub open spec fn earned_at(b: BucketModel, now: u64) -> int {
    let elapsed: int = if now >= b.last_refill {
        now - b.last_refill
    } else {
        0
    };
    if elapsed < MIN_REFILL_INTERVAL_NANOS {
        0
    } else {
        elapsed / (b.nanos_per_token as int)
    }
}

/// The on-demand refill: earned tokens are added (up to capacity) and the
/// refill time moves to `now`; when nothing is earned, nothing changes.
pub open spec fn refill_model(b: BucketModel, now: u64) -> BucketModel {
    let earned = earned_at(b, now);
    if earned > 0 {
        BucketModel {
            tokens: min_int(b.tokens + earned, b.capacity as int) as u64,
            last_refill: now,
            ..b
        }
    } else {
        b
    }
}

/// A full bucket for `rpm` with capacity `max_burst`, last refilled at `now`.
pub open spec fn fresh_bucket(rpm: u64, max_burst: u64, now: u64) -> BucketModel {
    BucketModel {
        tokens: max_burst,
        capacity: max_burst,
        nanos_per_token: period_for(rpm),
        last_refill: now,
    }
}

/// The refill period in whole milliseconds, at least 1 and at most 100.
pub open spec fn refill_wait_ms(nanos_per_token: u64) -> int {
    let per = nanos_per_token as int / 1_000_000;
    min_int(if per >= 1 {
        per
    } else {
        1
    }, 100)
}

/// Taking `n` tokens at `now` from bucket `b` answers `r` and leaves `after`:
/// the bucket is refilled, then `n` tokens are taken when there are enough.
pub open spec fn acquire_outcome(b: BucketModel, n: u64, now: u64, r: bool, after: BucketModel) -> bool {
    let f = refill_model(b, now);
    &&& r == (f.tokens >= n)
    &&& r ==> after == (BucketModel { tokens: (f.tokens - n) as u64, ..f })
    &&& !r ==> after == f
}


/// Token bucket limiter: `rpm` sets the refill rate, `max_burst` the capacity.
#[derive(Debug, Clone, Copy)]
pub struct TokenBucket {
    tokens: u64,
    capacity: u64,
    nanos_per_token: u64,
    last_refill: u64,
}

impl View for TokenBucket {
    type V = BucketModel;

    closed spec fn view(&self) -> BucketModel {
        BucketModel {
            tokens: self.tokens,
            capacity: self.capacity,
            nanos_per_token: self.nanos_per_token,
            last_refill: self.last_refill,
        }
    }
}

impl TokenBucket {
    /// A full bucket allowing `rpm` requests per minute with a burst of `rpm`.
    pub fn new(rpm: u64) -> (r: Self)
        requires
            rpm <= NANOS_PER_MINUTE,
        ensures
            bucket_wf(r@),
            r@.tokens == rpm && r@.capacity == rpm && r@.nanos_per_token == period_for(rpm),
    {
        Self::new_with_burst(rpm, rpm)
    }

    /// A full bucket with refill rate `rpm` and capacity `max_burst`.
    pub fn new_with_burst(rpm: u64, max_burst: u64) -> (r: Self)
        requires
            rpm <= NANOS_PER_MINUTE,
        ensures
            bucket_wf(r@),
            r@ == fresh_bucket(rpm, max_burst, r@.last_refill),
    {
        Self::new_with_burst_at(rpm, max_burst, now_nanos())
    }

    /// `new_with_burst` with the clock reading given.
    pub fn new_with_burst_at(rpm: u64, max_burst: u64, now: u64) -> (r: Self)
        requires
            rpm <= NANOS_PER_MINUTE,
        ensures
            bucket_wf(r@),
            r@ == fresh_bucket(rpm, max_burst, now),
    {
        let nanos_per_token = if rpm == 0 {
            u64::MAX
        } else {
            assert(NANOS_PER_MINUTE / rpm >= 1) by (nonlinear_arith)
                requires
                    0 < rpm <= NANOS_PER_MINUTE,
            ;
            NANOS_PER_MINUTE / rpm
        };
        TokenBucket { tokens: max_burst, capacity: max_burst, nanos_per_token, last_refill: now }
    }

    /// Tokens currently in the bucket.
    pub fn available(&self) -> (r: u64)
        ensures
            r == self@.tokens,
    {
        self.tokens
    }

    /// The on-demand refill at time `now`.
    pub fn refill_at(&mut self, now: u64)
        requires
            bucket_wf(old(self)@),
        ensures
            bucket_wf(final(self)@),
            final(self)@ == refill_model(old(self)@, now),
    {
        let elapsed = if now >= self.last_refill {
            now - self.last_refill
        } else {
            0
        };
        if elapsed < MIN_REFILL_INTERVAL_NANOS {
            return;
        }
        let earned = elapsed / self.nanos_per_token;
        if earned > 0 {
            self.last_refill = now;
            let room = self.capacity - self.tokens;
            if earned >= room {
                self.tokens = self.capacity;
            } else {
                self.tokens = self.tokens + earned;
            }
        }
    }

    /// Takes one token at time `now` (after refilling) if one is there.
    pub fn try_acquire_at(&mut self, now: u64) -> (r: bool)
        requires
            bucket_wf(old(self)@),
        ensures
            bucket_wf(final(self)@),
            r == (refill_model(old(self)@, now).tokens > 0),
            r ==> final(self)@ == (BucketModel {
                tokens: (refill_model(old(self)@, now).tokens - 1) as u64,
                ..refill_model(old(self)@, now)
            }),
            !r ==> final(self)@ == refill_model(old(self)@, now),
    {
        self.try_acquire_n_at(1, now)
    }

    /// Takes one token now, if one is there: what `try_acquire_at` does at the
    /// clock's reading.
    pub fn try_acquire(&mut self) -> (r: bool)
        requires
            bucket_wf(old(self)@),
        ensures
            bucket_wf(final(self)@),
            final(self)@.capacity == old(self)@.capacity,
            final(self)@.nanos_per_token == old(self)@.nanos_per_token,
            r ==> final(self)@.tokens < final(self)@.capacity,
            exists|t: u64| #[trigger] acquire_outcome(old(self)@, 1, t, r, final(self)@),
    {
        let t = now_nanos();
        let r = self.try_acquire_at(t);
        assert(acquire_outcome(old(self)@, 1, t, r, self@));
        r
    }

    /// Takes `n` tokens at time `now` (after refilling) if there are enough;
    /// otherwise takes none.
    pub fn try_acquire_n_at(&mut self, n: u64, now: u64) -> (r: bool)
        requires
            bucket_wf(old(self)@),
        ensures
            bucket_wf(final(self)@),
            r == (refill_model(old(self)@, now).tokens >= n),
            r ==> final(self)@ == (BucketModel {
                tokens: (refill_model(old(self)@, now).tokens - n) as u64,
                ..refill_model(old(self)@, now)
            }),
            !r ==> final(self)@ == refill_model(old(self)@, now),
    {
        self.refill_at(now);
        if self.tokens < n {
            return false;
        }
        self.tokens = self.tokens - n;
        true
    }

    /// Takes `n` tokens now, if there are enough: what `try_acquire_n_at`
    /// does at the clock's reading.
    pub fn try_acquire_n(&mut self, n: u64) -> (r: bool)
        requires
            bucket_wf(old(self)@),
        ensures
            bucket_wf(final(self)@),
            final(self)@.capacity == old(self)@.capacity,
            final(self)@.nanos_per_token == old(self)@.nanos_per_token,
            exists|t: u64| #[trigger] acquire_outcome(old(self)@, n, t, r, final(self)@),
    {
        let t = now_nanos();
        let r = self.try_acquire_n_at(n, t);
        assert(acquire_outcome(old(self)@, n, t, r, self@));
        r
    }

    /// Returns `n` tokens (a refund), never beyond capacity.
    pub fn release(&mut self, n: u64)
        requires
            bucket_wf(old(self)@),
        ensures
            bucket_wf(final(self)@),
            final(self)@ == (BucketModel {
                tokens: min_int(old(self)@.tokens + n, old(self)@.capacity as int) as u64,
                ..old(self)@
            }),
    {
        if n == 0 {
            return;
        }
        let room = self.capacity - self.tokens;
        if n >= room {
            self.tokens = self.capacity;
        } else {
            self.tokens = self.tokens + n;
        }
    }

    /// How long `acquire` sleeps after a miss: the refill period in
    /// milliseconds (at least 1, at most 100), and no longer than the current
    /// back-off.
    pub fn acquire_wait_ms(&self, backoff_us: u64) -> (r: u64)
        ensures
            r == min_int(backoff_us as int / 1000, refill_wait_ms(self@.nanos_per_token)),
    {
        let refill_wait = self.acquire_n_wait_ms();
        let backoff_ms = backoff_us / 1000;
        if backoff_ms < refill_wait {
            backoff_ms
        } else {
            refill_wait
        }
    }

    /// How long `acquire_n` sleeps after a miss: the refill period in
    /// milliseconds, at least 1 and at most 100.
    pub fn acquire_n_wait_ms(&self) -> (r: u64)
        ensures
            r == refill_wait_ms(self@.nanos_per_token),
    {
        let per = self.nanos_per_token / 1_000_000;
        let at_least_one = if per >= 1 {
            per
        } else {
            1
        };
        if at_least_one < 100 {
            at_least_one
        } else {
            100
        }
    }
}

/// The next back-off step: doubled, at most 100 ms (in microseconds).
pub fn next_backoff_us(backoff_us: u64) -> (r: u64)
    ensures
        r == min_int(2 * backoff_us, 100_000),
{
    if backoff_us >= 50_000 {
        100_000
    } else {
        backoff_us * 2
    }
}

/// Refilling keeps a bucket well formed, never removes tokens and never
/// changes its capacity or rate.
pub proof fn lemma_refill_monotone(b: BucketModel, now: u64)
    requires
        bucket_wf(b),
    ensures
        bucket_wf(refill_model(b, now)),
        refill_model(b, now).tokens >= b.tokens,
        refill_model(b, now).capacity == b.capacity,
        refill_model(b, now).nanos_per_token == b.nanos_per_token,
{
}

/// Within 100 ms of the last refill nothing is refilled.
pub proof fn lemma_no_refill_within_interval(b: BucketModel, now: u64)
    requires
        bucket_wf(b),
        b.last_refill <= now < b.last_refill + MIN_REFILL_INTERVAL_NANOS,
    ensures
        refill_model(b, now) == b,
{
}

/// A refund of what was just taken restores the bucket as the refill left it.
pub proof fn lemma_acquire_release_roundtrip(b: BucketModel, n: u64, now: u64)
    requires
        bucket_wf(b),
        refill_model(b, now).tokens >= n,
    ensures
        ({
            let r = refill_model(b, now);
            let taken = BucketModel { tokens: (r.tokens - n) as u64, ..r };
            BucketModel {
                tokens: min_int(taken.tokens + n, taken.capacity as int) as u64,
                ..taken
            } == r
        }),
{
}

/// A bucket refilled after a long enough pause is full: waiting
/// `capacity * period` nanoseconds (and at least 100 ms) refills it completely.
pub proof fn lemma_refill_after_pause_is_full(b: BucketModel, now: u64)
    requires
        bucket_wf(b),
        b.capacity > 0,
        now >= b.last_refill,
        now - b.last_refill >= MIN_REFILL_INTERVAL_NANOS,
        now - b.last_refill >= b.capacity * b.nanos_per_token,
    ensures
        refill_model(b, now).tokens == b.capacity,
{
    let elapsed: int = now - b.last_refill;
    let p = b.nanos_per_token as int;
    assert(elapsed / p >= b.capacity) by (nonlinear_arith)
        requires
            p > 0,
            elapsed >= b.capacity * p,
            b.capacity >= 0,
    {
        assert((b.capacity * p) / p == b.capacity as int);
    }
}

} // verus!

verus! {

/// The two buckets of one provider: requests per minute and tokens per minute.
#[derive(Debug, Clone, Copy)]
pub struct ProviderLimiter {
    pub rpm_bucket: TokenBucket,
    pub tpm_bucket: TokenBucket,
}

/// The abstract state of a provider's buckets.
#[derive(Debug, Clone, Copy, PartialEq, Eq, Structural)]
pub struct LimiterModel {
    pub rpm: BucketModel,
    pub tpm: BucketModel,
}

/// A provider in degraded mode (times in nanoseconds).
#[derive(Debug, Clone, Copy, PartialEq, Eq, Structural)]
pub struct DegradedState {
    pub degraded_since: u64,
    pub degraded_rpm: u64,
    pub degraded_tpm: u64,
    pub recovery_after: u64,
    /// How many times degradation was triggered (drives the back-off).
    pub escalation_count: u32,
}

/// A provider's limits before any degradation.
#[derive(Debug, Clone, Copy, PartialEq, Eq, Structural)]
pub struct OriginalLimits {
    pub rpm: u64,
    pub tpm: u64,
    pub burst: u64,
}

/// The abstract state of a per-provider limiter map.
pub struct RateLimiterModel {
    pub limiters: Map<Seq<char>, LimiterModel>,
    pub degraded: Map<Seq<char>, DegradedState>,
    pub originals: Map<Seq<char>, OriginalLimits>,
    pub default_rpm: u64,
    pub default_tpm: u64,
    pub default_burst: u64,
}

/// Fresh buckets for the given limits, created at `now`.
pub open spec fn fresh_limiter(rpm: u64, tpm: u64, burst: u64, now: u64) -> LimiterModel {
    LimiterModel { rpm: fresh_bucket(rpm, burst, now), tpm: fresh_bucket(tpm, tpm, now) }
}

/// The burst allowed in degraded mode: a third of the rate, at least one.
pub open spec fn degraded_burst(rpm: u64) -> u64 {
    if rpm / 3 >= 1 {
        (rpm / 3) as u64
    } else {
        1
    }
}

/// Entering degraded mode refills the provider's request bucket to a burst
/// of a third of the degraded rate (rounded down), and of one request when
/// the rate is below three; the token bucket is refilled to the full
/// degraded token rate.
pub proof fn lemma_degraded_burst_is_a_third(
    m: RateLimiterModel,
    k: Seq<char>,
    rpm: u64,
    tpm: u64,
    duration: u64,
    now: u64,
)
    ensures
        ({
            let l = enter_degraded_model(m, k, rpm, tpm, duration, now).limiters;
            &&& l.contains_key(k)
            &&& l[k].rpm.tokens == l[k].rpm.capacity
            &&& l[k].rpm.capacity >= 1
            &&& rpm >= 3 ==> 3 * l[k].rpm.capacity <= rpm < 3 * (l[k].rpm.capacity + 1)
            &&& rpm < 3 ==> l[k].rpm.capacity == 1
            &&& l[k].tpm.capacity == tpm && l[k].tpm.tokens == tpm
        }),
{
}

/// Recovery back-off factor after `escalation` triggers: 1, 2, 4, 8, then 16.
pub open spec fn escalation_multiplier(escalation: u32) -> u64 {
    if escalation <= 1 {
        1
    } else if escalation == 2 {
        2
    } else if escalation == 3 {
        4
    } else if escalation == 4 {
        8
    } else {
        16
    }
}

/// Elapsed nanoseconds between two readings (zero if the clock went back).
pub open spec fn elapsed_between(since: u64, now: u64) -> int {
    if now >= since {
        now - since
    } else {
        0
    }
}

/// The limits a provider falls back to when it has none recorded.
pub open spec fn default_limits(m: RateLimiterModel) -> OriginalLimits {
    OriginalLimits { rpm: m.default_rpm, tpm: m.default_tpm, burst: m.default_burst }
}

/// Entering degraded mode for `k`: the limits are lowered, the escalation
/// count grows and the recovery time backs off exponentially.
pub open spec fn enter_degraded_model(
    m: RateLimiterModel,
    k: Seq<char>,
    rpm: u64,
    tpm: u64,
    duration: u64,
    now: u64,
) -> RateLimiterModel {
    let esc: u32 = if m.degraded.contains_key(k) {
        (m.degraded[k].escalation_count + 1) as u32
    } else {
        1
    };
    RateLimiterModel {
        limiters: m.limiters.insert(k, fresh_limiter(rpm, tpm, degraded_burst(rpm), now)),
        degraded: m.degraded.insert(
            k,
            DegradedState {
                degraded_since: now,
                degraded_rpm: rpm,
                degraded_tpm: tpm,
                recovery_after: (duration * escalation_multiplier(esc)) as u64,
                escalation_count: esc,
            },
        ),
        originals: if m.originals.contains_key(k) {
            m.originals
        } else {
            m.originals.insert(k, default_limits(m))
        },
        ..m
    }
}

/// Leaving degraded mode for `k`: the degraded record goes and, when the
/// original limits are known, fresh buckets with those limits come back.
pub open spec fn exit_degraded_model(m: RateLimiterModel, k: Seq<char>, now: u64) -> RateLimiterModel {
    if m.degraded.contains_key(k) {
        RateLimiterModel {
            degraded: m.degraded.remove(k),
            limiters: if m.originals.contains_key(k) {
                m.limiters.insert(
                    k,
                    fresh_limiter(m.originals[k].rpm, m.originals[k].tpm, m.originals[k].burst, now),
                )
            } else {
                m.limiters
            },
            ..m
        }
    } else {
        m
    }
}

/// Whether the degraded window of `k` has run out at `now`.
pub open spec fn recovery_due(m: RateLimiterModel, k: Seq<char>, now: u64) -> bool {
    m.degraded.contains_key(k) && elapsed_between(m.degraded[k].degraded_since, now)
        >= m.degraded[k].recovery_after
}

/// The request rate in force for `k` at `now`.
pub open spec fn effective_rpm_model(m: RateLimiterModel, k: Seq<char>, now: u64) -> u64 {
    if m.degraded.contains_key(k) && !recovery_due(m, k, now) {
        m.degraded[k].degraded_rpm
    } else if m.originals.contains_key(k) {
        m.originals[k].rpm
    } else {
        m.default_rpm
    }
}

/// Per-provider rate limiters, each provider with its own request and token
/// quotas, and a degraded mode with exponential recovery back-off.
pub struct ProviderRateLimiterMap {
    limiters: Table<ProviderLimiter>,
    degraded: Table<DegradedState>,
    originals: Table<OriginalLimits>,
    default_rpm: u64,
    default_tpm: u64,
    default_burst: u64,
}

/// The abstract buckets of a limiter.
pub open spec fn limiter_model(l: ProviderLimiter) -> LimiterModel {
    LimiterModel { rpm: l.rpm_bucket@, tpm: l.tpm_bucket@ }
}

impl View for ProviderRateLimiterMap {
    type V = RateLimiterModel;

    closed spec fn view(&self) -> RateLimiterModel {
        RateLimiterModel {
            limiters: self.limiters@.map_values(|l: ProviderLimiter| limiter_model(l)),
            degraded: self.degraded@,
            originals: self.originals@,
            default_rpm: self.default_rpm,
            default_tpm: self.default_tpm,
            default_burst: self.default_burst,
        }
    }
}

/// Limits are within what a bucket accepts.
pub open spec fn limits_ok(o: OriginalLimits) -> bool {
    o.rpm <= NANOS_PER_MINUTE && o.tpm <= NANOS_PER_MINUTE
}

/// Well-formedness of the abstract state.
pub open spec fn model_wf(m: RateLimiterModel) -> bool {
    &&& limits_ok(default_limits(m))
    &&& forall|k: Seq<char>| #[trigger]
        m.originals.contains_key(k) ==> limits_ok(m.originals[k])
    &&& forall|k: Seq<char>| #[trigger]
        m.limiters.contains_key(k) ==> bucket_wf(m.limiters[k].rpm) && bucket_wf(
            m.limiters[k].tpm,
        )
}

/// Outcome of one attempt to take a request token.
#[derive(Debug, Clone, Copy, PartialEq, Eq, Structural)]
pub enum RpmStep {
    /// A token was taken.
    Acquired,
    /// The provider has no limiter.
    NotFound,
    /// No token now; wait and try again.
    Retry,
}

impl ProviderRateLimiterMap {
    /// Well-formedness: tables with distinct keys and well-formed buckets.
    pub closed spec fn wf(&self) -> bool {
        &&& self.limiters.wf()
        &&& self.degraded.wf()
        &&& self.originals.wf()
        &&& limits_ok(default_limits(self@))
        &&& forall|k: Seq<char>| #[trigger]
            self.originals@.contains_key(k) ==> limits_ok(self.originals@[k])
        &&& forall|k: Seq<char>| #[trigger]
            self.limiters@.contains_key(k) ==> bucket_wf(self.limiters@[k].rpm_bucket@) && bucket_wf(
                self.limiters@[k].tpm_bucket@,
            )
    }

    /// The well-formedness of the abstract state follows.
    pub proof fn lemma_wf_model(&self)
        requires
            self.wf(),
        ensures
            model_wf(self@),
    {
        assert forall|k: Seq<char>| #[trigger] self@.limiters.contains_key(k) implies bucket_wf(
            self@.limiters[k].rpm,
        ) && bucket_wf(self@.limiters[k].tpm) by {
            assert(self.limiters@.contains_key(k));
        }
    }

    proof fn lemma_limiters_view_insert(&self, old_map: Map<Seq<char>, ProviderLimiter>, k: Seq<char>, l: ProviderLimiter)
        requires
            self.limiters@ == old_map.insert(k, l),
        ensures
            self.limiters@.map_values(|l: ProviderLimiter| limiter_model(l)) == old_map.map_values(
                |l: ProviderLimiter| limiter_model(l),
            ).insert(k, limiter_model(l)),
    {
        assert(self.limiters@.map_values(|l: ProviderLimiter| limiter_model(l)) =~= old_map.map_values(
            |l: ProviderLimiter| limiter_model(l),
        ).insert(k, limiter_model(l)));
    }

    /// An empty map whose new providers get the given default limits.
    pub fn new(default_rpm: u64, default_tpm: u64, default_burst: u64) -> (r: Self)
        requires
            default_rpm <= NANOS_PER_MINUTE,
            default_tpm <= NANOS_PER_MINUTE,
        ensures
            r.wf(),
            r@.limiters == Map::<Seq<char>, LimiterModel>::empty(),
            r@.degraded == Map::<Seq<char>, DegradedState>::empty(),
            r@.originals == Map::<Seq<char>, OriginalLimits>::empty(),
            r@.default_rpm == default_rpm && r@.default_tpm == default_tpm && r@.default_burst
                == default_burst,
    {
        let r = ProviderRateLimiterMap {
            limiters: Table::new(),
            degraded: Table::new(),
            originals: Table::new(),
            default_rpm,
            default_tpm,
            default_burst,
        };
        assert(r@.limiters =~= Map::<Seq<char>, LimiterModel>::empty());
        r
    }

    fn make_limiter(rpm: u64, tpm: u64, burst: u64, now: u64) -> (r: ProviderLimiter)
        requires
            rpm <= NANOS_PER_MINUTE,
            tpm <= NANOS_PER_MINUTE,
        ensures
            limiter_model(r) == fresh_limiter(rpm, tpm, burst, now),
            bucket_wf(r.rpm_bucket@) && bucket_wf(r.tpm_bucket@),
    {
        ProviderLimiter {
            rpm_bucket: TokenBucket::new_with_burst_at(rpm, burst, now),
            tpm_bucket: TokenBucket::new_with_burst_at(tpm, tpm, now),
        }
    }

    /// Makes sure `provider_id` has a limiter, creating one with the default
    /// limits (and recording them as its original limits) when it has none.
    pub fn get_or_create_at(&mut self, provider_id: &str, now: u64) -> (r: ProviderLimiterRef)
        requires
            old(self).wf(),
        ensures
            final(self).wf(),
            r.provider_id@ == provider_id@,
            old(self)@.limiters.contains_key(provider_id@) ==> final(self)@ == old(self)@,
            !old(self)@.limiters.contains_key(provider_id@) ==> final(self)@ == (RateLimiterModel {
                limiters: old(self)@.limiters.insert(
                    provider_id@,
                    fresh_limiter(
                        old(self)@.default_rpm,
                        old(self)@.default_tpm,
                        old(self)@.default_burst,
                        now,
                    ),
                ),
                originals: if old(self)@.originals.contains_key(provider_id@) {
                    old(self)@.originals
                } else {
                    old(self)@.originals.insert(provider_id@, default_limits(old(self)@))
                },
                ..old(self)@
            }),
    {
        let key = String::from_str(provider_id);
        if self.limiters.position(provider_id).is_some() {
            return ProviderLimiterRef { provider_id: key };
        }
        if self.originals.position(provider_id).is_none() {
            self.originals.insert(
                key.clone(),
                OriginalLimits {
                    rpm: self.default_rpm,
                    tpm: self.default_tpm,
                    burst: self.default_burst,
                },
            );
        }
        let l = Self::make_limiter(self.default_rpm, self.default_tpm, self.default_burst, now);
        let ghost old_lim = self.limiters@;
        self.limiters.insert(key.clone(), l);
        proof {
            self.lemma_limiters_view_insert(old_lim, provider_id@, l);
        }
        ProviderLimiterRef { provider_id: key }
    }

    /// `get_or_create_at` with the current time.
    pub fn get_or_create(&mut self, provider_id: &str) -> (r: ProviderLimiterRef)
        requires
            old(self).wf(),
        ensures
            final(self).wf(),
            r.provider_id@ == provider_id@,
            final(self)@.limiters.contains_key(provider_id@),
    {
        self.get_or_create_at(provider_id, now_nanos())
    }

    /// Adds (or replaces) a provider with its own limits.
    pub fn add_provider_at(&mut self, provider_id: &str, rpm: u64, tpm: u64, burst: u64, now: u64)
        requires
            old(self).wf(),
            rpm <= NANOS_PER_MINUTE,
            tpm <= NANOS_PER_MINUTE,
        ensures
            final(self).wf(),
            final(self)@ == (RateLimiterModel {
                limiters: old(self)@.limiters.insert(
                    provider_id@,
                    fresh_limiter(rpm, tpm, burst, now),
                ),
                originals: old(self)@.originals.insert(
                    provider_id@,
                    OriginalLimits { rpm, tpm, burst },
                ),
                ..old(self)@
            }),
    {
        let key = String::from_str(provider_id);
        let l = Self::make_limiter(rpm, tpm, burst, now);
        let ghost old_lim = self.limiters@;
        self.limiters.insert(key.clone(), l);
        proof {
            self.lemma_limiters_view_insert(old_lim, provider_id@, l);
        }
        self.originals.insert(key, OriginalLimits { rpm, tpm, burst });
    }

    /// `add_provider_at` with the current time.
    pub fn add_provider(&mut self, provider_id: &str, rpm: u64, tpm: u64, burst: u64)
        requires
            old(self).wf(),
            rpm <= NANOS_PER_MINUTE,
            tpm <= NANOS_PER_MINUTE,
        ensures
            final(self).wf(),
            final(self)@.limiters.contains_key(provider_id@),
            final(self)@.originals == old(self)@.originals.insert(
                provider_id@,
                OriginalLimits { rpm, tpm, burst },
            ),
            final(self)@.degraded == old(self)@.degraded,
    {
        self.add_provider_at(provider_id, rpm, tpm, burst, now_nanos())
    }

    /// Forgets a provider: its limiter, degraded record and original limits.
    pub fn remove_provider(&mut self, provider_id: &str)
        requires
            old(self).wf(),
        ensures
            final(self).wf(),
            final(self)@ == (RateLimiterModel {
                limiters: old(self)@.limiters.remove(provider_id@),
                degraded: old(self)@.degraded.remove(provider_id@),
                originals: old(self)@.originals.remove(provider_id@),
                ..old(self)@
            }),
    {
        let ghost old_lim = self.limiters@;
        self.limiters.remove(provider_id);
        assert(self.limiters@.map_values(|l: ProviderLimiter| limiter_model(l)) =~= old_lim.map_values(
            |l: ProviderLimiter| limiter_model(l),
        ).remove(provider_id@));
        self.degraded.remove(provider_id);
        self.originals.remove(provider_id);
    }

    /// The providers that have a limiter.
    pub fn provider_ids(&self) -> (r: Vec<String>)
        requires
            self.wf(),
        ensures
            forall|i: int| 0 <= i < r@.len() ==> self@.limiters.contains_key(#[trigger] r@[i]@),
            forall|k: Seq<char>|
                #![trigger self@.limiters.contains_key(k)]
                self@.limiters.contains_key(k) ==> exists|i: int| 0 <= i < r@.len() && r@[i]@ == k,
            forall|i: int, j: int| 0 <= i < j < r@.len() ==> r@[i]@ != r@[j]@,
    {
        let r = self.limiters.keys();
        proof {
            self.limiters.lemma_seqs();
            assert forall|k: Seq<char>| #![trigger self@.limiters.contains_key(k)]
                self@.limiters.contains_key(k) implies exists|i: int|
                    0 <= i < r@.len() && r@[i]@ == k by {
                assert(self.limiters@.contains_key(k));
                assert(self.limiters.key_seq().contains(k));
                let i = choose|i: int| 0 <= i < self.limiters.key_seq().len() && self.limiters.key_seq()[i] == k;
                assert(r@[i]@ == k);
            }
            assert forall|i: int| 0 <= i < r@.len() implies self@.limiters.contains_key(#[trigger] r@[i]@) by {
                assert(self.limiters.key_seq().contains(self.limiters.key_seq()[i]));
            }
        }
        r
    }

    /// Puts `provider_id` into degraded mode at `now`: buckets with the lower
    /// limits `rpm`/`tpm`, a recovery time of `duration` nanoseconds scaled by
    /// the escalation back-off, and the original limits kept for recovery.
    pub fn enter_degraded_mode_at(
        &mut self,
        provider_id: &str,
        rpm: u64,
        tpm: u64,
        duration: u64,
        now: u64,
    )
        requires
            old(self).wf(),
            rpm <= NANOS_PER_MINUTE,
            tpm <= NANOS_PER_MINUTE,
            duration <= u64::MAX / 16,
            old(self)@.degraded.contains_key(provider_id@) ==> old(self)@.degraded[provider_id@].escalation_count
                < u32::MAX,
        ensures
            final(self).wf(),
            final(self)@ == enter_degraded_model(old(self)@, provider_id@, rpm, tpm, duration, now),
            ({
                let b = final(self)@.limiters[provider_id@].rpm;
                &&& final(self)@.limiters.contains_key(provider_id@)
                &&& b.tokens == b.capacity
                &&& b.capacity >= 1
                &&& rpm >= 3 ==> 3 * b.capacity <= rpm < 3 * (b.capacity + 1)
                &&& rpm < 3 ==> b.capacity == 1
            }),
    {
        proof {
            lemma_degraded_burst_is_a_third(old(self)@, provider_id@, rpm, tpm, duration, now);
        }
        let key = String::from_str(provider_id);
        if self.originals.position(provider_id).is_none() {
            self.originals.insert(
                key.clone(),
                OriginalLimits {
                    rpm: self.default_rpm,
                    tpm: self.default_tpm,
                    burst: self.default_burst,
                },
            );
        }
        let escalation: u32 = match self.degraded.get(provider_id) {
            Some(st) => st.escalation_count + 1,
            None => 1,
        };
        let multiplier: u64 = if escalation <= 1 {
            1
        } else if escalation == 2 {
            2
        } else if escalation == 3 {
            4
        } else if escalation == 4 {
            8
        } else {
            16
        };
        self.degraded.insert(
            key.clone(),
            DegradedState {
                degraded_since: now,
                degraded_rpm: rpm,
                degraded_tpm: tpm,
                recovery_after: duration * multiplier,
                escalation_count: escalation,
            },
        );
        let burst = if rpm / 3 >= 1 {
            rpm / 3
        } else {
            1
        };
        let l = Self::make_limiter(rpm, tpm, burst, now);
        let ghost old_lim = self.limiters@;
        self.limiters.insert(key, l);
        proof {
            self.lemma_limiters_view_insert(old_lim, provider_id@, l);
        }
    }

    /// `enter_degraded_mode_at` with the current time.
    pub fn enter_degraded_mode(&mut self, provider_id: &str, rpm: u64, tpm: u64, duration: u64)
        requires
            old(self).wf(),
            rpm <= NANOS_PER_MINUTE,
            tpm <= NANOS_PER_MINUTE,
            duration <= u64::MAX / 16,
            old(self)@.degraded.contains_key(provider_id@) ==> old(self)@.degraded[provider_id@].escalation_count
                < u32::MAX,
        ensures
            final(self).wf(),
            final(self)@.degraded.contains_key(provider_id@),
            final(self)@.degraded[provider_id@].degraded_rpm == rpm,
            final(self)@.degraded[provider_id@].degraded_tpm == tpm,
    {
        self.enter_degraded_mode_at(provider_id, rpm, tpm, duration, now_nanos())
    }

    /// Ends degraded mode for `provider_id` at `now`, restoring its original
    /// limits with fresh buckets.
    pub fn exit_degraded_mode_at(&mut self, provider_id: &str, now: u64)
        requires
            old(self).wf(),
        ensures
            final(self).wf(),
            final(self)@ == exit_degraded_model(old(self)@, provider_id@, now),
    {
        if self.degraded.position(provider_id).is_none() {
            return;
        }
        self.degraded.remove(provider_id);
        match self.originals.get(provider_id) {
            Some(o) => {
                let (rpm, tpm, burst) = (o.rpm, o.tpm, o.burst);
                let l = Self::make_limiter(rpm, tpm, burst, now);
                let ghost old_lim = self.limiters@;
                self.limiters.insert(String::from_str(provider_id), l);
                proof {
                    self.lemma_limiters_view_insert(old_lim, provider_id@, l);
                }
            },
            None => {},
        }
    }

    /// `exit_degraded_mode_at` with the current time.
    pub fn exit_degraded_mode(&mut self, provider_id: &str)
        requires
            old(self).wf(),
        ensures
            final(self).wf(),
            !final(self)@.degraded.contains_key(provider_id@),
            final(self)@.originals == old(self)@.originals,
    {
        self.exit_degraded_mode_at(provider_id, now_nanos())
    }

    /// Whether `provider_id` is degraded at `now`; when its recovery time has
    /// passed it leaves degraded mode first and the answer is `false`.
    pub fn is_degraded_at(&mut self, provider_id: &str, now: u64) -> (r: bool)
        requires
            old(self).wf(),
        ensures
            final(self).wf(),
            recovery_due(old(self)@, provider_id@, now) ==> !r && final(self)@ == exit_degraded_model(
                old(self)@,
                provider_id@,
                now,
            ),
            !recovery_due(old(self)@, provider_id@, now) ==> final(self)@ == old(self)@ && r
                == old(self)@.degraded.contains_key(provider_id@),
    {
        let due = match self.degraded.get(provider_id) {
            Some(st) => {
                let elapsed = if now >= st.degraded_since {
                    now - st.degraded_since
                } else {
                    0
                };
                elapsed >= st.recovery_after
            },
            None => false,
        };
        if due {
            self.exit_degraded_mode_at(provider_id, now);
            return false;
        }
        self.degraded.position(provider_id).is_some()
    }

    /// `is_degraded_at` with the current time.
    pub fn is_degraded(&mut self, provider_id: &str) -> (r: bool)
        requires
            old(self).wf(),
        ensures
            final(self).wf(),
            r ==> final(self)@.degraded.contains_key(provider_id@),
            final(self)@.originals == old(self)@.originals,
            exists|t: u64| #[trigger] degraded_outcome(old(self)@, provider_id@, t, r, final(self)@),
    {
        let t = now_nanos();
        let r = self.is_degraded_at(provider_id, t);
        assert(degraded_outcome(old(self)@, provider_id@, t, r, self@));
        r
    }

    /// The request rate in force for `provider_id` at `now`.
    pub fn effective_rpm_at(&self, provider_id: &str, now: u64) -> (r: u64)
        requires
            self.wf(),
        ensures
            r == effective_rpm_model(self@, provider_id@, now),
    {
        match self.degraded.get(provider_id) {
            Some(st) => {
                let elapsed = if now >= st.degraded_since {
                    now - st.degraded_since
                } else {
                    0
                };
                if elapsed < st.recovery_after {
                    return st.degraded_rpm;
                }
            },
            None => {},
        }
        match self.originals.get(provider_id) {
            Some(o) => o.rpm,
            None => self.default_rpm,
        }
    }

    /// `effective_rpm_at` with the current time.
    pub fn effective_rpm(&self, provider_id: &str) -> (r: u64)
        requires
            self.wf(),
        ensures
            !self@.degraded.contains_key(provider_id@) ==> r == (if self@.originals.contains_key(
                provider_id@,
            ) {
                self@.originals[provider_id@].rpm
            } else {
                self@.default_rpm
            }),
    {
        self.effective_rpm_at(provider_id, now_nanos())
    }
}

/// A handle naming one provider of a `ProviderRateLimiterMap`; each operation
/// looks the provider up in the map it is given.
#[derive(Debug, Clone)]
pub struct ProviderLimiterRef {
    pub provider_id: String,
}

impl ProviderLimiterRef {
    /// One attempt to take a request token at `now`.
    pub fn try_acquire_rpm_at(&self, map: &mut ProviderRateLimiterMap, now: u64) -> (r: RpmStep)
        requires
            old(map).wf(),
        ensures
            final(map).wf(),
            !old(map)@.limiters.contains_key(self.provider_id@) ==> r == RpmStep::NotFound
                && final(map)@ == old(map)@,
            old(map)@.limiters.contains_key(self.provider_id@) ==> ({
                let l = old(map)@.limiters[self.provider_id@];
                let b = refill_model(l.rpm, now);
                &&& (r == RpmStep::Acquired) == (b.tokens > 0)
                &&& r != RpmStep::NotFound
                &&& final(map)@ == (RateLimiterModel {
                    limiters: old(map)@.limiters.insert(
                        self.provider_id@,
                        LimiterModel {
                            rpm: if b.tokens > 0 {
                                BucketModel { tokens: (b.tokens - 1) as u64, ..b }
                            } else {
                                b
                            },
                            ..l
                        },
                    ),
                    ..old(map)@
                })
            }),
    {
        match map.limiters.position(self.provider_id.as_str()) {
            None => RpmStep::NotFound,
            Some(i) => {
                proof {
                    map.limiters.lemma_seqs();
                }
                let mut l = *map.limiters.value_at(i);
                let ok = l.rpm_bucket.try_acquire_at(now);
                let ghost old_lim = map.limiters@;
                map.limiters.set_at(i, l);
                proof {
                    map.lemma_limiters_view_insert(old_lim, self.provider_id@, l);
                }
                if ok {
                    RpmStep::Acquired
                } else {
                    RpmStep::Retry
                }
            },
        }
    }

    /// Takes `n` tokens from the provider's token budget at `now` if there are
    /// enough; a provider without a limiter gets `false`.
    pub fn try_acquire_tpm_at(&self, map: &mut ProviderRateLimiterMap, n: u64, now: u64) -> (r: bool)
        requires
            old(map).wf(),
        ensures
            final(map).wf(),
            !old(map)@.limiters.contains_key(self.provider_id@) ==> !r && final(map)@ == old(map)@,
            old(map)@.limiters.contains_key(self.provider_id@) ==> ({
                let l = old(map)@.limiters[self.provider_id@];
                let b = refill_model(l.tpm, now);
                &&& r == (b.tokens >= n)
                &&& final(map)@ == (RateLimiterModel {
                    limiters: old(map)@.limiters.insert(
                        self.provider_id@,
                        LimiterModel {
                            tpm: if r {
                                BucketModel { tokens: (b.tokens - n) as u64, ..b }
                            } else {
                                b
                            },
                            ..l
                        },
                    ),
                    ..old(map)@
                })
            }),
    {
        match map.limiters.position(self.provider_id.as_str()) {
            None => false,
            Some(i) => {
                proof {
                    map.limiters.lemma_seqs();
                }
                let mut l = *map.limiters.value_at(i);
                let ok = l.tpm_bucket.try_acquire_n_at(n, now);
                let ghost old_lim = map.limiters@;
                map.limiters.set_at(i, l);
                proof {
                    map.lemma_limiters_view_insert(old_lim, self.provider_id@, l);
                }
                ok
            },
        }
    }

    /// `try_acquire_tpm_at` with the current time.
    pub fn try_acquire_tpm(&self, map: &mut ProviderRateLimiterMap, n: u64) -> (r: bool)
        requires
            old(map).wf(),
        ensures
            final(map).wf(),
            !old(map)@.limiters.contains_key(self.provider_id@) ==> !r,
            exists|t: u64| #[trigger] tpm_outcome(old(map)@, self.provider_id@, n, t, r, final(map)@),
    {
        let t = now_nanos();
        let r = self.try_acquire_tpm_at(map, n, t);
        assert(tpm_outcome(old(map)@, self.provider_id@, n, t, r, map@));
        r
    }

    /// Refunds `n` request tokens (capped at capacity).
    pub fn release_rpm(&self, map: &mut ProviderRateLimiterMap, n: u64)
        requires
            old(map).wf(),
        ensures
            final(map).wf(),
            !old(map)@.limiters.contains_key(self.provider_id@) ==> final(map)@ == old(map)@,
            old(map)@.limiters.contains_key(self.provider_id@) ==> ({
                let l = old(map)@.limiters[self.provider_id@];
                final(map)@ == (RateLimiterModel {
                    limiters: old(map)@.limiters.insert(
                        self.provider_id@,
                        LimiterModel {
                            rpm: BucketModel {
                                tokens: min_int(l.rpm.tokens + n, l.rpm.capacity as int) as u64,
                                ..l.rpm
                            },
                            ..l
                        },
                    ),
                    ..old(map)@
                })
            }),
    {
        match map.limiters.position(self.provider_id.as_str()) {
            None => {},
            Some(i) => {
                proof {
                    map.limiters.lemma_seqs();
                }
                let mut l = *map.limiters.value_at(i);
                l.rpm_bucket.release(n);
                let ghost old_lim = map.limiters@;
                map.limiters.set_at(i, l);
                proof {
                    map.lemma_limiters_view_insert(old_lim, self.provider_id@, l);
                }
            },
        }
    }

    /// Refunds `n` budget tokens (capped at capacity).
    pub fn release_tpm(&self, map: &mut ProviderRateLimiterMap, n: u64)
        requires
            old(map).wf(),
        ensures
            final(map).wf(),
            !old(map)@.limiters.contains_key(self.provider_id@) ==> final(map)@ == old(map)@,
            old(map)@.limiters.contains_key(self.provider_id@) ==> ({
                let l = old(map)@.limiters[self.provider_id@];
                final(map)@ == (RateLimiterModel {
                    limiters: old(map)@.limiters.insert(
                        self.provider_id@,
                        LimiterModel {
                            tpm: BucketModel {
                                tokens: min_int(l.tpm.tokens + n, l.tpm.capacity as int) as u64,
                                ..l.tpm
                            },
                            ..l
                        },
                    ),
                    ..old(map)@
                })
            }),
    {
        match map.limiters.position(self.provider_id.as_str()) {
            None => {},
            Some(i) => {
                proof {
                    map.limiters.lemma_seqs();
                }
                let mut l = *map.limiters.value_at(i);
                l.tpm_bucket.release(n);
                let ghost old_lim = map.limiters@;
                map.limiters.set_at(i, l);
                proof {
                    map.lemma_limiters_view_insert(old_lim, self.provider_id@, l);
                }
            },
        }
    }
}

} // verus!

verus! {

/// Degrading a provider and then recovering it gives it fresh buckets with
/// its original limits (the defaults if it had none recorded), and no
/// degraded record.
pub proof fn lemma_degrade_then_recover(
    m: RateLimiterModel,
    k: Seq<char>,
    rpm: u64,
    tpm: u64,
    duration: u64,
    t1: u64,
    t2: u64,
)
    ensures
        ({
            let orig = if m.originals.contains_key(k) {
                m.originals[k]
            } else {
                default_limits(m)
            };
            let r = exit_degraded_model(enter_degraded_model(m, k, rpm, tpm, duration, t1), k, t2);
            &&& !r.degraded.contains_key(k)
            &&& r.limiters.contains_key(k)
            &&& r.limiters[k] == fresh_limiter(orig.rpm, orig.tpm, orig.burst, t2)
            &&& r.limiters[k].rpm.capacity == orig.burst && r.limiters[k].rpm.tokens == orig.burst
            &&& r.limiters[k].tpm.capacity == orig.tpm && r.limiters[k].tpm.tokens == orig.tpm
            &&& r.originals.contains_key(k) && r.originals[k] == orig
        }),
{
}

/// Each new trigger of degraded mode counts one more escalation and backs the
/// recovery time off: `duration` times 1, 2, 4, 8 and then 16.
pub proof fn lemma_degrade_escalates(
    m: RateLimiterModel,
    k: Seq<char>,
    rpm: u64,
    tpm: u64,
    duration: u64,
    now: u64,
)
    requires
        m.degraded.contains_key(k) ==> m.degraded[k].escalation_count < u32::MAX,
        duration <= u64::MAX / 16,
    ensures
        ({
            let r = enter_degraded_model(m, k, rpm, tpm, duration, now);
            let before: int = if m.degraded.contains_key(k) {
                m.degraded[k].escalation_count as int
            } else {
                0
            };
            &&& r.degraded[k].escalation_count == before + 1
            &&& r.degraded[k].recovery_after == duration * escalation_multiplier(
                r.degraded[k].escalation_count,
            )
            &&& r.degraded[k].escalation_count == 1 ==> r.degraded[k].recovery_after == duration
            &&& r.degraded[k].escalation_count == 2 ==> r.degraded[k].recovery_after == duration * 2
            &&& r.degraded[k].escalation_count == 3 ==> r.degraded[k].recovery_after == duration * 4
            &&& r.degraded[k].escalation_count == 4 ==> r.degraded[k].recovery_after == duration * 8
            &&& r.degraded[k].escalation_count >= 5 ==> r.degraded[k].recovery_after == duration * 16
            &&& r.degraded[k].degraded_since == now
            &&& r.degraded[k].degraded_rpm == rpm && r.degraded[k].degraded_tpm == tpm
            &&& effective_rpm_model(r, k, now) == rpm || r.degraded[k].recovery_after == 0
        }),
{
    let esc: u32 = if m.degraded.contains_key(k) {
        (m.degraded[k].escalation_count + 1) as u32
    } else {
        1
    };
    let mult = escalation_multiplier(esc);
    assert(1 <= mult <= 16);
    assert(duration * mult <= u64::MAX) by (nonlinear_arith)
        requires
            duration <= u64::MAX / 16,
            1 <= mult <= 16,
    ;
}

/// While its degraded window is open a provider runs at the degraded rate;
/// once the window has passed it runs at its original (or default) rate.
pub proof fn lemma_effective_rpm_window(
    m: RateLimiterModel,
    k: Seq<char>,
    rpm: u64,
    tpm: u64,
    duration: u64,
    t1: u64,
    t2: u64,
)
    ensures
        ({
            let r = enter_degraded_model(m, k, rpm, tpm, duration, t1);
            let orig = if m.originals.contains_key(k) {
                m.originals[k]
            } else {
                default_limits(m)
            };
            &&& elapsed_between(t1, t2) < r.degraded[k].recovery_after ==> effective_rpm_model(r, k, t2)
                == rpm
            &&& elapsed_between(t1, t2) >= r.degraded[k].recovery_after ==> effective_rpm_model(
                r,
                k,
                t2,
            ) == orig.rpm
        }),
{
}

} // verus!

verus! {

/// Asking at `now` whether `id` is degraded answers `r` and leaves `after`:
/// a provider whose recovery is due leaves degraded mode and is not degraded;
/// otherwise nothing changes and the answer is whether it has a degraded
/// record.
pub open spec fn degraded_outcome(m: RateLimiterModel, id: Seq<char>, now: u64, r: bool, after: RateLimiterModel) -> bool {
    &&& recovery_due(m, id, now) ==> !r && after == exit_degraded_model(m, id, now)
    &&& !recovery_due(m, id, now) ==> after == m && r == m.degraded.contains_key(id)
}

/// Taking `n` budget tokens for `id` at `now` answers `r` and leaves `after`:
/// a provider without a limiter gets `false` and nothing changes; otherwise
/// its token budget is refilled and `n` tokens are taken when there are
/// enough.
pub open spec fn tpm_outcome(m: RateLimiterModel, id: Seq<char>, n: u64, now: u64, r: bool, after: RateLimiterModel) -> bool {
    &&& !m.limiters.contains_key(id) ==> !r && after == m
    &&& m.limiters.contains_key(id) ==> ({
        let l = m.limiters[id];
        let b = refill_model(l.tpm, now);
        &&& r == (b.tokens >= n)
        &&& after == (RateLimiterModel {
            limiters: m.limiters.insert(
                id,
                LimiterModel {
                    tpm: if r {
                        BucketModel { tokens: (b.tokens - n) as u64, ..b }
                    } else {
                        b
                    },
                    ..l
                },
            ),
            ..m
        })
    })
}

} // verus!
