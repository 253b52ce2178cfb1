//! Decisions of a chunk worker: whether a picked chunk is processed, the
//! token estimate it is charged, how a failed synthesis attempt is retried
//! (back-off, degraded mode, circuit breaker) and how a final failure is
//! reported. The worker loop itself (waiting, I/O) runs around these.

use vstd::prelude::*;
use crate::error::AppError;
use crate::task::{TaskStatus, task_status_name};
use crate::text::{contains_str, has_substring, str_equals};
use crate::balancer::{ProviderLoadBalancer, is_available_spec, lighter};
use crate::rate_limiter::{ProviderRateLimiterMap, NANOS_PER_MINUTE, enter_degraded_model};
use vstd::string::StringSliceAdditionalSpecFns;
use vstd::arithmetic::power2::{pow2, lemma2_to64, lemma_pow2_strictly_increases};

verus! {

/// Attempts after the first before a chunk is given up.
pub const MAX_RETRIES: u32 = 10;

/// Consecutive chunk failures (across workers) that pause all processing.
pub const MAX_CONSECUTIVE_FAILURES: u32 = 20;

/// Upper bound of the back-off base, in seconds.
pub const BACKOFF_CAP_SECS: u64 = 30;

/// What a worker does with a picked chunk, given its parent task's status.
#[derive(Debug, Clone, PartialEq, Eq)]
pub enum ParentAction {
    /// The parent is finished: mark the chunk failed with this message.
    FailChunk(String),
    /// The parent is paused: leave the chunk for later.
    Skip,
    /// Process the chunk.
    Proceed,
}

/// Parents whose chunks are no longer worth synthesizing.
pub open spec fn parent_finished(s: TaskStatus) -> bool {
    s == TaskStatus::Cancelled || s == TaskStatus::Failed || s == TaskStatus::Done
}

/// Decides what to do with a chunk whose parent task has `status`.
pub fn parent_action(status: TaskStatus) -> (r: ParentAction)
    ensures
        parent_finished(status) ==> (r matches ParentAction::FailChunk(m) && m@ == "Parent task is "@
            + task_status_name(status)),
        status == TaskStatus::Paused ==> r == ParentAction::Skip,
        !parent_finished(status) && status != TaskStatus::Paused ==> r == ParentAction::Proceed,
{
    match status {
        TaskStatus::Cancelled | TaskStatus::Failed | TaskStatus::Done => {
            let mut m = String::from_str("Parent task is ");
            m.append(status.name());
            ParentAction::FailChunk(m)
        },
        TaskStatus::Paused => ParentAction::Skip,
        _ => ParentAction::Proceed,
    }
}

/// The token budget charged for a chunk: one token per two bytes of UTF-8
/// text, at least one.
pub open spec fn token_estimate_for(byte_len: nat) -> u64 {
    if byte_len / 2 >= 1 {
        (byte_len / 2) as u64
    } else {
        1
    }
}

/// Estimated tokens of a chunk's text.
pub fn estimated_tokens(text: &str) -> (r: u64)
    ensures
        r == token_estimate_for(text.spec_bytes().len()),
{
    let bytes = text.as_bytes();
    let half: u64 = (bytes.len() as u64) / 2;
    if half >= 1 {
        half
    } else {
        1
    }
}

/// A task still Queued moves to Processing when its first chunk is claimed.
pub fn starts_processing(status: TaskStatus) -> (r: bool)
    ensures
        r == (status == TaskStatus::Queued),
{
    status == TaskStatus::Queued
}

/// How a failed synthesis attempt is treated.
#[derive(Debug, Clone, Copy, PartialEq, Eq, Structural)]
pub enum FailureKind {
    /// The API answered 429.
    RateLimited,
    /// The API answered with a 5xx.
    ServerOverload,
    /// The request did not get through (connection, DNS, timeout).
    Network,
    /// Anything else.
    Other,
}

/// Marks of a network failure in an error's rendered text.
pub open spec fn network_text(rendered: Seq<char>) -> bool {
    ||| has_substring(rendered, "error sending request"@)
    ||| has_substring(rendered, "connection"@)
    ||| has_substring(rendered, "dns"@)
    ||| has_substring(rendered, "timeout"@)
}

/// The kind of a failure: its variant first, then the rendered text.
pub open spec fn failure_kind(err: AppError, rendered: Seq<char>) -> FailureKind {
    match err {
        AppError::RateLimited => FailureKind::RateLimited,
        AppError::ServerOverload(_) => FailureKind::ServerOverload,
        _ => if network_text(rendered) {
            FailureKind::Network
        } else {
            FailureKind::Other
        },
    }
}

/// Classifies a failed attempt; `rendered` is the error as displayed.
pub fn classify_failure(err: &AppError, rendered: &str) -> (r: FailureKind)
    ensures
        r == failure_kind(*err, rendered@),
{
    match err {
        AppError::RateLimited => FailureKind::RateLimited,
        AppError::ServerOverload(_) => FailureKind::ServerOverload,
        _ => {
            let net = contains_str(rendered, "error sending request") || contains_str(
                rendered,
                "connection",
            ) || contains_str(rendered, "dns") || contains_str(rendered, "timeout");
            if net {
                FailureKind::Network
            } else {
                FailureKind::Other
            }
        },
    }
}

/// One step of the chunk-id hash: `acc * 31 + b`, wrapping at 64 bits.
pub open spec fn hash_step(acc: u64, b: u8) -> u64 {
    vstd::wrapping::u64_specs::wrapping_add(vstd::wrapping::u64_specs::wrapping_mul(acc, 31), b as u64)
}

/// The hash of `bytes` folded from `seed`.
pub open spec fn hash_bytes(bytes: Seq<u8>, seed: u64) -> u64
    decreases bytes.len(),
{
    if bytes.len() == 0 {
        seed
    } else {
        hash_step(hash_bytes(bytes.drop_last(), seed), bytes.last())
    }
}

/// Back-off base in seconds: `2^attempt`, at most `BACKOFF_CAP_SECS`.
pub open spec fn backoff_base(attempt: u32) -> int {
    if pow2(attempt as nat) <= BACKOFF_CAP_SECS {
        pow2(attempt as nat) as int
    } else {
        BACKOFF_CAP_SECS as int
    }
}

/// Half-width of the jitter window: a third of the base, at least one.
pub open spec fn jitter_range(base: int) -> int {
    if base / 3 >= 1 {
        base / 3
    } else {
        1
    }
}

/// Seconds to wait before the retry that follows attempt `attempt`: the base
/// moved by a jitter in `[-range, range]` derived from the chunk id, at least
/// one second.
pub open spec fn backoff_delay(id_bytes: Seq<u8>, attempt: u32) -> int {
    let base = backoff_base(attempt);
    let jr = jitter_range(base);
    let h = hash_bytes(id_bytes, attempt as u64);
    let d = base + (h % ((2 * jr + 1) as u64)) - jr;
    if d >= 1 {
        d
    } else {
        1
    }
}

proof fn lemma_backoff_base(attempt: u32)
    ensures
        attempt == 0 ==> backoff_base(attempt) == 1,
        attempt == 1 ==> backoff_base(attempt) == 2,
        attempt == 2 ==> backoff_base(attempt) == 4,
        attempt == 3 ==> backoff_base(attempt) == 8,
        attempt == 4 ==> backoff_base(attempt) == 16,
        attempt >= 5 ==> backoff_base(attempt) == 30,
{
    lemma2_to64();
    if attempt > 5 {
        lemma_pow2_strictly_increases(5, attempt as nat);
    }
}

/// The back-off delay, in seconds, after attempt `attempt` of chunk `chunk_id`.
pub fn backoff_delay_secs(chunk_id: &str, attempt: u32) -> (r: u64)
    ensures
        r == backoff_delay(chunk_id.spec_bytes(), attempt),
{
    let bytes = chunk_id.as_bytes();
    let mut h: u64 = attempt as u64;
    let mut i: usize = 0;
    while i < bytes.len()
        invariant
            i <= bytes@.len(),
            h == hash_bytes(bytes@.take(i as int), attempt as u64),
        decreases bytes@.len() - i,
    {
        assert(bytes@.take(i + 1).drop_last() =~= bytes@.take(i as int));
        h = h.wrapping_mul(31).wrapping_add(bytes[i] as u64);
        i = i + 1;
    }
    assert(bytes@.take(bytes@.len() as int) =~= bytes@);
    proof {
        lemma_backoff_base(attempt);
    }
    let base: u64 = if attempt == 0 {
        1
    } else if attempt == 1 {
        2
    } else if attempt == 2 {
        4
    } else if attempt == 3 {
        8
    } else if attempt == 4 {
        16
    } else {
        30
    };
    let jr: u64 = if base / 3 >= 1 {
        base / 3
    } else {
        1
    };
    let offset: u64 = h % (2 * jr + 1);
    let d: i64 = (base as i64) + (offset as i64) - (jr as i64);
    if d >= 1 {
        d as u64
    } else {
        1
    }
}

/// A degraded-mode order for a provider: lower limits for a while.
#[derive(Debug, Clone, Copy, PartialEq, Eq, Structural)]
pub struct DegradeOrder {
    pub rpm: u64,
    pub tpm: u64,
    pub duration_secs: u64,
}

/// After a 429 or 5xx: 10 requests and 500K tokens per minute for 60 s.
pub open spec fn throttle_degrade() -> DegradeOrder {
    DegradeOrder { rpm: 10, tpm: 500_000, duration_secs: 60 }
}

/// After repeated network errors, or a chunk lost to throttling: 5 requests
/// and 200K tokens per minute for 120 s.
pub open spec fn network_degrade() -> DegradeOrder {
    DegradeOrder { rpm: 5, tpm: 200_000, duration_secs: 120 }
}

/// When the circuit breaker trips: 3 requests and 100K tokens per minute for
/// 180 s.
pub open spec fn breaker_degrade() -> DegradeOrder {
    DegradeOrder { rpm: 3, tpm: 100_000, duration_secs: 180 }
}

/// Retry bookkeeping of one chunk.
#[derive(Debug, Clone, Copy, PartialEq, Eq, Structural)]
pub struct RetryState {
    /// Attempts already retried.
    pub attempt: u32,
    /// Throttling failures (429/5xx) in a row.
    pub consecutive_throttle: u32,
    /// Network failures in a row.
    pub consecutive_network: u32,
}

/// What follows a failed attempt.
#[derive(Debug, Clone, Copy, PartialEq, Eq, Structural)]
pub enum RetryStep {
    /// No retries left: the failure is final.
    GiveUp,
    /// Wait `delay_secs`, apply `degrade` to the provider if any, pause all
    /// workers if `trip_breaker`, then try again.
    Retry { delay_secs: u64, degrade: Option<DegradeOrder>, trip_breaker: bool },
}

impl RetryState {
    /// Counters never run ahead of the attempts.
    pub open spec fn wf(self) -> bool {
        self.consecutive_throttle <= self.attempt && self.consecutive_network <= self.attempt
    }

    /// The state before the first attempt.
    pub fn new() -> (r: Self)
        ensures
            r == (RetryState { attempt: 0, consecutive_throttle: 0, consecutive_network: 0 }),
            r.wf(),
    {
        RetryState { attempt: 0, consecutive_throttle: 0, consecutive_network: 0 }
    }
}

/// The counters after a failure of `kind` that is retried.
pub open spec fn next_retry_state(s: RetryState, kind: FailureKind) -> RetryState {
    match kind {
        FailureKind::RateLimited | FailureKind::ServerOverload => RetryState {
            attempt: (s.attempt + 1) as u32,
            consecutive_throttle: (s.consecutive_throttle + 1) as u32,
            consecutive_network: 0,
        },
        FailureKind::Network => RetryState {
            attempt: (s.attempt + 1) as u32,
            consecutive_throttle: 0,
            consecutive_network: (s.consecutive_network + 1) as u32,
        },
        FailureKind::Other => RetryState {
            attempt: (s.attempt + 1) as u32,
            consecutive_throttle: 0,
            consecutive_network: 0,
        },
    }
}

/// The step taken after a failure of `kind` in state `s`.
pub open spec fn retry_step(s: RetryState, kind: FailureKind, id_bytes: Seq<u8>) -> RetryStep {
    if s.attempt >= MAX_RETRIES {
        RetryStep::GiveUp
    } else {
        let n = next_retry_state(s, kind);
        let delay = backoff_delay(id_bytes, s.attempt) as u64;
        match kind {
            FailureKind::RateLimited | FailureKind::ServerOverload => RetryStep::Retry {
                delay_secs: delay,
                degrade: Some(throttle_degrade()),
                trip_breaker: n.consecutive_throttle >= 3,
            },
            FailureKind::Network => RetryStep::Retry {
                delay_secs: delay,
                degrade: if n.consecutive_network >= 2 {
                    Some(network_degrade())
                } else {
                    None
                },
                trip_breaker: false,
            },
            FailureKind::Other => RetryStep::Retry { delay_secs: delay, degrade: None, trip_breaker: false },
        }
    }
}

impl RetryState {
    /// Records a failed attempt of chunk `chunk_id` and says what follows.
    pub fn on_failure(&mut self, kind: FailureKind, chunk_id: &str) -> (r: RetryStep)
        requires
            old(self).wf(),
        ensures
            final(self).wf(),
            r == retry_step(*old(self), kind, chunk_id.spec_bytes()),
            old(self).attempt >= MAX_RETRIES ==> *final(self) == *old(self),
            old(self).attempt < MAX_RETRIES ==> *final(self) == next_retry_state(*old(self), kind),
            old(self).attempt < MAX_RETRIES && (kind == FailureKind::RateLimited || kind == FailureKind::ServerOverload)
                ==> (r matches RetryStep::Retry { degrade, .. } && degrade == Some(
                DegradeOrder { rpm: 10, tpm: 500_000, duration_secs: 60 },
            )),
            old(self).attempt >= MAX_RETRIES <==> r == RetryStep::GiveUp,
            old(self).attempt < MAX_RETRIES ==> final(self).attempt == old(self).attempt + 1,
    {
        proof {
            lemma_overload_throttled_like_rate_limit(*old(self), chunk_id.spec_bytes());
            lemma_retry_policy(*old(self), kind, chunk_id.spec_bytes());
        }
        if self.attempt >= MAX_RETRIES {
            return RetryStep::GiveUp;
        }
        let delay = backoff_delay_secs(chunk_id, self.attempt);
        proof {
            assert(0 <= backoff_delay(chunk_id.spec_bytes(), self.attempt) <= u64::MAX);
        }
        let step = match kind {
            FailureKind::RateLimited | FailureKind::ServerOverload => {
                self.consecutive_throttle = self.consecutive_throttle + 1;
                self.consecutive_network = 0;
                RetryStep::Retry {
                    delay_secs: delay,
                    degrade: Some(DegradeOrder { rpm: 10, tpm: 500_000, duration_secs: 60 }),
                    trip_breaker: self.consecutive_throttle >= 3,
                }
            },
            FailureKind::Network => {
                self.consecutive_network = self.consecutive_network + 1;
                self.consecutive_throttle = 0;
                let degrade = if self.consecutive_network >= 2 {
                    Some(DegradeOrder { rpm: 5, tpm: 200_000, duration_secs: 120 })
                } else {
                    None
                };
                RetryStep::Retry { delay_secs: delay, degrade, trip_breaker: false }
            },
            FailureKind::Other => {
                self.consecutive_throttle = 0;
                self.consecutive_network = 0;
                RetryStep::Retry { delay_secs: delay, degrade: None, trip_breaker: false }
            },
        };
        self.attempt = self.attempt + 1;
        step
    }
}

/// The message a chunk is marked failed with once it has no retries left.
pub open spec fn final_failure_text(err: AppError, rendered: Seq<char>) -> Seq<char> {
    match err {
        AppError::RateLimited => "Rate limited (429) after 10 retries"@,
        AppError::ServerOverload(_) => if has_substring(rendered, "TCP/connect"@) {
            "TCP connection refused after 10 retries"@
        } else {
            "Server overload (5xx) after 10 retries"@
        },
        _ => rendered,
    }
}

/// Builds the final failure message of a chunk; `rendered` is the error as
/// displayed.
pub fn final_failure_message(err: &AppError, rendered: &str) -> (r: String)
    ensures
        r@ == final_failure_text(*err, rendered@),
{
    match err {
        AppError::RateLimited => String::from_str("Rate limited (429) after 10 retries"),
        AppError::ServerOverload(_) => {
            if contains_str(rendered, "TCP/connect") {
                String::from_str("TCP connection refused after 10 retries")
            } else {
                String::from_str("Server overload (5xx) after 10 retries")
            }
        },
        _ => String::from_str(rendered),
    }
}

/// The degraded mode a final throttling failure puts its provider in.
pub fn final_failure_degrade(err: &AppError) -> (r: Option<DegradeOrder>)
    ensures
        (*err is RateLimited || *err is ServerOverload) ==> r == Some(network_degrade()),
        (*err is RateLimited || *err is ServerOverload) ==> r == Some(
            DegradeOrder { rpm: 5, tpm: 200_000, duration_secs: 120 },
        ),
        !(*err is RateLimited || *err is ServerOverload) ==> r is None,
{
    match err {
        AppError::RateLimited | AppError::ServerOverload(_) => Some(
            DegradeOrder { rpm: 5, tpm: 200_000, duration_secs: 120 },
        ),
        _ => None,
    }
}

/// Flags shared by all workers: shutdown, the circuit breaker, and the count
/// of chunk failures in a row.
#[derive(Debug, Clone, Copy, PartialEq, Eq, Structural)]
pub struct WorkerControl {
    pub cancelled: bool,
    pub paused: bool,
    pub consecutive_failures: u32,
}

impl WorkerControl {
    /// Running, not paused, no failures.
    pub fn new() -> (r: Self)
        ensures
            r == (WorkerControl { cancelled: false, paused: false, consecutive_failures: 0 }),
    {
        WorkerControl { cancelled: false, paused: false, consecutive_failures: 0 }
    }

    /// A chunk succeeded: the failure streak ends.
    pub fn on_chunk_success(&mut self)
        ensures
            *final(self) == (WorkerControl { consecutive_failures: 0, ..*old(self) }),
    {
        self.consecutive_failures = 0;
    }

    /// A chunk failed for good. The streak grows; at
    /// `MAX_CONSECUTIVE_FAILURES` all workers pause and the provider gets the
    /// breaker's degraded mode.
    pub fn on_chunk_failure(&mut self) -> (r: Option<DegradeOrder>)
        requires
            old(self).consecutive_failures < u32::MAX,
        ensures
            final(self).consecutive_failures == old(self).consecutive_failures + 1,
            final(self).cancelled == old(self).cancelled,
            old(self).consecutive_failures + 1 >= MAX_CONSECUTIVE_FAILURES ==> final(self).paused && r
                == Some(breaker_degrade()),
            old(self).consecutive_failures + 1 >= MAX_CONSECUTIVE_FAILURES ==> r == Some(
                DegradeOrder { rpm: 3, tpm: 100_000, duration_secs: 180 },
            ),
            old(self).consecutive_failures + 1 < MAX_CONSECUTIVE_FAILURES ==> final(self).paused == old(
                self,
            ).paused && r is None,
    {
        self.consecutive_failures = self.consecutive_failures + 1;
        if self.consecutive_failures >= MAX_CONSECUTIVE_FAILURES {
            self.paused = true;
            Some(DegradeOrder { rpm: 3, tpm: 100_000, duration_secs: 180 })
        } else {
            None
        }
    }

    /// Throttling in a row trips the breaker: all workers pause.
    pub fn trip(&mut self)
        ensures
            *final(self) == (WorkerControl { paused: true, ..*old(self) }),
    {
        self.paused = true;
    }

    /// Graceful shutdown: workers stop, and a paused breaker no longer holds
    /// them.
    pub fn shutdown(&mut self)
        ensures
            *final(self) == (WorkerControl { cancelled: true, paused: false, ..*old(self) }),
    {
        self.cancelled = true;
        self.paused = false;
    }
}

/// Nanoseconds per second.
pub const NANOS_PER_SECOND: u64 = 1_000_000_000;

/// Orders that `apply_degrade` can carry out.
pub open spec fn degrade_order_ok(o: DegradeOrder) -> bool {
    o.rpm <= NANOS_PER_MINUTE && o.tpm <= NANOS_PER_MINUTE && o.duration_secs * NANOS_PER_SECOND
        <= u64::MAX / 16
}

/// Puts `provider_id` into the degraded mode an order describes, at `now`.
pub fn apply_degrade(map: &mut ProviderRateLimiterMap, provider_id: &str, order: DegradeOrder, now: u64)
    requires
        old(map).wf(),
        degrade_order_ok(order),
        old(map)@.degraded.contains_key(provider_id@) ==> old(map)@.degraded[provider_id@].escalation_count
            < u32::MAX,
    ensures
        final(map).wf(),
        final(map)@ == enter_degraded_model(
            old(map)@,
            provider_id@,
            order.rpm,
            order.tpm,
            (order.duration_secs * NANOS_PER_SECOND) as u64,
            now,
        ),
{
    map.enter_degraded_mode_at(provider_id, order.rpm, order.tpm, order.duration_secs * NANOS_PER_SECOND, now);
}

/// The circuit breaker's timeout ran out: workers resume with a clean streak
/// and every provider with a limiter leaves degraded mode.
pub fn resume_after_pause(control: &mut WorkerControl, map: &mut ProviderRateLimiterMap, now: u64)
    requires
        old(map).wf(),
    ensures
        *final(control) == (WorkerControl { paused: false, consecutive_failures: 0, ..*old(control) }),
        final(map).wf(),
        final(map)@.originals == old(map)@.originals,
        forall|k: Seq<char>| #[trigger] old(map)@.limiters.contains_key(k) ==> !final(map)@.degraded.contains_key(k),
        forall|k: Seq<char>| #[trigger] final(map)@.degraded.contains_key(k) ==> old(map)@.degraded.contains_key(k),
{
    control.paused = false;
    control.consecutive_failures = 0;
    let ids = map.provider_ids();
    let ghost m0 = map@;
    let mut i: usize = 0;
    while i < ids.len()
        invariant
            i <= ids@.len(),
            map.wf(),
            map@.originals == m0.originals,
            forall|j: int| 0 <= j < ids@.len() ==> m0.limiters.contains_key(#[trigger] ids@[j]@),
            forall|k: Seq<char>|
                #![trigger m0.limiters.contains_key(k)]
                m0.limiters.contains_key(k) ==> exists|j: int| 0 <= j < ids@.len() && ids@[j]@ == k,
            forall|j: int| 0 <= j < i ==> !map@.degraded.contains_key(#[trigger] ids@[j]@),
            forall|k: Seq<char>| #[trigger] map@.degraded.contains_key(k) ==> m0.degraded.contains_key(k),
        decreases ids@.len() - i,
    {
        let ghost before = map@;
        map.exit_degraded_mode_at(ids[i].as_str(), now);
        assert forall|j: int| 0 <= j < i + 1 implies !map@.degraded.contains_key(#[trigger] ids@[j]@) by {
            if j < i {
                assert(!before.degraded.contains_key(ids@[j]@));
            }
        }
        i = i + 1;
    }
    assert forall|k: Seq<char>| #[trigger] m0.limiters.contains_key(k) implies !map@.degraded.contains_key(k) by {
        let j = choose|j: int| 0 <= j < ids@.len() && ids@[j]@ == k;
        assert(!map@.degraded.contains_key(ids@[j]@));
    }
}

/// The answer of the task-level concurrency gate.
#[derive(Debug, Clone, Copy, PartialEq, Eq, Structural)]
pub enum Admission {
    /// The task already holds a slot.
    AlreadyActive,
    /// The task took a free slot.
    Admitted,
    /// All slots are taken: the chunk waits.
    Full,
}

/// The tasks that currently have chunks in flight, at most `capacity` of them.
pub struct TaskSlots {
    active: Vec<String>,
    capacity: usize,
}

impl View for TaskSlots {
    type V = Seq<Seq<char>>;

    closed spec fn view(&self) -> Seq<Seq<char>> {
        self.active@.map_values(|s: String| s@)
    }
}

impl TaskSlots {
    /// The number of slots.
    pub closed spec fn capacity(&self) -> nat {
        self.capacity as nat
    }

    /// No task twice, and no more tasks than slots.
    pub open spec fn wf(&self) -> bool {
        &&& self@.no_duplicates()
        &&& self@.len() <= self.capacity()
    }

    /// No task active, `capacity` slots.
    pub fn new(capacity: usize) -> (r: Self)
        ensures
            r.wf(),
            r@ == Seq::<Seq<char>>::empty(),
            r.capacity() == capacity,
    {
        let r = TaskSlots { active: Vec::new(), capacity };
        assert(r@ =~= Seq::<Seq<char>>::empty());
        r
    }

    /// How many tasks hold a slot.
    pub fn active_count(&self) -> (r: usize)
        ensures
            r == self@.len(),
    {
        self.active.len()
    }

    /// Whether `task_id` holds a slot.
    pub fn is_active(&self, task_id: &str) -> (r: bool)
        ensures
            r == self@.contains(task_id@),
    {
        let mut i: usize = 0;
        while i < self.active.len()
            invariant
                i <= self.active@.len(),
                forall|j: int| 0 <= j < i ==> self@[j] != task_id@,
            decreases self.active@.len() - i,
        {
            if str_equals(self.active[i].as_str(), task_id) {
                assert(self@[i as int] == task_id@);
                return true;
            }
            i = i + 1;
        }
        proof {
            if self@.contains(task_id@) {
                let j = choose|j: int| 0 <= j < self@.len() && self@[j] == task_id@;
                assert(self@[j] != task_id@);
            }
        }
        false
    }

    /// Lets `task_id` in: a task already in keeps its slot, a new one takes a
    /// free slot if there is one.
    pub fn try_admit(&mut self, task_id: &str) -> (r: Admission)
        requires
            old(self).wf(),
        ensures
            final(self).wf(),
            final(self).capacity() == old(self).capacity(),
            old(self)@.contains(task_id@) ==> r == Admission::AlreadyActive && final(self)@ == old(self)@,
            !old(self)@.contains(task_id@) && old(self)@.len() < old(self).capacity() ==> r
                == Admission::Admitted && final(self)@ == old(self)@.push(task_id@),
            !old(self)@.contains(task_id@) && old(self)@.len() >= old(self).capacity() ==> r
                == Admission::Full && final(self)@ == old(self)@,
    {
        if self.is_active(task_id) {
            return Admission::AlreadyActive;
        }
        if self.active.len() >= self.capacity {
            return Admission::Full;
        }
        let ghost before = self@;
        self.active.push(String::from_str(task_id));
        assert(self@ =~= before.push(task_id@));
        Admission::Admitted
    }

    /// Frees the slot of `task_id`; says whether it held one.
    pub fn release(&mut self, task_id: &str) -> (r: bool)
        requires
            old(self).wf(),
        ensures
            final(self).wf(),
            final(self).capacity() == old(self).capacity(),
            r == old(self)@.contains(task_id@),
            final(self)@.len() == if r { old(self)@.len() - 1 } else { old(self)@.len() as int },
            forall|k: Seq<char>| #[trigger] final(self)@.contains(k) <==> (old(self)@.contains(k) && k != task_id@),
    {
        let ghost before = self@;
        let mut i: usize = 0;
        while i < self.active.len()
            invariant
                self@ == before,
                before == old(self)@,
                self.capacity == old(self).capacity,
                before.no_duplicates(),
                before.len() <= self.capacity,
                i <= self.active@.len(),
                forall|j: int| 0 <= j < i ==> self@[j] != task_id@,
            decreases self.active@.len() - i,
        {
            if str_equals(self.active[i].as_str(), task_id) {
                let ghost at = i as int;
                self.active.remove(i);
                assert(self@ =~= before.remove(at));
                proof {
                    assert(before[at] == task_id@);
                    assert(before.contains(task_id@));
                    assert forall|a: int, b: int| 0 <= a < b < self@.len() implies self@[a] != self@[b] by {
                        let a0 = if a < at { a } else { a + 1 };
                        let b0 = if b < at { b } else { b + 1 };
                        assert(self@[a] == before[a0]);
                        assert(self@[b] == before[b0]);
                        assert(before[a0] != before[b0]);
                    }
                    assert forall|k: Seq<char>| #[trigger] self@.contains(k) <==> (before.contains(k) && k != task_id@) by {
                        if self@.contains(k) {
                            let x = choose|x: int| 0 <= x < self@.len() && self@[x] == k;
                            let x0 = if x < at { x } else { x + 1 };
                            assert(self@[x] == before[x0]);
                            assert(before[x0] == k);
                            assert(x0 != at);
                        }
                        if before.contains(k) && k != task_id@ {
                            let y = choose|y: int| 0 <= y < before.len() && before[y] == k;
                            assert(y != at);
                            let y1 = if y < at { y } else { y - 1 };
                            assert(self@[y1] == before[y]);
                            assert(self@[y1] == k);
                        }
                    }
                    assert(before[at] == task_id@);
                }
                return true;
            }
            i = i + 1;
        }
        proof {
            if before.contains(task_id@) {
                let j = choose|j: int| 0 <= j < before.len() && before[j] == task_id@;
                assert(self@[j] != task_id@);
            }
        }
        false
    }
}

/// The task's slot can be freed once none of its chunks is pending or
/// processing.
pub fn slot_releasable(pending: u64, processing: u64) -> (r: bool)
    ensures
        r == (pending == 0 && processing == 0),
{
    pending == 0 && processing == 0
}

/// The provider used when neither the task nor the balancer names one.
pub open spec fn fallback_provider(default_provider: Option<Seq<char>>) -> Seq<char> {
    match default_provider {
        Some(d) => d,
        None => "default"@,
    }
}

/// The provider that serves a chunk: the task's own; else the balancer's pick
/// at `now` (the available provider with the lightest load, first in
/// registration order among equals); else the configured default provider,
/// else `"default"`.
pub fn choose_provider(
    lb: &ProviderLoadBalancer,
    task_provider: Option<&str>,
    default_provider: Option<&str>,
    now: u64,
) -> (r: String)
    requires
        lb.wf(),
    ensures
        task_provider matches Some(p) ==> r@ == p@,
        ({
            let ord = lb.order();
            let st = lb.states();
            let avail = |k: Seq<char>| is_available_spec(st[k], lb.timeout(), now);
            &&& task_provider is None && (exists|j: int| 0 <= j < ord.len() && #[trigger] avail(ord[j]))
                ==> exists|i: int|
                0 <= i < ord.len() && ord[i] == r@ && avail(ord[i]) && (forall|j: int|
                    0 <= j < ord.len() && #[trigger] avail(ord[j]) ==> !lighter(st[ord[j]], st[ord[i]]))
                    && (forall|j: int| 0 <= j < i && #[trigger] avail(ord[j]) ==> lighter(st[ord[i]], st[ord[j]]))
            &&& task_provider is None && (forall|j: int| 0 <= j < ord.len() ==> !#[trigger] avail(ord[j]))
                ==> r@ == fallback_provider(
                match default_provider {
                    Some(d) => Some(d@),
                    None => None,
                },
            )
        }),
{
    match task_provider {
        Some(p) => String::from_str(p),
        None => match lb.select_at(None, now) {
            Some(id) => id,
            None => match default_provider {
                Some(d) => String::from_str(d),
                None => String::from_str("default"),
            },
        },
    }
}

} // verus!

verus! {

/// The back-off after any attempt lies within the jitter window around its
/// base (and is at least one second), so it never exceeds 40 seconds.
pub proof fn lemma_backoff_bounds(id_bytes: Seq<u8>, attempt: u32)
    ensures
        1 <= backoff_delay(id_bytes, attempt),
        backoff_delay(id_bytes, attempt) <= backoff_base(attempt) + jitter_range(backoff_base(attempt)),
        backoff_base(attempt) - jitter_range(backoff_base(attempt)) <= backoff_delay(id_bytes, attempt),
        backoff_delay(id_bytes, attempt) <= 40,
{
    lemma_backoff_base(attempt);
}

/// The retry state after a run of failures, each handled by `on_failure`.
pub open spec fn after_failures(s: RetryState, kinds: Seq<FailureKind>) -> RetryState
    decreases kinds.len(),
{
    if kinds.len() == 0 {
        s
    } else {
        let prev = after_failures(s, kinds.drop_last());
        if prev.attempt >= MAX_RETRIES {
            prev
        } else {
            next_retry_state(prev, kinds.last())
        }
    }
}

/// A server overload (5xx) is handled exactly as a rate limit (429): the
/// same step from any state, and below the retry limit both retry with the
/// provider degraded to 10 requests and 500K tokens per minute for 60 s.
pub proof fn lemma_overload_throttled_like_rate_limit(s: RetryState, id_bytes: Seq<u8>)
    ensures
        retry_step(s, FailureKind::ServerOverload, id_bytes) == retry_step(s, FailureKind::RateLimited, id_bytes),
        next_retry_state(s, FailureKind::ServerOverload) == next_retry_state(s, FailureKind::RateLimited),
        s.attempt < MAX_RETRIES ==> (retry_step(s, FailureKind::ServerOverload, id_bytes) matches RetryStep::Retry {
            degrade,
            ..
        } && degrade == Some(DegradeOrder { rpm: 10, tpm: 500_000, duration_secs: 60 })),
{
}

/// What follows a failure, by the failure and the run of failures before
/// it: past the retry limit the chunk is given up; otherwise it is retried
/// after a back-off of 1 to 40 seconds; a throttle (429 or 5xx) degrades the
/// provider to 10 requests and 500K tokens per minute for 60 s and trips the
/// breaker from the third throttle in a row on; a network error degrades it
/// to 5 requests and 200K tokens for 120 s from the second in a row on and
/// never trips the breaker; any other failure does neither.
pub proof fn lemma_retry_policy(s: RetryState, kind: FailureKind, id_bytes: Seq<u8>)
    requires
        s.wf(),
    ensures
        s.attempt >= MAX_RETRIES <==> retry_step(s, kind, id_bytes) == RetryStep::GiveUp,
        s.attempt < MAX_RETRIES ==> (retry_step(s, kind, id_bytes) matches RetryStep::Retry {
            delay_secs,
            degrade,
            trip_breaker,
        } && 1 <= delay_secs <= 40 && next_retry_state(s, kind).attempt == s.attempt + 1 && match kind {
            FailureKind::RateLimited | FailureKind::ServerOverload => degrade == Some(
                DegradeOrder { rpm: 10, tpm: 500_000, duration_secs: 60 },
            ) && trip_breaker == (s.consecutive_throttle + 1 >= 3),
            FailureKind::Network => degrade == (if s.consecutive_network + 1 >= 2 {
                Some(DegradeOrder { rpm: 5, tpm: 200_000, duration_secs: 120 })
            } else {
                None
            }) && !trip_breaker,
            FailureKind::Other => degrade is None && !trip_breaker,
        }),
{
    lemma_backoff_bounds(id_bytes, s.attempt);
}

/// Starting from a fresh state, a chunk is retried at most `MAX_RETRIES`
/// times: after `n` failures its attempt count is `min(n, MAX_RETRIES)`, and
/// from then on every failure is final.
pub proof fn lemma_retries_bounded(kinds: Seq<FailureKind>, next: FailureKind, id_bytes: Seq<u8>)
    ensures
        after_failures(RetryState { attempt: 0, consecutive_throttle: 0, consecutive_network: 0 }, kinds).attempt
            == if kinds.len() < MAX_RETRIES { kinds.len() } else { MAX_RETRIES as nat },
        kinds.len() >= MAX_RETRIES ==> retry_step(
            after_failures(RetryState { attempt: 0, consecutive_throttle: 0, consecutive_network: 0 }, kinds),
            next,
            id_bytes,
        ) == RetryStep::GiveUp,
    decreases kinds.len(),
{
    if kinds.len() > 0 {
        lemma_retries_bounded(kinds.drop_last(), next, id_bytes);
    }
}

} // verus!

verus! {

/// Where a worker gives up a chunk it picked, before synthesis starts. The
/// worker takes, in order: an in-flight mark on the provider and one request
/// token; a task slot (for a task not yet running); the chunk's token
/// estimate from the token budget; the claim on the chunk.
#[derive(Debug, Clone, Copy, PartialEq, Eq, Structural)]
pub enum PickupExit {
    /// No task slot is free for a new task.
    TaskSlotsFull,
    /// The provider's token budget is short of the chunk's estimate.
    TokenBudgetShort,
    /// Another worker claimed the chunk first.
    ClaimedElsewhere,
    /// Claiming the chunk failed in the store.
    ClaimFailed,
}

/// What a worker hands back when it gives a chunk up.
#[derive(Debug, Clone, Copy, PartialEq, Eq, Structural)]
pub struct Refund {
    /// Request tokens returned to the provider's bucket.
    pub rpm: u64,
    /// Budget tokens returned to the provider's token budget.
    pub tpm: u64,
    /// Whether the provider's in-flight count is decremented.
    pub end_request: bool,
}

/// Whether the token budget had been taken when the pickup stopped at `e`.
pub open spec fn budget_taken(e: PickupExit) -> bool {
    e == PickupExit::ClaimedElsewhere || e == PickupExit::ClaimFailed
}

/// What the worker holds when the pickup stops at `e`, for a chunk whose
/// token estimate is `estimated_tokens`: always the in-flight mark and one
/// request token; the estimate too once the budget was taken.
pub open spec fn held_at(e: PickupExit, estimated_tokens: u64) -> Refund {
    Refund { rpm: 1, tpm: if budget_taken(e) { estimated_tokens } else { 0 }, end_request: true }
}

/// What a worker returns when it gives a chunk up at `e`: exactly what it
/// holds there, so no request token, budget or in-flight mark leaks.
pub fn pickup_refund(e: PickupExit, estimated_tokens: u64) -> (r: Refund)
    ensures
        r == held_at(e, estimated_tokens),
{
    match e {
        PickupExit::TaskSlotsFull | PickupExit::TokenBudgetShort => Refund { rpm: 1, tpm: 0, end_request: true },
        PickupExit::ClaimedElsewhere | PickupExit::ClaimFailed => Refund {
            rpm: 1,
            tpm: estimated_tokens,
            end_request: true,
        },
    }
}

/// A worker's pickup of a chunk with token estimate `est`: it gives the chunk
/// up at `exit`, if it does, and otherwise reaches synthesis.
pub open spec fn pickup_taken(exit: Option<PickupExit>, est: u64) -> Refund {
    match exit {
        Some(e) => held_at(e, est),
        None => Refund { rpm: 1, tpm: est, end_request: false },
    }
}

/// Giving a chunk up returns to the request bucket, the token budget and the
/// in-flight count exactly what the pickup took from them up to that point;
/// a pickup that reaches synthesis holds the request token, the estimate and
/// the in-flight mark, which the synthesis ends.
pub proof fn lemma_pickup_balanced(e: PickupExit, est: u64)
    ensures
        held_at(e, est).rpm == 1,
        held_at(e, est).end_request,
        held_at(e, est).tpm == (if budget_taken(e) { est } else { 0 }),
        pickup_taken(Some(e), est) == held_at(e, est),
        pickup_taken(None, est).tpm == est && !pickup_taken(None, est).end_request,
{
}

} // verus!
