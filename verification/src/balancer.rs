//! Provider selection: least connections relative to capacity, with a
//! circuit breaker per provider (open after consecutive failures, half-open
//! again after a recovery timeout). Times are nanoseconds.

use vstd::prelude::*;
use crate::clock::now_nanos;
use crate::table::Table;

verus! {

/// The view of an optional string slice.
pub open spec fn opt_str_view(o: Option<&str>) -> Option<Seq<char>> {
    match o {
        Some(s) => Some(s@),
        None => None,
    }
}

/// The view of an optional string.
pub open spec fn opt_string_view(o: Option<String>) -> Option<Seq<char>> {
    match o {
        Some(s) => Some(s@),
        None => None,
    }
}

/// Runtime state of one provider.
#[derive(Debug, Clone, Copy, PartialEq, Eq, Structural)]
pub struct ProviderState {
    /// Requests currently in flight.
    pub active_requests: u32,
    /// Configured requests per minute.
    pub rpm_capacity: u64,
    /// Failures since the last success.
    pub consecutive_failures: u32,
    /// When the circuit opened, if it is open (or half-open).
    pub circuit_open_since: Option<u64>,
}

/// A provider whose circuit is closed, or open for at least `timeout`
/// (half-open: one probe is allowed), can be selected.
pub open spec fn is_available_spec(s: ProviderState, timeout: u64, now: u64) -> bool {
    match s.circuit_open_since {
        None => true,
        Some(opened) => (if now >= opened {
            now - opened
        } else {
            0
        }) >= timeout,
    }
}

/// The capacity used as divisor (at least one).
pub open spec fn cap_of(s: ProviderState) -> int {
    if s.rpm_capacity >= 1 {
        s.rpm_capacity as int
    } else {
        1
    }
}

/// `a` carries a strictly lower load ratio (active / capacity) than `b`.
pub open spec fn lighter(a: ProviderState, b: ProviderState) -> bool {
    a.active_requests * cap_of(b) < b.active_requests * cap_of(a)
}

/// A freshly registered provider.
pub open spec fn fresh_provider(rpm_capacity: u64) -> ProviderState {
    ProviderState {
        active_requests: 0,
        rpm_capacity,
        consecutive_failures: 0,
        circuit_open_since: None,
    }
}

/// One failure recorded at `now`: the count grows and the circuit opens when
/// the threshold is reached (an open circuit keeps its opening time).
pub open spec fn fail_model(s: ProviderState, threshold: u32, now: u64) -> ProviderState {
    let count = s.consecutive_failures + 1;
    ProviderState {
        consecutive_failures: count as u32,
        circuit_open_since: if count >= threshold && s.circuit_open_since is None {
            Some(now)
        } else {
            s.circuit_open_since
        },
        ..s
    }
}

/// `n` failures in a row, all at `now`.
pub open spec fn fail_times(s: ProviderState, threshold: u32, now: u64, n: nat) -> ProviderState
    decreases n,
{
    if n == 0 {
        s
    } else {
        fail_model(fail_times(s, threshold, now, (n - 1) as nat), threshold, now)
    }
}

/// Provider load balancer with a circuit breaker.
pub struct ProviderLoadBalancer {
    providers: Table<ProviderState>,
    failure_threshold: u32,
    recovery_timeout: u64,
}

impl ProviderLoadBalancer {
    /// Well-formedness: distinct provider ids.
    pub closed spec fn wf(&self) -> bool {
        self.providers.wf()
    }

    /// The providers by id.
    pub closed spec fn states(&self) -> Map<Seq<char>, ProviderState> {
        self.providers@
    }

    /// The providers' ids in registration order.
    pub closed spec fn order(&self) -> Seq<Seq<char>> {
        self.providers.key_seq()
    }

    /// Failures in a row that open a circuit.
    pub closed spec fn threshold(&self) -> u32 {
        self.failure_threshold
    }

    /// Nanoseconds a circuit stays open before a probe is allowed.
    pub closed spec fn timeout(&self) -> u64 {
        self.recovery_timeout
    }

    /// The registration order lists exactly the registered providers, once each.
    pub proof fn lemma_order(&self)
        requires
            self.wf(),
        ensures
            forall|i: int, j: int|
                0 <= i < j < self.order().len() ==> self.order()[i] != self.order()[j],
            forall|k: Seq<char>| #[trigger]
                self.states().contains_key(k) <==> self.order().contains(k),
    {
        self.providers.lemma_seqs();
    }

    /// A balancer that opens a circuit after 5 failures and probes after 60 s.
    pub fn new() -> (r: Self)
        ensures
            r.wf(),
            r.states() == Map::<Seq<char>, ProviderState>::empty(),
            r.threshold() == 5,
            r.timeout() == 60_000_000_000,
    {
        Self::with_config(5, 60_000_000_000)
    }

    /// A balancer with the given breaker threshold and recovery timeout.
    pub fn with_config(failure_threshold: u32, recovery_timeout: u64) -> (r: Self)
        ensures
            r.wf(),
            r.states() == Map::<Seq<char>, ProviderState>::empty(),
            r.order().len() == 0,
            r.threshold() == failure_threshold,
            r.timeout() == recovery_timeout,
    {
        ProviderLoadBalancer { providers: Table::new(), failure_threshold, recovery_timeout }
    }

    /// Registers (or re-registers) a provider, idle and with a closed circuit.
    pub fn add_provider(&mut self, provider_id: &str, rpm_capacity: u64)
        requires
            old(self).wf(),
        ensures
            final(self).wf(),
            final(self).states() == old(self).states().insert(provider_id@, fresh_provider(rpm_capacity)),
            final(self).threshold() == old(self).threshold(),
            final(self).timeout() == old(self).timeout(),
    {
        self.providers.insert(String::from_str(provider_id), fresh_provider_exec(rpm_capacity));
    }

    /// Forgets a provider.
    pub fn remove_provider(&mut self, provider_id: &str)
        requires
            old(self).wf(),
        ensures
            final(self).wf(),
            final(self).states() == old(self).states().remove(provider_id@),
            final(self).threshold() == old(self).threshold(),
            final(self).timeout() == old(self).timeout(),
    {
        self.providers.remove(provider_id);
    }

    /// Whether a provider state is selectable at `now`.
    pub fn is_available_at(&self, state: &ProviderState, now: u64) -> (r: bool)
        ensures
            r == is_available_spec(*state, self.timeout(), now),
    {
        match state.circuit_open_since {
            None => true,
            Some(opened) => {
                let elapsed = if now >= opened {
                    now - opened
                } else {
                    0
                };
                elapsed >= self.recovery_timeout
            },
        }
    }

    /// Whether a provider state is selectable now: what `is_available_at`
    /// answers at the clock's reading.
    pub fn is_available(&self, state: &ProviderState) -> (r: bool)
        ensures
            state.circuit_open_since is None ==> r,
            exists|t: u64| r == #[trigger] is_available_spec(*state, self.timeout(), t),
    {
        let t = now_nanos();
        let r = self.is_available_at(state, t);
        assert(r == is_available_spec(*state, self.timeout(), t));
        r
    }

    /// Picks a provider at `now`: the preferred one if it is registered and
    /// available, else the available provider with the lowest
    /// active/capacity ratio (the first such in registration order).
    pub fn select_at(&self, preferred: Option<&str>, now: u64) -> (r: Option<String>)
        requires
            self.wf(),
        ensures
            ({
                let pref_ok = preferred matches Some(p) && self.states().contains_key(p@)
                    && is_available_spec(self.states()[p@], self.timeout(), now);
                let ord = self.order();
                let st = self.states();
                &&& pref_ok ==> (r matches Some(id) && id@ == preferred->Some_0@)
                &&& !pref_ok ==> (r is None <==> (forall|j: int| 0 <= j < ord.len()
                    ==> !is_available_spec(#[trigger] st[ord[j]], self.timeout(), now)))
                &&& !pref_ok ==> (r matches Some(id) ==> exists|i: int|
                    0 <= i < ord.len() && ord[i] == id@ && is_available_spec(
                        st[ord[i]],
                        self.timeout(),
                        now,
                    ) && (forall|j: int|
                        0 <= j < ord.len() && is_available_spec(
                            #[trigger] st[ord[j]],
                            self.timeout(),
                            now,
                        ) ==> !lighter(st[ord[j]], st[ord[i]])) && (forall|j: int|
                        0 <= j < i && is_available_spec(#[trigger] st[ord[j]], self.timeout(), now)
                            ==> lighter(st[ord[i]], st[ord[j]])))
            }),
    {
        proof {
            self.providers.lemma_seqs();
        }
        match preferred {
            Some(p) => {
                match self.providers.get(p) {
                    Some(st) => {
                        if self.is_available_at(st, now) {
                            return Some(String::from_str(p));
                        }
                    },
                    None => {},
                }
            },
            None => {},
        }
        let n = self.providers.len();
        let ghost ord = self.order();
        let ghost stm = self.states();
        let mut best: Option<usize> = None;
        let mut i: usize = 0;
        while i < n
            invariant
                self.wf(),
                n == ord.len(),
                ord == self.order(),
                stm == self.states(),
                i <= n,
                forall|q: int| 0 <= q < ord.len() ==> #[trigger] stm[ord[q]] == self.providers.value_seq()[q],
                self.providers.key_seq().len() == self.providers.value_seq().len(),
                best is None <==> (forall|j: int| 0 <= j < i ==> !is_available_spec(
                    #[trigger] stm[ord[j]],
                    self.timeout(),
                    now,
                )),
                best matches Some(b) ==> (b < i && is_available_spec(stm[ord[b as int]], self.timeout(), now)
                    && (forall|j: int|
                    0 <= j < i && is_available_spec(#[trigger] stm[ord[j]], self.timeout(), now)
                        ==> !lighter(stm[ord[j]], stm[ord[b as int]])) && (forall|j: int|
                    0 <= j < b && is_available_spec(#[trigger] stm[ord[j]], self.timeout(), now)
                        ==> lighter(stm[ord[b as int]], stm[ord[j]]))),
            decreases n - i,
        {
            let st = self.providers.value_at(i);
            if self.is_available_at(st, now) {
                match best {
                    None => {
                        best = Some(i);
                    },
                    Some(b) => {
                        let bs = self.providers.value_at(b);
                        if load_lighter(st, bs) {
                            best = Some(i);
                            proof {
                                assert forall|j: int|
                                    0 <= j < i && is_available_spec(
                                        #[trigger] stm[ord[j]],
                                        self.timeout(),
                                        now,
                                    ) implies lighter(stm[ord[i as int]], stm[ord[j]]) by {
                                    lemma_lighter_trans_le(
                                        stm[ord[i as int]],
                                        stm[ord[b as int]],
                                        stm[ord[j]],
                                    );
                                }
                                assert forall|j: int|
                                    0 <= j < i + 1 && is_available_spec(
                                        #[trigger] stm[ord[j]],
                                        self.timeout(),
                                        now,
                                    ) implies !lighter(stm[ord[j]], stm[ord[i as int]]) by {
                                    if j < i {
                                        lemma_lighter_asym(stm[ord[i as int]], stm[ord[j]]);
                                    }
                                }
                            }
                        }
                    },
                }
            }
            i = i + 1;
        }
        match best {
            Some(b) => Some(self.providers.key_at(b).clone()),
            None => None,
        }
    }

    /// `select_at` with the current time.
    pub fn select(&self, preferred: Option<&str>) -> (r: Option<String>)
        requires
            self.wf(),
        ensures
            r matches Some(id) ==> self.states().contains_key(id@),
            exists|t: u64| #[trigger] self.select_outcome(opt_str_view(preferred), t, opt_string_view(r)),
    {
        let t = now_nanos();
        let r = self.select_at(preferred, t);
        proof {
            self.lemma_order();
        }
        assert(self.select_outcome(opt_str_view(preferred), t, opt_string_view(r)));
        r
    }

    /// The choice `r` is what selection at `now` makes, given the preferred
    /// provider: the preferred one if it is registered and available at
    /// `now`; else none exactly when no registered provider is available;
    /// else an available provider that no available one is lighter than, and
    /// lighter than every available one registered before it.
    pub open spec fn select_outcome(&self, preferred: Option<Seq<char>>, now: u64, r: Option<Seq<char>>) -> bool {
        let pref_ok = preferred matches Some(p) && self.states().contains_key(p) && is_available_spec(
            self.states()[p],
            self.timeout(),
            now,
        );
        let ord = self.order();
        let st = self.states();
        &&& pref_ok ==> r == preferred
        &&& !pref_ok ==> (r is None <==> (forall|j: int| 0 <= j < ord.len() ==> !is_available_spec(
            #[trigger] st[ord[j]],
            self.timeout(),
            now,
        )))
        &&& !pref_ok ==> (r matches Some(id) ==> exists|i: int|
            0 <= i < ord.len() && ord[i] == id && is_available_spec(st[ord[i]], self.timeout(), now) && (
            forall|j: int|
                0 <= j < ord.len() && is_available_spec(#[trigger] st[ord[j]], self.timeout(), now)
                    ==> !lighter(st[ord[j]], st[ord[i]])) && (forall|j: int|
                0 <= j < i && is_available_spec(#[trigger] st[ord[j]], self.timeout(), now) ==> lighter(
                    st[ord[i]],
                    st[ord[j]],
                )))
    }

    fn update(&mut self, provider_id: &str, f: ProviderStateChange, now: u64)
        requires
            old(self).wf(),
            f == ProviderStateChange::Failure ==> (old(self).states().contains_key(provider_id@)
                ==> old(self).states()[provider_id@].consecutive_failures < u32::MAX),
        ensures
            final(self).wf(),
            final(self).threshold() == old(self).threshold(),
            final(self).timeout() == old(self).timeout(),
            final(self).order() == old(self).order(),
            !old(self).states().contains_key(provider_id@) ==> final(self).states() == old(self).states(),
            old(self).states().contains_key(provider_id@) ==> final(self).states() == old(self).states().insert(
                provider_id@,
                apply_change(old(self).states()[provider_id@], f, old(self).threshold(), now),
            ),
    {
        match self.providers.position(provider_id) {
            None => {},
            Some(i) => {
                let s = *self.providers.value_at(i);
                let t = match f {
                    ProviderStateChange::Start => ProviderState {
                        active_requests: s.active_requests.wrapping_add(1),
                        ..s
                    },
                    ProviderStateChange::End => ProviderState {
                        active_requests: if s.active_requests > 0 {
                            s.active_requests - 1
                        } else {
                            0
                        },
                        ..s
                    },
                    ProviderStateChange::Success => ProviderState {
                        consecutive_failures: 0,
                        circuit_open_since: None,
                        ..s
                    },
                    ProviderStateChange::Failure => {
                        let count = s.consecutive_failures + 1;
                        ProviderState {
                            consecutive_failures: count,
                            circuit_open_since: if count >= self.failure_threshold
                                && s.circuit_open_since.is_none() {
                                Some(now)
                            } else {
                                s.circuit_open_since
                            },
                            ..s
                        }
                    },
                    ProviderStateChange::Reset => ProviderState {
                        consecutive_failures: 0,
                        circuit_open_since: None,
                        ..s
                    },
                };
                self.providers.set_at(i, t);
            },
        }
    }

    /// Counts one more request in flight to the provider (wrapping like an
    /// atomic counter).
    pub fn on_request_start(&mut self, provider_id: &str)
        requires
            old(self).wf(),
        ensures
            final(self).wf(),
            final(self).threshold() == old(self).threshold() && final(self).timeout() == old(self).timeout(),
            final(self).order() == old(self).order(),
            !old(self).states().contains_key(provider_id@) ==> final(self).states() == old(self).states(),
            old(self).states().contains_key(provider_id@) ==> final(self).states() == old(self).states().insert(
                provider_id@,
                apply_change(old(self).states()[provider_id@], ProviderStateChange::Start, old(self).threshold(), 0),
            ),
            old(self).states().contains_key(provider_id@) ==> ({
                let after = final(self).states()[provider_id@];
                let before = old(self).states()[provider_id@];
                &&& before.active_requests < u32::MAX ==> after.active_requests == before.active_requests + 1
                &&& after.rpm_capacity == before.rpm_capacity
                &&& after.consecutive_failures == before.consecutive_failures
                &&& after.circuit_open_since == before.circuit_open_since
            }),
    {
        self.update(provider_id, ProviderStateChange::Start, 0)
    }

    /// Counts one request less in flight (never below zero).
    pub fn on_request_end(&mut self, provider_id: &str)
        requires
            old(self).wf(),
        ensures
            final(self).wf(),
            final(self).threshold() == old(self).threshold() && final(self).timeout() == old(self).timeout(),
            final(self).order() == old(self).order(),
            !old(self).states().contains_key(provider_id@) ==> final(self).states() == old(self).states(),
            old(self).states().contains_key(provider_id@) ==> final(self).states() == old(self).states().insert(
                provider_id@,
                apply_change(old(self).states()[provider_id@], ProviderStateChange::End, old(self).threshold(), 0),
            ),
            old(self).states().contains_key(provider_id@) ==> ({
                let after = final(self).states()[provider_id@];
                let before = old(self).states()[provider_id@];
                &&& before.active_requests > 0 ==> after.active_requests == before.active_requests - 1
                &&& before.active_requests == 0 ==> after.active_requests == 0
                &&& after.rpm_capacity == before.rpm_capacity
                &&& after.consecutive_failures == before.consecutive_failures
                &&& after.circuit_open_since == before.circuit_open_since
            }),
    {
        self.update(provider_id, ProviderStateChange::End, 0)
    }

    /// Records a success: the failure count resets and the circuit closes.
    pub fn on_success(&mut self, provider_id: &str)
        requires
            old(self).wf(),
        ensures
            final(self).wf(),
            final(self).threshold() == old(self).threshold() && final(self).timeout() == old(self).timeout(),
            final(self).order() == old(self).order(),
            !old(self).states().contains_key(provider_id@) ==> final(self).states() == old(self).states(),
            old(self).states().contains_key(provider_id@) ==> final(self).states() == old(self).states().insert(
                provider_id@,
                apply_change(old(self).states()[provider_id@], ProviderStateChange::Success, old(self).threshold(), 0),
            ),
            old(self).states().contains_key(provider_id@) ==> ({
                let after = final(self).states()[provider_id@];
                let before = old(self).states()[provider_id@];
                &&& after.circuit_open_since is None
                &&& after.consecutive_failures == 0
                &&& after.active_requests == before.active_requests
                &&& after.rpm_capacity == before.rpm_capacity
            }),
    {
        self.update(provider_id, ProviderStateChange::Success, 0)
    }

    /// Records a failure at `now`; the circuit opens once the count reaches
    /// the threshold.
    pub fn on_failure_at(&mut self, provider_id: &str, now: u64)
        requires
            old(self).wf(),
            old(self).states().contains_key(provider_id@)
                ==> old(self).states()[provider_id@].consecutive_failures < u32::MAX,
        ensures
            final(self).wf(),
            final(self).threshold() == old(self).threshold() && final(self).timeout() == old(self).timeout(),
            final(self).order() == old(self).order(),
            !old(self).states().contains_key(provider_id@) ==> final(self).states() == old(self).states(),
            old(self).states().contains_key(provider_id@) ==> final(self).states() == old(self).states().insert(
                provider_id@,
                fail_model(old(self).states()[provider_id@], old(self).threshold(), now),
            ),
            old(self).states().contains_key(provider_id@) ==> ({
                let after = final(self).states()[provider_id@];
                let before = old(self).states()[provider_id@];
                &&& after.consecutive_failures == before.consecutive_failures + 1
                &&& after.active_requests == before.active_requests
                &&& after.rpm_capacity == before.rpm_capacity
                &&& before.circuit_open_since is None && before.consecutive_failures + 1 >= old(self).threshold()
                    ==> after.circuit_open_since == Some(now)
                &&& before.circuit_open_since is None && before.consecutive_failures + 1 < old(self).threshold()
                    ==> after.circuit_open_since is None
                &&& before.circuit_open_since is Some ==> after.circuit_open_since == before.circuit_open_since
            }),
    {
        self.update(provider_id, ProviderStateChange::Failure, now)
    }

    /// `on_failure_at` with the current time.
    pub fn on_failure(&mut self, provider_id: &str)
        requires
            old(self).wf(),
            old(self).states().contains_key(provider_id@)
                ==> old(self).states()[provider_id@].consecutive_failures < u32::MAX,
        ensures
            final(self).wf(),
            final(self).threshold() == old(self).threshold() && final(self).timeout() == old(self).timeout(),
            final(self).order() == old(self).order(),
            !old(self).states().contains_key(provider_id@) ==> final(self).states() == old(self).states(),
            old(self).states().contains_key(provider_id@) ==> final(self).states().contains_key(provider_id@)
                && final(self).states()[provider_id@].consecutive_failures
                == old(self).states()[provider_id@].consecutive_failures + 1,
    {
        self.on_failure_at(provider_id, now_nanos())
    }

    /// Closes the provider's circuit and clears its failure count.
    pub fn reset_circuit(&mut self, provider_id: &str)
        requires
            old(self).wf(),
        ensures
            final(self).wf(),
            final(self).threshold() == old(self).threshold() && final(self).timeout() == old(self).timeout(),
            final(self).order() == old(self).order(),
            !old(self).states().contains_key(provider_id@) ==> final(self).states() == old(self).states(),
            old(self).states().contains_key(provider_id@) ==> final(self).states() == old(self).states().insert(
                provider_id@,
                apply_change(old(self).states()[provider_id@], ProviderStateChange::Reset, old(self).threshold(), 0),
            ),
            old(self).states().contains_key(provider_id@) ==> ({
                let after = final(self).states()[provider_id@];
                let before = old(self).states()[provider_id@];
                &&& after.circuit_open_since is None
                &&& after.consecutive_failures == 0
                &&& after.active_requests == before.active_requests
                &&& after.rpm_capacity == before.rpm_capacity
                &&& forall|now: u64| is_available_spec(after, final(self).timeout(), now)
            }),
    {
        self.update(provider_id, ProviderStateChange::Reset, 0);
        proof {
            lemma_reset_closes(old(self).states()[provider_id@], old(self).threshold(), self.timeout());
        }
    }

    /// Requests in flight to the provider (zero if unknown).
    pub fn active_requests(&self, provider_id: &str) -> (r: u32)
        requires
            self.wf(),
        ensures
            r == (if self.states().contains_key(provider_id@) {
                self.states()[provider_id@].active_requests
            } else {
                0
            }),
    {
        match self.providers.get(provider_id) {
            Some(s) => s.active_requests,
            None => 0,
        }
    }

    /// The registered providers' ids, in registration order.
    pub fn provider_ids(&self) -> (r: Vec<String>)
        requires
            self.wf(),
        ensures
            r@.len() == self.order().len(),
            forall|i: int| 0 <= i < r@.len() ==> #[trigger] r@[i]@ == self.order()[i],
    {
        self.providers.keys()
    }
}

/// The kinds of per-provider bookkeeping.
#[derive(Debug, Clone, Copy, PartialEq, Eq, Structural)]
pub enum ProviderStateChange {
    Start,
    End,
    Success,
    Failure,
    Reset,
}

/// The effect of one bookkeeping step on a provider's state.
pub open spec fn apply_change(s: ProviderState, f: ProviderStateChange, threshold: u32, now: u64) -> ProviderState {
    match f {
        ProviderStateChange::Start => ProviderState {
            active_requests: (if s.active_requests == u32::MAX {
                0
            } else {
                s.active_requests + 1
            }) as u32,
            ..s
        },
        ProviderStateChange::End => ProviderState {
            active_requests: (if s.active_requests > 0 {
                s.active_requests - 1
            } else {
                0
            }) as u32,
            ..s
        },
        ProviderStateChange::Success => ProviderState {
            consecutive_failures: 0,
            circuit_open_since: None,
            ..s
        },
        ProviderStateChange::Failure => fail_model(s, threshold, now),
        ProviderStateChange::Reset => ProviderState {
            consecutive_failures: 0,
            circuit_open_since: None,
            ..s
        },
    }
}

fn fresh_provider_exec(rpm_capacity: u64) -> (r: ProviderState)
    ensures
        r == fresh_provider(rpm_capacity),
{
    ProviderState { active_requests: 0, rpm_capacity, consecutive_failures: 0, circuit_open_since: None }
}

/// Exact comparison of load ratios `active / max(capacity, 1)`.
pub fn load_lighter(a: &ProviderState, b: &ProviderState) -> (r: bool)
    ensures
        r == lighter(*a, *b),
{
    let ca: u128 = if a.rpm_capacity >= 1 {
        a.rpm_capacity as u128
    } else {
        1
    };
    let cb: u128 = if b.rpm_capacity >= 1 {
        b.rpm_capacity as u128
    } else {
        1
    };
    let x = a.active_requests as u128;
    let y = b.active_requests as u128;
    assert(x * cb <= u32::MAX * u64::MAX) by (nonlinear_arith)
        requires
            x <= u32::MAX,
            cb <= u64::MAX,
    ;
    assert(y * ca <= u32::MAX * u64::MAX) by (nonlinear_arith)
        requires
            y <= u32::MAX,
            ca <= u64::MAX,
    ;
    x * cb < y * ca
}

proof fn lemma_lighter_asym(a: ProviderState, b: ProviderState)
    ensures
        lighter(a, b) ==> !lighter(b, a),
{
}

proof fn lemma_lighter_trans_le(a: ProviderState, b: ProviderState, c: ProviderState)
    requires
        lighter(a, b),
        !lighter(c, b),
    ensures
        lighter(a, c),
{
    let (xa, xb, xc) = (a.active_requests as int, b.active_requests as int, c.active_requests as int);
    let (ca, cb, cc) = (cap_of(a), cap_of(b), cap_of(c));
    assert(xa * cc < xc * ca) by (nonlinear_arith)
        requires
            xa * cb < xb * ca,
            xb * cc <= xc * cb,
            ca > 0,
            cb > 0,
            cc > 0,
            xa >= 0,
            xb >= 0,
            xc >= 0,
    {
        assert(xa * cb * cc < xb * ca * cc);
        assert(xb * cc * ca <= xc * cb * ca);
    }
}

/// Failures that reach the threshold open the circuit at the time of the
/// last one, and the provider stays unselectable until the recovery timeout
/// has passed; after it, the provider can be probed again.
pub proof fn lemma_circuit_opens(s: ProviderState, threshold: u32, timeout: u64, now: u64, later: u64)
    requires
        s.circuit_open_since is None,
        s.consecutive_failures == 0,
        threshold >= 1,
        timeout >= 1,
        now <= later,
    ensures
        fail_times(s, threshold, now, threshold as nat).circuit_open_since == Some(now),
        later - now < timeout ==> !is_available_spec(fail_times(s, threshold, now, threshold as nat), timeout, later),
        later - now >= timeout ==> is_available_spec(fail_times(s, threshold, now, threshold as nat), timeout, later),
{
    lemma_fail_times(s, threshold, now, threshold as nat);
}

proof fn lemma_fail_times(s: ProviderState, threshold: u32, now: u64, n: nat)
    requires
        s.circuit_open_since is None,
        s.consecutive_failures == 0,
        n <= threshold,
        threshold >= 1,
    ensures
        fail_times(s, threshold, now, n).consecutive_failures == n,
        n < threshold ==> fail_times(s, threshold, now, n).circuit_open_since is None,
        n == threshold ==> fail_times(s, threshold, now, n).circuit_open_since == Some(now),
        fail_times(s, threshold, now, n).active_requests == s.active_requests,
        fail_times(s, threshold, now, n).rpm_capacity == s.rpm_capacity,
    decreases n,
{
    if n > 0 {
        lemma_fail_times(s, threshold, now, (n - 1) as nat);
    }
}

/// Fewer failures than the threshold leave the circuit closed, and one
/// success (or a reset) after any number of failures closes it again.
pub proof fn lemma_success_closes(s: ProviderState, threshold: u32, now: u64, n: nat)
    requires
        s.circuit_open_since is None,
        s.consecutive_failures == 0,
        n <= threshold,
        threshold >= 1,
    ensures
        n < threshold ==> is_available_spec(fail_times(s, threshold, now, n), 0, now),
        n < threshold ==> fail_times(s, threshold, now, n).circuit_open_since is None,
        apply_change(fail_times(s, threshold, now, n), ProviderStateChange::Success, threshold, now).circuit_open_since is None,
        apply_change(fail_times(s, threshold, now, n), ProviderStateChange::Success, threshold, now).consecutive_failures == 0,
{
    lemma_fail_times(s, threshold, now, n);
}

/// A request that starts and ends leaves the in-flight count unchanged.
pub proof fn lemma_start_end_roundtrip(s: ProviderState, threshold: u32, now: u64)
    requires
        s.active_requests < u32::MAX,
    ensures
        apply_change(apply_change(s, ProviderStateChange::Start, threshold, now), ProviderStateChange::End, threshold, now) == s,
{
}

/// A reset closes the circuit whatever state it was in: no failures are
/// counted, no opening time is left, the provider can be picked at any time
/// and under any recovery timeout, and its load and capacity stay.
pub proof fn lemma_reset_closes(s: ProviderState, threshold: u32, timeout: u64)
    ensures
        apply_change(s, ProviderStateChange::Reset, threshold, 0).circuit_open_since is None,
        apply_change(s, ProviderStateChange::Reset, threshold, 0).consecutive_failures == 0,
        apply_change(s, ProviderStateChange::Reset, threshold, 0).active_requests == s.active_requests,
        apply_change(s, ProviderStateChange::Reset, threshold, 0).rpm_capacity == s.rpm_capacity,
        forall|now: u64| is_available_spec(apply_change(s, ProviderStateChange::Reset, threshold, 0), timeout, now),
{
}

/// Opening the circuit with failures and then resetting it leaves the
/// provider selectable right away, before any recovery timeout.
pub proof fn lemma_reset_after_trip(s: ProviderState, threshold: u32, timeout: u64, t0: u64, now: u64)
    requires
        s.circuit_open_since is None,
        s.consecutive_failures == 0,
        threshold >= 1,
    ensures
        is_available_spec(apply_change(fail_times(s, threshold, t0, threshold as nat), ProviderStateChange::Reset, threshold, 0), timeout, now),
{
    lemma_reset_closes(fail_times(s, threshold, t0, threshold as nat), threshold, timeout);
}

/// Selection prefers the provider with the lower load relative to its
/// capacity: between equal capacities the one with fewer requests in flight,
/// between equal loads the one with the larger capacity; no provider is
/// lighter than itself, and of two providers at most one is lighter.
pub proof fn lemma_lighter_is_lower_load_ratio(a: ProviderState, b: ProviderState)
    ensures
        a.rpm_capacity == b.rpm_capacity ==> (lighter(a, b) <==> a.active_requests < b.active_requests),
        a.active_requests == b.active_requests && a.active_requests > 0 ==> (lighter(a, b) <==> cap_of(a) > cap_of(b)),
        a.active_requests == 0 && b.active_requests > 0 ==> lighter(a, b),
        !lighter(a, a),
        !(lighter(a, b) && lighter(b, a)),
{
    let x = a.active_requests as int;
    let y = b.active_requests as int;
    let ca = cap_of(a);
    let cb = cap_of(b);
    assert(ca >= 1 && cb >= 1);
    if a.rpm_capacity == b.rpm_capacity {
        assert(ca == cb);
        assert(x * cb < y * ca <==> x < y) by (nonlinear_arith)
            requires
                ca == cb,
                ca >= 1,
        ;
    }
    if x == y && x > 0 {
        assert(x * cb < y * ca <==> cb < ca) by (nonlinear_arith)
            requires
                x == y,
                x > 0,
        ;
    }
    if x == 0 && y > 0 {
        assert(y * ca > 0) by (nonlinear_arith)
            requires
                y > 0,
                ca >= 1,
        ;
    }
}

} // verus!
