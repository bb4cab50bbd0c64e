use vstd::prelude::*;

verus! {

/// The three states of a breaker.
#[derive(Debug, Clone, Copy, PartialEq, Eq, Structural)]
pub enum CircuitState {
    Closed,
    Open,
    HalfOpen,
}

impl CircuitState {
    /// The gauge value reported for the state.
    pub fn as_metric_value(&self) -> (r: i64)
        ensures
            r == (match *self {
                CircuitState::Closed => 0i64,
                CircuitState::Open => 1i64,
                CircuitState::HalfOpen => 2i64,
            }),
    {
        match self {
            CircuitState::Closed => 0,
            CircuitState::Open => 1,
            CircuitState::HalfOpen => 2,
        }
    }
}

/// Tuning of a breaker. Times are milliseconds on a monotonic clock.
#[derive(Debug, Clone, Copy)]
pub struct CircuitBreakerConfig {
    pub failure_threshold: u32,
    pub success_threshold: u32,
    pub timeout_ms: u64,
    pub half_open_max_requests: u32,
}

impl Default for CircuitBreakerConfig {
    fn default() -> (r: Self)
        ensures
            r.failure_threshold == 5,
            r.success_threshold == 2,
            r.timeout_ms == 60_000,
            r.half_open_max_requests == 3,
    {
        CircuitBreakerConfig {
            failure_threshold: 5,
            success_threshold: 2,
            timeout_ms: 60_000,
            half_open_max_requests: 3,
        }
    }
}

/// The mutable record of a breaker.
#[derive(Debug, Clone, Copy)]
pub struct CircuitStateData {
    pub state: CircuitState,
    pub failure_count: u32,
    pub success_count: u32,
    /// When the last failure was recorded, in milliseconds.
    pub last_failure_time: Option<u64>,
    pub half_open_attempts: u32,
}

/// `x + 1`, held at the largest `u32`.
pub open spec fn bump(x: u32) -> u32 {
    if x == u32::MAX {
        x
    } else {
        (x + 1) as u32
    }
}

/// Milliseconds from `since` to `now`, zero if the clock went back.
pub open spec fn elapsed(since: u64, now: u64) -> nat {
    if now >= since {
        (now - since) as nat
    } else {
        0
    }
}

/// `d` with its counters cleared.
pub open spec fn cleared(d: CircuitStateData) -> CircuitStateData {
    CircuitStateData { failure_count: 0, success_count: 0, half_open_attempts: 0, ..d }
}

/// Whether an open breaker has waited out its timeout.
pub open spec fn timed_out(d: CircuitStateData, timeout: u64, now: u64) -> bool {
    d.state == CircuitState::Open && match d.last_failure_time {
        Some(t) => elapsed(t, now) >= timeout,
        None => false,
    }
}

/// The record after a state inspection at `now`: an open breaker whose timeout has passed
/// becomes half-open with cleared counters.
pub open spec fn refreshed(d: CircuitStateData, timeout: u64, now: u64) -> CircuitStateData {
    if timed_out(d, timeout, now) {
        CircuitStateData { state: CircuitState::HalfOpen, ..cleared(d) }
    } else {
        d
    }
}

/// The admission check at `now`: whether the call may run, and the record afterwards.
pub open spec fn admitted(cfg: CircuitBreakerConfig, d: CircuitStateData, now: u64) -> (bool, CircuitStateData) {
    let e = refreshed(d, cfg.timeout_ms, now);
    match e.state {
        CircuitState::Open => (false, e),
        CircuitState::HalfOpen => if e.half_open_attempts >= cfg.half_open_max_requests {
            (false, e)
        } else {
            (true, CircuitStateData { half_open_attempts: (e.half_open_attempts + 1) as u32, ..e })
        },
        CircuitState::Closed => (true, e),
    }
}

/// The record after a successful call.
pub open spec fn after_success(cfg: CircuitBreakerConfig, d: CircuitStateData) -> CircuitStateData {
    match d.state {
        CircuitState::Closed => CircuitStateData { failure_count: 0, ..d },
        CircuitState::HalfOpen => if bump(d.success_count) >= cfg.success_threshold {
            CircuitStateData { state: CircuitState::Closed, ..cleared(d) }
        } else {
            CircuitStateData { success_count: bump(d.success_count), ..d }
        },
        CircuitState::Open => cleared(d),
    }
}

/// The record after a failed call at `now`.
pub open spec fn after_failure(cfg: CircuitBreakerConfig, d: CircuitStateData, now: u64) -> CircuitStateData {
    let e = CircuitStateData { failure_count: bump(d.failure_count), last_failure_time: Some(now), ..d };
    match d.state {
        CircuitState::Closed => if e.failure_count >= cfg.failure_threshold {
            CircuitStateData { state: CircuitState::Open, ..e }
        } else {
            e
        },
        CircuitState::HalfOpen => CircuitStateData { state: CircuitState::Open, ..cleared(e) },
        CircuitState::Open => e,
    }
}

/// A closed breaker with no history.
pub open spec fn fresh_record() -> CircuitStateData {
    CircuitStateData {
        state: CircuitState::Closed,
        failure_count: 0,
        success_count: 0,
        last_failure_time: None,
        half_open_attempts: 0,
    }
}

impl CircuitStateData {
    pub fn new() -> (r: Self)
        ensures
            r == fresh_record(),
    {
        CircuitStateData {
            state: CircuitState::Closed,
            failure_count: 0,
            success_count: 0,
            last_failure_time: None,
            half_open_attempts: 0,
        }
    }

    /// Clear the counters, keeping the state and the failure time.
    pub fn reset(&mut self)
        ensures
            *final(self) == cleared(*old(self)),
    {
        self.failure_count = 0;
        self.success_count = 0;
        self.half_open_attempts = 0;
    }

    /// Whether the breaker is open and `timeout` has passed since the last failure.
    pub fn should_attempt_reset(&self, timeout: u64, now: u64) -> (r: bool)
        ensures
            r == timed_out(*self, timeout, now),
    {
        if self.state != CircuitState::Open {
            return false;
        }
        match self.last_failure_time {
            Some(last) => {
                let waited = if now >= last {
                    now - last
                } else {
                    0
                };
                waited >= timeout
            },
            None => false,
        }
    }
}

impl Default for CircuitStateData {
    fn default() -> (r: Self)
        ensures
            r == fresh_record(),
    {
        CircuitStateData::new()
    }
}

/// Outcome of a guarded call.
#[derive(Debug)]
pub enum CircuitBreakerError<E> {
    /// The breaker refused the call.
    Open,
    /// The call ran and failed.
    Inner(E),
}

/// A snapshot of a breaker for reporting.
#[derive(Debug)]
pub struct CircuitBreakerMetrics {
    pub name: String,
    pub state: CircuitState,
    pub failure_count: u32,
    pub success_count: u32,
}

/// A breaker: its configuration and its record. Callers serialise access to it.
pub struct CircuitBreaker {
    name: String,
    config: CircuitBreakerConfig,
    data: CircuitStateData,
}

impl CircuitBreaker {
    pub closed spec fn cfg(&self) -> CircuitBreakerConfig {
        self.config
    }

    pub closed spec fn record(&self) -> CircuitStateData {
        self.data
    }

    pub closed spec fn spec_name(&self) -> Seq<char> {
        self.name@
    }

    pub fn new(name: String, config: CircuitBreakerConfig) -> (r: Self)
        ensures
            r.cfg() == config,
            r.record() == fresh_record(),
            r.spec_name() == name@,
    {
        CircuitBreaker { name, config, data: CircuitStateData::new() }
    }

    /// The state at `now`, moving an open breaker whose timeout has passed to half-open.
    pub fn state(&mut self, now: u64) -> (r: CircuitState)
        ensures
            final(self).cfg() == old(self).cfg(),
            final(self).spec_name() == old(self).spec_name(),
            final(self).record() == refreshed(old(self).record(), old(self).cfg().timeout_ms, now),
            r == final(self).record().state,
    {
        if self.data.should_attempt_reset(self.config.timeout_ms, now) {
            self.data.state = CircuitState::HalfOpen;
            self.data.reset();
        }
        self.data.state
    }

    /// The admission check in front of a call at `now`: `Ok` where the call may run, else
    /// `Err(CircuitBreakerError::Open)`. A half-open breaker counts the probes it lets through.
    pub fn permit<E>(&mut self, now: u64) -> (r: Result<(), CircuitBreakerError<E>>)
        ensures
            final(self).cfg() == old(self).cfg(),
            final(self).spec_name() == old(self).spec_name(),
            final(self).record() == admitted(old(self).cfg(), old(self).record(), now).1,
            r is Ok <==> admitted(old(self).cfg(), old(self).record(), now).0,
            r matches Err(e) ==> e is Open,
    {
        let current = self.state(now);
        match current {
            CircuitState::Open => Err(CircuitBreakerError::Open),
            CircuitState::HalfOpen => {
                if self.data.half_open_attempts >= self.config.half_open_max_requests {
                    return Err(CircuitBreakerError::Open);
                }
                self.data.half_open_attempts = self.data.half_open_attempts + 1;
                Ok(())
            },
            CircuitState::Closed => Ok(()),
        }
    }

    /// Record the outcome of a call that was let through, at `now`.
    pub fn execute<T, E>(&mut self, outcome: Result<T, E>, now: u64) -> (r: Result<T, CircuitBreakerError<E>>)
        ensures
            final(self).cfg() == old(self).cfg(),
            final(self).spec_name() == old(self).spec_name(),
            match outcome {
                Ok(v) => r == Ok::<T, CircuitBreakerError<E>>(v) && final(self).record() == after_success(
                    old(self).cfg(),
                    old(self).record(),
                ),
                Err(e) => r == Err::<T, CircuitBreakerError<E>>(CircuitBreakerError::Inner(e))
                    && final(self).record() == after_failure(old(self).cfg(), old(self).record(), now),
            },
    {
        match outcome {
            Ok(v) => {
                self.on_success();
                Ok(v)
            },
            Err(e) => {
                self.on_failure(now);
                Err(CircuitBreakerError::Inner(e))
            },
        }
    }

    fn on_success(&mut self)
        ensures
            final(self).cfg() == old(self).cfg(),
            final(self).spec_name() == old(self).spec_name(),
            final(self).record() == after_success(old(self).cfg(), old(self).record()),
    {
        match self.data.state {
            CircuitState::Closed => {
                self.data.failure_count = 0;
            },
            CircuitState::HalfOpen => {
                self.data.success_count = self.data.success_count.saturating_add(1);
                if self.data.success_count >= self.config.success_threshold {
                    self.data.state = CircuitState::Closed;
                    self.data.reset();
                }
            },
            CircuitState::Open => {
                self.data.reset();
            },
        }
    }

    fn on_failure(&mut self, now: u64)
        ensures
            final(self).cfg() == old(self).cfg(),
            final(self).spec_name() == old(self).spec_name(),
            final(self).record() == after_failure(old(self).cfg(), old(self).record(), now),
    {
        self.data.failure_count = self.data.failure_count.saturating_add(1);
        self.data.last_failure_time = Some(now);
        match self.data.state {
            CircuitState::Closed => {
                if self.data.failure_count >= self.config.failure_threshold {
                    self.data.state = CircuitState::Open;
                }
            },
            CircuitState::HalfOpen => {
                self.data.state = CircuitState::Open;
                self.data.reset();
            },
            CircuitState::Open => {},
        }
    }

    /// A snapshot of the record.
    pub fn metrics(&self) -> (r: CircuitBreakerMetrics)
        ensures
            r.name@ == self.spec_name(),
            r.state == self.record().state,
            r.failure_count == self.record().failure_count,
            r.success_count == self.record().success_count,
    {
        CircuitBreakerMetrics {
            name: self.name.clone(),
            state: self.data.state,
            failure_count: self.data.failure_count,
            success_count: self.data.success_count,
        }
    }
}

/// The record after one probe at `now`: it is let through and it succeeds.
pub open spec fn probe_success(cfg: CircuitBreakerConfig, d: CircuitStateData, now: u64) -> CircuitStateData {
    after_success(cfg, admitted(cfg, d, now).1)
}

/// The record after `n` successful probes at `now`.
pub open spec fn probe_successes(cfg: CircuitBreakerConfig, d: CircuitStateData, now: u64, n: nat) -> CircuitStateData
    decreases n,
{
    if n == 0 {
        d
    } else {
        probe_success(cfg, probe_successes(cfg, d, now, (n - 1) as nat), now)
    }
}

proof fn lemma_probe_successes(cfg: CircuitBreakerConfig, e: CircuitStateData, now: u64, k: nat)
    requires
        e.state == CircuitState::HalfOpen,
        e.success_count == 0,
        e.half_open_attempts == 0,
        k < cfg.success_threshold <= cfg.half_open_max_requests,
    ensures
        probe_successes(cfg, e, now, k).state == CircuitState::HalfOpen,
        probe_successes(cfg, e, now, k).success_count == k,
        probe_successes(cfg, e, now, k).half_open_attempts == k,
    decreases k,
{
    if k > 0 {
        lemma_probe_successes(cfg, e, now, (k - 1) as nat);
    }
}

/// Once the timeout has passed since an open breaker's last failure, a probe is let through
/// and the breaker is half-open; `success_threshold` successful probes close it, while a
/// failed probe opens it again.
pub proof fn law_recovers_after_timeout(cfg: CircuitBreakerConfig, d: CircuitStateData, opened: u64, later: u64)
    requires
        d.state == CircuitState::Open,
        d.last_failure_time == Some(opened),
        elapsed(opened, later) >= cfg.timeout_ms,
        1 <= cfg.success_threshold <= cfg.half_open_max_requests,
    ensures
        admitted(cfg, d, later).0,
        admitted(cfg, d, later).1.state == CircuitState::HalfOpen,
        probe_successes(cfg, refreshed(d, cfg.timeout_ms, later), later, cfg.success_threshold as nat).state
            == CircuitState::Closed,
        forall|now: u64| #[trigger]
            after_failure(cfg, refreshed(d, cfg.timeout_ms, later), now).state == CircuitState::Open,
{
    let e = refreshed(d, cfg.timeout_ms, later);
    lemma_probe_successes(cfg, e, later, (cfg.success_threshold - 1) as nat);
}

/// An open breaker knows when it last failed.
pub open spec fn stamped(d: CircuitStateData) -> bool {
    d.state == CircuitState::Open ==> d.last_failure_time is Some
}

/// Every transition keeps an open breaker's failure time, starting from a fresh record: so
/// the timeout of an open breaker always counts from a recorded failure.
pub proof fn law_open_is_stamped(cfg: CircuitBreakerConfig, d: CircuitStateData, now: u64)
    requires
        stamped(d),
    ensures
        stamped(fresh_record()),
        stamped(refreshed(d, cfg.timeout_ms, now)),
        stamped(admitted(cfg, d, now).1),
        stamped(after_success(cfg, d)),
        stamped(after_failure(cfg, d, now)),
{
}

/// The record after failed calls at the times `ts`, in order.
pub open spec fn failures_at(cfg: CircuitBreakerConfig, d: CircuitStateData, ts: Seq<u64>) -> CircuitStateData
    decreases ts.len(),
{
    if ts.len() == 0 {
        d
    } else {
        after_failure(cfg, failures_at(cfg, d, ts.drop_last()), ts.last())
    }
}

proof fn lemma_failures_at_count(cfg: CircuitBreakerConfig, d: CircuitStateData, ts: Seq<u64>)
    requires
        d.state == CircuitState::Closed,
        d.failure_count == 0,
        ts.len() < cfg.failure_threshold,
    ensures
        failures_at(cfg, d, ts).state == CircuitState::Closed,
        failures_at(cfg, d, ts).failure_count == ts.len(),
    decreases ts.len(),
{
    if ts.len() > 0 {
        lemma_failures_at_count(cfg, d, ts.drop_last());
    }
}

/// From a closed breaker with no failures, `failure_threshold` consecutive failures at any
/// times open it, stamped with the last of them, and a call before the timeout has passed
/// since that failure is refused.
pub proof fn law_opens_after_failures_at(cfg: CircuitBreakerConfig, d: CircuitStateData, ts: Seq<u64>, later: u64)
    requires
        cfg.failure_threshold >= 1,
        d.state == CircuitState::Closed,
        d.failure_count == 0,
        ts.len() == cfg.failure_threshold,
        elapsed(ts.last(), later) < cfg.timeout_ms,
    ensures
        failures_at(cfg, d, ts).state == CircuitState::Open,
        failures_at(cfg, d, ts).last_failure_time == Some(ts.last()),
        !admitted(cfg, failures_at(cfg, d, ts), later).0,
        admitted(cfg, failures_at(cfg, d, ts), later).1.state == CircuitState::Open,
{
    lemma_failures_at_count(cfg, d, ts.drop_last());
}

} // verus!
