//! Per-provider circuit breaker.
//!
//! Prevents cascading failures by temporarily stopping requests to
//! unhealthy providers. Three states: Closed → Open → HalfOpen → Closed.
//!
//! Times are nanosecond readings of a monotonic clock taken from the
//! registry's creation. Every transition is a function of the breaker, its
//! configuration and the reading `now`, and is also exposed with `now` as an
//! explicit argument (`*_at`).

use vstd::prelude::*;
use std::time::{Duration, Instant};

use crate::clock::{clamp_nanos, duration_nanos, elapsed_since, instant_now, nanos_u64};
use crate::text::str_eq;

verus! {

/// Nanoseconds in one second.
pub const NANOS_PER_SEC: u64 = 1_000_000_000;

/// Circuit breaker state.
#[derive(Debug, Clone, Copy, PartialEq, Eq, Structural)]
pub enum CircuitState {
    /// Normal operation — requests flow through.
    Closed,
    /// Provider is deemed unhealthy — all requests fail fast.
    Open,
    /// Probe mode — one request is allowed through to test recovery.
    HalfOpen,
}

impl CircuitState {
    /// The state's name as displayed: `closed`, `open` or `half_open`.
    pub fn as_str(&self) -> (r: &'static str)
        ensures
            r@ == state_name(*self),
    {
        match self {
            CircuitState::Closed => "closed",
            CircuitState::Open => "open",
            CircuitState::HalfOpen => "half_open",
        }
    }
}

/// The displayed name of a state.
pub open spec fn state_name(s: CircuitState) -> Seq<char> {
    match s {
        CircuitState::Closed => "closed"@,
        CircuitState::Open => "open"@,
        CircuitState::HalfOpen => "half_open"@,
    }
}

/// Configuration for the circuit breaker.
#[derive(Debug, Clone, Copy, PartialEq, Eq, Structural)]
pub struct CircuitBreakerConfig {
    /// Number of consecutive failures before opening the circuit.
    pub failure_threshold: u32,
    /// Seconds to wait in Open before transitioning to HalfOpen.
    pub cool_down_secs: u64,
}

impl Default for CircuitBreakerConfig {
    fn default() -> (r: Self)
        ensures
            r.failure_threshold == 3,
            r.cool_down_secs == 30,
    {
        CircuitBreakerConfig { failure_threshold: 3, cool_down_secs: 30 }
    }
}

/// `secs` seconds in nanoseconds, saturating at `u64::MAX`.
pub open spec fn secs_to_nanos(secs: u64) -> u64 {
    if secs * NANOS_PER_SEC > u64::MAX {
        u64::MAX
    } else {
        (secs * NANOS_PER_SEC) as u64
    }
}

fn secs_nanos(secs: u64) -> (r: u64)
    ensures
        r == secs_to_nanos(secs),
{
    match secs.checked_mul(NANOS_PER_SEC) {
        Some(n) => n,
        None => u64::MAX,
    }
}

/// Time elapsed from `since` to `now` (zero if `now` is earlier).
pub open spec fn elapsed(since: u64, now: u64) -> u64 {
    if now >= since {
        (now - since) as u64
    } else {
        0
    }
}

/// How long a half-open probe may stay silent before a fresh one is admitted:
/// the cool-down, floored at one second.
pub open spec fn probe_timeout_nanos(cfg: CircuitBreakerConfig) -> u64 {
    if cfg.cool_down_secs >= 1 {
        secs_to_nanos(cfg.cool_down_secs)
    } else {
        secs_to_nanos(1)
    }
}

/// The state of one provider's breaker.
#[derive(Clone, Copy)]
pub struct ProviderBreaker {
    /// Current state.
    pub state: CircuitState,
    /// Consecutive failures counted (saturating).
    pub failure_count: u32,
    /// When the last failure was recorded.
    pub last_failure: Option<u64>,
    /// Whether a half-open probe has been admitted and awaits its outcome.
    pub probe_in_flight: bool,
    /// When the in-flight half-open probe was admitted.
    pub probe_started: Option<u64>,
    /// The breaker's configuration.
    pub config: CircuitBreakerConfig,
}

/// A fresh, closed breaker.
pub open spec fn fresh_breaker(config: CircuitBreakerConfig) -> ProviderBreaker {
    ProviderBreaker {
        state: CircuitState::Closed,
        failure_count: 0,
        last_failure: None,
        probe_in_flight: false,
        probe_started: None,
        config,
    }
}

/// Whether a request is admitted at `now`, and the breaker afterwards.
///
/// Closed admits. Open admits (moving to HalfOpen with a probe in flight)
/// once the cool-down since the last failure has elapsed. HalfOpen admits one
/// probe at a time; an in-flight probe silent past its timeout is replaced.
pub open spec fn allow_spec(b: ProviderBreaker, now: u64) -> (ProviderBreaker, bool) {
    match b.state {
        CircuitState::Closed => (b, true),
        CircuitState::Open => match b.last_failure {
            Some(last) => if elapsed(last, now) >= secs_to_nanos(b.config.cool_down_secs) {
                (
                    ProviderBreaker {
                        state: CircuitState::HalfOpen,
                        probe_in_flight: true,
                        probe_started: Some(now),
                        ..b
                    },
                    true,
                )
            } else {
                (b, false)
            },
            None => (b, false),
        },
        CircuitState::HalfOpen => if b.probe_in_flight {
            let stale = match b.probe_started {
                Some(t) => elapsed(t, now) >= probe_timeout_nanos(b.config),
                None => true,
            };
            if stale {
                (ProviderBreaker { probe_started: Some(now), ..b }, true)
            } else {
                (b, false)
            }
        } else {
            (ProviderBreaker { probe_in_flight: true, probe_started: Some(now), ..b }, true)
        },
    }
}

/// The breaker after a recorded success.
pub open spec fn success_spec(b: ProviderBreaker) -> ProviderBreaker {
    match b.state {
        CircuitState::HalfOpen => ProviderBreaker {
            state: CircuitState::Closed,
            failure_count: 0,
            probe_in_flight: false,
            probe_started: None,
            ..b
        },
        CircuitState::Closed => ProviderBreaker { failure_count: 0, ..b },
        CircuitState::Open => b,
    }
}

/// The breaker after a recorded failure at `now`.
pub open spec fn failure_spec(b: ProviderBreaker, now: u64) -> ProviderBreaker {
    let count: u32 = if b.failure_count == u32::MAX {
        u32::MAX
    } else {
        (b.failure_count + 1) as u32
    };
    let counted = ProviderBreaker { failure_count: count, last_failure: Some(now), ..b };
    match b.state {
        CircuitState::Closed => if count >= b.config.failure_threshold {
            ProviderBreaker { state: CircuitState::Open, ..counted }
        } else {
            counted
        },
        CircuitState::HalfOpen => ProviderBreaker {
            state: CircuitState::Open,
            probe_in_flight: false,
            probe_started: None,
            ..counted
        },
        CircuitState::Open => counted,
    }
}

impl ProviderBreaker {
    /// A new breaker in the Closed state.
    pub fn new(config: CircuitBreakerConfig) -> (r: Self)
        ensures
            r == fresh_breaker(config),
    {
        ProviderBreaker {
            state: CircuitState::Closed,
            failure_count: 0,
            last_failure: None,
            probe_in_flight: false,
            probe_started: None,
            config,
        }
    }

    /// How long to wait for a half-open probe to report an outcome before
    /// assuming it was dropped and admitting a fresh one, in nanoseconds.
    /// Floored at one second so a zero cool-down still admits exactly one
    /// probe at a time.
    pub fn probe_timeout(&self) -> (r: u64)
        ensures
            r == probe_timeout_nanos(self.config),
    {
        if self.config.cool_down_secs >= 1 {
            secs_nanos(self.config.cool_down_secs)
        } else {
            secs_nanos(1)
        }
    }

    /// Check if a request is allowed through at `now`.
    pub fn allow_request(&mut self, now: u64) -> (r: bool)
        ensures
            (*final(self), r) == allow_spec(*old(self), now),
    {
        match self.state {
            CircuitState::Closed => true,
            CircuitState::Open => {
                if let Some(last) = self.last_failure {
                    let gone = if now >= last {
                        now - last
                    } else {
                        0
                    };
                    if gone >= secs_nanos(self.config.cool_down_secs) {
                        self.state = CircuitState::HalfOpen;
                        self.probe_in_flight = true;
                        self.probe_started = Some(now);
                        return true;
                    }
                }
                false
            },
            CircuitState::HalfOpen => {
                if self.probe_in_flight {
                    let stale = match self.probe_started {
                        Some(t) => {
                            let gone = if now >= t {
                                now - t
                            } else {
                                0
                            };
                            gone >= self.probe_timeout()
                        },
                        None => true,
                    };
                    if stale {
                        self.probe_started = Some(now);
                        return true;
                    }
                    return false;
                }
                self.probe_in_flight = true;
                self.probe_started = Some(now);
                true
            },
        }
    }

    /// Record a successful request.
    pub fn record_success(&mut self)
        ensures
            *final(self) == success_spec(*old(self)),
    {
        match self.state {
            CircuitState::HalfOpen => {
                self.state = CircuitState::Closed;
                self.failure_count = 0;
                self.probe_in_flight = false;
                self.probe_started = None;
            },
            CircuitState::Closed => {
                self.failure_count = 0;
            },
            // A late success from a request dispatched before the circuit opened
            // must not reopen the gates; the cool-down governs recovery.
            CircuitState::Open => {},
        }
    }

    /// Record a failed request at `now`.
    pub fn record_failure(&mut self, now: u64)
        ensures
            *final(self) == failure_spec(*old(self), now),
    {
        self.failure_count = self.failure_count.saturating_add(1);
        self.last_failure = Some(now);
        match self.state {
            CircuitState::Closed => {
                if self.failure_count >= self.config.failure_threshold {
                    self.state = CircuitState::Open;
                }
            },
            CircuitState::HalfOpen => {
                self.state = CircuitState::Open;
                self.probe_in_flight = false;
                self.probe_started = None;
            },
            CircuitState::Open => {},
        }
    }
}

/// One registry row as contracts speak of it: provider name and breaker.
pub type BreakerRow = (Seq<char>, ProviderBreaker);

/// Index of the breaker for `name`, or `-1` when there is none.
pub open spec fn breaker_position(rows: Seq<BreakerRow>, name: Seq<char>) -> int
    decreases rows.len(),
{
    if rows.len() == 0 {
        -1
    } else if rows.last().0 == name {
        rows.len() - 1
    } else {
        breaker_position(rows.drop_last(), name)
    }
}

/// The breaker of `name` in `rows`, if any.
pub open spec fn breaker_of(rows: Seq<BreakerRow>, name: Seq<char>) -> Option<ProviderBreaker> {
    let p = breaker_position(rows, name);
    if p >= 0 {
        Some(rows[p].1)
    } else {
        None
    }
}

/// `rows` with the breaker of `name` set to `b` (appended when absent).
pub open spec fn with_breaker(rows: Seq<BreakerRow>, name: Seq<char>, b: ProviderBreaker) -> Seq<
    BreakerRow,
> {
    let p = breaker_position(rows, name);
    if p >= 0 {
        rows.update(p, (name, b))
    } else {
        rows.push((name, b))
    }
}

/// The breaker `name` has, or would be given on first use.
pub open spec fn current_breaker(
    rows: Seq<BreakerRow>,
    name: Seq<char>,
    config: CircuitBreakerConfig,
) -> ProviderBreaker {
    match breaker_of(rows, name) {
        Some(b) => b,
        None => fresh_breaker(config),
    }
}

/// The state reported for `name` (Closed for a provider never seen).
pub open spec fn reported_state(rows: Seq<BreakerRow>, name: Seq<char>) -> CircuitState {
    match breaker_of(rows, name) {
        Some(b) => b.state,
        None => CircuitState::Closed,
    }
}

/// Asking `rows` (with `config` for new breakers) whether `name` may send a
/// request at `now` answers `ok` and leaves the rows `after`.
pub open spec fn admitted_at(
    rows: Seq<BreakerRow>,
    config: CircuitBreakerConfig,
    name: Seq<char>,
    now: u64,
    ok: bool,
    after: Seq<BreakerRow>,
) -> bool {
    let (b, admitted) = allow_spec(current_breaker(rows, name, config), now);
    &&& ok == admitted
    &&& after == with_breaker(rows, name, b)
}

proof fn lemma_breaker_position(rows: Seq<BreakerRow>, name: Seq<char>)
    ensures
        -1 <= breaker_position(rows, name) < rows.len(),
        breaker_position(rows, name) >= 0 ==> rows[breaker_position(rows, name)].0 == name,
        breaker_position(rows, name) < 0 ==> forall|i: int| 0 <= i < rows.len() ==> rows[i].0 != name,
    decreases rows.len(),
{
    if rows.len() > 0 {
        lemma_breaker_position(rows.drop_last(), name);
        assert forall|i: int| 0 <= i < rows.len() - 1 implies rows[i] == rows.drop_last()[i] by {}
    }
}

proof fn lemma_breaker_position_unique(rows: Seq<BreakerRow>, name: Seq<char>, i: int)
    requires
        forall|a: int, b: int| 0 <= a < b < rows.len() ==> rows[a].0 != rows[b].0,
        0 <= i < rows.len(),
        rows[i].0 == name,
    ensures
        breaker_position(rows, name) == i,
    decreases rows.len(),
{
    if i < rows.len() - 1 {
        lemma_breaker_position_unique(rows.drop_last(), name, i);
    }
}

/// The breaker after `n` consecutive failures recorded at `now`.
pub open spec fn after_failures(b: ProviderBreaker, n: nat, now: u64) -> ProviderBreaker
    decreases n,
{
    if n == 0 {
        b
    } else {
        failure_spec(after_failures(b, (n - 1) as nat, now), now)
    }
}

/// Law: a closed circuit admits every request and is left unchanged.
pub proof fn law_closed_admits(b: ProviderBreaker, now: u64)
    requires
        b.state == CircuitState::Closed,
    ensures
        allow_spec(b, now) == (b, true),
{
}

/// Law: starting closed with no failures counted, the circuit stays closed
/// for fewer than `failure_threshold` consecutive failures and is open after
/// exactly `failure_threshold` of them (for a positive threshold).
pub proof fn law_opens_at_threshold(config: CircuitBreakerConfig, n: nat, now: u64)
    requires
        config.failure_threshold >= 1,
        n <= config.failure_threshold,
    ensures
        after_failures(fresh_breaker(config), n, now).failure_count == n,
        after_failures(fresh_breaker(config), n, now).config == config,
        n < config.failure_threshold ==> after_failures(fresh_breaker(config), n, now).state
            == CircuitState::Closed,
        n == config.failure_threshold ==> after_failures(fresh_breaker(config), n, now).state
            == CircuitState::Open,
    decreases n,
{
    if n > 0 {
        law_opens_at_threshold(config, (n - 1) as nat, now);
    }
}

/// Law: an open circuit fails fast, unchanged, until the cool-down since the
/// last failure has elapsed.
pub proof fn law_open_rejects_during_cool_down(b: ProviderBreaker, now: u64)
    requires
        b.state == CircuitState::Open,
        b.last_failure matches Some(last) && elapsed(last, now) < secs_to_nanos(
            b.config.cool_down_secs,
        ),
    ensures
        allow_spec(b, now) == (b, false),
{
}

/// Law: once the cool-down has elapsed an open circuit admits exactly one
/// probe: the first request is admitted and moves the circuit to HalfOpen,
/// and every further request before the probe's timeout is rejected.
pub proof fn law_half_open_admits_one_probe(b: ProviderBreaker, now: u64, later: u64)
    requires
        b.state == CircuitState::Open,
        b.last_failure matches Some(last) && elapsed(last, now) >= secs_to_nanos(
            b.config.cool_down_secs,
        ),
        elapsed(now, later) < probe_timeout_nanos(b.config),
    ensures
        allow_spec(b, now).1,
        allow_spec(b, now).0.state == CircuitState::HalfOpen,
        allow_spec(allow_spec(b, now).0, later) == (allow_spec(b, now).0, false),
{
}

/// Law: a probe that never reports back does not wedge the circuit: once the
/// probe timeout has passed a fresh probe is admitted.
pub proof fn law_stuck_probe_self_heals(b: ProviderBreaker, now: u64)
    requires
        b.state == CircuitState::HalfOpen,
        b.probe_in_flight,
        b.probe_started matches Some(t) && elapsed(t, now) >= probe_timeout_nanos(b.config),
    ensures
        allow_spec(b, now).1,
        allow_spec(b, now).0.state == CircuitState::HalfOpen,
{
}

/// Law: the outcome of a half-open probe decides the circuit: success closes
/// it (counting from zero, admitting traffic again), failure reopens it and
/// releases the probe slot.
pub proof fn law_probe_outcome(b: ProviderBreaker, now: u64, later: u64)
    requires
        b.state == CircuitState::HalfOpen,
    ensures
        success_spec(b).state == CircuitState::Closed,
        success_spec(b).failure_count == 0,
        allow_spec(success_spec(b), later).1,
        failure_spec(b, now).state == CircuitState::Open,
        !failure_spec(b, now).probe_in_flight,
        failure_spec(b, now).last_failure == Some(now),
{
}

/// Law: a late success recorded while the circuit is open changes nothing;
/// only the cool-down governs recovery.
pub proof fn law_late_success_keeps_open(b: ProviderBreaker)
    requires
        b.state == CircuitState::Open,
    ensures
        success_spec(b) == b,
{
}

/// Law: a success while closed resets the consecutive-failure count.
pub proof fn law_success_resets_count(b: ProviderBreaker)
    requires
        b.state == CircuitState::Closed,
    ensures
        success_spec(b).failure_count == 0,
        success_spec(b).state == CircuitState::Closed,
{
}

/// The breaker after one failure recorded at each of `times`, in order.
pub open spec fn after_failures_at(b: ProviderBreaker, times: Seq<u64>) -> ProviderBreaker
    decreases times.len(),
{
    if times.len() == 0 {
        b
    } else {
        failure_spec(after_failures_at(b, times.drop_last()), times.last())
    }
}

proof fn lemma_failures_from_closed(b: ProviderBreaker, times: Seq<u64>)
    requires
        b.state == CircuitState::Closed,
        b.failure_count + times.len() <= b.config.failure_threshold,
    ensures
        after_failures_at(b, times).failure_count == b.failure_count + times.len(),
        after_failures_at(b, times).config == b.config,
        b.failure_count + times.len() < b.config.failure_threshold ==> after_failures_at(b, times).state
            == CircuitState::Closed,
        times.len() > 0 && b.failure_count + times.len() == b.config.failure_threshold ==> after_failures_at(
            b,
            times,
        ).state == CircuitState::Open,
    decreases times.len(),
{
    if times.len() > 0 {
        lemma_failures_from_closed(b, times.drop_last());
    }
}

/// Law: only consecutive failures open the circuit, whatever the clock reads
/// at each failure. After a success on a closed circuit, fewer than
/// `failure_threshold` further failures leave it closed, however many
/// failures came before the success; exactly `failure_threshold` of them
/// open it.
pub proof fn law_only_consecutive_failures_open(b: ProviderBreaker, times: Seq<u64>)
    requires
        b.state == CircuitState::Closed,
        times.len() <= b.config.failure_threshold,
    ensures
        after_failures_at(success_spec(b), times).failure_count == times.len(),
        times.len() < b.config.failure_threshold ==> after_failures_at(success_spec(b), times).state
            == CircuitState::Closed,
        times.len() > 0 && times.len() == b.config.failure_threshold ==> after_failures_at(
            success_spec(b),
            times,
        ).state == CircuitState::Open,
{
    lemma_failures_from_closed(success_spec(b), times);
}

struct BreakerEntry {
    provider: String,
    breaker: ProviderBreaker,
}

/// Manages circuit breakers for all providers.
pub struct CircuitBreakerRegistry {
    breakers: Vec<BreakerEntry>,
    config: CircuitBreakerConfig,
    /// Reference point of the time readings.
    origin: Instant,
}

impl CircuitBreakerRegistry {
    /// The providers' breakers, one row per provider name.
    pub closed spec fn rows(&self) -> Seq<BreakerRow> {
        self.breakers@.map_values(|e: BreakerEntry| (e.provider@, e.breaker))
    }

    /// The configuration given to new breakers.
    pub closed spec fn config(&self) -> CircuitBreakerConfig {
        self.config
    }

    /// One row per provider name.
    pub closed spec fn wf(&self) -> bool {
        forall|a: int, b: int| 0 <= a < b < self.rows().len() ==> self.rows()[a].0 != self.rows()[b].0
    }

    /// Create a new registry with the given configuration.
    pub fn new(config: CircuitBreakerConfig) -> (r: Self)
        ensures
            r.wf(),
            r.rows().len() == 0,
            r.config() == config,
    {
        let r = CircuitBreakerRegistry { breakers: Vec::new(), config, origin: instant_now() };
        assert(r.rows().len() == 0);
        r
    }

    /// Index of the breaker for `provider`, if any.
    fn find(&self, provider: &str) -> (r: Option<usize>)
        requires
            self.wf(),
        ensures
            r matches Some(p) ==> p == breaker_position(self.rows(), provider@) && p
                < self.breakers@.len(),
            r is None ==> breaker_position(self.rows(), provider@) < 0,
    {
        proof {
            lemma_breaker_position(self.rows(), provider@);
        }
        let mut i: usize = 0;
        while i < self.breakers.len()
            invariant
                self.wf(),
                i <= self.breakers@.len(),
                self.rows().len() == self.breakers@.len(),
                forall|k: int| 0 <= k < i ==> self.rows()[k].0 != provider@,
            decreases self.breakers.len() - i,
        {
            if str_eq(self.breakers[i].provider.as_str(), provider) {
                proof {
                    assert(self.rows()[i as int].0 == provider@);
                    lemma_breaker_position_unique(self.rows(), provider@, i as int);
                }
                return Some(i);
            }
            proof {
                assert(self.rows()[i as int].0 == self.breakers@[i as int].provider@);
            }
            i = i + 1;
        }
        proof {
            if breaker_position(self.rows(), provider@) >= 0 {
                let p = breaker_position(self.rows(), provider@);
                assert(self.rows()[p].0 == provider@);
            }
        }
        None
    }

    /// Replace (or add) the breaker of `provider`.
    fn store(&mut self, provider: &str, found: Option<usize>, b: ProviderBreaker)
        requires
            old(self).wf(),
            found matches Some(p) ==> p == breaker_position(old(self).rows(), provider@) && p
                < old(self).breakers@.len(),
            found is None ==> breaker_position(old(self).rows(), provider@) < 0,
        ensures
            final(self).wf(),
            final(self).config() == old(self).config(),
            final(self).rows() == with_breaker(old(self).rows(), provider@, b),
    {
        let ghost pre = self.rows();
        proof {
            lemma_breaker_position(pre, provider@);
        }
        match found {
            Some(p) => {
                let name = self.breakers[p].provider.clone();
                self.breakers.set(p, BreakerEntry { provider: name, breaker: b });
                proof {
                    assert(self.rows() =~= pre.update(p as int, (provider@, b)));
                    assert forall|a: int, c: int| 0 <= a < c < self.rows().len() implies self.rows()[a].0
                        != self.rows()[c].0 by {
                        assert(pre[a].0 != pre[c].0);
                    }
                }
            },
            None => {
                self.breakers.push(BreakerEntry { provider: provider.to_owned(), breaker: b });
                proof {
                    assert(self.rows() =~= pre.push((provider@, b)));
                    assert forall|a: int, c: int| 0 <= a < c < self.rows().len() implies self.rows()[a].0
                        != self.rows()[c].0 by {
                        if c < pre.len() {
                            assert(pre[a].0 != pre[c].0);
                        }
                    }
                }
            },
        }
    }

    /// The current reading of the registry's clock: the time elapsed since
    /// the registry was created, in whole nanoseconds, saturating at
    /// `u64::MAX`. The elapsed `Duration` itself is whatever the clock reads.
    fn now(&self) -> (r: u64)
        ensures
            exists|elapsed: Duration| r == #[trigger] clamp_nanos(duration_nanos(elapsed)),
    {
        let elapsed = elapsed_since(&self.origin);
        nanos_u64(elapsed)
    }

    /// Check if a request to the given provider is allowed at `now`, creating
    /// its breaker on first use.
    pub fn allow_request_at(&mut self, provider: &str, now: u64) -> (r: bool)
        requires
            old(self).wf(),
        ensures
            final(self).wf(),
            final(self).config() == old(self).config(),
            admitted_at(old(self).rows(), old(self).config(), provider@, now, r, final(self).rows()),
    {
        let found = self.find(provider);
        let mut b = match found {
            Some(p) => self.breakers[p].breaker,
            None => ProviderBreaker::new(self.config),
        };
        proof {
            if let Some(p) = found {
                assert(self.rows()[p as int].1 == self.breakers@[p as int].breaker);
            }
        }
        let r = b.allow_request(now);
        self.store(provider, found, b);
        r
    }

    /// Check if a request to the given provider is allowed now.
    pub fn allow_request(&mut self, provider: &str) -> (r: bool)
        requires
            old(self).wf(),
        ensures
            final(self).wf(),
            final(self).config() == old(self).config(),
            exists|now: u64|
                #[trigger] admitted_at(
                    old(self).rows(),
                    old(self).config(),
                    provider@,
                    now,
                    r,
                    final(self).rows(),
                ),
    {
        let now = self.now();
        self.allow_request_at(provider, now)
    }

    /// Record a successful request for a provider (no-op for a provider
    /// without a breaker).
    pub fn record_success(&mut self, provider: &str)
        requires
            old(self).wf(),
        ensures
            final(self).wf(),
            final(self).config() == old(self).config(),
            final(self).rows() == (match breaker_of(old(self).rows(), provider@) {
                Some(b) => with_breaker(old(self).rows(), provider@, success_spec(b)),
                None => old(self).rows(),
            }),
    {
        let found = self.find(provider);
        if let Some(p) = found {
            let mut b = self.breakers[p].breaker;
            proof {
                assert(self.rows()[p as int].1 == self.breakers@[p as int].breaker);
            }
            b.record_success();
            self.store(provider, found, b);
        }
    }

    /// Record a failed request for a provider at `now`, creating its breaker
    /// on first use.
    pub fn record_failure_at(&mut self, provider: &str, now: u64)
        requires
            old(self).wf(),
        ensures
            final(self).wf(),
            final(self).config() == old(self).config(),
            final(self).rows() == with_breaker(
                old(self).rows(),
                provider@,
                failure_spec(current_breaker(old(self).rows(), provider@, old(self).config()), now),
            ),
    {
        let found = self.find(provider);
        let mut b = match found {
            Some(p) => self.breakers[p].breaker,
            None => ProviderBreaker::new(self.config),
        };
        proof {
            if let Some(p) = found {
                assert(self.rows()[p as int].1 == self.breakers@[p as int].breaker);
            }
        }
        b.record_failure(now);
        self.store(provider, found, b);
    }

    /// Record a failed request for a provider now.
    pub fn record_failure(&mut self, provider: &str)
        requires
            old(self).wf(),
        ensures
            final(self).wf(),
            final(self).config() == old(self).config(),
            exists|now: u64|
                final(self).rows() == with_breaker(
                    old(self).rows(),
                    provider@,
                    #[trigger] failure_spec(
                        current_breaker(old(self).rows(), provider@, old(self).config()),
                        now,
                    ),
                ),
    {
        let now = self.now();
        self.record_failure_at(provider, now)
    }

    /// Get the current state for a provider (Closed for one never seen).
    pub fn state(&self, provider: &str) -> (r: CircuitState)
        requires
            self.wf(),
        ensures
            r == reported_state(self.rows(), provider@),
    {
        match self.find(provider) {
            Some(p) => {
                proof {
                    assert(self.rows()[p as int].1 == self.breakers@[p as int].breaker);
                }
                self.breakers[p].breaker.state
            },
            None => CircuitState::Closed,
        }
    }
}

} // verus!
