//! A circuit breaker per remote procedure.
//!
//! A method whose calls keep failing is cut off: calls are rejected at once until a cooldown has
//! passed. Then a probe is let through; its outcome closes the circuit or opens it again.

use vstd::prelude::*;

use crate::clock::{spec_since, since, Clock, NANOS_PER_MS};
use crate::text::copy_str;

verus! {

/// When a circuit opens and closes.
#[derive(Clone, Copy, Debug)]
pub struct CircuitBreakerConfig {
    /// Consecutive failures that open a closed circuit.
    pub failure_threshold: u32,
    /// How long an open circuit rejects calls, in milliseconds.
    pub cooldown_ms: u64,
    /// Successful probes that close a half-open circuit.
    pub success_threshold: u32,
}

/// The state of one circuit.
#[derive(Clone, Copy, Debug, PartialEq, Eq, Structural)]
pub enum CircuitState {
    /// Calls go through.
    Closed,
    /// Calls are rejected.
    Open,
    /// Probes go through.
    HalfOpen,
}

/// What is known of one method.
#[derive(Clone, Copy, Debug, PartialEq, Eq, Structural)]
pub struct Circuit {
    pub state: CircuitState,
    /// Failures since the last success that closed or kept closed the circuit.
    pub failures: u32,
    /// Successful probes since the circuit became half open.
    pub probes: u32,
    /// Calls that were rejected.
    pub rejections: u64,
    /// When the circuit was opened last.
    pub opened_at: u128,
}

/// The circuit of `method` is open.
#[derive(Debug)]
pub struct CircuitOpen {
    pub method: String,
}

impl Circuit {
    /// The circuit of a method that was never called.
    pub open spec fn spec_fresh() -> Circuit {
        Circuit {
            state: CircuitState::Closed,
            failures: 0,
            probes: 0,
            rejections: 0,
            opened_at: 0,
        }
    }

    pub fn fresh() -> (c: Circuit)
        ensures
            c == Circuit::spec_fresh(),
    {
        Circuit {
            state: CircuitState::Closed,
            failures: 0,
            probes: 0,
            rejections: 0,
            opened_at: 0,
        }
    }

    /// A failure opens a half-open circuit at once, and a closed one when the threshold is reached.
    pub open spec fn spec_after_failure(self, config: CircuitBreakerConfig, now: u128) -> Circuit {
        let failures = if self.failures < u32::MAX {
            (self.failures + 1) as u32
        } else {
            u32::MAX
        };
        match self.state {
            CircuitState::Closed => if failures >= config.failure_threshold {
                Circuit { state: CircuitState::Open, failures, opened_at: now, ..self }
            } else {
                Circuit { failures, ..self }
            },
            CircuitState::HalfOpen => Circuit {
                state: CircuitState::Open,
                failures,
                opened_at: now,
                ..self
            },
            CircuitState::Open => Circuit { failures, ..self },
        }
    }

    pub fn after_failure(self, config: &CircuitBreakerConfig, now: u128) -> (c: Circuit)
        ensures
            c == self.spec_after_failure(*config, now),
    {
        let mut c = self;
        c.failures = self.failures.saturating_add(1);
        let trips = match self.state {
            CircuitState::Closed => c.failures >= config.failure_threshold,
            CircuitState::HalfOpen => true,
            CircuitState::Open => false,
        };
        if trips {
            c.state = CircuitState::Open;
            c.opened_at = now;
        }
        c
    }

    /// A success clears the failures of a closed circuit, and closes a half-open one when enough
    /// probes succeeded.
    pub open spec fn spec_after_success(self, config: CircuitBreakerConfig) -> Circuit {
        match self.state {
            CircuitState::Closed => Circuit { failures: 0, ..self },
            CircuitState::HalfOpen => if self.probes + 1 >= config.success_threshold {
                Circuit { state: CircuitState::Closed, failures: 0, probes: 0, ..self }
            } else {
                Circuit { probes: (self.probes + 1) as u32, ..self }
            },
            CircuitState::Open => self,
        }
    }

    pub fn after_success(self, config: &CircuitBreakerConfig) -> (c: Circuit)
        ensures
            c == self.spec_after_success(*config),
    {
        let mut c = self;
        match self.state {
            CircuitState::Closed => {
                c.failures = 0;
            },
            CircuitState::HalfOpen => {
                if self.probes >= config.success_threshold || self.probes
                    >= config.success_threshold - 1 {
                    c.state = CircuitState::Closed;
                    c.failures = 0;
                    c.probes = 0;
                } else {
                    c.probes = self.probes + 1;
                }
            },
            CircuitState::Open => {},
        }
        c
    }

    /// Whether an open circuit has cooled down at time `now`.
    pub open spec fn cooled_down(self, config: CircuitBreakerConfig, now: u128) -> bool {
        spec_since(now, self.opened_at) >= config.cooldown_ms * NANOS_PER_MS
    }

    /// A call is let through unless the circuit is open and still hot.
    pub open spec fn allows(self, config: CircuitBreakerConfig, now: u128) -> bool {
        self.state != CircuitState::Open || self.cooled_down(config, now)
    }

    /// Asking turns an open circuit that has cooled down half open, and counts a rejection.
    pub open spec fn spec_after_check(self, config: CircuitBreakerConfig, now: u128) -> Circuit {
        if self.state != CircuitState::Open {
            self
        } else if self.cooled_down(config, now) {
            Circuit { state: CircuitState::HalfOpen, probes: 0, ..self }
        } else {
            Circuit {
                rejections: if self.rejections < u64::MAX {
                    (self.rejections + 1) as u64
                } else {
                    u64::MAX
                },
                ..self
            }
        }
    }

    pub fn after_check(self, config: &CircuitBreakerConfig, now: u128) -> (r: (Circuit, bool))
        ensures
            r.0 == self.spec_after_check(*config, now),
            r.1 == self.allows(*config, now),
    {
        let mut c = self;
        if self.state != CircuitState::Open {
            return (c, true);
        }
        let cooldown: u128 = config.cooldown_ms as u128;
        assert(cooldown * NANOS_PER_MS <= u64::MAX * NANOS_PER_MS);
        if since(now, self.opened_at) >= cooldown * NANOS_PER_MS {
            c.state = CircuitState::HalfOpen;
            c.probes = 0;
            (c, true)
        } else {
            c.rejections = self.rejections.saturating_add(1);
            (c, false)
        }
    }
}

/// One circuit per method.
#[derive(Debug)]
pub struct RpcCircuitBreaker {
    pub config: CircuitBreakerConfig,
    pub clock: Clock,
    pub circuits: Vec<(String, Circuit)>,
}

/// The position of `method` in `circuits`.
pub open spec fn position_of(circuits: Seq<(String, Circuit)>, method: Seq<char>) -> Option<int> {
    if exists|i: int| 0 <= i < circuits.len() && (#[trigger] circuits[i]).0@ == method {
        Some(choose|i: int| 0 <= i < circuits.len() && (#[trigger] circuits[i]).0@ == method)
    } else {
        None
    }
}

impl RpcCircuitBreaker {
    /// Every method has at most one circuit.
    pub open spec fn wf(&self) -> bool {
        forall|i: int, j: int|
            0 <= i < j < self.circuits@.len() ==> (#[trigger] self.circuits@[i]).0@
                != (#[trigger] self.circuits@[j]).0@
    }

    /// The circuit of `method`.
    pub open spec fn circuit(&self, method: Seq<char>) -> Circuit {
        match position_of(self.circuits@, method) {
            Some(i) => self.circuits@[i].1,
            None => Circuit::spec_fresh(),
        }
    }

    /// Only the circuit of `method` changed, to `c`.
    pub open spec fn only_changed(&self, before: &Self, method: Seq<char>, c: Circuit) -> bool {
        &&& self.config == before.config
        &&& self.circuit(method) == c
        &&& forall|other: Seq<char>|
            other != method ==> #[trigger] self.circuit(other) == before.circuit(other)
    }

    /// A breaker with default limits: five failures open a circuit for thirty seconds, one
    /// successful probe closes it.
    pub fn new() -> (b: RpcCircuitBreaker)
        ensures
            b.wf(),
            b.config == (CircuitBreakerConfig {
                failure_threshold: 5,
                cooldown_ms: 30_000,
                success_threshold: 1,
            }),
            forall|m: Seq<char>| #[trigger] b.circuit(m) == Circuit::spec_fresh(),
    {
        RpcCircuitBreaker::with_config(
            CircuitBreakerConfig {
                failure_threshold: 5,
                cooldown_ms: 30_000,
                success_threshold: 1,
            },
        )
    }

    /// A breaker with the given limits.
    pub fn with_config(config: CircuitBreakerConfig) -> (b: RpcCircuitBreaker)
        ensures
            b.wf(),
            b.config == config,
            forall|m: Seq<char>| #[trigger] b.circuit(m) == Circuit::spec_fresh(),
    {
        RpcCircuitBreaker { config, clock: Clock::start(), circuits: Vec::new() }
    }

    fn lookup(&self, method: &str) -> (r: Option<usize>)
        requires
            self.wf(),
        ensures
            match r {
                Some(i) => position_of(self.circuits@, method@) == Some(i as int) && i
                    < self.circuits@.len() && self.circuits@[i as int].0@ == method@,
                None => position_of(self.circuits@, method@) is None,
            },
    {
        let mut i: usize = 0;
        let wanted = copy_str(method);
        while i < self.circuits.len()
            invariant
                i <= self.circuits@.len(),
                wanted@ == method@,
                self.wf(),
                forall|k: int| 0 <= k < i ==> (#[trigger] self.circuits@[k]).0@ != method@,
            decreases self.circuits@.len() - i,
        {
            if self.circuits[i].0 == wanted {
                proof {
                    assert(self.circuits@[i as int].0@ == method@);
                    let p = choose|p: int|
                        0 <= p < self.circuits@.len() && (#[trigger] self.circuits@[p]).0@
                            == method@;
                    assert(p == i as int);
                }
                return Some(i);
            }
            i = i + 1;
        }
        None
    }

    fn get(&self, method: &str) -> (c: Circuit)
        requires
            self.wf(),
        ensures
            c == self.circuit(method@),
    {
        match self.lookup(method) {
            Some(i) => self.circuits[i].1,
            None => Circuit::fresh(),
        }
    }

    fn put(&mut self, method: &str, c: Circuit)
        requires
            old(self).wf(),
        ensures
            final(self).wf(),
            final(self).only_changed(old(self), method@, c),
    {
        let found = self.lookup(method);
        let ghost before = self.circuits@;
        match found {
            Some(i) => {
                let name = copy_str(method);
                self.circuits.set(i, (name, c));
            },
            None => {
                self.circuits.push((copy_str(method), c));
            },
        }
        proof {
            let after = self.circuits@;
            let at = match found {
                Some(i) => i as int,
                None => before.len() as int,
            };
            assert(after[at].0@ == method@ && after[at].1 == c);
            assert forall|k: int| 0 <= k < before.len() && k != at implies after[k] == before[k] by {
            }
            assert forall|k: int| 0 <= k < after.len() && k != at implies (#[trigger] after[k]).0@
                != method@ by {
                assert(after[k] == before[k]);
            }
            assert(self.wf());
            let p = choose|p: int| 0 <= p < after.len() && (#[trigger] after[p]).0@ == method@;
            assert(p == at);
            assert forall|other: Seq<char>| other != method@ implies #[trigger] self.circuit(other)
                == old(self).circuit(other) by {
                if exists|i: int| 0 <= i < before.len() && (#[trigger] before[i]).0@ == other {
                    let i = choose|i: int|
                        0 <= i < before.len() && (#[trigger] before[i]).0@ == other;
                    assert(i != at);
                    assert(after[i] == before[i]);
                    let j = choose|j: int|
                        0 <= j < after.len() && (#[trigger] after[j]).0@ == other;
                    assert(j == i);
                } else {
                    assert forall|j: int| 0 <= j < after.len() implies (#[trigger] after[j]).0@
                        != other by {
                        if j != at {
                            assert(after[j] == before[j]);
                        }
                    }
                }
            }
        }
    }

    /// The state of a method's circuit.
    pub fn state(&self, method: &str) -> (s: CircuitState)
        requires
            self.wf(),
        ensures
            s == self.circuit(method@).state,
    {
        self.get(method).state
    }

    /// The failures counted for a method.
    pub fn failure_count(&self, method: &str) -> (n: u32)
        requires
            self.wf(),
        ensures
            n == self.circuit(method@).failures,
    {
        self.get(method).failures
    }

    /// The calls of a method that were rejected.
    pub fn total_rejections(&self, method: &str) -> (n: u64)
        requires
            self.wf(),
        ensures
            n == self.circuit(method@).rejections,
    {
        self.get(method).rejections
    }

    /// Asks at time `now` whether a method may be called.
    pub fn check_at(&mut self, method: &str, now: u128) -> (r: Result<(), CircuitOpen>)
        requires
            old(self).wf(),
        ensures
            final(self).wf(),
            final(self).only_changed(
                old(self),
                method@,
                old(self).circuit(method@).spec_after_check(old(self).config, now),
            ),
            r is Ok <==> old(self).circuit(method@).allows(old(self).config, now),
            r matches Err(e) ==> e.method@ == method@,
    {
        let (c, allowed) = self.get(method).after_check(&self.config, now);
        self.put(method, c);
        if allowed {
            Ok(())
        } else {
            Err(CircuitOpen { method: copy_str(method) })
        }
    }

    /// Asks whether a method may be called now. A method whose circuit is not open always may.
    pub fn check(&mut self, method: &str) -> (r: Result<(), CircuitOpen>)
        requires
            old(self).wf(),
        ensures
            final(self).wf(),
            old(self).circuit(method@).state != CircuitState::Open ==> r is Ok
                && final(self).circuit(method@) == old(self).circuit(method@),
            exists|now: u128|
                {
                    &&& final(self).only_changed(
                        old(self),
                        method@,
                        #[trigger] old(self).circuit(method@).spec_after_check(
                            old(self).config,
                            now,
                        ),
                    )
                    &&& r is Ok <==> old(self).circuit(method@).allows(old(self).config, now)
                },
            r matches Err(e) ==> e.method@ == method@,
    {
        let now: u128 = self.clock.now();
        self.check_at(method, now)
    }

    /// Records at time `now` that a call failed.
    pub fn record_failure_at(&mut self, method: &str, now: u128)
        requires
            old(self).wf(),
        ensures
            final(self).wf(),
            final(self).only_changed(
                old(self),
                method@,
                old(self).circuit(method@).spec_after_failure(old(self).config, now),
            ),
    {
        let c = self.get(method).after_failure(&self.config, now);
        self.put(method, c);
    }

    /// Records that a call failed just now.
    pub fn record_failure(&mut self, method: &str)
        requires
            old(self).wf(),
        ensures
            final(self).wf(),
            exists|now: u128|
                final(self).only_changed(
                    old(self),
                    method@,
                    #[trigger] old(self).circuit(method@).spec_after_failure(
                        old(self).config,
                        now,
                    ),
                ),
    {
        let now: u128 = self.clock.now();
        self.record_failure_at(method, now);
    }

    /// Records that a call succeeded.
    pub fn record_success(&mut self, method: &str)
        requires
            old(self).wf(),
        ensures
            final(self).wf(),
            final(self).only_changed(
                old(self),
                method@,
                old(self).circuit(method@).spec_after_success(old(self).config),
            ),
    {
        let c = self.get(method).after_success(&self.config);
        self.put(method, c);
    }
}

/// `n` failures in a row, at the given times, starting from circuit `c`.
pub open spec fn after_failures(
    config: CircuitBreakerConfig,
    c: Circuit,
    times: Seq<u128>,
) -> Circuit
    decreases times.len(),
{
    if times.len() == 0 {
        c
    } else {
        after_failures(config, c, times.drop_last()).spec_after_failure(config, times.last())
    }
}

/// A fresh circuit stays closed below the failure threshold and is open once it is reached.
pub proof fn law_opens_exactly_at_threshold(config: CircuitBreakerConfig, times: Seq<u128>)
    requires
        config.failure_threshold > 0,
        times.len() <= u32::MAX,
    ensures
        ({
            let c = after_failures(config, Circuit::spec_fresh(), times);
            &&& c.failures == times.len()
            &&& c.state == if times.len() < config.failure_threshold {
                CircuitState::Closed
            } else {
                CircuitState::Open
            }
        }),
    decreases times.len(),
{
    if times.len() > 0 {
        law_opens_exactly_at_threshold(config, times.drop_last());
    }
}

/// After the cooldown a probe is let through; one that fails opens the circuit again for a whole
/// cooldown.
pub proof fn law_failed_probe_reopens(
    config: CircuitBreakerConfig,
    c: Circuit,
    probe_at: u128,
    failed_at: u128,
    now: u128,
)
    requires
        c.state == CircuitState::Open,
        c.cooled_down(config, probe_at),
    ensures
        c.allows(config, probe_at),
        ({
            let half = c.spec_after_check(config, probe_at);
            let reopened = half.spec_after_failure(config, failed_at);
            &&& half.state == CircuitState::HalfOpen
            &&& reopened.state == CircuitState::Open
            &&& reopened.allows(config, now) <==> spec_since(now, failed_at) >= config.cooldown_ms
                * NANOS_PER_MS
        }),
{
}

// ---------------------------------------------------------------------------------------------
// What a circuit does
// ---------------------------------------------------------------------------------------------

/// A method that was never called has a closed circuit without failures, probes or rejections.
pub proof fn law_circuits_start_closed()
    ensures
        Circuit::spec_fresh() == (Circuit {
            state: CircuitState::Closed,
            failures: 0,
            probes: 0,
            rejections: 0,
            opened_at: 0,
        }),
{
}

/// A call is rejected exactly if the circuit is open and was opened less than the cooldown ago. A
/// rejection is counted and changes nothing else; a call that an open circuit lets through is a
/// probe, the first of a new series; any other call leaves no trace.
pub proof fn law_when_calls_are_rejected(c: Circuit, config: CircuitBreakerConfig, now: u128)
    requires
        c.opened_at <= now,
        c.rejections < u64::MAX,
    ensures
        ({
            let next = c.spec_after_check(config, now);
            let hot = now - c.opened_at < config.cooldown_ms * 1_000_000;
            &&& !c.allows(config, now) <==> c.state is Open && hot
            &&& !c.allows(config, now) ==> next == (Circuit {
                rejections: (c.rejections + 1) as u64,
                ..c
            })
            &&& c.state is Open && !hot ==> next == (Circuit {
                state: CircuitState::HalfOpen,
                probes: 0,
                ..c
            })
            &&& !(c.state is Open) ==> next == c
        }),
{
}

/// What a failure does: it is counted; a probe that fails opens the circuit at once, and in a closed
/// circuit the failure with which the threshold is reached does; the time of it is noted then. An
/// open circuit keeps its time.
pub proof fn law_what_a_failure_does(c: Circuit, config: CircuitBreakerConfig, now: u128)
    requires
        c.failures < u32::MAX,
    ensures
        ({
            let next = c.spec_after_failure(config, now);
            let opens = c.state is HalfOpen || (c.state is Closed && c.failures + 1
                >= config.failure_threshold);
            &&& next.failures == c.failures + 1
            &&& next.probes == c.probes
            &&& next.rejections == c.rejections
            &&& opens ==> next.state is Open && next.opened_at == now
            &&& !opens ==> next.state == c.state && next.opened_at == c.opened_at
        }),
{
}

/// What a success does: in a closed circuit the failures are forgotten; a probe that succeeds counts
/// towards the number that closes the circuit, and the one that completes it closes it, with
/// everything forgotten but the rejections; an open circuit is not affected.
pub proof fn law_what_a_success_does(c: Circuit, config: CircuitBreakerConfig)
    requires
        c.probes < u32::MAX,
    ensures
        ({
            let next = c.spec_after_success(config);
            &&& next.rejections == c.rejections
            &&& next.opened_at == c.opened_at
            &&& c.state is Closed ==> next.state is Closed && next.failures == 0 && next.probes
                == c.probes
            &&& c.state is HalfOpen && c.probes + 1 >= config.success_threshold
                ==> next.state is Closed && next.failures == 0 && next.probes == 0
            &&& c.state is HalfOpen && c.probes + 1 < config.success_threshold
                ==> next.state is HalfOpen && next.failures == c.failures && next.probes == c.probes
                + 1
            &&& c.state is Open ==> next == c
        }),
{
}

/// The circuit of a method is the one that is filed under its name; without one it is a new one.
pub proof fn law_each_method_has_its_own_circuit(b: RpcCircuitBreaker, i: int, method: Seq<char>)
    requires
        b.wf(),
    ensures
        0 <= i < b.circuits@.len() ==> b.circuit(b.circuits@[i].0@) == b.circuits@[i].1,
        (forall|j: int| 0 <= j < b.circuits@.len() ==> (#[trigger] b.circuits@[j]).0@ != method)
            ==> b.circuit(method) == (Circuit {
            state: CircuitState::Closed,
            failures: 0,
            probes: 0,
            rejections: 0,
            opened_at: 0,
        }),
{
    if 0 <= i < b.circuits@.len() {
        let name = b.circuits@[i].0@;
        let j = position_of(b.circuits@, name)->0;
        assert(b.circuits@[i].0@ == name);
        assert(b.circuits@[j].0@ == name);
        if i < j {
            assert(b.circuits@[i].0@ != b.circuits@[j].0@);
        } else if j < i {
            assert(b.circuits@[j].0@ != b.circuits@[i].0@);
        }
    }
}

/// What happens to one method happens to no other.
pub proof fn law_methods_do_not_affect_each_other(
    before: RpcCircuitBreaker,
    after: RpcCircuitBreaker,
    method: Seq<char>,
    other: Seq<char>,
    c: Circuit,
)
    requires
        after.only_changed(&before, method, c),
    ensures
        after.circuit(method) == c,
        other != method ==> after.circuit(other) == before.circuit(other),
        after.config == before.config,
{
}

} // verus!
