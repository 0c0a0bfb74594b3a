//! The persisted process record, its lifecycle states, and the configuration
//! of a coordinator.
use vstd::prelude::*;

use crate::time::{Duration, Timestamp};

verus! {

/// Current state of a process.
#[derive(Debug, Clone, PartialEq, Eq)]
pub enum ProcessStatus<A> {
    /// Process has never been started
    NotStarted,
    /// Process is currently running
    Running,
    /// Process completed successfully with this memoized value
    Completed(A),
    /// Process exceeded the maximum processing time
    Timeout,
    /// Process record expired (its time to live has passed)
    Expired,
}

/// The instant at or after which a stored record may be deleted.
#[derive(Debug, Clone, Copy, PartialEq, Eq, Structural)]
pub struct Expiration {
    pub instant: Timestamp,
}

impl Expiration {
    pub open spec fn is_expired_spec(self, now: Timestamp) -> bool {
        now.nanos >= self.instant.nanos
    }

    pub fn new(instant: Timestamp) -> (r: Expiration)
        ensures
            r.instant == instant,
    {
        Expiration { instant }
    }

    /// An expiration `duration` after `now`.
    pub fn from_duration_at(now: Timestamp, duration: Duration) -> (r: Expiration)
        ensures
            r.instant == now.saturating_add_spec(duration),
    {
        Expiration { instant: now.saturating_add(duration) }
    }

    /// An expiration `duration` from the current instant of the system clock.
    pub fn from_duration(duration: Duration) -> (r: Expiration)
        ensures
            exists|now: Timestamp| r.instant == now.saturating_add_spec(duration),
    {
        let now = Timestamp::now();
        Expiration::from_duration_at(now, duration)
    }

    pub fn is_expired_at(&self, now: Timestamp) -> (r: bool)
        ensures
            r == self.is_expired_spec(now),
    {
        now.nanos >= self.instant.nanos
    }

    /// Whether the system clock has reached the expiration instant.
    pub fn is_expired(&self) -> (r: bool)
        ensures
            exists|now: Timestamp| r == self.is_expired_spec(now),
    {
        self.is_expired_at(Timestamp::now())
    }
}

/// Core process record, keyed by `(id, processor_id)`.
#[derive(Debug, Clone)]
pub struct Process<Id, ProcessorId, A> {
    /// Unique signal identifier
    pub id: Id,
    /// Processor scope
    pub processor_id: ProcessorId,
    /// When processing started
    pub started_at: Timestamp,
    /// When processing completed (None = still running)
    pub completed_at: Option<Timestamp>,
    /// When the record expires
    pub expires_on: Option<Expiration>,
    /// Memoized result value
    pub memoized: Option<A>,
}

/// A status whose completed value is borrowed, read as one that holds the value.
pub open spec fn owned_status<A>(s: ProcessStatus<&A>) -> ProcessStatus<A> {
    match s {
        ProcessStatus::NotStarted => ProcessStatus::NotStarted,
        ProcessStatus::Running => ProcessStatus::Running,
        ProcessStatus::Completed(v) => ProcessStatus::Completed(*v),
        ProcessStatus::Timeout => ProcessStatus::Timeout,
        ProcessStatus::Expired => ProcessStatus::Expired,
    }
}

impl<Id, ProcessorId, A> Process<Id, ProcessorId, A> {
    pub open spec fn is_completed_spec(self) -> bool {
        self.completed_at is Some
    }

    pub open spec fn is_expired_spec(self, now: Timestamp) -> bool {
        self.expires_on matches Some(e) && e.is_expired_spec(now)
    }

    /// Not completed, and at least `max_processing_time` has passed since the
    /// start. A clock that reads before the start never times a record out.
    pub open spec fn is_timeout_spec(self, now: Timestamp, max_processing_time: Duration) -> bool {
        &&& !self.is_completed_spec()
        &&& self.started_at.nanos <= now.nanos
        &&& now.nanos - self.started_at.nanos >= max_processing_time.nanos
    }

    /// The lifecycle state of the record at `now`: completion first, then
    /// expiry, then timeout.
    pub open spec fn status_spec(self, now: Timestamp, max_processing_time: Duration) -> ProcessStatus<A> {
        if self.memoized is Some && self.is_completed_spec() {
            ProcessStatus::Completed(self.memoized->0)
        } else if self.is_expired_spec(now) {
            ProcessStatus::Expired
        } else if self.is_timeout_spec(now, max_processing_time) {
            ProcessStatus::Timeout
        } else {
            ProcessStatus::Running
        }
    }

    /// A record claimed at `started_at`, neither completed nor expiring.
    pub fn new(id: Id, processor_id: ProcessorId, started_at: Timestamp) -> (r: Self)
        ensures
            r.id == id,
            r.processor_id == processor_id,
            r.started_at == started_at,
            r.completed_at is None,
            r.expires_on is None,
            r.memoized is None,
    {
        Process {
            id,
            processor_id,
            started_at,
            completed_at: None,
            expires_on: None,
            memoized: None,
        }
    }

    pub fn is_completed(&self) -> (r: bool)
        ensures
            r == self.is_completed_spec(),
    {
        self.completed_at.is_some()
    }

    pub fn is_expired_at(&self, now: Timestamp) -> (r: bool)
        ensures
            r == self.is_expired_spec(now),
    {
        match &self.expires_on {
            Some(e) => e.is_expired_at(now),
            None => false,
        }
    }

    /// Whether the record has expired by the system clock.
    pub fn is_expired(&self) -> (r: bool)
        ensures
            exists|now: Timestamp| r == self.is_expired_spec(now),
            self.expires_on is None ==> !r,
    {
        self.is_expired_at(Timestamp::now())
    }

    pub fn is_timeout_at(&self, now: Timestamp, max_processing_time: Duration) -> (r: bool)
        ensures
            r == self.is_timeout_spec(now, max_processing_time),
    {
        if self.is_completed() {
            return false;
        }
        match now.duration_since(self.started_at) {
            Some(elapsed) => elapsed.nanos >= max_processing_time.nanos,
            None => false,
        }
    }

    /// Whether the record has timed out by the system clock.
    pub fn is_timeout(&self, max_processing_time: Duration) -> (r: bool)
        ensures
            exists|now: Timestamp| r == self.is_timeout_spec(now, max_processing_time),
            self.is_completed_spec() ==> !r,
    {
        self.is_timeout_at(Timestamp::now(), max_processing_time)
    }

    /// The lifecycle state of the record at `now`.
    pub fn status_at(&self, now: Timestamp, max_processing_time: Duration) -> (r: ProcessStatus<&A>)
        ensures
            owned_status(r) == self.status_spec(now, max_processing_time),
    {
        if let Some(memoized) = &self.memoized {
            if self.is_completed() {
                return ProcessStatus::Completed(memoized);
            }
        }
        if self.is_expired_at(now) {
            return ProcessStatus::Expired;
        }
        if self.is_timeout_at(now, max_processing_time) {
            return ProcessStatus::Timeout;
        }
        ProcessStatus::Running
    }

    /// The lifecycle state of the record by the system clock.
    pub fn status(&self, max_processing_time: Duration) -> (r: ProcessStatus<&A>)
        ensures
            exists|now: Timestamp| owned_status(r) == self.status_spec(now, max_processing_time),
    {
        self.status_at(Timestamp::now(), max_processing_time)
    }
}

/// Scale of a backoff multiplier: a multiplier of `MULTIPLIER_SCALE` is 1.0.
pub const MULTIPLIER_SCALE: u32 = 1000;

/// How a caller waits on a peer that is still running the effect.
#[derive(Debug, Clone, Copy, PartialEq, Eq, Structural)]
pub enum PollStrategy {
    /// Poll with the same delay between attempts
    Linear { delay: Duration, max_duration: Duration },
    /// Poll with geometric backoff: poll number `k` waits
    /// `base_delay · (multiplier_milli / 1000)^k`, truncated to whole nanoseconds
    Backoff { base_delay: Duration, multiplier_milli: u32, max_duration: Duration },
}

/// `b` to the power `e`.
pub open spec fn power(b: nat, e: nat) -> nat
    decreases e,
{
    if e == 0 {
        1
    } else {
        b * power(b, (e - 1) as nat)
    }
}

/// `v` as a number of nanoseconds, at most `u64::MAX`.
pub open spec fn saturate(v: int) -> u64 {
    if v > u64::MAX {
        u64::MAX
    } else {
        v as u64
    }
}

impl PollStrategy {
    pub open spec fn max_duration_spec(self) -> Duration {
        match self {
            PollStrategy::Linear { max_duration, .. } => max_duration,
            PollStrategy::Backoff { max_duration, .. } => max_duration,
        }
    }

    pub open spec fn first_delay_spec(self) -> Duration {
        match self {
            PollStrategy::Linear { delay, .. } => delay,
            PollStrategy::Backoff { base_delay, .. } => base_delay,
        }
    }

    /// The delay before poll number `attempt` (counting from zero): the fixed
    /// delay, or `base · m^attempt / 1000^attempt` for a multiplier of
    /// `m / 1000`, truncated once to whole nanoseconds and at most `u64::MAX`.
    pub open spec fn delay_spec(self, attempt: nat) -> Duration {
        match self {
            PollStrategy::Linear { delay, .. } => delay,
            PollStrategy::Backoff { base_delay, multiplier_milli, .. } => Duration {
                nanos: saturate(
                    (base_delay.nanos * power(multiplier_milli as nat, attempt)) / (power(
                        MULTIPLIER_SCALE as nat,
                        attempt,
                    ) as int),
                ),
            },
        }
    }

    pub proof fn lemma_first_delay(self)
        ensures
            self.delay_spec(0) == self.first_delay_spec(),
    {
        if let PollStrategy::Backoff { base_delay, multiplier_milli, .. } = self {
            assert(power(multiplier_milli as nat, 0) == 1);
            assert(power(MULTIPLIER_SCALE as nat, 0) == 1);
            let n = base_delay.nanos as int;
            assert(n * 1 / 1 == n) by (nonlinear_arith);
        }
    }

    /// A positive first delay, a multiplier of at least 1.0, and a cap no
    /// shorter than the first delay.
    pub open spec fn is_valid(self) -> bool {
        &&& self.first_delay_spec().nanos > 0
        &&& self.max_duration_spec().nanos >= self.first_delay_spec().nanos
        &&& (self matches PollStrategy::Backoff { multiplier_milli, .. } ==> multiplier_milli
            >= MULTIPLIER_SCALE)
    }

    /// Fixed-interval polling; `None` where the delay is zero or the cap is
    /// shorter than the delay.
    pub fn linear(delay: Duration, max_duration: Duration) -> (r: Option<PollStrategy>)
        ensures
            r is Some <==> (delay.nanos > 0 && max_duration.nanos >= delay.nanos),
            r matches Some(s) ==> s == (PollStrategy::Linear { delay, max_duration }) && s.is_valid(),
    {
        if delay.nanos > 0 && max_duration.nanos >= delay.nanos {
            Some(PollStrategy::Linear { delay, max_duration })
        } else {
            None
        }
    }

    /// Geometric backoff with the multiplier given in thousandths (1500 is
    /// 1.5); `None` where the base delay is zero, the multiplier is below 1.0,
    /// or the cap is shorter than the base delay.
    pub fn backoff(base_delay: Duration, multiplier_milli: u32, max_duration: Duration) -> (r: Option<PollStrategy>)
        ensures
            r is Some <==> (base_delay.nanos > 0 && multiplier_milli >= MULTIPLIER_SCALE
                && max_duration.nanos >= base_delay.nanos),
            r matches Some(s) ==> s == (PollStrategy::Backoff { base_delay, multiplier_milli, max_duration })
                && s.is_valid(),
    {
        if base_delay.nanos > 0 && multiplier_milli >= MULTIPLIER_SCALE && max_duration.nanos >= base_delay.nanos {
            Some(PollStrategy::Backoff { base_delay, multiplier_milli, max_duration })
        } else {
            None
        }
    }

    pub fn max_duration(&self) -> (r: Duration)
        ensures
            r == self.max_duration_spec(),
    {
        match self {
            PollStrategy::Linear { max_duration, .. } => *max_duration,
            PollStrategy::Backoff { max_duration, .. } => *max_duration,
        }
    }

    pub fn first_delay(&self) -> (r: Duration)
        ensures
            r == self.first_delay_spec(),
            r == self.delay_spec(0),
    {
        proof {
            self.lemma_first_delay();
        }
        match self {
            PollStrategy::Linear { delay, .. } => *delay,
            PollStrategy::Backoff { base_delay, .. } => *base_delay,
        }
    }

}

/// The value of base-1000 digits, least significant first.
pub open spec fn base1000_value(ds: Seq<u32>) -> nat
    decreases ds.len(),
{
    if ds.len() == 0 {
        0
    } else {
        base1000_value(ds.drop_last()) + ds.last() as nat * power(1000, (ds.len() - 1) as nat)
    }
}

proof fn lemma_power_positive(b: nat, e: nat)
    requires
        b > 0,
    ensures
        power(b, e) > 0,
    decreases e,
{
    if e > 0 {
        lemma_power_positive(b, (e - 1) as nat);
        let p = power(b, (e - 1) as nat);
        assert(b * p > 0) by (nonlinear_arith)
            requires
                b > 0,
                p > 0,
        ;
    }
}

proof fn lemma_base1000_bound(ds: Seq<u32>)
    requires
        forall|i: int| 0 <= i < ds.len() ==> #[trigger] ds[i] < 1000,
    ensures
        base1000_value(ds) < power(1000, ds.len()),
    decreases ds.len(),
{
    if ds.len() > 0 {
        let d = ds.drop_last();
        assert forall|i: int| 0 <= i < d.len() implies #[trigger] d[i] < 1000 by {
            assert(d[i] == ds[i]);
        }
        lemma_base1000_bound(d);
        let p = power(1000, d.len());
        let v = base1000_value(d);
        let x = ds.last() as nat;
        assert(ds[ds.len() - 1] < 1000);
        assert(v + x * p < 1000 * p) by (nonlinear_arith)
            requires
                v < p,
                x < 1000,
        ;
    }
}

proof fn lemma_floor_is(n: int, d: int, q: int, r: int)
    requires
        d > 0,
        0 <= r < d,
        n == q * d + r,
    ensures
        n / d == q,
{
    vstd::arithmetic::div_mod::lemma_fundamental_div_mod_converse(n, d, q, r);
}

proof fn lemma_floor_above(n: int, d: int, bound: int)
    requires
        d > 0,
        n >= bound * d,
    ensures
        n / d >= bound,
{
    vstd::arithmetic::div_mod::lemma_fundamental_div_mod(n, d);
    vstd::arithmetic::div_mod::lemma_mod_bound(n, d);
    let q = n / d;
    let r = n % d;
    assert(q >= bound) by (nonlinear_arith)
        requires
            n == d * q + r,
            0 <= r < d,
            n >= bound * d,
            d > 0,
    ;
}

/// Follows the delays of a strategy poll by poll. For backoff it holds the
/// exact value `base · m^k / 1000^k` of poll `k`: its integer part, and the
/// digits of its fractional part in base 1000 (one more digit per poll), so
/// that no rounding builds up. Once the value passes `u64::MAX` nanoseconds it
/// only records that.
#[derive(Clone)]
pub struct DelaySchedule {
    strategy: PollStrategy,
    attempt: Ghost<nat>,
    whole: u64,
    fraction: Vec<u32>,
    saturated: bool,
}

impl DelaySchedule {
    pub closed spec fn strategy_spec(self) -> PollStrategy {
        self.strategy
    }

    /// The number of the poll whose delay `current` gives.
    pub closed spec fn attempt_spec(self) -> nat {
        self.attempt@
    }

    pub closed spec fn wf(self) -> bool {
        match self.strategy {
            PollStrategy::Linear { .. } => true,
            PollStrategy::Backoff { base_delay, multiplier_milli, .. } => {
                let n = base_delay.nanos * power(multiplier_milli as nat, self.attempt@);
                let d = power(1000, self.attempt@);
                if self.saturated {
                    &&& n >= (u64::MAX + 1) * d
                    &&& multiplier_milli >= MULTIPLIER_SCALE
                } else {
                    &&& self.fraction@.len() == self.attempt@
                    &&& forall|i: int| 0 <= i < self.fraction@.len() ==> #[trigger] self.fraction@[i] < 1000
                    &&& n == self.whole * d + base1000_value(self.fraction@)
                }
            },
        }
    }

    /// The schedule of `strategy`, at its first poll.
    pub fn new(strategy: PollStrategy) -> (r: DelaySchedule)
        ensures
            r.wf(),
            r.strategy_spec() == strategy,
            r.attempt_spec() == 0,
    {
        let whole = strategy.first_delay().nanos;
        proof {
            if let PollStrategy::Backoff { base_delay, multiplier_milli, .. } = strategy {
                assert(power(multiplier_milli as nat, 0) == 1);
                assert(power(1000, 0) == 1);
                assert(base1000_value(Seq::<u32>::empty()) == 0);
            }
        }
        DelaySchedule { strategy, attempt: Ghost(0), whole, fraction: Vec::new(), saturated: false }
    }

    /// The delay before the current poll.
    pub fn current(&self) -> (r: Duration)
        requires
            self.wf(),
        ensures
            r == self.strategy_spec().delay_spec(self.attempt_spec()),
    {
        match self.strategy {
            PollStrategy::Linear { delay, .. } => delay,
            PollStrategy::Backoff { base_delay, multiplier_milli, .. } => {
                let ghost n = base_delay.nanos * power(multiplier_milli as nat, self.attempt@);
                let ghost d = power(1000, self.attempt@);
                proof {
                    lemma_power_positive(1000, self.attempt@);
                }
                if self.saturated {
                    proof {
                        lemma_floor_above(n, d as int, u64::MAX + 1);
                    }
                    Duration { nanos: u64::MAX }
                } else {
                    proof {
                        lemma_base1000_bound(self.fraction@);
                        lemma_floor_is(n, d as int, self.whole as int, base1000_value(self.fraction@) as int);
                    }
                    Duration { nanos: self.whole }
                }
            },
        }
    }

    /// Moves on to the next poll.
    pub fn advance(&mut self)
        requires
            old(self).wf(),
        ensures
            final(self).wf(),
            final(self).strategy_spec() == old(self).strategy_spec(),
            final(self).attempt_spec() == old(self).attempt_spec() + 1,
    {
        let ghost k = self.attempt@;
        match self.strategy {
            PollStrategy::Linear { .. } => {
                self.attempt = Ghost(k + 1);
            },
            PollStrategy::Backoff { base_delay, multiplier_milli, .. } => {
                let ghost base = base_delay.nanos as int;
                let ghost mi = multiplier_milli as int;
                let ghost pm = power(multiplier_milli as nat, k) as int;
                let ghost d = power(1000, k) as int;
                let ghost n = base * pm;
                assert(power(multiplier_milli as nat, k + 1) == mi * pm);
                assert(power(1000, k + 1) == 1000 * d);
                assert(base * (mi * pm) == mi * n) by (nonlinear_arith)
                    requires
                        n == base * pm,
                ;
                proof {
                    lemma_power_positive(1000, k);
                }
                if self.saturated {
                    assert(mi * n >= (u64::MAX + 1) * (1000 * d)) by (nonlinear_arith)
                        requires
                            n >= (u64::MAX + 1) * d,
                            mi >= 1000,
                            d > 0,
                    ;
                    self.attempt = Ghost(k + 1);
                    return;
                }
                let m: u64 = multiplier_milli as u64;
                let mut out: Vec<u32> = Vec::new();
                let mut carry: u64 = 0;
                let mut i: usize = 0;
                let len = self.fraction.len();
                assert(self.fraction@.subrange(0, 0) =~= Seq::<u32>::empty());
                assert(out@ =~= Seq::<u32>::empty());
                assert(base1000_value(Seq::<u32>::empty()) == 0);
                while i < len
                    invariant
                        len == self.fraction@.len(),
                        i <= len,
                        out@.len() == i,
                        m == mi,
                        m <= u32::MAX,
                        carry <= m,
                        forall|j: int| 0 <= j < self.fraction@.len() ==> #[trigger] self.fraction@[j] < 1000,
                        forall|j: int| 0 <= j < out@.len() ==> #[trigger] out@[j] < 1000,
                        base1000_value(out@) + carry * power(1000, i as nat) == m * base1000_value(
                            self.fraction@.subrange(0, i as int),
                        ),
                    decreases len - i,
                {
                    let x: u64 = self.fraction[i] as u64;
                    assert(x < 1000);
                    assert(x * m + carry <= 1000 * (u32::MAX as int)) by (nonlinear_arith)
                        requires
                            x < 1000,
                            m <= u32::MAX,
                            carry <= m,
                    ;
                    let t: u64 = x * m + carry;
                    let digit: u64 = t % 1000;
                    let next_carry: u64 = t / 1000;
                    let ghost before = out@;
                    let ghost p = power(1000, i as nat) as int;
                    let ghost prefix = self.fraction@.subrange(0, i as int);
                    let ghost longer = self.fraction@.subrange(0, i + 1);
                    out.push(digit as u32);
                    assert(out@.drop_last() =~= before);
                    assert(longer.drop_last() =~= prefix);
                    assert(power(1000, (i + 1) as nat) == 1000 * p);
                    assert(base1000_value(out@) == base1000_value(before) + digit * p);
                    assert(base1000_value(longer) == base1000_value(prefix) + x * p);
                    assert(next_carry <= m) by (nonlinear_arith)
                        requires
                            next_carry == t / 1000,
                            t == x * m + carry,
                            x < 1000,
                            carry <= m,
                    ;
                    assert(base1000_value(out@) + next_carry * (1000 * p) == m * base1000_value(longer))
                        by (nonlinear_arith)
                        requires
                            base1000_value(out@) == base1000_value(before) + digit * p,
                            base1000_value(longer) == base1000_value(prefix) + x * p,
                            base1000_value(before) + carry * p == m * base1000_value(prefix),
                            t == x * m + carry,
                            t == 1000 * next_carry + digit,
                    ;
                    carry = next_carry;
                    i = i + 1;
                }
                assert(self.fraction@.subrange(0, len as int) =~= self.fraction@);
                let ghost f = base1000_value(self.fraction@) as int;
                let ghost o = base1000_value(out@) as int;
                assert(self.whole * m + carry <= (u64::MAX as int + 1) * (u32::MAX as int)) by (nonlinear_arith)
                    requires
                        self.whole <= u64::MAX,
                        m <= u32::MAX,
                        carry <= m,
                ;
                let x: u128 = self.whole as u128 * m as u128 + carry as u128;
                let q: u128 = x / 1000;
                let c: u128 = x % 1000;
                // The next value is q + (c · 1000^k + o) / 1000^(k+1).
                assert(mi * n == q * (1000 * d) + (c * d + o)) by (nonlinear_arith)
                    requires
                        n == self.whole * d + f,
                        o + carry * d == m * f,
                        x == self.whole * m + carry,
                        x == 1000 * q + c,
                        m == mi,
                ;
                if q > u64::MAX as u128 {
                    assert(mi >= 1000) by (nonlinear_arith)
                        requires
                            x == self.whole * m + carry,
                            self.whole <= u64::MAX,
                            carry <= m,
                            x == 1000 * q + c,
                            0 <= c,
                            q >= u64::MAX + 1,
                            m == mi,
                    ;
                    assert(mi * n >= (u64::MAX + 1) * (1000 * d)) by (nonlinear_arith)
                        requires
                            mi * n == q * (1000 * d) + (c * d + o),
                            q >= u64::MAX + 1,
                            c >= 0,
                            o >= 0,
                            d > 0,
                    ;
                    self.saturated = true;
                    self.fraction = Vec::new();
                } else {
                    let ghost before = out@;
                    out.push(c as u32);
                    assert(out@.drop_last() =~= before);
                    assert(base1000_value(out@) == o + c * d);
                    self.whole = q as u64;
                    self.fraction = out;
                }
                self.attempt = Ghost(k + 1);
            },
        }
    }
}

/// Configuration of a coordinator.
#[derive(Debug, Clone)]
pub struct Config<ProcessorId> {
    /// The deduplication scope of this processor
    pub processor_id: ProcessorId,
    /// How long a running record is considered authoritative
    pub max_processing_time: Duration,
    /// Time to live of completed records; `None` keeps them indefinitely
    pub ttl: Option<Duration>,
    /// How to wait on a peer that is still running
    pub poll_strategy: PollStrategy,
}

impl<ProcessorId> Config<ProcessorId> {
    pub fn new(
        processor_id: ProcessorId,
        max_processing_time: Duration,
        ttl: Option<Duration>,
        poll_strategy: PollStrategy,
    ) -> (r: Self)
        ensures
            r.processor_id == processor_id,
            r.max_processing_time == max_processing_time,
            r.ttl == ttl,
            r.poll_strategy == poll_strategy,
    {
        Config { processor_id, max_processing_time, ttl, poll_strategy }
    }
}

/// What a runner needs to record its result: the key it claimed and the time
/// to live of the completed record.
#[derive(Debug, Clone)]
pub struct Completion<Id, ProcessorId> {
    pub id: Id,
    pub processor_id: ProcessorId,
    pub ttl: Option<Duration>,
}

impl<Id, ProcessorId> Completion<Id, ProcessorId> {
    pub open spec fn expiration_spec(self, now: Timestamp) -> Option<Expiration> {
        match self.ttl {
            Some(ttl) => Some(Expiration { instant: now.saturating_add_spec(ttl) }),
            None => None,
        }
    }

    /// The expiration of a record completed at `now`.
    pub fn expiration_at(&self, now: Timestamp) -> (r: Option<Expiration>)
        ensures
            r == self.expiration_spec(now),
    {
        match self.ttl {
            Some(ttl) => Some(Expiration::from_duration_at(now, ttl)),
            None => None,
        }
    }
}

/// The outcome of attempting to start processing a signal.
#[derive(Debug, Clone)]
pub enum Outcome<Id, ProcessorId, A> {
    /// This caller runs the effect, then records its result through `complete_process`
    New { complete_process: Completion<Id, ProcessorId> },
    /// The effect already ran; this is its memoized result
    Duplicate { value: A },
}

/// The classifier is a pure function of a record's timestamps and memoized
/// value, the instant and the maximum processing time: records that agree on
/// those are in the same state, whatever their keys.
pub proof fn lemma_status_is_pure<Id, ProcessorId, A>(
    p: Process<Id, ProcessorId, A>,
    q: Process<Id, ProcessorId, A>,
    now: Timestamp,
    max_processing_time: Duration,
)
    requires
        p.started_at == q.started_at,
        p.completed_at == q.completed_at,
        p.expires_on == q.expires_on,
        p.memoized == q.memoized,
    ensures
        p.status_spec(now, max_processing_time) == q.status_spec(now, max_processing_time),
{
}

/// With a multiplier of exactly 1.0, backoff polls at a constant interval:
/// every delay is the base delay.
pub proof fn lemma_unit_multiplier_is_constant(base_delay: Duration, max_duration: Duration, attempt: nat)
    ensures
        (PollStrategy::Backoff { base_delay, multiplier_milli: MULTIPLIER_SCALE, max_duration }).delay_spec(
            attempt,
        ) == base_delay,
{
    let p = power(MULTIPLIER_SCALE as nat, attempt) as int;
    lemma_power_positive(MULTIPLIER_SCALE as nat, attempt);
    lemma_floor_is(base_delay.nanos * p, p, base_delay.nanos as int, 0);
}

} // verus!
