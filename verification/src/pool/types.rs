//! What a pool is configured with and what it records of its connections.
use rand::Rng as _;
use vstd::prelude::*;

verus! {

/// `rand::Rng::random_range` over `0..=max` with the generator of the thread:
/// any number of the range may come out.
#[verifier::external_body]
pub(crate) fn random_up_to(max: u64) -> (r: u64)
    ensures
        r <= max,
{
    rand::rng().random_range(0..=max)
}

/// In which order idle connections are handed out.
#[derive(Debug, Clone, Copy, PartialEq, Eq, Structural)]
pub enum QueueMode {
    /// The one that has been idle longest first.
    Fifo,
    /// The one that was used last first.
    Lifo,
}

/// How long the steps of a checkout may take, in milliseconds; `None` sets no
/// limit.
#[derive(Debug, Clone, Copy, PartialEq, Eq, Structural)]
pub struct Timeouts {
    pub wait: Option<u64>,
    pub create: Option<u64>,
    pub recycle: Option<u64>,
}

/// How a pool grows.
#[derive(Debug, Clone, Copy, PartialEq, Eq, Structural)]
pub struct ScalingConfig {
    /// How often a checkout looks for an idle connection before it waits.
    pub fast_retries: u32,
    /// How many connections are made at the same time.
    pub max_parallel_creates: u32,
}

/// The configuration of a pool.
#[derive(Debug, Clone, Copy, PartialEq, Eq, Structural)]
pub struct PoolConfig {
    pub max_size: usize,
    pub timeouts: Timeouts,
    pub queue_mode: QueueMode,
    pub scaling: ScalingConfig,
}

/// The configuration of a pool for which none is given.
pub open spec fn default_config() -> PoolConfig {
    PoolConfig {
        max_size: 16,
        timeouts: Timeouts { wait: None, create: None, recycle: None },
        queue_mode: QueueMode::Lifo,
        scaling: ScalingConfig { fast_retries: 10, max_parallel_creates: 2 },
    }
}

impl Default for PoolConfig {
    fn default() -> (r: Self)
        ensures
            r == default_config(),
    {
        PoolConfig {
            max_size: 16,
            timeouts: Timeouts { wait: None, create: None, recycle: None },
            queue_mode: QueueMode::Lifo,
            scaling: ScalingConfig { fast_retries: 10, max_parallel_creates: 2 },
        }
    }
}

/// What a pool reports of itself.
#[derive(Debug, Clone, Copy, PartialEq, Eq, Structural)]
pub struct Status {
    pub max_size: usize,
    pub size: usize,
    pub available: usize,
    pub waiting: usize,
}

/// What is recorded of one connection. Times are milliseconds of the pooler's
/// clock.
#[derive(Debug, Clone, Copy, PartialEq, Eq, Structural)]
pub struct Metrics {
    /// When the connection was made.
    pub created_ms: u64,
    /// When it last went back to the pool.
    pub recycled_ms: Option<u64>,
    /// How often it went back.
    pub recycle_count: u64,
    /// How old it may become; 0 sets no limit.
    pub lifetime_ms: u64,
    /// How long it may be idle; 0 sets no limit.
    pub idle_timeout_ms: u64,
    /// The reconnect epoch in which it was made.
    pub epoch: u32,
}

/// The time from `then` to `now`.
pub open spec fn elapsed(then: u64, now: u64) -> u64 {
    if now >= then {
        (now - then) as u64
    } else {
        0
    }
}

/// A fifth of a period, by which it may vary.
pub open spec fn jitter_of(period: u64) -> u64 {
    period / 5
}

/// A period moved by up to a fifth, where `dice` runs from 0 to twice that
/// fifth.
pub open spec fn jittered(period: u64, dice: u64) -> u64 {
    let moved = period - jitter_of(period) + dice;
    if moved > u64::MAX {
        u64::MAX
    } else {
        moved as u64
    }
}

/// Moves a period by up to a fifth.
pub fn apply_jitter(period: u64, dice: u64) -> (r: u64)
    requires
        dice <= 2 * jitter_of(period),
    ensures
        r == jittered(period, dice),
        period - jitter_of(period) <= r <= period + jitter_of(period),
{
    let low: u64 = period - period / 5;
    if dice > u64::MAX - low {
        u64::MAX
    } else {
        low + dice
    }
}

/// A short period is not moved at all, and no period becomes another kind of
/// limit: none stays none.
pub proof fn jitter_keeps_limits(period: u64, dice: u64)
    requires
        dice <= 2 * jitter_of(period),
    ensures
        period < 5 ==> jittered(period, dice) == period,
        (jittered(period, dice) == 0) == (period == 0),
{
}

impl Metrics {
    /// The record of a connection that was made at `now_ms`. So that not all
    /// connections of a pool end at once, its periods are moved by chance.
    pub fn new(lifetime_ms: u64, idle_timeout_ms: u64, epoch: u32, now_ms: u64) -> (m: Metrics)
        ensures
            m.created_ms == now_ms,
            m.recycled_ms.is_none(),
            m.recycle_count == 0,
            m.epoch == epoch,
            lifetime_ms - jitter_of(lifetime_ms) <= m.lifetime_ms <= lifetime_ms + jitter_of(
                lifetime_ms,
            ),
            idle_timeout_ms - jitter_of(idle_timeout_ms) <= m.idle_timeout_ms <= idle_timeout_ms
                + jitter_of(idle_timeout_ms),
    {
        let a: u64 = random_up_to(lifetime_ms / 5 * 2);
        let b: u64 = random_up_to(idle_timeout_ms / 5 * 2);
        Metrics {
            created_ms: now_ms,
            recycled_ms: None,
            recycle_count: 0,
            lifetime_ms: apply_jitter(lifetime_ms, a),
            idle_timeout_ms: apply_jitter(idle_timeout_ms, b),
            epoch,
        }
    }

    /// The age of the connection.
    pub fn age(&self, now_ms: u64) -> (r: u64)
        ensures
            r == elapsed(self.created_ms, now_ms),
    {
        if now_ms >= self.created_ms {
            now_ms - self.created_ms
        } else {
            0
        }
    }

    /// The time since the connection was last used.
    pub fn last_used(&self, now_ms: u64) -> (r: u64)
        ensures
            r == idle_time(*self, now_ms),
    {
        let since: u64 = match self.recycled_ms {
            Some(t) => t,
            None => self.created_ms,
        };
        if now_ms >= since {
            now_ms - since
        } else {
            0
        }
    }
}

/// The time since a connection was last used.
pub open spec fn idle_time(m: Metrics, now_ms: u64) -> u64 {
    match m.recycled_ms {
        Some(t) => elapsed(t, now_ms),
        None => elapsed(m.created_ms, now_ms),
    }
}

/// Time does not run backwards: from a later time to an earlier one nothing has passed.
pub proof fn time_only_passes(then: u64, now: u64, later: u64)
    ensures
        now >= then ==> elapsed(then, now) == now - then,
        now < then ==> elapsed(then, now) == 0,
        now <= later ==> elapsed(then, now) <= elapsed(then, later),
{
}

/// A connection is idle since it came back, and one that never came back since it was
/// made.
pub proof fn idle_since_the_last_use(m: Metrics, now_ms: u64)
    ensures
        m.recycled_ms matches Some(t) ==> (now_ms >= t ==> idle_time(m, now_ms) == now_ms - t),
        m.recycled_ms.is_none() && now_ms >= m.created_ms ==> idle_time(m, now_ms) == now_ms
            - m.created_ms,
{
}

/// A period is moved by no more than a fifth, in either direction, and every period
/// within that is reached.
pub proof fn jitter_moves_by_a_fifth(period: u64, dice: u64)
    requires
        dice <= 2 * (period / 5),
    ensures
        5 * jittered(period, dice) >= 4 * period,
        5 * jittered(period, dice) <= 6 * period,
        jittered(period, 0) == period - period / 5,
        period + period / 5 <= u64::MAX ==> jittered(period, (2 * (period / 5)) as u64) == period
            + period / 5,
{
}

} // verus!
