//! The connections of one pool: who holds them, who waits for them, and how
//! many there may be.
use std::collections::VecDeque;
use vstd::prelude::*;
use crate::pool::pool_coordinator::{CoordinatorPermit, PoolCoordinator};
use crate::pool::types::{random_up_to, Metrics, PoolConfig, QueueMode, Status, Timeouts};
use crate::pool::server_pool::ServerPool;
use crate::pool::startup_resolver::EffectiveParameter;
use crate::server::server_backend::Server;
use crate::string_map::StringMap;
#[allow(unused_imports)]
use crate::pool::server_pool;
#[allow(unused_imports)]
use crate::pool::startup_resolver;
#[allow(unused_imports)]
use crate::string_map;
#[allow(unused_imports)]
use crate::pool::types;

verus! {

/// How often a checkout tries for a permit before it queues.
pub const MAX_FAST_RETRY: u32 = 10;

/// How long a checkout waits at the burst gate before it looks again.
pub const BURST_BACKOFF_MS: u64 = 5;

/// Connections with a shorter lifetime are not replaced ahead of their end.
pub const PRE_REPLACE_MIN_LIFETIME_MS: u64 = 60_000;

/// From this part of its lifetime on a connection is replaced ahead of its end.
pub const PRE_REPLACE_THRESHOLD_PCT: u64 = 95;

/// How many connections are replaced ahead of their end at the same time.
pub const MAX_CONCURRENT_PRE_REPLACEMENTS: usize = 3;

/// A checkout never waits longer than this for a connection to come back.
pub const ANTICIPATION_HARD_CAP_MS: u64 = 500;

/// How long it waits while nothing is known of the transactions.
pub const ANTICIPATION_COLD_START_MS: u64 = 100;

/// A checkout waits at least this long for a connection to come back.
pub const ANTICIPATION_MIN_BUDGET_MS: u64 = 5;

/// The time that is kept for making a connection.
pub const ANTICIPATION_CREATE_RESERVE_MS: u64 = 500;

/// How long a checkout without a time limit waits.
pub const ANTICIPATION_FALLBACK_BUDGET_MS: u64 = 100;

/// How long a checkout that has used up its time at the burst gate waits for a slot.
pub const BURST_GATE_EXHAUSTED_BACKOFF_MS: u64 = 50;

/// A checkout waits at least this long at the burst gate.
pub const BURST_GATE_MIN_BUDGET_MS: u64 = 20;

/// The time in which a connection should come back: twice the time of the
/// slowest transactions.
pub open spec fn anticipation_base(xact_p99_us: u64) -> u64 {
    if xact_p99_us == 0 {
        ANTICIPATION_COLD_START_MS
    } else if 2 * xact_p99_us > u64::MAX {
        (u64::MAX / 1000) as u64
    } else {
        (2 * xact_p99_us / 1000) as u64
    }
}

/// The time in which a connection should come back.
pub fn anticipation_base_ms(xact_p99_us: u64) -> (r: u64)
    ensures
        r == anticipation_base(xact_p99_us),
        r <= u64::MAX / 1000,
{
    if xact_p99_us == 0 {
        ANTICIPATION_COLD_START_MS
    } else if xact_p99_us > u64::MAX / 2 {
        u64::MAX / 1000
    } else {
        xact_p99_us * 2 / 1000
    }
}

/// By how much a budget may vary: a fifth, but at least one.
pub open spec fn budget_spread(base_ms: u64) -> u64 {
    if base_ms / 5 < 1 {
        1
    } else {
        base_ms / 5
    }
}

/// A budget moved by chance and kept between two bounds. `dice` runs from 0 to
/// twice the spread.
pub open spec fn budget(base_ms: u64, dice: u64, low: u64, high: u64) -> u64 {
    let spread = budget_spread(base_ms);
    let moved = (if base_ms >= spread {
        base_ms - spread
    } else {
        0
    }) + dice;
    (if moved < low {
        low as int
    } else if moved > high {
        high as int
    } else {
        moved
    }) as u64
}

/// A budget moved by `dice` and kept between two bounds.
pub fn budget_from(base_ms: u64, dice: u64, low: u64, high: u64) -> (r: u64)
    requires
        base_ms <= u64::MAX / 1000,
        dice <= 2 * budget_spread(base_ms),
        low <= high,
    ensures
        r == budget(base_ms, dice, low, high),
        low <= r <= high,
{
    let spread: u64 = if base_ms / 5 < 1 {
        1
    } else {
        base_ms / 5
    };
    let start: u64 = if base_ms >= spread {
        base_ms - spread
    } else {
        0
    };
    let moved: u64 = start + dice;
    if moved < low {
        low
    } else if moved > high {
        high
    } else {
        moved
    }
}

/// A budget for this base, moved by chance.
fn random_budget(base_ms: u64, low: u64, high: u64) -> (r: u64)
    requires
        base_ms <= u64::MAX / 1000,
        low <= high,
    ensures
        low <= r <= high,
        exists|dice: u64|
            dice <= 2 * budget_spread(base_ms) && r == #[trigger] budget(base_ms, dice, low, high),
{
    let spread: u64 = if base_ms / 5 < 1 {
        1
    } else {
        base_ms / 5
    };
    let dice: u64 = random_up_to(spread * 2);
    budget_from(base_ms, dice, low, high)
}

/// How long a checkout waits at the burst gate for a connection to come back, in
/// milliseconds.
pub fn burst_gate_budget(xact_p99_us: u64) -> (r: u64)
    ensures
        BURST_GATE_MIN_BUDGET_MS <= r <= ANTICIPATION_HARD_CAP_MS,
        exists|dice: u64|
            dice <= 2 * budget_spread(anticipation_base(xact_p99_us)) && r == #[trigger] budget(
                anticipation_base(xact_p99_us),
                dice,
                BURST_GATE_MIN_BUDGET_MS,
                ANTICIPATION_HARD_CAP_MS,
            ),
{
    random_budget(
        anticipation_base_ms(xact_p99_us),
        BURST_GATE_MIN_BUDGET_MS,
        ANTICIPATION_HARD_CAP_MS,
    )
}

/// How long a checkout waits for a connection to come back before it makes a
/// new one, in milliseconds.
pub fn anticipation_cap(xact_p99_us: u64) -> (r: u64)
    ensures
        ANTICIPATION_MIN_BUDGET_MS <= r <= ANTICIPATION_HARD_CAP_MS,
        exists|dice: u64|
            dice <= 2 * budget_spread(anticipation_base(xact_p99_us)) && r == #[trigger] budget(
                anticipation_base(xact_p99_us),
                dice,
                ANTICIPATION_MIN_BUDGET_MS,
                ANTICIPATION_HARD_CAP_MS,
            ),
{
    random_budget(
        anticipation_base_ms(xact_p99_us),
        ANTICIPATION_MIN_BUDGET_MS,
        ANTICIPATION_HARD_CAP_MS,
    )
}

/// The time that a checkout may spend on waiting: what is left of its limit
/// after the time for making a connection was put aside.
pub open spec fn anticipation_time(wait: Option<u64>, spent_ms: u64) -> u64 {
    match wait {
        Some(limit) => if limit > spent_ms + ANTICIPATION_CREATE_RESERVE_MS {
            (limit - spent_ms - ANTICIPATION_CREATE_RESERVE_MS) as u64
        } else {
            0
        },
        None => ANTICIPATION_FALLBACK_BUDGET_MS,
    }
}

/// The time that a checkout may spend on waiting.
pub fn anticipation_total(wait: Option<u64>, spent_ms: u64) -> (r: u64)
    ensures
        r == anticipation_time(wait, spent_ms),
{
    match wait {
        Some(limit) => {
            if limit > spent_ms && limit - spent_ms > ANTICIPATION_CREATE_RESERVE_MS {
                limit - spent_ms - ANTICIPATION_CREATE_RESERVE_MS
            } else {
                0
            }
        },
        None => ANTICIPATION_FALLBACK_BUDGET_MS,
    }
}

/// Takes a slot of a bounded counter. A counter at its limit is left as it is.
pub fn try_take_burst_slot(counter: &mut usize, max: usize) -> (r: bool)
    ensures
        r == (*old(counter) < max),
        *final(counter) == if r {
            (*old(counter) + 1) as usize
        } else {
            *old(counter)
        },
{
    if *counter < max {
        *counter = *counter + 1;
        true
    } else {
        false
    }
}

/// Gives a slot back.
pub fn release_burst_slot(counter: &mut usize)
    requires
        *old(counter) > 0,
    ensures
        *final(counter) == *old(counter) - 1,
{
    *counter = *counter - 1;
}

/// Counters of how checkouts went.
#[derive(Debug, Clone, Copy, PartialEq, Eq, Structural)]
pub struct ScalingStats {
    pub creates_started: u64,
    pub burst_gate_waits: u64,
    pub anticipation_wakes_notify: u64,
    pub anticipation_wakes_timeout: u64,
    pub create_fallback: u64,
    pub replenish_deferred: u64,
    pub burst_gate_budget_exhausted: u64,
    pub pre_replacements_triggered: u64,
    pub pre_replacements_skipped: u64,
}

/// A snapshot of the counters, for those who watch the pool.
#[derive(Debug, Clone, Copy, PartialEq, Eq, Structural)]
pub struct ScalingStatsSnapshot {
    pub creates_started: u64,
    pub burst_gate_waits: u64,
    pub burst_gate_budget_exhausted: u64,
    pub anticipation_wakes_notify: u64,
    pub anticipation_wakes_timeout: u64,
    pub create_fallback: u64,
    pub replenish_deferred: u64,
    /// How many connections are being made now.
    pub inflight_creates: usize,
    pub pre_replacements_triggered: u64,
    pub pre_replacements_skipped: u64,
}

/// A connection with what is recorded of it.
pub struct ObjectInner {
    pub obj: Server,
    pub metrics: Metrics,
    /// The leave to hold a connection of the database, where that is limited.
    pub coordinator_permit: Option<CoordinatorPermit>,
}

/// One who waits for a connection to be handed over.
#[derive(Debug, Clone, Copy, PartialEq, Eq, Structural)]
pub struct Waiter {
    pub id: u64,
    /// False once the waiter has given up.
    pub live: bool,
}

/// The numbers that a pool keeps.
#[derive(Debug, Clone, Copy, PartialEq, Eq, Structural)]
pub struct PoolCounters {
    /// Connections of the pool: idle, handed over, or held by clients.
    pub size: usize,
    pub max_size: usize,
    /// Checkouts that may still begin.
    pub permits: usize,
    /// No checkout may begin any more.
    pub closed: bool,
    /// Clients that hold or want a connection.
    pub users: usize,
    /// Connections that are being made.
    pub inflight_creates: usize,
    /// Connections that are being replaced ahead of their end.
    pub pre_replacements_in_flight: usize,
    /// The number for the next waiter.
    pub next_waiter: u64,
    pub stats: ScalingStats,
}

/// A pool of connections.
pub struct Pool {
    pub config: PoolConfig,
    pub counters: PoolCounters,
    /// Idle connections, the one that is handed out next first.
    pub idle: VecDeque<ObjectInner>,
    /// Those who wait for a connection, the oldest first.
    pub waiters: VecDeque<Waiter>,
    /// Connections that were handed over and not taken yet.
    pub mailbox: Vec<(u64, ObjectInner)>,
    pub setup: PoolSetup,
}

/// What a pool is for.
pub struct PoolSetup {
    pub server_pool: ServerPool,
    /// The database has a limit on its connections.
    pub limited: bool,
    pub pool_name: String,
    pub username: String,
}

/// An idle queue after a connection came back.
pub open spec fn idle_with(
    mode: QueueMode,
    idle: Seq<ObjectInner>,
    inner: ObjectInner,
) -> Seq<ObjectInner> {
    match mode {
        QueueMode::Fifo => idle.push(inner),
        QueueMode::Lifo => seq![inner] + idle,
    }
}

/// Puts a connection into the idle queue.
pub fn push_idle(mode: QueueMode, idle: &mut VecDeque<ObjectInner>, inner: ObjectInner)
    ensures
        final(idle)@ == idle_with(mode, old(idle)@, inner),
{
    match mode {
        QueueMode::Fifo => {
            idle.push_back(inner);
        },
        QueueMode::Lifo => {
            idle.push_front(inner);
        },
    }
}

/// The place of the oldest waiter who has not given up; the length if there is
/// none.
pub open spec fn first_live(waiters: Seq<Waiter>) -> int
    decreases waiters.len(),
{
    if waiters.len() == 0 {
        0
    } else if waiters[0].live {
        0
    } else {
        1 + first_live(waiters.skip(1))
    }
}

/// Where `first_live` lies.
pub proof fn first_live_bounds(waiters: Seq<Waiter>)
    ensures
        0 <= first_live(waiters) <= waiters.len(),
        first_live(waiters) < waiters.len() ==> waiters[first_live(waiters)].live,
    decreases waiters.len(),
{
    if waiters.len() > 0 && !waiters[0].live {
        first_live_bounds(waiters.skip(1));
    }
}

/// Takes the oldest waiter who has not given up; those before it are dropped.
fn pop_live(waiters: &mut VecDeque<Waiter>) -> (r: Option<u64>)
    ensures
        ({
            let k = first_live(old(waiters)@);
            if k < old(waiters)@.len() {
                r == Some(old(waiters)@[k].id) && final(waiters)@ == old(waiters)@.skip(k + 1)
            } else {
                r.is_none() && final(waiters)@.len() == 0
            }
        }),
{
    let ghost start = waiters@;
    let ghost mut gone: int = 0;
    assert(start.skip(0) =~= start);
    while waiters.len() > 0
        invariant
            0 <= gone <= start.len(),
            start == old(waiters)@,
            waiters@ == start.skip(gone),
            first_live(start) == gone + first_live(start.skip(gone)),
        decreases waiters@.len(),
    {
        let ghost here = waiters@;
        proof {
            first_live_bounds(start);
        }
        match waiters.pop_front() {
            Some(w) => {
                assert(here[0] == w);
                assert(here.skip(1) =~= start.skip(gone + 1));
                assert(waiters@ =~= start.skip(gone + 1));
                if w.live {
                    return Some(w.id);
                }
                proof {
                    gone = gone + 1;
                }
            },
            None => {},
        }
    }
    proof {
        first_live_bounds(start);
    }
    None
}

impl Pool {
    /// Idle connections and those that were handed over are connections of the
    /// pool.
    pub open spec fn wf(&self) -> bool {
        self.idle@.len() + self.mailbox@.len() <= self.counters.size
    }

    /// The connections that clients hold.
    pub open spec fn held(&self) -> int {
        self.counters.size - self.idle@.len() - self.mailbox@.len()
    }
}

/// How a connection came back.
pub enum Returned {
    /// It was handed over to a waiter.
    HandedOver(u64),
    /// It is idle; those who wait for the limit of the database may look.
    Idle,
    /// It cannot be used again and has to be closed.
    Evicted(ObjectInner),
}

/// The record of a connection that goes back to the pool.
pub open spec fn recycled(m: Metrics, now_ms: u64) -> Metrics {
    Metrics {
        recycled_ms: Some(now_ms),
        recycle_count: m.recycle_count.wrapping_add(1),
        ..m
    }
}

/// A connection that must not reach another client: it was given up, or the
/// body of a large message is still to come.
pub open spec fn must_evict(obj: Server) -> bool {
    obj@.state.bad || obj@.state.pending_large_message.is_some()
}

impl Pool {
    /// Puts a usable connection back: the oldest waiter gets it, otherwise it
    /// becomes idle. Either way the client that held it gives its permit back.
    pub fn return_object(&mut self, inner: ObjectInner) -> (r: Returned)
        requires
            old(self).counters.permits < usize::MAX,
        ensures
            final(self).config == old(self).config,
            final(self).setup == old(self).setup,
            final(self).counters == (PoolCounters {
                permits: (old(self).counters.permits + 1) as usize,
                ..old(self).counters
            }),
            ({
                let k = first_live(old(self).waiters@);
                if k < old(self).waiters@.len() {
                    let id = old(self).waiters@[k].id;
                    &&& r == Returned::HandedOver(id)
                    &&& final(self).waiters@ == old(self).waiters@.skip(k + 1)
                    &&& final(self).mailbox@ == old(self).mailbox@.push((id, inner))
                    &&& final(self).idle@ == old(self).idle@
                } else {
                    &&& r == Returned::Idle
                    &&& final(self).waiters@.len() == 0
                    &&& final(self).mailbox@ == old(self).mailbox@
                    &&& final(self).idle@ == idle_with(
                        old(self).config.queue_mode,
                        old(self).idle@,
                        inner,
                    )
                }
            }),
    {
        self.counters.permits = self.counters.permits + 1;
        match pop_live(&mut self.waiters) {
            Some(id) => {
                self.mailbox.push((id, inner));
                Returned::HandedOver(id)
            },
            None => {
                push_idle(self.config.queue_mode, &mut self.idle, inner);
                Returned::Idle
            },
        }
    }

    /// Takes a connection back from a client, who no longer counts as a user of
    /// the pool. A connection that must not reach another client leaves the pool
    /// at once.
    pub fn check_in(&mut self, inner: ObjectInner, now_ms: u64) -> (r: Returned)
        requires
            old(self).wf(),
            old(self).held() > 0,
            old(self).counters.users > 0,
            old(self).counters.permits < usize::MAX,
        ensures
            final(self).wf(),
            final(self).held() == old(self).held() - 1,
            final(self).counters.permits == old(self).counters.permits + 1,
            final(self).config == old(self).config,
            final(self).setup == old(self).setup,
            if must_evict(inner.obj) {
                &&& r == Returned::Evicted(inner)
                &&& final(self).counters == (PoolCounters {
                    size: (old(self).counters.size - 1) as usize,
                    permits: (old(self).counters.permits + 1) as usize,
                    users: (old(self).counters.users - 1) as usize,
                    ..old(self).counters
                })
                &&& final(self).idle@ == old(self).idle@
                &&& final(self).waiters@ == old(self).waiters@
                &&& final(self).mailbox@ == old(self).mailbox@
            } else {
                let kept = ObjectInner { metrics: recycled(inner.metrics, now_ms), ..inner };
                let k = first_live(old(self).waiters@);
                &&& final(self).counters == (PoolCounters {
                    permits: (old(self).counters.permits + 1) as usize,
                    users: (old(self).counters.users - 1) as usize,
                    ..old(self).counters
                })
                &&& if k < old(self).waiters@.len() {
                    let id = old(self).waiters@[k].id;
                    &&& r == Returned::HandedOver(id)
                    &&& final(self).waiters@ == old(self).waiters@.skip(k + 1)
                    &&& final(self).mailbox@ == old(self).mailbox@.push((id, kept))
                    &&& final(self).idle@ == old(self).idle@
                } else {
                    &&& r == Returned::Idle
                    &&& final(self).waiters@.len() == 0
                    &&& final(self).mailbox@ == old(self).mailbox@
                    &&& final(self).idle@ == idle_with(
                        old(self).config.queue_mode,
                        old(self).idle@,
                        kept,
                    )
                }
            },
            taken_back(*old(self), *final(self), inner, now_ms, r),
    {
        self.counters.users = self.counters.users - 1;
        if inner.obj.is_bad() || inner.obj.state.pending_large_message.is_some() {
            self.counters.size = self.counters.size - 1;
            self.counters.permits = self.counters.permits + 1;
            return Returned::Evicted(inner);
        }
        let metrics = Metrics {
            recycled_ms: Some(now_ms),
            recycle_count: inner.metrics.recycle_count.wrapping_add(1),
            ..inner.metrics
        };
        let kept = ObjectInner {
            obj: inner.obj,
            metrics,
            coordinator_permit: inner.coordinator_permit,
        };
        self.return_object(kept)
    }
}

/// The connections whose flag is `wanted`, in their order.
pub open spec fn picked(s: Seq<ObjectInner>, flags: Seq<bool>, wanted: bool) -> Seq<ObjectInner>
    decreases s.len(),
{
    if s.len() == 0 {
        Seq::empty()
    } else if flags[s.len() - 1] == wanted {
        picked(s.drop_last(), flags, wanted).push(s.last())
    } else {
        picked(s.drop_last(), flags, wanted)
    }
}

/// Every connection is picked one way or the other.
pub proof fn picked_len(s: Seq<ObjectInner>, flags: Seq<bool>)
    ensures
        picked(s, flags, true).len() + picked(s, flags, false).len() == s.len(),
    decreases s.len(),
{
    if s.len() > 0 {
        picked_len(s.drop_last(), flags);
    }
}

/// Takes the flagged connections out of an idle queue; the others keep their
/// order.
fn take_flagged(idle: &mut VecDeque<ObjectInner>, flags: &Vec<bool>) -> (r: Vec<ObjectInner>)
    requires
        flags@.len() == old(idle)@.len(),
    ensures
        r@ == picked(old(idle)@, flags@, true),
        final(idle)@ == picked(old(idle)@, flags@, false),
        r@.len() + final(idle)@.len() == old(idle)@.len(),
{
    let ghost start = idle@;
    let mut keep: VecDeque<ObjectInner> = VecDeque::new();
    let mut out: Vec<ObjectInner> = Vec::new();
    let mut rest: VecDeque<ObjectInner> = VecDeque::new();
    std::mem::swap(&mut rest, idle);
    let n: usize = flags.len();
    let mut i: usize = 0;
    assert(start.take(0) =~= Seq::<ObjectInner>::empty());
    assert(start.skip(0) =~= start);
    while i < n
        invariant
            i <= n == flags@.len() == start.len(),
            rest@ == start.skip(i as int),
            out@ == picked(start.take(i as int), flags@, true),
            keep@ == picked(start.take(i as int), flags@, false),
        decreases n - i,
    {
        match rest.pop_front() {
            Some(x) => {
                proof {
                    assert(start.take(i + 1).drop_last() =~= start.take(i as int));
                    assert(start.take(i + 1).last() == start[i as int]);
                    assert(start.skip(i as int).skip(1) =~= start.skip(i + 1));
                    assert(rest@ =~= start.skip(i + 1));
                    assert(x == start[i as int]);
                }
                if flags[i] {
                    out.push(x);
                } else {
                    keep.push_back(x);
                }
            },
            None => {
                assert(false);
            },
        }
        i = i + 1;
    }
    proof {
        assert(start.take(n as int) =~= start);
        picked_len(start, flags@);
    }
    std::mem::swap(&mut keep, idle);
    out
}

/// The ages of connections.
pub open spec fn ages(s: Seq<ObjectInner>, now_ms: u64) -> Seq<u64> {
    Seq::new(s.len(), |i: int| types::elapsed(s[i].metrics.created_ms, now_ms))
}

/// The connection at `j` goes before the one at `i`: it is older, or as old and
/// further to the front.
pub open spec fn goes_before(a: Seq<u64>, j: int, i: int) -> bool {
    a[j] > a[i] || (a[j] == a[i] && j < i)
}

/// How many of the first `n` candidates go before the one at `i`.
pub open spec fn rank(a: Seq<u64>, candidates: Seq<bool>, i: int, n: nat) -> nat
    decreases n,
{
    if n == 0 {
        0
    } else {
        rank(a, candidates, i, (n - 1) as nat) + if candidates[n - 1] && goes_before(a, n - 1, i) {
            1nat
        } else {
            0nat
        }
    }
}

/// The candidates that are closed: all of them if `max` is 0, otherwise the
/// oldest `max`.
pub open spec fn oldest_first(a: Seq<u64>, candidates: Seq<bool>, max: nat) -> Seq<bool> {
    Seq::new(
        candidates.len(),
        |i: int| candidates[i] && (max == 0 || rank(a, candidates, i, candidates.len()) < max),
    )
}

/// How many candidates go before the one at `i`.
fn rank_of(a: &Vec<u64>, candidates: &Vec<bool>, i: usize) -> (r: usize)
    requires
        a@.len() == candidates@.len(),
        i < a@.len(),
    ensures
        r == rank(a@, candidates@, i as int, candidates@.len()),
{
    let mut r: usize = 0;
    let mut j: usize = 0;
    while j < candidates.len()
        invariant
            j <= candidates@.len() == a@.len(),
            i < a@.len(),
            r <= j,
            r == rank(a@, candidates@, i as int, j as nat),
        decreases candidates@.len() - j,
    {
        if candidates[j] && (a[j] > a[i] || (a[j] == a[i] && j < i)) {
            r = r + 1;
        }
        j = j + 1;
    }
    r
}

/// Picks the oldest `max` candidates, or all of them if `max` is 0.
fn pick_oldest(a: &Vec<u64>, candidates: &Vec<bool>, max: usize) -> (r: Vec<bool>)
    requires
        a@.len() == candidates@.len(),
    ensures
        r@ == oldest_first(a@, candidates@, max as nat),
{
    let mut r: Vec<bool> = Vec::new();
    let mut i: usize = 0;
    while i < candidates.len()
        invariant
            i <= candidates@.len() == a@.len(),
            r@ == oldest_first(a@, candidates@, max as nat).take(i as int),
        decreases candidates@.len() - i,
    {
        let close = candidates[i] && (max == 0 || rank_of(a, candidates, i) < max);
        r.push(close);
        i = i + 1;
        assert(r@ =~= oldest_first(a@, candidates@, max as nat).take(i as int));
    }
    assert(r@ =~= oldest_first(a@, candidates@, max as nat));
    r
}

/// `flags` is what `f` said of each connection.
pub open spec fn said_of<F: Fn(&Server, &Metrics) -> bool>(
    f: F,
    s: Seq<ObjectInner>,
    flags: Seq<bool>,
) -> bool {
    &&& flags.len() == s.len()
    &&& forall|i: int|
        0 <= i < s.len() ==> call_ensures(
            f,
            (&(#[trigger] s[i]).obj, &s[i].metrics),
            flags[i],
        )
}

/// Asks `f` of each connection.
fn ask_of_each<F: Fn(&Server, &Metrics) -> bool>(
    idle: &VecDeque<ObjectInner>,
    f: &F,
) -> (flags: Vec<bool>)
    requires
        forall|i: int|
            0 <= i < idle@.len() ==> call_requires(
                *f,
                (&(#[trigger] idle@[i]).obj, &idle@[i].metrics),
            ),
    ensures
        said_of(*f, idle@, flags@),
{
    let mut flags: Vec<bool> = Vec::new();
    let mut i: usize = 0;
    while i < idle.len()
        invariant
            i <= idle@.len(),
            flags@.len() == i,
            forall|k: int|
                0 <= k < idle@.len() ==> call_requires(
                    *f,
                    (&(#[trigger] idle@[k]).obj, &idle@[k].metrics),
                ),
            forall|k: int|
                0 <= k < i ==> call_ensures(
                    *f,
                    (&(#[trigger] idle@[k]).obj, &idle@[k].metrics),
                    flags@[k],
                ),
        decreases idle@.len() - i,
    {
        let inner = &idle[i];
        let b = f(&inner.obj, &inner.metrics);
        flags.push(b);
        i = i + 1;
    }
    flags
}

/// The ages of all connections in a queue.
fn ages_of(idle: &VecDeque<ObjectInner>, now_ms: u64) -> (r: Vec<u64>)
    ensures
        r@ == ages(idle@, now_ms),
{
    let mut r: Vec<u64> = Vec::new();
    let mut i: usize = 0;
    while i < idle.len()
        invariant
            i <= idle@.len(),
            r@ == ages(idle@, now_ms).take(i as int),
        decreases idle@.len() - i,
    {
        r.push(idle[i].metrics.age(now_ms));
        i = i + 1;
        assert(r@ =~= ages(idle@, now_ms).take(i as int));
    }
    assert(r@ =~= ages(idle@, now_ms));
    r
}

/// `after` is `before` without the flagged idle connections, which are `closed`.
pub open spec fn closed_flagged(
    before: Pool,
    after: Pool,
    closed: Seq<ObjectInner>,
    flags: Seq<bool>,
) -> bool {
    &&& after.config == before.config
    &&& after.waiters@ == before.waiters@
    &&& after.mailbox@ == before.mailbox@
    &&& after.setup == before.setup
    &&& closed == picked(before.idle@, flags, true)
    &&& after.idle@ == picked(before.idle@, flags, false)
    &&& after.counters == PoolCounters {
        size: (before.counters.size - closed.len()) as usize,
        ..before.counters
    }
    &&& closed.len() <= before.idle@.len()
    &&& after.wf()
    &&& after.held() == before.held()
}

impl Pool {
    /// Closes the flagged idle connections.
    fn close_flagged(&mut self, flags: &Vec<bool>) -> (closed: Vec<ObjectInner>)
        requires
            old(self).wf(),
            flags@.len() == old(self).idle@.len(),
        ensures
            closed_flagged(*old(self), *final(self), closed@, flags@),
    {
        let closed = take_flagged(&mut self.idle, flags);
        self.counters.size = self.counters.size - closed.len();
        closed
    }

    /// Keeps only the idle connections of which `f` holds. The others are
    /// returned, for their ends to be closed.
    pub fn retain<F: Fn(&Server, &Metrics) -> bool>(&mut self, f: F) -> (closed: Vec<ObjectInner>)
        requires
            old(self).wf(),
            forall|i: int|
                0 <= i < old(self).idle@.len() ==> call_requires(
                    f,
                    (&(#[trigger] old(self).idle@[i]).obj, &old(self).idle@[i].metrics),
                ),
        ensures
            exists|keep: Seq<bool>|
                #![trigger said_of(f, old(self).idle@, keep)]
                said_of(f, old(self).idle@, keep) && closed_flagged(
                    *old(self),
                    *final(self),
                    closed@,
                    negated(keep),
                ),
    {
        let keep = ask_of_each(&self.idle, &f);
        let mut flags: Vec<bool> = Vec::new();
        let mut i: usize = 0;
        while i < keep.len()
            invariant
                i <= keep@.len(),
                flags@ == negated(keep@).take(i as int),
            decreases keep@.len() - i,
        {
            flags.push(!keep[i]);
            i = i + 1;
            assert(flags@ =~= negated(keep@).take(i as int));
        }
        assert(flags@ =~= negated(keep@));
        self.close_flagged(&flags)
    }

    /// Closes idle connections of which `should_close` holds: all of them if
    /// `max_to_close` is 0, otherwise that many of them, the oldest first, or
    /// as many as there are. They are returned, for their ends to be closed.
    pub fn retain_oldest_first<F: Fn(&Server, &Metrics) -> bool>(
        &mut self,
        should_close: F,
        max_to_close: usize,
        now_ms: u64,
    ) -> (closed: Vec<ObjectInner>)
        requires
            old(self).wf(),
            forall|i: int|
                0 <= i < old(self).idle@.len() ==> call_requires(
                    should_close,
                    (&(#[trigger] old(self).idle@[i]).obj, &old(self).idle@[i].metrics),
                ),
        ensures
            exists|candidates: Seq<bool>|
                #![trigger said_of(should_close, old(self).idle@, candidates)]
                said_of(should_close, old(self).idle@, candidates) && closed_flagged(
                    *old(self),
                    *final(self),
                    closed@,
                    oldest_first(ages(old(self).idle@, now_ms), candidates, max_to_close as nat),
                ) && closed@.len() == up_to(
                    set_count(candidates, old(self).idle@.len()),
                    max_to_close as nat,
                ),
    {
        let candidates = ask_of_each(&self.idle, &should_close);
        let a = ages_of(&self.idle, now_ms);
        let flags = pick_oldest(&a, &candidates, max_to_close);
        proof {
            picked_is_set_count(self.idle@, flags@);
            oldest_are_closed_up_to_the_limit(a@, candidates@, max_to_close as nat);
        }
        self.close_flagged(&flags)
    }
}

/// Each flag turned round.
pub open spec fn negated(flags: Seq<bool>) -> Seq<bool> {
    Seq::new(flags.len(), |i: int| !flags[i])
}

/// `n`, but no more than `max`, where 0 stands for no limit.
pub open spec fn up_to(n: nat, max: nat) -> nat {
    if max == 0 || n <= max {
        n
    } else {
        max
    }
}

/// The number of set flags among the first `n`.
pub open spec fn set_count(flags: Seq<bool>, n: nat) -> nat
    decreases n,
{
    if n == 0 {
        0
    } else {
        set_count(flags, (n - 1) as nat) + if flags[n - 1] {
            1nat
        } else {
            0nat
        }
    }
}

/// As many connections are picked as flags are set.
pub proof fn picked_is_set_count(s: Seq<ObjectInner>, flags: Seq<bool>)
    ensures
        picked(s, flags, true).len() == set_count(flags, s.len()),
    decreases s.len(),
{
    if s.len() > 0 {
        picked_is_set_count(s.drop_last(), flags);
    }
}

/// One of the flagged connections goes behind all the others.
proof fn last_of_flagged(a: Seq<u64>, flags: Seq<bool>, n: nat) -> (m: int)
    requires
        n <= flags.len(),
        set_count(flags, n) > 0,
    ensures
        0 <= m < n,
        flags[m],
        forall|j: int| 0 <= j < n && flags[j] && j != m ==> goes_before(a, j, m),
    decreases n,
{
    let k = (n - 1) as nat;
    if set_count(flags, k) == 0 {
        none_set(flags, k);
        n - 1
    } else {
        let m = last_of_flagged(a, flags, k);
        if flags[n - 1] && goes_before(a, m, n - 1) {
            n - 1
        } else {
            m
        }
    }
}

/// Where no flag is counted, none is set.
proof fn none_set(flags: Seq<bool>, n: nat)
    requires
        set_count(flags, n) == 0,
    ensures
        forall|j: int| 0 <= j < n ==> !flags[j],
    decreases n,
{
    if n > 0 {
        none_set(flags, (n - 1) as nat);
    }
}

/// The connection that goes behind all the flagged ones has all of them before
/// it.
proof fn rank_counts_flagged(a: Seq<u64>, candidates: Seq<bool>, flags: Seq<bool>, m: int, n: nat)
    requires
        n <= flags.len() == candidates.len(),
        forall|j: int| 0 <= j < flags.len() && flags[j] ==> candidates[j],
        forall|j: int| 0 <= j < flags.len() && flags[j] && j != m ==> goes_before(a, j, m),
    ensures
        rank(a, candidates, m, n) + (if 0 <= m < n {
            1nat
        } else {
            0nat
        }) >= set_count(flags, n),
    decreases n,
{
    if n > 0 {
        rank_counts_flagged(a, candidates, flags, m, (n - 1) as nat);
    }
}

/// What goes before a connection also goes before all that come after it.
proof fn rank_is_monotonic(a: Seq<u64>, candidates: Seq<bool>, j: int, i: int, n: nat)
    requires
        n <= candidates.len(),
        0 <= j < candidates.len(),
        candidates[j],
        goes_before(a, j, i),
    ensures
        rank(a, candidates, j, n) + (if j < n {
            1nat
        } else {
            0nat
        }) <= rank(a, candidates, i, n),
    decreases n,
{
    if n > 0 {
        rank_is_monotonic(a, candidates, j, i, (n - 1) as nat);
    }
}

/// One of the flagged connections goes before all the others.
proof fn first_of_flagged(a: Seq<u64>, flags: Seq<bool>, n: nat) -> (m: int)
    requires
        n <= flags.len(),
        set_count(flags, n) > 0,
    ensures
        0 <= m < n,
        flags[m],
        forall|j: int| 0 <= j < n && flags[j] && j != m ==> goes_before(a, m, j),
    decreases n,
{
    let k = (n - 1) as nat;
    if set_count(flags, k) == 0 {
        none_set(flags, k);
        n - 1
    } else {
        let m = first_of_flagged(a, flags, k);
        if flags[n - 1] && goes_before(a, n - 1, m) {
            n - 1
        } else {
            m
        }
    }
}

/// Where all that goes before a connection is flagged, no more go before it than
/// are flagged.
proof fn rank_is_within_flagged(
    a: Seq<u64>,
    candidates: Seq<bool>,
    flags: Seq<bool>,
    m: int,
    n: nat,
)
    requires
        n <= flags.len() == candidates.len(),
        forall|j: int| 0 <= j < n && candidates[j] && goes_before(a, j, m) ==> flags[j],
    ensures
        rank(a, candidates, m, n) <= set_count(flags, n),
    decreases n,
{
    if n > 0 {
        rank_is_within_flagged(a, candidates, flags, m, (n - 1) as nat);
    }
}

/// The candidates are those that are flagged and those that are left.
proof fn counts_add_up(candidates: Seq<bool>, flags: Seq<bool>, left: Seq<bool>, n: nat)
    requires
        n <= flags.len() == candidates.len() == left.len(),
        forall|j: int| 0 <= j < n ==> left[j] == (candidates[j] && !flags[j]),
        forall|j: int| 0 <= j < n && flags[j] ==> candidates[j],
    ensures
        set_count(candidates, n) == set_count(flags, n) + set_count(left, n),
    decreases n,
{
    if n > 0 {
        counts_add_up(candidates, flags, left, (n - 1) as nat);
    }
}

/// Of the connections that may be closed, as many are as the limit admits, and
/// none that stays goes before one that is closed.
pub proof fn oldest_are_closed_up_to_the_limit(a: Seq<u64>, candidates: Seq<bool>, max: nat)
    requires
        a.len() == candidates.len(),
    ensures
        set_count(oldest_first(a, candidates, max), candidates.len()) == up_to(
            set_count(candidates, candidates.len()),
            max,
        ),
        forall|i: int, j: int|
            #![trigger candidates[i], candidates[j]]
            0 <= i < candidates.len() && 0 <= j < candidates.len() && oldest_first(
                a,
                candidates,
                max,
            )[i] && candidates[j] && !oldest_first(a, candidates, max)[j] ==> goes_before(a, i, j),
{
    let flags = oldest_first(a, candidates, max);
    let n = candidates.len();
    if set_count(flags, n) > 0 {
        let m = last_of_flagged(a, flags, n);
        rank_counts_flagged(a, candidates, flags, m, n);
    }
    let left = Seq::new(n, |j: int| candidates[j] && !flags[j]);
    counts_add_up(candidates, flags, left, n);
    if max == 0 {
        assert(flags =~= candidates);
    } else if set_count(left, n) > 0 {
        let m = first_of_flagged(a, left, n);
        assert forall|j: int| 0 <= j < n && candidates[j] && goes_before(a, j, m) implies flags[j] by {
            if left[j] {
                assert(goes_before(a, m, j));
            }
        }
        rank_is_within_flagged(a, candidates, flags, m, n);
        assert(candidates[m] && !flags[m]);
    }
    assert forall|i: int, j: int|
        #![trigger candidates[i], candidates[j]]
        0 <= i < n && 0 <= j < n && flags[i] && candidates[j] && !flags[j] implies goes_before(
        a,
        i,
        j,
    ) by {
        if !goes_before(a, i, j) {
            rank_is_monotonic(a, candidates, j, i, n);
        }
    }
}

impl Pool {
    /// Closes the oldest idle connection whose age exceeds `min_lifetime_ms`, to
    /// make room for another pool of the database. It is returned, for its end
    /// to be closed; nothing is returned if there is none.
    pub fn evict_one_idle(&mut self, min_lifetime_ms: u64, now_ms: u64) -> (closed: Vec<
        ObjectInner,
    >)
        requires
            old(self).wf(),
        ensures
            closed_flagged(
                *old(self),
                *final(self),
                closed@,
                oldest_first(
                    ages(old(self).idle@, now_ms),
                    old_enough(old(self).idle@, min_lifetime_ms, now_ms),
                    1,
                ),
            ),
            closed@.len() == up_to(
                set_count(
                    old_enough(old(self).idle@, min_lifetime_ms, now_ms),
                    old(self).idle@.len(),
                ),
                1,
            ),
    {
        let should_close = |_obj: &Server, metrics: &Metrics| -> (r: bool)
            ensures
                r == (types::elapsed(metrics.created_ms, now_ms) > min_lifetime_ms),
            { metrics.age(now_ms) > min_lifetime_ms };
        let closed = self.retain_oldest_first(should_close, 1, now_ms);
        proof {
            let s = old(self).idle@;
            let said = choose|candidates: Seq<bool>|
                #![trigger said_of(should_close, s, candidates)]
                said_of(should_close, s, candidates) && closed_flagged(
                    *old(self),
                    *self,
                    closed@,
                    oldest_first(ages(s, now_ms), candidates, 1),
                ) && closed@.len() == up_to(set_count(candidates, s.len()), 1);
            assert forall|i: int| 0 <= i < s.len() implies said[i] == old_enough(
                s,
                min_lifetime_ms,
                now_ms,
            )[i] by {
                assert(call_ensures(should_close, (&s[i].obj, &s[i].metrics), said[i]));
            }
            assert(said =~= old_enough(s, min_lifetime_ms, now_ms));
        }
        closed
    }
}

/// Which connections are older than this.
pub open spec fn old_enough(s: Seq<ObjectInner>, min_ms: u64, now_ms: u64) -> Seq<bool> {
    Seq::new(s.len(), |i: int| types::elapsed(s[i].metrics.created_ms, now_ms) > min_ms)
}

/// Whether a connection counts against the reserve.
pub open spec fn in_reserve(inner: ObjectInner) -> bool {
    inner.coordinator_permit.is_some() && inner.coordinator_permit.unwrap().is_reserve
}

/// How many of the first `n` connections count against the reserve.
pub open spec fn reserve_count(s: Seq<ObjectInner>, n: nat) -> nat
    decreases n,
{
    if n == 0 {
        0
    } else {
        reserve_count(s, (n - 1) as nat) + if in_reserve(s[n - 1]) {
            1nat
        } else {
            0nat
        }
    }
}

/// A connection of the reserve as one that counts against the limit proper.
pub open spec fn upgraded(inner: ObjectInner) -> ObjectInner {
    ObjectInner { coordinator_permit: Some(CoordinatorPermit { is_reserve: false }), ..inner }
}

/// The idle connections after the first `room` of the reserve were upgraded.
pub open spec fn upgraded_up_to(s: Seq<ObjectInner>, room: nat) -> Seq<ObjectInner> {
    Seq::new(
        s.len(),
        |i: int|
            if in_reserve(s[i]) && reserve_count(s, i as nat) < room {
                upgraded(s[i])
            } else {
                s[i]
            },
    )
}

/// The smaller of two numbers.
pub open spec fn at_most(a: nat, b: nat) -> nat {
    if a <= b {
        a
    } else {
        b
    }
}

/// How many connections of the reserve can be upgraded: no more than the limit
/// proper has room for.
pub open spec fn upgrade_room(c: PoolCoordinator) -> nat {
    at_most((c.config.max_db_connections - c.main_in_use) as nat, c.reserve_in_use as nat)
}

impl Pool {
    /// Lets idle connections of the reserve count against the limit proper, as
    /// far as that has room. The connections themselves stay as they are.
    /// Returns how many there were.
    pub fn upgrade_reserve_to_main(&mut self, coordinator: &mut PoolCoordinator) -> (n: usize)
        requires
            old(coordinator).wf(),
        ensures
            final(coordinator).wf(),
            n == at_most(
                reserve_count(old(self).idle@, old(self).idle@.len()),
                upgrade_room(*old(coordinator)),
            ),
            *final(coordinator) == (PoolCoordinator {
                main_in_use: (old(coordinator).main_in_use + n) as usize,
                reserve_in_use: (old(coordinator).reserve_in_use - n) as usize,
                ..*old(coordinator)
            }),
            final(self).idle@ == upgraded_up_to(
                old(self).idle@,
                upgrade_room(*old(coordinator)),
            ),
            final(self).counters == old(self).counters,
            final(self).config == old(self).config,
            final(self).setup == old(self).setup,
            final(self).waiters@ == old(self).waiters@,
            final(self).mailbox@ == old(self).mailbox@,
    {
        let ghost s = self.idle@;
        let ghost room = upgrade_room(*coordinator);
        let ghost before = *coordinator;
        let total: usize = self.idle.len();
        let mut rest: VecDeque<ObjectInner> = VecDeque::new();
        let mut out: VecDeque<ObjectInner> = VecDeque::new();
        std::mem::swap(&mut rest, &mut self.idle);
        let mut n: usize = 0;
        let mut i: usize = 0;
        assert(s.skip(0) =~= s);
        while i < total
            invariant
                i <= total == s.len(),
                rest@ == s.skip(i as int),
                out@ == upgraded_up_to(s, room).take(i as int),
                before.wf(),
                coordinator.wf(),
                room == upgrade_room(before),
                n == at_most(reserve_count(s, i as nat), room),
                *coordinator == (PoolCoordinator {
                    main_in_use: (before.main_in_use + n) as usize,
                    reserve_in_use: (before.reserve_in_use - n) as usize,
                    ..before
                }),
            decreases total - i,
        {
            match rest.pop_front() {
                Some(mut inner) => {
                    proof {
                        assert(inner == s[i as int]);
                        assert(rest@ =~= s.skip(i + 1));
                    }
                    let reserve = match inner.coordinator_permit {
                        Some(permit) => permit.is_reserve,
                        None => false,
                    };
                    if reserve && coordinator.reserve_in_use > 0
                        && coordinator.try_upgrade_reserve_to_main() {
                        inner.coordinator_permit = Some(CoordinatorPermit { is_reserve: false });
                        n = n + 1;
                    }
                    out.push_back(inner);
                },
                None => {
                    assert(false);
                },
            }
            i = i + 1;
            assert(out@ =~= upgraded_up_to(s, room).take(i as int));
        }
        assert(out@ =~= upgraded_up_to(s, room));
        std::mem::swap(&mut out, &mut self.idle);
        n
    }

    /// Closes the connections of the reserve that have been idle longer
    /// than `min_lifetime_ms`. They are returned, for their ends to be closed.
    pub fn close_idle_reserve_connections(
        &mut self,
        min_lifetime_ms: u64,
        now_ms: u64,
    ) -> (closed: Vec<ObjectInner>)
        requires
            old(self).wf(),
        ensures
            closed_flagged(
                *old(self),
                *final(self),
                closed@,
                stale_reserve(old(self).idle@, min_lifetime_ms, now_ms),
            ),
    {
        let ghost s = self.idle@;
        let mut flags: Vec<bool> = Vec::new();
        let mut i: usize = 0;
        while i < self.idle.len()
            invariant
                i <= s.len(),
                self.idle@ == s,
                flags@ == stale_reserve(s, min_lifetime_ms, now_ms).take(i as int),
            decreases s.len() - i,
        {
            let inner = &self.idle[i];
            let reserve = match inner.coordinator_permit {
                Some(permit) => permit.is_reserve,
                None => false,
            };
            flags.push(reserve && inner.metrics.last_used(now_ms) > min_lifetime_ms);
            i = i + 1;
            assert(flags@ =~= stale_reserve(s, min_lifetime_ms, now_ms).take(i as int));
        }
        assert(flags@ =~= stale_reserve(s, min_lifetime_ms, now_ms));
        self.close_flagged(&flags)
    }

    /// Changes how many connections the pool may have. A smaller pool closes
    /// the idle connections that are too many, from the end of the queue; they
    /// are returned. A larger pool gets as many permits more as it may have
    /// connections more; a smaller one loses as many, as far as they are free.
    pub fn resize(&mut self, max_size: usize) -> (closed: Vec<ObjectInner>)
        requires
            old(self).wf(),
            max_size > old(self).counters.max_size ==> old(self).counters.permits + (max_size
                - old(self).counters.max_size) <= usize::MAX,
        ensures
            final(self).wf(),
            final(self).held() == old(self).held(),
            final(self).config == old(self).config,
            final(self).setup == old(self).setup,
            final(self).waiters@ == old(self).waiters@,
            final(self).mailbox@ == old(self).mailbox@,
            ({
                let n = old(self).idle@.len();
                let gone: int = if max_size < old(self).counters.max_size && n > max_size {
                    n - max_size
                } else {
                    0
                };
                &&& final(self).idle@ == old(self).idle@.take(n - gone)
                &&& closed@.len() == gone
                &&& forall|i: int| 0 <= i < gone ==> closed@[i] == old(self).idle@[n - 1 - i]
                &&& final(self).counters == (PoolCounters {
                    max_size,
                    size: (old(self).counters.size - gone) as usize,
                    permits: if max_size > old(self).counters.max_size {
                        (old(self).counters.permits + (max_size - old(self).counters.max_size))
                            as usize
                    } else {
                        (old(self).counters.permits - at_most(
                            old(self).counters.permits as nat,
                            (old(self).counters.max_size - max_size) as nat,
                        )) as usize
                    },
                    ..old(self).counters
                })
            }),
            resized(old(self).counters, final(self).counters, old(self).idle@.len(), max_size),
    {
        let ghost s = self.idle@;
        let before: usize = self.counters.max_size;
        let mut closed: Vec<ObjectInner> = Vec::new();
        if max_size < before {
            let mut idle: VecDeque<ObjectInner> = VecDeque::new();
            std::mem::swap(&mut idle, &mut self.idle);
            assert(idle@ =~= s.take(s.len() - 0));
            while idle.len() > max_size
                invariant
                    closed@.len() + idle@.len() == s.len(),
                    idle@ == s.take(idle@.len() as int),
                    closed@.len() > 0 ==> idle@.len() >= max_size,
                    forall|i: int|
                        0 <= i < closed@.len() ==> closed@[i] == s[s.len() - 1 - i],
                decreases idle@.len(),
            {
                match idle.pop_back() {
                    Some(inner) => {
                        closed.push(inner);
                    },
                    None => {
                        assert(false);
                    },
                }
            }
            self.counters.size = self.counters.size - closed.len();
            std::mem::swap(&mut idle, &mut self.idle);
        } else {
            assert(s.take(s.len() as int) =~= s);
        }
        self.counters.max_size = max_size;
        if max_size > before {
            self.counters.permits = self.counters.permits + (max_size - before);
        } else {
            self.counters.permits = self.counters.permits.saturating_sub(before - max_size);
        }
        closed
    }

    /// Closes the pool: no checkout may begin, and no connection stays idle.
    pub fn close(&mut self) -> (closed: Vec<ObjectInner>)
        requires
            old(self).wf(),
        ensures
            final(self).wf(),
            final(self).held() == old(self).held(),
            final(self).config == old(self).config,
            final(self).setup == old(self).setup,
            ({
                let n = old(self).idle@.len();
                let gone: int = if old(self).counters.max_size > 0 {
                    n as int
                } else {
                    0
                };
                &&& final(self).idle@ == old(self).idle@.take(n - gone)
                &&& closed@.len() == gone
                &&& forall|i: int| 0 <= i < gone ==> closed@[i] == old(self).idle@[n - 1 - i]
                &&& final(self).counters == (PoolCounters {
                    closed: true,
                    max_size: 0,
                    size: (old(self).counters.size - gone) as usize,
                    permits: (old(self).counters.permits - at_most(
                        old(self).counters.permits as nat,
                        old(self).counters.max_size as nat,
                    )) as usize,
                    ..old(self).counters
                })
            }),
            final(self).mailbox@ == old(self).mailbox@,
            final(self).waiters@ == old(self).waiters@,
    {
        let closed = self.resize(0);
        self.counters.closed = true;
        closed
    }

    /// Whether the pool is closed.
    pub fn is_closed(&self) -> (r: bool)
        ensures
            r == self.counters.closed,
    {
        self.counters.closed
    }

    /// What the pool reports of itself.
    pub fn status(&self) -> (r: Status)
        ensures
            r == status_of(self.counters),
    {
        let users: usize = self.counters.users;
        let size: usize = self.counters.size;
        if users < size {
            Status { max_size: self.counters.max_size, size, available: size - users, waiting: 0 }
        } else {
            Status { max_size: self.counters.max_size, size, available: 0, waiting: users - size }
        }
    }

    /// Whether every permit is in use. While it is, working connections are not
    /// closed for their age.
    pub fn under_pressure(&self) -> (r: bool)
        ensures
            r == (self.counters.permits == 0),
    {
        self.counters.permits == 0
    }

    /// The limits of a checkout.
    pub fn timeouts(&self) -> (r: Timeouts)
        ensures
            r == self.config.timeouts,
    {
        self.config.timeouts
    }

    /// A snapshot of the counters.
    pub fn scaling_stats(&self) -> (r: ScalingStatsSnapshot)
        ensures
            r == (ScalingStatsSnapshot {
                creates_started: self.counters.stats.creates_started,
                burst_gate_waits: self.counters.stats.burst_gate_waits,
                burst_gate_budget_exhausted: self.counters.stats.burst_gate_budget_exhausted,
                anticipation_wakes_notify: self.counters.stats.anticipation_wakes_notify,
                anticipation_wakes_timeout: self.counters.stats.anticipation_wakes_timeout,
                create_fallback: self.counters.stats.create_fallback,
                replenish_deferred: self.counters.stats.replenish_deferred,
                inflight_creates: self.counters.inflight_creates,
                pre_replacements_triggered: self.counters.stats.pre_replacements_triggered,
                pre_replacements_skipped: self.counters.stats.pre_replacements_skipped,
            }),
    {
        let s = self.counters.stats;
        ScalingStatsSnapshot {
            creates_started: s.creates_started,
            burst_gate_waits: s.burst_gate_waits,
            burst_gate_budget_exhausted: s.burst_gate_budget_exhausted,
            anticipation_wakes_notify: s.anticipation_wakes_notify,
            anticipation_wakes_timeout: s.anticipation_wakes_timeout,
            create_fallback: s.create_fallback,
            replenish_deferred: s.replenish_deferred,
            inflight_creates: self.counters.inflight_creates,
            pre_replacements_triggered: s.pre_replacements_triggered,
            pre_replacements_skipped: s.pre_replacements_skipped,
        }
    }
}

/// What a pool reports of itself: clients without a connection are waiting.
pub open spec fn status_of(c: PoolCounters) -> Status {
    Status {
        max_size: c.max_size,
        size: c.size,
        available: if c.users < c.size {
            (c.size - c.users) as usize
        } else {
            0
        },
        waiting: if c.users < c.size {
            0
        } else {
            (c.users - c.size) as usize
        },
    }
}

/// Which connections of the reserve have been idle longer than this.
pub open spec fn stale_reserve(s: Seq<ObjectInner>, min_ms: u64, now_ms: u64) -> Seq<bool> {
    Seq::new(s.len(), |i: int| in_reserve(s[i]) && types::idle_time(s[i].metrics, now_ms) > min_ms)
}

/// No checkout has happened yet.
pub open spec fn fresh_stats() -> ScalingStats {
    ScalingStats {
        creates_started: 0,
        burst_gate_waits: 0,
        anticipation_wakes_notify: 0,
        anticipation_wakes_timeout: 0,
        create_fallback: 0,
        replenish_deferred: 0,
        burst_gate_budget_exhausted: 0,
        pre_replacements_triggered: 0,
        pre_replacements_skipped: 0,
    }
}

/// The numbers of a pool without connections.
pub open spec fn fresh_counters(config: PoolConfig) -> PoolCounters {
    PoolCounters {
        size: 0,
        max_size: config.max_size,
        permits: config.max_size,
        closed: false,
        users: 0,
        inflight_creates: 0,
        pre_replacements_in_flight: 0,
        next_waiter: 0,
        stats: fresh_stats(),
    }
}

/// Puts a pool together.
pub struct PoolBuilder {
    pub setup: PoolSetup,
    pub config: PoolConfig,
}

impl PoolBuilder {
    /// Sets the limits of the pool.
    pub fn config(self, config: PoolConfig) -> (r: PoolBuilder)
        ensures
            r == (PoolBuilder { config, ..self }),
    {
        PoolBuilder { setup: self.setup, config }
    }

    /// Sets whether the database has a limit on its connections.
    pub fn coordinator(self, limited: bool) -> (r: PoolBuilder)
        ensures
            r == (PoolBuilder { setup: PoolSetup { limited, ..self.setup }, ..self }),
    {
        let mut r = self;
        r.setup.limited = limited;
        r
    }

    /// Sets the name of the pool.
    pub fn pool_name(self, name: String) -> (r: PoolBuilder)
        ensures
            r == (PoolBuilder { setup: PoolSetup { pool_name: name, ..self.setup }, ..self }),
    {
        let mut r = self;
        r.setup.pool_name = name;
        r
    }

    /// Sets the user of the pool.
    pub fn username(self, name: String) -> (r: PoolBuilder)
        ensures
            r == (PoolBuilder { setup: PoolSetup { username: name, ..self.setup }, ..self }),
    {
        let mut r = self;
        r.setup.username = name;
        r
    }

    /// A pool without connections.
    pub fn build(self) -> (r: Pool)
        ensures
            is_fresh(r, self.config, self.setup),
    {
        let config = self.config;
        Pool {
            config,
            counters: PoolCounters {
                size: 0,
                max_size: config.max_size,
                permits: config.max_size,
                closed: false,
                users: 0,
                inflight_creates: 0,
                pre_replacements_in_flight: 0,
                next_waiter: 0,
                stats: ScalingStats {
                    creates_started: 0,
                    burst_gate_waits: 0,
                    anticipation_wakes_notify: 0,
                    anticipation_wakes_timeout: 0,
                    create_fallback: 0,
                    replenish_deferred: 0,
                    burst_gate_budget_exhausted: 0,
                    pre_replacements_triggered: 0,
                    pre_replacements_skipped: 0,
                },
            },
            idle: VecDeque::new(),
            waiters: VecDeque::new(),
            mailbox: Vec::new(),
            setup: self.setup,
        }
    }
}

/// A pool without connections.
pub open spec fn is_fresh(p: Pool, config: PoolConfig, setup: PoolSetup) -> bool {
    &&& p.wf()
    &&& p.held() == 0
    &&& p.config == config
    &&& p.setup == setup
    &&& p.counters == fresh_counters(config)
    &&& p.idle@.len() == 0
    &&& p.waiters@.len() == 0
    &&& p.mailbox@.len() == 0
}

impl Pool {
    /// Begins to put a pool together.
    pub fn builder(server_pool: ServerPool) -> (r: PoolBuilder)
        ensures
            r.setup.server_pool == server_pool,
            !r.setup.limited,
            r.setup.pool_name@ == ""@,
            r.setup.username@ == ""@,
            r.config == types::default_config(),
    {
        PoolBuilder {
            setup: PoolSetup {
                server_pool,
                limited: false,
                pool_name: "".to_owned(),
                username: "".to_owned(),
            },
            config: Default::default(),
        }
    }

    /// What the pool needs to make connections.
    pub fn server_pool(&self) -> (r: &ServerPool)
        ensures
            *r == self.setup.server_pool,
    {
        &self.setup.server_pool
    }

    /// Pauses the pool: no checkout begins until it is resumed.
    pub fn pause(&mut self)
        ensures
            *final(self) == (Pool {
                setup: PoolSetup {
                    server_pool: ServerPool {
                        pool_state: old(self).setup.server_pool.pool_state
                            | server_pool::PAUSED_BIT,
                        ..old(self).setup.server_pool
                    },
                    ..old(self).setup
                },
                ..*old(self)
            }),
    {
        self.setup.server_pool.pause();
    }

    /// Resumes the pool.
    pub fn resume(&mut self)
        ensures
            *final(self) == (Pool {
                setup: PoolSetup {
                    server_pool: ServerPool {
                        pool_state: old(self).setup.server_pool.pool_state
                            & !server_pool::PAUSED_BIT,
                        ..old(self).setup.server_pool
                    },
                    ..old(self).setup
                },
                ..*old(self)
            }),
    {
        self.setup.server_pool.resume();
    }

    /// Whether the pool is paused.
    pub fn is_paused(&self) -> (r: bool)
        ensures
            r == server_pool::paused_in(self.setup.server_pool.pool_state),
    {
        self.setup.server_pool.is_paused()
    }

    /// How often the connections were to be made anew.
    pub fn reconnect_epoch(&self) -> (r: u32)
        ensures
            r == server_pool::epoch_in(self.setup.server_pool.pool_state),
    {
        self.setup.server_pool.current_epoch()
    }

    /// The startup parameters as an operator should see them.
    pub fn effective_startup_parameters_with_sources(
        &self,
        general: &StringMap<String>,
        pool: &StringMap<String>,
        auth_query: Option<&StringMap<String>>,
    ) -> (r: StringMap<EffectiveParameter>)
        ensures
            startup_resolver::effective_views(r@) == startup_resolver::effective(
                startup_resolver::configured(
                    string_map::texts(general@),
                    string_map::texts(pool@),
                    startup_resolver::opt_texts(auth_query),
                ),
                string_map::texts(self.setup.server_pool.resolved_startup_map@),
                string_map::texts(self.setup.server_pool.per_user_startup_overlay@),
                !(self.setup.server_pool.resolved_startup_decision is FullCascade),
            ),
    {
        self.setup.server_pool.effective_startup_parameters_with_sources(
            general,
            pool,
            auth_query,
        )
    }

    /// Has all connections made anew: the idle ones are closed at once, the
    /// others when they come back. Returns the new epoch.
    pub fn reconnect(&mut self) -> (r: (u32, Vec<ObjectInner>))
        requires
            old(self).wf(),
        ensures
            r.0 == server_pool::epoch_in(old(self).setup.server_pool.pool_state).wrapping_add(1),
            final(self).setup == (PoolSetup {
                server_pool: ServerPool {
                    pool_state: server_pool::bumped(old(self).setup.server_pool.pool_state),
                    ..old(self).setup.server_pool
                },
                ..old(self).setup
            }),
            final(self).wf(),
            final(self).held() == old(self).held(),
            final(self).idle@.len() == 0,
            r.1@ == old(self).idle@,
            final(self).waiters@ == old(self).waiters@,
            final(self).mailbox@ == old(self).mailbox@,
            final(self).config == old(self).config,
            final(self).counters == (PoolCounters {
                size: (old(self).counters.size - old(self).idle@.len()) as usize,
                ..old(self).counters
            }),
    {
        let epoch: u32 = self.setup.server_pool.bump_epoch();
        let closed = self.drain();
        (epoch, closed)
    }

    /// Closes every idle connection.
    pub fn drain(&mut self) -> (closed: Vec<ObjectInner>)
        requires
            old(self).wf(),
        ensures
            closed@ == old(self).idle@,
            final(self).wf(),
            final(self).held() == old(self).held(),
            final(self).idle@.len() == 0,
            final(self).waiters@ == old(self).waiters@,
            final(self).mailbox@ == old(self).mailbox@,
            final(self).config == old(self).config,
            final(self).setup == old(self).setup,
            final(self).counters == (PoolCounters {
                size: (old(self).counters.size - old(self).idle@.len()) as usize,
                ..old(self).counters
            }),
    {
        let mut closed: Vec<ObjectInner> = Vec::new();
        let ghost start = self.idle@;
        let ghost mut gone: int = 0;
        let mut idle: VecDeque<ObjectInner> = VecDeque::new();
        std::mem::swap(&mut idle, &mut self.idle);
        let n: usize = idle.len();
        assert(start.skip(0) =~= start);
        while idle.len() > 0
            invariant
                0 <= gone <= start.len(),
                idle@ == start.skip(gone),
                closed@ =~= start.take(gone),
            decreases idle@.len(),
        {
            match idle.pop_front() {
                Some(inner) => {
                    closed.push(inner);
                    proof {
                        assert(inner == start[gone]);
                        gone = gone + 1;
                        assert(idle@ =~= start.skip(gone));
                    }
                },
                None => {},
            }
        }
        assert(start.take(gone) =~= start);
        self.counters.size = self.counters.size - n;
        closed
    }
}

/// A waiter who has not given up is served before those behind: all in front of it have
/// given up.
pub proof fn oldest_waiter_is_served(waiters: Seq<Waiter>)
    ensures
        forall|i: int| 0 <= i < first_live(waiters) ==> !(#[trigger] waiters[i]).live,
        first_live(waiters) == waiters.len() <==> (forall|i: int|
            0 <= i < waiters.len() ==> !(#[trigger] waiters[i]).live),
    decreases waiters.len(),
{
    first_live_bounds(waiters);
    if waiters.len() > 0 && !waiters[0].live {
        let rest = waiters.skip(1);
        oldest_waiter_is_served(rest);
        assert forall|i: int| 0 <= i < first_live(waiters) implies !(#[trigger] waiters[i]).live by {
            if i > 0 {
                assert(rest[i - 1] == waiters[i]);
            }
        }
    }
}

/// A connection that comes back is the next to be handed out in the one mode and the
/// last in the other; the others keep their order.
pub proof fn returned_connections_queue_up(idle: Seq<ObjectInner>, inner: ObjectInner)
    ensures
        idle_with(QueueMode::Lifo, idle, inner).len() == idle.len() + 1,
        idle_with(QueueMode::Lifo, idle, inner)[0] == inner,
        idle_with(QueueMode::Lifo, idle, inner).skip(1) == idle,
        idle_with(QueueMode::Fifo, idle, inner).len() == idle.len() + 1,
        idle_with(QueueMode::Fifo, idle, inner).last() == inner,
        idle_with(QueueMode::Fifo, idle, inner).drop_last() == idle,
{
    assert(idle_with(QueueMode::Lifo, idle, inner).skip(1) =~= idle);
    assert(idle_with(QueueMode::Fifo, idle, inner).drop_last() =~= idle);
}

/// A connection that was given up, or whose large message was not read, never goes back;
/// every other does, with the time of its return.
pub proof fn unusable_connections_leave(obj: Server, m: Metrics, now_ms: u64)
    ensures
        must_evict(obj) <==> obj.state.bad || obj.state.pending_large_message.is_some(),
        recycled(m, now_ms).recycled_ms == Some(now_ms),
        recycled(m, now_ms).created_ms == m.created_ms,
        recycled(m, now_ms).lifetime_ms == m.lifetime_ms,
        recycled(m, now_ms).idle_timeout_ms == m.idle_timeout_ms,
        recycled(m, now_ms).epoch == m.epoch,
{
}

/// Every connection is closed or kept, those that are flagged are closed, and no order
/// changes.
pub proof fn picked_are_flagged(s: Seq<ObjectInner>, flags: Seq<bool>, wanted: bool)
    requires
        flags.len() >= s.len(),
    ensures
        forall|x: ObjectInner| #[trigger]
            picked(s, flags, wanted).contains(x) <==> exists|i: int|
                0 <= i < s.len() && #[trigger] s[i] == x && flags[i] == wanted,
    decreases s.len(),
{
    if s.len() > 0 {
        let front = s.drop_last();
        let n = s.len() - 1;
        picked_are_flagged(front, flags, wanted);
        let p = picked(front, flags, wanted);
        let q = picked(s, flags, wanted);
        assert forall|x: ObjectInner| #[trigger] q.contains(x) <==> exists|i: int|
            0 <= i < s.len() && #[trigger] s[i] == x && flags[i] == wanted by {
            if q.contains(x) {
                let j = choose|j: int| 0 <= j < q.len() && q[j] == x;
                if j < p.len() {
                    assert(p[j] == x);
                    assert(p.contains(x));
                    let i = choose|i: int|
                        0 <= i < front.len() && #[trigger] front[i] == x && flags[i] == wanted;
                    assert(s[i] == x);
                } else {
                    assert(s[n] == x);
                }
            }
            if exists|i: int| 0 <= i < s.len() && #[trigger] s[i] == x && flags[i] == wanted {
                let i = choose|i: int|
                    0 <= i < s.len() && #[trigger] s[i] == x && flags[i] == wanted;
                if i < n {
                    assert(front[i] == x);
                    assert(p.contains(x));
                    let j = choose|j: int| 0 <= j < p.len() && p[j] == x;
                    assert(q[j] == x);
                } else {
                    assert(q[q.len() - 1] == x);
                }
            }
        }
    }
}

/// The connection that makes room for another pool is older than it has to be, and none
/// that is kept and old enough is older.
pub proof fn oldest_makes_room(
    before: Pool,
    after: Pool,
    closed: Seq<ObjectInner>,
    min_ms: u64,
    now_ms: u64,
)
    requires
        closed_flagged(
            before,
            after,
            closed,
            oldest_first(
                ages(before.idle@, now_ms),
                old_enough(before.idle@, min_ms, now_ms),
                1,
            ),
        ),
    ensures
        closed.len() <= 1,
        closed.len() == 0 <==> forall|i: int|
            #![trigger before.idle@[i]]
            0 <= i < before.idle@.len() ==> now_ms <= before.idle@[i].metrics.created_ms || now_ms
                - before.idle@[i].metrics.created_ms <= min_ms,
        forall|x: ObjectInner| #[trigger]
            closed.contains(x) ==> before.idle@.contains(x) && now_ms - x.metrics.created_ms
                > min_ms,
        forall|x: ObjectInner, y: ObjectInner|
            #![trigger closed.contains(x), after.idle@.contains(y)]
            closed.contains(x) && after.idle@.contains(y) && now_ms - y.metrics.created_ms > min_ms
                ==> x.metrics.created_ms <= y.metrics.created_ms,
        after.counters.size == before.counters.size - closed.len(),
{
    let s = before.idle@;
    let a = ages(s, now_ms);
    let candidates = old_enough(s, min_ms, now_ms);
    let flags = oldest_first(a, candidates, 1);
    picked_are_flagged(s, flags, true);
    picked_are_flagged(s, flags, false);
    picked_is_set_count(s, flags);
    oldest_are_closed_up_to_the_limit(a, candidates, 1);
    if closed.len() == 0 {
        none_set(candidates, s.len());
        assert forall|i: int| #![trigger s[i]] 0 <= i < s.len() implies now_ms
            <= s[i].metrics.created_ms || now_ms - s[i].metrics.created_ms <= min_ms by {
            assert(!candidates[i]);
        }
    } else {
        assert(set_count(candidates, s.len()) > 0);
        if forall|i: int|
            #![trigger s[i]]
            0 <= i < s.len() ==> now_ms <= s[i].metrics.created_ms || now_ms
                - s[i].metrics.created_ms <= min_ms {
            assert forall|i: int| 0 <= i < s.len() implies !candidates[i] by {
                assert(s[i].metrics.created_ms >= 0);
            }
            no_set(candidates, s.len());
        }
    }
    assert forall|x: ObjectInner| #[trigger] closed.contains(x) implies s.contains(x) && now_ms
        - x.metrics.created_ms > min_ms by {
        let i = choose|i: int| 0 <= i < s.len() && #[trigger] s[i] == x && flags[i] == true;
        assert(candidates[i]);
    }
    assert forall|x: ObjectInner, y: ObjectInner|
        #![trigger closed.contains(x), after.idle@.contains(y)]
        closed.contains(x) && after.idle@.contains(y) && now_ms - y.metrics.created_ms
            > min_ms implies x.metrics.created_ms <= y.metrics.created_ms by {
        let i = choose|i: int| 0 <= i < s.len() && #[trigger] s[i] == x && flags[i] == true;
        let j = choose|j: int| 0 <= j < s.len() && #[trigger] s[j] == y && flags[j] == false;
        assert(candidates[i] && candidates[j]);
        if y.metrics.created_ms < x.metrics.created_ms {
            assert(goes_before(a, j, i));
            rank_is_monotonic(a, candidates, j, i, candidates.len());
        }
    }
}

/// Where no flag is set, none is counted.
proof fn no_set(flags: Seq<bool>, n: nat)
    requires
        n <= flags.len(),
        forall|j: int| 0 <= j < n ==> !flags[j],
    ensures
        set_count(flags, n) == 0,
    decreases n,
{
    if n > 0 {
        no_set(flags, (n - 1) as nat);
    }
}

/// Connections of the reserve that count against the limit proper from now on keep all
/// else, and only as many do as the limit has room for.
pub proof fn upgrades_stay_within_the_limit(s: Seq<ObjectInner>, c: PoolCoordinator, i: int)
    requires
        c.wf(),
        0 <= i < s.len(),
    ensures
        ({
            let t = upgraded_up_to(s, upgrade_room(c));
            &&& t.len() == s.len()
            &&& t[i].obj == s[i].obj
            &&& t[i].metrics == s[i].metrics
            &&& t[i] != s[i] ==> s[i].coordinator_permit == Some(
                CoordinatorPermit { is_reserve: true },
            ) && t[i].coordinator_permit == Some(CoordinatorPermit { is_reserve: false })
            &&& c.main_in_use + upgrade_room(c) <= c.config.max_db_connections
            &&& upgrade_room(c) <= c.reserve_in_use
            &&& c.main_in_use == c.config.max_db_connections ==> t[i] == s[i]
            &&& upgrade_room(c) == c.reserve_in_use || c.main_in_use + upgrade_room(c)
                == c.config.max_db_connections
        }),
{
}

/// Budgets: a checkout waits at the burst gate and for a connection to come back around
/// twice the time of the slowest transactions, never longer than half a second.
pub proof fn budgets_are_bounded(xact_p99_us: u64, dice: u64, low: u64, high: u64)
    requires
        low <= high,
        dice <= 2 * budget_spread(anticipation_base(xact_p99_us)),
    ensures
        low <= budget(anticipation_base(xact_p99_us), dice, low, high) <= high,
        xact_p99_us == 0 ==> anticipation_base(xact_p99_us) == 100,
        0 < xact_p99_us <= u64::MAX / 2 ==> anticipation_base(xact_p99_us) == 2 * xact_p99_us
            / 1000,
        ({
            let base = anticipation_base(xact_p99_us) as int;
            let b = budget(base as u64, dice, low, high) as int;
            &&& b > low && base >= 5 ==> 5 * b <= 6 * base + 5
            &&& b < high && base >= 5 ==> 5 * b >= 4 * base
        }),
{
}

/// What a pool reports: connections that nobody holds are available, clients without a
/// connection are waiting, and never both.
pub proof fn status_adds_up(c: PoolCounters)
    ensures
        status_of(c).size == c.size,
        status_of(c).max_size == c.max_size,
        status_of(c).available + c.users == c.size + status_of(c).waiting,
        status_of(c).available == 0 || status_of(c).waiting == 0,
{
}

/// A fresh pool has no connection and as many permits as it may have connections.
pub proof fn fresh_pools_are_empty(config: PoolConfig)
    ensures
        fresh_counters(config).size == 0,
        fresh_counters(config).users == 0,
        fresh_counters(config).inflight_creates == 0,
        fresh_counters(config).permits == config.max_size,
        fresh_counters(config).max_size == config.max_size,
        !fresh_counters(config).closed,
{
}

/// A round that closes fewer than it may closes all that are due.
pub proof fn all_flagged_below_the_limit(a: Seq<u64>, candidates: Seq<bool>, max: nat)
    requires
        a.len() == candidates.len(),
        max > 0,
        set_count(oldest_first(a, candidates, max), candidates.len()) < max,
    ensures
        oldest_first(a, candidates, max) == candidates,
{
    oldest_are_closed_up_to_the_limit(a, candidates, max);
    let flags = oldest_first(a, candidates, max);
    assert forall|i: int| 0 <= i < candidates.len() implies flags[i] == candidates[i] by {
        if candidates[i] {
            rank_within_count(a, candidates, i, candidates.len());
        }
    }
    assert(flags =~= candidates);
}

/// No more candidates go before one than there are.
proof fn rank_within_count(a: Seq<u64>, candidates: Seq<bool>, i: int, n: nat)
    requires
        n <= candidates.len() == a.len(),
    ensures
        rank(a, candidates, i, n) <= set_count(candidates, n),
    decreases n,
{
    if n > 0 {
        rank_within_count(a, candidates, i, (n - 1) as nat);
    }
}

/// Counting further does not make a count smaller.
pub proof fn reserve_count_grows(s: Seq<ObjectInner>, i: nat, n: nat)
    requires
        i < n <= s.len(),
    ensures
        reserve_count(s, i) <= reserve_count(s, n),
        in_reserve(s[i as int]) ==> reserve_count(s, i) < reserve_count(s, n),
    decreases n,
{
    if i < n - 1 {
        reserve_count_grows(s, i, (n - 1) as nat);
    }
}

/// Where no flag is set, nothing is picked.
pub proof fn none_picked(s: Seq<ObjectInner>, flags: Seq<bool>)
    requires
        flags.len() >= s.len(),
        forall|i: int| 0 <= i < s.len() ==> !(#[trigger] flags[i]),
    ensures
        picked(s, flags, true).len() == 0,
    decreases s.len(),
{
    if s.len() > 0 {
        assert(!flags[s.len() - 1]);
        none_picked(s.drop_last(), flags);
    }
}

/// A connection that comes back is noted with the time and once more, and nothing that
/// limits its life changes.
pub proof fn coming_back_is_noted(m: Metrics, now_ms: u64)
    ensures
        recycled(m, now_ms).recycled_ms == Some(now_ms),
        m.recycle_count < u64::MAX ==> recycled(m, now_ms).recycle_count == m.recycle_count + 1,
        recycled(m, now_ms).created_ms == m.created_ms,
        recycled(m, now_ms).lifetime_ms == m.lifetime_ms,
        recycled(m, now_ms).idle_timeout_ms == m.idle_timeout_ms,
        recycled(m, now_ms).epoch == m.epoch,
{
}

/// A connection is expected back within twice the time of the slowest transactions, and
/// within a tenth of a second as long as none was measured.
pub proof fn connections_are_expected_back(xact_p99_us: u64)
    ensures
        xact_p99_us == 0 ==> anticipation_base(xact_p99_us) == 100,
        0 < xact_p99_us && 2 * xact_p99_us <= u64::MAX ==> 1000 * anticipation_base(xact_p99_us)
            <= 2 * xact_p99_us < 1000 * (anticipation_base(xact_p99_us) + 1),
        budget_spread(anticipation_base(xact_p99_us)) >= 1,
{
}

/// The time that a checkout may wait leaves half a second for making a connection; without
/// a limit it is a tenth of a second.
pub proof fn half_a_second_is_left(wait: Option<u64>, spent_ms: u64)
    ensures
        wait.is_none() ==> anticipation_time(wait, spent_ms) == 100,
        wait matches Some(limit) ==> if limit - spent_ms > 500 {
            anticipation_time(wait, spent_ms) == limit - spent_ms - 500
        } else {
            anticipation_time(wait, spent_ms) == 0
        },
{
}

/// A connection goes back among the idle ones only if it is not given up and has no half
/// read message.
pub proof fn only_whole_connections_come_back(obj: Server)
    ensures
        must_evict(obj) <==> obj@.state.bad || obj@.state.pending_large_message.is_some(),
        !must_evict(obj) ==> !obj@.state.bad,
{
}

/// What comes of a connection that a client brings back.
pub open spec fn taken_back(
    before: Pool,
    after: Pool,
    inner: ObjectInner,
    now_ms: u64,
    r: Returned,
) -> bool {
    let k = first_live(before.waiters@);
    let kept = ObjectInner { metrics: recycled(inner.metrics, now_ms), ..inner };
    &&& after.counters.users == before.counters.users - 1
    &&& after.counters.permits == before.counters.permits + 1
    &&& if must_evict(inner.obj) {
        &&& r == Returned::Evicted(inner)
        &&& after.counters.size == before.counters.size - 1
        &&& after.idle@ == before.idle@
        &&& after.mailbox@ == before.mailbox@
        &&& after.waiters@ == before.waiters@
    } else if k < before.waiters@.len() {
        &&& r == Returned::HandedOver(before.waiters@[k].id)
        &&& after.counters.size == before.counters.size
        &&& after.idle@ == before.idle@
        &&& after.mailbox@ == before.mailbox@.push((before.waiters@[k].id, kept))
        &&& after.waiters@ == before.waiters@.skip(k + 1)
    } else {
        &&& r == Returned::Idle
        &&& after.counters.size == before.counters.size
        &&& after.idle@ == idle_with(before.config.queue_mode, before.idle@, kept)
        &&& after.mailbox@ == before.mailbox@
        &&& after.waiters@.len() == 0
    }
}

/// A connection that a client brings back is never lost and never given out twice: one
/// that cannot be used leaves the pool, one that somebody waits for is handed to the one
/// who has waited longest, and any other becomes idle. The client's place and its permit
/// are free again in any case.
pub proof fn connections_brought_back_find_their_place(
    before: Pool,
    after: Pool,
    inner: ObjectInner,
    now_ms: u64,
    r: Returned,
)
    requires
        taken_back(before, after, inner, now_ms, r),
    ensures
        after.counters.users == before.counters.users - 1,
        after.counters.permits == before.counters.permits + 1,
        inner.obj@.state.bad || inner.obj@.state.pending_large_message.is_some() <==> r is Evicted,
        after.idle@.len() + after.mailbox@.len() - after.counters.size == before.idle@.len()
            + before.mailbox@.len() - before.counters.size + 1,
        r matches Returned::HandedOver(id) ==> exists|i: int|
            0 <= i < before.waiters@.len() && (#[trigger] before.waiters@[i]).live
                && before.waiters@[i].id == id && (forall|j: int|
                0 <= j < i ==> !(#[trigger] before.waiters@[j]).live),
        r is Idle ==> forall|i: int|
            0 <= i < before.waiters@.len() ==> !(#[trigger] before.waiters@[i]).live,
        r is HandedOver ==> after.mailbox@.last().1.obj == inner.obj
            && after.mailbox@.last().1.coordinator_permit == inner.coordinator_permit
            && after.mailbox@.last().1.metrics.recycled_ms == Some(now_ms),
        r is Idle ==> exists|i: int|
            0 <= i < after.idle@.len() && (#[trigger] after.idle@[i]).obj == inner.obj
                && after.idle@[i].metrics.recycled_ms == Some(now_ms)
                && after.idle@[i].coordinator_permit == inner.coordinator_permit,
{
    first_live_is_first(before.waiters@);
    let k = first_live(before.waiters@);
    if r is HandedOver {
        assert(before.waiters@[k].live);
    }
    if r is Idle {
        let kept = ObjectInner { metrics: recycled(inner.metrics, now_ms), ..inner };
        let n = before.idle@.len() as int;
        match before.config.queue_mode {
            QueueMode::Fifo => {
                assert(after.idle@[n] == kept);
            },
            QueueMode::Lifo => {
                assert(after.idle@[0] == kept);
            },
        }
    }
}

/// The first live waiter comes before all others that are.
proof fn first_live_is_first(waiters: Seq<Waiter>)
    ensures
        0 <= first_live(waiters) <= waiters.len(),
        first_live(waiters) < waiters.len() ==> waiters[first_live(waiters)].live,
        forall|j: int| 0 <= j < first_live(waiters) ==> !(#[trigger] waiters[j]).live,
    decreases waiters.len(),
{
    if waiters.len() > 0 && !waiters[0].live {
        let rest = waiters.skip(1);
        first_live_is_first(rest);
        assert forall|j: int| 0 <= j < first_live(waiters) implies !(#[trigger] waiters[j]).live by {
            if j > 0 {
                assert(rest[j - 1] == waiters[j]);
            }
        }
    }
}

/// The numbers of a pool with so many idle connections after its size limit was changed.
pub open spec fn resized(
    before: PoolCounters,
    after: PoolCounters,
    idle: nat,
    max_size: usize,
) -> bool {
    &&& after.max_size == max_size
    &&& after.size == before.size - (if max_size < before.max_size && idle > max_size {
        idle - max_size
    } else {
        0
    })
    &&& after.permits == if max_size >= before.max_size {
        before.permits + (max_size - before.max_size)
    } else if before.permits >= before.max_size - max_size {
        before.permits - (before.max_size - max_size)
    } else {
        0
    }
    &&& after.users == before.users
    &&& after.closed == before.closed
}

/// A pool that may grow has as many more permits as it may have more connections. One
/// that has to shrink takes free permits back, as far as there are any, and closes idle
/// connections beyond its new limit and no others.
pub proof fn permits_follow_the_size(
    before: PoolCounters,
    after: PoolCounters,
    idle: nat,
    max_size: usize,
)
    requires
        resized(before, after, idle, max_size),
        idle <= before.size,
    ensures
        after.max_size == max_size,
        max_size >= before.max_size ==> after.permits - before.permits == max_size
            - before.max_size && after.size == before.size,
        max_size < before.max_size ==> after.permits <= before.permits && before.permits
            - after.permits <= before.max_size - max_size,
        max_size < before.max_size && before.permits >= before.max_size - max_size
            ==> after.max_size - after.permits == before.max_size - before.permits,
        max_size < before.max_size && before.permits < before.max_size - max_size ==> after.permits
            == 0,
        idle <= max_size ==> after.size == before.size,
        max_size < before.max_size && idle > max_size ==> after.size - (before.size - idle)
            == max_size,
        after.users == before.users,
        after.closed == before.closed,
{
}

} // verus!
