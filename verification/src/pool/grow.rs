//! Making connections: at the burst gate, ahead of need, and ahead of an end.
use vstd::prelude::*;
use crate::pool::inner::{
    push_idle, release_burst_slot, try_take_burst_slot, ObjectInner, Pool, PoolCounters,
    MAX_CONCURRENT_PRE_REPLACEMENTS, PRE_REPLACE_MIN_LIFETIME_MS, PRE_REPLACE_THRESHOLD_PCT,
};
#[allow(unused_imports)]
use crate::pool::inner::ScalingStats;
use crate::pool::pool_coordinator::{CoordinatorPermit, PoolCoordinator};
use crate::pool::types::Metrics;
#[allow(unused_imports)]
use crate::pool::inner;
#[allow(unused_imports)]
use crate::pool::types;

verus! {

/// The numbers of a pool after a slot at the burst gate was taken.
pub open spec fn gate_taken(c: PoolCounters) -> PoolCounters {
    PoolCounters {
        inflight_creates: (c.inflight_creates + 1) as usize,
        stats: ScalingStats {
            creates_started: c.stats.creates_started.wrapping_add(1),
            ..c.stats
        },
        ..c
    }
}

/// Whether the burst gate has a free slot.
pub open spec fn gate_open(p: Pool) -> bool {
    p.counters.inflight_creates < p.config.scaling.max_parallel_creates
}

/// The numbers of a pool after a slot at the burst gate was given back.
pub open spec fn gate_released(c: PoolCounters) -> PoolCounters {
    PoolCounters { inflight_creates: (c.inflight_creates - 1) as usize, ..c }
}

/// What is asked before a connection is made in the background.
pub enum BackgroundStep {
    /// The pool has as many connections as it may.
    Full,
    /// The limit of the database is reached.
    LimitReached,
    /// Too many connections are being made already.
    GateFull,
    /// A connection may be made, with this leave.
    Create(Option<CoordinatorPermit>),
}

/// The work of filling up a pool.
#[derive(Debug, Clone, Copy, PartialEq, Eq, Structural)]
pub struct Replenishing {
    /// How many connections may still be begun.
    pub left: usize,
    /// How many were made.
    pub created: usize,
    /// No more are begun.
    pub over: bool,
}

/// What filling up a pool needs next.
pub enum ReplenishStep {
    /// A connection is made, with this leave.
    Create(Option<CoordinatorPermit>),
    /// The work is done; so many were made.
    Over(usize),
}

impl Replenishing {
    /// Begins to fill up a pool by `count` connections.
    pub fn new(count: usize) -> (r: Self)
        ensures
            r == (Replenishing { left: count, created: 0, over: false }),
    {
        Replenishing { left: count, created: 0, over: false }
    }

    /// Notes what the pool has answered.
    fn went_on(&mut self, step: BackgroundStep) -> (r: ReplenishStep)
        requires
            old(self).left > 0,
        ensures
            match step {
                BackgroundStep::Create(permit) => {
                    &&& r == ReplenishStep::Create(permit)
                    &&& *final(self) == (Replenishing {
                        left: (old(self).left - 1) as usize,
                        ..*old(self)
                    })
                },
                _ => {
                    &&& r == ReplenishStep::Over(old(self).created)
                    &&& *final(self) == (Replenishing { over: true, ..*old(self) })
                },
            },
    {
        match step {
            BackgroundStep::Create(permit) => {
                self.left = self.left - 1;
                ReplenishStep::Create(permit)
            },
            _ => {
                self.over = true;
                ReplenishStep::Over(self.created)
            },
        }
    }
}

impl Pool {
    /// Takes a slot at the burst gate, which bounds how many connections are made at
    /// the same time.
    pub fn try_acquire_burst_gate(&mut self) -> (r: bool)
        ensures
            r == gate_open(*old(self)),
            *final(self) == (Pool {
                counters: if r {
                    gate_taken(old(self).counters)
                } else {
                    old(self).counters
                },
                ..*old(self)
            }),
    {
        let max: usize = self.config.scaling.max_parallel_creates as usize;
        if try_take_burst_slot(&mut self.counters.inflight_creates, max) {
            self.counters.stats.creates_started = self.counters.stats.creates_started.wrapping_add(
                1,
            );
            true
        } else {
            false
        }
    }

    /// Gives a slot at the burst gate back.
    pub fn release_burst_gate(&mut self)
        requires
            old(self).counters.inflight_creates > 0,
        ensures
            *final(self) == (Pool { counters: gate_released(old(self).counters), ..*old(self) }),
    {
        release_burst_slot(&mut self.counters.inflight_creates);
    }

    /// Begins to make a connection ahead of need, in a pool whose database has
    /// no limit.
    pub fn replenish(&mut self) -> (step: BackgroundStep)
        ensures
            ({
                let c = old(self).counters;
                if c.size >= c.max_size {
                    step == BackgroundStep::Full && *final(self) == *old(self)
                } else if gate_open(*old(self)) {
                    &&& step == BackgroundStep::Create(None)
                    &&& *final(self) == (Pool { counters: gate_taken(c), ..*old(self) })
                } else {
                    &&& step == BackgroundStep::GateFull
                    &&& *final(self) == (Pool { counters: deferred(c), ..*old(self) })
                }
            }),
    {
        if self.counters.size >= self.counters.max_size {
            return BackgroundStep::Full;
        }
        if self.try_acquire_burst_gate() {
            BackgroundStep::Create(None)
        } else {
            self.counters.stats.replenish_deferred =
                self.counters.stats.replenish_deferred.wrapping_add(1);
            BackgroundStep::GateFull
        }
    }

    /// Begins to make a connection ahead of need, in a pool whose database has
    /// a limit. The leave of the database is asked for first, so that a slow
    /// answer holds no slot at the burst gate; it is given back if there is no slot.
    pub fn replenish_within(&mut self, coordinator: &mut PoolCoordinator) -> (step: BackgroundStep)
        requires
            old(coordinator).wf(),
        ensures
            final(coordinator).wf(),
            ({
                let c = old(self).counters;
                let k = *old(coordinator);
                if c.size >= c.max_size {
                    &&& step == BackgroundStep::Full
                    &&& *final(self) == *old(self)
                    &&& *final(coordinator) == k
                } else if k.main_in_use >= k.config.max_db_connections {
                    &&& step == BackgroundStep::LimitReached
                    &&& *final(self) == *old(self)
                    &&& *final(coordinator) == k
                } else if gate_open(*old(self)) {
                    &&& step == BackgroundStep::Create(
                        Some(CoordinatorPermit { is_reserve: false }),
                    )
                    &&& *final(self) == (Pool { counters: gate_taken(c), ..*old(self) })
                    &&& *final(coordinator) == (PoolCoordinator {
                        main_in_use: (k.main_in_use + 1) as usize,
                        ..k
                    })
                } else {
                    &&& step == BackgroundStep::GateFull
                    &&& *final(self) == (Pool { counters: deferred(c), ..*old(self) })
                    &&& *final(coordinator) == k
                }
            }),
            begun_ahead(*old(self), *final(self), *old(coordinator), *final(coordinator), step),
    {
        if self.counters.size >= self.counters.max_size {
            return BackgroundStep::Full;
        }
        match coordinator.try_acquire() {
            None => BackgroundStep::LimitReached,
            Some(permit) => {
                if self.try_acquire_burst_gate() {
                    BackgroundStep::Create(Some(permit))
                } else {
                    coordinator.release(permit);
                    self.counters.stats.replenish_deferred =
                        self.counters.stats.replenish_deferred.wrapping_add(1);
                    BackgroundStep::GateFull
                }
            },
        }
    }

    /// A connection that was begun ahead of need is made: it becomes idle, or
    /// is handed back to be closed if the pool has filled up meanwhile.
    pub fn replenish_made(&mut self, inner: ObjectInner) -> (r: Option<ObjectInner>)
        requires
            old(self).wf(),
            old(self).counters.inflight_creates > 0,
        ensures
            final(self).wf(),
            final(self).held() == old(self).held(),
            final(self).waiters@ == old(self).waiters@,
            final(self).mailbox@ == old(self).mailbox@,
            final(self).config == old(self).config,
            final(self).setup == old(self).setup,
            ({
                let c = gate_released(old(self).counters);
                if c.size >= c.max_size {
                    &&& r == Some(inner)
                    &&& final(self).counters == c
                    &&& final(self).idle@ == old(self).idle@
                } else {
                    &&& r.is_none()
                    &&& final(self).counters == (PoolCounters { size: (c.size + 1) as usize, ..c })
                    &&& final(self).idle@ == inner::idle_with(
                        old(self).config.queue_mode,
                        old(self).idle@,
                        inner,
                    )
                }
            }),
    {
        self.release_burst_gate();
        if self.counters.size >= self.counters.max_size {
            return Some(inner);
        }
        self.counters.size = self.counters.size + 1;
        push_idle(self.config.queue_mode, &mut self.idle, inner);
        None
    }

    /// Goes on filling up a pool whose database has no limit.
    pub fn replenish_next(&mut self, work: &mut Replenishing) -> (step: ReplenishStep)
        ensures
            ({
                let w = *old(work);
                let c = old(self).counters;
                if w.over || w.left == 0 {
                    &&& step == ReplenishStep::Over(w.created)
                    &&& *final(self) == *old(self)
                    &&& *final(work) == w
                } else if c.size < c.max_size && gate_open(*old(self)) {
                    &&& step == ReplenishStep::Create(None)
                    &&& *final(self) == (Pool { counters: gate_taken(c), ..*old(self) })
                    &&& *final(work) == (Replenishing { left: (w.left - 1) as usize, ..w })
                } else {
                    &&& step == ReplenishStep::Over(w.created)
                    &&& *final(self) == (Pool {
                        counters: if c.size < c.max_size {
                            deferred(c)
                        } else {
                            c
                        },
                        ..*old(self)
                    })
                    &&& *final(work) == (Replenishing { over: true, ..w })
                }
            }),
    {
        if work.over || work.left == 0 {
            return ReplenishStep::Over(work.created);
        }
        let step = self.replenish();
        work.went_on(step)
    }

    /// Goes on filling up a pool whose database has a limit.
    pub fn replenish_next_within(
        &mut self,
        work: &mut Replenishing,
        coordinator: &mut PoolCoordinator,
    ) -> (step: ReplenishStep)
        requires
            old(coordinator).wf(),
        ensures
            final(coordinator).wf(),
            ({
                let w = *old(work);
                let c = old(self).counters;
                let k = *old(coordinator);
                let room = c.size < c.max_size && k.main_in_use < k.config.max_db_connections;
                if w.over || w.left == 0 {
                    &&& step == ReplenishStep::Over(w.created)
                    &&& *final(self) == *old(self)
                    &&& *final(coordinator) == k
                    &&& *final(work) == w
                } else if room && gate_open(*old(self)) {
                    &&& step == ReplenishStep::Create(
                        Some(CoordinatorPermit { is_reserve: false }),
                    )
                    &&& *final(self) == (Pool { counters: gate_taken(c), ..*old(self) })
                    &&& *final(coordinator) == (PoolCoordinator {
                        main_in_use: (k.main_in_use + 1) as usize,
                        ..k
                    })
                    &&& *final(work) == (Replenishing { left: (w.left - 1) as usize, ..w })
                } else {
                    &&& step == ReplenishStep::Over(w.created)
                    &&& *final(self) == (Pool {
                        counters: if room {
                            deferred(c)
                        } else {
                            c
                        },
                        ..*old(self)
                    })
                    &&& *final(coordinator) == k
                    &&& *final(work) == (Replenishing { over: true, ..w })
                }
            }),
    {
        if work.over || work.left == 0 {
            return ReplenishStep::Over(work.created);
        }
        let step = self.replenish_within(coordinator);
        work.went_on(step)
    }

    /// Notes how making a connection ended that was begun to fill up the pool. The
    /// first failure ends the work, and so does a pool that is full. A connection
    /// that has no room is handed back to be closed.
    pub fn replenish_ended(&mut self, work: &mut Replenishing, made: Option<ObjectInner>) -> (r:
        Option<ObjectInner>)
        requires
            old(self).wf(),
            old(self).counters.inflight_creates > 0,
            old(work).created < usize::MAX,
        ensures
            final(self).wf(),
            final(self).held() == old(self).held(),
            final(self).waiters@ == old(self).waiters@,
            final(self).mailbox@ == old(self).mailbox@,
            final(self).config == old(self).config,
            final(self).setup == old(self).setup,
            ({
                let w = *old(work);
                let c = gate_released(old(self).counters);
                if made.is_some() && c.size < c.max_size {
                    &&& r.is_none()
                    &&& final(self).counters == (PoolCounters { size: (c.size + 1) as usize, ..c })
                    &&& final(self).idle@ == inner::idle_with(
                        old(self).config.queue_mode,
                        old(self).idle@,
                        made.unwrap(),
                    )
                    &&& *final(work) == (Replenishing { created: (w.created + 1) as usize, ..w })
                } else {
                    &&& r == made
                    &&& final(self).counters == c
                    &&& final(self).idle@ == old(self).idle@
                    &&& *final(work) == (Replenishing { over: true, ..w })
                }
            }),
    {
        match made {
            Some(inner) => {
                let refused = self.replenish_made(inner);
                if refused.is_none() {
                    work.created = work.created + 1;
                } else {
                    work.over = true;
                }
                refused
            },
            None => {
                self.release_burst_gate();
                work.over = true;
                None
            },
        }
    }

    /// Whether a connection that is handed out now should be replaced before
    /// its lifetime ends. If so, the replacement is counted as begun.
    pub fn maybe_trigger_pre_replacement(
        &mut self,
        metrics: &Metrics,
        paused: bool,
        now_ms: u64,
    ) -> (r: bool)
        ensures
            r == replaces_ahead(*old(self), *metrics, paused, now_ms),
            *final(self) == (Pool {
                counters: if r {
                    PoolCounters {
                        pre_replacements_in_flight: (old(
                            self,
                        ).counters.pre_replacements_in_flight + 1) as usize,
                        ..old(self).counters
                    }
                } else {
                    old(self).counters
                },
                ..*old(self)
            }),
    {
        if metrics.lifetime_ms < PRE_REPLACE_MIN_LIFETIME_MS {
            return false;
        }
        let age: u64 = metrics.age(now_ms);
        if (age as u128) < metrics.lifetime_ms as u128 * PRE_REPLACE_THRESHOLD_PCT as u128 / 100
            || age >= metrics.lifetime_ms {
            return false;
        }
        if self.counters.permits == 0 || paused {
            return false;
        }
        let size: u128 = self.counters.size as u128;
        let in_flight: u128 = self.counters.pre_replacements_in_flight as u128;
        if size + in_flight > self.counters.max_size as u128
            + MAX_CONCURRENT_PRE_REPLACEMENTS as u128 {
            return false;
        }
        // With a quarter of the connections idle the end of one is no loss.
        if size == 0 || self.idle.len() as u128 * 100 / size >= 25 {
            return false;
        }
        try_take_burst_slot(
            &mut self.counters.pre_replacements_in_flight,
            MAX_CONCURRENT_PRE_REPLACEMENTS,
        )
    }

    /// Begins to replace a connection ahead of its end, in a pool whose database
    /// has no limit.
    pub fn pre_replace_one(&mut self) -> (step: BackgroundStep)
        requires
            old(self).counters.pre_replacements_in_flight > 0,
        ensures
            ({
                let c = old(self).counters;
                if gate_open(*old(self)) {
                    &&& step == BackgroundStep::Create(None)
                    &&& *final(self) == (Pool { counters: gate_taken(c), ..*old(self) })
                } else {
                    &&& step == BackgroundStep::GateFull
                    &&& *final(self) == (Pool { counters: replacement_skipped(c), ..*old(self) })
                }
            }),
    {
        if self.try_acquire_burst_gate() {
            BackgroundStep::Create(None)
        } else {
            self.skip_replacement();
            BackgroundStep::GateFull
        }
    }

    /// Begins to replace a connection ahead of its end, in a pool whose database
    /// has a limit. Two permits are left for other pools.
    pub fn pre_replace_one_within(&mut self, coordinator: &mut PoolCoordinator) -> (step:
        BackgroundStep)
        requires
            old(coordinator).wf(),
            old(self).counters.pre_replacements_in_flight > 0,
        ensures
            final(coordinator).wf(),
            ({
                let c = old(self).counters;
                let k = *old(coordinator);
                if k.config.max_db_connections - k.main_in_use < 2 {
                    &&& step == BackgroundStep::LimitReached
                    &&& *final(self) == (Pool { counters: replacement_skipped(c), ..*old(self) })
                    &&& *final(coordinator) == k
                } else if gate_open(*old(self)) {
                    &&& step == BackgroundStep::Create(
                        Some(CoordinatorPermit { is_reserve: false }),
                    )
                    &&& *final(self) == (Pool { counters: gate_taken(c), ..*old(self) })
                    &&& *final(coordinator) == (PoolCoordinator {
                        main_in_use: (k.main_in_use + 1) as usize,
                        ..k
                    })
                } else {
                    &&& step == BackgroundStep::GateFull
                    &&& *final(self) == (Pool { counters: replacement_skipped(c), ..*old(self) })
                    &&& *final(coordinator) == k
                }
            }),
            replacement_begun(*old(self), *final(self), *old(coordinator), *final(coordinator), step),
    {
        if coordinator.available_main_permits() < 2 {
            self.skip_replacement();
            return BackgroundStep::LimitReached;
        }
        match coordinator.try_acquire() {
            None => {
                self.skip_replacement();
                BackgroundStep::LimitReached
            },
            Some(permit) => {
                if self.try_acquire_burst_gate() {
                    BackgroundStep::Create(Some(permit))
                } else {
                    coordinator.release(permit);
                    self.skip_replacement();
                    BackgroundStep::GateFull
                }
            },
        }
    }

    /// Counts a replacement that was not made.
    fn skip_replacement(&mut self)
        requires
            old(self).counters.pre_replacements_in_flight > 0,
        ensures
            *final(self) == (Pool {
                counters: replacement_skipped(old(self).counters),
                ..*old(self)
            }),
    {
        self.counters.pre_replacements_in_flight = self.counters.pre_replacements_in_flight - 1;
        self.counters.stats.pre_replacements_skipped =
            self.counters.stats.pre_replacements_skipped.wrapping_add(1);
    }

    /// The replacement is made: it becomes idle. The pool may have more
    /// connections than it should until the old one ends; no permit is added.
    pub fn replacement_made(&mut self, inner: ObjectInner)
        requires
            old(self).wf(),
            old(self).counters.inflight_creates > 0,
            old(self).counters.pre_replacements_in_flight > 0,
            old(self).counters.size < usize::MAX,
        ensures
            final(self).wf(),
            final(self).held() == old(self).held(),
            final(self).idle@ == inner::idle_with(old(self).config.queue_mode, old(self).idle@, inner),
            final(self).waiters@ == old(self).waiters@,
            final(self).mailbox@ == old(self).mailbox@,
            final(self).config == old(self).config,
            final(self).setup == old(self).setup,
            final(self).counters == (PoolCounters {
                size: (old(self).counters.size + 1) as usize,
                pre_replacements_in_flight: (old(self).counters.pre_replacements_in_flight - 1)
                    as usize,
                stats: ScalingStats {
                    pre_replacements_triggered: old(
                        self,
                    ).counters.stats.pre_replacements_triggered.wrapping_add(1),
                    ..old(self).counters.stats
                },
                ..gate_released(old(self).counters)
            }),
    {
        self.release_burst_gate();
        self.counters.size = self.counters.size + 1;
        self.counters.pre_replacements_in_flight = self.counters.pre_replacements_in_flight - 1;
        self.counters.stats.pre_replacements_triggered =
            self.counters.stats.pre_replacements_triggered.wrapping_add(1);
        push_idle(self.config.queue_mode, &mut self.idle, inner);
    }

    /// The replacement could not be made after all.
    pub fn replacement_failed(&mut self)
        requires
            old(self).counters.inflight_creates > 0,
            old(self).counters.pre_replacements_in_flight > 0,
        ensures
            *final(self) == (Pool {
                counters: replacement_skipped(gate_released(old(self).counters)),
                ..*old(self)
            }),
    {
        self.release_burst_gate();
        self.skip_replacement();
    }
}

/// The numbers of a pool after work ahead of need was put off.
pub open spec fn deferred(c: PoolCounters) -> PoolCounters {
    PoolCounters {
        stats: ScalingStats {
            replenish_deferred: c.stats.replenish_deferred.wrapping_add(1),
            ..c.stats
        },
        ..c
    }
}

/// The numbers of a pool after a replacement was not made.
pub open spec fn replacement_skipped(c: PoolCounters) -> PoolCounters {
    PoolCounters {
        pre_replacements_in_flight: (c.pre_replacements_in_flight - 1) as usize,
        stats: ScalingStats {
            pre_replacements_skipped: c.stats.pre_replacements_skipped.wrapping_add(1),
            ..c.stats
        },
        ..c
    }
}

/// A connection that is handed out now is replaced ahead of its end: it is in
/// the last part of a long lifetime, the pool is neither short of permits nor
/// paused, not too many replacements are under way, and few connections are
/// idle.
pub open spec fn replaces_ahead_in(
    c: PoolCounters,
    idle: nat,
    m: Metrics,
    paused: bool,
    now_ms: u64,
) -> bool {
    let age = types::elapsed(m.created_ms, now_ms);
    &&& m.lifetime_ms >= PRE_REPLACE_MIN_LIFETIME_MS
    &&& m.lifetime_ms * PRE_REPLACE_THRESHOLD_PCT / 100 <= age < m.lifetime_ms
    &&& c.permits > 0
    &&& !paused
    &&& c.size + c.pre_replacements_in_flight <= c.max_size + MAX_CONCURRENT_PRE_REPLACEMENTS
    &&& c.size > 0
    &&& idle * 100 / (c.size as nat) < 25
    &&& c.pre_replacements_in_flight < MAX_CONCURRENT_PRE_REPLACEMENTS
}

/// A connection of this pool is replaced ahead of its end.
pub open spec fn replaces_ahead(p: Pool, m: Metrics, paused: bool, now_ms: u64) -> bool {
    replaces_ahead_in(p.counters, p.idle@.len(), m, paused, now_ms)
}

/// A slot at the burst gate is one more connection being made, and giving it back one
/// fewer; nothing else of the pool's books is touched but the count of how many were
/// begun.
pub proof fn gate_slots_balance(c: PoolCounters)
    requires
        c.inflight_creates < usize::MAX,
    ensures
        gate_taken(c).inflight_creates == c.inflight_creates + 1,
        gate_released(gate_taken(c)).inflight_creates == c.inflight_creates,
        gate_taken(c).size == c.size,
        gate_taken(c).permits == c.permits,
        gate_taken(c).users == c.users,
        gate_taken(c).max_size == c.max_size,
        gate_taken(c).closed == c.closed,
        gate_taken(c).stats.creates_started == c.stats.creates_started.wrapping_add(1),
        deferred(c).inflight_creates == c.inflight_creates,
        deferred(c).size == c.size,
        deferred(c).permits == c.permits,
        c.pre_replacements_in_flight > 0 ==> replacement_skipped(c).pre_replacements_in_flight
            == c.pre_replacements_in_flight - 1,
        replacement_skipped(c).size == c.size,
        replacement_skipped(c).permits == c.permits,
        replacement_skipped(c).inflight_creates == c.inflight_creates,
{
}

/// The burst gate has a free slot while fewer connections are being made than may be.
pub proof fn gate_opens_below_its_limit(p: Pool)
    ensures
        gate_open(p) <==> p.counters.inflight_creates < p.config.scaling.max_parallel_creates,
{
}

/// A connection is replaced ahead of its end only in the last twentieth of a lifetime of
/// some length, and only where that helps: there is a free permit, the pool is not
/// paused, fewer than three replacements are under way and less than a quarter of the
/// connections is idle.
pub proof fn replacement_begins_near_the_end(
    c: PoolCounters,
    idle: nat,
    m: Metrics,
    paused: bool,
    now_ms: u64,
)
    ensures
        replaces_ahead_in(c, idle, m, paused, now_ms) ==> {
            &&& m.lifetime_ms >= PRE_REPLACE_MIN_LIFETIME_MS
            &&& now_ms - m.created_ms < m.lifetime_ms
            &&& now_ms >= m.created_ms ==> 100 * (now_ms - m.created_ms) + 100 > 95 * m.lifetime_ms
            &&& c.permits > 0
            &&& !paused
            &&& c.pre_replacements_in_flight < 3
            &&& c.size > 0
            &&& 4 * idle < c.size + 4
            &&& c.size + c.pre_replacements_in_flight <= c.max_size + 3
        },
        m.lifetime_ms >= PRE_REPLACE_MIN_LIFETIME_MS && now_ms >= m.created_ms && 100 * (now_ms
            - m.created_ms) >= 95 * m.lifetime_ms && now_ms - m.created_ms < m.lifetime_ms
            && c.permits > 0 && !paused && c.pre_replacements_in_flight < 3 && idle == 0 && c.size
            > 0 && c.size <= c.max_size ==> replaces_ahead_in(c, idle, m, paused, now_ms),
{
    if c.size > 0 {
        let size = c.size as int;
        let share = (idle * 100) as int / size;
        assert(share * size <= idle * 100 < share * size + size) by (nonlinear_arith)
            requires
                size > 0,
                share == (idle * 100) as int / size,
        ;
        if share < 25 {
            assert(share * size <= 24 * size) by (nonlinear_arith)
                requires
                    share <= 24,
                    size > 0,
            ;
        }
        if idle == 0 {
            assert(share == 0) by (nonlinear_arith)
                requires
                    size > 0,
                    share == 0int / size,
            ;
        }
    }
}

/// A replacement that is given up is no longer on its way and counts as skipped; one that
/// is put off is counted and changes nothing else.
pub proof fn skipped_replacements_are_counted(c: PoolCounters)
    requires
        c.pre_replacements_in_flight > 0,
    ensures
        replacement_skipped(c).pre_replacements_in_flight == c.pre_replacements_in_flight - 1,
        replacement_skipped(c).stats.pre_replacements_skipped
            == c.stats.pre_replacements_skipped.wrapping_add(1),
        replacement_skipped(c).size == c.size,
        replacement_skipped(c).permits == c.permits,
        deferred(c).stats.replenish_deferred == c.stats.replenish_deferred.wrapping_add(1),
        deferred(c).size == c.size,
        deferred(c).permits == c.permits,
        deferred(c).inflight_creates == c.inflight_creates,
        gate_taken(c).stats.creates_started == c.stats.creates_started.wrapping_add(1),
{
}

/// What comes of the wish for a connection ahead of need, in a limited database.
pub open spec fn begun_ahead(
    before: Pool,
    after: Pool,
    limit: PoolCoordinator,
    limit_after: PoolCoordinator,
    step: BackgroundStep,
) -> bool {
    let c = before.counters;
    let room = limit.main_in_use < limit.config.max_db_connections;
    if c.size < c.max_size && room && gate_open(before) {
        &&& step == BackgroundStep::Create(Some(CoordinatorPermit { is_reserve: false }))
        &&& after.counters == gate_taken(c)
        &&& limit_after.main_in_use == limit.main_in_use + 1
    } else {
        &&& !(step is Create)
        &&& after.counters.inflight_creates == c.inflight_creates
        &&& limit_after == limit
        &&& step == BackgroundStep::Full <==> c.size >= c.max_size
        &&& step == BackgroundStep::LimitReached <==> c.size < c.max_size && !room
    }
}

/// A connection is made ahead of need only if the pool, the limit of its database and the
/// burst gate all have room for it; then it takes a place in the limit and a slot, and
/// otherwise it takes neither.
pub proof fn nothing_is_made_beyond_the_limits(
    before: Pool,
    after: Pool,
    limit: PoolCoordinator,
    limit_after: PoolCoordinator,
    step: BackgroundStep,
)
    requires
        begun_ahead(before, after, limit, limit_after, step),
        limit.wf(),
        before.counters.inflight_creates < usize::MAX,
    ensures
        step is Create <==> before.counters.size < before.counters.max_size && limit.main_in_use
            < limit.config.max_db_connections && before.counters.inflight_creates
            < before.config.scaling.max_parallel_creates,
        step is Create ==> limit_after.main_in_use == limit.main_in_use + 1
            && limit_after.main_in_use <= limit.config.max_db_connections
            && after.counters.inflight_creates == before.counters.inflight_creates + 1,
        !(step is Create) ==> limit_after == limit && after.counters.inflight_creates
            == before.counters.inflight_creates,
{
}

/// What comes of the wish for a replacement, in a limited database.
pub open spec fn replacement_begun(
    before: Pool,
    after: Pool,
    limit: PoolCoordinator,
    limit_after: PoolCoordinator,
    step: BackgroundStep,
) -> bool {
    let c = before.counters;
    if limit.main_in_use + 2 <= limit.config.max_db_connections && gate_open(before) {
        &&& step == BackgroundStep::Create(Some(CoordinatorPermit { is_reserve: false }))
        &&& after.counters == gate_taken(c)
        &&& limit_after.main_in_use == limit.main_in_use + 1
    } else {
        &&& !(step is Create)
        &&& after.counters == replacement_skipped(c)
        &&& limit_after == limit
    }
}

/// A replacement is made only if the limit of the database has room for one connection
/// more besides it, and the burst gate is open; otherwise it is given up and takes nothing.
pub proof fn replacements_leave_room_for_others(
    before: Pool,
    after: Pool,
    limit: PoolCoordinator,
    limit_after: PoolCoordinator,
    step: BackgroundStep,
)
    requires
        replacement_begun(before, after, limit, limit_after, step),
        limit.wf(),
        before.counters.inflight_creates < usize::MAX,
        before.counters.pre_replacements_in_flight > 0,
    ensures
        step is Create <==> limit.config.max_db_connections - limit.main_in_use >= 2
            && before.counters.inflight_creates < before.config.scaling.max_parallel_creates,
        step is Create ==> limit_after.main_in_use == limit.main_in_use + 1
            && limit_after.main_in_use < limit.config.max_db_connections
            && after.counters.inflight_creates == before.counters.inflight_creates + 1
            && after.counters.pre_replacements_in_flight
            == before.counters.pre_replacements_in_flight,
        !(step is Create) ==> limit_after == limit && after.counters.inflight_creates
            == before.counters.inflight_creates && after.counters.pre_replacements_in_flight
            == before.counters.pre_replacements_in_flight - 1,
{
}

} // verus!
