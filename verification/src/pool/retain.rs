//! The regular round: closing connections that have outlived their time, and
//! finding out which pools have to be filled up.
use rand::seq::SliceRandom;
use vstd::prelude::*;
use crate::pool::connection_pool::ConnectionPool;
use crate::pool::id_map::{IdMap, PoolIdentifier};
use crate::pool::inner::ObjectInner;
#[allow(unused_imports)]
use crate::pool::pool_coordinator::CoordinatorPermit;
use crate::pool::pool_coordinator::PoolCoordinator;
use crate::pool::registry::Registry;
use crate::pool::types::Metrics;
use crate::server::server_backend::Server;
use crate::string_map::StringMap;
#[allow(unused_imports)]
use crate::pool::id_map;
#[allow(unused_imports)]
use crate::pool::id_map::Id;
#[allow(unused_imports)]
use crate::pool::inner;
#[allow(unused_imports)]
use crate::pool::inner::{Pool, PoolCounters, PoolSetup};
#[allow(unused_imports)]
use crate::pool::server_pool;
#[allow(unused_imports)]
use crate::pool::server_pool::ServerPool;
#[allow(unused_imports)]
use crate::pool::types;

verus! {

/// A connection has been idle for too long, or has outlived its time.
pub open spec fn expired(m: Metrics, now_ms: u64) -> bool {
    ||| m.idle_timeout_ms > 0 && m.recycled_ms.is_some() && types::elapsed(
        m.recycled_ms.unwrap(),
        now_ms,
    ) > m.idle_timeout_ms
    ||| m.lifetime_ms > 0 && types::elapsed(m.created_ms, now_ms) > m.lifetime_ms
}

/// Whether a connection has been idle for too long, or has outlived its time.
fn is_expired(m: &Metrics, now_ms: u64) -> (r: bool)
    ensures
        r == expired(*m, now_ms),
{
    let idle = match m.recycled_ms {
        Some(since) => m.idle_timeout_ms > 0 && now_ms >= since && now_ms - since
            > m.idle_timeout_ms,
        None => false,
    };
    idle || (m.lifetime_ms > 0 && m.age(now_ms) > m.lifetime_ms)
}

/// Which connections have been idle for too long or have outlived their time.
pub open spec fn expired_flags(s: Seq<ObjectInner>, now_ms: u64) -> Seq<bool> {
    Seq::new(s.len(), |i: int| expired(s[i].metrics, now_ms))
}

/// A number, or the largest that can be counted.
pub open spec fn as_count(n: int) -> usize {
    if n <= usize::MAX {
        n as usize
    } else {
        usize::MAX
    }
}

/// The connections that the round closes in one pool, if it closes any: those that
/// have expired, the oldest first, as long as the round has closed fewer than it
/// may. 0 sets no limit.
pub open spec fn trimmed(
    before: Pool,
    after: Pool,
    closed: Seq<ObjectInner>,
    count: usize,
    max: usize,
    now_ms: u64,
) -> bool {
    if before.counters.permits == 0 || (max > 0 && count >= max) {
        closed.len() == 0 && after == before
    } else {
        inner::closed_flagged(
            before,
            after,
            closed,
            inner::oldest_first(
                inner::ages(before.idle@, now_ms),
                expired_flags(before.idle@, now_ms),
                if max > 0 {
                    (max - count) as nat
                } else {
                    0
                },
            ),
        )
    }
}

/// All idle connections are closed, and the others are marked for removal: they
/// are of an older epoch.
pub open spec fn emptied(before: Pool, after: Pool, closed: Seq<ObjectInner>) -> bool {
    &&& closed == before.idle@
    &&& after.idle@.len() == 0
    &&& after.waiters@ == before.waiters@
    &&& after.mailbox@ == before.mailbox@
    &&& after.config == before.config
    &&& after.setup == (PoolSetup {
        server_pool: ServerPool {
            pool_state: server_pool::bumped(before.setup.server_pool.pool_state),
            ..before.setup.server_pool
        },
        ..before.setup
    })
    &&& after.counters == (PoolCounters {
        size: (before.counters.size - before.idle@.len()) as usize,
        ..before.counters
    })
    &&& after.wf()
    &&& after.held() == before.held()
}

impl ConnectionPool {
    /// Closes connections that have been idle for too long or have outlived their
    /// time; `count` holds how many the round has closed so far. While clients
    /// wait for a connection none is closed.
    pub fn retain_pool_connections(&mut self, count: &mut usize, max: usize, now_ms: u64) -> (closed:
        Vec<ObjectInner>)
        requires
            old(self).database.wf(),
        ensures
            trimmed(
                old(self).database,
                final(self).database,
                closed@,
                *old(count),
                max,
                now_ms,
            ),
            *final(count) == as_count(*old(count) + closed@.len()),
            *final(self) == (ConnectionPool { database: final(self).database, ..*old(self) }),
            final(self).database.wf(),
            closed@.len() <= old(self).database.idle@.len(),
            max > 0 && *old(count) < max ==> *old(count) + closed@.len() <= max,
            max > 0 && *old(count) >= max ==> closed@.len() == 0,
    {
        if self.database.under_pressure() {
            return Vec::new();
        }
        if max > 0 && *count >= max {
            return Vec::new();
        }
        let quota: usize = if max > 0 {
            max - *count
        } else {
            0
        };
        let should_close = |_server: &Server, metrics: &Metrics| -> (r: bool)
            ensures
                r == expired(*metrics, now_ms),
            { is_expired(metrics, now_ms) };
        let ghost idle = self.database.idle@;
        let closed = self.database.retain_oldest_first(should_close, quota, now_ms);
        proof {
            let candidates = choose|c: Seq<bool>|
                #![trigger inner::said_of(should_close, idle, c)]
                inner::said_of(should_close, idle, c) && inner::closed_flagged(
                    old(self).database,
                    self.database,
                    closed@,
                    inner::oldest_first(inner::ages(idle, now_ms), c, quota as nat),
                );
            assert(candidates =~= expired_flags(idle, now_ms)) by {
                assert forall|i: int| 0 <= i < idle.len() implies candidates[i] == expired(
                    #[trigger] idle[i].metrics,
                    now_ms,
                ) by {
                    assert(call_ensures(
                        should_close,
                        (&idle[i].obj, &idle[i].metrics),
                        candidates[i],
                    ));
                }
            }
            let flags = inner::oldest_first(inner::ages(idle, now_ms), candidates, quota as nat);
            inner::picked_is_set_count(idle, flags);
            if max > 0 {
                inner::oldest_are_closed_up_to_the_limit(
                    inner::ages(idle, now_ms),
                    candidates,
                    quota as nat,
                );
            }
        }
        *count = (*count).saturating_add(closed.len());
        closed
    }

    /// Closes every idle connection, and marks the others for removal: they are
    /// closed when they come back. Returns how many were closed, and the
    /// connections.
    pub fn drain_idle_connections(&mut self) -> (r: (usize, Vec<ObjectInner>))
        requires
            old(self).database.wf(),
        ensures
            emptied(old(self).database, final(self).database, r.1@),
            r.0 == r.1@.len(),
            *final(self) == (ConnectionPool { database: final(self).database, ..*old(self) }),
    {
        let (_, closed) = self.database.reconnect();
        (closed.len(), closed)
    }

    /// How many connections the pool lacks, if it is to be filled up. A paused
    /// pool is not.
    pub fn replenish_deficit(&self) -> (r: Option<usize>)
        ensures
            ({
                let size = self.database.counters.size;
                let paused = server_pool::paused_in(self.database.setup.server_pool.pool_state);
                match self.settings.user.min_pool_size {
                    Some(min) => r == if !paused && size < min as usize {
                        Some((min as usize - size) as usize)
                    } else {
                        None
                    },
                    None => r.is_none(),
                }
            }),
            r == lacking(
                self.database.counters.size,
                self.settings.user.min_pool_size,
                server_pool::paused_in(self.database.setup.server_pool.pool_state),
            ),
    {
        if self.database.is_paused() {
            return None;
        }
        match self.settings.user.min_pool_size {
            Some(min) => {
                let size: usize = self.database.status().size;
                if size < min as usize {
                    Some(min as usize - size)
                } else {
                    None
                }
            },
            None => None,
        }
    }

    /// Notes how the pool was filled up, and says what is to be reported.
    pub fn replenished(&mut self, created: usize) -> (r: Replenished)
        ensures
            ({
                let failures = old(self).replenish_failures;
                let now = failures.wrapping_add(1);
                if created > 0 {
                    &&& *final(self) == (ConnectionPool { replenish_failures: 0, ..*old(self) })
                    &&& r == if failures > 0 {
                        Replenished::Recovered(failures)
                    } else {
                        Replenished::Filled
                    }
                } else {
                    &&& *final(self) == (ConnectionPool { replenish_failures: now, ..*old(self) })
                    &&& r == if now == 1 {
                        Replenished::Failed
                    } else if now % 20 == 0 {
                        Replenished::StillFailing(now)
                    } else {
                        Replenished::Silent
                    }
                }
            }),
    {
        if created > 0 {
            let failures: u32 = self.replenish_failures;
            self.replenish_failures = 0;
            if failures > 0 {
                Replenished::Recovered(failures)
            } else {
                Replenished::Filled
            }
        } else {
            let failures: u32 = self.replenish_failures.wrapping_add(1);
            self.replenish_failures = failures;
            if failures == 1 {
                Replenished::Failed
            } else if failures % 20 == 0 {
                Replenished::StillFailing(failures)
            } else {
                Replenished::Silent
            }
        }
    }
}

/// What is reported after a pool was filled up, or was not.
#[derive(Debug, Clone, Copy, PartialEq, Eq, Structural)]
pub enum Replenished {
    Filled,
    /// It was, after so many failures.
    Recovered(u32),
    Failed,
    /// It was not, for so many times in a row.
    StillFailing(u32),
    /// It was not, but that was reported not long ago.
    Silent,
}

/// The idle connections of the reserve that the limit proper has room for count
/// against that now.
pub open spec fn upgraded_in(before: Pool, after: Pool, c: PoolCoordinator) -> bool {
    &&& after.idle@ == inner::upgraded_up_to(before.idle@, inner::upgrade_room(c))
    &&& after.counters == before.counters
    &&& after.config == before.config
    &&& after.setup == before.setup
    &&& after.waiters@ == before.waiters@
    &&& after.mailbox@ == before.mailbox@
}

/// The limit of a database after connections of the reserve were upgraded.
pub open spec fn after_upgrade(c: PoolCoordinator, idle: Seq<ObjectInner>) -> PoolCoordinator {
    let n = inner::at_most(inner::reserve_count(idle, idle.len()), inner::upgrade_room(c));
    PoolCoordinator {
        main_in_use: (c.main_in_use + n) as usize,
        reserve_in_use: (c.reserve_in_use - n) as usize,
        ..c
    }
}

/// A pool and the limits of the databases after the reserve was relieved:
/// connections of the reserve count against the limit proper where that has room,
/// and those that then still belong to the reserve and have been idle for long are
/// closed.
pub open spec fn relieved(
    before: ConnectionPool,
    after: ConnectionPool,
    limits: Map<Seq<char>, PoolCoordinator>,
    limits_after: Map<Seq<char>, PoolCoordinator>,
    closed: Seq<ObjectInner>,
    now_ms: u64,
) -> bool {
    let name = before.address.pool_name@;
    if before.database.counters.permits == 0 || !limits.contains_key(name) {
        after == before && limits_after == limits && closed.len() == 0
    } else {
        let c = limits[name];
        &&& after == (ConnectionPool { database: after.database, ..before })
        &&& limits_after == limits.insert(name, after_upgrade(c, before.database.idle@))
        &&& exists|mid: Pool| #[trigger]
            upgraded_in(before.database, mid, c) && inner::closed_flagged(
                mid,
                after.database,
                closed,
                inner::stale_reserve(mid.idle@, c.config.min_connection_lifetime_ms, now_ms),
            )
    }
}

/// Every limit has counted no more than it allows.
pub open spec fn limits_wf(limits: Map<Seq<char>, PoolCoordinator>) -> bool {
    forall|n: Seq<char>| #[trigger] limits.contains_key(n) ==> limits[n].wf()
}

impl ConnectionPool {
    /// Relieves the reserve of the pool's database.
    pub fn relieve_reserve(
        &mut self,
        limits: &mut StringMap<PoolCoordinator>,
        now_ms: u64,
    ) -> (closed: Vec<ObjectInner>)
        requires
            old(self).database.wf(),
            limits_wf(old(limits)@),
        ensures
            relieved(*old(self), *final(self), old(limits)@, final(limits)@, closed@, now_ms),
            final(self).database.wf(),
            limits_wf(final(limits)@),
    {
        if self.database.under_pressure() {
            return Vec::new();
        }
        let ghost before = *self;
        let ghost start = limits@;
        match limits.remove(self.address.pool_name.as_str()) {
            None => {
                assert(limits@ =~= start);
                Vec::new()
            },
            Some(coordinator) => {
                let mut coordinator = coordinator;
                let ghost c = coordinator;
                let _ = self.database.upgrade_reserve_to_main(&mut coordinator);
                let ghost mid = self.database;
                let min_ms: u64 = coordinator.config.min_connection_lifetime_ms;
                let closed = self.database.close_idle_reserve_connections(min_ms, now_ms);
                let ghost after = coordinator;
                let _ = limits.insert(self.address.pool_name.clone(), coordinator);
                proof {
                    assert(upgraded_in(before.database, mid, c));
                    assert(limits@ =~= start.insert(before.address.pool_name@, after));
                }
                closed
            },
        }
    }
}

/// The pools, the limits, and the connections that were closed so far.
pub struct Stage {
    pub pools: Seq<ConnectionPool>,
    pub limits: Map<Seq<char>, PoolCoordinator>,
    pub closed: Seq<ObjectInner>,
}

/// One pool was changed, and more connections were closed.
pub open spec fn one_more(a: Stage, b: Stage, k: int) -> bool {
    &&& b.pools == a.pools.update(k, b.pools[k])
    &&& a.closed.len() <= b.closed.len()
    &&& b.closed.take(a.closed.len() as int) == a.closed
}

/// The reserve was relieved in one pool.
pub open spec fn relief_stage(a: Stage, b: Stage, k: int, now_ms: u64) -> bool {
    &&& one_more(a, b, k)
    &&& relieved(
        a.pools[k],
        b.pools[k],
        a.limits,
        b.limits,
        b.closed.skip(a.closed.len() as int),
        now_ms,
    )
}

/// Connections that have outlived their time were closed in one pool.
pub open spec fn trim_stage(a: Stage, b: Stage, k: int, max: usize, now_ms: u64) -> bool {
    &&& one_more(a, b, k)
    &&& b.limits == a.limits
    &&& b.pools[k] == (ConnectionPool { database: b.pools[k].database, ..a.pools[k] })
    &&& trimmed(
        a.pools[k].database,
        b.pools[k].database,
        b.closed.skip(a.closed.len() as int),
        as_count(a.closed.len() as int),
        max,
        now_ms,
    )
}

/// From one stage to another by relieving the reserve, pool by pool in this order.
pub open spec fn relief_run(run: Seq<Stage>, order: Seq<usize>, now_ms: u64) -> bool {
    &&& run.len() == order.len() + 1
    &&& forall|i: int|
        0 <= i < order.len() ==> relief_stage(run[i], run[i + 1], #[trigger] order[i] as int, now_ms)
}

/// From one stage to another by closing connections that have outlived their time,
/// pool by pool in this order.
pub open spec fn trim_run(run: Seq<Stage>, order: Seq<usize>, max: usize, now_ms: u64) -> bool {
    &&& run.len() == order.len() + 1
    &&& forall|i: int|
        0 <= i < order.len() ==> trim_stage(
            run[i],
            run[i + 1],
            #[trigger] order[i] as int,
            max,
            now_ms,
        )
}

/// What the reserve's relief leads to.
pub open spec fn relief(a: Stage, b: Stage, order: Seq<usize>, now_ms: u64) -> bool {
    exists|run: Seq<Stage>| #[trigger]
        relief_run(run, order, now_ms) && run[0] == a && run.last() == b
}

/// What closing connections that have outlived their time leads to.
pub open spec fn trimming(a: Stage, b: Stage, order: Seq<usize>, max: usize, now_ms: u64) -> bool {
    exists|run: Seq<Stage>| #[trigger]
        trim_run(run, order, max, now_ms) && run[0] == a && run.last() == b
}

/// The values of stored entries.
pub open spec fn values_of(entries: Seq<(PoolIdentifier, ConnectionPool)>) -> Seq<ConnectionPool> {
    Seq::new(entries.len(), |i: int| entries[i].1)
}

/// The values of a listing.
pub open spec fn listed_values(s: Seq<(Id, ConnectionPool)>) -> Seq<ConnectionPool> {
    Seq::new(s.len(), |i: int| s[i].1)
}

/// Stored entries have these identifiers.
pub open spec fn same_ids(
    a: Seq<(PoolIdentifier, ConnectionPool)>,
    b: Seq<(PoolIdentifier, ConnectionPool)>,
) -> bool {
    &&& a.len() == b.len()
    &&& forall|i: int| 0 <= i < a.len() ==> (#[trigger] a[i]).0 == b[i].0
}

/// All pools have counted their connections.
pub open spec fn pools_wf(pools: Seq<ConnectionPool>) -> bool {
    forall|i: int| 0 <= i < pools.len() ==> (#[trigger] pools[i]).database.wf()
}

/// A longer run.
proof fn relief_grows(run: Seq<Stage>, order: Seq<usize>, next: Stage, k: usize, now_ms: u64)
    requires
        relief_run(run, order, now_ms),
        relief_stage(run.last(), next, k as int, now_ms),
    ensures
        relief_run(run.push(next), order.push(k), now_ms),
{
    let longer = run.push(next);
    let more = order.push(k);
    assert forall|i: int| 0 <= i < more.len() implies relief_stage(
        longer[i],
        longer[i + 1],
        #[trigger] more[i] as int,
        now_ms,
    ) by {
        if i < order.len() {
            assert(order[i] == more[i]);
        }
    }
}

/// A longer run.
proof fn trimming_grows(
    run: Seq<Stage>,
    order: Seq<usize>,
    next: Stage,
    k: usize,
    max: usize,
    now_ms: u64,
)
    requires
        trim_run(run, order, max, now_ms),
        trim_stage(run.last(), next, k as int, max, now_ms),
    ensures
        trim_run(run.push(next), order.push(k), max, now_ms),
{
    let longer = run.push(next);
    let more = order.push(k);
    assert forall|i: int| 0 <= i < more.len() implies trim_stage(
        longer[i],
        longer[i + 1],
        #[trigger] more[i] as int,
        max,
        now_ms,
    ) by {
        if i < order.len() {
            assert(order[i] == more[i]);
        }
    }
}

/// Relieves the reserve, pool by pool.
fn relieve_all(
    entries: &mut Vec<(PoolIdentifier, ConnectionPool)>,
    limits: &mut StringMap<PoolCoordinator>,
    order: &Vec<usize>,
    now_ms: u64,
) -> (closed: Vec<ObjectInner>)
    requires
        pools_wf(values_of(old(entries)@)),
        limits_wf(old(limits)@),
        forall|i: int| 0 <= i < order@.len() ==> (#[trigger] order@[i]) < old(entries)@.len(),
    ensures
        same_ids(final(entries)@, old(entries)@),
        pools_wf(values_of(final(entries)@)),
        limits_wf(final(limits)@),
        relief(
            Stage {
                pools: values_of(old(entries)@),
                limits: old(limits)@,
                closed: Seq::empty(),
            },
            Stage {
                pools: values_of(final(entries)@),
                limits: final(limits)@,
                closed: closed@,
            },
            order@,
            now_ms,
        ),
{
    let mut closed: Vec<ObjectInner> = Vec::new();
    let ghost start = entries@;
    let ghost first = Stage {
        pools: values_of(entries@),
        limits: limits@,
        closed: Seq::empty(),
    };
    let ghost mut run = seq![first];
    let mut i: usize = 0;
    assert(order@.take(0) =~= Seq::<usize>::empty());
    assert(closed@ =~= Seq::<ObjectInner>::empty());
    while i < order.len()
        invariant
            i <= order@.len(),
            start == old(entries)@,
            first == (Stage {
                pools: values_of(start),
                limits: old(limits)@,
                closed: Seq::<ObjectInner>::empty(),
            }),
            same_ids(entries@, start),
            pools_wf(values_of(entries@)),
            limits_wf(limits@),
            forall|j: int| 0 <= j < order@.len() ==> (#[trigger] order@[j]) < start.len(),
            relief_run(run, order@.take(i as int), now_ms),
            run[0] == first,
            run.last() == (Stage {
                pools: values_of(entries@),
                limits: limits@,
                closed: closed@,
            }),
        decreases order@.len() - i,
    {
        let k: usize = order[i];
        let ghost was = entries@;
        let ghost closed1 = closed@;
        let (id, pool) = entries.remove(k);
        let mut pool = pool;
        proof {
            assert(values_of(was)[k as int] == pool);
        }
        let mut now = pool.relieve_reserve(limits, now_ms);
        let ghost more = now@;
        let ghost new_pool = pool;
        entries.insert(k, (id, pool));
        closed.append(&mut now);
        proof {
            assert(entries@ =~= was.update(k as int, (was[k as int].0, new_pool)));
            assert(values_of(entries@) =~= values_of(was).update(k as int, new_pool));
            assert(order@.take(i + 1) =~= order@.take(i as int).push(k));
            assert(closed@ =~= closed1 + more);
            assert(closed@.take(closed1.len() as int) =~= closed1);
            assert(closed@.skip(closed1.len() as int) =~= more);
            let next = Stage {
                pools: values_of(entries@),
                limits: limits@,
                closed: closed@,
            };
            relief_grows(run, order@.take(i as int), next, k, now_ms);
            run = run.push(next);
        }
        i = i + 1;
    }
    assert(order@.take(order@.len() as int) =~= order@);
    closed
}

/// Closes connections that have outlived their time, pool by pool.
fn trim_all(
    entries: &mut Vec<(PoolIdentifier, ConnectionPool)>,
    order: &Vec<usize>,
    max: usize,
    now_ms: u64,
    Ghost(limits): Ghost<Map<Seq<char>, PoolCoordinator>>,
) -> (closed: Vec<ObjectInner>)
    requires
        pools_wf(values_of(old(entries)@)),
        forall|i: int| 0 <= i < order@.len() ==> (#[trigger] order@[i]) < old(entries)@.len(),
    ensures
        same_ids(final(entries)@, old(entries)@),
        pools_wf(values_of(final(entries)@)),
        trimming(
            Stage { pools: values_of(old(entries)@), limits, closed: Seq::empty() },
            Stage { pools: values_of(final(entries)@), limits, closed: closed@ },
            order@,
            max,
            now_ms,
        ),
        max > 0 ==> closed@.len() <= max,
{
    let mut closed: Vec<ObjectInner> = Vec::new();
    let ghost start = entries@;
    let ghost first = Stage { pools: values_of(entries@), limits, closed: Seq::empty() };
    let ghost mut run = seq![first];
    let mut i: usize = 0;
    assert(order@.take(0) =~= Seq::<usize>::empty());
    assert(closed@ =~= Seq::<ObjectInner>::empty());
    while i < order.len()
        invariant
            i <= order@.len(),
            start == old(entries)@,
            first == (Stage {
                pools: values_of(start),
                limits,
                closed: Seq::<ObjectInner>::empty(),
            }),
            same_ids(entries@, start),
            pools_wf(values_of(entries@)),
            forall|j: int| 0 <= j < order@.len() ==> (#[trigger] order@[j]) < start.len(),
            max > 0 ==> closed@.len() <= max,
            trim_run(run, order@.take(i as int), max, now_ms),
            run[0] == first,
            run.last() == (Stage { pools: values_of(entries@), limits, closed: closed@ }),
        decreases order@.len() - i,
    {
        let k: usize = order[i];
        let ghost was = entries@;
        let ghost closed1 = closed@;
        let mut count: usize = closed.len();
        let (id, pool) = entries.remove(k);
        let mut pool = pool;
        proof {
            assert(values_of(was)[k as int] == pool);
        }
        let mut now = pool.retain_pool_connections(&mut count, max, now_ms);
        let ghost more = now@;
        let ghost new_pool = pool;
        entries.insert(k, (id, pool));
        closed.append(&mut now);
        proof {
            assert(entries@ =~= was.update(k as int, (was[k as int].0, new_pool)));
            assert(values_of(entries@) =~= values_of(was).update(k as int, new_pool));
            assert(order@.take(i + 1) =~= order@.take(i as int).push(k));
            assert(closed@ =~= closed1 + more);
            assert(closed@.take(closed1.len() as int) =~= closed1);
            assert(closed@.skip(closed1.len() as int) =~= more);
            let next = Stage { pools: values_of(entries@), limits, closed: closed@ };
            trimming_grows(run, order@.take(i as int), next, k, max, now_ms);
            run = run.push(next);
        }
        i = i + 1;
    }
    assert(order@.take(order@.len() as int) =~= order@);
    closed
}

/// `rand::seq::SliceRandom::shuffle` with the generator of the thread: the same
/// numbers in any order.
#[verifier::external_body]
fn shuffle(order: &mut Vec<usize>)
    ensures
        final(order)@.to_multiset() == old(order)@.to_multiset(),
{
    order.shuffle(&mut rand::rng());
}

/// An order in which every one of the first `n` numbers comes once.
pub open spec fn is_order(order: Seq<usize>, n: nat) -> bool {
    &&& order.len() == n
    &&& order.no_duplicates()
    &&& forall|k: usize| #[trigger] order.contains(k) <==> k < n
}

/// The numbers from 0 on, in their order.
pub open spec fn counting(n: nat) -> Seq<usize> {
    Seq::new(n, |i: int| i as usize)
}

/// The same numbers in another order.
proof fn shuffled_is_order(order: Seq<usize>, n: nat)
    requires
        n <= usize::MAX,
        order.to_multiset() == counting(n).to_multiset(),
    ensures
        is_order(order, n),
{
    broadcast use vstd::seq_lib::group_to_multiset_ensures;

    let s = counting(n);
    assert(order.len() == s.len()) by {
        assert(order.to_multiset().len() == order.len());
        assert(s.to_multiset().len() == s.len());
    }
    s.lemma_multiset_has_no_duplicates();
    assert(s.no_duplicates());
    order.lemma_multiset_has_no_duplicates_conv();
    assert forall|k: usize| #[trigger] order.contains(k) <==> k < n by {
        assert(order.contains(k) <==> order.to_multiset().count(k) > 0);
        assert(s.contains(k) <==> s.to_multiset().count(k) > 0);
        if k < n {
            assert(s[k as int] == k);
        }
    }
}

/// A random order of the first `n` numbers, so that no pool is always the first to
/// be looked at.
pub fn random_order(n: usize) -> (order: Vec<usize>)
    ensures
        is_order(order@, n as nat),
{
    let mut order: Vec<usize> = Vec::new();
    let mut i: usize = 0;
    while i < n
        invariant
            i <= n,
            order@ =~= counting(i as nat),
        decreases n - i,
    {
        order.push(i);
        i = i + 1;
    }
    shuffle(&mut order);
    proof {
        shuffled_is_order(order@, n as nat);
    }
    order
}

/// The registry after a round in this order.
pub open spec fn round(
    before: Registry,
    after: Registry,
    order: Seq<usize>,
    max: usize,
    now_ms: u64,
    released: Seq<ObjectInner>,
    expired: Seq<ObjectInner>,
) -> bool {
    let s = before.pools.listing();
    let t = after.pools.listing();
    &&& t.len() == s.len()
    &&& forall|i: int| 0 <= i < s.len() ==> (#[trigger] t[i]).0 == s[i].0
    &&& after.dynamic == before.dynamic
    &&& after.auth_query == before.auth_query
    &&& after.previous_general_startup_hash == before.previous_general_startup_hash
    &&& after.clients_mapped == before.clients_mapped
    &&& exists|mid: Seq<ConnectionPool>|
        #![trigger relief(
            Stage {
                pools: listed_values(s),
                limits: before.coordinators@,
                closed: Seq::empty(),
            },
            Stage { pools: mid, limits: after.coordinators@, closed: released },
            order,
            now_ms,
        )]
        {
            &&& relief(
                Stage {
                    pools: listed_values(s),
                    limits: before.coordinators@,
                    closed: Seq::empty(),
                },
                Stage { pools: mid, limits: after.coordinators@, closed: released },
                order,
                now_ms,
            )
            &&& trimming(
                Stage { pools: mid, limits: after.coordinators@, closed: Seq::empty() },
                Stage {
                    pools: listed_values(t),
                    limits: after.coordinators@,
                    closed: expired,
                },
                order,
                max,
                now_ms,
            )
        }
}

/// The pools and limits of a registry have counted what they should.
pub open spec fn counts_wf(registry: Registry) -> bool {
    pools_wf(listed_values(registry.pools.listing())) && limits_wf(registry.coordinators@)
}

/// The regular round over all pools in this order: the reserve is relieved, then
/// connections that have outlived their time are closed, `max` at most unless that
/// is 0. Returns the connections that left the reserve's books and those that have
/// outlived their time.
pub fn retain_in_order(registry: &mut Registry, order: &Vec<usize>, max: usize, now_ms: u64) -> (r:
    (Vec<ObjectInner>, Vec<ObjectInner>))
    requires
        counts_wf(*old(registry)),
        is_order(order@, old(registry).pools.listing().len()),
    ensures
        round(*old(registry), *final(registry), order@, max, now_ms, r.0@, r.1@),
        counts_wf(*final(registry)),
        max > 0 ==> r.1@.len() <= max,
{
    let mut pools: IdMap<ConnectionPool> = IdMap::new();
    std::mem::swap(&mut pools, &mut registry.pools);
    let ghost s = pools.listing();
    let mut entries = pools.into_entries();
    let ghost start = entries@;
    proof {
        assert(values_of(start) =~= listed_values(s)) by {
            assert forall|i: int| 0 <= i < s.len() implies values_of(start)[i] == (
            #[trigger] listed_values(s)[i]) by {
                assert(id_map::id_listing(start)[i] == s[i]);
            }
        }
        assert forall|i: int| 0 <= i < order@.len() implies (#[trigger] order@[i])
            < entries@.len() by {
            assert(order@.contains(order@[i]));
        }
    }
    let released = relieve_all(&mut entries, &mut registry.coordinators, order, now_ms);
    let expired = trim_all(&mut entries, order, max, now_ms, Ghost(registry.coordinators@));
    proof {
        assert(same_ids(entries@, start));
        let t = id_map::id_listing(entries@);
        assert forall|i: int| 0 <= i < s.len() implies (#[trigger] t[i]).0 == s[i].0 by {
            assert(id_map::id_listing(start)[i] == s[i]);
            assert(entries@[i].0 == start[i].0);
        }
        assert forall|a: int, b: int| 0 <= a < b < t.len() implies (#[trigger] t[a]).0 != (
        #[trigger] t[b]).0 by {
            assert(s[a].0 != s[b].0);
        }
        assert(values_of(entries@) =~= listed_values(t));
    }
    registry.pools = IdMap::from_entries(entries);
    (released, expired)
}

/// The regular round over all pools, in a random order.
pub fn retain_connections(registry: &mut Registry, max: usize, now_ms: u64) -> (r: (
    Vec<ObjectInner>,
    Vec<ObjectInner>,
))
    requires
        counts_wf(*old(registry)),
    ensures
        exists|order: Seq<usize>|
            #![trigger is_order(order, old(registry).pools.listing().len())]
            is_order(order, old(registry).pools.listing().len()) && round(
                *old(registry),
                *final(registry),
                order,
                max,
                now_ms,
                r.0@,
                r.1@,
            ),
        counts_wf(*final(registry)),
        max > 0 ==> r.1@.len() <= max,
{
    let order = random_order(registry.pools.len());
    retain_in_order(registry, &order, max, now_ms)
}

/// All idle connections of the first `n` pools.
pub open spec fn idle_of_all(pools: Seq<ConnectionPool>, n: nat) -> Seq<ObjectInner>
    decreases n,
{
    if n == 0 {
        Seq::empty()
    } else {
        idle_of_all(pools, (n - 1) as nat) + pools[n - 1].database.idle@
    }
}

/// A pool without its idle connections.
pub open spec fn drained(before: ConnectionPool, after: ConnectionPool) -> bool {
    &&& after == (ConnectionPool { database: after.database, ..before })
    &&& emptied(before.database, after.database, before.database.idle@)
}

/// Closes every idle connection of every pool, when the pooler shuts down, and
/// marks the others for removal. Returns how many were closed, and the connections.
pub fn drain_all_pools(registry: &mut Registry) -> (r: (usize, Vec<ObjectInner>))
    requires
        pools_wf(listed_values(old(registry).pools.listing())),
    ensures
        ({
            let s = old(registry).pools.listing();
            let t = final(registry).pools.listing();
            &&& t.len() == s.len()
            &&& forall|i: int| 0 <= i < s.len() ==> (#[trigger] t[i]).0 == s[i].0
            &&& forall|i: int| 0 <= i < s.len() ==> drained(s[i].1, (#[trigger] t[i]).1)
            &&& r.0 == r.1@.len()
            &&& r.1@ == idle_of_all(listed_values(s), s.len())
        }),
        *final(registry) == (Registry { pools: final(registry).pools, ..*old(registry) }),
{
    let mut pools: IdMap<ConnectionPool> = IdMap::new();
    std::mem::swap(&mut pools, &mut registry.pools);
    let ghost s = pools.listing();
    let ghost before = listed_values(s);
    let mut rest = pools.into_entries();
    let ghost start = rest@;
    let n: usize = rest.len();
    let mut done: Vec<(PoolIdentifier, ConnectionPool)> = Vec::new();
    let mut closed: Vec<ObjectInner> = Vec::new();
    let mut i: usize = 0;
    proof {
        assert(start.skip(0) =~= start);
        assert forall|j: int| 0 <= j < start.len() implies (#[trigger] start[j]).1 == before[j]
            && start[j].0@ == s[j].0 by {
            assert(id_map::id_listing(start)[j] == s[j]);
        }
    }
    while i < n
        invariant
            i <= n == start.len(),
            start.len() == s.len(),
            before == listed_values(s),
            pools_wf(before),
            rest@ == start.skip(i as int),
            forall|j: int|
                0 <= j < start.len() ==> (#[trigger] start[j]).1 == before[j] && start[j].0@
                    == s[j].0,
            done@.len() == i,
            forall|j: int| 0 <= j < i ==> (#[trigger] done@[j]).0 == start[j].0,
            forall|j: int| 0 <= j < i ==> drained(before[j], (#[trigger] done@[j]).1),
            closed@ == idle_of_all(before, i as nat),
        decreases n - i,
    {
        let (id, pool) = rest.remove(0);
        let mut pool = pool;
        let ghost closed0 = closed@;
        proof {
            assert((id, pool) == start[i as int]);
            assert(rest@ =~= start.skip(i + 1));
            assert(pool == before[i as int]);
        }
        let (_, mut now) = pool.drain_idle_connections();
        let ghost more = now@;
        closed.append(&mut now);
        assert(closed@ =~= closed0 + more);
        done.push((id, pool));
        i = i + 1;
    }
    proof {
        let t = id_map::id_listing(done@);
        assert forall|j: int| 0 <= j < s.len() implies (#[trigger] t[j]).0 == s[j].0 by {
            assert(done@[j].0 == start[j].0);
        }
        assert forall|a: int, b: int| 0 <= a < b < t.len() implies (#[trigger] t[a]).0 != (
        #[trigger] t[b]).0 by {
            assert(s[a].0 != s[b].0);
        }
        assert(values_of(done@) =~= listed_values(t));
        assert forall|j: int| 0 <= j < s.len() implies drained(s[j].1, (#[trigger] t[j]).1) by {
            assert(drained(before[j], done@[j].1));
        }
    }
    registry.pools = IdMap::from_entries(done);
    (closed.len(), closed)
}

/// A limit after one connection was closed.
pub open spec fn permit_back(c: PoolCoordinator, closed: ObjectInner) -> PoolCoordinator {
    match closed.coordinator_permit {
        Some(permit) => if permit.is_reserve && c.reserve_in_use > 0 {
            PoolCoordinator { reserve_in_use: (c.reserve_in_use - 1) as usize, ..c }
        } else if !permit.is_reserve && c.main_in_use > 0 {
            PoolCoordinator { main_in_use: (c.main_in_use - 1) as usize, ..c }
        } else {
            c
        },
        None => c,
    }
}

/// A limit after connections were closed.
pub open spec fn permits_back(c: PoolCoordinator, closed: Seq<ObjectInner>) -> PoolCoordinator
    decreases closed.len(),
{
    if closed.len() == 0 {
        c
    } else {
        permit_back(permits_back(c, closed.drop_last()), closed.last())
    }
}

/// Gives the permits of closed connections back.
pub fn return_permits(coordinator: &mut PoolCoordinator, closed: &Vec<ObjectInner>)
    requires
        old(coordinator).wf(),
    ensures
        final(coordinator).wf(),
        *final(coordinator) == permits_back(*old(coordinator), closed@),
{
    let mut i: usize = 0;
    assert(closed@.take(0) =~= Seq::<ObjectInner>::empty());
    while i < closed.len()
        invariant
            i <= closed@.len(),
            coordinator.wf(),
            *coordinator == permits_back(*old(coordinator), closed@.take(i as int)),
        decreases closed@.len() - i,
    {
        assert(closed@.take(i + 1).drop_last() =~= closed@.take(i as int));
        match closed[i].coordinator_permit {
            Some(permit) => {
                if (permit.is_reserve && coordinator.reserve_in_use > 0) || (!permit.is_reserve
                    && coordinator.main_in_use > 0) {
                    coordinator.release(permit);
                }
            },
            None => {},
        }
        i = i + 1;
    }
    assert(closed@.take(closed@.len() as int) =~= closed@);
}

/// A round over a pool that has a free permit leaves no idle connection that was put
/// back longer ago than it may be idle, and none that is older than it may become,
/// unless the round may close no more; and it closes no other. A pool in which clients
/// wait for a connection is left as it is.
pub proof fn expired_connections_are_closed(
    before: Pool,
    after: Pool,
    closed: Seq<ObjectInner>,
    count: usize,
    max: usize,
    now_ms: u64,
)
    requires
        trimmed(before, after, closed, count, max, now_ms),
    ensures
        before.counters.permits == 0 ==> after == before && closed.len() == 0,
        max > 0 && count >= max ==> after == before && closed.len() == 0,
        before.counters.permits > 0 && max == 0 ==> forall|x: ObjectInner| #[trigger]
            after.idle@.contains(x) ==> {
                &&& x.metrics.idle_timeout_ms > 0 && x.metrics.recycled_ms.is_some() ==> now_ms
                    - x.metrics.recycled_ms.unwrap() <= x.metrics.idle_timeout_ms
                &&& x.metrics.lifetime_ms > 0 ==> now_ms - x.metrics.created_ms
                    <= x.metrics.lifetime_ms
            },
        forall|x: ObjectInner| #[trigger]
            closed.contains(x) ==> before.idle@.contains(x) && {
                ||| x.metrics.idle_timeout_ms > 0 && x.metrics.recycled_ms.is_some() && now_ms
                    - x.metrics.recycled_ms.unwrap() > x.metrics.idle_timeout_ms
                ||| x.metrics.lifetime_ms > 0 && now_ms - x.metrics.created_ms
                    > x.metrics.lifetime_ms
            },
        forall|x: ObjectInner| #[trigger]
            before.idle@.contains(x) ==> closed.contains(x) || after.idle@.contains(x),
        forall|x: ObjectInner| #[trigger] after.idle@.contains(x) ==> before.idle@.contains(x),
        before.counters.permits > 0 && count < max ==> closed.len() <= max - count,
        before.counters.permits > 0 && count < max && closed.len() < max - count ==> forall|
            x: ObjectInner,
        | #[trigger]
            after.idle@.contains(x) ==> {
                &&& x.metrics.idle_timeout_ms > 0 && x.metrics.recycled_ms.is_some() ==> now_ms
                    - x.metrics.recycled_ms.unwrap() <= x.metrics.idle_timeout_ms
                &&& x.metrics.lifetime_ms > 0 ==> now_ms - x.metrics.created_ms
                    <= x.metrics.lifetime_ms
            },
        after.counters.permits == before.counters.permits,
        closed.len() <= before.idle@.len() <= before.counters.size ==> after.counters.size
            == before.counters.size - closed.len(),
{
    let s = before.idle@;
    if before.counters.permits == 0 || (max > 0 && count >= max) {
    } else {
        let limit: nat = if max > 0 {
            (max - count) as nat
        } else {
            0
        };
        let a = inner::ages(s, now_ms);
        let due = expired_flags(s, now_ms);
        let flags = inner::oldest_first(a, due, limit);
        inner::picked_are_flagged(s, flags, true);
        inner::picked_are_flagged(s, flags, false);
        inner::picked_is_set_count(s, flags);
        inner::oldest_are_closed_up_to_the_limit(a, due, limit);
        assert forall|x: ObjectInner| #[trigger] closed.contains(x) implies s.contains(x) && {
            ||| x.metrics.idle_timeout_ms > 0 && x.metrics.recycled_ms.is_some() && now_ms
                - x.metrics.recycled_ms.unwrap() > x.metrics.idle_timeout_ms
            ||| x.metrics.lifetime_ms > 0 && now_ms - x.metrics.created_ms > x.metrics.lifetime_ms
        } by {
            let i = choose|i: int| 0 <= i < s.len() && #[trigger] s[i] == x && flags[i] == true;
            assert(due[i]);
        }
        assert forall|x: ObjectInner| #[trigger] s.contains(x) implies closed.contains(x)
            || after.idle@.contains(x) by {
            let i = choose|i: int| 0 <= i < s.len() && s[i] == x;
            assert(s[i] == x && (flags[i] == true || flags[i] == false));
        }
        assert forall|x: ObjectInner| #[trigger] after.idle@.contains(x) implies s.contains(x) by {
            let i = choose|i: int| 0 <= i < s.len() && #[trigger] s[i] == x && flags[i] == false;
        }
        if limit == 0 || closed.len() < limit {
            if limit > 0 {
                inner::all_flagged_below_the_limit(a, due, limit);
            }
            assert forall|x: ObjectInner| #[trigger] after.idle@.contains(x) implies {
                &&& x.metrics.idle_timeout_ms > 0 && x.metrics.recycled_ms.is_some() ==> now_ms
                    - x.metrics.recycled_ms.unwrap() <= x.metrics.idle_timeout_ms
                &&& x.metrics.lifetime_ms > 0 ==> now_ms - x.metrics.created_ms
                    <= x.metrics.lifetime_ms
            } by {
                let i = choose|i: int|
                    0 <= i < s.len() && #[trigger] s[i] == x && flags[i] == false;
                assert(!due[i]);
                assert(!expired(x.metrics, now_ms));
            }
        }
    }
}

/// Relieving the reserve closes only connections of the reserve that have been idle
/// longer than they have to be kept, and leaves none of these; a pool in which clients
/// wait, and one without a limit, are left as they are.
pub proof fn reserve_is_relieved(
    before: ConnectionPool,
    after: ConnectionPool,
    limits: Map<Seq<char>, PoolCoordinator>,
    limits_after: Map<Seq<char>, PoolCoordinator>,
    closed: Seq<ObjectInner>,
    now_ms: u64,
)
    requires
        relieved(before, after, limits, limits_after, closed, now_ms),
        limits_wf(limits),
    ensures
        before.database.counters.permits == 0 || !limits.contains_key(before.address.pool_name@)
            ==> after == before && limits_after == limits && closed.len() == 0,
        before.database.counters.permits > 0 && limits.contains_key(before.address.pool_name@)
            ==> {
            let name = before.address.pool_name@;
            let c = limits[name];
            let d = limits_after[name];
            &&& limits_after.contains_key(name)
            &&& d.main_in_use + d.reserve_in_use == c.main_in_use + c.reserve_in_use
            &&& c.main_in_use <= d.main_in_use <= c.config.max_db_connections
            &&& d.config == c.config
            &&& forall|n: Seq<char>|
                n != name ==> limits_after.contains_key(n) == limits.contains_key(n)
                    && #[trigger] limits_after[n] == limits[n]
            &&& forall|x: ObjectInner| #[trigger]
                closed.contains(x) ==> x.coordinator_permit == Some(
                    CoordinatorPermit { is_reserve: true },
                ) && now_ms - last_used_at(x) > c.config.min_connection_lifetime_ms
            &&& forall|x: ObjectInner| #[trigger]
                after.database.idle@.contains(x) && x.coordinator_permit == Some(
                    CoordinatorPermit { is_reserve: true },
                ) ==> now_ms - last_used_at(x) <= c.config.min_connection_lifetime_ms
            &&& d.main_in_use < c.config.max_db_connections && inner::reserve_count(
                before.database.idle@,
                before.database.idle@.len(),
            ) <= c.reserve_in_use ==> closed.len() == 0
        },
{
    let name = before.address.pool_name@;
    if before.database.counters.permits > 0 && limits.contains_key(name) {
        let c = limits[name];
        let mid = choose|mid: Pool| #[trigger]
            upgraded_in(before.database, mid, c) && inner::closed_flagged(
                mid,
                after.database,
                closed,
                inner::stale_reserve(mid.idle@, c.config.min_connection_lifetime_ms, now_ms),
            );
        let s = mid.idle@;
        let flags = inner::stale_reserve(s, c.config.min_connection_lifetime_ms, now_ms);
        inner::picked_are_flagged(s, flags, true);
        inner::picked_are_flagged(s, flags, false);
        assert(c.wf());
        assert forall|x: ObjectInner| #[trigger] closed.contains(x) implies x.coordinator_permit
            == Some(CoordinatorPermit { is_reserve: true }) && now_ms - last_used_at(x)
            > c.config.min_connection_lifetime_ms by {
            let i = choose|i: int| 0 <= i < s.len() && #[trigger] s[i] == x && flags[i] == true;
            assert(inner::in_reserve(s[i]));
        }
        assert forall|x: ObjectInner| #[trigger]
            after.database.idle@.contains(x) && x.coordinator_permit == Some(
                CoordinatorPermit { is_reserve: true },
            ) implies now_ms - last_used_at(x) <= c.config.min_connection_lifetime_ms by {
            let i = choose|i: int| 0 <= i < s.len() && #[trigger] s[i] == x && flags[i] == false;
            assert(inner::in_reserve(s[i]));
        }
        let n = inner::reserve_count(before.database.idle@, before.database.idle@.len());
        if limits_after[name].main_in_use < c.config.max_db_connections && n <= c.reserve_in_use {
            assert forall|i: int| 0 <= i < s.len() implies !(#[trigger] flags[i]) by {
                inner::reserve_count_grows(
                    before.database.idle@,
                    i as nat,
                    before.database.idle@.len(),
                );
            }
            inner::none_picked(s, flags);
        }
    }
}

/// When a connection was last used: when it came back, or when it was made.
pub open spec fn last_used_at(x: ObjectInner) -> u64 {
    match x.metrics.recycled_ms {
        Some(t) => t,
        None => x.metrics.created_ms,
    }
}

/// How many of the closed connections counted against the limit proper, or against the
/// reserve.
pub open spec fn permits_among(closed: Seq<ObjectInner>, reserve: bool) -> nat
    decreases closed.len(),
{
    if closed.len() == 0 {
        0
    } else {
        permits_among(closed.drop_last(), reserve) + if closed.last().coordinator_permit == Some(
            CoordinatorPermit { is_reserve: reserve },
        ) {
            1nat
        } else {
            0nat
        }
    }
}

/// Every permit of a closed connection is free again, on the side on which it was
/// counted.
pub proof fn closed_connections_give_permits_back(c: PoolCoordinator, closed: Seq<ObjectInner>)
    requires
        permits_among(closed, false) <= c.main_in_use,
        permits_among(closed, true) <= c.reserve_in_use,
    ensures
        permits_back(c, closed).main_in_use == c.main_in_use - permits_among(closed, false),
        permits_back(c, closed).reserve_in_use == c.reserve_in_use - permits_among(closed, true),
        permits_back(c, closed).config == c.config,
        permits_back(c, closed).database == c.database,
    decreases closed.len(),
{
    if closed.len() > 0 {
        closed_connections_give_permits_back(c, closed.drop_last());
        match closed.last().coordinator_permit {
            Some(p) => {
                assert(p == CoordinatorPermit { is_reserve: p.is_reserve });
            },
            None => {},
        }
    }
}

/// Draining a pool leaves no idle connection, and the connections that clients hold are
/// of an older epoch than the pool is then.
pub proof fn draining_empties_the_pool(before: Pool, after: Pool, closed: Seq<ObjectInner>)
    requires
        emptied(before, after, closed),
    ensures
        after.idle@.len() == 0,
        closed == before.idle@,
        after.held() == before.held(),
        server_pool::epoch_in(after.setup.server_pool.pool_state) == server_pool::epoch_in(
            before.setup.server_pool.pool_state,
        ).wrapping_add(1),
        server_pool::paused_in(after.setup.server_pool.pool_state) == server_pool::paused_in(
            before.setup.server_pool.pool_state,
        ),
{
    server_pool::pause_and_epoch_are_apart(before.setup.server_pool.pool_state);
}

/// Pools that are not looked at stay as they are.
proof fn others_stay(
    run: Seq<Stage>,
    order: Seq<usize>,
    max: usize,
    now_ms: u64,
    k: int,
    from: int,
    to: int,
)
    requires
        trim_run(run, order, max, now_ms),
        0 <= from <= to <= order.len(),
        0 <= k < run[from].pools.len(),
        forall|j: int|
            from <= j < to ==> #[trigger] order[j] != k && order[j] < run[from].pools.len(),
    ensures
        run[to].pools.len() == run[from].pools.len(),
        run[to].pools[k] == run[from].pools[k],
    decreases to - from,
{
    if from < to {
        others_stay(run, order, max, now_ms, k, from, to - 1);
        assert(order[to - 1] != k);
        assert(trim_stage(run[to - 1], run[to], order[to - 1] as int, max, now_ms));
    }
}

/// The number of pools stays.
proof fn pools_stay_as_many(
    run: Seq<Stage>,
    order: Seq<usize>,
    max: usize,
    now_ms: u64,
    to: int,
)
    requires
        trim_run(run, order, max, now_ms),
        0 <= to <= order.len(),
        forall|j: int| 0 <= j < order.len() ==> #[trigger] order[j] < run[0].pools.len(),
    ensures
        run[to].pools.len() == run[0].pools.len(),
    decreases to,
{
    if to > 0 {
        pools_stay_as_many(run, order, max, now_ms, to - 1);
        assert(trim_stage(run[to - 1], run[to], order[to - 1] as int, max, now_ms));
    }
}

/// Relieving the reserve leaves as many pools.
proof fn relief_keeps_the_number(a: Stage, b: Stage, order: Seq<usize>, now_ms: u64)
    requires
        relief(a, b, order, now_ms),
        forall|k: usize| #[trigger] order.contains(k) ==> k < a.pools.len(),
    ensures
        b.pools.len() == a.pools.len(),
{
    let run = choose|run: Seq<Stage>| #[trigger]
        relief_run(run, order, now_ms) && run[0] == a && run.last() == b;
    relief_keeps_as_many(run, order, now_ms, order.len() as int);
    assert(run[order.len() as int] == run.last());
}

/// The number of pools stays while the reserve is relieved.
proof fn relief_keeps_as_many(run: Seq<Stage>, order: Seq<usize>, now_ms: u64, to: int)
    requires
        relief_run(run, order, now_ms),
        0 <= to <= order.len(),
        forall|k: usize| #[trigger] order.contains(k) ==> k < run[0].pools.len(),
    ensures
        run[to].pools.len() == run[0].pools.len(),
    decreases to,
{
    if to > 0 {
        relief_keeps_as_many(run, order, now_ms, to - 1);
        assert(order.contains(order[to - 1]));
        assert(relief_stage(run[to - 1], run[to], order[to - 1] as int, now_ms));
    }
}

/// A round that may close any number looks at every pool: afterwards no pool with a free
/// permit holds an idle connection that was put back longer ago than it may be idle, or
/// that is older than it may become.
pub proof fn rounds_reach_every_pool(
    before: Registry,
    after: Registry,
    order: Seq<usize>,
    now_ms: u64,
    released: Seq<ObjectInner>,
    expired: Seq<ObjectInner>,
    k: int,
)
    requires
        round(before, after, order, 0, now_ms, released, expired),
        is_order(order, before.pools.listing().len()),
        0 <= k < before.pools.listing().len() <= usize::MAX,
    ensures
        after.pools.listing().len() == before.pools.listing().len(),
        after.pools.listing()[k].0 == before.pools.listing()[k].0,
        after.pools.listing()[k].1.database.counters.permits > 0 ==> forall|x: ObjectInner|
            #[trigger]
            after.pools.listing()[k].1.database.idle@.contains(x) ==> {
                &&& x.metrics.idle_timeout_ms > 0 && x.metrics.recycled_ms.is_some() ==> now_ms
                    - x.metrics.recycled_ms.unwrap() <= x.metrics.idle_timeout_ms
                &&& x.metrics.lifetime_ms > 0 ==> now_ms - x.metrics.created_ms
                    <= x.metrics.lifetime_ms
            },
{
    let s = before.pools.listing();
    let t = after.pools.listing();
    let mid = choose|mid: Seq<ConnectionPool>|
        #![trigger relief(
            Stage {
                pools: listed_values(s),
                limits: before.coordinators@,
                closed: Seq::empty(),
            },
            Stage { pools: mid, limits: after.coordinators@, closed: released },
            order,
            now_ms,
        )]
        {
            &&& relief(
                Stage {
                    pools: listed_values(s),
                    limits: before.coordinators@,
                    closed: Seq::empty(),
                },
                Stage { pools: mid, limits: after.coordinators@, closed: released },
                order,
                now_ms,
            )
            &&& trimming(
                Stage { pools: mid, limits: after.coordinators@, closed: Seq::empty() },
                Stage {
                    pools: listed_values(t),
                    limits: after.coordinators@,
                    closed: expired,
                },
                order,
                0,
                now_ms,
            )
        };
    let run = choose|run: Seq<Stage>| #[trigger]
        trim_run(run, order, 0, now_ms) && run[0] == (Stage {
            pools: mid,
            limits: after.coordinators@,
            closed: Seq::empty(),
        }) && run.last() == (Stage {
            pools: listed_values(t),
            limits: after.coordinators@,
            closed: expired,
        });
    assert(order.contains(k as usize));
    let i = choose|i: int| 0 <= i < order.len() && order[i] == k as usize;
    let n = order.len() as int;
    assert(trim_stage(run[i], run[i + 1], order[i] as int, 0, now_ms));
    relief_keeps_the_number(
        Stage { pools: listed_values(s), limits: before.coordinators@, closed: Seq::empty() },
        Stage { pools: mid, limits: after.coordinators@, closed: released },
        order,
        now_ms,
    );
    assert forall|j: int| 0 <= j < order.len() implies #[trigger] order[j] < run[0].pools.len() by {
        assert(order.contains(order[j]));
    }
    pools_stay_as_many(run, order, 0, now_ms, n);
    pools_stay_as_many(run, order, 0, now_ms, i);
    pools_stay_as_many(run, order, 0, now_ms, i + 1);
    assert(run[n] == run.last());
    assert forall|j: int| i + 1 <= j < n implies #[trigger] order[j] != k && order[j]
        < run[i + 1].pools.len() by {
        assert(order.contains(order[j]));
        if order[j] == k {
            assert(order[j] == order[i]);
        }
    }
    others_stay(run, order, 0, now_ms, k, i + 1, n);
    expired_connections_are_closed(
        run[i].pools[k].database,
        run[i + 1].pools[k].database,
        run[i + 1].closed.skip(run[i].closed.len() as int),
        as_count(run[i].closed.len() as int),
        0,
        now_ms,
    );
}

/// How many connections a pool of this size lacks, if it is to be filled up.
pub open spec fn lacking(size: usize, min: Option<u32>, paused: bool) -> Option<usize> {
    if min.is_some() && !paused && size < min.unwrap() {
        Some((min.unwrap() - size) as usize)
    } else {
        None
    }
}

/// Filling up brings a pool to its minimum and no further, and a paused pool, or one
/// without a minimum, is left alone.
pub proof fn pools_are_filled_up_to_their_minimum(size: usize, min: Option<u32>, paused: bool)
    ensures
        lacking(size, min, paused) matches Some(n) ==> n > 0 && min.is_some() && size + n
            == min.unwrap() && !paused,
        paused || min.is_none() ==> lacking(size, min, paused).is_none(),
        min matches Some(m) ==> (!paused && lacking(size, min, paused).is_none() ==> size >= m),
{
}

} // verus!
