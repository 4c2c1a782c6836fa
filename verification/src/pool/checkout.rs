//! How a client gets a connection: the steps of a checkout.
//!
//! A checkout is a machine. Each call of [`Checkout::advance`] takes what has
//! happened since the last one and says what has to be done next.
use vstd::prelude::*;
use crate::errors::Error;
use crate::pool::inner::{
    anticipation_cap, anticipation_total, burst_gate_budget, push_idle, ObjectInner, Pool,
    PoolCounters, PoolSetup, ScalingStats, Waiter, BURST_BACKOFF_MS, BURST_GATE_EXHAUSTED_BACKOFF_MS,
    MAX_FAST_RETRY,
};
use crate::pool::pool_coordinator::CoordinatorPermit;
use crate::pool::types::{Metrics, PoolConfig, Timeouts};
use crate::server::server_backend::Server;
use crate::text::concat;
#[allow(unused_imports)]
use crate::errors;
#[allow(unused_imports)]
use crate::text;
#[allow(unused_imports)]
use crate::pool::grow;
#[allow(unused_imports)]
use crate::pool::inner;
#[allow(unused_imports)]
use crate::pool::server_pool;
#[allow(unused_imports)]
use crate::pool::types;

verus! {

/// The step of a checkout that took too long.
#[derive(Debug, Clone, Copy, PartialEq, Eq, Structural)]
pub enum TimeoutType {
    /// Waiting for a connection.
    Wait,
    /// Making a connection.
    Create,
}

/// Why a checkout failed.
#[derive(Debug)]
pub enum PoolError {
    Timeout(TimeoutType),
    /// The pool is closed.
    Closed,
    /// No connection could be made.
    Backend(Error),
    /// The limit of the database is reached, and what its coordinator says.
    DbLimitExhausted(String),
}

/// The text by which a failed checkout is reported.
pub open spec fn pool_error_text(e: PoolError) -> Seq<char> {
    match e {
        PoolError::Timeout(
            TimeoutType::Wait,
        ) => "Timeout occurred while waiting for a slot to become available"@,
        PoolError::Timeout(
            TimeoutType::Create,
        ) => "Timeout occurred while creating a new object"@,
        PoolError::Closed => "Pool has been closed"@,
        PoolError::Backend(err) => text::join(
            seq!["Error occurred while creating a new object: "@, errors::error_text(err)],
        ),
        PoolError::DbLimitExhausted(info) => info@,
    }
}

impl PoolError {
    /// The text by which a failed checkout is reported.
    pub fn text(&self) -> (s: String)
        ensures
            s@ == pool_error_text(*self),
    {
        match self {
            PoolError::Timeout(
                TimeoutType::Wait,
            ) => "Timeout occurred while waiting for a slot to become available".to_owned(),
            PoolError::Timeout(
                TimeoutType::Create,
            ) => "Timeout occurred while creating a new object".to_owned(),
            PoolError::Closed => "Pool has been closed".to_owned(),
            PoolError::Backend(err) => {
                let what = err.text();
                let parts = ["Error occurred while creating a new object: ", what.as_str()];
                assert(text::views(parts@) =~= seq![
                    "Error occurred while creating a new object: "@,
                    what@,
                ]);
                concat(&parts)
            },
            PoolError::DbLimitExhausted(info) => info.clone(),
        }
    }
}

/// Where a connection that is being looked at came from.
#[derive(Debug, Clone, Copy, PartialEq, Eq, Structural)]
pub enum Source {
    /// The first look at the idle connections.
    FirstLook,
    /// One of the quick looks.
    Spin(u32),
    /// It was handed over while the checkout waited for one to come back.
    Handover,
    /// The idle connections, until none is left.
    Drain,
    /// The idle connections, at the closed gate.
    Gate,
    /// It was handed over at the closed gate.
    GateHandover,
    /// The idle connections, after a wait at the burst gate.
    GateAgain,
    /// The idle connections, after a wait for the leave of the database.
    Leave,
}

/// Where a checkout stands.
#[derive(Debug, Clone, Copy, PartialEq, Eq, Structural)]
pub enum Phase {
    /// The pool is paused.
    Paused,
    /// It tries for a permit, so many times already.
    Permit(u32),
    /// It waits for a permit.
    Queued,
    /// It looks at the idle connections.
    Look(Source),
    /// It has a connection and wants to know whether that can be used.
    Recycling(Source),
    /// It decides whether to wait for a connection to come back.
    Warm,
    /// It is about to wait for a connection to come back.
    Expect,
    /// It waits for a connection to be handed over.
    Expecting(u64),
    /// It comes to the burst gate.
    GateStart,
    /// It asks for a slot at the burst gate.
    Gate,
    /// It is about to wait at the burst gate.
    GateWait,
    /// It waits for a slot and takes no connection any more.
    GateBackoff,
    /// It waits for a slot or a connection.
    GateWaiting(u64),
    /// It has a slot and asks for the leave of the database.
    Leave,
    /// It waits for the leave of the database.
    Asking,
    /// It has all that is needed to make a connection.
    Create,
    /// A connection is being made.
    Creating,
    /// It has ended.
    Over,
}

/// A checkout.
#[derive(Debug, Clone, Copy, PartialEq, Eq, Structural)]
pub struct Checkout {
    pub timeouts: Timeouts,
    /// The database has a limit.
    pub limited: bool,
    pub start_ms: u64,
    pub phase: Phase,
    /// When the wait for a permit, or at the burst gate, began.
    pub since_ms: u64,
    /// How long it may wait at the burst gate.
    pub gate_ms: u64,
    /// The leave of the database, once it was waited for or granted.
    pub leave: Option<CoordinatorPermit>,
}

/// What happened.
pub enum CheckoutEvent {
    /// What was waited for, or nothing in particular.
    Go,
    /// The time was up.
    TimedOut,
    /// A connection was handed over.
    Handed,
    /// The connection can be used.
    Usable(ObjectInner),
    /// The connection could not be used and is gone.
    Unusable,
    /// The database gives its leave.
    Granted(CoordinatorPermit),
    /// The database has none to give just now.
    NoLeave,
    /// The database gives none, and why.
    Refused(String),
    /// The connection is made.
    Made(Server, Metrics),
    /// It could not be made.
    NotMade(Error),
}

/// What has to be done next.
pub enum CheckoutStep {
    /// Go on at once.
    Again,
    /// Let others run and go on.
    Yield,
    /// Wait until the pool is resumed.
    AwaitResume(Option<u64>),
    /// Wait until there is a permit.
    AwaitPermit(Option<u64>),
    /// Find out whether this connection can be used.
    Recycle { inner: ObjectInner, skip_lifetime: bool, limit: Option<u64> },
    /// Wait until a connection is handed over.
    AwaitHandover(u64),
    /// Wait until a slot at the burst gate is free.
    AwaitGate(u64),
    /// Wait for whichever comes first.
    AwaitHandoverOrGate(u64),
    /// Ask the database for its leave, without waiting.
    TryLeave,
    /// Wait for the leave of the database.
    AwaitLeave,
    /// Make a connection.
    Create(Option<u64>),
    /// The client has its connection. A leave that was not used goes back; the
    /// connection may want a replacement ahead of its end.
    Done { inner: ObjectInner, spare: Option<CoordinatorPermit>, replace: bool },
    /// The client gets none. A leave that was not used goes back.
    Failed { error: PoolError, spare: Option<CoordinatorPermit> },
}

/// What a step knows of the world.
#[derive(Debug, Clone, Copy, PartialEq, Eq, Structural)]
pub struct Outlook {
    pub now_ms: u64,
    pub paused: bool,
    /// From this size on a checkout waits a little for a connection to come
    /// back before it makes a new one.
    pub warm_threshold: usize,
    /// How long a checkout may wait for a connection to come back.
    pub anticipation_ms: u64,
    /// How long it may wait at the burst gate.
    pub gate_ms: u64,
}

/// A pool as the contracts of a checkout speak of it.
#[verifier::ext_equal]
pub struct PoolState {
    pub config: PoolConfig,
    pub setup: PoolSetup,
    pub counters: PoolCounters,
    pub idle: Seq<ObjectInner>,
    pub waiters: Seq<Waiter>,
    pub mailbox: Seq<(u64, ObjectInner)>,
}

impl View for Pool {
    type V = PoolState;

    open spec fn view(&self) -> PoolState {
        PoolState {
            config: self.config,
            setup: self.setup,
            counters: self.counters,
            idle: self.idle@,
            waiters: self.waiters@,
            mailbox: self.mailbox@,
        }
    }
}

/// A checkout after a step, the pool, and what has to be done.
pub struct Turn {
    pub checkout: Checkout,
    pub pool: PoolState,
    pub step: CheckoutStep,
}

impl Checkout {
    /// The checkout in another phase.
    pub open spec fn at(self, phase: Phase) -> Checkout {
        Checkout { phase, ..self }
    }

    /// The client does not want to wait.
    pub open spec fn in_a_hurry(self) -> bool {
        self.timeouts.wait == Some(0u64)
    }
}

/// The time that is left of a limit.
pub open spec fn left_of(limit: Option<u64>, since: u64, now: u64) -> Option<u64> {
    match limit {
        Some(ms) => Some(
            if types::elapsed(since, now) < ms {
                (ms - types::elapsed(since, now)) as u64
            } else {
                0u64
            },
        ),
        None => None,
    }
}

/// The time that is left of a limit.
fn time_left(limit: Option<u64>, since: u64, now: u64) -> (r: Option<u64>)
    ensures
        r == left_of(limit, since, now),
{
    match limit {
        Some(ms) => {
            let spent: u64 = if now >= since {
                now - since
            } else {
                0
            };
            Some(
                if spent < ms {
                    ms - spent
                } else {
                    0
                },
            )
        },
        None => None,
    }
}

impl PoolState {
    /// The pool with other numbers.
    pub open spec fn with(self, counters: PoolCounters) -> PoolState {
        PoolState { counters, ..self }
    }

    /// The pool with other counts of how checkouts went.
    pub open spec fn counted(self, stats: ScalingStats) -> PoolState {
        PoolState { counters: PoolCounters { stats, ..self.counters }, ..self }
    }

    /// Somebody may begin a checkout.
    pub open spec fn has_permit(self) -> bool {
        !self.counters.closed && self.counters.permits > 0
    }

    /// The pool after a permit was taken.
    pub open spec fn permit_taken(self) -> PoolState {
        self.with(
            PoolCounters { permits: (self.counters.permits - 1) as usize, ..self.counters },
        )
    }

    /// The pool after a checkout has failed.
    pub open spec fn left(self) -> PoolState {
        self.with(PoolCounters { users: (self.counters.users - 1) as usize, ..self.counters })
    }

    /// The pool after a checkout gave its permit back and has failed.
    pub open spec fn given_back(self) -> PoolState {
        self.with(
            PoolCounters {
                permits: (self.counters.permits + 1) as usize,
                users: (self.counters.users - 1) as usize,
                ..self.counters
            },
        )
    }

    /// The pool after a slot at the burst gate was given back.
    pub open spec fn gate_left(self) -> PoolState {
        self.with(grow::gate_released(self.counters))
    }

    /// The pool after the oldest idle connection was taken out.
    pub open spec fn popped(self) -> PoolState {
        PoolState { idle: self.idle.skip(1), ..self }
    }

    /// The pool after a connection of it was lost.
    pub open spec fn lost_one(self) -> PoolState {
        self.with(PoolCounters { size: (self.counters.size - 1) as usize, ..self.counters })
    }
}

/// A checkout fails that has no permit yet.
pub open spec fn fails_early(c: Checkout, p: PoolState, error: PoolError) -> Turn {
    Turn {
        checkout: c.at(Phase::Over),
        pool: p.left(),
        step: CheckoutStep::Failed { error, spare: c.leave },
    }
}

/// A checkout fails that has its permit.
pub open spec fn fails(c: Checkout, p: PoolState, error: PoolError) -> Turn {
    Turn {
        checkout: c.at(Phase::Over),
        pool: p.given_back(),
        step: CheckoutStep::Failed { error, spare: c.leave },
    }
}

/// A checkout goes on at once.
pub open spec fn goes_to(c: Checkout, p: PoolState, phase: Phase) -> Turn {
    Turn { checkout: c.at(phase), pool: p, step: CheckoutStep::Again }
}

/// A paused pool: the client waits until it is resumed or its time is up.
#[verifier::opaque]
pub open spec fn after_pause(c: Checkout, p: PoolState, event: CheckoutEvent) -> Turn {
    if event is TimedOut {
        fails_early(c, p, PoolError::Timeout(TimeoutType::Wait))
    } else {
        goes_to(c, p, Phase::Permit(0))
    }
}

/// A try for a permit.
#[verifier::opaque]
pub open spec fn tries_permit(c: Checkout, p: PoolState, tries: u32, o: Outlook) -> Turn {
    if p.has_permit() {
        goes_to(c, p.permit_taken(), Phase::Look(Source::FirstLook))
    } else if tries < MAX_FAST_RETRY {
        Turn {
            checkout: c.at(Phase::Permit((tries + 1) as u32)),
            pool: p,
            step: CheckoutStep::Yield,
        }
    } else if p.counters.closed {
        fails_early(c, p, PoolError::Closed)
    } else if c.in_a_hurry() {
        fails_early(c, p, PoolError::Timeout(TimeoutType::Wait))
    } else {
        Turn {
            checkout: Checkout { phase: Phase::Queued, since_ms: o.now_ms, ..c },
            pool: p,
            step: CheckoutStep::AwaitPermit(c.timeouts.wait),
        }
    }
}

/// A wait for a permit.
#[verifier::opaque]
pub open spec fn waits_for_permit(
    c: Checkout,
    p: PoolState,
    event: CheckoutEvent,
    o: Outlook,
) -> Turn {
    if p.has_permit() {
        goes_to(c, p.permit_taken(), Phase::Look(Source::FirstLook))
    } else if p.counters.closed {
        fails_early(c, p, PoolError::Closed)
    } else if event is TimedOut {
        fails_early(c, p, PoolError::Timeout(TimeoutType::Wait))
    } else {
        Turn {
            checkout: c,
            pool: p,
            step: CheckoutStep::AwaitPermit(left_of(c.timeouts.wait, c.since_ms, o.now_ms)),
        }
    }
}

/// Where a checkout goes that found no usable connection.
#[verifier::opaque]
pub open spec fn misses(c: Checkout, p: PoolState, source: Source) -> Turn {
    match source {
        Source::FirstLook => goes_to(c, p, Phase::Warm),
        Source::Spin(n) => Turn {
            checkout: c.at(Phase::Look(Source::Spin((n + 1) as u32))),
            pool: p,
            step: CheckoutStep::Yield,
        },
        Source::Handover => goes_to(
            c,
            p.counted(
                ScalingStats {
                    create_fallback: p.counters.stats.create_fallback.wrapping_add(1),
                    ..p.counters.stats
                },
            ),
            Phase::Look(Source::Drain),
        ),
        Source::Drain => goes_to(c, p, Phase::GateStart),
        Source::Gate => if c.in_a_hurry() && c.leave.is_none() {
            fails(c, p, PoolError::Timeout(TimeoutType::Wait))
        } else {
            goes_to(c, p, Phase::GateWait)
        },
        Source::GateHandover => goes_to(c, p, Phase::Look(Source::GateAgain)),
        Source::GateAgain => goes_to(c, p, Phase::Gate),
        Source::Leave => goes_to(c, p, Phase::GateStart),
    }
}

/// A look at the idle connections.
#[verifier::opaque]
pub open spec fn looks(c: Checkout, p: PoolState, source: Source) -> Turn {
    if source == Source::Spin(p.config.scaling.fast_retries) {
        goes_to(c, p, Phase::Expect)
    } else if p.idle.len() > 0 {
        Turn {
            checkout: c.at(Phase::Recycling(source)),
            pool: p.popped(),
            step: CheckoutStep::Recycle {
                inner: p.idle[0],
                skip_lifetime: p.counters.permits == 0,
                limit: c.timeouts.recycle,
            },
        }
    } else {
        misses(c, p, source)
    }
}

/// Connections from these sources may want a replacement.
pub open spec fn may_replace(source: Source) -> bool {
    source == Source::FirstLook || source == Source::Handover || source == Source::GateHandover
}

/// A connection was looked at.
#[verifier::opaque]
pub open spec fn looked_at(
    c: Checkout,
    p: PoolState,
    source: Source,
    event: CheckoutEvent,
    o: Outlook,
) -> Turn {
    match event {
        CheckoutEvent::Usable(inner) => {
            let replace = may_replace(source) && wants_replacement(p, inner.metrics, o);
            Turn {
                checkout: c.at(Phase::Over),
                pool: PoolState {
                    counters: PoolCounters {
                        pre_replacements_in_flight: if replace {
                            (p.counters.pre_replacements_in_flight + 1) as usize
                        } else {
                            p.counters.pre_replacements_in_flight
                        },
                        ..p.counters
                    },
                    ..p
                },
                step: CheckoutStep::Done { inner, spare: c.leave, replace },
            }
        },
        _ => if source == Source::Drain {
            goes_to(c, p.lost_one(), Phase::Look(Source::Drain))
        } else {
            misses(c, p.lost_one(), source)
        },
    }
}

/// A connection is replaced ahead of its end, see `grow::replaces_ahead`.
pub open spec fn wants_replacement(p: PoolState, m: Metrics, o: Outlook) -> bool {
    grow::replaces_ahead_in(p.counters, p.idle.len(), m, o.paused, o.now_ms)
}

/// A pool that is warm enough makes clients wait a little.
#[verifier::opaque]
pub open spec fn warms(c: Checkout, p: PoolState, o: Outlook) -> Turn {
    goes_to(
        c,
        p,
        Phase::Look(
            if p.counters.size >= o.warm_threshold && p.counters.size >= 1 {
                Source::Spin(0)
            } else {
                Source::Drain
            },
        ),
    )
}

/// The pool with one more waiter.
pub open spec fn with_waiter(p: PoolState) -> PoolState {
    PoolState {
        counters: PoolCounters {
            next_waiter: p.counters.next_waiter.wrapping_add(1),
            ..p.counters
        },
        waiters: p.waiters.push(Waiter { id: p.counters.next_waiter, live: true }),
        ..p
    }
}

/// The checkout waits for a connection to come back, unless making one is
/// cheaper: the pool may grow and no limit of the database slows it down.
#[verifier::opaque]
pub open spec fn expects(c: Checkout, p: PoolState, o: Outlook) -> Turn {
    let deficit = !c.limited && p.idle.len() == 0 && p.counters.size < p.counters.max_size;
    let total = inner::anticipation_time(
        c.timeouts.wait,
        types::elapsed(c.start_ms, o.now_ms),
    );
    if deficit || c.in_a_hurry() || total == 0 {
        misses(c, p, Source::Handover)
    } else {
        Turn {
            checkout: c.at(Phase::Expecting(p.counters.next_waiter)),
            pool: with_waiter(p),
            step: CheckoutStep::AwaitHandover(
                if total < o.anticipation_ms {
                    total
                } else {
                    o.anticipation_ms
                },
            ),
        }
    }
}

/// The place of the connection that was handed over to a waiter; the length if
/// there is none.
pub open spec fn parcel(mailbox: Seq<(u64, ObjectInner)>, id: u64) -> int
    decreases mailbox.len(),
{
    if mailbox.len() == 0 {
        0
    } else if mailbox[0].0 == id {
        0
    } else {
        1 + parcel(mailbox.skip(1), id)
    }
}

/// Waiters after one has given up.
pub open spec fn without_waiter(waiters: Seq<Waiter>, id: u64) -> Seq<Waiter> {
    waiters.map_values(
        |w: Waiter|
            Waiter { live: w.live && w.id != id, ..w },
    )
}

/// The connection that was handed over is looked at.
pub open spec fn unpacks(c: Checkout, p: PoolState, at: int, source: Source) -> Turn {
    Turn {
        checkout: c.at(Phase::Recycling(source)),
        pool: PoolState { mailbox: p.mailbox.remove(at), ..p },
        step: CheckoutStep::Recycle {
            inner: p.mailbox[at].1,
            skip_lifetime: p.counters.permits == 0,
            limit: c.timeouts.recycle,
        },
    }
}

/// The wait for a connection to come back is over.
#[verifier::opaque]
pub open spec fn expected(c: Checkout, p: PoolState, id: u64) -> Turn {
    let at = parcel(p.mailbox, id);
    if at < p.mailbox.len() {
        unpacks(
            c,
            p.counted(
                ScalingStats {
                    anticipation_wakes_notify: p.counters.stats.anticipation_wakes_notify.wrapping_add(
                        1,
                    ),
                    ..p.counters.stats
                },
            ),
            at,
            Source::Handover,
        )
    } else {
        misses(
            c,
            PoolState {
                counters: PoolCounters {
                    stats: ScalingStats {
                        anticipation_wakes_timeout: p.counters.stats.anticipation_wakes_timeout.wrapping_add(
                            1,
                        ),
                        ..p.counters.stats
                    },
                    ..p.counters
                },
                waiters: without_waiter(p.waiters, id),
                ..p
            },
            Source::Handover,
        )
    }
}

/// The checkout comes to the burst gate.
#[verifier::opaque]
pub open spec fn comes_to_gate(c: Checkout, p: PoolState, o: Outlook) -> Turn {
    goes_to(
        Checkout { since_ms: o.now_ms, gate_ms: o.gate_ms, ..c },
        p,
        Phase::Gate,
    )
}

/// A free slot at the burst gate is taken.
#[verifier::opaque]
pub open spec fn at_gate(c: Checkout, p: PoolState) -> Turn {
    if p.counters.inflight_creates < p.config.scaling.max_parallel_creates {
        goes_to(
            c,
            p.with(grow::gate_taken(p.counters)),
            if c.leave.is_some() {
                Phase::Create
            } else {
                Phase::Leave
            },
        )
    } else {
        goes_to(
            c,
            p.counted(
                ScalingStats {
                    burst_gate_waits: p.counters.stats.burst_gate_waits.wrapping_add(1),
                    ..p.counters.stats
                },
            ),
            Phase::Look(Source::Gate),
        )
    }
}

/// A wait at the burst gate: for a slot or a connection at first, and for a slot
/// alone once the time for that is used up.
#[verifier::opaque]
pub open spec fn waits_at_gate(c: Checkout, p: PoolState, o: Outlook) -> Turn {
    if types::elapsed(c.since_ms, o.now_ms) > c.gate_ms {
        Turn {
            checkout: c.at(Phase::GateBackoff),
            pool: p.counted(
                ScalingStats {
                    burst_gate_budget_exhausted: p.counters.stats.burst_gate_budget_exhausted.wrapping_add(
                        1,
                    ),
                    ..p.counters.stats
                },
            ),
            step: CheckoutStep::AwaitGate(BURST_GATE_EXHAUSTED_BACKOFF_MS),
        }
    } else {
        Turn {
            checkout: c.at(Phase::GateWaiting(p.counters.next_waiter)),
            pool: with_waiter(p),
            step: CheckoutStep::AwaitHandoverOrGate(BURST_BACKOFF_MS),
        }
    }
}

/// The wait at the burst gate is over. A connection that arrives after the wait ended
/// becomes idle; the one who returned it has given its permit back already.
#[verifier::opaque]
pub open spec fn waited_at_gate(
    c: Checkout,
    p: PoolState,
    id: u64,
    event: CheckoutEvent,
) -> Turn {
    let at = parcel(p.mailbox, id);
    if at >= p.mailbox.len() {
        goes_to(
            c,
            PoolState { waiters: without_waiter(p.waiters, id), ..p },
            Phase::Look(Source::GateAgain),
        )
    } else if event is Handed {
        unpacks(c, p, at, Source::GateHandover)
    } else {
        goes_to(
            c,
            PoolState {
                mailbox: p.mailbox.remove(at),
                idle: inner::idle_with(p.config.queue_mode, p.idle, p.mailbox[at].1),
                ..p
            },
            Phase::Look(Source::GateAgain),
        )
    }
}

/// The leave of the database, asked for with a slot in hand. If there is none
/// the slot is given back for the time of the wait.
#[verifier::opaque]
pub open spec fn asks_leave(c: Checkout, p: PoolState, event: CheckoutEvent) -> Turn {
    match event {
        CheckoutEvent::Granted(permit) => goes_to(
            Checkout { leave: Some(permit), ..c },
            p,
            Phase::Create,
        ),
        CheckoutEvent::NoLeave => Turn {
            checkout: c.at(Phase::Asking),
            pool: p.gate_left(),
            step: CheckoutStep::AwaitLeave,
        },
        _ => if c.limited {
            Turn { checkout: c, pool: p, step: CheckoutStep::TryLeave }
        } else {
            goes_to(c, p, Phase::Create)
        },
    }
}

/// The wait for the leave of the database is over.
#[verifier::opaque]
pub open spec fn asked_leave(c: Checkout, p: PoolState, event: CheckoutEvent) -> Turn {
    match event {
        CheckoutEvent::Granted(permit) => goes_to(
            Checkout { leave: Some(permit), ..c },
            p,
            Phase::Look(Source::Leave),
        ),
        CheckoutEvent::Refused(info) => fails(c, p, PoolError::DbLimitExhausted(info)),
        _ => Turn { checkout: c, pool: p, step: CheckoutStep::AwaitLeave },
    }
}

/// A connection was made, or was not. Either way the slot at the burst gate is free
/// again.
#[verifier::opaque]
pub open spec fn made(c: Checkout, p: PoolState, event: CheckoutEvent) -> Turn {
    match event {
        CheckoutEvent::Made(obj, metrics) => Turn {
            checkout: c.at(Phase::Over),
            pool: p.with(
                PoolCounters {
                    size: (p.counters.size + 1) as usize,
                    ..grow::gate_released(p.counters)
                },
            ),
            step: CheckoutStep::Done {
                inner: ObjectInner { obj, metrics, coordinator_permit: c.leave },
                spare: None,
                replace: false,
            },
        },
        CheckoutEvent::NotMade(error) => fails(c, p.gate_left(), PoolError::Backend(error)),
        _ => fails(c, p.gate_left(), PoolError::Timeout(TimeoutType::Create)),
    }
}

/// One step of a checkout.
pub open spec fn turn(c: Checkout, p: PoolState, event: CheckoutEvent, o: Outlook) -> Turn {
    match c.phase {
        Phase::Paused => after_pause(c, p, event),
        Phase::Permit(tries) => tries_permit(c, p, tries, o),
        Phase::Queued => waits_for_permit(c, p, event, o),
        Phase::Look(source) => looks(c, p, source),
        Phase::Recycling(source) => looked_at(c, p, source, event, o),
        Phase::Warm => warms(c, p, o),
        Phase::Expect => expects(c, p, o),
        Phase::Expecting(id) => expected(c, p, id),
        Phase::GateStart => comes_to_gate(c, p, o),
        Phase::Gate => at_gate(c, p),
        Phase::GateWait => waits_at_gate(c, p, o),
        Phase::GateBackoff => goes_to(c, p, Phase::Gate),
        Phase::GateWaiting(id) => waited_at_gate(c, p, id, event),
        Phase::Leave => asks_leave(c, p, event),
        Phase::Asking => asked_leave(c, p, event),
        Phase::Create => Turn {
            checkout: c.at(Phase::Creating),
            pool: p,
            step: CheckoutStep::Create(c.timeouts.create),
        },
        Phase::Creating => made(c, p, event),
        Phase::Over => goes_to(c, p, Phase::Over),
    }
}

/// The checkout has taken a permit.
pub open spec fn holds_permit(phase: Phase) -> bool {
    match phase {
        Phase::Paused | Phase::Permit(_) | Phase::Queued | Phase::Over => false,
        _ => true,
    }
}

/// The checkout has taken a slot at the burst gate.
pub open spec fn holds_gate(phase: Phase) -> bool {
    phase == Phase::Leave || phase == Phase::Create || phase == Phase::Creating
}

/// The checkout has a connection in hand.
pub open spec fn holds_connection(phase: Phase) -> bool {
    phase is Recycling
}

/// What can happen in a phase.
pub open spec fn fits(phase: Phase, event: CheckoutEvent) -> bool {
    match phase {
        Phase::Recycling(_) => event is Usable || event is Unusable,
        Phase::Leave => event is Go || event is Granted || event is NoLeave,
        Phase::Asking => event is Granted || event is Refused,
        Phase::Creating => event is Made || event is NotMade || event is TimedOut,
        Phase::Over => false,
        _ => event is Go || event is TimedOut || event is Handed,
    }
}

/// The pool has counted what the checkout has taken, and its numbers do not run
/// over.
pub open spec fn in_step(c: Checkout, p: PoolState) -> bool {
    &&& p.counters.users > 0
    &&& holds_permit(c.phase) ==> p.counters.permits < usize::MAX
    &&& holds_gate(c.phase) ==> p.counters.inflight_creates > 0
    &&& holds_connection(c.phase) ==> p.idle.len() + p.mailbox.len() < p.counters.size
    &&& p.counters.size < usize::MAX
    &&& match c.phase {
        Phase::Look(Source::Spin(n)) => n <= p.config.scaling.fast_retries,
        Phase::Recycling(Source::Spin(n)) => n < p.config.scaling.fast_retries,
        Phase::Permit(n) => n <= MAX_FAST_RETRY,
        _ => true,
    }
}

/// This is what a step came to.
pub open spec fn came_to(c: Checkout, p: PoolState, step: CheckoutStep, t: Turn) -> bool {
    &&& c == t.checkout
    &&& p =~= t.pool
    &&& step == t.step
}

/// Counts a checkout that could be neither served nor kept waiting.
fn fail(c: Checkout, pool: &mut Pool, error: PoolError) -> (r: (Checkout, CheckoutStep))
    requires
        old(pool).counters.users > 0,
        old(pool).counters.permits < usize::MAX,
    ensures
        came_to(r.0, final(pool)@, r.1, fails(c, old(pool)@, error)),
{
    pool.counters.permits = pool.counters.permits + 1;
    pool.counters.users = pool.counters.users - 1;
    (Checkout { phase: Phase::Over, ..c }, CheckoutStep::Failed { error, spare: c.leave })
}

/// The same, before it has a permit.
fn fail_early(c: Checkout, pool: &mut Pool, error: PoolError) -> (r: (Checkout, CheckoutStep))
    requires
        old(pool).counters.users > 0,
    ensures
        came_to(r.0, final(pool)@, r.1, fails_early(c, old(pool)@, error)),
{
    pool.counters.users = pool.counters.users - 1;
    (Checkout { phase: Phase::Over, ..c }, CheckoutStep::Failed { error, spare: c.leave })
}

/// Blocks a checkout of a paused pool.
fn wait_if_paused(c: Checkout, pool: &mut Pool, event: CheckoutEvent) -> (r: (
    Checkout,
    CheckoutStep,
))
    requires
        old(pool).counters.users > 0,
    ensures
        came_to(r.0, final(pool)@, r.1, after_pause(c, old(pool)@, event)),
{
    proof {
        reveal(after_pause);
    }
    match event {
        CheckoutEvent::TimedOut => fail_early(c, pool, PoolError::Timeout(TimeoutType::Wait)),
        _ => (Checkout { phase: Phase::Permit(0), ..c }, CheckoutStep::Again),
    }
}

/// Tries for a permit, a few times quickly before the checkout queues.
fn acquire_semaphore(c: Checkout, pool: &mut Pool, tries: u32, o: Outlook) -> (r: (
    Checkout,
    CheckoutStep,
))
    requires
        old(pool).counters.users > 0,
        tries <= MAX_FAST_RETRY,
    ensures
        came_to(r.0, final(pool)@, r.1, tries_permit(c, old(pool)@, tries, o)),
{
    proof {
        reveal(tries_permit);
    }
    if !pool.counters.closed && pool.counters.permits > 0 {
        pool.counters.permits = pool.counters.permits - 1;
        return (
            Checkout { phase: Phase::Look(Source::FirstLook), ..c },
            CheckoutStep::Again,
        );
    }
    if tries < MAX_FAST_RETRY {
        return (Checkout { phase: Phase::Permit(tries + 1), ..c }, CheckoutStep::Yield);
    }
    if pool.counters.closed {
        return fail_early(c, pool, PoolError::Closed);
    }
    if hurried(&c) {
        return fail_early(c, pool, PoolError::Timeout(TimeoutType::Wait));
    }
    (
        Checkout { phase: Phase::Queued, since_ms: o.now_ms, ..c },
        CheckoutStep::AwaitPermit(c.timeouts.wait),
    )
}

/// Whether the client does not want to wait.
fn hurried(c: &Checkout) -> (r: bool)
    ensures
        r == c.in_a_hurry(),
{
    match c.timeouts.wait {
        Some(ms) => ms == 0,
        None => false,
    }
}

/// Looks for a permit again.
fn queue_for_permit(c: Checkout, pool: &mut Pool, event: CheckoutEvent, o: Outlook) -> (r: (
    Checkout,
    CheckoutStep,
))
    requires
        old(pool).counters.users > 0,
    ensures
        came_to(r.0, final(pool)@, r.1, waits_for_permit(c, old(pool)@, event, o)),
{
    proof {
        reveal(waits_for_permit);
    }
    if !pool.counters.closed && pool.counters.permits > 0 {
        pool.counters.permits = pool.counters.permits - 1;
        return (
            Checkout { phase: Phase::Look(Source::FirstLook), ..c },
            CheckoutStep::Again,
        );
    }
    if pool.counters.closed {
        return fail_early(c, pool, PoolError::Closed);
    }
    match event {
        CheckoutEvent::TimedOut => fail_early(c, pool, PoolError::Timeout(TimeoutType::Wait)),
        _ => (c, CheckoutStep::AwaitPermit(time_left(c.timeouts.wait, c.since_ms, o.now_ms))),
    }
}

/// Goes where a checkout goes that found no usable connection.
fn miss(c: Checkout, pool: &mut Pool, source: Source) -> (r: (Checkout, CheckoutStep))
    requires
        old(pool).counters.users > 0,
        old(pool).counters.permits < usize::MAX,
        source matches Source::Spin(n) ==> n < u32::MAX,
    ensures
        came_to(r.0, final(pool)@, r.1, misses(c, old(pool)@, source)),
{
    proof {
        reveal(misses);
    }
    let phase = match source {
        Source::FirstLook => Phase::Warm,
        Source::Spin(n) => {
            return (
                Checkout { phase: Phase::Look(Source::Spin(n + 1)), ..c },
                CheckoutStep::Yield,
            );
        },
        Source::Handover => {
            pool.counters.stats.create_fallback = pool.counters.stats.create_fallback.wrapping_add(
                1,
            );
            Phase::Look(Source::Drain)
        },
        Source::Drain => Phase::GateStart,
        Source::Gate => {
            if hurried(&c) && c.leave.is_none() {
                return fail(c, pool, PoolError::Timeout(TimeoutType::Wait));
            }
            Phase::GateWait
        },
        Source::GateHandover => Phase::Look(Source::GateAgain),
        Source::GateAgain => Phase::Gate,
        Source::Leave => Phase::GateStart,
    };
    (Checkout { phase, ..c }, CheckoutStep::Again)
}

/// Takes the first idle connection, to find out whether it can be used.
fn try_recycle_one(c: Checkout, pool: &mut Pool, source: Source) -> (r: (Checkout, CheckoutStep))
    requires
        in_step(c, old(pool)@),
        c.phase == Phase::Look(source),
    ensures
        came_to(r.0, final(pool)@, r.1, looks(c, old(pool)@, source)),
{
    proof {
        reveal(looks);
    }
    match source {
        Source::Spin(n) => {
            if n == pool.config.scaling.fast_retries {
                return (Checkout { phase: Phase::Expect, ..c }, CheckoutStep::Again);
            }
        },
        _ => {},
    }
    let skip_lifetime = pool.under_pressure();
    match pool.idle.pop_front() {
        Some(inner) => {
            assert(pool.idle@ =~= old(pool).idle@.skip(1));
            (
                Checkout { phase: Phase::Recycling(source), ..c },
                CheckoutStep::Recycle { inner, skip_lifetime, limit: c.timeouts.recycle },
            )
        },
        None => miss(c, pool, source),
    }
}

/// Goes on once it is known whether a connection can be used.
fn recycled(c: Checkout, pool: &mut Pool, source: Source, event: CheckoutEvent, o: Outlook) -> (r: (
    Checkout,
    CheckoutStep,
))
    requires
        in_step(c, old(pool)@),
        c.phase == Phase::Recycling(source),
    ensures
        came_to(r.0, final(pool)@, r.1, looked_at(c, old(pool)@, source, event, o)),
{
    proof {
        reveal(looked_at);
    }
    match event {
        CheckoutEvent::Usable(inner) => {
            let early = match source {
                Source::FirstLook | Source::Handover | Source::GateHandover => true,
                _ => false,
            };
            let replace = early && pool.maybe_trigger_pre_replacement(
                &inner.metrics,
                o.paused,
                o.now_ms,
            );
            (
                Checkout { phase: Phase::Over, ..c },
                CheckoutStep::Done { inner, spare: c.leave, replace },
            )
        },
        _ => {
            pool.counters.size = pool.counters.size - 1;
            match source {
                Source::Drain => (
                    Checkout { phase: Phase::Look(Source::Drain), ..c },
                    CheckoutStep::Again,
                ),
                _ => miss(c, pool, source),
            }
        },
    }
}

/// Registers a waiter.
fn register(pool: &mut Pool) -> (id: u64)
    ensures
        id == old(pool).counters.next_waiter,
        final(pool)@ =~= with_waiter(old(pool)@),
{
    let id: u64 = pool.counters.next_waiter;
    pool.counters.next_waiter = pool.counters.next_waiter.wrapping_add(1);
    pool.waiters.push_back(Waiter { id, live: true });
    id
}

/// Decides whether the checkout waits for a connection to come back.
fn try_anticipate(c: Checkout, pool: &mut Pool, o: Outlook) -> (r: (Checkout, CheckoutStep))
    requires
        in_step(c, old(pool)@),
        holds_permit(c.phase),
    ensures
        came_to(r.0, final(pool)@, r.1, expects(c, old(pool)@, o)),
{
    proof {
        reveal(expects);
    }
    let deficit = !c.limited && pool.idle.len() == 0 && pool.counters.size
        < pool.counters.max_size;
    let spent: u64 = if o.now_ms >= c.start_ms {
        o.now_ms - c.start_ms
    } else {
        0
    };
    let total: u64 = anticipation_total(c.timeouts.wait, spent);
    if deficit || hurried(&c) || total == 0 {
        return miss(c, pool, Source::Handover);
    }
    let limit: u64 = if total < o.anticipation_ms {
        total
    } else {
        o.anticipation_ms
    };
    let id: u64 = register(pool);
    (Checkout { phase: Phase::Expecting(id), ..c }, CheckoutStep::AwaitHandover(limit))
}

/// Finds the connection that was handed over to a waiter.
fn find_parcel(mailbox: &Vec<(u64, ObjectInner)>, id: u64) -> (at: usize)
    ensures
        at == parcel(mailbox@, id),
        at <= mailbox@.len(),
{
    let mut at: usize = 0;
    assert(mailbox@.skip(0) =~= mailbox@);
    while at < mailbox.len()
        invariant
            at <= mailbox@.len(),
            parcel(mailbox@, id) == at + parcel(mailbox@.skip(at as int), id),
        decreases mailbox.len() - at,
    {
        if mailbox[at].0 == id {
            return at;
        }
        assert(mailbox@.skip(at as int).skip(1) =~= mailbox@.skip(at + 1));
        at = at + 1;
    }
    at
}

/// Marks a waiter as one who has given up.
fn abandon(waiters: &mut std::collections::VecDeque<Waiter>, id: u64)
    ensures
        final(waiters)@ == without_waiter(old(waiters)@, id),
{
    let len: usize = waiters.len();
    let ghost start = waiters@;
    let ghost all = without_waiter(start, id);
    let mut i: usize = 0;
    while i < len
        invariant
            i <= len,
            len == start.len(),
            all == without_waiter(start, id),
            waiters@ == start.skip(i as int) + all.take(i as int),
        decreases len - i,
    {
        match waiters.pop_front() {
            Some(w) => {
                waiters.push_back(Waiter { id: w.id, live: w.live && w.id != id });
                assert(waiters@ =~= start.skip(i + 1) + all.take(i + 1));
            },
            None => {},
        }
        i = i + 1;
    }
    assert(waiters@ =~= all);
}

/// Takes a connection that was handed over.
fn unpack(c: Checkout, pool: &mut Pool, at: usize, source: Source) -> (r: (
    Checkout,
    CheckoutStep,
))
    requires
        at < old(pool).mailbox@.len(),
    ensures
        came_to(r.0, final(pool)@, r.1, unpacks(c, old(pool)@, at as int, source)),
{
    let skip_lifetime = pool.under_pressure();
    let (_, inner) = pool.mailbox.remove(at);
    (
        Checkout { phase: Phase::Recycling(source), ..c },
        CheckoutStep::Recycle { inner, skip_lifetime, limit: c.timeouts.recycle },
    )
}

/// Goes on after the wait for a connection to come back.
fn anticipated(c: Checkout, pool: &mut Pool, id: u64) -> (r: (Checkout, CheckoutStep))
    requires
        in_step(c, old(pool)@),
        holds_permit(c.phase),
    ensures
        came_to(r.0, final(pool)@, r.1, expected(c, old(pool)@, id)),
{
    proof {
        reveal(expected);
    }
    let at: usize = find_parcel(&pool.mailbox, id);
    if at < pool.mailbox.len() {
        pool.counters.stats.anticipation_wakes_notify =
            pool.counters.stats.anticipation_wakes_notify.wrapping_add(1);
        unpack(c, pool, at, Source::Handover)
    } else {
        pool.counters.stats.anticipation_wakes_timeout =
            pool.counters.stats.anticipation_wakes_timeout.wrapping_add(1);
        abandon(&mut pool.waiters, id);
        miss(c, pool, Source::Handover)
    }
}

/// Asks for a slot at the burst gate.
fn acquire_burst_gate(c: Checkout, pool: &mut Pool) -> (r: (Checkout, CheckoutStep))
    ensures
        came_to(r.0, final(pool)@, r.1, at_gate(c, old(pool)@)),
{
    proof {
        reveal(at_gate);
    }
    let phase = if pool.try_acquire_burst_gate() {
        if c.leave.is_some() {
            Phase::Create
        } else {
            Phase::Leave
        }
    } else {
        pool.counters.stats.burst_gate_waits = pool.counters.stats.burst_gate_waits.wrapping_add(1);
        Phase::Look(Source::Gate)
    };
    (Checkout { phase, ..c }, CheckoutStep::Again)
}

/// Waits at the burst gate.
fn wait_at_gate(c: Checkout, pool: &mut Pool, o: Outlook) -> (r: (Checkout, CheckoutStep))
    ensures
        came_to(r.0, final(pool)@, r.1, waits_at_gate(c, old(pool)@, o)),
{
    proof {
        reveal(waits_at_gate);
    }
    let spent: u64 = if o.now_ms >= c.since_ms {
        o.now_ms - c.since_ms
    } else {
        0
    };
    if spent > c.gate_ms {
        pool.counters.stats.burst_gate_budget_exhausted =
            pool.counters.stats.burst_gate_budget_exhausted.wrapping_add(1);
        (
            Checkout { phase: Phase::GateBackoff, ..c },
            CheckoutStep::AwaitGate(BURST_GATE_EXHAUSTED_BACKOFF_MS),
        )
    } else {
        let id: u64 = register(pool);
        (
            Checkout { phase: Phase::GateWaiting(id), ..c },
            CheckoutStep::AwaitHandoverOrGate(BURST_BACKOFF_MS),
        )
    }
}

/// Goes on after a wait at the burst gate.
fn leave_gate_queue(c: Checkout, pool: &mut Pool, id: u64, event: CheckoutEvent) -> (r: (
    Checkout,
    CheckoutStep,
))
    ensures
        came_to(r.0, final(pool)@, r.1, waited_at_gate(c, old(pool)@, id, event)),
{
    proof {
        reveal(waited_at_gate);
    }
    let at: usize = find_parcel(&pool.mailbox, id);
    if at >= pool.mailbox.len() {
        abandon(&mut pool.waiters, id);
        return (Checkout { phase: Phase::Look(Source::GateAgain), ..c }, CheckoutStep::Again);
    }
    match event {
        CheckoutEvent::Handed => unpack(c, pool, at, Source::GateHandover),
        _ => {
            let (_, inner) = pool.mailbox.remove(at);
            push_idle(pool.config.queue_mode, &mut pool.idle, inner);
            (Checkout { phase: Phase::Look(Source::GateAgain), ..c }, CheckoutStep::Again)
        },
    }
}

/// Asks for the leave of the database with a slot in hand.
fn acquire_coordinator_jit(c: Checkout, pool: &mut Pool, event: CheckoutEvent) -> (r: (
    Checkout,
    CheckoutStep,
))
    requires
        old(pool).counters.inflight_creates > 0,
    ensures
        came_to(r.0, final(pool)@, r.1, asks_leave(c, old(pool)@, event)),
{
    proof {
        reveal(asks_leave);
    }
    match event {
        CheckoutEvent::Granted(permit) => (
            Checkout { phase: Phase::Create, leave: Some(permit), ..c },
            CheckoutStep::Again,
        ),
        CheckoutEvent::NoLeave => {
            pool.release_burst_gate();
            (Checkout { phase: Phase::Asking, ..c }, CheckoutStep::AwaitLeave)
        },
        _ => {
            if c.limited {
                (c, CheckoutStep::TryLeave)
            } else {
                (Checkout { phase: Phase::Create, ..c }, CheckoutStep::Again)
            }
        },
    }
}

/// Goes on after the wait for the leave of the database.
fn coordinator_answered(c: Checkout, pool: &mut Pool, event: CheckoutEvent) -> (r: (
    Checkout,
    CheckoutStep,
))
    requires
        old(pool).counters.users > 0,
        old(pool).counters.permits < usize::MAX,
    ensures
        came_to(r.0, final(pool)@, r.1, asked_leave(c, old(pool)@, event)),
{
    proof {
        reveal(asked_leave);
    }
    match event {
        CheckoutEvent::Granted(permit) => (
            Checkout { phase: Phase::Look(Source::Leave), leave: Some(permit), ..c },
            CheckoutStep::Again,
        ),
        CheckoutEvent::Refused(info) => fail(c, pool, PoolError::DbLimitExhausted(info)),
        _ => (c, CheckoutStep::AwaitLeave),
    }
}

/// Ends the checkout with a new connection or without one.
fn create_connection(c: Checkout, pool: &mut Pool, event: CheckoutEvent) -> (r: (
    Checkout,
    CheckoutStep,
))
    requires
        old(pool).counters.users > 0,
        old(pool).counters.permits < usize::MAX,
        old(pool).counters.inflight_creates > 0,
        old(pool).counters.size < usize::MAX,
    ensures
        came_to(r.0, final(pool)@, r.1, made(c, old(pool)@, event)),
{
    proof {
        reveal(made);
    }
    pool.release_burst_gate();
    match event {
        CheckoutEvent::Made(obj, metrics) => {
            pool.counters.size = pool.counters.size + 1;
            (
                Checkout { phase: Phase::Over, ..c },
                CheckoutStep::Done {
                    inner: ObjectInner { obj, metrics, coordinator_permit: c.leave },
                    spare: None,
                    replace: false,
                },
            )
        },
        CheckoutEvent::NotMade(error) => fail(c, pool, PoolError::Backend(error)),
        _ => fail(c, pool, PoolError::Timeout(TimeoutType::Create)),
    }
}

/// A checkout that begins, and what has to be done first.
pub open spec fn begun(
    p: PoolState,
    timeouts: Timeouts,
    limited: bool,
    now_ms: u64,
    paused: bool,
) -> Turn {
    Turn {
        checkout: Checkout {
            timeouts,
            limited,
            start_ms: now_ms,
            phase: if paused {
                Phase::Paused
            } else {
                Phase::Permit(0)
            },
            since_ms: now_ms,
            gate_ms: 0,
            leave: None,
        },
        pool: p.with(
            PoolCounters { users: (p.counters.users + 1) as usize, ..p.counters },
        ),
        step: if paused {
            CheckoutStep::AwaitResume(timeouts.wait)
        } else {
            CheckoutStep::Again
        },
    }
}

impl Checkout {
    /// Begins a checkout.
    pub fn begin(
        pool: &mut Pool,
        timeouts: Timeouts,
        limited: bool,
        now_ms: u64,
        paused: bool,
    ) -> (r: (Checkout, CheckoutStep))
        requires
            old(pool).counters.users < usize::MAX,
        ensures
            came_to(r.0, final(pool)@, r.1, begun(old(pool)@, timeouts, limited, now_ms, paused)),
    {
        pool.counters.users = pool.counters.users + 1;
        let c = Checkout {
            timeouts,
            limited,
            start_ms: now_ms,
            phase: if paused {
                Phase::Paused
            } else {
                Phase::Permit(0)
            },
            since_ms: now_ms,
            gate_ms: 0,
            leave: None,
        };
        if paused {
            (c, CheckoutStep::AwaitResume(timeouts.wait))
        } else {
            (c, CheckoutStep::Again)
        }
    }

    /// Whether the checkout can take what has happened: the event fits its phase,
    /// and the pool has counted what the checkout has taken.
    pub fn accepts(&self, pool: &Pool, event: &CheckoutEvent) -> (r: bool)
        ensures
            r == (in_step(*self, pool@) && fits(self.phase, *event)),
    {
        let event_fits = match self.phase {
            Phase::Recycling(_) => matches!(
                event,
                CheckoutEvent::Usable(_) | CheckoutEvent::Unusable
            ),
            Phase::Leave => matches!(
                event,
                CheckoutEvent::Go | CheckoutEvent::Granted(_) | CheckoutEvent::NoLeave
            ),
            Phase::Asking => matches!(
                event,
                CheckoutEvent::Granted(_) | CheckoutEvent::Refused(_)
            ),
            Phase::Creating => matches!(
                event,
                CheckoutEvent::Made(_, _) | CheckoutEvent::NotMade(_) | CheckoutEvent::TimedOut
            ),
            Phase::Over => false,
            _ => matches!(
                event,
                CheckoutEvent::Go | CheckoutEvent::TimedOut | CheckoutEvent::Handed
            ),
        };
        let permit_counted = match self.phase {
            Phase::Paused | Phase::Permit(_) | Phase::Queued | Phase::Over => true,
            _ => pool.counters.permits < usize::MAX,
        };
        let gate_counted = match self.phase {
            Phase::Leave | Phase::Create | Phase::Creating => pool.counters.inflight_creates > 0,
            _ => true,
        };
        let size: usize = pool.counters.size;
        let idle: usize = pool.idle.len();
        let connection_counted = match self.phase {
            Phase::Recycling(_) => idle < size && pool.mailbox.len() < size - idle,
            _ => true,
        };
        let tries_counted = match self.phase {
            Phase::Look(Source::Spin(n)) => n <= pool.config.scaling.fast_retries,
            Phase::Recycling(Source::Spin(n)) => n < pool.config.scaling.fast_retries,
            Phase::Permit(n) => n <= MAX_FAST_RETRY,
            _ => true,
        };
        event_fits && permit_counted && gate_counted && connection_counted && tries_counted
            && pool.counters.users > 0 && size < usize::MAX
    }

    /// Takes what has happened and says what has to be done next.
    pub fn advance(&mut self, pool: &mut Pool, event: CheckoutEvent, o: Outlook) -> (step:
        CheckoutStep)
        requires
            in_step(*old(self), old(pool)@),
            fits(old(self).phase, event),
        ensures
            came_to(*final(self), final(pool)@, step, turn(*old(self), old(pool)@, event, o)),
    {
        let c: Checkout = *self;
        let (next, step) = match c.phase {
            Phase::Paused => wait_if_paused(c, pool, event),
            Phase::Permit(tries) => acquire_semaphore(c, pool, tries, o),
            Phase::Queued => queue_for_permit(c, pool, event, o),
            Phase::Look(source) => try_recycle_one(c, pool, source),
            Phase::Recycling(source) => recycled(c, pool, source, event, o),
            Phase::Warm => {
                proof {
                    reveal(warms);
                }
                let source = if pool.counters.size >= o.warm_threshold && pool.counters.size >= 1 {
                    Source::Spin(0)
                } else {
                    Source::Drain
                };
                (Checkout { phase: Phase::Look(source), ..c }, CheckoutStep::Again)
            },
            Phase::Expect => try_anticipate(c, pool, o),
            Phase::Expecting(id) => anticipated(c, pool, id),
            Phase::GateStart => {
                proof {
                    reveal(comes_to_gate);
                }
                (
                    Checkout {
                        phase: Phase::Gate,
                        since_ms: o.now_ms,
                        gate_ms: o.gate_ms,
                        ..c
                    },
                    CheckoutStep::Again,
                )
            },
            Phase::Gate => acquire_burst_gate(c, pool),
            Phase::GateWait => wait_at_gate(c, pool, o),
            Phase::GateBackoff => (Checkout { phase: Phase::Gate, ..c }, CheckoutStep::Again),
            Phase::GateWaiting(id) => leave_gate_queue(c, pool, id, event),
            Phase::Leave => acquire_coordinator_jit(c, pool, event),
            Phase::Asking => coordinator_answered(c, pool, event),
            Phase::Create => (
                Checkout { phase: Phase::Creating, ..c },
                CheckoutStep::Create(c.timeouts.create),
            ),
            Phase::Creating => create_connection(c, pool, event),
            Phase::Over => (c, CheckoutStep::Again),
        };
        *self = next;
        step
    }

    /// The step of [`Checkout::advance`] with the waiting times drawn for the
    /// slowest transactions of the pool, whose time is `xact_p99_us`.
    pub fn proceed(
        &mut self,
        pool: &mut Pool,
        event: CheckoutEvent,
        now_ms: u64,
        paused: bool,
        warm_threshold: usize,
        xact_p99_us: u64,
    ) -> (step: CheckoutStep)
        requires
            in_step(*old(self), old(pool)@),
            fits(old(self).phase, event),
        ensures
            exists|a: u64, g: u64|
                #![trigger drawn(a, g, xact_p99_us)]
                drawn(a, g, xact_p99_us) && came_to(
                    *final(self),
                    final(pool)@,
                    step,
                    turn(
                        *old(self),
                        old(pool)@,
                        event,
                        Outlook {
                            now_ms,
                            paused,
                            warm_threshold,
                            anticipation_ms: a,
                            gate_ms: g,
                        },
                    ),
                ),
    {
        let anticipation_ms: u64 = anticipation_cap(xact_p99_us);
        let gate_ms: u64 = burst_gate_budget(xact_p99_us);
        assert(drawn(anticipation_ms, gate_ms, xact_p99_us));
        self.advance(
            pool,
            event,
            Outlook { now_ms, paused, warm_threshold, anticipation_ms, gate_ms },
        )
    }
}

impl Pool {
    /// Begins a checkout with the time limits of the pool.
    pub fn get(&mut self, now_ms: u64) -> (r: (Checkout, CheckoutStep))
        requires
            old(self).counters.users < usize::MAX,
        ensures
            came_to(
                r.0,
                final(self)@,
                r.1,
                begun(
                    old(self)@,
                    old(self).config.timeouts,
                    old(self).setup.limited,
                    now_ms,
                    server_pool::paused_in(old(self).setup.server_pool.pool_state),
                ),
            ),
    {
        let timeouts: Timeouts = self.timeouts();
        self.timeout_get(timeouts, now_ms)
    }

    /// Begins a checkout with other time limits than those of the pool.
    pub fn timeout_get(&mut self, timeouts: Timeouts, now_ms: u64) -> (r: (Checkout, CheckoutStep))
        requires
            old(self).counters.users < usize::MAX,
        ensures
            came_to(
                r.0,
                final(self)@,
                r.1,
                begun(
                    old(self)@,
                    timeouts,
                    old(self).setup.limited,
                    now_ms,
                    server_pool::paused_in(old(self).setup.server_pool.pool_state),
                ),
            ),
    {
        let paused: bool = self.is_paused();
        let limited: bool = self.setup.limited;
        Checkout::begin(self, timeouts, limited, now_ms, paused)
    }
}

/// Waiting times that may be drawn: both lie around the time in which a
/// connection should come back.
pub open spec fn drawn(anticipation_ms: u64, gate_ms: u64, xact_p99_us: u64) -> bool {
    &&& exists|dice: u64|
        dice <= 2 * inner::budget_spread(inner::anticipation_base(xact_p99_us))
            && anticipation_ms == #[trigger] inner::budget(
            inner::anticipation_base(xact_p99_us),
            dice,
            inner::ANTICIPATION_MIN_BUDGET_MS,
            inner::ANTICIPATION_HARD_CAP_MS,
        )
    &&& exists|dice: u64|
        dice <= 2 * inner::budget_spread(inner::anticipation_base(xact_p99_us))
            && gate_ms == #[trigger] inner::budget(
            inner::anticipation_base(xact_p99_us),
            dice,
            inner::BURST_GATE_MIN_BUDGET_MS,
            inner::ANTICIPATION_HARD_CAP_MS,
        )
}

/// One, where something holds.
pub open spec fn one_if(b: bool) -> int {
    if b {
        1
    } else {
        0
    }
}

/// What holds of every step of a checkout.
#[verifier::rlimit(60)]
proof fn every_step(c: Checkout, p: PoolState, event: CheckoutEvent, o: Outlook)
    ensures
        ({
            let t = turn(c, p, event, o);
            &&& in_step(c, p) && fits(c.phase, event) ==> {
                &&& t.pool.counters.permits + one_if(holds_permit(t.checkout.phase)) + one_if(
                    t.step is Done,
                ) == p.counters.permits + one_if(holds_permit(c.phase))
                &&& t.pool.counters.inflight_creates - one_if(holds_gate(t.checkout.phase))
                    == p.counters.inflight_creates - one_if(holds_gate(c.phase))
                &&& out_of_pool(t.pool) - one_if(holds_connection(t.checkout.phase)) - one_if(
                    t.step is Done,
                ) == out_of_pool(p) - one_if(holds_connection(c.phase))
                &&& t.pool.counters.users == p.counters.users - one_if(t.step is Failed)
                &&& t.checkout.phase == Phase::Over <==> t.step is Done || t.step is Failed
            }
            &&& in_step(c, p) && fits(c.phase, event) && out_of_pool(p) >= 0 ==> {
                &&& t.checkout.phase != Phase::Over ==> in_step(t.checkout, t.pool)
                &&& out_of_pool(t.pool) >= 0
            }
            &&& c.in_a_hurry() ==> t.checkout.in_a_hurry()
            &&& c.in_a_hurry() && c.leave.is_none() && !waiting(c.phase)
                && t.checkout.leave.is_none() ==> !waiting(t.checkout.phase)
            &&& c.phase is Look && t.checkout.phase == Phase::GateStart ==> p.idle.len() == 0
        }),
{
    reveal(after_pause);
    reveal(tries_permit);
    reveal(waits_for_permit);
    reveal(misses);
    reveal(looks);
    reveal(looked_at);
    reveal(warms);
    reveal(expects);
    reveal(expected);
    reveal(comes_to_gate);
    reveal(at_gate);
    reveal(waits_at_gate);
    reveal(waited_at_gate);
    reveal(asks_leave);
    reveal(asked_leave);
    reveal(made);
    parcel_in_range(p.mailbox, c.phase);
}

/// No step of a checkout makes or loses a permit: what is free in the pool, what
/// the checkout holds and what the client holds with its connection stay as
/// many.
pub proof fn permits_are_conserved(c: Checkout, p: PoolState, event: CheckoutEvent, o: Outlook)
    requires
        in_step(c, p),
        fits(c.phase, event),
    ensures
        ({
            let t = turn(c, p, event, o);
            t.pool.counters.permits + one_if(holds_permit(t.checkout.phase)) + one_if(
                t.step is Done,
            ) == p.counters.permits + one_if(holds_permit(c.phase))
        }),
{
    every_step(c, p, event, o);
}

/// No step of a checkout makes or loses a slot at the burst gate.
pub proof fn slots_are_conserved(c: Checkout, p: PoolState, event: CheckoutEvent, o: Outlook)
    requires
        in_step(c, p),
        fits(c.phase, event),
    ensures
        ({
            let t = turn(c, p, event, o);
            t.pool.counters.inflight_creates - one_if(holds_gate(t.checkout.phase))
                == p.counters.inflight_creates - one_if(holds_gate(c.phase))
        }),
{
    every_step(c, p, event, o);
}

/// The connections that neither lie idle nor wait in a mailbox.
pub open spec fn out_of_pool(p: PoolState) -> int {
    p.counters.size - p.idle.len() - p.mailbox.len()
}

/// Every connection that leaves the idle queue or a mailbox is in the hands of
/// the checkout or of the client, or is gone and no longer counted.
pub proof fn connections_are_accounted_for(
    c: Checkout,
    p: PoolState,
    event: CheckoutEvent,
    o: Outlook,
)
    requires
        in_step(c, p),
        fits(c.phase, event),
    ensures
        ({
            let t = turn(c, p, event, o);
            out_of_pool(t.pool) - one_if(holds_connection(t.checkout.phase)) - one_if(
                t.step is Done,
            ) == out_of_pool(p) - one_if(holds_connection(c.phase))
        }),
{
    every_step(c, p, event, o);
}

/// The place of a parcel is a place of the mailbox.
proof fn parcel_in_range(mailbox: Seq<(u64, ObjectInner)>, phase: Phase)
    ensures
        phase matches Phase::Expecting(id) ==> parcel(mailbox, id) >= 0,
        phase matches Phase::GateWaiting(id) ==> parcel(mailbox, id) >= 0,
    decreases mailbox.len(),
{
    if mailbox.len() > 0 {
        parcel_in_range(mailbox.skip(1), phase);
    }
}

/// A checkout stays in step with its pool until it ends, and it ends exactly
/// when it is done or has failed. A client who got a connection still counts as
/// a user of the pool; one whose checkout has failed does not.
pub proof fn checkout_stays_in_step(c: Checkout, p: PoolState, event: CheckoutEvent, o: Outlook)
    requires
        in_step(c, p),
        fits(c.phase, event),
        p.idle.len() + p.mailbox.len() <= p.counters.size,
    ensures
        ({
            let t = turn(c, p, event, o);
            &&& t.checkout.phase == Phase::Over <==> t.step is Done || t.step is Failed
            &&& t.checkout.phase != Phase::Over ==> in_step(t.checkout, t.pool)
            &&& t.pool.idle.len() + t.pool.mailbox.len() <= t.pool.counters.size
            &&& t.pool.counters.users == p.counters.users - one_if(t.step is Failed)
        }),
{
    every_step(c, p, event, o);
}

/// The checkout waits for a permit or a connection.
pub open spec fn waiting(phase: Phase) -> bool {
    match phase {
        Phase::Queued | Phase::Expecting(_) | Phase::GateWait | Phase::GateBackoff => true,
        Phase::GateWaiting(_) => true,
        _ => false,
    }
}

/// A client in a hurry is never made to wait for a permit or a connection.
pub proof fn hurry_is_respected(c: Checkout, p: PoolState, event: CheckoutEvent, o: Outlook)
    requires
        c.in_a_hurry(),
        c.leave.is_none(),
        !waiting(c.phase),
    ensures
        turn(c, p, event, o).checkout.in_a_hurry(),
        turn(c, p, event, o).checkout.leave.is_none() ==> !waiting(
            turn(c, p, event, o).checkout.phase,
        ),
{
    every_step(c, p, event, o);
}

/// A checkout goes on to make a connection of its own only when none is idle.
pub proof fn idle_connections_come_first(
    c: Checkout,
    p: PoolState,
    event: CheckoutEvent,
    o: Outlook,
)
    requires
        turn(c, p, event, o).checkout.phase == Phase::GateStart,
        c.phase is Look,
    ensures
        p.idle.len() == 0,
{
    every_step(c, p, event, o);
}

/// A checkout of a limited database makes a connection only with the leave of the
/// database in hand, and asks for a leave only while it has none.
pub open spec fn asks_first(c: Checkout) -> bool {
    &&& c.limited && (c.phase == Phase::Create || c.phase == Phase::Creating)
        ==> c.leave.is_some()
    &&& c.phase == Phase::Leave || c.phase == Phase::Asking ==> c.leave.is_none()
}

/// A connection of a limited database is made only after the database has given its
/// leave, and the connection carries that leave. A database without a limit is not
/// asked.
#[verifier::rlimit(80)]
pub proof fn limited_databases_are_asked(c: Checkout, p: PoolState, event: CheckoutEvent, o: Outlook)
    requires
        asks_first(c),
        fits(c.phase, event),
    ensures
        ({
            let t = turn(c, p, event, o);
            &&& asks_first(t.checkout)
            &&& t.checkout.limited == c.limited
            &&& t.step is Create && c.limited ==> t.checkout.leave.is_some()
            &&& c.phase == Phase::Creating && t.step is Done ==> {
                &&& t.step->Done_inner.coordinator_permit == c.leave
                &&& c.limited ==> t.step->Done_inner.coordinator_permit.is_some()
            }
            &&& c.limited && c.phase == Phase::Leave && event is Go ==> t.step is TryLeave
                && t.checkout == c
            &&& !c.limited ==> !(t.step is TryLeave)
        }),
{
    reveal(after_pause);
    reveal(tries_permit);
    reveal(waits_for_permit);
    reveal(misses);
    reveal(looks);
    reveal(looked_at);
    reveal(warms);
    reveal(expects);
    reveal(expected);
    reveal(comes_to_gate);
    reveal(at_gate);
    reveal(waits_at_gate);
    reveal(waited_at_gate);
    reveal(asks_leave);
    reveal(asked_leave);
    reveal(made);
}

/// A checkout begins as the limits of its database say, without a leave.
pub proof fn checkout_begins_without_leave(
    p: PoolState,
    timeouts: Timeouts,
    limited: bool,
    now_ms: u64,
    paused: bool,
)
    ensures
        ({
            let t = begun(p, timeouts, limited, now_ms, paused);
            &&& asks_first(t.checkout)
            &&& t.checkout.limited == limited
            &&& t.checkout.leave.is_none()
            &&& t.checkout.timeouts == timeouts
            &&& t.checkout.start_ms == now_ms
            &&& t.pool.counters.users == (p.counters.users + 1) as usize
            &&& t.pool.counters.permits == p.counters.permits
            &&& t.pool.idle == p.idle
            &&& paused ==> t.step == CheckoutStep::AwaitResume(timeouts.wait)
            &&& !paused ==> t.step == CheckoutStep::Again && t.checkout.phase == Phase::Permit(0)
        }),
{
}

/// No leave of a database is lost or made up: it stays with the checkout, goes into
/// the connection that was made with it, or is handed back to be released.
#[verifier::rlimit(80)]
pub proof fn leaves_are_accounted_for(c: Checkout, p: PoolState, event: CheckoutEvent, o: Outlook)
    requires
        asks_first(c),
        fits(c.phase, event),
    ensures
        match turn(c, p, event, o).step {
            CheckoutStep::Failed { spare, .. } => spare == c.leave,
            CheckoutStep::Done { inner, spare, .. } => if c.phase == Phase::Creating {
                inner.coordinator_permit == c.leave && spare.is_none()
            } else {
                spare == c.leave && event == CheckoutEvent::Usable(inner)
            },
            _ => turn(c, p, event, o).checkout.leave == match event {
                CheckoutEvent::Granted(permit) => Some(permit),
                _ => c.leave,
            },
        },
{
    reveal(after_pause);
    reveal(tries_permit);
    reveal(waits_for_permit);
    reveal(misses);
    reveal(looks);
    reveal(looked_at);
    reveal(warms);
    reveal(expects);
    reveal(expected);
    reveal(comes_to_gate);
    reveal(at_gate);
    reveal(waits_at_gate);
    reveal(waited_at_gate);
    reveal(asks_leave);
    reveal(asked_leave);
    reveal(made);
}

/// What a checkout waits for has the time limit that the client set: what is left of
/// it while it waits for a permit, all of it for a look at a connection and for making
/// one.
pub proof fn time_limits_are_kept(c: Checkout, p: PoolState, event: CheckoutEvent, o: Outlook)
    requires
        fits(c.phase, event),
    ensures
        turn(c, p, event, o).checkout.timeouts == c.timeouts,
        turn(c, p, event, o).checkout.start_ms == c.start_ms,
        match turn(c, p, event, o).step {
            CheckoutStep::AwaitPermit(limit) => match (c.timeouts.wait, limit) {
                (None, None) => true,
                (Some(wait), Some(ms)) => if c.phase == Phase::Queued && o.now_ms >= c.since_ms {
                    ms as int == if wait > o.now_ms - c.since_ms {
                        wait - (o.now_ms - c.since_ms)
                    } else {
                        0
                    }
                } else {
                    ms == wait
                },
                _ => false,
            },
            CheckoutStep::Create(limit) => limit == c.timeouts.create,
            CheckoutStep::Recycle { limit, skip_lifetime, .. } => limit == c.timeouts.recycle
                && skip_lifetime == (p.counters.permits == 0),
            CheckoutStep::AwaitHandover(ms) => {
                &&& ms > 0 || o.anticipation_ms == 0
                &&& ms <= o.anticipation_ms
                &&& match c.timeouts.wait {
                    // Half a second is kept for making a connection.
                    Some(wait) => o.now_ms >= c.start_ms ==> ms + 500 + (o.now_ms - c.start_ms)
                        <= wait,
                    None => ms <= 100,
                }
            },
            CheckoutStep::AwaitHandoverOrGate(ms) => ms == 5 && (o.now_ms >= c.since_ms ==> o.now_ms
                - c.since_ms <= c.gate_ms),
            CheckoutStep::AwaitGate(ms) => ms == 50 && o.now_ms > c.since_ms && o.now_ms
                - c.since_ms > c.gate_ms,
            _ => true,
        },
{
    reveal(after_pause);
    reveal(tries_permit);
    reveal(waits_for_permit);
    reveal(misses);
    reveal(looks);
    reveal(looked_at);
    reveal(warms);
    reveal(expects);
    reveal(expected);
    reveal(comes_to_gate);
    reveal(at_gate);
    reveal(waits_at_gate);
    reveal(waited_at_gate);
    reveal(asks_leave);
    reveal(asked_leave);
    reveal(made);
}

/// A checkout fails for the reason that it reports, and not without one.
pub proof fn failures_have_their_reason(c: Checkout, p: PoolState, event: CheckoutEvent, o: Outlook)
    requires
        fits(c.phase, event),
    ensures
        ({
            let step = turn(c, p, event, o).step;
            &&& step matches CheckoutStep::Failed { error, .. } ==> match error {
                PoolError::Timeout(TimeoutType::Wait) => {
                    ||| event is TimedOut && (c.phase == Phase::Paused || c.phase == Phase::Queued)
                    ||| c.timeouts.wait == Some(0u64)
                },
                PoolError::Timeout(TimeoutType::Create) => c.phase == Phase::Creating
                    && event is TimedOut,
                PoolError::Closed => p.counters.closed,
                PoolError::Backend(e) => event == CheckoutEvent::NotMade(e),
                PoolError::DbLimitExhausted(info) => event == CheckoutEvent::Refused(info),
            }
            &&& event is NotMade || event is Refused ==> step is Failed
            &&& event is TimedOut && (c.phase == Phase::Creating || c.phase == Phase::Paused)
                ==> step is Failed
            &&& event is TimedOut && c.phase == Phase::Queued && p.counters.permits == 0
                ==> step is Failed
            &&& c.phase == Phase::Queued && p.counters.closed ==> (
            step matches CheckoutStep::Failed { error, .. } && error is Closed)
            &&& event is Made || event is Usable ==> step is Done
        }),
{
    reveal(after_pause);
    reveal(tries_permit);
    reveal(waits_for_permit);
    reveal(misses);
    reveal(looks);
    reveal(looked_at);
    reveal(warms);
    reveal(expects);
    reveal(expected);
    reveal(comes_to_gate);
    reveal(at_gate);
    reveal(waits_at_gate);
    reveal(waited_at_gate);
    reveal(asks_leave);
    reveal(asked_leave);
    reveal(made);
}

/// Nobody gets a permit of a pool that is closed or has none, and who may have one
/// takes it and looks at the idle connections first.
pub proof fn permits_open_the_pool(c: Checkout, p: PoolState, event: CheckoutEvent, o: Outlook)
    requires
        fits(c.phase, event),
    ensures
        ({
            let t = turn(c, p, event, o);
            &&& holds_permit(t.checkout.phase) && !holds_permit(c.phase) ==> {
                &&& !p.counters.closed
                &&& p.counters.permits > 0
                &&& t.pool.counters.permits == p.counters.permits - 1
                &&& t.checkout.phase == Phase::Look(Source::FirstLook)
            }
            &&& (c.phase is Permit || c.phase == Phase::Queued) && !p.counters.closed
                && p.counters.permits > 0 ==> holds_permit(t.checkout.phase)
            &&& c.phase == Phase::Paused ==> !holds_permit(t.checkout.phase)
        }),
{
    reveal(after_pause);
    reveal(tries_permit);
    reveal(waits_for_permit);
    reveal(misses);
    reveal(looks);
    reveal(looked_at);
    reveal(warms);
    reveal(expects);
    reveal(expected);
    reveal(comes_to_gate);
    reveal(at_gate);
    reveal(waits_at_gate);
    reveal(waited_at_gate);
    reveal(asks_leave);
    reveal(asked_leave);
    reveal(made);
}

/// An idle connection is used before another is made: the next one of the queue is
/// looked at, and the client gets it if it can be used. One that cannot is gone.
pub proof fn idle_connections_are_reused(c: Checkout, p: PoolState, event: CheckoutEvent, o: Outlook)
    requires
        fits(c.phase, event),
        in_step(c, p),
    ensures
        ({
            let t = turn(c, p, event, o);
            &&& c.phase is Look && c.phase != Phase::Look(
                Source::Spin(p.config.scaling.fast_retries),
            ) && p.idle.len() > 0 ==> {
                &&& t.step is Recycle
                &&& t.step->Recycle_inner == p.idle[0]
                &&& t.pool.idle == p.idle.skip(1)
                &&& t.checkout.phase is Recycling
                &&& t.pool.counters == p.counters
            }
            &&& event matches CheckoutEvent::Usable(inner) ==> {
                &&& t.step is Done
                &&& t.step->Done_inner == inner
                &&& t.pool.idle == p.idle
                &&& t.pool.counters.size == p.counters.size
            }
            &&& event is Unusable ==> {
                &&& !(t.step is Done)
                &&& t.pool.counters.size == p.counters.size - 1
                &&& t.pool.idle == p.idle
            }
            &&& event matches CheckoutEvent::Made(obj, metrics) ==> {
                &&& t.step->Done_inner.obj == obj
                &&& t.step->Done_inner.metrics == metrics
                &&& t.pool.counters.size == p.counters.size + 1
            }
            &&& t.pool.counters.size > p.counters.size ==> event is Made
            &&& t.pool.counters.size < p.counters.size ==> event is Unusable
        }),
{
    reveal(after_pause);
    reveal(tries_permit);
    reveal(waits_for_permit);
    reveal(misses);
    reveal(looks);
    reveal(looked_at);
    reveal(warms);
    reveal(expects);
    reveal(expected);
    reveal(comes_to_gate);
    reveal(at_gate);
    reveal(waits_at_gate);
    reveal(waited_at_gate);
    reveal(asks_leave);
    reveal(asked_leave);
    reveal(made);
}

/// A connection is looked at only if it was idle, or was handed over to this
/// checkout.
pub proof fn only_own_connections_are_taken(c: Checkout, p: PoolState, event: CheckoutEvent, o: Outlook)
    requires
        fits(c.phase, event),
    ensures
        turn(c, p, event, o).step matches CheckoutStep::Recycle { inner, .. } ==> match c.phase {
            Phase::Look(_) => p.idle.len() > 0 && inner == p.idle[0]
                && turn(c, p, event, o).pool.mailbox == p.mailbox,
            Phase::Expecting(id) | Phase::GateWaiting(id) => exists|i: int|
                0 <= i < p.mailbox.len() && #[trigger] p.mailbox[i] == (id, inner)
                    && turn(c, p, event, o).pool.mailbox == p.mailbox.remove(i)
                    && turn(c, p, event, o).pool.idle == p.idle,
            _ => false,
        },
        c.phase matches Phase::Expecting(id) ==> ((exists|i: int|
            0 <= i < p.mailbox.len() && (#[trigger] p.mailbox[i]).0 == id)
            ==> turn(c, p, event, o).step is Recycle),
{
    match c.phase {
        Phase::Expecting(id) | Phase::GateWaiting(id) => parcel_is_own(p.mailbox, id),
        _ => {},
    }
    reveal(after_pause);
    reveal(tries_permit);
    reveal(waits_for_permit);
    reveal(misses);
    reveal(looks);
    reveal(looked_at);
    reveal(warms);
    reveal(expects);
    reveal(expected);
    reveal(comes_to_gate);
    reveal(at_gate);
    reveal(waits_at_gate);
    reveal(waited_at_gate);
    reveal(asks_leave);
    reveal(asked_leave);
    reveal(made);
    match c.phase {
        Phase::Expecting(id) | Phase::GateWaiting(id) => {
            let at = parcel(p.mailbox, id);
            if at < p.mailbox.len() {
                assert(p.mailbox[at] == (id, p.mailbox[at].1));
            }
        },
        _ => {},
    }
}

/// The parcel of a waiter is the first that bears its number.
proof fn parcel_is_own(mailbox: Seq<(u64, ObjectInner)>, id: u64)
    ensures
        0 <= parcel(mailbox, id) <= mailbox.len(),
        parcel(mailbox, id) < mailbox.len() ==> mailbox[parcel(mailbox, id)].0 == id,
        forall|j: int| 0 <= j < parcel(mailbox, id) ==> (#[trigger] mailbox[j]).0 != id,
    decreases mailbox.len(),
{
    if mailbox.len() > 0 && mailbox[0].0 != id {
        let rest = mailbox.skip(1);
        parcel_is_own(rest, id);
        assert forall|j: int| 0 <= j < parcel(mailbox, id) implies (#[trigger] mailbox[j]).0
            != id by {
            if j > 0 {
                assert(rest[j - 1] == mailbox[j]);
            }
        }
    }
}

/// The burst gate lets so many through at the same time and no more: a slot is taken
/// only while one is free, and then it is taken.
#[verifier::rlimit(60)]
pub proof fn burst_gate_bounds_creates(c: Checkout, p: PoolState, event: CheckoutEvent, o: Outlook)
    requires
        fits(c.phase, event),
        in_step(c, p),
    ensures
        ({
            let t = turn(c, p, event, o);
            let max = p.config.scaling.max_parallel_creates;
            &&& t.pool.counters.inflight_creates > p.counters.inflight_creates
                ==> t.pool.counters.inflight_creates <= max
            &&& holds_gate(t.checkout.phase) && !holds_gate(c.phase) ==> c.phase == Phase::Gate
                && p.counters.inflight_creates < max
            &&& c.phase == Phase::Gate && p.counters.inflight_creates < max ==> holds_gate(
                t.checkout.phase,
            )
            &&& t.step is Create ==> holds_gate(t.checkout.phase)
            &&& t.step is AwaitLeave ==> !holds_gate(t.checkout.phase)
            &&& c.phase == Phase::Creating ==> !holds_gate(t.checkout.phase)
            &&& t.pool.config == p.config
            &&& t.pool.setup == p.setup
        }),
{
    reveal(after_pause);
    reveal(tries_permit);
    reveal(waits_for_permit);
    reveal(misses);
    reveal(looks);
    reveal(looked_at);
    reveal(warms);
    reveal(expects);
    reveal(expected);
    reveal(comes_to_gate);
    reveal(at_gate);
    reveal(waits_at_gate);
    reveal(waited_at_gate);
    reveal(asks_leave);
    reveal(asked_leave);
    reveal(made);
}

/// Who waits for a connection to come back stands in the queue under a number of its
/// own, and who gives up gets nothing any more; the other waiters are not touched.
pub proof fn waiters_come_and_go(c: Checkout, p: PoolState, event: CheckoutEvent, o: Outlook)
    requires
        fits(c.phase, event),
    ensures
        ({
            let t = turn(c, p, event, o);
            &&& t.step is AwaitHandover || t.step is AwaitHandoverOrGate ==> {
                let id = p.counters.next_waiter;
                &&& t.checkout.phase == Phase::Expecting(id) || t.checkout.phase
                    == Phase::GateWaiting(id)
                &&& t.pool.waiters == p.waiters.push(Waiter { id, live: true })
                &&& t.pool.counters.next_waiter != id
            }
            &&& c.phase matches Phase::Expecting(id) ==> (!(t.step is Recycle) ==> {
                &&& t.pool.waiters.len() == p.waiters.len()
                &&& forall|i: int|
                    0 <= i < p.waiters.len() ==> (#[trigger] t.pool.waiters[i]).id == p.waiters[i].id
                        && t.pool.waiters[i].live == (p.waiters[i].live && p.waiters[i].id != id)
            })
            &&& !c.in_a_hurry() && c.limited && c.phase == Phase::Expect && (
            c.timeouts.wait.is_none() || c.timeouts.wait.unwrap() > 500 + types::elapsed(
                c.start_ms,
                o.now_ms,
            )) ==> t.step is AwaitHandover
            &&& !c.limited && p.idle.len() == 0 && p.counters.size < p.counters.max_size
                ==> !(t.step is AwaitHandover)
        }),
{
    reveal(after_pause);
    reveal(tries_permit);
    reveal(waits_for_permit);
    reveal(misses);
    reveal(looks);
    reveal(looked_at);
    reveal(warms);
    reveal(expects);
    reveal(expected);
    reveal(comes_to_gate);
    reveal(at_gate);
    reveal(waits_at_gate);
    reveal(waited_at_gate);
    reveal(asks_leave);
    reveal(asked_leave);
    reveal(made);
}

/// Only a pool that has reached its warm size lets a checkout wait for a connection to
/// come back.
pub proof fn only_warm_pools_wait(c: Checkout, p: PoolState, event: CheckoutEvent, o: Outlook)
    requires
        c.phase == Phase::Warm,
    ensures
        ({
            let t = turn(c, p, event, o);
            let warm = p.counters.size >= 1 && p.counters.size >= o.warm_threshold;
            &&& t.checkout.phase == Phase::Look(Source::Spin(0)) <==> warm
            &&& t.checkout.phase == Phase::Look(Source::Drain) <==> !warm
            &&& t.pool == p
        }),
{
    reveal(after_pause);
    reveal(tries_permit);
    reveal(waits_for_permit);
    reveal(misses);
    reveal(looks);
    reveal(looked_at);
    reveal(warms);
    reveal(expects);
    reveal(expected);
    reveal(comes_to_gate);
    reveal(at_gate);
    reveal(waits_at_gate);
    reveal(waited_at_gate);
    reveal(asks_leave);
    reveal(asked_leave);
    reveal(made);
}

/// A checkout that finds no permit tries ten times more before it stands in the queue,
/// and the time in the queue is counted from then on. A closed pool turns it away.
pub proof fn quick_tries_come_first(
    c: Checkout,
    p: PoolState,
    tries: u32,
    event: CheckoutEvent,
    o: Outlook,
)
    requires
        c.phase == Phase::Permit(tries),
        p.counters.permits == 0 || p.counters.closed,
    ensures
        ({
            let t = turn(c, p, event, o);
            &&& tries < 10 ==> {
                &&& t.step is Yield
                &&& t.checkout.phase == Phase::Permit((tries + 1) as u32)
                &&& t.pool == p
            }
            &&& tries >= 10 && p.counters.closed ==> (
            t.step matches CheckoutStep::Failed { error, .. } && error is Closed)
            &&& tries >= 10 && !p.counters.closed && c.timeouts.wait != Some(0u64) ==> {
                &&& t.step is AwaitPermit
                &&& t.checkout.phase == Phase::Queued
                &&& t.checkout.since_ms == o.now_ms
                &&& t.pool == p
            }
            &&& tries >= 10 && !p.counters.closed && c.timeouts.wait == Some(0u64)
                ==> t.step is Failed
        }),
{
    reveal(tries_permit);
}

/// A checkout that finds no connection looks on in a fixed order: the first look leads to
/// the question whether the pool is warm, each quick look to the next one until all are
/// used up, and the last look, which goes through all idle connections, to the burst
/// gate. There a connection is looked for once more before the wait.
pub proof fn looks_go_on_in_order(c: Checkout, p: PoolState, event: CheckoutEvent, o: Outlook)
    requires
        fits(c.phase, event),
        in_step(c, p),
        c.phase is Look ==> p.idle.len() == 0,
        c.phase is Recycling ==> event is Unusable,
    ensures
        ({
            let next = turn(c, p, event, o).checkout.phase;
            let max = p.config.scaling.fast_retries;
            &&& c.phase == Phase::Look(Source::FirstLook) || c.phase == Phase::Recycling(
                Source::FirstLook,
            ) ==> next == Phase::Warm
            &&& c.phase matches Phase::Look(Source::Spin(n)) ==> (if n < max {
                next == Phase::Look(Source::Spin((n + 1) as u32))
            } else {
                next == Phase::Expect
            })
            &&& c.phase matches Phase::Recycling(Source::Spin(n)) ==> next == Phase::Look(
                Source::Spin((n + 1) as u32),
            )
            &&& c.phase == Phase::Look(Source::Drain) || c.phase == Phase::Look(Source::Leave)
                ==> next == Phase::GateStart
            &&& c.phase == Phase::Recycling(Source::Drain) || c.phase == Phase::Recycling(
                Source::Handover,
            ) ==> next == Phase::Look(Source::Drain)
            &&& c.phase == Phase::Recycling(Source::GateHandover) ==> next == Phase::Look(
                Source::GateAgain,
            )
            &&& c.phase == Phase::Look(Source::GateAgain) ==> next == Phase::Gate
            &&& c.phase == Phase::Look(Source::Gate) && c.timeouts.wait != Some(0u64) ==> next
                == Phase::GateWait
            &&& c.phase == Phase::GateBackoff || c.phase == Phase::GateStart ==> next
                == Phase::Gate
            &&& c.phase == Phase::Gate && p.counters.inflight_creates
                >= p.config.scaling.max_parallel_creates ==> next == Phase::Look(Source::Gate)
            &&& c.phase == Phase::Create ==> next == Phase::Creating
            &&& c.phase == Phase::Asking && event is Granted ==> next == Phase::Look(Source::Leave)
            &&& c.phase == Phase::Paused && !(event is TimedOut) ==> next == Phase::Permit(0)
        }),
{
    reveal(looks);
    reveal(misses);
    reveal(looked_at);
    reveal(comes_to_gate);
    reveal(at_gate);
    reveal(asked_leave);
    reveal(after_pause);
}

/// A wait at the burst gate is measured from when the checkout came to it.
pub proof fn gate_time_begins_at_the_gate(c: Checkout, p: PoolState, event: CheckoutEvent, o: Outlook)
    requires
        c.phase == Phase::GateStart,
    ensures
        turn(c, p, event, o).checkout.since_ms == o.now_ms,
        turn(c, p, event, o).checkout.gate_ms == o.gate_ms,
        turn(c, p, event, o).pool == p,
{
    reveal(comes_to_gate);
}

/// Replacements are made only for connections of a first look or a handover, and are
/// counted while they are on their way.
pub proof fn replacements_are_counted(c: Checkout, p: PoolState, event: CheckoutEvent, o: Outlook)
    requires
        c.phase is Recycling,
        event is Usable,
        p.counters.pre_replacements_in_flight < usize::MAX,
    ensures
        ({
            let t = turn(c, p, event, o);
            let replace = t.step->Done_replace;
            &&& t.pool.counters.pre_replacements_in_flight == p.counters.pre_replacements_in_flight
                + (if replace {
                1int
            } else {
                0int
            })
            &&& replace ==> c.phase == Phase::Recycling(Source::FirstLook) || c.phase
                == Phase::Recycling(Source::Handover) || c.phase == Phase::Recycling(
                Source::GateHandover,
            )
            &&& c.phase == Phase::Recycling(Source::FirstLook) || c.phase == Phase::Recycling(
                Source::Handover,
            ) || c.phase == Phase::Recycling(Source::GateHandover) ==> replace
                == grow::replaces_ahead_in(
                p.counters,
                p.idle.len(),
                event->Usable_0.metrics,
                o.paused,
                o.now_ms,
            )
            &&& t.step->Done_spare == c.leave
        }),
{
    reveal(looked_at);
}

/// What an operator reads of waiting checkouts is what happened: a checkout that found
/// the burst gate closed, one whose time there was used up, one that was handed a
/// connection and one that waited in vain are each counted once, and nothing else is.
pub proof fn waits_are_counted(c: Checkout, p: PoolState, event: CheckoutEvent, o: Outlook)
    requires
        fits(c.phase, event),
        in_step(c, p),
    ensures
        ({
            let s = p.counters.stats;
            let t = turn(c, p, event, o).pool.counters.stats;
            let closed_gate = c.phase == Phase::Gate && p.counters.inflight_creates
                >= p.config.scaling.max_parallel_creates;
            let late = c.phase == Phase::GateWait && o.now_ms > c.since_ms && o.now_ms - c.since_ms
                > c.gate_ms;
            let handed = c.phase is Expecting && turn(c, p, event, o).step is Recycle;
            let vain = c.phase is Expecting && !(turn(c, p, event, o).step is Recycle);
            &&& t.burst_gate_waits == if closed_gate {
                s.burst_gate_waits.wrapping_add(1)
            } else {
                s.burst_gate_waits
            }
            &&& t.burst_gate_budget_exhausted == if late {
                s.burst_gate_budget_exhausted.wrapping_add(1)
            } else {
                s.burst_gate_budget_exhausted
            }
            &&& t.anticipation_wakes_notify == if handed {
                s.anticipation_wakes_notify.wrapping_add(1)
            } else {
                s.anticipation_wakes_notify
            }
            &&& t.anticipation_wakes_timeout == if vain {
                s.anticipation_wakes_timeout.wrapping_add(1)
            } else {
                s.anticipation_wakes_timeout
            }
        }),
{
    every_stat(c, p, event, o);
}

/// The counts of a step, phase by phase.
#[verifier::rlimit(80)]
proof fn every_stat(c: Checkout, p: PoolState, event: CheckoutEvent, o: Outlook)
    requires
        fits(c.phase, event),
        in_step(c, p),
    ensures
        ({
            let s = p.counters.stats;
            let t = turn(c, p, event, o).pool.counters.stats;
            let step = turn(c, p, event, o).step;
            &&& t.burst_gate_waits == if c.phase == Phase::Gate && p.counters.inflight_creates
                >= p.config.scaling.max_parallel_creates {
                s.burst_gate_waits.wrapping_add(1)
            } else {
                s.burst_gate_waits
            }
            &&& t.burst_gate_budget_exhausted == if c.phase == Phase::GateWait && o.now_ms
                > c.since_ms && o.now_ms - c.since_ms > c.gate_ms {
                s.burst_gate_budget_exhausted.wrapping_add(1)
            } else {
                s.burst_gate_budget_exhausted
            }
            &&& t.anticipation_wakes_notify == if c.phase is Expecting && step is Recycle {
                s.anticipation_wakes_notify.wrapping_add(1)
            } else {
                s.anticipation_wakes_notify
            }
            &&& t.anticipation_wakes_timeout == if c.phase is Expecting && !(step is Recycle) {
                s.anticipation_wakes_timeout.wrapping_add(1)
            } else {
                s.anticipation_wakes_timeout
            }
        }),
{
    match c.phase {
        Phase::Paused => {
            reveal(after_pause);
        },
        Phase::Permit(_) => {
            reveal(tries_permit);
        },
        Phase::Queued => {
            reveal(waits_for_permit);
        },
        Phase::Look(_) => {
            reveal(looks);
            reveal(misses);
        },
        Phase::Recycling(_) => {
            reveal(looked_at);
            reveal(misses);
        },
        Phase::Warm => {
            reveal(warms);
        },
        Phase::Expect => {
            reveal(expects);
            reveal(misses);
        },
        Phase::Expecting(_) => {
            reveal(expected);
            reveal(misses);
        },
        Phase::GateStart => {
            reveal(comes_to_gate);
        },
        Phase::Gate => {
            reveal(at_gate);
        },
        Phase::GateWait => {
            reveal(waits_at_gate);
        },
        Phase::GateWaiting(_) => {
            reveal(waited_at_gate);
        },
        Phase::Leave => {
            reveal(asks_leave);
        },
        Phase::Asking => {
            reveal(asked_leave);
        },
        Phase::Creating => {
            reveal(made);
        },
        _ => {},
    }
}

} // verus!
