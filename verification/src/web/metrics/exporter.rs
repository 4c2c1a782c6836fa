//! What is exported, and when.
use vstd::prelude::*;
use crate::config::{Config, User};
use crate::pool::id_map::IdMap;
use crate::pool::inner::ScalingStatsSnapshot;
use crate::pool::registry::Registry;
use crate::string_map::StringMap;
use crate::web::metrics::auth_query::{
    update_auth_query_metrics, AuthQueryStats, LookupTrackers,
};
use crate::web::metrics::coordinators::{
    lift, update_coordinator_metrics, CoordinatorMark, CoordinatorStats,
};
use crate::web::metrics::label_map::LabelMap;
use crate::web::metrics::pools::{update_pool_metrics, PoolStats};
use crate::web::metrics::scaling::update_pool_scaling_metrics;
use crate::web::metrics::servers::{
    update_pool_errors_metrics, update_server_cleanup_metrics, update_server_metrics, AddressStats,
    PreparedTrackers, ServerStats,
};
use crate::web::metrics::tracker::CounterDeltaTracker;
use crate::web::metrics::update::{push0, push1, push2, push3, update, Family, Op, Update};
#[allow(unused_imports)]
use crate::config;
#[allow(unused_imports)]
use crate::config::Pool as ConfigPool;
#[allow(unused_imports)]
use crate::pool::connection_pool::ConnectionPool;
#[allow(unused_imports)]
use crate::pool::id_map::Id;
#[allow(unused_imports)]
use crate::text;
#[allow(unused_imports)]
use crate::web::metrics::auth_query;
#[allow(unused_imports)]
use crate::web::metrics::auth_query::LookupMarks;
#[allow(unused_imports)]
use crate::web::metrics::coordinators;
#[allow(unused_imports)]
use crate::web::metrics::label_map::Labels;
#[allow(unused_imports)]
use crate::web::metrics::pools;
#[allow(unused_imports)]
use crate::web::metrics::scaling;
#[allow(unused_imports)]
use crate::web::metrics::servers;
#[allow(unused_imports)]
use crate::web::metrics::servers::PreparedMarks;
#[allow(unused_imports)]
use crate::web::metrics::tracker;
#[allow(unused_imports)]
use crate::web::metrics::tracker::Mark;
#[allow(unused_imports)]
use crate::web::metrics::update;
#[allow(unused_imports)]
use crate::web::metrics::update::{AllShown, Change};

verus! {

/// How many clients have connected.
#[derive(Debug, Clone, Copy, PartialEq, Eq, Structural)]
pub struct ConnectionCounts {
    pub plain: u64,
    pub tls: u64,
    pub cancel: u64,
    pub total: u64,
}

/// How many sockets are open.
#[derive(Debug, Clone, Copy, PartialEq, Eq, Structural)]
pub enum SocketCounts {
    /// They are not counted on this system.
    NotCounted,
    /// They could not be counted.
    Failed,
    Counted { tcp: u64, tcp6: u64, unix: u64, unknown: u64 },
}

/// What is known when the numbers are asked for.
#[derive(Debug)]
pub struct Readings {
    /// The memory of the process in bytes.
    pub memory: u64,
    pub connections: ConnectionCounts,
    pub sockets: SocketCounts,
    pub pools: IdMap<PoolStats>,
    pub addresses: IdMap<AddressStats>,
    pub servers: Vec<ServerStats>,
    pub auth_queries: StringMap<AuthQueryStats>,
    pub coordinators: StringMap<CoordinatorStats>,
}

/// What was exported last.
#[derive(Debug)]
pub struct Exporter {
    pub connections: ConnectionCounts,
    pub queries: CounterDeltaTracker,
    pub transactions: CounterDeltaTracker,
    pub bytes: CounterDeltaTracker,
    pub errors: CounterDeltaTracker,
    pub cleanups: CounterDeltaTracker,
    pub prepared: PreparedTrackers,
    pub lookups: LookupTrackers,
    pub coordinators: StringMap<CoordinatorMark>,
    pub scaling: LabelMap<ScalingStatsSnapshot>,
}

/// The same, as the contracts speak of it.
pub struct Exported {
    pub connections: ConnectionCounts,
    pub queries: Seq<(Labels, Mark)>,
    pub transactions: Seq<(Labels, Mark)>,
    pub bytes: Seq<(Labels, Mark)>,
    pub errors: Seq<(Labels, Mark)>,
    pub cleanups: Seq<(Labels, Mark)>,
    pub prepared: PreparedMarks,
    pub lookups: LookupMarks,
    pub coordinators: Seq<(Seq<char>, CoordinatorMark)>,
    pub scaling: Seq<(Labels, ScalingStatsSnapshot)>,
}

impl View for Exporter {
    type V = Exported;

    open spec fn view(&self) -> Exported {
        Exported {
            connections: self.connections,
            queries: self.queries.marks.listing(),
            transactions: self.transactions.marks.listing(),
            bytes: self.bytes.marks.listing(),
            errors: self.errors.marks.listing(),
            cleanups: self.cleanups.marks.listing(),
            prepared: self.prepared@,
            lookups: self.lookups@,
            coordinators: self.coordinators.listing(),
            scaling: self.scaling.listing(),
        }
    }
}

impl Exporter {
    /// What was exported of the growth of pools names their users and databases.
    pub open spec fn wf(&self) -> bool {
        scaling::two_labels(self.scaling.listing())
    }

    /// Nothing was exported yet.
    pub fn new() -> (r: Exporter)
        ensures
            r.wf(),
            r@ == nothing_exported(),
    {
        let r = Exporter {
            connections: ConnectionCounts { plain: 0, tls: 0, cancel: 0, total: 0 },
            queries: CounterDeltaTracker::new(),
            transactions: CounterDeltaTracker::new(),
            bytes: CounterDeltaTracker::new(),
            errors: CounterDeltaTracker::new(),
            cleanups: CounterDeltaTracker::new(),
            prepared: PreparedTrackers {
                hits: CounterDeltaTracker::new(),
                misses: CounterDeltaTracker::new(),
                backend_hits: CounterDeltaTracker::new(),
                backend_misses: CounterDeltaTracker::new(),
            },
            lookups: LookupTrackers {
                cache: CounterDeltaTracker::new(),
                auth: CounterDeltaTracker::new(),
                executor: CounterDeltaTracker::new(),
                dynamic_pools: CounterDeltaTracker::new(),
            },
            coordinators: StringMap::new(),
            scaling: LabelMap::new(),
        };
        r
    }
}

/// Nothing was exported yet.
pub open spec fn nothing_exported() -> Exported {
    Exported {
        connections: ConnectionCounts { plain: 0, tls: 0, cancel: 0, total: 0 },
        queries: Seq::empty(),
        transactions: Seq::empty(),
        bytes: Seq::empty(),
        errors: Seq::empty(),
        cleanups: Seq::empty(),
        prepared: PreparedMarks {
            hits: Seq::empty(),
            misses: Seq::empty(),
            backend_hits: Seq::empty(),
            backend_misses: Seq::empty(),
        },
        lookups: LookupMarks {
            cache: Seq::empty(),
            auth: Seq::empty(),
            executor: Seq::empty(),
            dynamic_pools: Seq::empty(),
        },
        coordinators: Seq::empty(),
        scaling: Seq::empty(),
    }
}

/// The changes that show how many clients have connected in one way.
pub open spec fn clients_shown(
    before: Seq<Change>,
    name: Seq<char>,
    shown: u64,
    value: u64,
) -> Seq<Change> {
    before.push(update::change(Family::Connections, Op::Show(value), seq![name])).push(
        update::change(
            Family::ConnectionsTotal,
            Op::Add((coordinators::raised(shown, value) - shown) as u64),
            seq![name],
        ),
    )
}

/// The changes that show how many clients have connected.
pub open spec fn connections_shown(
    before: Seq<Change>,
    shown: ConnectionCounts,
    now: ConnectionCounts,
) -> Seq<Change> {
    let a = clients_shown(before, "plain"@, shown.plain, now.plain);
    let b = clients_shown(a, "tls"@, shown.tls, now.tls);
    let c = clients_shown(b, "cancel"@, shown.cancel, now.cancel);
    clients_shown(c, "total"@, shown.total, now.total)
}

/// What the counters of clients show after they were exported.
pub open spec fn connections_after(
    shown: ConnectionCounts,
    now: ConnectionCounts,
) -> ConnectionCounts {
    ConnectionCounts {
        plain: coordinators::raised(shown.plain, now.plain),
        tls: coordinators::raised(shown.tls, now.tls),
        cancel: coordinators::raised(shown.cancel, now.cancel),
        total: coordinators::raised(shown.total, now.total),
    }
}

/// Shows how many clients have connected in one way.
fn show_clients(out: &mut Vec<Update>, name: &str, shown: u64, value: u64) -> (r: u64)
    ensures
        update::changes(final(out)@) == clients_shown(
            update::changes(old(out)@),
            name@,
            shown,
            value,
        ),
        r == coordinators::raised(shown, value),
{
    let more: u64 = lift(shown, value);
    push1(out, Family::Connections, Op::Show(value), name);
    push1(out, Family::ConnectionsTotal, Op::Add(more), name);
    shown + more
}

/// Exports how many clients have connected.
fn update_connection_metrics(
    out: &mut Vec<Update>,
    shown: &mut ConnectionCounts,
    now: &ConnectionCounts,
)
    ensures
        update::changes(final(out)@) == connections_shown(
            update::changes(old(out)@),
            *old(shown),
            *now,
        ),
        *final(shown) == connections_after(*old(shown), *now),
{
    let plain: u64 = show_clients(out, "plain", shown.plain, now.plain);
    let tls: u64 = show_clients(out, "tls", shown.tls, now.tls);
    let cancel: u64 = show_clients(out, "cancel", shown.cancel, now.cancel);
    let total: u64 = show_clients(out, "total", shown.total, now.total);
    *shown = ConnectionCounts { plain, tls, cancel, total };
}

/// The changes that show the open sockets. If they could not be counted, nothing
/// is shown.
pub open spec fn sockets_shown(before: Seq<Change>, s: SocketCounts) -> Seq<Change> {
    match s {
        SocketCounts::NotCounted => before,
        SocketCounts::Failed => before.push(update::change(Family::Sockets, Op::Reset, seq![])),
        SocketCounts::Counted { tcp, tcp6, unix, unknown } => before.push(
            update::change(Family::Sockets, Op::Show(tcp), seq!["tcp"@]),
        ).push(update::change(Family::Sockets, Op::Show(tcp6), seq!["tcp6"@])).push(
            update::change(Family::Sockets, Op::Show(unix), seq!["unix"@]),
        ).push(update::change(Family::Sockets, Op::Show(unknown), seq!["unknown"@])),
    }
}

/// Exports the open sockets.
fn update_socket_metrics(out: &mut Vec<Update>, s: SocketCounts)
    ensures
        update::changes(final(out)@) == sockets_shown(update::changes(old(out)@), s),
{
    match s {
        SocketCounts::NotCounted => {},
        SocketCounts::Failed => push0(out, Family::Sockets, Op::Reset),
        SocketCounts::Counted { tcp, tcp6, unix, unknown } => {
            push1(out, Family::Sockets, Op::Show(tcp), "tcp");
            push1(out, Family::Sockets, Op::Show(tcp6), "tcp6");
            push1(out, Family::Sockets, Op::Show(unix), "unix");
            push1(out, Family::Sockets, Op::Show(unknown), "unknown");
        },
    }
}

/// The changes when everything is exported.
pub open spec fn all_exported(
    e: Exported,
    r: Readings,
    live: Seq<(Id, ConnectionPool)>,
    dynamic: Seq<(Id, ())>,
) -> Seq<Change> {
    let ps = r.pools.listing();
    let memory = seq![update::change(Family::TotalMemory, Op::Show(r.memory), seq![])];
    let clients = connections_shown(memory, e.connections, r.connections);
    let sockets = sockets_shown(clients, r.sockets);
    let shown = pools::pools_exported(sockets, ps, e.queries, e.transactions, e.bytes);
    let errors = tracker::exported(
        shown,
        Family::PoolsErrorsTotal,
        e.errors,
        servers::mark_samples(servers::error_sums(r.addresses.listing())),
    );
    let cleanups = tracker::exported(
        errors,
        Family::ServerCleanupTotal,
        e.cleanups,
        servers::cleanup_samples(r.addresses.listing()),
    );
    let backends = servers::servers_exported(
        cleanups,
        r.servers@,
        r.pools@,
        e.prepared,
    );
    let lookups = auth_query::lookups_exported(
        backends,
        r.auth_queries.listing(),
        dynamic,
        e.lookups,
    );
    let limits = coordinators::limits_exported(
        lookups,
        e.coordinators,
        r.coordinators.listing(),
    );
    scaling::scalings_exported(limits, e.scaling, live)
}

/// What was exported after everything was.
pub open spec fn exported_after(
    e: Exported,
    r: Readings,
    live: Seq<(Id, ConnectionPool)>,
) -> Exported {
    let ps = r.pools.listing();
    Exported {
        connections: connections_after(e.connections, r.connections),
        queries: tracker::marks_after(e.queries, pools::query_samples(ps)),
        transactions: tracker::marks_after(e.transactions, pools::transaction_samples(ps)),
        bytes: tracker::marks_after(e.bytes, pools::byte_samples(ps)),
        errors: tracker::marks_after(
            e.errors,
            servers::mark_samples(servers::error_sums(r.addresses.listing())),
        ),
        cleanups: tracker::marks_after(
            e.cleanups,
            servers::cleanup_samples(r.addresses.listing()),
        ),
        prepared: servers::prepared_after(r.servers@, r.pools@, e.prepared),
        lookups: auth_query::lookups_after(e.lookups, r.auth_queries.listing()),
        coordinators: coordinators::limits_after(
            crate::string_map::listed(e.coordinators),
            r.coordinators.listing(),
        ),
        scaling: scaling::scalings_after(e.scaling, live),
    }
}

/// Updates everything that is exported before it is handed out.
pub fn update_metrics(exporter: &mut Exporter, readings: &Readings, registry: &Registry) -> (out:
    Vec<Update>)
    requires
        old(exporter).wf(),
    ensures
        final(exporter).wf(),
        update::changes(out@) == all_exported(
            old(exporter)@,
            *readings,
            registry.pools.listing(),
            registry.dynamic.listing(),
        ),
        final(exporter)@ == exported_after(old(exporter)@, *readings, registry.pools.listing()),
{
    let mut out: Vec<Update> = Vec::new();
    assert(update::changes(out@) =~= seq![]);
    push0(&mut out, Family::TotalMemory, Op::Show(readings.memory));
    assert(update::changes(out@) =~= seq![
        update::change(Family::TotalMemory, Op::Show(readings.memory), seq![]),
    ]);
    update_connection_metrics(&mut out, &mut exporter.connections, &readings.connections);
    update_socket_metrics(&mut out, readings.sockets);
    update_pool_metrics(
        &mut out,
        &readings.pools,
        &mut exporter.queries,
        &mut exporter.transactions,
        &mut exporter.bytes,
    );
    update_pool_errors_metrics(&mut out, &readings.addresses, &mut exporter.errors);
    update_server_cleanup_metrics(&mut out, &readings.addresses, &mut exporter.cleanups);
    update_server_metrics(
        &mut out,
        &readings.servers,
        &readings.pools,
        &mut exporter.prepared,
    );
    update_auth_query_metrics(
        &mut out,
        &readings.auth_queries,
        &registry.dynamic,
        &mut exporter.lookups,
    );
    update_coordinator_metrics(&mut out, &readings.coordinators, &mut exporter.coordinators);
    update_pool_scaling_metrics(&mut out, &registry.pools, &mut exporter.scaling);
    out
}

/// An anonymous statement of a client had to make room.
pub fn observe_anonymous_eviction(user: &str, database: &str) -> (r: Update)
    ensures
        r@ == update::change(
            Family::ClientPreparedAnonymousEvictionsTotal,
            Op::Add(1),
            seq![user@, database@],
        ),
{
    let list = [user, database];
    assert(text::views(list@) =~= seq![user@, database@]);
    update(Family::ClientPreparedAnonymousEvictionsTotal, Op::Add(1), &list)
}

/// What a sweep through interned queries found.
#[derive(Debug, Clone, Copy, PartialEq, Eq, Structural)]
pub struct GcStats {
    /// How many entries were dropped.
    pub evicted: u64,
    /// How many bytes are left.
    pub bytes: u64,
}

/// What a sweep through the interned queries left: how many entries were dropped,
/// how many are there and how large they are.
pub fn record_interner_gc(
    named: GcStats,
    anon: GcStats,
    named_len: u64,
    anon_len: u64,
) -> (out: Vec<Update>)
    ensures
        update::changes(out@) == seq![
            update::change(
                Family::QueryInternerEvictionsTotal,
                Op::Add(named.evicted),
                seq!["named"@, "gc_passive"@],
            ),
            update::change(
                Family::QueryInternerEvictionsTotal,
                Op::Add(anon.evicted),
                seq!["anonymous"@, "ttl_expired"@],
            ),
            update::change(Family::QueryInternerEntries, Op::Show(named_len), seq!["named"@]),
            update::change(Family::QueryInternerEntries, Op::Show(anon_len), seq!["anonymous"@]),
            update::change(Family::QueryInternerBytes, Op::Show(named.bytes), seq!["named"@]),
            update::change(Family::QueryInternerBytes, Op::Show(anon.bytes), seq!["anonymous"@]),
        ],
{
    let mut out: Vec<Update> = Vec::new();
    push2(
        &mut out,
        Family::QueryInternerEvictionsTotal,
        Op::Add(named.evicted),
        "named",
        "gc_passive",
    );
    push2(
        &mut out,
        Family::QueryInternerEvictionsTotal,
        Op::Add(anon.evicted),
        "anonymous",
        "ttl_expired",
    );
    push1(&mut out, Family::QueryInternerEntries, Op::Show(named_len), "named");
    push1(&mut out, Family::QueryInternerEntries, Op::Show(anon_len), "anonymous");
    push1(&mut out, Family::QueryInternerBytes, Op::Show(named.bytes), "named");
    push1(&mut out, Family::QueryInternerBytes, Op::Show(anon.bytes), "anonymous");
    out
}

/// A client referred to an anonymous statement that is nowhere to be found.
pub fn record_synthetic_miss() -> (r: Update)
    ensures
        r@ == update::change(Family::QueryInternerSyntheticMissesTotal, Op::Add(1), seq![]),
{
    let r = Update {
        family: Family::QueryInternerSyntheticMissesTotal,
        op: Op::Add(1),
        labels: Vec::new(),
    };
    assert(r@.labels =~= seq![]);
    r
}

/// A large message was streamed.
pub fn observe_streaming_event(user: &str, database: &str, kind: &str, result: &str) -> (r: Update)
    ensures
        r@ == update::change(
            Family::StreamingEventsTotal,
            Op::Add(1),
            seq![user@, database@, kind@, result@],
        ),
{
    let list = [user, database, kind, result];
    assert(text::views(list@) =~= seq![user@, database@, kind@, result@]);
    update(Family::StreamingEventsTotal, Op::Add(1), &list)
}

/// How many bytes of a large message were streamed.
pub fn observe_streaming_bytes(user: &str, database: &str, kind: &str, bytes: u64) -> (r: Update)
    ensures
        r@ == update::change(
            Family::StreamingBytesTotal,
            Op::Add(bytes),
            seq![user@, database@, kind@],
        ),
{
    let list = [user, database, kind];
    assert(text::views(list@) =~= seq![user@, database@, kind@]);
    update(Family::StreamingBytesTotal, Op::Add(bytes), &list)
}

/// A client was turned away before it could log in.
pub fn record_listener_rejection(reason: &'static str) -> (r: Update)
    ensures
        r@ == update::change(Family::ListenerRejectionsTotal, Op::Add(1), seq![reason@]),
{
    let list = [reason];
    assert(text::views(list@) =~= seq![reason@]);
    update(Family::ListenerRejectionsTotal, Op::Add(1), &list)
}

/// A duration of one pool.
fn pool_duration(family: Family, user: &str, database: &str, microseconds: u64) -> (r: Update)
    ensures
        r@ == update::change(family, Op::Observe(microseconds), seq![user@, database@]),
{
    let list = [user, database];
    assert(text::views(list@) =~= seq![user@, database@]);
    update(family, Op::Observe(microseconds), &list)
}

/// A query took so long; queries that took no measurable time count as well.
pub fn observe_pool_query_microseconds(user: &str, database: &str, microseconds: u64) -> (r: Update)
    ensures
        r@ == update::change(
            Family::PoolsQueryDuration,
            Op::Observe(microseconds),
            seq![user@, database@],
        ),
{
    pool_duration(Family::PoolsQueryDuration, user, database, microseconds)
}

/// A transaction took so long. No time at all means that there was none.
pub fn observe_pool_transaction_microseconds(
    user: &str,
    database: &str,
    microseconds: u64,
) -> (r: Option<Update>)
    ensures
        match r {
            Some(u) => microseconds > 0 && u@ == update::change(
                Family::PoolsTransactionDuration,
                Op::Observe(microseconds),
                seq![user@, database@],
            ),
            None => microseconds == 0,
        },
{
    if microseconds == 0 {
        return None;
    }
    Some(pool_duration(Family::PoolsTransactionDuration, user, database, microseconds))
}

/// A client waited so long for a connection; not having to wait counts as well.
pub fn observe_pool_wait_microseconds(user: &str, database: &str, microseconds: u64) -> (r: Update)
    ensures
        r@ == update::change(
            Family::PoolsWaitDuration,
            Op::Observe(microseconds),
            seq![user@, database@],
        ),
{
    pool_duration(Family::PoolsWaitDuration, user, database, microseconds)
}

/// The changes that show the configured users of a pool.
pub open spec fn users_shown(
    before: Seq<Change>,
    db: Seq<char>,
    mode: Seq<char>,
    users: Seq<User>,
) -> Seq<Change>
    decreases users.len(),
{
    if users.len() == 0 {
        before
    } else {
        users_shown(before, db, mode, users.drop_last()).push(
            update::change(
                Family::UsersConfigured,
                Op::Show(1),
                seq![users.last().username@, db, mode],
            ),
        )
    }
}

/// The changes that show the configured users of all pools.
pub open spec fn all_users_shown(
    before: Seq<Change>,
    pools: Seq<(Seq<char>, ConfigPool)>,
) -> Seq<Change>
    decreases pools.len(),
{
    if pools.len() == 0 {
        before
    } else {
        let (db, p) = pools.last();
        users_shown(
            all_users_shown(before, pools.drop_last()),
            db,
            config::mode_name(p.pool_mode),
            p.users@,
        )
    }
}

/// The changes that show what is running: the version, the configured users and
/// how much is logged.
pub open spec fn static_info(
    pools: Seq<(Seq<char>, ConfigPool)>,
    version: Seq<char>,
    log_level: Seq<char>,
) -> Seq<Change> {
    let a = seq![
        update::change(Family::BuildInfo, Op::Show(1), seq![version]),
        update::change(Family::UsersConfigured, Op::Reset, seq![]),
    ];
    all_users_shown(a, pools).push(update::change(Family::LogLevel, Op::Reset, seq![])).push(
        update::change(Family::LogLevel, Op::Show(1), seq![log_level]),
    )
}

/// Shows the configured users of a pool.
fn show_users(out: &mut Vec<Update>, db: &str, mode: &str, users: &Vec<User>)
    ensures
        update::changes(final(out)@) == users_shown(
            update::changes(old(out)@),
            db@,
            mode@,
            users@,
        ),
{
    let ghost before = update::changes(out@);
    let ghost us = users@;
    let mut i: usize = 0;
    assert(us.take(0) =~= Seq::<User>::empty());
    while i < users.len()
        invariant
            i <= users.len(),
            us == users@,
            update::changes(out@) == users_shown(before, db@, mode@, us.take(i as int)),
        decreases users.len() - i,
    {
        assert(us.take(i + 1).drop_last() =~= us.take(i as int));
        push3(out, Family::UsersConfigured, Op::Show(1), users[i].username.as_str(), db, mode);
        i = i + 1;
    }
    assert(us.take(us.len() as int) =~= us);
}

/// Shows what is running. Users that are configured no more go, and so does the
/// log level that was set before.
pub fn refresh_static_info_metrics(config: &Config, version: &str, log_level: &str) -> (out: Vec<
    Update,
>)
    ensures
        update::changes(out@) == static_info(config.pools.listing(), version@, log_level@),
{
    let ghost s = config.pools.listing();
    let mut out: Vec<Update> = Vec::new();
    push1(&mut out, Family::BuildInfo, Op::Show(1), version);
    push0(&mut out, Family::UsersConfigured, Op::Reset);
    let ghost before = update::changes(out@);
    proof {
        assert(before =~= seq![
            update::change(Family::BuildInfo, Op::Show(1), seq![version@]),
            update::change(Family::UsersConfigured, Op::Reset, seq![]),
        ]);
        assert(s.take(0) =~= Seq::<(Seq<char>, ConfigPool)>::empty());
    }
    let n: usize = config.pools.len();
    let mut i: usize = 0;
    while i < n
        invariant
            i <= n,
            n == s.len(),
            s == config.pools.listing(),
            update::changes(out@) == all_users_shown(before, s.take(i as int)),
        decreases n - i,
    {
        assert(s.take(i + 1).drop_last() =~= s.take(i as int));
        let p = config.pools.value(i);
        show_users(&mut out, config.pools.key(i).as_str(), p.pool_mode.as_str(), &p.users);
        i = i + 1;
    }
    assert(s.take(n as int) =~= s);
    push0(&mut out, Family::LogLevel, Op::Reset);
    push1(&mut out, Family::LogLevel, Op::Show(1), log_level);
    out
}

/// A user of a pool has these label values.
pub open spec fn is_user_of(db: Seq<char>, mode: Seq<char>, users: Seq<User>, k: Labels) -> bool {
    exists|i: int|
        0 <= i < users.len() && k == seq![(#[trigger] users[i]).username@, db, mode]
}

/// A configured user has these label values.
pub open spec fn is_configured(pools: Seq<(Seq<char>, ConfigPool)>, k: Labels) -> bool {
    exists|j: int|
        0 <= j < pools.len() && is_user_of(
            (#[trigger] pools[j]).0,
            config::mode_name(pools[j].1.pool_mode),
            pools[j].1.users@,
            k,
        )
}

/// `after` is `before` with a series of the configured users for each of the
/// label values, which shows one.
pub open spec fn users_added(before: AllShown, after: AllShown, among: spec_fn(Labels) -> bool) -> bool {
    forall|k: (Family, Labels)|
        #![trigger after.contains_key(k)]
        #![trigger after[k]]
        if k.0 == Family::UsersConfigured && among(k.1) {
            after.contains_key(k) && after[k] == update::one()
        } else {
            after.contains_key(k) == before.contains_key(k) && (after.contains_key(k) ==> after[k]
                == before[k])
        }
}

/// What the series show once the users of a pool are shown.
proof fn users_are_added(
    start: AllShown,
    before: Seq<Change>,
    db: Seq<char>,
    mode: Seq<char>,
    users: Seq<User>,
)
    ensures
        users_added(
            update::all_applied(start, before),
            update::all_applied(start, users_shown(before, db, mode, users)),
            |k: Labels| is_user_of(db, mode, users, k),
        ),
    decreases users.len(),
{
    if users.len() > 0 {
        let init = users.drop_last();
        users_are_added(start, before, db, mode, init);
        let c = update::change(
            Family::UsersConfigured,
            Op::Show(1),
            seq![users.last().username@, db, mode],
        );
        update::appended_is_applied_last(start, users_shown(before, db, mode, init), c);
        assert forall|k: Labels| #[trigger] is_user_of(db, mode, users, k) <==> is_user_of(
            db,
            mode,
            init,
            k,
        ) || k == c.labels by {
            if is_user_of(db, mode, init, k) {
                let i = choose|i: int|
                    0 <= i < init.len() && k == seq![(#[trigger] init[i]).username@, db, mode];
                assert(users[i] == init[i]);
            }
            if k == c.labels {
                assert(users[users.len() - 1] == users.last());
            }
            if is_user_of(db, mode, users, k) {
                let i = choose|i: int|
                    0 <= i < users.len() && k == seq![(#[trigger] users[i]).username@, db, mode];
                if i < init.len() {
                    assert(init[i] == users[i]);
                }
            }
        }
    }
}

/// What the series show once all configured users are shown.
proof fn all_users_are_added(
    start: AllShown,
    before: Seq<Change>,
    pools: Seq<(Seq<char>, ConfigPool)>,
)
    ensures
        users_added(
            update::all_applied(start, before),
            update::all_applied(start, all_users_shown(before, pools)),
            |k: Labels| is_configured(pools, k),
        ),
    decreases pools.len(),
{
    if pools.len() > 0 {
        let init = pools.drop_last();
        let (db, p) = pools.last();
        let mode = config::mode_name(p.pool_mode);
        all_users_are_added(start, before, init);
        users_are_added(start, all_users_shown(before, init), db, mode, p.users@);
        assert forall|k: Labels| #[trigger] is_configured(pools, k) <==> is_configured(init, k)
            || is_user_of(db, mode, p.users@, k) by {
            if is_configured(init, k) {
                let j = choose|j: int|
                    0 <= j < init.len() && is_user_of(
                        (#[trigger] init[j]).0,
                        config::mode_name(init[j].1.pool_mode),
                        init[j].1.users@,
                        k,
                    );
                assert(pools[j] == init[j]);
            }
            if is_user_of(db, mode, p.users@, k) {
                assert(pools[pools.len() - 1] == pools.last());
            }
            if is_configured(pools, k) {
                let j = choose|j: int|
                    0 <= j < pools.len() && is_user_of(
                        (#[trigger] pools[j]).0,
                        config::mode_name(pools[j].1.pool_mode),
                        pools[j].1.users@,
                        k,
                    );
                if j < init.len() {
                    assert(init[j] == pools[j]);
                }
            }
        }
    }
}

/// What the series show after the static information was refreshed.
pub open spec fn info_shown(
    start: AllShown,
    after: AllShown,
    pools: Seq<(Seq<char>, ConfigPool)>,
    version: Seq<char>,
    log_level: Seq<char>,
) -> bool {
    forall|k: (Family, Labels)|
        #![trigger after.contains_key(k)]
        #![trigger after[k]]
        match k.0 {
            Family::UsersConfigured => after.contains_key(k) == is_configured(pools, k.1) && (
            after.contains_key(k) ==> after[k] == update::one()),
            Family::LogLevel => after.contains_key(k) == (k.1 == seq![log_level]) && (
            after.contains_key(k) ==> after[k] == update::one()),
            _ => if k == (Family::BuildInfo, seq![version]) {
                after.contains_key(k) && after[k] == update::one()
            } else {
                after.contains_key(k) == start.contains_key(k) && (after.contains_key(k)
                    ==> after[k] == start[k])
            },
        }
}

/// What the refresh does to the series.
proof fn info_is_shown(
    start: AllShown,
    pools: Seq<(Seq<char>, ConfigPool)>,
    version: Seq<char>,
    log_level: Seq<char>,
)
    ensures
        info_shown(
            start,
            update::all_applied(start, static_info(pools, version, log_level)),
            pools,
            version,
            log_level,
        ),
{
    let build = update::change(Family::BuildInfo, Op::Show(1), seq![version]);
    let reset = update::change(Family::UsersConfigured, Op::Reset, seq![]);
    let none = update::change(Family::LogLevel, Op::Reset, seq![]);
    let level = update::change(Family::LogLevel, Op::Show(1), seq![log_level]);
    let a = seq![build, reset];
    assert(a =~= Seq::<Change>::empty().push(build).push(reset));
    update::appended_is_applied_last(start, Seq::empty(), build);
    update::appended_is_applied_last(start, Seq::<Change>::empty().push(build), reset);
    all_users_are_added(start, a, pools);
    let b = all_users_shown(a, pools);
    update::appended_is_applied_last(start, b, none);
    update::appended_is_applied_last(start, b.push(none), level);
    let at_a = update::all_applied(start, a);
    let at_b = update::all_applied(start, b);
    let after = update::all_applied(start, static_info(pools, version, log_level));
    assert(update::all_applied(start, Seq::<Change>::empty()) == start);
    assert forall|k: (Family, Labels)|
        #![trigger after.contains_key(k)]
        #![trigger after[k]]
        match k.0 {
            Family::UsersConfigured => after.contains_key(k) == is_configured(pools, k.1) && (
            after.contains_key(k) ==> after[k] == update::one()),
            Family::LogLevel => after.contains_key(k) == (k.1 == seq![log_level]) && (
            after.contains_key(k) ==> after[k] == update::one()),
            _ => if k == (Family::BuildInfo, seq![version]) {
                after.contains_key(k) && after[k] == update::one()
            } else {
                after.contains_key(k) == start.contains_key(k) && (after.contains_key(k)
                    ==> after[k] == start[k])
            },
        } by {
        assert(at_b.contains_key(k) == at_b.contains_key(k));
        assert(at_a.contains_key(k) == (k.0 != Family::UsersConfigured && (start.contains_key(k) || k
            == (Family::BuildInfo, build.labels))));
    }
}

/// After the static information was refreshed there is one series for each
/// configured user, with the database and its mode, and no other; one for the log
/// level, and no other; and one for the version. All of them show one, whatever
/// was shown before, and nothing else changes. A second refresh changes nothing.
pub proof fn refresh_shows_the_configuration(
    start: AllShown,
    pools: Seq<(Seq<char>, ConfigPool)>,
    version: Seq<char>,
    log_level: Seq<char>,
)
    ensures
        ({
            let info = static_info(pools, version, log_level);
            let after = update::all_applied(start, info);
            &&& info_shown(start, after, pools, version, log_level)
            &&& update::all_applied(after, info) == after
        }),
{
    let info = static_info(pools, version, log_level);
    let after = update::all_applied(start, info);
    let again = update::all_applied(after, info);
    info_is_shown(start, pools, version, log_level);
    info_is_shown(after, pools, version, log_level);
    assert forall|k: (Family, Labels)| #[trigger]
        again.contains_key(k) == after.contains_key(k) && (after.contains_key(k) ==> again[k]
            == after[k]) by {
        assert(after.contains_key(k) == after.contains_key(k));
    }
    assert(again =~= after);
}

/// Sockets that were counted are shown, and none where they could not be counted.
pub proof fn sockets_show_their_numbers(
    m: update::AllShown,
    before: Seq<Change>,
    tcp: u64,
    tcp6: u64,
    unix: u64,
    unknown: u64,
    labels: Labels,
)
    ensures
        ({
            let b = update::all_applied(
                m,
                sockets_shown(before, SocketCounts::Counted { tcp, tcp6, unix, unknown }),
            );
            &&& update::shown_at(b, (Family::Sockets, seq!["tcp"@])).thousandths == 1000 * tcp
            &&& update::shown_at(b, (Family::Sockets, seq!["tcp6"@])).thousandths == 1000 * tcp6
            &&& update::shown_at(b, (Family::Sockets, seq!["unix"@])).thousandths == 1000 * unix
            &&& update::shown_at(b, (Family::Sockets, seq!["unknown"@])).thousandths == 1000 * unknown
        }),
        !update::all_applied(m, sockets_shown(before, SocketCounts::Failed)).contains_key(
            (Family::Sockets, labels),
        ),
        sockets_shown(before, SocketCounts::NotCounted) == before,
{
    assert forall|cs: Seq<Change>, c: Change| #[trigger]
        update::all_applied(m, cs.push(c)) == update::applied(update::all_applied(m, cs), c) by {
        update::appended_is_applied_last(m, cs, c);
    }
    reveal_strlit("tcp");
    reveal_strlit("tcp6");
    reveal_strlit("unix");
    reveal_strlit("unknown");
    assert(seq!["tcp"@][0] == "tcp"@);
    assert(seq!["tcp6"@][0] == "tcp6"@);
    assert(seq!["unix"@][0] == "unix"@);
    assert(seq!["unknown"@][0] == "unknown"@);
    assert("tcp"@.len() == 3 && "tcp6"@.len() == 4);
    assert("tcp"@.len() == 3 && "unix"@.len() == 4);
    assert("tcp"@.len() == 3 && "unknown"@.len() == 7);
    assert("tcp6"@[0] == 't' && "unix"@[0] == 'u');
    assert("tcp6"@.len() == 4 && "unknown"@.len() == 7);
    assert("unix"@.len() == 4 && "unknown"@.len() == 7);
}

/// Clients are shown as they were counted, and the counters of clients only grow.
#[verifier::rlimit(40)]
pub proof fn clients_show_their_numbers(
    m: update::AllShown,
    before: Seq<Change>,
    shown: ConnectionCounts,
    now: ConnectionCounts,
)
    ensures
        ({
            let a = update::all_applied(m, before);
            let b = update::all_applied(m, connections_shown(before, shown, now));
            &&& update::shown_at(b, (Family::Connections, seq!["plain"@])).thousandths == 1000 * now.plain
            &&& update::shown_at(a, (Family::ConnectionsTotal, seq!["plain"@])).thousandths == 1000 * shown.plain && now.plain >= shown.plain ==> update::shown_at(b, (Family::ConnectionsTotal, seq!["plain"@])).thousandths == 1000 * now.plain
            &&& update::shown_at(b, (Family::ConnectionsTotal, seq!["plain"@])).thousandths >= update::shown_at(a, (Family::ConnectionsTotal, seq!["plain"@])).thousandths
            &&& update::shown_at(b, (Family::Connections, seq!["tls"@])).thousandths == 1000 * now.tls
            &&& update::shown_at(a, (Family::ConnectionsTotal, seq!["tls"@])).thousandths == 1000 * shown.tls && now.tls >= shown.tls ==> update::shown_at(b, (Family::ConnectionsTotal, seq!["tls"@])).thousandths == 1000 * now.tls
            &&& update::shown_at(b, (Family::ConnectionsTotal, seq!["tls"@])).thousandths >= update::shown_at(a, (Family::ConnectionsTotal, seq!["tls"@])).thousandths
            &&& update::shown_at(b, (Family::Connections, seq!["cancel"@])).thousandths == 1000 * now.cancel
            &&& update::shown_at(a, (Family::ConnectionsTotal, seq!["cancel"@])).thousandths == 1000 * shown.cancel && now.cancel >= shown.cancel ==> update::shown_at(b, (Family::ConnectionsTotal, seq!["cancel"@])).thousandths == 1000 * now.cancel
            &&& update::shown_at(b, (Family::ConnectionsTotal, seq!["cancel"@])).thousandths >= update::shown_at(a, (Family::ConnectionsTotal, seq!["cancel"@])).thousandths
            &&& update::shown_at(b, (Family::Connections, seq!["total"@])).thousandths == 1000 * now.total
            &&& update::shown_at(a, (Family::ConnectionsTotal, seq!["total"@])).thousandths == 1000 * shown.total && now.total >= shown.total ==> update::shown_at(b, (Family::ConnectionsTotal, seq!["total"@])).thousandths == 1000 * now.total
            &&& update::shown_at(b, (Family::ConnectionsTotal, seq!["total"@])).thousandths >= update::shown_at(a, (Family::ConnectionsTotal, seq!["total"@])).thousandths
        }),
        connections_after(shown, now).plain >= shown.plain,
        connections_after(shown, now).tls >= shown.tls,
        connections_after(shown, now).cancel >= shown.cancel,
        connections_after(shown, now).total >= shown.total,
{
    assert forall|cs: Seq<Change>, c: Change| #[trigger]
        update::all_applied(m, cs.push(c)) == update::applied(update::all_applied(m, cs), c) by {
        update::appended_is_applied_last(m, cs, c);
    }
    reveal_strlit("plain");
    reveal_strlit("tls");
    reveal_strlit("cancel");
    reveal_strlit("total");
    assert(seq!["plain"@][0] == "plain"@);
    assert(seq!["tls"@][0] == "tls"@);
    assert(seq!["cancel"@][0] == "cancel"@);
    assert(seq!["total"@][0] == "total"@);
    assert("plain"@.len() == 5 && "tls"@.len() == 3);
    assert("plain"@.len() == 5 && "cancel"@.len() == 6);
    assert("plain"@[0] == 'p' && "total"@[0] == 't');
    assert("tls"@.len() == 3 && "cancel"@.len() == 6);
    assert("tls"@.len() == 3 && "total"@.len() == 5);
    assert("cancel"@.len() == 6 && "total"@.len() == 5);
}

} // verus!
