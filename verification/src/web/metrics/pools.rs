//! What is exported of the pools.
use vstd::prelude::*;
use crate::pool::id_map::IdMap;
use crate::web::metrics::label_map::labels_of;
use crate::web::metrics::tracker::{CounterDeltaTracker, Reading};
use crate::web::metrics::update::{push0, push2, push3, Family, Op, Update};
#[allow(unused_imports)]
use crate::pool::id_map::Id;
#[allow(unused_imports)]
use crate::string_map;
#[allow(unused_imports)]
use crate::text;
#[allow(unused_imports)]
use crate::web::metrics::label_map::Labels;
#[allow(unused_imports)]
use crate::web::metrics::tracker;
#[allow(unused_imports)]
use crate::web::metrics::tracker::{Mark, Sample};
#[allow(unused_imports)]
use crate::web::metrics::update;
#[allow(unused_imports)]
use crate::web::metrics::update::Change;

verus! {

/// How long most of the measured durations were, in microseconds.
#[derive(Debug, Clone, Copy, PartialEq, Eq, Default)]
pub struct Percentile {
    pub p99: u64,
    pub p95: u64,
    pub p90: u64,
    pub p50: u64,
}

/// What is known of a pool when it is exported.
#[derive(Debug, Clone, Copy, PartialEq, Eq, Default)]
pub struct PoolStats {
    /// Which incarnation of the pool counted.
    pub source_generation: u64,
    pub avg_wait_time: u64,
    pub total_xact_count: u64,
    pub total_xact_time_microseconds: u64,
    pub total_query_count: u64,
    pub total_query_time_microseconds: u64,
    pub sv_active: u64,
    pub sv_idle: u64,
    pub oldest_active_age_ms: u64,
    pub cl_idle: u64,
    pub cl_waiting: u64,
    pub cl_active: u64,
    pub bytes_received: u64,
    pub bytes_sent: u64,
    pub query_percentile: Percentile,
    pub xact_percentile: Percentile,
    pub prepared_statements_count: u64,
    pub prepared_statements_bytes: u64,
    pub client_prepared_count: u64,
    pub client_prepared_bytes: u64,
    pub client_named_count: u64,
    pub client_anonymous_count: u64,
    pub async_clients_count: u64,
    pub pool_size: u64,
    pub paused: bool,
    pub maxwait: u64,
}

/// The changes by which the series of pools go, before they are shown anew.
pub open spec fn pools_reset(before: Seq<Change>) -> Seq<Change> {
    before.push(update::change(Family::PoolsClients, Op::Reset, seq![])).push(
        update::change(Family::PoolsServers, Op::Reset, seq![]),
    ).push(update::change(Family::PoolsOldestActiveAgeMs, Op::Reset, seq![])).push(
        update::change(Family::PoolsBytes, Op::Reset, seq![]),
    ).push(update::change(Family::PoolsQueriesPercentile, Op::Reset, seq![])).push(
        update::change(Family::PoolsTransactionsPercentile, Op::Reset, seq![]),
    ).push(update::change(Family::PoolsAvgWaitTime, Op::Reset, seq![])).push(
        update::change(Family::PoolsTransactionsCount, Op::Reset, seq![]),
    ).push(update::change(Family::PoolsTransactionsTotalTime, Op::Reset, seq![])).push(
        update::change(Family::PoolsQueriesCount, Op::Reset, seq![]),
    ).push(update::change(Family::PoolsQueriesTotalTime, Op::Reset, seq![])).push(
        update::change(Family::PoolSize, Op::Reset, seq![]),
    ).push(update::change(Family::PoolsPaused, Op::Reset, seq![])).push(
        update::change(Family::PoolsMaxwaitMicroseconds, Op::Reset, seq![]),
    )
}

/// Lets the series of pools go, before they are shown anew.
fn reset_pool_metrics(out: &mut Vec<Update>)
    ensures
        update::changes(final(out)@) == pools_reset(update::changes(old(out)@)),
{
    push0(out, Family::PoolsClients, Op::Reset);
    push0(out, Family::PoolsServers, Op::Reset);
    push0(out, Family::PoolsOldestActiveAgeMs, Op::Reset);
    push0(out, Family::PoolsBytes, Op::Reset);
    push0(out, Family::PoolsQueriesPercentile, Op::Reset);
    push0(out, Family::PoolsTransactionsPercentile, Op::Reset);
    push0(out, Family::PoolsAvgWaitTime, Op::Reset);
    push0(out, Family::PoolsTransactionsCount, Op::Reset);
    push0(out, Family::PoolsTransactionsTotalTime, Op::Reset);
    push0(out, Family::PoolsQueriesCount, Op::Reset);
    push0(out, Family::PoolsQueriesTotalTime, Op::Reset);
    push0(out, Family::PoolSize, Op::Reset);
    push0(out, Family::PoolsPaused, Op::Reset);
    push0(out, Family::PoolsMaxwaitMicroseconds, Op::Reset);
}

/// The changes that show how busy a pool has been; times in milliseconds.
pub open spec fn avg_shown(
    before: Seq<Change>,
    user: Seq<char>,
    db: Seq<char>,
    s: PoolStats,
) -> Seq<Change> {
    let l = seq![user, db];
    before.push(
        update::change(Family::PoolsAvgWaitTime, Op::ShowThousandths(s.avg_wait_time), l),
    ).push(update::change(Family::PoolsTransactionsCount, Op::Show(s.total_xact_count), l)).push(
        update::change(
            Family::PoolsTransactionsTotalTime,
            Op::ShowThousandths(s.total_xact_time_microseconds),
            l,
        ),
    ).push(update::change(Family::PoolsQueriesCount, Op::Show(s.total_query_count), l)).push(
        update::change(
            Family::PoolsQueriesTotalTime,
            Op::ShowThousandths(s.total_query_time_microseconds),
            l,
        ),
    )
}

/// Shows how busy a pool has been.
fn update_pool_avg_metrics(out: &mut Vec<Update>, user: &str, db: &str, s: &PoolStats)
    ensures
        update::changes(final(out)@) == avg_shown(update::changes(old(out)@), user@, db@, *s),
{
    push2(out, Family::PoolsAvgWaitTime, Op::ShowThousandths(s.avg_wait_time), user, db);
    push2(out, Family::PoolsTransactionsCount, Op::Show(s.total_xact_count), user, db);
    push2(
        out,
        Family::PoolsTransactionsTotalTime,
        Op::ShowThousandths(s.total_xact_time_microseconds),
        user,
        db,
    );
    push2(out, Family::PoolsQueriesCount, Op::Show(s.total_query_count), user, db);
    push2(
        out,
        Family::PoolsQueriesTotalTime,
        Op::ShowThousandths(s.total_query_time_microseconds),
        user,
        db,
    );
}

/// The changes that show the connections of a pool.
pub open spec fn servers_shown(
    before: Seq<Change>,
    user: Seq<char>,
    db: Seq<char>,
    s: PoolStats,
) -> Seq<Change> {
    before.push(
        update::change(Family::PoolsServers, Op::Show(s.sv_active), seq!["active"@, user, db]),
    ).push(
        update::change(Family::PoolsServers, Op::Show(s.sv_idle), seq!["idle"@, user, db]),
    ).push(
        update::change(
            Family::PoolsOldestActiveAgeMs,
            Op::Show(s.oldest_active_age_ms),
            seq![user, db],
        ),
    )
}

/// Shows the connections of a pool.
fn update_pool_server_metrics(out: &mut Vec<Update>, user: &str, db: &str, s: &PoolStats)
    ensures
        update::changes(final(out)@) == servers_shown(update::changes(old(out)@), user@, db@, *s),
{
    push3(out, Family::PoolsServers, Op::Show(s.sv_active), "active", user, db);
    push3(out, Family::PoolsServers, Op::Show(s.sv_idle), "idle", user, db);
    push2(out, Family::PoolsOldestActiveAgeMs, Op::Show(s.oldest_active_age_ms), user, db);
}

/// The changes that show the clients of a pool.
pub open spec fn clients_shown(
    before: Seq<Change>,
    user: Seq<char>,
    db: Seq<char>,
    s: PoolStats,
) -> Seq<Change> {
    before.push(
        update::change(Family::PoolsClients, Op::Show(s.cl_idle), seq!["idle"@, user, db]),
    ).push(
        update::change(Family::PoolsClients, Op::Show(s.cl_waiting), seq!["waiting"@, user, db]),
    ).push(update::change(Family::PoolsClients, Op::Show(s.cl_active), seq!["active"@, user, db]))
}

/// Shows the clients of a pool.
fn update_client_state_metrics(out: &mut Vec<Update>, user: &str, db: &str, s: &PoolStats)
    ensures
        update::changes(final(out)@) == clients_shown(update::changes(old(out)@), user@, db@, *s),
{
    push3(out, Family::PoolsClients, Op::Show(s.cl_idle), "idle", user, db);
    push3(out, Family::PoolsClients, Op::Show(s.cl_waiting), "waiting", user, db);
    push3(out, Family::PoolsClients, Op::Show(s.cl_active), "active", user, db);
}

/// The changes that show what a pool has received and sent.
pub open spec fn bytes_shown(
    before: Seq<Change>,
    user: Seq<char>,
    db: Seq<char>,
    s: PoolStats,
) -> Seq<Change> {
    before.push(
        update::change(Family::PoolsBytes, Op::Show(s.bytes_received), seq!["received"@, user, db]),
    ).push(update::change(Family::PoolsBytes, Op::Show(s.bytes_sent), seq!["sent"@, user, db]))
}

/// Shows what a pool has received and sent.
fn update_byte_metrics(out: &mut Vec<Update>, user: &str, db: &str, s: &PoolStats)
    ensures
        update::changes(final(out)@) == bytes_shown(update::changes(old(out)@), user@, db@, *s),
{
    push3(out, Family::PoolsBytes, Op::Show(s.bytes_received), "received", user, db);
    push3(out, Family::PoolsBytes, Op::Show(s.bytes_sent), "sent", user, db);
}

/// The changes that show one percentile of a pool, in milliseconds.
pub open spec fn percentile_shown(
    before: Seq<Change>,
    name: Seq<char>,
    user: Seq<char>,
    db: Seq<char>,
    query: u64,
    xact: u64,
) -> Seq<Change> {
    before.push(
        update::change(
            Family::PoolsQueriesPercentile,
            Op::ShowThousandths(query),
            seq![name, user, db],
        ),
    ).push(
        update::change(
            Family::PoolsTransactionsPercentile,
            Op::ShowThousandths(xact),
            seq![name, user, db],
        ),
    )
}

/// The changes that show the percentiles of a pool.
pub open spec fn percentiles_shown(
    before: Seq<Change>,
    user: Seq<char>,
    db: Seq<char>,
    q: Percentile,
    x: Percentile,
) -> Seq<Change> {
    let a = percentile_shown(before, "99"@, user, db, q.p99, x.p99);
    let b = percentile_shown(a, "95"@, user, db, q.p95, x.p95);
    let c = percentile_shown(b, "90"@, user, db, q.p90, x.p90);
    percentile_shown(c, "50"@, user, db, q.p50, x.p50)
}

/// Shows one percentile of a pool.
fn push_percentile(
    out: &mut Vec<Update>,
    name: &str,
    user: &str,
    db: &str,
    query: u64,
    xact: u64,
)
    ensures
        update::changes(final(out)@) == percentile_shown(
            update::changes(old(out)@),
            name@,
            user@,
            db@,
            query,
            xact,
        ),
{
    push3(out, Family::PoolsQueriesPercentile, Op::ShowThousandths(query), name, user, db);
    push3(out, Family::PoolsTransactionsPercentile, Op::ShowThousandths(xact), name, user, db);
}

/// Shows the percentiles of a pool.
fn update_percentile_metrics(out: &mut Vec<Update>, user: &str, db: &str, s: &PoolStats)
    ensures
        update::changes(final(out)@) == percentiles_shown(
            update::changes(old(out)@),
            user@,
            db@,
            s.query_percentile,
            s.xact_percentile,
        ),
{
    push_percentile(out, "99", user, db, s.query_percentile.p99, s.xact_percentile.p99);
    push_percentile(out, "95", user, db, s.query_percentile.p95, s.xact_percentile.p95);
    push_percentile(out, "90", user, db, s.query_percentile.p90, s.xact_percentile.p90);
    push_percentile(out, "50", user, db, s.query_percentile.p50, s.xact_percentile.p50);
}

/// The changes that show the caches of a pool.
pub open spec fn caches_shown(
    before: Seq<Change>,
    user: Seq<char>,
    db: Seq<char>,
    s: PoolStats,
) -> Seq<Change> {
    let l = seq![user, db];
    before.push(
        update::change(Family::PoolCacheEntries, Op::Show(s.prepared_statements_count), l),
    ).push(update::change(Family::PoolCacheBytes, Op::Show(s.prepared_statements_bytes), l)).push(
        update::change(Family::ClientCacheEntries, Op::Show(s.client_prepared_count), l),
    ).push(update::change(Family::ClientCacheBytes, Op::Show(s.client_prepared_bytes), l)).push(
        update::change(Family::ClientPreparedNamedEntries, Op::Show(s.client_named_count), l),
    ).push(
        update::change(
            Family::ClientPreparedAnonymousEntries,
            Op::Show(s.client_anonymous_count),
            l,
        ),
    ).push(update::change(Family::AsyncClientsCount, Op::Show(s.async_clients_count), l))
}

/// The changes that show the size of a pool, whether it is paused and how long
/// clients wait.
pub open spec fn pool_state_shown(
    before: Seq<Change>,
    user: Seq<char>,
    db: Seq<char>,
    s: PoolStats,
) -> Seq<Change> {
    let l = seq![user, db];
    let paused: u64 = if s.paused {
        1
    } else {
        0
    };
    before.push(update::change(Family::PoolSize, Op::Show(s.pool_size), l)).push(
        update::change(Family::PoolsPaused, Op::Show(paused), l),
    ).push(update::change(Family::PoolsMaxwaitMicroseconds, Op::Show(s.maxwait), l))
}

/// Shows the size of a pool, whether it is paused and how long clients wait.
fn update_pool_state_metrics(out: &mut Vec<Update>, user: &str, db: &str, s: &PoolStats)
    ensures
        update::changes(final(out)@) == pool_state_shown(
            update::changes(old(out)@),
            user@,
            db@,
            *s,
        ),
{
    push2(out, Family::PoolSize, Op::Show(s.pool_size), user, db);
    let paused: u64 = if s.paused {
        1
    } else {
        0
    };
    push2(out, Family::PoolsPaused, Op::Show(paused), user, db);
    push2(out, Family::PoolsMaxwaitMicroseconds, Op::Show(s.maxwait), user, db);
}

/// Shows the caches of a pool.
fn update_pool_cache_metrics(out: &mut Vec<Update>, user: &str, db: &str, s: &PoolStats)
    ensures
        update::changes(final(out)@) == caches_shown(update::changes(old(out)@), user@, db@, *s),
{
    push2(out, Family::PoolCacheEntries, Op::Show(s.prepared_statements_count), user, db);
    push2(out, Family::PoolCacheBytes, Op::Show(s.prepared_statements_bytes), user, db);
    push2(out, Family::ClientCacheEntries, Op::Show(s.client_prepared_count), user, db);
    push2(out, Family::ClientCacheBytes, Op::Show(s.client_prepared_bytes), user, db);
    push2(out, Family::ClientPreparedNamedEntries, Op::Show(s.client_named_count), user, db);
    push2(
        out,
        Family::ClientPreparedAnonymousEntries,
        Op::Show(s.client_anonymous_count),
        user,
        db,
    );
    push2(out, Family::AsyncClientsCount, Op::Show(s.async_clients_count), user, db);
}

/// The changes that show a pool.
pub open spec fn pool_shown(before: Seq<Change>, id: Id, s: PoolStats) -> Seq<Change> {
    let a = avg_shown(before, id.1, id.0, s);
    let b = servers_shown(a, id.1, id.0, s);
    let c = clients_shown(b, id.1, id.0, s);
    let d = bytes_shown(c, id.1, id.0, s);
    let e = percentiles_shown(d, id.1, id.0, s.query_percentile, s.xact_percentile);
    let f = caches_shown(e, id.1, id.0, s);
    pool_state_shown(f, id.1, id.0, s)
}

/// The changes that show pools.
pub open spec fn pools_shown(before: Seq<Change>, pools: Seq<(Id, PoolStats)>) -> Seq<Change>
    decreases pools.len(),
{
    if pools.len() == 0 {
        before
    } else {
        pool_shown(pools_shown(before, pools.drop_last()), pools.last().0, pools.last().1)
    }
}

/// How many queries each pool has run.
pub open spec fn query_samples(pools: Seq<(Id, PoolStats)>) -> Seq<Sample> {
    Seq::new(
        pools.len(),
        |i: int|
            Sample {
                labels: seq![pools[i].0.1, pools[i].0.0],
                generation: pools[i].1.source_generation,
                value: pools[i].1.total_query_count,
            },
    )
}

/// How many transactions each pool has run.
pub open spec fn transaction_samples(pools: Seq<(Id, PoolStats)>) -> Seq<Sample> {
    Seq::new(
        pools.len(),
        |i: int|
            Sample {
                labels: seq![pools[i].0.1, pools[i].0.0],
                generation: pools[i].1.source_generation,
                value: pools[i].1.total_xact_count,
            },
    )
}

/// How many bytes each pool has received and sent.
pub open spec fn byte_samples(pools: Seq<(Id, PoolStats)>) -> Seq<Sample>
    decreases pools.len(),
{
    if pools.len() == 0 {
        Seq::empty()
    } else {
        let (id, s) = pools.last();
        byte_samples(pools.drop_last()).push(
            Sample {
                labels: seq!["received"@, id.1, id.0],
                generation: s.source_generation,
                value: s.bytes_received,
            },
        ).push(
            Sample {
                labels: seq!["sent"@, id.1, id.0],
                generation: s.source_generation,
                value: s.bytes_sent,
            },
        )
    }
}

/// A reading of a series with two labels.
pub fn reading2(a: &str, b: &str, generation: u64, value: u64) -> (r: Reading)
    ensures
        r@ == (Sample { labels: seq![a@, b@], generation, value }),
{
    let list = [a, b];
    assert(text::views(list@) =~= seq![a@, b@]);
    Reading { labels: labels_of(&list), generation, value }
}

/// A reading of a series with three labels.
pub fn reading3(a: &str, b: &str, c: &str, generation: u64, value: u64) -> (r: Reading)
    ensures
        r@ == (Sample { labels: seq![a@, b@, c@], generation, value }),
{
    let list = [a, b, c];
    assert(text::views(list@) =~= seq![a@, b@, c@]);
    Reading { labels: labels_of(&list), generation, value }
}

/// Appends a reading.
pub fn append_reading(list: &mut Vec<Reading>, r: Reading)
    ensures
        tracker::samples(final(list)@) == tracker::samples(old(list)@).push(r@),
{
    list.push(r);
    assert(tracker::samples(list@) =~= tracker::samples(old(list)@).push(r@));
}

/// The changes when the pools are exported.
pub open spec fn pools_exported(
    before: Seq<Change>,
    pools: Seq<(Id, PoolStats)>,
    queries: Seq<(Labels, Mark)>,
    transactions: Seq<(Labels, Mark)>,
    bytes: Seq<(Labels, Mark)>,
) -> Seq<Change> {
    let a = pools_shown(pools_reset(before), pools);
    let b = tracker::exported(a, Family::PoolsQueriesTotal, queries, query_samples(pools));
    let c = tracker::exported(
        b,
        Family::PoolsTransactionsTotal,
        transactions,
        transaction_samples(pools),
    );
    tracker::exported(c, Family::PoolsBytesTotal, bytes, byte_samples(pools))
}

/// Exports the pools.
pub fn update_pool_metrics(
    out: &mut Vec<Update>,
    pools: &IdMap<PoolStats>,
    queries: &mut CounterDeltaTracker,
    transactions: &mut CounterDeltaTracker,
    bytes: &mut CounterDeltaTracker,
)
    ensures
        update::changes(final(out)@) == pools_exported(
            update::changes(old(out)@),
            pools.listing(),
            old(queries).marks.listing(),
            old(transactions).marks.listing(),
            old(bytes).marks.listing(),
        ),
        final(queries).marks.listing() == tracker::marks_after(
            old(queries).marks.listing(),
            query_samples(pools.listing()),
        ),
        final(transactions).marks.listing() == tracker::marks_after(
            old(transactions).marks.listing(),
            transaction_samples(pools.listing()),
        ),
        final(bytes).marks.listing() == tracker::marks_after(
            old(bytes).marks.listing(),
            byte_samples(pools.listing()),
        ),
{
    let ghost s = pools.listing();
    let ghost before = pools_reset(update::changes(out@));
    reset_pool_metrics(out);
    let mut q: Vec<Reading> = Vec::new();
    let mut t: Vec<Reading> = Vec::new();
    let mut b: Vec<Reading> = Vec::new();
    let mut i: usize = 0;
    proof {
        assert(s.take(0) =~= Seq::<(Id, PoolStats)>::empty());
        assert(tracker::samples(q@) =~= query_samples(s.take(0)));
        assert(tracker::samples(t@) =~= transaction_samples(s.take(0)));
        assert(tracker::samples(b@) =~= byte_samples(s.take(0)));
    }
    let n: usize = pools.len();
    while i < n
        invariant
            i <= n,
            n == s.len(),
            s == pools.listing(),
            update::changes(out@) == pools_shown(before, s.take(i as int)),
            tracker::samples(q@) == query_samples(s.take(i as int)),
            tracker::samples(t@) == transaction_samples(s.take(i as int)),
            tracker::samples(b@) == byte_samples(s.take(i as int)),
        decreases n - i,
    {
        let user = pools.id(i).user.as_str();
        let db = pools.id(i).db.as_str();
        let v = pools.value(i);
        proof {
            assert(s.take(i + 1).drop_last() =~= s.take(i as int));
            assert(s.take(i + 1).last() == s[i as int]);
        }
        update_pool_avg_metrics(out, user, db, v);
        update_pool_server_metrics(out, user, db, v);
        update_client_state_metrics(out, user, db, v);
        update_byte_metrics(out, user, db, v);
        update_percentile_metrics(out, user, db, v);
        update_pool_cache_metrics(out, user, db, v);
        update_pool_state_metrics(out, user, db, v);
        append_reading(&mut q, reading2(user, db, v.source_generation, v.total_query_count));
        append_reading(&mut t, reading2(user, db, v.source_generation, v.total_xact_count));
        append_reading(&mut b, reading3("received", user, db, v.source_generation, v.bytes_received));
        append_reading(&mut b, reading3("sent", user, db, v.source_generation, v.bytes_sent));
        proof {
            assert(tracker::samples(q@) =~= query_samples(s.take(i + 1)));
            assert(tracker::samples(t@) =~= transaction_samples(s.take(i + 1)));
        }
        i = i + 1;
    }
    assert(s.take(n as int) =~= s);
    queries.export(Family::PoolsQueriesTotal, &q, out);
    transactions.export(Family::PoolsTransactionsTotal, &t, out);
    bytes.export(Family::PoolsBytesTotal, &b, out);
}

/// The value of a series in thousandths; nothing for one that is not there.
pub open spec fn series(m: update::AllShown, family: Family, labels: Labels) -> int {
    update::shown_at(m, (family, labels)).thousandths
}

/// The labels of a series of this pool: the user and the database come last.
pub open spec fn of_pool(labels: Labels, id: Id) -> bool {
    ||| labels.len() == 2 && labels[0] == id.1 && labels[1] == id.0
    ||| labels.len() == 3 && labels[1] == id.1 && labels[2] == id.0
}

/// A series shows the same.
pub open spec fn same_series(a: update::AllShown, b: update::AllShown, k: (Family, Labels)) -> bool {
    b.contains_key(k) == a.contains_key(k) && (a.contains_key(k) ==> b[k] == a[k])
}

/// Appended changes, one by one.
proof fn pushes_apply(m: update::AllShown)
    ensures
        forall|cs: Seq<Change>, c: Change| #[trigger]
            update::all_applied(m, cs.push(c)) == update::applied(update::all_applied(m, cs), c),
{
    assert forall|cs: Seq<Change>, c: Change| #[trigger]
        update::all_applied(m, cs.push(c)) == update::applied(update::all_applied(m, cs), c) by {
        update::appended_is_applied_last(m, cs, c);
    }
}

/// How busy a pool has been is shown.
proof fn avg_is_shown(m: update::AllShown, before: Seq<Change>, id: Id, s: PoolStats)
    ensures
        ({
            let a = update::all_applied(m, before);
            let b = update::all_applied(m, avg_shown(before, id.1, id.0, s));
            &&& series(b, Family::PoolsAvgWaitTime, seq![id.1, id.0]) == s.avg_wait_time
            &&& series(b, Family::PoolsTransactionsCount, seq![id.1, id.0]) == s.total_xact_count * 1000
            &&& series(b, Family::PoolsTransactionsTotalTime, seq![id.1, id.0]) == s.total_xact_time_microseconds
            &&& series(b, Family::PoolsQueriesCount, seq![id.1, id.0]) == s.total_query_count * 1000
            &&& series(b, Family::PoolsQueriesTotalTime, seq![id.1, id.0]) == s.total_query_time_microseconds
            &&& forall|k: (Family, Labels)|
                !of_pool(k.1, id) || (k.0 != Family::PoolsAvgWaitTime && k.0 != Family::PoolsTransactionsCount && k.0 != Family::PoolsTransactionsTotalTime && k.0 != Family::PoolsQueriesCount && k.0 != Family::PoolsQueriesTotalTime) ==> #[trigger] same_series(a, b, k)
        }),
{
    pushes_apply(m);

}

/// The connections of a pool are shown.
proof fn servers_are_shown(m: update::AllShown, before: Seq<Change>, id: Id, s: PoolStats)
    ensures
        ({
            let a = update::all_applied(m, before);
            let b = update::all_applied(m, servers_shown(before, id.1, id.0, s));
            &&& series(b, Family::PoolsServers, seq!["active"@, id.1, id.0]) == s.sv_active * 1000
            &&& series(b, Family::PoolsServers, seq!["idle"@, id.1, id.0]) == s.sv_idle * 1000
            &&& series(b, Family::PoolsOldestActiveAgeMs, seq![id.1, id.0]) == s.oldest_active_age_ms * 1000
            &&& forall|k: (Family, Labels)|
                !of_pool(k.1, id) || (k.0 != Family::PoolsServers && k.0 != Family::PoolsOldestActiveAgeMs) ==> #[trigger] same_series(a, b, k)
        }),
{
    pushes_apply(m);
    reveal_strlit("active");
    reveal_strlit("idle");
    assert(seq!["active"@, id.1, id.0][0] == "active"@);
    assert(of_pool(seq!["active"@, id.1, id.0], id));
    assert(seq!["idle"@, id.1, id.0][0] == "idle"@);
    assert(of_pool(seq!["idle"@, id.1, id.0], id));
}

/// The clients of a pool are shown.
proof fn clients_are_shown(m: update::AllShown, before: Seq<Change>, id: Id, s: PoolStats)
    ensures
        ({
            let a = update::all_applied(m, before);
            let b = update::all_applied(m, clients_shown(before, id.1, id.0, s));
            &&& series(b, Family::PoolsClients, seq!["idle"@, id.1, id.0]) == s.cl_idle * 1000
            &&& series(b, Family::PoolsClients, seq!["waiting"@, id.1, id.0]) == s.cl_waiting * 1000
            &&& series(b, Family::PoolsClients, seq!["active"@, id.1, id.0]) == s.cl_active * 1000
            &&& forall|k: (Family, Labels)|
                !of_pool(k.1, id) || (k.0 != Family::PoolsClients) ==> #[trigger] same_series(a, b, k)
        }),
{
    pushes_apply(m);
    reveal_strlit("active");
    reveal_strlit("idle");
    reveal_strlit("waiting");
    assert(seq!["active"@, id.1, id.0][0] == "active"@);
    assert(of_pool(seq!["active"@, id.1, id.0], id));
    assert(seq!["idle"@, id.1, id.0][0] == "idle"@);
    assert(of_pool(seq!["idle"@, id.1, id.0], id));
    assert(seq!["waiting"@, id.1, id.0][0] == "waiting"@);
    assert(of_pool(seq!["waiting"@, id.1, id.0], id));
    assert("idle"@.len() == 4 && "active"@.len() == 6 && "waiting"@.len() == 7);
    assert(seq!["idle"@, id.1, id.0] != seq!["waiting"@, id.1, id.0]);
    assert(seq!["idle"@, id.1, id.0] != seq!["active"@, id.1, id.0]);
    assert(seq!["waiting"@, id.1, id.0] != seq!["active"@, id.1, id.0]);
}

/// What a pool has received and sent is shown.
proof fn bytes_are_shown(m: update::AllShown, before: Seq<Change>, id: Id, s: PoolStats)
    ensures
        ({
            let a = update::all_applied(m, before);
            let b = update::all_applied(m, bytes_shown(before, id.1, id.0, s));
            &&& series(b, Family::PoolsBytes, seq!["received"@, id.1, id.0]) == s.bytes_received * 1000
            &&& series(b, Family::PoolsBytes, seq!["sent"@, id.1, id.0]) == s.bytes_sent * 1000
            &&& forall|k: (Family, Labels)|
                !of_pool(k.1, id) || (k.0 != Family::PoolsBytes) ==> #[trigger] same_series(a, b, k)
        }),
{
    pushes_apply(m);
    reveal_strlit("received");
    reveal_strlit("sent");
    assert(seq!["received"@, id.1, id.0][0] == "received"@);
    assert(of_pool(seq!["received"@, id.1, id.0], id));
    assert(seq!["sent"@, id.1, id.0][0] == "sent"@);
    assert(of_pool(seq!["sent"@, id.1, id.0], id));
}

/// The percentiles of a pool are shown.
proof fn percentiles_are_shown(m: update::AllShown, before: Seq<Change>, id: Id, s: PoolStats)
    ensures
        ({
            let a = update::all_applied(m, before);
            let b = update::all_applied(m, percentiles_shown(
                before,
                id.1,
                id.0,
                s.query_percentile,
                s.xact_percentile,
            ));
            &&& series(b, Family::PoolsQueriesPercentile, seq!["99"@, id.1, id.0]) == s.query_percentile.p99
            &&& series(b, Family::PoolsTransactionsPercentile, seq!["99"@, id.1, id.0]) == s.xact_percentile.p99
            &&& series(b, Family::PoolsQueriesPercentile, seq!["95"@, id.1, id.0]) == s.query_percentile.p95
            &&& series(b, Family::PoolsTransactionsPercentile, seq!["95"@, id.1, id.0]) == s.xact_percentile.p95
            &&& series(b, Family::PoolsQueriesPercentile, seq!["90"@, id.1, id.0]) == s.query_percentile.p90
            &&& series(b, Family::PoolsTransactionsPercentile, seq!["90"@, id.1, id.0]) == s.xact_percentile.p90
            &&& series(b, Family::PoolsQueriesPercentile, seq!["50"@, id.1, id.0]) == s.query_percentile.p50
            &&& series(b, Family::PoolsTransactionsPercentile, seq!["50"@, id.1, id.0]) == s.xact_percentile.p50
            &&& forall|k: (Family, Labels)|
                !of_pool(k.1, id) || (k.0 != Family::PoolsQueriesPercentile && k.0 != Family::PoolsTransactionsPercentile) ==> #[trigger] same_series(a, b, k)
        }),
{
    pushes_apply(m);
    reveal_strlit("99");
    reveal_strlit("95");
    reveal_strlit("90");
    reveal_strlit("50");
    assert(seq!["99"@, id.1, id.0][0] == "99"@);
    assert(of_pool(seq!["99"@, id.1, id.0], id));
    assert(seq!["95"@, id.1, id.0][0] == "95"@);
    assert(of_pool(seq!["95"@, id.1, id.0], id));
    assert(seq!["90"@, id.1, id.0][0] == "90"@);
    assert(of_pool(seq!["90"@, id.1, id.0], id));
    assert(seq!["50"@, id.1, id.0][0] == "50"@);
    assert(of_pool(seq!["50"@, id.1, id.0], id));
    assert("99"@[1] == '9' && "95"@[1] == '5' && "90"@[1] == '0');
    assert("90"@[0] == '9' && "50"@[0] == '5');
}

/// The caches of a pool are shown.
proof fn caches_are_shown(m: update::AllShown, before: Seq<Change>, id: Id, s: PoolStats)
    ensures
        ({
            let a = update::all_applied(m, before);
            let b = update::all_applied(m, caches_shown(before, id.1, id.0, s));
            &&& series(b, Family::PoolCacheEntries, seq![id.1, id.0]) == s.prepared_statements_count * 1000
            &&& series(b, Family::PoolCacheBytes, seq![id.1, id.0]) == s.prepared_statements_bytes * 1000
            &&& series(b, Family::ClientCacheEntries, seq![id.1, id.0]) == s.client_prepared_count * 1000
            &&& series(b, Family::ClientCacheBytes, seq![id.1, id.0]) == s.client_prepared_bytes * 1000
            &&& series(b, Family::ClientPreparedNamedEntries, seq![id.1, id.0]) == s.client_named_count * 1000
            &&& series(b, Family::ClientPreparedAnonymousEntries, seq![id.1, id.0]) == s.client_anonymous_count * 1000
            &&& series(b, Family::AsyncClientsCount, seq![id.1, id.0]) == s.async_clients_count * 1000
            &&& forall|k: (Family, Labels)|
                !of_pool(k.1, id) || (k.0 != Family::PoolCacheEntries && k.0 != Family::PoolCacheBytes && k.0 != Family::ClientCacheEntries && k.0 != Family::ClientCacheBytes && k.0 != Family::ClientPreparedNamedEntries && k.0 != Family::ClientPreparedAnonymousEntries && k.0 != Family::AsyncClientsCount) ==> #[trigger] same_series(a, b, k)
        }),
{
    pushes_apply(m);

}

/// The state of a pool is shown.
proof fn state_is_shown(m: update::AllShown, before: Seq<Change>, id: Id, s: PoolStats)
    ensures
        ({
            let a = update::all_applied(m, before);
            let b = update::all_applied(m, pool_state_shown(before, id.1, id.0, s));
            &&& series(b, Family::PoolSize, seq![id.1, id.0]) == s.pool_size * 1000
            &&& series(b, Family::PoolsPaused, seq![id.1, id.0]) == if s.paused {
                1000int
            } else {
                0int
            }
            &&& series(b, Family::PoolsMaxwaitMicroseconds, seq![id.1, id.0]) == s.maxwait * 1000
            &&& forall|k: (Family, Labels)|
                !of_pool(k.1, id) || (k.0 != Family::PoolSize && k.0 != Family::PoolsPaused && k.0 != Family::PoolsMaxwaitMicroseconds) ==> #[trigger] same_series(a, b, k)
        }),
{
    pushes_apply(m);

}

/// Every series of a pool shows the pool's number: counts as they are, the times that are
/// exported in milliseconds as thousandths of the measured microseconds.
pub open spec fn shows_pool(b: update::AllShown, id: Id, s: PoolStats) -> bool {
    &&& series(b, Family::PoolsAvgWaitTime, seq![id.1, id.0]) == s.avg_wait_time
    &&& series(b, Family::PoolsTransactionsCount, seq![id.1, id.0]) == s.total_xact_count * 1000
    &&& series(b, Family::PoolsTransactionsTotalTime, seq![id.1, id.0]) == s.total_xact_time_microseconds
    &&& series(b, Family::PoolsQueriesCount, seq![id.1, id.0]) == s.total_query_count * 1000
    &&& series(b, Family::PoolsQueriesTotalTime, seq![id.1, id.0]) == s.total_query_time_microseconds
    &&& series(b, Family::PoolsServers, seq!["active"@, id.1, id.0]) == s.sv_active * 1000
    &&& series(b, Family::PoolsServers, seq!["idle"@, id.1, id.0]) == s.sv_idle * 1000
    &&& series(b, Family::PoolsOldestActiveAgeMs, seq![id.1, id.0]) == s.oldest_active_age_ms * 1000
    &&& series(b, Family::PoolsClients, seq!["idle"@, id.1, id.0]) == s.cl_idle * 1000
    &&& series(b, Family::PoolsClients, seq!["waiting"@, id.1, id.0]) == s.cl_waiting * 1000
    &&& series(b, Family::PoolsClients, seq!["active"@, id.1, id.0]) == s.cl_active * 1000
    &&& series(b, Family::PoolsBytes, seq!["received"@, id.1, id.0]) == s.bytes_received * 1000
    &&& series(b, Family::PoolsBytes, seq!["sent"@, id.1, id.0]) == s.bytes_sent * 1000
    &&& series(b, Family::PoolsQueriesPercentile, seq!["99"@, id.1, id.0]) == s.query_percentile.p99
    &&& series(b, Family::PoolsTransactionsPercentile, seq!["99"@, id.1, id.0]) == s.xact_percentile.p99
    &&& series(b, Family::PoolsQueriesPercentile, seq!["95"@, id.1, id.0]) == s.query_percentile.p95
    &&& series(b, Family::PoolsTransactionsPercentile, seq!["95"@, id.1, id.0]) == s.xact_percentile.p95
    &&& series(b, Family::PoolsQueriesPercentile, seq!["90"@, id.1, id.0]) == s.query_percentile.p90
    &&& series(b, Family::PoolsTransactionsPercentile, seq!["90"@, id.1, id.0]) == s.xact_percentile.p90
    &&& series(b, Family::PoolsQueriesPercentile, seq!["50"@, id.1, id.0]) == s.query_percentile.p50
    &&& series(b, Family::PoolsTransactionsPercentile, seq!["50"@, id.1, id.0]) == s.xact_percentile.p50
    &&& series(b, Family::PoolCacheEntries, seq![id.1, id.0]) == s.prepared_statements_count * 1000
    &&& series(b, Family::PoolCacheBytes, seq![id.1, id.0]) == s.prepared_statements_bytes * 1000
    &&& series(b, Family::ClientCacheEntries, seq![id.1, id.0]) == s.client_prepared_count * 1000
    &&& series(b, Family::ClientCacheBytes, seq![id.1, id.0]) == s.client_prepared_bytes * 1000
    &&& series(b, Family::ClientPreparedNamedEntries, seq![id.1, id.0]) == s.client_named_count * 1000
    &&& series(b, Family::ClientPreparedAnonymousEntries, seq![id.1, id.0]) == s.client_anonymous_count * 1000
    &&& series(b, Family::AsyncClientsCount, seq![id.1, id.0]) == s.async_clients_count * 1000
    &&& series(b, Family::PoolSize, seq![id.1, id.0]) == s.pool_size * 1000
    &&& series(b, Family::PoolsPaused, seq![id.1, id.0]) == if s.paused {
                1000int
            } else {
                0int
            }
    &&& series(b, Family::PoolsMaxwaitMicroseconds, seq![id.1, id.0]) == s.maxwait * 1000
}

/// One pool is shown, and no series of another pool is touched.
#[verifier::rlimit(60)]
proof fn one_pool_is_shown(m: update::AllShown, before: Seq<Change>, id: Id, s: PoolStats)
    ensures
        shows_pool(update::all_applied(m, pool_shown(before, id, s)), id, s),
        forall|k: (Family, Labels)|
            !of_pool(k.1, id) ==> #[trigger] same_series(
                update::all_applied(m, before),
                update::all_applied(m, pool_shown(before, id, s)),
                k,
            ),
{
    let a = avg_shown(before, id.1, id.0, s);
    let b = servers_shown(a, id.1, id.0, s);
    let c = clients_shown(b, id.1, id.0, s);
    let d = bytes_shown(c, id.1, id.0, s);
    let e = percentiles_shown(d, id.1, id.0, s.query_percentile, s.xact_percentile);
    let f = caches_shown(e, id.1, id.0, s);
    let g = pool_state_shown(f, id.1, id.0, s);
    avg_is_shown(m, before, id, s);
    servers_are_shown(m, a, id, s);
    clients_are_shown(m, b, id, s);
    bytes_are_shown(m, c, id, s);
    percentiles_are_shown(m, d, id, s);
    caches_are_shown(m, e, id, s);
    state_is_shown(m, f, id, s);
    let z = update::all_applied(m, before);
    let ma = update::all_applied(m, a);
    let mb = update::all_applied(m, b);
    let mc = update::all_applied(m, c);
    let md = update::all_applied(m, d);
    let me = update::all_applied(m, e);
    let mf = update::all_applied(m, f);
    let mg = update::all_applied(m, g);
    assert forall|k: (Family, Labels)| !of_pool(k.1, id) implies #[trigger] same_series(z, mg, k) by {
        assert(same_series(z, ma, k));
        assert(same_series(ma, mb, k));
        assert(same_series(mb, mc, k));
        assert(same_series(mc, md, k));
        assert(same_series(md, me, k));
        assert(same_series(me, mf, k));
        assert(same_series(mf, mg, k));
    }
    assert(same_series(ma, mb, (Family::PoolsAvgWaitTime, seq![id.1, id.0])));
    assert(same_series(mb, mc, (Family::PoolsAvgWaitTime, seq![id.1, id.0])));
    assert(same_series(mc, md, (Family::PoolsAvgWaitTime, seq![id.1, id.0])));
    assert(same_series(md, me, (Family::PoolsAvgWaitTime, seq![id.1, id.0])));
    assert(same_series(me, mf, (Family::PoolsAvgWaitTime, seq![id.1, id.0])));
    assert(same_series(mf, mg, (Family::PoolsAvgWaitTime, seq![id.1, id.0])));
    assert(same_series(ma, mb, (Family::PoolsTransactionsCount, seq![id.1, id.0])));
    assert(same_series(mb, mc, (Family::PoolsTransactionsCount, seq![id.1, id.0])));
    assert(same_series(mc, md, (Family::PoolsTransactionsCount, seq![id.1, id.0])));
    assert(same_series(md, me, (Family::PoolsTransactionsCount, seq![id.1, id.0])));
    assert(same_series(me, mf, (Family::PoolsTransactionsCount, seq![id.1, id.0])));
    assert(same_series(mf, mg, (Family::PoolsTransactionsCount, seq![id.1, id.0])));
    assert(same_series(ma, mb, (Family::PoolsTransactionsTotalTime, seq![id.1, id.0])));
    assert(same_series(mb, mc, (Family::PoolsTransactionsTotalTime, seq![id.1, id.0])));
    assert(same_series(mc, md, (Family::PoolsTransactionsTotalTime, seq![id.1, id.0])));
    assert(same_series(md, me, (Family::PoolsTransactionsTotalTime, seq![id.1, id.0])));
    assert(same_series(me, mf, (Family::PoolsTransactionsTotalTime, seq![id.1, id.0])));
    assert(same_series(mf, mg, (Family::PoolsTransactionsTotalTime, seq![id.1, id.0])));
    assert(same_series(ma, mb, (Family::PoolsQueriesCount, seq![id.1, id.0])));
    assert(same_series(mb, mc, (Family::PoolsQueriesCount, seq![id.1, id.0])));
    assert(same_series(mc, md, (Family::PoolsQueriesCount, seq![id.1, id.0])));
    assert(same_series(md, me, (Family::PoolsQueriesCount, seq![id.1, id.0])));
    assert(same_series(me, mf, (Family::PoolsQueriesCount, seq![id.1, id.0])));
    assert(same_series(mf, mg, (Family::PoolsQueriesCount, seq![id.1, id.0])));
    assert(same_series(ma, mb, (Family::PoolsQueriesTotalTime, seq![id.1, id.0])));
    assert(same_series(mb, mc, (Family::PoolsQueriesTotalTime, seq![id.1, id.0])));
    assert(same_series(mc, md, (Family::PoolsQueriesTotalTime, seq![id.1, id.0])));
    assert(same_series(md, me, (Family::PoolsQueriesTotalTime, seq![id.1, id.0])));
    assert(same_series(me, mf, (Family::PoolsQueriesTotalTime, seq![id.1, id.0])));
    assert(same_series(mf, mg, (Family::PoolsQueriesTotalTime, seq![id.1, id.0])));
    assert(same_series(mb, mc, (Family::PoolsServers, seq!["active"@, id.1, id.0])));
    assert(same_series(mc, md, (Family::PoolsServers, seq!["active"@, id.1, id.0])));
    assert(same_series(md, me, (Family::PoolsServers, seq!["active"@, id.1, id.0])));
    assert(same_series(me, mf, (Family::PoolsServers, seq!["active"@, id.1, id.0])));
    assert(same_series(mf, mg, (Family::PoolsServers, seq!["active"@, id.1, id.0])));
    assert(same_series(mb, mc, (Family::PoolsServers, seq!["idle"@, id.1, id.0])));
    assert(same_series(mc, md, (Family::PoolsServers, seq!["idle"@, id.1, id.0])));
    assert(same_series(md, me, (Family::PoolsServers, seq!["idle"@, id.1, id.0])));
    assert(same_series(me, mf, (Family::PoolsServers, seq!["idle"@, id.1, id.0])));
    assert(same_series(mf, mg, (Family::PoolsServers, seq!["idle"@, id.1, id.0])));
    assert(same_series(mb, mc, (Family::PoolsOldestActiveAgeMs, seq![id.1, id.0])));
    assert(same_series(mc, md, (Family::PoolsOldestActiveAgeMs, seq![id.1, id.0])));
    assert(same_series(md, me, (Family::PoolsOldestActiveAgeMs, seq![id.1, id.0])));
    assert(same_series(me, mf, (Family::PoolsOldestActiveAgeMs, seq![id.1, id.0])));
    assert(same_series(mf, mg, (Family::PoolsOldestActiveAgeMs, seq![id.1, id.0])));
    assert(same_series(mc, md, (Family::PoolsClients, seq!["idle"@, id.1, id.0])));
    assert(same_series(md, me, (Family::PoolsClients, seq!["idle"@, id.1, id.0])));
    assert(same_series(me, mf, (Family::PoolsClients, seq!["idle"@, id.1, id.0])));
    assert(same_series(mf, mg, (Family::PoolsClients, seq!["idle"@, id.1, id.0])));
    assert(same_series(mc, md, (Family::PoolsClients, seq!["waiting"@, id.1, id.0])));
    assert(same_series(md, me, (Family::PoolsClients, seq!["waiting"@, id.1, id.0])));
    assert(same_series(me, mf, (Family::PoolsClients, seq!["waiting"@, id.1, id.0])));
    assert(same_series(mf, mg, (Family::PoolsClients, seq!["waiting"@, id.1, id.0])));
    assert(same_series(mc, md, (Family::PoolsClients, seq!["active"@, id.1, id.0])));
    assert(same_series(md, me, (Family::PoolsClients, seq!["active"@, id.1, id.0])));
    assert(same_series(me, mf, (Family::PoolsClients, seq!["active"@, id.1, id.0])));
    assert(same_series(mf, mg, (Family::PoolsClients, seq!["active"@, id.1, id.0])));
    assert(same_series(md, me, (Family::PoolsBytes, seq!["received"@, id.1, id.0])));
    assert(same_series(me, mf, (Family::PoolsBytes, seq!["received"@, id.1, id.0])));
    assert(same_series(mf, mg, (Family::PoolsBytes, seq!["received"@, id.1, id.0])));
    assert(same_series(md, me, (Family::PoolsBytes, seq!["sent"@, id.1, id.0])));
    assert(same_series(me, mf, (Family::PoolsBytes, seq!["sent"@, id.1, id.0])));
    assert(same_series(mf, mg, (Family::PoolsBytes, seq!["sent"@, id.1, id.0])));
    assert(same_series(me, mf, (Family::PoolsQueriesPercentile, seq!["99"@, id.1, id.0])));
    assert(same_series(mf, mg, (Family::PoolsQueriesPercentile, seq!["99"@, id.1, id.0])));
    assert(same_series(me, mf, (Family::PoolsTransactionsPercentile, seq!["99"@, id.1, id.0])));
    assert(same_series(mf, mg, (Family::PoolsTransactionsPercentile, seq!["99"@, id.1, id.0])));
    assert(same_series(me, mf, (Family::PoolsQueriesPercentile, seq!["95"@, id.1, id.0])));
    assert(same_series(mf, mg, (Family::PoolsQueriesPercentile, seq!["95"@, id.1, id.0])));
    assert(same_series(me, mf, (Family::PoolsTransactionsPercentile, seq!["95"@, id.1, id.0])));
    assert(same_series(mf, mg, (Family::PoolsTransactionsPercentile, seq!["95"@, id.1, id.0])));
    assert(same_series(me, mf, (Family::PoolsQueriesPercentile, seq!["90"@, id.1, id.0])));
    assert(same_series(mf, mg, (Family::PoolsQueriesPercentile, seq!["90"@, id.1, id.0])));
    assert(same_series(me, mf, (Family::PoolsTransactionsPercentile, seq!["90"@, id.1, id.0])));
    assert(same_series(mf, mg, (Family::PoolsTransactionsPercentile, seq!["90"@, id.1, id.0])));
    assert(same_series(me, mf, (Family::PoolsQueriesPercentile, seq!["50"@, id.1, id.0])));
    assert(same_series(mf, mg, (Family::PoolsQueriesPercentile, seq!["50"@, id.1, id.0])));
    assert(same_series(me, mf, (Family::PoolsTransactionsPercentile, seq!["50"@, id.1, id.0])));
    assert(same_series(mf, mg, (Family::PoolsTransactionsPercentile, seq!["50"@, id.1, id.0])));
    assert(same_series(mf, mg, (Family::PoolCacheEntries, seq![id.1, id.0])));
    assert(same_series(mf, mg, (Family::PoolCacheBytes, seq![id.1, id.0])));
    assert(same_series(mf, mg, (Family::ClientCacheEntries, seq![id.1, id.0])));
    assert(same_series(mf, mg, (Family::ClientCacheBytes, seq![id.1, id.0])));
    assert(same_series(mf, mg, (Family::ClientPreparedNamedEntries, seq![id.1, id.0])));
    assert(same_series(mf, mg, (Family::ClientPreparedAnonymousEntries, seq![id.1, id.0])));
    assert(same_series(mf, mg, (Family::AsyncClientsCount, seq![id.1, id.0])));
}

/// Every pool is shown.
proof fn all_pools_are_shown(
    m: update::AllShown,
    before: Seq<Change>,
    pools: Seq<(Id, PoolStats)>,
    i: int,
)
    requires
        string_map::unique_keys(pools),
        0 <= i < pools.len(),
    ensures
        shows_pool(update::all_applied(m, pools_shown(before, pools)), pools[i].0, pools[i].1),
    decreases pools.len(),
{
    let front = pools.drop_last();
    let n = pools.len() - 1;
    let shown = pools_shown(before, front);
    one_pool_is_shown(m, shown, pools[n].0, pools[n].1);
    if i < n {
        assert(string_map::unique_keys(front)) by {
            assert forall|x: int, y: int| 0 <= x < y < front.len() implies (#[trigger] front[x]).0 != (
            #[trigger] front[y]).0 by {
                assert(pools[x].0 != pools[y].0);
            }
        }
        all_pools_are_shown(m, before, front, i);
        assert(front[i] == pools[i]);
        assert(pools[i].0 != pools[n].0);
        let id = pools[i].0;
        let other = pools[n].0;
        let a = update::all_applied(m, shown);
        let b = update::all_applied(m, pool_shown(shown, other, pools[n].1));
        shows_pool_is_kept(a, b, id, pools[i].1);
    }
}

/// A pool is shown as long as no series of it is touched.
proof fn shows_pool_is_kept(a: update::AllShown, b: update::AllShown, id: Id, s: PoolStats)
    requires
        shows_pool(a, id, s),
        forall|f: Family, l: Labels|
            is_gauge(f) && of_pool(l, id) ==> #[trigger] same_series(a, b, (f, l)),
    ensures
        shows_pool(b, id, s),
{
    assert(same_series(a, b, (Family::PoolsAvgWaitTime, seq![id.1, id.0])));
    assert(same_series(a, b, (Family::PoolsTransactionsCount, seq![id.1, id.0])));
    assert(same_series(a, b, (Family::PoolsTransactionsTotalTime, seq![id.1, id.0])));
    assert(same_series(a, b, (Family::PoolsQueriesCount, seq![id.1, id.0])));
    assert(same_series(a, b, (Family::PoolsQueriesTotalTime, seq![id.1, id.0])));
    assert(same_series(a, b, (Family::PoolsServers, seq!["active"@, id.1, id.0])));
    assert(same_series(a, b, (Family::PoolsServers, seq!["idle"@, id.1, id.0])));
    assert(same_series(a, b, (Family::PoolsOldestActiveAgeMs, seq![id.1, id.0])));
    assert(same_series(a, b, (Family::PoolsClients, seq!["idle"@, id.1, id.0])));
    assert(same_series(a, b, (Family::PoolsClients, seq!["waiting"@, id.1, id.0])));
    assert(same_series(a, b, (Family::PoolsClients, seq!["active"@, id.1, id.0])));
    assert(same_series(a, b, (Family::PoolsBytes, seq!["received"@, id.1, id.0])));
    assert(same_series(a, b, (Family::PoolsBytes, seq!["sent"@, id.1, id.0])));
    assert(same_series(a, b, (Family::PoolsQueriesPercentile, seq!["99"@, id.1, id.0])));
    assert(same_series(a, b, (Family::PoolsTransactionsPercentile, seq!["99"@, id.1, id.0])));
    assert(same_series(a, b, (Family::PoolsQueriesPercentile, seq!["95"@, id.1, id.0])));
    assert(same_series(a, b, (Family::PoolsTransactionsPercentile, seq!["95"@, id.1, id.0])));
    assert(same_series(a, b, (Family::PoolsQueriesPercentile, seq!["90"@, id.1, id.0])));
    assert(same_series(a, b, (Family::PoolsTransactionsPercentile, seq!["90"@, id.1, id.0])));
    assert(same_series(a, b, (Family::PoolsQueriesPercentile, seq!["50"@, id.1, id.0])));
    assert(same_series(a, b, (Family::PoolsTransactionsPercentile, seq!["50"@, id.1, id.0])));
    assert(same_series(a, b, (Family::PoolCacheEntries, seq![id.1, id.0])));
    assert(same_series(a, b, (Family::PoolCacheBytes, seq![id.1, id.0])));
    assert(same_series(a, b, (Family::ClientCacheEntries, seq![id.1, id.0])));
    assert(same_series(a, b, (Family::ClientCacheBytes, seq![id.1, id.0])));
    assert(same_series(a, b, (Family::ClientPreparedNamedEntries, seq![id.1, id.0])));
    assert(same_series(a, b, (Family::ClientPreparedAnonymousEntries, seq![id.1, id.0])));
    assert(same_series(a, b, (Family::AsyncClientsCount, seq![id.1, id.0])));
    assert(same_series(a, b, (Family::PoolSize, seq![id.1, id.0])));
    assert(same_series(a, b, (Family::PoolsPaused, seq![id.1, id.0])));
    assert(same_series(a, b, (Family::PoolsMaxwaitMicroseconds, seq![id.1, id.0])));
}

/// A family that shows how a pool is, and not how often something happened.
pub open spec fn is_gauge(f: Family) -> bool {
    f != Family::PoolsQueriesTotal && f != Family::PoolsTransactionsTotal && f
        != Family::PoolsBytesTotal
}

/// After an export every pool is shown with its own numbers, whatever was shown before.
pub proof fn pools_show_their_numbers(
    m: update::AllShown,
    before: Seq<Change>,
    pools: Seq<(Id, PoolStats)>,
    queries: Seq<(Labels, Mark)>,
    transactions: Seq<(Labels, Mark)>,
    bytes: Seq<(Labels, Mark)>,
    i: int,
)
    requires
        string_map::unique_keys(pools),
        string_map::unique_keys(queries),
        string_map::unique_keys(transactions),
        string_map::unique_keys(bytes),
        0 <= i < pools.len(),
    ensures
        shows_pool(
            update::all_applied(
                m,
                pools_exported(before, pools, queries, transactions, bytes),
            ),
            pools[i].0,
            pools[i].1,
        ),
{
    let z = pools_shown(pools_reset(before), pools);
    let y = tracker::exported(z, Family::PoolsQueriesTotal, queries, query_samples(pools));
    let x = tracker::exported(
        y,
        Family::PoolsTransactionsTotal,
        transactions,
        transaction_samples(pools),
    );
    let w = tracker::exported(x, Family::PoolsBytesTotal, bytes, byte_samples(pools));
    all_pools_are_shown(m, pools_reset(before), pools, i);
    samples_differ(pools);
    let mz = update::all_applied(m, z);
    let mw = update::all_applied(m, w);
    assert forall|f: Family, l: Labels| is_gauge(f) && of_pool(l, pools[i].0) implies #[trigger] same_series(
        mz,
        mw,
        (f, l),
    ) by {
        tracker::exports_follow_the_sources(
            m,
            z,
            Family::PoolsQueriesTotal,
            queries,
            query_samples(pools),
            (f, l),
        );
        tracker::exports_follow_the_sources(
            m,
            y,
            Family::PoolsTransactionsTotal,
            transactions,
            transaction_samples(pools),
            (f, l),
        );
        tracker::exports_follow_the_sources(
            m,
            x,
            Family::PoolsBytesTotal,
            bytes,
            byte_samples(pools),
            (f, l),
        );
    }
    shows_pool_is_kept(mz, mw, pools[i].0, pools[i].1);
}

/// The samples of different pools have different labels.
proof fn samples_differ(pools: Seq<(Id, PoolStats)>)
    requires
        string_map::unique_keys(pools),
    ensures
        tracker::labels_differ(query_samples(pools)),
        tracker::labels_differ(transaction_samples(pools)),
        tracker::labels_differ(byte_samples(pools)),
        byte_samples(pools).len() == 2 * pools.len(),
        forall|i: int|
            0 <= i < pools.len() ==> {
                let id = (#[trigger] pools[i]).0;
                &&& byte_samples(pools)[2 * i].labels == seq!["received"@, id.1, id.0]
                &&& byte_samples(pools)[2 * i + 1].labels == seq!["sent"@, id.1, id.0]
                &&& byte_samples(pools)[2 * i].value == pools[i].1.bytes_received
                &&& byte_samples(pools)[2 * i + 1].value == pools[i].1.bytes_sent
                &&& byte_samples(pools)[2 * i].generation == pools[i].1.source_generation
                &&& byte_samples(pools)[2 * i + 1].generation == pools[i].1.source_generation
            },
{
    reveal_strlit("received");
    reveal_strlit("sent");
    bytes_in_order(pools);
    assert forall|i: int, j: int| 0 <= i < j < pools.len() implies (#[trigger] query_samples(
        pools,
    )[i]).labels != (#[trigger] query_samples(pools)[j]).labels by {
        assert(pools[i].0 != pools[j].0);
        let a = query_samples(pools)[i].labels;
        let b = query_samples(pools)[j].labels;
        assert(a[0] == pools[i].0.1 && a[1] == pools[i].0.0);
        assert(b[0] == pools[j].0.1 && b[1] == pools[j].0.0);
    }
    assert forall|i: int, j: int| 0 <= i < j < pools.len() implies (#[trigger] transaction_samples(
        pools,
    )[i]).labels != (#[trigger] transaction_samples(pools)[j]).labels by {
        assert(pools[i].0 != pools[j].0);
        let a = transaction_samples(pools)[i].labels;
        let b = transaction_samples(pools)[j].labels;
        assert(a[0] == pools[i].0.1 && a[1] == pools[i].0.0);
        assert(b[0] == pools[j].0.1 && b[1] == pools[j].0.0);
    }
    let t = byte_samples(pools);
    assert forall|i: int, j: int| 0 <= i < j < t.len() implies (#[trigger] t[i]).labels != (
    #[trigger] t[j]).labels by {
        let p = pools[i / 2].0;
        let q = pools[j / 2].0;
        assert(t[i].labels == seq![
            if i % 2 == 0 {
                "received"@
            } else {
                "sent"@
            },
            p.1,
            p.0,
        ]) by {
            assert(i == 2 * (i / 2) || i == 2 * (i / 2) + 1);
        }
        assert(t[j].labels == seq![
            if j % 2 == 0 {
                "received"@
            } else {
                "sent"@
            },
            q.1,
            q.0,
        ]) by {
            assert(j == 2 * (j / 2) || j == 2 * (j / 2) + 1);
        }
        assert("received"@.len() != "sent"@.len());
        assert(t[i].labels[0] != t[j].labels[0] || i / 2 != j / 2);
        if i / 2 != j / 2 {
            assert(p != q);
            assert(t[i].labels[1] == p.1 && t[i].labels[2] == p.0);
            assert(t[j].labels[1] == q.1 && t[j].labels[2] == q.0);
        }
    }
}

/// The bytes of each pool, two samples each.
proof fn bytes_in_order(pools: Seq<(Id, PoolStats)>)
    ensures
        byte_samples(pools).len() == 2 * pools.len(),
        forall|i: int|
            0 <= i < pools.len() ==> {
                let id = (#[trigger] pools[i]).0;
                &&& byte_samples(pools)[2 * i] == (Sample {
                    labels: seq!["received"@, id.1, id.0],
                    generation: pools[i].1.source_generation,
                    value: pools[i].1.bytes_received,
                })
                &&& byte_samples(pools)[2 * i + 1] == (Sample {
                    labels: seq!["sent"@, id.1, id.0],
                    generation: pools[i].1.source_generation,
                    value: pools[i].1.bytes_sent,
                })
            },
    decreases pools.len(),
{
    if pools.len() > 0 {
        let front = pools.drop_last();
        bytes_in_order(front);
        assert forall|i: int| 0 <= i < pools.len() implies ({
            let id = (#[trigger] pools[i]).0;
            &&& byte_samples(pools)[2 * i] == (Sample {
                labels: seq!["received"@, id.1, id.0],
                generation: pools[i].1.source_generation,
                value: pools[i].1.bytes_received,
            })
            &&& byte_samples(pools)[2 * i + 1] == (Sample {
                labels: seq!["sent"@, id.1, id.0],
                generation: pools[i].1.source_generation,
                value: pools[i].1.bytes_sent,
            })
        }) by {
            if i < front.len() {
                assert(front[i] == pools[i]);
                assert(byte_samples(pools)[2 * i] == byte_samples(front)[2 * i]);
                assert(byte_samples(pools)[2 * i + 1] == byte_samples(front)[2 * i + 1]);
            }
        }
    }
}

/// After an export the totals of a pool have grown by what the pool has counted since:
/// its queries, its transactions, and what it has received and sent.
pub proof fn pool_totals_grow(
    m: update::AllShown,
    before: Seq<Change>,
    pools: Seq<(Id, PoolStats)>,
    queries: Seq<(Labels, Mark)>,
    transactions: Seq<(Labels, Mark)>,
    bytes: Seq<(Labels, Mark)>,
    i: int,
)
    requires
        string_map::unique_keys(pools),
        string_map::unique_keys(queries),
        string_map::unique_keys(transactions),
        string_map::unique_keys(bytes),
        0 <= i < pools.len(),
        // The pool was not seen before.
        !string_map::has_key(queries, seq![pools[i].0.1, pools[i].0.0]),
        !string_map::has_key(transactions, seq![pools[i].0.1, pools[i].0.0]),
        !string_map::has_key(bytes, seq!["received"@, pools[i].0.1, pools[i].0.0]),
        !string_map::has_key(bytes, seq!["sent"@, pools[i].0.1, pools[i].0.0]),
    ensures
        ({
            let id = pools[i].0;
            let s = pools[i].1;
            let z = update::all_applied(m, pools_shown(pools_reset(before), pools));
            let w = update::all_applied(
                m,
                pools_exported(before, pools, queries, transactions, bytes),
            );
            let two = seq![id.1, id.0];
            &&& series(w, Family::PoolsQueriesTotal, two) == series(
                z,
                Family::PoolsQueriesTotal,
                two,
            ) + 1000 * s.total_query_count
            &&& series(w, Family::PoolsTransactionsTotal, two) == series(
                z,
                Family::PoolsTransactionsTotal,
                two,
            ) + 1000 * s.total_xact_count
            &&& series(w, Family::PoolsBytesTotal, seq!["received"@, id.1, id.0]) == series(
                z,
                Family::PoolsBytesTotal,
                seq!["received"@, id.1, id.0],
            ) + 1000 * s.bytes_received
            &&& series(w, Family::PoolsBytesTotal, seq!["sent"@, id.1, id.0]) == series(
                z,
                Family::PoolsBytesTotal,
                seq!["sent"@, id.1, id.0],
            ) + 1000 * s.bytes_sent
        }),
{
    let id = pools[i].0;
    let z = pools_shown(pools_reset(before), pools);
    let qs = query_samples(pools);
    let ts = transaction_samples(pools);
    let bs = byte_samples(pools);
    let y = tracker::exported(z, Family::PoolsQueriesTotal, queries, qs);
    let x = tracker::exported(y, Family::PoolsTransactionsTotal, transactions, ts);
    samples_differ(pools);
    let two = seq![id.1, id.0];
    let k1 = (Family::PoolsQueriesTotal, two);
    let k2 = (Family::PoolsTransactionsTotal, two);
    let k3 = (Family::PoolsBytesTotal, seq!["received"@, id.1, id.0]);
    let k4 = (Family::PoolsBytesTotal, seq!["sent"@, id.1, id.0]);
    tracker::exports_follow_the_sources(m, z, Family::PoolsQueriesTotal, queries, qs, k1);
    tracker::exports_follow_the_sources(m, z, Family::PoolsQueriesTotal, queries, qs, k2);
    tracker::exports_follow_the_sources(m, z, Family::PoolsQueriesTotal, queries, qs, k3);
    tracker::exports_follow_the_sources(m, z, Family::PoolsQueriesTotal, queries, qs, k4);
    tracker::exports_follow_the_sources(m, y, Family::PoolsTransactionsTotal, transactions, ts, k1);
    tracker::exports_follow_the_sources(m, y, Family::PoolsTransactionsTotal, transactions, ts, k2);
    tracker::exports_follow_the_sources(m, y, Family::PoolsTransactionsTotal, transactions, ts, k3);
    tracker::exports_follow_the_sources(m, y, Family::PoolsTransactionsTotal, transactions, ts, k4);
    tracker::exports_follow_the_sources(m, x, Family::PoolsBytesTotal, bytes, bs, k1);
    tracker::exports_follow_the_sources(m, x, Family::PoolsBytesTotal, bytes, bs, k2);
    tracker::exports_follow_the_sources(m, x, Family::PoolsBytesTotal, bytes, bs, k3);
    tracker::exports_follow_the_sources(m, x, Family::PoolsBytesTotal, bytes, bs, k4);
    assert(qs[i].labels == two && ts[i].labels == two);
    assert(bs[2 * i].labels == k3.1 && bs[2 * i + 1].labels == k4.1);
}

/// A pool that is gone is not shown any more.
pub proof fn pools_that_are_gone_show_nothing(
    m: update::AllShown,
    before: Seq<Change>,
    pools: Seq<(Id, PoolStats)>,
    f: Family,
    l: Labels,
)
    requires
        f == Family::PoolsClients || f == Family::PoolsServers || f == Family::PoolsOldestActiveAgeMs || f == Family::PoolsBytes || f == Family::PoolsQueriesPercentile || f == Family::PoolsTransactionsPercentile || f == Family::PoolsAvgWaitTime || f == Family::PoolsTransactionsCount || f == Family::PoolsTransactionsTotalTime || f == Family::PoolsQueriesCount || f == Family::PoolsQueriesTotalTime || f == Family::PoolSize || f == Family::PoolsPaused || f == Family::PoolsMaxwaitMicroseconds,
        forall|i: int| 0 <= i < pools.len() ==> !of_pool(l, (#[trigger] pools[i]).0),
    ensures
        !update::all_applied(m, pools_shown(pools_reset(before), pools)).contains_key((f, l)),
    decreases pools.len(),
{
    if pools.len() == 0 {
        pushes_apply(m);
    } else {
        let front = pools.drop_last();
        let n = pools.len() - 1;
        assert forall|i: int| 0 <= i < front.len() implies !of_pool(l, (#[trigger] front[i]).0) by {
            assert(front[i] == pools[i]);
        }
        pools_that_are_gone_show_nothing(m, before, front, f, l);
        let shown = pools_shown(pools_reset(before), front);
        one_pool_is_shown(m, shown, pools[n].0, pools[n].1);
        assert(!of_pool(l, pools[n].0));
        assert(same_series(
            update::all_applied(m, shown),
            update::all_applied(m, pool_shown(shown, pools[n].0, pools[n].1)),
            (f, l),
        ));
    }
}

} // verus!
