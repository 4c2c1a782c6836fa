use pg_doorman::config::{Config, General, Pool as ConfigPool, PoolMode, User};
use pg_doorman::pool::id_map::{IdMap, PoolIdentifier};
use pg_doorman::pool::registry::Registry;
use pg_doorman::string_map::StringMap;
use pg_doorman::web::metrics::auth_query::AuthQueryStats;
use pg_doorman::web::metrics::coordinators::CoordinatorStats;
use pg_doorman::web::metrics::exporter::{
    observe_anonymous_eviction, observe_pool_query_microseconds,
    observe_pool_transaction_microseconds, observe_pool_wait_microseconds, observe_streaming_bytes,
    observe_streaming_event, record_interner_gc, record_listener_rejection, record_synthetic_miss,
    refresh_static_info_metrics, update_metrics, ConnectionCounts, Exporter, GcStats, Readings,
    SocketCounts,
};
use pg_doorman::web::metrics::pools::PoolStats;
use pg_doorman::web::metrics::servers::{AddressStats, ServerStats};
use pg_doorman::web::metrics::tracker::{classify_sqlstate, CounterDeltaTracker};
use pg_doorman::web::metrics::update::{Family, Op, Update};
use prometheus::{HistogramOpts, HistogramVec, IntCounter};

#[test]
fn class_08_collapses_connection_exception_codes() {
    assert_eq!(classify_sqlstate("08000"), "08");
    assert_eq!(classify_sqlstate("08003"), "08");
    assert_eq!(classify_sqlstate("08006"), "08");
    assert_eq!(classify_sqlstate("08P01"), "08");
}

#[test]
fn class_53_collapses_insufficient_resources_codes() {
    assert_eq!(classify_sqlstate("53000"), "53");
    assert_eq!(classify_sqlstate("53100"), "53");
    assert_eq!(classify_sqlstate("53200"), "53");
    assert_eq!(classify_sqlstate("53300"), "53");
}

#[test]
fn class_57_collapses_operator_intervention_codes() {
    assert_eq!(classify_sqlstate("57000"), "57");
    assert_eq!(classify_sqlstate("57014"), "57");
    assert_eq!(classify_sqlstate("57P01"), "57");
    assert_eq!(classify_sqlstate("57P03"), "57");
}

#[test]
fn special_codes_keep_their_full_value() {
    assert_eq!(classify_sqlstate("25P02"), "25P02");
    assert_eq!(classify_sqlstate("26000"), "26000");
}

#[test]
fn unknown_codes_collapse_into_other() {
    assert_eq!(classify_sqlstate("23505"), "other");
    assert_eq!(classify_sqlstate("42P01"), "other");
    assert_eq!(classify_sqlstate("XX000"), "other");
    assert_eq!(classify_sqlstate(""), "other");
}

#[test]
fn other_class_25_codes_do_not_steal_25p02_label() {
    assert_eq!(classify_sqlstate("25000"), "other");
    assert_eq!(classify_sqlstate("25001"), "other");
    assert_eq!(classify_sqlstate("25P01"), "other");
}

/// A histogram with the labels of a pool.
fn histogram(name: &str) -> HistogramVec {
    HistogramVec::new(HistogramOpts::new(name, "test histogram"), &["user", "database"]).unwrap()
}

/// Counts a duration as an exporter does.
fn observe(histogram: &HistogramVec, update: &Update) {
    match update.op {
        Op::Observe(microseconds) => {
            let labels: Vec<&str> = update.labels.iter().map(|l| l.as_str()).collect();
            histogram.with_label_values(&labels).observe(microseconds as f64 / 1_000_000.0);
        }
        _ => panic!("no duration"),
    }
}

#[test]
fn pool_transaction_observe_drops_zero_microseconds() {
    let user = "zero_obs_user";
    let database = "zero_obs_db";
    let vec = histogram("transaction_duration");
    let child = vec.with_label_values(&[user, database]);

    let before = child.get_sample_count();
    assert!(observe_pool_transaction_microseconds(user, database, 0).is_none());
    assert_eq!(child.get_sample_count(), before);

    observe(&vec, &observe_pool_transaction_microseconds(user, database, 1).unwrap());
    assert_eq!(child.get_sample_count(), before + 1);
}

#[test]
fn pool_query_observe_records_zero_microseconds() {
    let user = "zero_q_user";
    let database = "zero_q_db";
    let vec = histogram("query_duration");
    let child = vec.with_label_values(&[user, database]);

    let before = child.get_sample_count();
    observe(&vec, &observe_pool_query_microseconds(user, database, 0));
    assert_eq!(child.get_sample_count(), before + 1);
}

#[test]
fn pool_wait_observe_records_zero_microseconds() {
    let user = "zero_w_user";
    let database = "zero_w_db";
    let vec = histogram("wait_duration");
    let child = vec.with_label_values(&[user, database]);

    let before = child.get_sample_count();
    observe(&vec, &observe_pool_wait_microseconds(user, database, 0));
    assert_eq!(child.get_sample_count(), before + 1);
}

fn key(name: &str) -> Vec<String> {
    vec![name.to_string()]
}

#[test]
fn counter_delta_tracker_emits_post_reset_delta_only_once() {
    let mut tracker = CounterDeltaTracker::new();
    let counter = IntCounter::new("pg_doorman_test_reset_counter", "test counter").unwrap();

    let gen_a = 1u64;
    let gen_b = 2u64;

    counter.inc_by(tracker.observe(key("key"), gen_a, 1_000));
    assert_eq!(counter.get(), 1_000, "first observe sets the baseline");

    counter.inc_by(tracker.observe(key("key"), gen_a, 10));
    assert_eq!(
        counter.get(),
        1_010,
        "source reset within same generation emits `current` as the delta",
    );

    counter.inc_by(tracker.observe(key("key"), gen_a, 10));
    assert_eq!(
        counter.get(),
        1_010,
        "the same source value on the next scrape must not produce more increments",
    );

    counter.inc_by(tracker.observe(key("key"), gen_a, 15));
    assert_eq!(counter.get(), 1_015, "subsequent growth advances by the actual delta");

    counter.inc_by(tracker.observe(key("key"), gen_b, 1_500));
    assert_eq!(
        counter.get(),
        1_015 + 1_500,
        "different generation emits the new cumulative as the delta",
    );

    counter.inc_by(tracker.observe(key("key"), gen_b, 1_600));
    assert_eq!(
        counter.get(),
        1_015 + 1_500 + 100,
        "subsequent scrapes within the same generation use the in-generation delta",
    );
}

#[test]
fn counter_delta_tracker_drain_stale_forgets_removed_keys() {
    let mut tracker = CounterDeltaTracker::new();
    let counter = IntCounter::new("pg_doorman_test_stale_counter", "test counter").unwrap();

    counter.inc_by(tracker.observe(key("alive"), 1, 5));
    counter.inc_by(tracker.observe(key("stale"), 1, 7));

    let stale = tracker.drain_stale(&vec![key("alive")]);
    assert_eq!(stale, vec![key("stale")]);

    counter.inc_by(tracker.observe(key("stale"), 2, 100));
    assert_eq!(
        counter.get(),
        5 + 7 + 100,
        "drained keys are forgotten — re-observing emits from zero",
    );
}

fn is(u: &Update, family: Family, op: Op, labels: &[&str]) -> bool {
    u.family == family && u.op == op && u.labels == labels
}

fn has(out: &[Update], family: Family, op: Op, labels: &[&str]) -> bool {
    out.iter().any(|u| is(u, family, op, labels))
}

fn readings() -> Readings {
    Readings {
        memory: 4096,
        connections: ConnectionCounts { plain: 3, tls: 2, cancel: 1, total: 6 },
        sockets: SocketCounts::Counted { tcp: 1, tcp6: 2, unix: 3, unknown: 4 },
        pools: IdMap::new(),
        addresses: IdMap::new(),
        servers: Vec::new(),
        auth_queries: StringMap::new(),
        coordinators: StringMap::new(),
    }
}

#[test]
fn process_counters_grow_by_what_is_new() {
    let registry = Registry::new();
    let mut exporter = Exporter::new();
    let out = update_metrics(&mut exporter, &readings(), &registry);
    assert!(is(&out[0], Family::TotalMemory, Op::Show(4096), &[]));
    assert!(has(&out, Family::Connections, Op::Show(2), &["tls"]));
    assert!(has(&out, Family::ConnectionsTotal, Op::Add(2), &["tls"]));
    assert!(has(&out, Family::Sockets, Op::Show(4), &["unknown"]));

    let mut later = readings();
    later.connections.tls = 5;
    later.sockets = SocketCounts::Failed;
    let out = update_metrics(&mut exporter, &later, &registry);
    assert!(has(&out, Family::ConnectionsTotal, Op::Add(3), &["tls"]));
    assert!(has(&out, Family::ConnectionsTotal, Op::Add(0), &["plain"]));
    assert!(has(&out, Family::Sockets, Op::Reset, &[]));
}

#[test]
fn pool_counters_survive_a_reload_and_go_with_their_pool() {
    let registry = Registry::new();
    let mut exporter = Exporter::new();
    let pool = |generation: u64, queries: u64| {
        let mut r = readings();
        r.pools.insert(
            PoolIdentifier::new("db", "user"),
            PoolStats {
                source_generation: generation,
                total_query_count: queries,
                avg_wait_time: 1_500,
                paused: true,
                ..PoolStats::default()
            },
        );
        r
    };
    let labels = ["user", "db"];
    let out = update_metrics(&mut exporter, &pool(1, 10), &registry);
    assert!(has(&out, Family::PoolsQueriesTotal, Op::Add(10), &labels));
    assert!(has(&out, Family::PoolsAvgWaitTime, Op::ShowThousandths(1_500), &labels));
    assert!(has(&out, Family::PoolsPaused, Op::Show(1), &labels));
    assert!(has(&out, Family::PoolsBytesTotal, Op::Add(0), &["sent", "user", "db"]));
    // The same values once more add nothing.
    let out = update_metrics(&mut exporter, &pool(1, 10), &registry);
    assert!(has(&out, Family::PoolsQueriesTotal, Op::Add(0), &labels));
    // A rebuilt pool has counted from nothing.
    let out = update_metrics(&mut exporter, &pool(2, 25), &registry);
    assert!(has(&out, Family::PoolsQueriesTotal, Op::Add(25), &labels));
    let out = update_metrics(&mut exporter, &readings(), &registry);
    assert!(has(&out, Family::PoolsQueriesTotal, Op::Remove, &labels));
    assert!(has(&out, Family::PoolsBytesTotal, Op::Remove, &["received", "user", "db"]));
}

#[test]
fn errors_are_counted_per_class() {
    let registry = Registry::new();
    let mut exporter = Exporter::new();
    let mut r = readings();
    r.addresses.insert(
        PoolIdentifier::new("db", "user"),
        AddressStats {
            generation: 1,
            server_cleanup_ok: 4,
            server_cleanup_error: 1,
            errors_by_sqlstate: vec![
                ("08006".to_string(), 2),
                ("23505".to_string(), 1),
                ("08001".to_string(), 3),
            ],
        },
    );
    let out = update_metrics(&mut exporter, &r, &registry);
    assert!(has(&out, Family::PoolsErrorsTotal, Op::Add(5), &["user", "db", "08"]));
    assert!(has(&out, Family::PoolsErrorsTotal, Op::Add(1), &["user", "db", "other"]));
    assert!(has(&out, Family::ServerCleanupTotal, Op::Add(4), &["user", "db", "ok"]));
    assert!(has(&out, Family::ServerCleanupTotal, Op::Add(1), &["user", "db", "error"]));
}

#[test]
fn backends_are_summed_up_per_pool() {
    let registry = Registry::new();
    let mut exporter = Exporter::new();
    let mut r = readings();
    let server = |id: u64, hits: u64, tls: bool| ServerStats {
        id,
        username: "user".to_string(),
        pool_name: "db".to_string(),
        prepared_hit_count: hits,
        prepared_miss_count: 1,
        tls,
    };
    r.servers = vec![server(1, 3, true), server(2, 4, false)];
    let out = update_metrics(&mut exporter, &r, &registry);
    let labels = ["user", "db"];
    assert!(has(&out, Family::ServersPreparedHits, Op::Show(7), &labels));
    assert!(has(&out, Family::ServersPreparedMissesTotal, Op::Add(2), &labels));
    let tls: Vec<&Update> = out
        .iter()
        .filter(|u| is(u, Family::ServerTlsConnections, Op::Add(1), &["db"]))
        .collect();
    assert_eq!(tls.len(), 1);
}

#[test]
fn prepared_totals_are_stable_when_backends_rotate() {
    let registry = Registry::new();
    let mut exporter = Exporter::new();
    let server = |id: u64, hits: u64, misses: u64| ServerStats {
        id,
        username: "user".to_string(),
        pool_name: "db".to_string(),
        prepared_hit_count: hits,
        prepared_miss_count: misses,
        tls: false,
    };
    let labels = ["user", "db"];
    let mut r = readings();
    r.servers = vec![server(1, 100, 10), server(2, 50, 5)];
    let out = update_metrics(&mut exporter, &r, &registry);
    assert!(has(&out, Family::ServersPreparedHitsTotal, Op::Add(150), &labels));
    assert!(has(&out, Family::ServersPreparedMissesTotal, Op::Add(15), &labels));
    // The first backend is gone, and nothing was counted.
    r.servers = vec![server(2, 50, 5)];
    let out = update_metrics(&mut exporter, &r, &registry);
    assert!(has(&out, Family::ServersPreparedHits, Op::Show(50), &labels));
    assert!(has(&out, Family::ServersPreparedHitsTotal, Op::Add(0), &labels));
    assert!(has(&out, Family::ServersPreparedMissesTotal, Op::Add(0), &labels));
    // A new backend counts from nothing, while the other one goes on.
    r.servers = vec![server(2, 51, 5), server(3, 7, 2)];
    let out = update_metrics(&mut exporter, &r, &registry);
    assert!(has(&out, Family::ServersPreparedHitsTotal, Op::Add(8), &labels));
    assert!(has(&out, Family::ServersPreparedMissesTotal, Op::Add(2), &labels));
    // Without backends the series goes.
    let out = update_metrics(&mut exporter, &readings(), &registry);
    assert!(has(&out, Family::ServersPreparedHitsTotal, Op::Remove, &labels));
}

#[test]
fn a_replaced_limit_counts_from_nothing() {
    let registry = Registry::new();
    let mut exporter = Exporter::new();
    let limit = |identity: u64, evictions: u64| {
        let mut r = readings();
        r.coordinators.insert(
            "db".to_string(),
            CoordinatorStats {
                identity,
                evictions_total: evictions,
                ..CoordinatorStats::default()
            },
        );
        r
    };
    let labels = ["evictions", "db"];
    let out = update_metrics(&mut exporter, &limit(1, 7), &registry);
    assert!(has(&out, Family::CoordinatorTotal, Op::Add(7), &labels));
    let out = update_metrics(&mut exporter, &limit(1, 9), &registry);
    assert!(has(&out, Family::CoordinatorTotal, Op::Add(2), &labels));
    let out = update_metrics(&mut exporter, &limit(2, 3), &registry);
    assert!(has(&out, Family::CoordinatorTotal, Op::Remove, &labels));
    assert!(has(&out, Family::CoordinatorTotal, Op::Add(3), &labels));
    let out = update_metrics(&mut exporter, &readings(), &registry);
    assert!(has(&out, Family::Coordinator, Op::Remove, &["connections", "db"]));
}

#[test]
fn lookups_show_their_dynamic_pools() {
    let mut registry = Registry::new();
    registry.dynamic.insert(PoolIdentifier::new("db", "a"), ());
    registry.dynamic.insert(PoolIdentifier::new("db", "b"), ());
    registry.dynamic.insert(PoolIdentifier::new("other", "a"), ());
    let mut exporter = Exporter::new();
    let mut r = readings();
    r.auth_queries.insert(
        "db".to_string(),
        AuthQueryStats { generation: 1, cache_hits: 5, ..AuthQueryStats::default() },
    );
    let out = update_metrics(&mut exporter, &r, &registry);
    assert!(has(&out, Family::AuthQueryDynamicPools, Op::Show(2), &["current", "db"]));
    assert!(has(&out, Family::AuthQueryCacheTotal, Op::Add(5), &["hits", "db"]));
}

#[test]
fn single_events_count_once() {
    assert!(is(
        &observe_anonymous_eviction("u", "d"),
        Family::ClientPreparedAnonymousEvictionsTotal,
        Op::Add(1),
        &["u", "d"]
    ));
    assert!(is(
        &record_synthetic_miss(),
        Family::QueryInternerSyntheticMissesTotal,
        Op::Add(1),
        &[]
    ));
    assert!(is(
        &observe_streaming_event("u", "d", "data_row", "ok"),
        Family::StreamingEventsTotal,
        Op::Add(1),
        &["u", "d", "data_row", "ok"]
    ));
    assert!(is(
        &observe_streaming_bytes("u", "d", "data_row", 77),
        Family::StreamingBytesTotal,
        Op::Add(77),
        &["u", "d", "data_row"]
    ));
    assert!(is(
        &record_listener_rejection("hba"),
        Family::ListenerRejectionsTotal,
        Op::Add(1),
        &["hba"]
    ));
}

#[test]
fn a_sweep_shows_what_is_left() {
    let out = record_interner_gc(
        GcStats { evicted: 2, bytes: 30 },
        GcStats { evicted: 4, bytes: 50 },
        6,
        7,
    );
    assert!(is(
        &out[0],
        Family::QueryInternerEvictionsTotal,
        Op::Add(2),
        &["named", "gc_passive"]
    ));
    assert!(is(
        &out[1],
        Family::QueryInternerEvictionsTotal,
        Op::Add(4),
        &["anonymous", "ttl_expired"]
    ));
    assert!(is(&out[3], Family::QueryInternerEntries, Op::Show(7), &["anonymous"]));
    assert!(is(&out[4], Family::QueryInternerBytes, Op::Show(30), &["named"]));
}

#[test]
fn configured_users_are_shown_with_their_mode() {
    let mut pools = StringMap::new();
    pools.insert(
        "db".to_string(),
        ConfigPool {
            pool_mode: PoolMode::Session,
            users: vec![User { username: "alice".to_string(), ..User::default() }],
            ..ConfigPool::default()
        },
    );
    let config = Config { general: General::default(), pools };
    let out = refresh_static_info_metrics(&config, "1.2.3", "info");
    assert_eq!(out.len(), 5);
    assert!(is(&out[0], Family::BuildInfo, Op::Show(1), &["1.2.3"]));
    assert!(is(&out[1], Family::UsersConfigured, Op::Reset, &[]));
    assert!(is(&out[2], Family::UsersConfigured, Op::Show(1), &["alice", "db", "session"]));
    assert!(is(&out[3], Family::LogLevel, Op::Reset, &[]));
    assert!(is(&out[4], Family::LogLevel, Op::Show(1), &["info"]));
}
