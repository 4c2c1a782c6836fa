use pg_doorman::config::{
    Address, AuthQueryConfig, BackendAuthMethod, Config, General, Pool as ConfigPool, ServerTlsConfig, ServerTlsMode,
    User,
};
use pg_doorman::errors::{Error, ServerIdentifier};
use pg_doorman::pool::connection_pool::{per_user_overlay_hash, ConnectionPool, PoolSettings};
use pg_doorman::pool::dynamic::{
    create_dynamic_pool, drop_dynamic_pool_if_overlay_drifted, DynamicPool,
};
use pg_doorman::pool::fallback::{
    deadline_error, first_round_ended, format_target_list, race_wave, round_begun,
    second_round_ended, single_round_ended, wave_ended, BlacklistCheck, FailureSummary,
    FallbackConfig, FallbackStep, FallbackTarget, Role, RoundPlan, RoundStep, TargetSource,
    TargetStep,
};
use pg_doorman::pool::gc::gc_idle_dynamic_pools;
use pg_doorman::pool::id_map::PoolIdentifier;
use pg_doorman::pool::inner::{anticipation_cap, burst_gate_budget};
use pg_doorman::pool::registry::{
    commit_init, drop_dynamic_pool, get_all_pools, get_auth_query_state, get_coordinator, get_pool,
    get_pool_config, is_dynamic_pool, pool_exists, register_dynamic_pool,
    resolve_client_anon_cache_size, Registry,
};
use pg_doorman::pool::retain::{drain_all_pools, random_order, retain_connections};
use pg_doorman::pool::server_pool::{
    build_resolved_startup, Attempt, BudgetDecision, CreateStep, RecycleError, RecycleStep,
    ServerPool, CREATE_BACKOFF_MS,
};
use pg_doorman::pool::startup_resolver::{resolve_with_sources, ParameterSource};
use pg_doorman::pool::types::Metrics;
use pg_doorman::server::parameters::ServerParameters;
use pg_doorman::server::prepared_statements::PreparedCache;
use pg_doorman::server::protocol_io::Received;
use pg_doorman::server::server_backend::{CloseReason, Server};
use pg_doorman::server::startup::{blamed_key, Handshake, SessionOptions};
use pg_doorman::string_map::StringMap;

fn map(entries: &[(&str, &str)]) -> StringMap<String> {
    let mut m = StringMap::new();
    for (k, v) in entries {
        m.insert(k.to_string(), v.to_string());
    }
    m
}

fn lookup(server_user: Option<&str>) -> AuthQueryConfig {
    AuthQueryConfig {
        query: "SELECT 1".to_string(),
        user: "doorman".to_string(),
        password: "SECRET-REDACTED".to_string(),
        server_user: server_user.map(str::to_owned),
        server_password: None,
        pool_size: 7,
        min_pool_size: 0,
    }
}

fn pool_for(users: &[&str], auth_query: Option<AuthQueryConfig>) -> ConfigPool {
    ConfigPool {
        users: users
            .iter()
            .map(|u| User { username: u.to_string(), ..User::default() })
            .collect(),
        auth_query,
        ..ConfigPool::default()
    }
}

fn config(pools: Vec<(&str, ConfigPool)>) -> Config {
    let mut m = StringMap::new();
    for (name, pool) in pools {
        m.insert(name.to_string(), pool);
    }
    Config { general: General::default(), pools: m }
}

fn loaded(config: &Config) -> StringMap<Result<ServerTlsConfig, Error>> {
    let mut m = StringMap::new();
    for i in 0..config.pools.len() {
        m.insert(config.pools.key(i).clone(), Ok(ServerTlsConfig::default()));
    }
    m
}

fn reload(registry: &mut Registry, config: &Config) -> pg_doorman::pool::reload::Reloaded {
    ConnectionPool::from_config(registry, config, &loaded(config)).unwrap()
}

#[test]
fn a_reload_without_changes_keeps_every_pool() {
    let mut registry = Registry::new();
    let c = config(vec![("db", pool_for(&["alice", "bob"], None))]);
    reload(&mut registry, &c);
    assert_eq!(get_all_pools(&registry).len(), 2);
    let id = PoolIdentifier::new("db", "alice");
    let mut alice = registry.pools.remove(&id).unwrap();
    alice.replenish_failures = 3;
    registry.pools.insert(id, alice);

    let done = reload(&mut registry, &c);
    assert!(done.retired.is_empty());
    assert_eq!(get_pool(&registry, "db", "alice").unwrap().replenish_failures, 3);
}

#[test]
fn a_changed_pool_is_rebuilt_and_a_removed_one_goes() {
    let mut registry = Registry::new();
    reload(&mut registry, &config(vec![
        ("db", pool_for(&["alice"], None)),
        ("old", pool_for(&["carol"], None)),
    ]));
    assert!(pool_exists(&registry, "old", "carol"));
    let changed = ConfigPool { server_port: 6000, ..pool_for(&["alice"], None) };
    let done = reload(&mut registry, &config(vec![("db", changed)]));
    assert_eq!(done.retired.len(), 2);
    assert!(!pool_exists(&registry, "old", "carol"));
    assert_eq!(get_pool(&registry, "db", "alice").unwrap().address().port, 6000);
}

#[test]
fn a_broken_certificate_stops_a_reload() {
    let mut registry = Registry::new();
    let c = config(vec![("db", pool_for(&["alice"], None))]);
    let mut tls = StringMap::new();
    tls.insert("db".to_string(), Err(Error::BadConfig("no such file".to_string())));
    match ConnectionPool::from_config(&mut registry, &c, &tls) {
        Err(Error::BadConfig(m)) => assert!(m.contains("no such file")),
        Err(other) => panic!("unexpected {other:?}"),
        Ok(_) => panic!("expected a failure"),
    }
}

#[test]
fn a_limited_database_has_a_coordinator() {
    let mut registry = Registry::new();
    let limited = ConfigPool { max_db_connections: Some(5), ..pool_for(&["alice"], None) };
    reload(&mut registry, &config(vec![("db", limited)]));
    assert_eq!(get_coordinator(&registry, "db").unwrap().config.max_db_connections, 5);
    assert!(get_pool(&registry, "db", "alice").unwrap().database.setup.limited);
    assert!(get_coordinator(&registry, "other").is_none());
}

fn log_in(
    registry: &mut Registry,
    c: &Config,
    db: &str,
    user: &str,
    overlay: &StringMap<String>,
) -> Result<DynamicPool, Error> {
    let hash = per_user_overlay_hash(overlay);
    create_dynamic_pool(
        registry,
        c,
        Ok(ServerTlsConfig::default()),
        db,
        user,
        None,
        overlay,
        hash,
    )
}

#[test]
fn a_looked_up_user_gets_a_pool_and_keeps_it() {
    let mut registry = Registry::new();
    let c = config(vec![("db", pool_for(&[], Some(lookup(None))))]);
    reload(&mut registry, &c);
    assert!(get_auth_query_state(&registry, "db").is_some());
    let overlay = map(&[("work_mem", "64MB")]);
    let first = log_in(&mut registry, &c, "db", "eve", &overlay).unwrap();
    assert!(matches!(first, DynamicPool::Created { .. }));
    let id = PoolIdentifier::new("db", "eve");
    assert!(is_dynamic_pool(&registry, &id));
    let again = log_in(&mut registry, &c, "db", "eve", &overlay).unwrap();
    assert!(matches!(again, DynamicPool::Existing));
    // Other startup parameters need another pool.
    let other = log_in(&mut registry, &c, "db", "eve", &map(&[("work_mem", "1MB")])).unwrap();
    assert!(matches!(other, DynamicPool::Created { .. }));
    let pool = get_pool(&registry, "db", "eve").unwrap();
    let sent = pool.database.server_pool().resolved_startup_parameters().unwrap();
    assert_eq!(sent.get("work_mem").unwrap(), "1MB");
}

#[test]
fn a_login_does_not_replace_a_configured_pool() {
    let mut registry = Registry::new();
    let c = config(vec![("db", pool_for(&["alice"], Some(lookup(None))))]);
    reload(&mut registry, &c);
    let before = get_pool(&registry, "db", "alice").unwrap().config_hash;
    let r = log_in(&mut registry, &c, "db", "alice", &map(&[("work_mem", "1MB")])).unwrap();
    assert!(matches!(r, DynamicPool::Existing));
    assert_eq!(get_pool(&registry, "db", "alice").unwrap().config_hash, before);
}

#[test]
fn a_login_leaves_the_identity_of_a_configured_pool_alone() {
    let mut registry = Registry::new();
    let c = config(vec![("db", pool_for(&["alice"], Some(lookup(None))))]);
    reload(&mut registry, &c);
    log_in(&mut registry, &c, "db", "eve", &map(&[])).unwrap();
    for user in ["alice", "eve"] {
        let id = PoolIdentifier::new("db", user);
        let mut pool = registry.pools.remove(&id).unwrap();
        pool.backend_auth = Some(BackendAuthMethod::ScramPending);
        let hash = pool.per_user_startup_overlay_hash;
        registry.pools.insert(id, pool);
        create_dynamic_pool(
            &mut registry,
            &c,
            Ok(ServerTlsConfig::default()),
            "db",
            user,
            Some(BackendAuthMethod::Md5PassTheHash("md5".to_string())),
            &map(&[]),
            hash,
        )
        .unwrap();
    }
    assert!(matches!(
        get_pool(&registry, "db", "alice").unwrap().backend_auth,
        Some(BackendAuthMethod::ScramPending)
    ));
    assert!(matches!(
        get_pool(&registry, "db", "eve").unwrap().backend_auth,
        Some(BackendAuthMethod::Md5PassTheHash(_))
    ));
}

#[test]
fn a_drifted_pool_is_handed_out() {
    let mut registry = Registry::new();
    let c = config(vec![("db", pool_for(&["alice"], Some(lookup(None))))]);
    reload(&mut registry, &c);
    log_in(&mut registry, &c, "db", "eve", &map(&[])).unwrap();
    let alice = PoolIdentifier::new("db", "alice");
    let eve = PoolIdentifier::new("db", "eve");
    let hash = per_user_overlay_hash(&map(&[]));
    assert!(drop_dynamic_pool_if_overlay_drifted(&mut registry, &eve, hash).is_none());
    assert!(drop_dynamic_pool_if_overlay_drifted(&mut registry, &alice, hash ^ 1).is_none());
    assert!(drop_dynamic_pool_if_overlay_drifted(&mut registry, &eve, hash ^ 1).is_some());
    assert!(!is_dynamic_pool(&registry, &eve));
    assert!(!pool_exists(&registry, "db", "eve"));
    assert!(pool_exists(&registry, "db", "alice"));
}

#[test]
fn a_configured_user_takes_the_place_of_a_looked_up_one() {
    let mut registry = Registry::new();
    let open = config(vec![("db", pool_for(&[], Some(lookup(None))))]);
    reload(&mut registry, &open);
    log_in(&mut registry, &open, "db", "eve", &map(&[])).unwrap();
    let id = PoolIdentifier::new("db", "eve");
    // The looked up pool looks as if it were the configured one.
    let c = config(vec![("db", pool_for(&["eve"], Some(lookup(None))))]);
    let mut other = Registry::new();
    reload(&mut other, &c);
    let mut pool = registry.pools.remove(&id).unwrap();
    pool.config_hash = get_pool(&other, "db", "eve").unwrap().config_hash;
    registry.pools.insert(id.clone(), pool);

    let done = reload(&mut registry, &c);
    assert_eq!(done.removed, vec![id.clone()]);
    assert!(pool_exists(&registry, "db", "eve"));
    assert!(!is_dynamic_pool(&registry, &id));
    let now = get_pool(&registry, "db", "eve").unwrap();
    assert!(now.init_complete);
    assert_eq!(now.settings.user.pool_size, User::default().pool_size);
}

#[test]
fn logins_need_the_map_of_clients() {
    let mut registry = Registry::new();
    let c = config(vec![("db", pool_for(&[], Some(lookup(None))))]);
    match log_in(&mut registry, &c, "db", "eve", &map(&[])) {
        Err(Error::AuthError(m)) => {
            assert_eq!(m, "auth_query: client_server_map not initialized")
        }
        _ => panic!("expected a failure"),
    }
    reload(&mut registry, &c);
    assert!(log_in(&mut registry, &c, "db", "eve", &map(&[])).is_ok());
}

#[test]
fn use_between_reloads_does_not_matter() {
    let mut registry = Registry::new();
    let limited = ConfigPool {
        max_db_connections: Some(5),
        ..pool_for(&["alice"], Some(lookup(None)))
    };
    let c = config(vec![("db", limited)]);
    reload(&mut registry, &c);
    log_in(&mut registry, &c, "db", "eve", &map(&[])).unwrap();
    log_in(&mut registry, &c, "db", "mallory", &map(&[])).unwrap();
    let gone = PoolIdentifier::new("db", "mallory");
    assert!(commit_init(&mut registry, &gone));
    assert_eq!(gc_idle_dynamic_pools(&mut registry), vec![gone]);
    let mut limit = registry.coordinators.remove("db").unwrap();
    assert!(limit.try_acquire().is_some());
    registry.coordinators.insert("db".to_string(), limit);

    let done = reload(&mut registry, &c);
    assert!(done.retired.is_empty() && done.removed.is_empty() && done.cleared.is_empty());
    assert_eq!(registry.pools.len(), 2);
    assert!(pool_exists(&registry, "db", "eve"));
    assert!(is_dynamic_pool(&registry, &PoolIdentifier::new("db", "eve")));
    assert_eq!(get_coordinator(&registry, "db").unwrap().main_in_use, 1);
}

#[test]
fn logins_without_a_configuration_are_refused() {
    let mut registry = Registry::new();
    let c = config(vec![("db", pool_for(&["alice"], None))]);
    reload(&mut registry, &c);
    let none = map(&[]);
    match log_in(&mut registry, &c, "nowhere", "eve", &none) {
        Err(Error::AuthError(m)) => {
            assert_eq!(m, "auth_query: pool config 'nowhere' not found for dynamic pool")
        }
        _ => panic!("expected a failure"),
    }
    match log_in(&mut registry, &c, "db", "eve", &none) {
        Err(Error::AuthError(m)) => {
            assert_eq!(m, "auth_query: config not found in pool 'db' for dynamic pool")
        }
        _ => panic!("expected a failure"),
    }
}

#[test]
fn only_committed_idle_pools_are_collected() {
    let mut registry = Registry::new();
    let c = config(vec![("db", pool_for(&["alice"], Some(lookup(None))))]);
    reload(&mut registry, &c);
    log_in(&mut registry, &c, "db", "eve", &map(&[])).unwrap();
    assert!(gc_idle_dynamic_pools(&mut registry).is_empty());
    let id = PoolIdentifier::new("db", "eve");
    assert!(commit_init(&mut registry, &id));
    let removed = gc_idle_dynamic_pools(&mut registry);
    assert_eq!(removed, vec![id.clone()]);
    assert!(!is_dynamic_pool(&registry, &id));
    assert!(pool_exists(&registry, "db", "alice"));
    assert!(!commit_init(&mut registry, &id));
}

#[test]
fn dynamic_pools_are_registered_and_dropped() {
    let mut registry = Registry::new();
    let id = PoolIdentifier::new("db", "eve");
    assert!(!drop_dynamic_pool(&mut registry, &id));
    register_dynamic_pool(&mut registry, &id);
    assert!(is_dynamic_pool(&registry, &id));
}

#[test]
fn housekeeping_leaves_empty_pools_alone() {
    let mut registry = Registry::new();
    reload(&mut registry, &config(vec![("db", pool_for(&["alice", "bob"], None))]));
    let (relieved, trimmed) = retain_connections(&mut registry, 0, 1_000);
    assert!(relieved.is_empty() && trimmed.is_empty());
    let (drained, closed) = drain_all_pools(&mut registry);
    assert_eq!(drained, 0);
    assert!(closed.is_empty());
    assert_eq!(registry.pools.len(), 2);
    // What is still out is marked for removal.
    let pool = get_pool(&registry, "db", "alice").unwrap();
    assert_eq!(pool.database.reconnect_epoch(), 1);
}

#[test]
fn cache_sizes_are_looked_up_by_pool() {
    let c = config(vec![(
        "db",
        ConfigPool { prepared_statements_cache_size: Some(9), ..pool_for(&[], None) },
    )]);
    assert!(get_pool_config(&c, "db").is_some());
    assert!(get_pool_config(&c, "other").is_none());
    assert_eq!(resolve_client_anon_cache_size(&c, "db", &c.general), 9);
    assert_eq!(
        resolve_client_anon_cache_size(&c, "other", &c.general),
        c.general.prepared_statements_cache_size
    );
}

#[test]
fn an_order_is_shuffled_and_complete() {
    let order = random_order(200);
    let mut sorted = order.clone();
    sorted.sort();
    assert_eq!(sorted, (0..200).collect::<Vec<usize>>());
    assert_ne!(order, sorted, "200 numbers in order would be a miracle");
}

#[test]
fn waiting_times_are_drawn() {
    let gates: std::collections::HashSet<u64> =
        (0..200).map(|_| burst_gate_budget(100_000)).collect();
    assert!(gates.len() > 1);
    assert!(gates.iter().all(|g| (160..=240).contains(g)));
    let caps: std::collections::HashSet<u64> =
        (0..200).map(|_| anticipation_cap(100_000)).collect();
    assert!(caps.len() > 1);
}

#[test]
fn the_statement_that_was_used_longest_ago_makes_room() {
    let mut cache = PreparedCache::new(2);
    assert!(cache.is_enabled());
    assert_eq!(cache.add("a"), None);
    assert_eq!(cache.add("b"), None);
    assert!(cache.has("a"));
    assert_eq!(cache.add("c"), Some("b".to_string()));
    assert!(!cache.has("b"));
    assert_eq!(cache.len(), Some(2));
    cache.remove("a");
    assert_eq!(cache.len(), Some(1));
    cache.clear();
    assert_eq!(cache.len(), Some(0));
    assert!(!PreparedCache::new(0).is_enabled());
}

#[test]
fn parameters_that_do_not_fit_are_not_cut() {
    let long = "x".repeat(9_600);
    let base = map(&[("work_mem", "64MB")]);
    let (m, d) = build_resolved_startup(&base, &map(&[("search_path", "s")]), "u", "d", "a");
    assert_eq!(d, BudgetDecision::FullCascade);
    assert_eq!(m.len(), 2);
    let (m, d) = build_resolved_startup(&base, &map(&[("search_path", &long)]), "u", "d", "a");
    assert!(matches!(d, BudgetDecision::OverlayDroppedBaselineKept { .. }));
    assert_eq!(m.len(), 1);
    let big = map(&[("search_path", &long)]);
    let (m, d) = build_resolved_startup(&big, &map(&[]), "u", "d", "a");
    assert!(matches!(d, BudgetDecision::EmptyDueToBudget { .. }));
    assert!(m.is_empty());
}

#[test]
fn the_most_specific_layer_wins() {
    let general = map(&[("Work_Mem", "1MB"), ("search_path", "g")]);
    let pool = map(&[("work_mem", "2MB")]);
    let user = map(&[("search_path", "u")]);
    let r = resolve_with_sources(&general, &pool, Some(&user));
    assert_eq!(r.get("work_mem").unwrap().value, "2MB");
    assert_eq!(r.get("work_mem").unwrap().source, ParameterSource::Pool);
    assert_eq!(r.get("search_path").unwrap().value, "u");
    assert_eq!(r.get("search_path").unwrap().source, ParameterSource::AuthQuery);
}

fn target(host: &str, role: Role) -> FallbackTarget {
    FallbackTarget { host: host.to_string(), port: 5432, role, lifetime_ms: 1_000 }
}

fn fallback_pool() -> pg_doorman::pool::server_pool::ServerPool {
    pg_doorman::pool::server_pool::ServerPool::new(
        Address {
            server_tls: ServerTlsConfig { mode: ServerTlsMode::Allow, cert_hash: 0 },
            ..Address::default()
        },
        User::default(),
        "db",
        pg_doorman::config::CleanupMode::On,
        None,
        false,
        0,
        "app".to_string(),
        1,
        60_000,
        60_000,
        60_000,
        5_000,
        5_000,
        false,
        Some(FallbackConfig {
            urls: vec!["http://p".to_string()],
            cooldown_ms: 30_000,
            connect_timeout_ms: 700,
            api_timeout_ms: 500,
            lifetime_ms: 9_000,
        }),
        &StringMap::new(),
        StringMap::new(),
    )
}

#[test]
fn synchronous_standbys_are_tried_first() {
    let pool = fallback_pool();
    let targets = vec![
        target("a", Role::Replica),
        target("b", Role::SyncStandby),
        target("c", Role::Leader),
    ];
    assert_eq!(
        format_target_list(&targets).split(", ").count(),
        3,
        "one entry for each candidate"
    );
    match pool.run_fallback_round(Ok((targets, TargetSource::Discovery))) {
        RoundPlan::Waves { sync, others } => {
            assert_eq!(sync.len(), 1);
            assert_eq!(sync[0].host, "b");
            assert_eq!(others.len(), 2);
        }
        _ => panic!("expected two waves"),
    }
    match pool.run_fallback_round(Err("timeout".to_string())) {
        RoundPlan::Failed { error: Error::ConnectError(m), .. } => {
            assert_eq!(m, "fallback discovery failed: timeout")
        }
        _ => panic!("expected a failure"),
    }
    assert_eq!(pool.fallback_timeout_ms(), 700);
}

#[test]
fn a_stale_candidate_is_forgotten_once() {
    let refused = || Error::ConnectError("refused".to_string());
    let first = match first_round_ended(Err(refused()), TargetSource::WhitelistCache) {
        FallbackStep::Rediscover(e) => e,
        _ => panic!("expected a second round"),
    };
    assert!(matches!(
        first_round_ended(Err(refused()), TargetSource::Discovery),
        FallbackStep::Failed(_)
    ));
    match second_round_ended(&first, Err(Error::ConnectError("gone".to_string()))) {
        Err(Error::ConnectError(m)) => assert_eq!(
            m,
            "fallback exhausted (whitelist round: refused; discovery round: gone)"
        ),
        _ => panic!("expected a failure"),
    }
    let exhausted = Error::ConnectResourceExhausted("EMFILE".to_string());
    assert!(matches!(
        second_round_ended(&first, Err(exhausted)),
        Err(Error::ConnectResourceExhausted(_))
    ));
    match deadline_error(250) {
        Error::ConnectError(m) => assert_eq!(m, "fallback total deadline 250ms exceeded"),
        other => panic!("unexpected {other:?}"),
    }
}

#[test]
fn a_backend_in_cooldown_is_passed_over() {
    let mut pool = fallback_pool();
    assert!(matches!(pool.create(BlacklistCheck::Active), CreateStep::FallbackFirst));
    let epoch = pool.current_epoch();
    assert!(matches!(pool.create(BlacklistCheck::JustExpired), CreateStep::Connect(_)));
    assert_eq!(pool.current_epoch(), epoch + 1);
}

#[test]
fn failed_logins_are_answered_by_their_cause() {
    let pool = fallback_pool();
    let id = || ServerIdentifier::new("u".to_string(), "d", "p");
    let denied = || Error::ServerStartupError("no encryption".to_string(), id());
    // A refusal is tried again with TLS, once.
    let first = Attempt { address: pool.address().clone(), second: false };
    let second = match pool.connected(&first, Err(denied())) {
        CreateStep::Connect(attempt) => attempt,
        _ => panic!("expected a second login"),
    };
    assert_eq!(second.address.server_tls.mode, ServerTlsMode::Require);
    match pool.connected(&second, Err(denied())) {
        CreateStep::GiveUp { backoff_ms, .. } => assert_eq!(backoff_ms, CREATE_BACKOFF_MS),
        _ => panic!("expected a failure"),
    }
    let refused = Error::ConnectError("refused".to_string());
    assert!(matches!(pool.connected(&first, Err(refused)), CreateStep::Fallback(_)));
}

#[test]
fn a_candidate_is_tried_again_with_tls_once() {
    let pool = fallback_pool();
    let id = || ServerIdentifier::new("u".to_string(), "d", "p");
    let denied = || Error::ServerStartupError("no encryption".to_string(), id());
    let t = target("a", Role::Replica);
    let first = pool.fallback_attempt(&t);
    assert_eq!(first.address.host, "a");
    assert!(!first.second);
    let second = match pool.try_fallback_target(&t, &first, Err(denied())) {
        TargetStep::Connect(attempt) => attempt,
        TargetStep::Ended(_) => panic!("expected a second login"),
    };
    assert_eq!(second.address.host, "a");
    assert_eq!(second.address.server_tls.mode, ServerTlsMode::Require);
    assert!(matches!(
        pool.try_fallback_target(&t, &second, Err(denied())),
        TargetStep::Ended(Err(Error::ServerStartupError(_, _)))
    ));
    match pool.try_fallback_target(&t, &first, Ok(session())) {
        TargetStep::Ended(Ok(server)) => {
            assert_eq!(server.state.override_lifetime_ms, Some(t.lifetime_ms))
        }
        _ => panic!("expected a connection"),
    }
}

#[test]
fn a_round_goes_from_wave_to_wave_until_one_serves() {
    let refused = || Error::ConnectError("refused".to_string());
    let mut summary = FailureSummary::default();
    let plan = RoundPlan::Waves {
        sync: vec![target("b", Role::SyncStandby)],
        others: vec![target("a", Role::Replica)],
    };
    let (wave, left) = match round_begun(plan, &summary) {
        RoundStep::Race { wave, left } => (wave, left),
        _ => panic!("expected a wave"),
    };
    assert_eq!((wave[0].host.as_str(), left[0].host.as_str()), ("b", "a"));
    let end = race_wave(&mut summary, vec![(0, Err(refused()))], 0);
    let (wave, left) = match wave_ended(left, end, &summary) {
        RoundStep::Race { wave, left } => (wave, left),
        _ => panic!("expected the second wave"),
    };
    assert_eq!(wave[0].host, "a");
    assert!(left.is_empty());
    let end = race_wave(&mut summary, vec![(0, Ok(session()))], 1);
    assert!(matches!(wave_ended(left, end, &summary), RoundStep::Over(Ok(_))));

    // A wave without candidates is passed over, and a round without any fails.
    let plan = RoundPlan::Waves { sync: Vec::new(), others: vec![target("a", Role::Leader)] };
    assert!(matches!(
        round_begun(plan, &summary),
        RoundStep::Race { wave, left } if wave.len() == 1 && left.is_empty()
    ));
    let plan = RoundPlan::Waves { sync: Vec::new(), others: Vec::new() };
    match round_begun(plan, &FailureSummary::default()) {
        RoundStep::Over(Err(Error::ConnectError(m))) => {
            assert!(m.starts_with("all fallback candidates rejected ("))
        }
        _ => panic!("expected a failure"),
    }
    let plan = RoundPlan::Failed { error: refused(), source: TargetSource::Discovery };
    assert!(matches!(round_begun(plan, &summary), RoundStep::Over(Err(Error::ConnectError(_)))));
}

#[test]
fn a_candidate_that_is_tried_alone_reports_its_own_error() {
    let one = RoundPlan::Single(target("a", Role::Leader));
    assert!(matches!(
        round_begun(one, &FailureSummary::default()),
        RoundStep::TryOne(t) if t.host == "a"
    ));
    match single_round_ended(Err(Error::ConnectError("refused".to_string()))) {
        (Err(Error::ConnectError(m)), Some(_)) => assert_eq!(m, "refused"),
        _ => panic!("expected the error of the candidate"),
    }
    assert!(matches!(single_round_ended(Ok(session())), (Ok(_), None)));
}

fn session() -> Server {
    Server::startup(
        Handshake::new(),
        SessionOptions {
            connection_id: 1,
            address: Address::default(),
            application_name: "test".to_string(),
            connected_with_tls: false,
            cleanup_connections: true,
            server_reset_query: None,
            session_mode: false,
            max_message_size: 0,
            operator_managed_startup_keys: Vec::new(),
            prepared_statement_cache_size: 4,
        },
    )
}

/// Feeds bytes in pieces of this size, and collects what comes out.
fn feed(input: &[u8], piece: usize) -> (Vec<u8>, bool) {
    let mut server = session();
    let mut client = ServerParameters::new();
    let mut unread: Vec<u8> = Vec::new();
    let mut out = Vec::new();
    for chunk in input.chunks(piece) {
        unread.extend_from_slice(chunk);
        loop {
            let (taken, received) = server.recv(&unread, &mut client, false);
            unread.drain(..taken);
            match received {
                Received::Bytes(b) => out.extend_from_slice(&b),
                _ => break,
            }
            if unread.is_empty() {
                break;
            }
        }
    }
    (out, server.in_transaction())
}

#[test]
fn it_does_not_matter_how_bytes_arrive() {
    let input = b"C\0\0\0\x0aBEGIN\0Z\0\0\0\x05T";
    let whole = feed(input, input.len());
    assert_eq!(whole.0, input);
    assert!(whole.1);
    for piece in 1..input.len() {
        assert_eq!(feed(input, piece), whole);
    }
}

#[test]
fn quotes_do_not_end_a_value() {
    let server = session();
    let mut client = ServerParameters::new();
    client.set_param("search_path", "a'; DROP TABLE t; --", true);
    let plan = server.sync_parameters(&client).unwrap();
    assert!(plan.query.contains("'a''; DROP TABLE t; --'"));
}

#[test]
fn readable_sockets_are_judged() {
    let server = session();
    assert!(server.check_server_alive(true));
    assert!(!server.check_server_alive(false));
    assert!(!server.wait_available(false));
    assert_eq!(server.address_to_string(), server.settings.address.text());
}

#[test]
fn the_named_parameter_is_blamed_before_a_quoted_one() {
    let sent = map(&[("alpha", "1"), ("beta", "2"), ("gamma", "3")]);
    let blamed = |message: &str| blamed_key(message, &sent);
    assert_eq!(
        blamed("\"alpha\" and \"beta\" clash: parameter \"gamma\" is wrong").as_deref(),
        Some("gamma")
    );
    // A named parameter that was not sent is not blamed.
    assert_eq!(
        blamed("parameter \"delta\": see \"gamma\" and \"beta\"").as_deref(),
        Some("beta")
    );
    assert_eq!(blamed("der Parameter \"beta\" ist falsch").as_deref(), Some("beta"));
    assert_eq!(blamed("beta is wrong"), None);
}

#[test]
fn what_is_not_configured_has_its_default() {
    let g = General::default();
    assert_eq!((g.connect_timeout, g.query_wait_timeout), (3_000, 5_000));
    assert_eq!((g.max_concurrent_creates, g.retain_connections_max), (4, 3));
    assert!(g.prepared_statements && !g.server_round_robin);
    let p = ConfigPool::default();
    assert_eq!((p.server_host.as_str(), p.server_port), ("127.0.0.1", 5432));
    assert!(p.max_db_connections.is_none() && p.users.is_empty());
    let s = PoolSettings::default();
    assert_eq!(s.user.username, User::default().username);
    assert_eq!(s.user.pool_size, User::default().pool_size);
    assert!(s.user.pool_mode.is_none() && s.user.server_password.is_none());
}

#[test]
fn housekeeping_keeps_the_map_of_clients() {
    let mut registry = Registry::new();
    let c = config(vec![("db", pool_for(&["alice"], Some(lookup(None))))]);
    reload(&mut registry, &c);
    assert!(registry.clients_mapped);
    retain_connections(&mut registry, 3, 1_000);
    assert!(registry.clients_mapped);
    assert!(log_in(&mut registry, &c, "db", "eve", &map(&[])).is_ok());
}

#[test]
fn a_connection_is_closed_for_a_reason() {
    let mut pool = fallback_pool();
    pool.connect_timeout_ms = 700;
    pool.idle_check_timeout_ms = 100;
    let write = |ms: u64| format!("<{ms}>");
    // The drawn lifetime gives way to a fixed one.
    let mut m = Metrics { lifetime_ms: 1_000, ..Metrics::new(1_000, 0, 0, 0) };

    let mut s = session();
    assert!(matches!(pool.recycle(&mut s, &m, false, 1_000), RecycleStep::Usable));
    assert!(s.close_reason.is_none());
    assert!(matches!(pool.recycle(&mut s, &m, true, 1_001), RecycleStep::Usable));
    assert!(matches!(
        pool.recycle(&mut s, &m, false, 1_001),
        RecycleStep::Rejected(RecycleError::StaticMessage("Connection exceeded lifetime"))
    ));
    let reason = s.close_reason.unwrap();
    assert_eq!(reason, CloseReason::Outlived { age_ms: 1_001, limit_ms: 1_000 });
    assert_eq!(reason.describe(write), "lifetime exceeded (age=<1001>, limit=<1000>)");

    // A sign of life may take as long as a login.
    m.recycled_ms = Some(0);
    let mut s = session();
    match pool.recycle(&mut s, &m, false, 101) {
        RecycleStep::CheckAlive { idle_ms, limit_ms } => assert_eq!((idle_ms, limit_ms), (101, 700)),
        _ => panic!("expected a question"),
    }
    assert!(matches!(ServerPool::alive_checked(&mut s, true, 101), RecycleStep::Usable));
    assert!(matches!(
        ServerPool::alive_checked(&mut s, false, 101),
        RecycleStep::Rejected(RecycleError::StaticMessage("Connection failed alive check"))
    ));
    assert_eq!(s.close_reason.unwrap().describe(write), "failed alive check after <101> idle");

    let mut s = session();
    pool.bump_epoch();
    assert!(matches!(
        pool.recycle(&mut s, &m, false, 1),
        RecycleStep::Rejected(RecycleError::StaticMessage("Connection outdated (RECONNECT)"))
    ));
    assert_eq!(s.close_reason.unwrap().describe(write), "reconnect epoch outdated");
    s.mark_bad();
    assert!(matches!(
        pool.recycle(&mut s, &m, false, 1),
        RecycleStep::Rejected(RecycleError::StaticMessage("Bad connection"))
    ));
    assert_eq!(s.close_reason.unwrap().describe(write), "bad connection");
}
