use pg_doorman::config::{Address, CleanupMode, General, Pool as ConfigPool, PoolMode, User};
use pg_doorman::pool::connection_pool::{
    compute_spare, empty_overlay_hash, per_user_overlay_hash, resolve_client_anon_cache_size_inner,
    resolve_server_cache_size, ConnectionPool, PoolSettings,
};
use pg_doorman::pool::dynamic::should_rebuild_for_overlay_drift;
use pg_doorman::pool::gc::should_gc_idle_pool;
use pg_doorman::pool::inner::Pool;
use pg_doorman::pool::registry::{pool_exists, Registry};
use pg_doorman::pool::reload::compute_pool_fingerprint;
use pg_doorman::pool::server_pool::ServerPool;
use pg_doorman::server::parameters::ServerParameters;
use pg_doorman::string_map::StringMap;

fn map(entries: &[(&str, &str)]) -> StringMap<String> {
    let mut m = StringMap::new();
    for (k, v) in entries {
        m.insert(k.to_string(), v.to_string());
    }
    m
}

fn user(min_pool_size: u32) -> User {
    User {
        min_pool_size: if min_pool_size == 0 { None } else { Some(min_pool_size) },
        ..User::default()
    }
}

fn connection_pool(init_complete: bool, min_pool_size: u32, life_time_ms: u64) -> ConnectionPool {
    let server_pool = ServerPool::new(
        Address::default(),
        user(min_pool_size),
        "test_db",
        CleanupMode::Off,
        None,
        false,
        0,
        "test_app".to_string(),
        1,
        60_000,
        60_000,
        60_000,
        5_000,
        5_000,
        false,
        None,
        &StringMap::new(),
        StringMap::new(),
    );
    let database = Pool::builder(server_pool)
        .pool_name("test_db".to_string())
        .username("test_user".to_string())
        .build();
    ConnectionPool {
        database,
        address: Address::default(),
        settings: PoolSettings {
            pool_mode: PoolMode::Transaction,
            user: user(min_pool_size),
            db: "test_db".to_string(),
            idle_timeout_ms: 60_000,
            life_time_ms,
            sync_server_parameters: false,
            min_guaranteed_pool_size: 0,
        },
        backend_auth: None,
        original_server_parameters: ServerParameters::new(),
        config_hash: 0,
        per_user_startup_overlay_hash: empty_overlay_hash(),
        prepared_statements_cache_size: None,
        replenish_failures: 0,
        init_complete,
    }
}

#[test]
fn pool_exists_returns_false_for_missing_entry() {
    let registry = Registry::new();
    assert!(!pool_exists(&registry, "nonexistent_db", "nonexistent_user"));
}

#[test]
fn per_user_overlay_hash_empty_matches_empty_overlay_hash() {
    assert_eq!(per_user_overlay_hash(&StringMap::new()), empty_overlay_hash());
}

#[test]
fn per_user_overlay_hash_ignores_input_order() {
    let a = map(&[("work_mem", "64MB"), ("statement_timeout", "30s")]);
    let b = map(&[("statement_timeout", "30s"), ("work_mem", "64MB")]);
    assert_eq!(per_user_overlay_hash(&a), per_user_overlay_hash(&b));
}

#[test]
fn per_user_overlay_hash_changes_when_value_changes() {
    let a = map(&[("work_mem", "64MB")]);
    let b = map(&[("work_mem", "128MB")]);
    assert_ne!(per_user_overlay_hash(&a), per_user_overlay_hash(&b));
}

#[test]
fn per_user_overlay_hash_changes_when_key_added() {
    let a = map(&[("work_mem", "64MB")]);
    let b = map(&[("work_mem", "64MB"), ("statement_timeout", "30s")]);
    assert_ne!(per_user_overlay_hash(&a), per_user_overlay_hash(&b));
}

#[test]
fn per_user_overlay_hash_matches_across_hashmap_and_btreemap() {
    let mut h = std::collections::HashMap::new();
    h.insert("work_mem".to_string(), "64MB".to_string());
    let mut b = std::collections::BTreeMap::new();
    b.insert("work_mem".to_string(), "64MB".to_string());
    let mut from_h = StringMap::new();
    for (k, v) in h.iter() {
        from_h.insert(k.clone(), v.clone());
    }
    let mut from_b = StringMap::new();
    for (k, v) in b.iter() {
        from_b.insert(k.clone(), v.clone());
    }
    assert_eq!(per_user_overlay_hash(&from_h), per_user_overlay_hash(&from_b));
}

#[test]
fn spare_no_minimums_set() {
    assert_eq!(compute_spare(5, None, 0), 5);
}

#[test]
fn spare_with_user_min_pool_size_only() {
    assert_eq!(compute_spare(5, Some(3), 0), 2);
}

#[test]
fn spare_with_pool_guaranteed_only() {
    assert_eq!(compute_spare(5, None, 4), 1);
}

#[test]
fn spare_pool_guaranteed_wins_over_user_min() {
    assert_eq!(compute_spare(5, Some(2), 4), 1);
}

#[test]
fn spare_user_min_wins_over_pool_guaranteed() {
    assert_eq!(compute_spare(5, Some(5), 2), 0);
}

#[test]
fn spare_at_exact_minimum() {
    assert_eq!(compute_spare(3, Some(3), 0), 0);
    assert_eq!(compute_spare(4, None, 4), 0);
}

#[test]
fn spare_below_minimum_saturates_to_zero() {
    assert_eq!(compute_spare(2, Some(5), 0), 0);
    assert_eq!(compute_spare(1, None, 3), 0);
    assert_eq!(compute_spare(0, Some(1), 2), 0);
}

#[test]
fn spare_zero_current_connections() {
    assert_eq!(compute_spare(0, None, 0), 0);
    assert_eq!(compute_spare(0, Some(3), 5), 0);
}

#[test]
fn spare_both_minimums_equal() {
    assert_eq!(compute_spare(5, Some(3), 3), 2);
}

#[test]
fn spare_large_values() {
    assert_eq!(compute_spare(1000, Some(100), 200), 800);
    assert_eq!(compute_spare(1000, Some(999), 1), 1);
}

#[test]
fn server_cache_size_defaults_to_pool_size() {
    assert_eq!(resolve_server_cache_size(8192, None, None), 8192);
}

#[test]
fn server_cache_size_general_override_takes_effect() {
    assert_eq!(resolve_server_cache_size(8192, None, Some(1024)), 1024);
}

#[test]
fn server_cache_size_pool_override_wins_over_general() {
    assert_eq!(resolve_server_cache_size(8192, Some(2048), Some(1024)), 2048);
}

#[test]
fn server_cache_size_pool_override_wins_over_inheritance() {
    assert_eq!(resolve_server_cache_size(8192, Some(2048), None), 2048);
}

#[test]
fn server_cache_size_zero_pool_disables_server_lru() {
    assert_eq!(resolve_server_cache_size(0, None, None), 0);
    assert_eq!(resolve_server_cache_size(0, Some(1024), None), 0);
    assert_eq!(resolve_server_cache_size(0, None, Some(1024)), 0);
    assert_eq!(resolve_server_cache_size(0, Some(2048), Some(1024)), 0);
}

#[test]
fn server_cache_size_explicit_zero_per_pool_allowed() {
    assert_eq!(resolve_server_cache_size(8192, Some(0), None), 0);
    assert_eq!(resolve_server_cache_size(8192, Some(0), Some(1024)), 0);
}

fn general_with_cache_sizes(pool_cache: usize, anonymous: Option<usize>) -> General {
    General {
        prepared_statements_cache_size: pool_cache,
        client_anonymous_prepared_cache_size: anonymous,
        ..General::default()
    }
}

#[test]
fn anon_cache_inherits_general_when_no_overrides() {
    let g = general_with_cache_sizes(8192, None);
    assert_eq!(resolve_client_anon_cache_size_inner(&g, None), 8192);
}

#[test]
fn anon_cache_uses_pool_override_when_no_explicit() {
    let g = general_with_cache_sizes(8192, None);
    assert_eq!(resolve_client_anon_cache_size_inner(&g, Some(1024)), 1024);
}

#[test]
fn anon_cache_explicit_wins_over_pool_override() {
    let g = general_with_cache_sizes(8192, Some(256));
    assert_eq!(resolve_client_anon_cache_size_inner(&g, Some(1024)), 256);
    assert_eq!(resolve_client_anon_cache_size_inner(&g, None), 256);
}

#[test]
fn anon_cache_explicit_zero_disables_lru_regardless_of_pool() {
    let g = general_with_cache_sizes(8192, Some(0));
    assert_eq!(resolve_client_anon_cache_size_inner(&g, Some(1024)), 0);
}

fn general_with_sync(sync: bool) -> General {
    General { sync_server_parameters: sync, ..General::default() }
}

fn pool_with_sync(sync: Option<bool>) -> ConfigPool {
    ConfigPool { sync_server_parameters: sync, ..ConfigPool::default() }
}

#[test]
fn effective_sync_server_parameters_uses_pool_override_when_set() {
    let general = General::default();
    assert!(pool_with_sync(Some(true)).effective_sync_server_parameters(&general));
}

#[test]
fn effective_sync_server_parameters_falls_back_to_general_when_none() {
    let general = general_with_sync(true);
    assert!(pool_with_sync(None).effective_sync_server_parameters(&general));
}

#[test]
fn effective_sync_server_parameters_false_general_false_pool_none() {
    let general = General::default();
    assert!(!pool_with_sync(None).effective_sync_server_parameters(&general));
}

#[test]
fn effective_sync_server_parameters_pool_override_wins_over_general() {
    let general = general_with_sync(true);
    assert!(!pool_with_sync(Some(false)).effective_sync_server_parameters(&general));
}

#[test]
fn reload_sync_server_parameters_false_to_true_changes_general_startup_hash() {
    assert_ne!(
        general_with_sync(false).startup_hash(),
        general_with_sync(true).startup_hash(),
        "Changing general.sync_server_parameters must change the general_startup_hash"
    );
}

#[test]
fn reload_sync_server_parameters_true_to_false_changes_general_startup_hash() {
    assert_ne!(
        general_with_sync(true).startup_hash(),
        general_with_sync(false).startup_hash(),
        "Changing general.sync_server_parameters must change the general_startup_hash"
    );
}

#[test]
fn reload_general_sync_server_parameters_changes_static_pool_fingerprint() {
    let pool = ConfigPool::default();
    assert_ne!(
        compute_pool_fingerprint(&pool, &general_with_sync(false)),
        compute_pool_fingerprint(&pool, &general_with_sync(true)),
        "Changing general.sync_server_parameters must invalidate static pool fingerprint"
    );
}

#[test]
fn reload_general_sync_server_parameters_changes_auth_query_parent_fingerprint() {
    let pool = ConfigPool::default();
    let fp_before = pool.hash_value() ^ general_with_sync(false).startup_hash();
    let fp_after = pool.hash_value() ^ general_with_sync(true).startup_hash();
    assert_ne!(
        fp_before, fp_after,
        "Changing general.sync_server_parameters must invalidate auth_query parent_fingerprint"
    );
}

#[test]
fn reload_pool_sync_server_parameters_none_to_true_changes_fingerprint() {
    let general = general_with_sync(false);
    assert_ne!(
        compute_pool_fingerprint(&pool_with_sync(None), &general),
        compute_pool_fingerprint(&pool_with_sync(Some(true)), &general),
        "Setting pool.sync_server_parameters must change fingerprint"
    );
}

#[test]
fn reload_general_cleanup_policy_changes_fingerprints() {
    let pool = ConfigPool::default();
    let before = General::default();
    for after in [
        General { cleanup_server_query: Some("DISCARD ALL".into()), ..General::default() },
        General { cleanup_server_connections: CleanupMode::Off, ..General::default() },
    ] {
        assert_ne!(
            compute_pool_fingerprint(&pool, &before),
            compute_pool_fingerprint(&pool, &after)
        );
        assert_ne!(
            pool.hash_value() ^ before.startup_hash(),
            pool.hash_value() ^ after.startup_hash()
        );
    }
}

#[test]
fn reload_no_change_preserves_fingerprint() {
    let general = General::default();
    let pool = ConfigPool::default();
    assert_eq!(
        compute_pool_fingerprint(&pool, &general),
        compute_pool_fingerprint(&pool, &general),
        "Same config must produce identical fingerprint"
    );
}

#[test]
fn reload_unchanged_sync_server_parameters_preserves_fingerprint() {
    // The general value is part of the fingerprint, so a pool is rebuilt even
    // where its own override leaves the effective value unchanged.
    assert_ne!(
        compute_pool_fingerprint(&pool_with_sync(Some(true)), &general_with_sync(true)),
        compute_pool_fingerprint(&pool_with_sync(Some(true)), &general_with_sync(false)),
    );
}

#[test]
fn overlay_drift_reuses_on_hash_match() {
    let h = 0x1234_5678_9abc_def0_u64;
    assert!(!should_rebuild_for_overlay_drift(h, h, true));
    assert!(!should_rebuild_for_overlay_drift(h, h, false));
}

#[test]
fn overlay_drift_rebuilds_dynamic_on_hash_mismatch() {
    assert!(should_rebuild_for_overlay_drift(0xAAAA, 0xBBBB, true));
}

#[test]
fn overlay_drift_preserves_static_on_hash_mismatch() {
    let empty = empty_overlay_hash();
    let fetched = 0xBEEF_0000_0000_0001_u64;
    assert_ne!(empty, fetched);
    assert!(!should_rebuild_for_overlay_drift(empty, fetched, /*is_dynamic=*/ false));
}

#[test]
fn idle_pool_with_completed_init_is_collected() {
    assert!(should_gc_idle_pool(&connection_pool(true, 0, 60_000)));
}

#[test]
fn idle_pool_still_initializing_is_skipped() {
    assert!(!should_gc_idle_pool(&connection_pool(false, 0, 60_000)));
}

#[test]
fn pool_with_min_pool_size_is_skipped() {
    assert!(!should_gc_idle_pool(&connection_pool(true, 5, 60_000)));
}

#[test]
fn flipping_init_complete_makes_pool_eligible() {
    let mut p = connection_pool(false, 0, 60_000);
    assert!(!should_gc_idle_pool(&p));
    p.init_complete = true;
    assert!(should_gc_idle_pool(&p));
}

#[test]
fn retain_pool_skips_under_pressure() {
    let mut conn_pool = connection_pool(true, 0, 1);
    // Every permit is out.
    conn_pool.database.counters.permits = 0;
    assert!(conn_pool.database.under_pressure(), "test setup must put the pool under pressure");

    let mut count = 0;
    let closed = conn_pool.retain_pool_connections(&mut count, 0, 1_000_000);
    assert_eq!(closed.len(), 0, "retain must close zero connections under pressure");
    assert_eq!(count, 0, "shared retain counter must not advance");
}
