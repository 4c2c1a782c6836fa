use pg_doorman::server::parameters::{
    canonicalize_param_name, is_planner_key, is_safe_client_startup_key, is_set_forbidden,
    reserve_digest, ParamAction, ServerParameters, PLANNER_HASH_UNSET,
};

fn parameters(entries: &[(&str, &str)]) -> ServerParameters {
    let mut sp = ServerParameters::new();
    for (k, v) in entries {
        sp.set_param(k, v, true);
    }
    sp
}

#[test]
fn canonicalize_timezone_matches_any_case() {
    assert_eq!(canonicalize_param_name("timezone".to_string()), "TimeZone");
    assert_eq!(canonicalize_param_name("TIMEZONE".to_string()), "TimeZone");
    assert_eq!(canonicalize_param_name("TimeZone".to_string()), "TimeZone");
    assert_eq!(canonicalize_param_name("TimezONE".to_string()), "TimeZone");
}

#[test]
fn canonicalize_datestyle_matches_any_case() {
    assert_eq!(canonicalize_param_name("datestyle".to_string()), "DateStyle");
    assert_eq!(canonicalize_param_name("DATESTYLE".to_string()), "DateStyle");
    assert_eq!(canonicalize_param_name("DateStyle".to_string()), "DateStyle");
}

#[test]
fn canonicalize_intervalstyle_matches_any_case() {
    assert_eq!(canonicalize_param_name("intervalstyle".to_string()), "IntervalStyle");
    assert_eq!(canonicalize_param_name("INTERVALSTYLE".to_string()), "IntervalStyle");
}

#[test]
fn canonicalize_lowercases_non_tracked_keys() {
    assert_eq!(canonicalize_param_name("work_mem".to_string()), "work_mem");
    assert_eq!(canonicalize_param_name("Work_Mem".to_string()), "work_mem");
    assert_eq!(canonicalize_param_name("WORK_MEM".to_string()), "work_mem");
    assert_eq!(
        canonicalize_param_name("statement_timeout".to_string()),
        "statement_timeout"
    );
    assert_eq!(
        canonicalize_param_name("Statement_Timeout".to_string()),
        "statement_timeout"
    );
}

#[test]
fn is_set_forbidden_covers_read_only_and_reserved() {
    assert!(is_set_forbidden("is_superuser"));
    assert!(is_set_forbidden("server_version"));
    assert!(is_set_forbidden("lc_collate"));
    assert!(is_set_forbidden("lc_ctype"));
    assert!(is_set_forbidden("user"));
    assert!(is_set_forbidden("database"));
    assert!(is_set_forbidden("transaction_isolation"));
    assert!(!is_set_forbidden("search_path"));
    assert!(!is_set_forbidden("application_name"));
}

#[test]
fn is_planner_key_targets_only_session_mutable_plan_inputs() {
    assert!(is_planner_key("search_path"));
    assert!(is_planner_key("default_transaction_isolation"));
    assert!(is_planner_key("role"));
    assert!(!is_planner_key("lc_collate"));
    assert!(!is_planner_key("application_name"));
}

#[test]
fn planner_param_hash_empty_returns_zero() {
    let mut sp = ServerParameters::new();
    assert_eq!(sp.planner_param_hash(), 0);
}

#[test]
fn planner_param_hash_distinguishes_different_values() {
    let mut a = parameters(&[("search_path", "schema_a")]);
    let mut b = parameters(&[("search_path", "schema_b")]);
    assert_ne!(a.planner_param_hash(), b.planner_param_hash());
}

#[test]
fn planner_param_hash_stable_for_identical_set() {
    let mut a = parameters(&[("search_path", "schema_a"), ("role", "reader")]);
    let mut b = parameters(&[("role", "reader"), ("search_path", "schema_a")]);
    assert_eq!(a.planner_param_hash(), b.planner_param_hash());
}

#[test]
fn planner_param_hash_ignores_non_planner_keys() {
    let mut a = parameters(&[("application_name", "client-A")]);
    let mut b = parameters(&[("application_name", "client-B")]);
    assert_eq!(a.planner_param_hash(), b.planner_param_hash());
    assert_eq!(a.planner_param_hash(), 0);
}

#[test]
fn planner_param_hash_cache_invalidated_on_set() {
    let mut sp = parameters(&[("search_path", "schema_a")]);
    let h1 = sp.planner_param_hash();
    sp.set_param("search_path", "schema_b", true);
    let h2 = sp.planner_param_hash();
    assert_ne!(h1, h2);
}

#[test]
fn planner_param_hash_cache_survives_non_planner_set() {
    let mut sp = parameters(&[("search_path", "schema_a")]);
    let h1 = sp.planner_param_hash();
    sp.set_param("application_name", "client-A", true);
    let h2 = sp.planner_param_hash();
    assert_eq!(h1, h2);
}

#[test]
fn compare_params_emits_set_when_client_only() {
    let backend = ServerParameters::new();
    let client = parameters(&[("search_path", "schema_a")]);
    let diff = backend.compare_params(&client);
    match diff.get("search_path") {
        Some(ParamAction::SetTo(v)) => assert_eq!(v, "schema_a"),
        other => panic!("expected SetTo(schema_a), got {other:?}"),
    }
}

#[test]
fn compare_params_emits_reset_when_backend_only() {
    let backend = parameters(&[("search_path", "schema_a")]);
    let client = ServerParameters::new();
    let diff = backend.compare_params(&client);
    assert!(matches!(diff.get("search_path"), Some(ParamAction::Reset)));
}

#[test]
fn compare_params_skips_forbidden_names() {
    let backend = ServerParameters::new();
    let client = parameters(&[("is_superuser", "on"), ("user", "rogue")]);
    let diff = backend.compare_params(&client);
    assert!(!diff.contains_key("is_superuser"));
    assert!(!diff.contains_key("user"));
}

#[test]
fn cleanup_sync_restores_startup_state_without_replaying_greengage_metadata() {
    let mut backend = parameters(&[
        ("gp_autovacuum_scope", "catalog"),
        ("gp_server_version", "7.5.0"),
        ("search_path", "startup_schema"),
    ]);
    let client = backend.clone();

    backend.forget_untracked();

    let diff = backend.compare_params(&client);
    assert_eq!(diff.len(), 1);
    assert_eq!(
        diff.get("search_path"),
        Some(&ParamAction::SetTo("startup_schema".to_string()))
    );
    assert!(backend.compare_params(&ServerParameters::new()).is_empty());
}

#[test]
fn planner_param_hash_distinguishes_non_search_path_planner_key() {
    let mut a = parameters(&[("role", "reader")]);
    let mut b = parameters(&[("role", "writer")]);
    assert_ne!(a.planner_param_hash(), b.planner_param_hash());
}

#[test]
fn parameter_status_serialization_drops_startup_reserved_names() {
    let sp = parameters(&[
        ("user", "rogue"),
        ("database", "elsewhere"),
        ("search_path", "schema_a"),
        ("server_version", "99"),
    ]);
    let bytes: bytes::BytesMut = sp.parameter_status_messages();
    let blob = String::from_utf8_lossy(&bytes);
    assert!(!blob.contains("\0user\0"));
    assert!(!blob.contains("\0database\0"));
    assert!(blob.contains("search_path"));
    assert!(blob.contains("server_version"));
}

#[test]
fn remove_param_drops_entry_and_invalidates_planner_cache_for_planner_keys() {
    let mut sp = parameters(&[("search_path", "schema_a")]);
    let h_before = sp.planner_param_hash();
    assert_ne!(h_before, 0);
    sp.remove_param("search_path");
    assert!(sp.get("search_path").is_none());
    assert_eq!(sp.planner_param_hash(), 0);
}

#[test]
fn remove_param_keeps_planner_cache_for_non_planner_keys() {
    let mut sp = parameters(&[("search_path", "schema_a"), ("application_name", "client-A")]);
    let h_before = sp.planner_param_hash();
    sp.remove_param("application_name");
    assert_eq!(sp.planner_param_hash(), h_before);
}

#[test]
fn is_safe_client_startup_key_accepts_session_mutable_names() {
    assert!(is_safe_client_startup_key("search_path"));
    assert!(is_safe_client_startup_key("application_name"));
    assert!(is_safe_client_startup_key("work_mem"));
    assert!(is_safe_client_startup_key("auto_explain.log_min_duration"));
}

#[test]
fn is_safe_client_startup_key_rejects_set_forbidden_names() {
    assert!(!is_safe_client_startup_key("is_superuser"));
    assert!(!is_safe_client_startup_key("server_version"));
    assert!(!is_safe_client_startup_key("lc_collate"));
    assert!(!is_safe_client_startup_key("user"));
    assert!(!is_safe_client_startup_key("database"));
    assert!(!is_safe_client_startup_key("transaction_isolation"));
}

#[test]
fn is_safe_client_startup_key_rejects_injection_shaped_names() {
    assert!(!is_safe_client_startup_key(""));
    assert!(!is_safe_client_startup_key("1foo"));
    assert!(!is_safe_client_startup_key("foo bar"));
    assert!(!is_safe_client_startup_key("foo;bar"));
    assert!(!is_safe_client_startup_key("foo'bar"));
    assert!(!is_safe_client_startup_key("foo\"bar"));
    assert!(!is_safe_client_startup_key("foo--"));
    assert!(!is_safe_client_startup_key("app TO 'x'; DEALLOCATE ALL; --"));
}

#[test]
fn is_safe_client_startup_key_rejects_protocol_reserved_prefix() {
    assert!(!is_safe_client_startup_key("_pq_.foo"));
    assert!(!is_safe_client_startup_key("_PQ_.foo"));
}

#[test]
fn clone_resets_planner_hash_cache() {
    let mut sp = parameters(&[("search_path", "schema_a")]);
    let _ = sp.planner_param_hash();
    assert_ne!(sp.cached_planner_hash(), PLANNER_HASH_UNSET);
    let cloned = sp.clone();
    assert_eq!(cloned.cached_planner_hash(), PLANNER_HASH_UNSET);
}

#[test]
fn reserved_hash_values_are_never_digests() {
    assert_eq!(reserve_digest(0), 1);
    assert_eq!(reserve_digest(PLANNER_HASH_UNSET), PLANNER_HASH_UNSET - 1);
    assert_eq!(reserve_digest(5), 5);
}

#[test]
fn planner_hash_is_the_digest_of_names_and_values_in_order() {
    let mut sp = parameters(&[("search_path", "s"), ("role", "r")]);
    let expected = xxhash_rust::xxh3::xxh3_64(b"role\0r\0search_path\0s\0\x02\0\0\0");
    assert_eq!(sp.planner_param_hash(), expected);
}

#[test]
fn sync_of_equal_parameters_has_nothing_to_do() {
    let a = parameters(&[("search_path", "s"), ("TimeZone", "UTC")]);
    assert!(a.compare_params(&a.clone()).is_empty());
}

#[test]
fn parameter_status_messages_are_framed() {
    let sp = parameters(&[("server_version", "99")]);
    let bytes = sp.parameter_status_messages();
    assert_eq!(&bytes[..], b"S\0\0\0\x16server_version\099\0");
}

#[test]
fn only_tracked_parameters_are_taken_from_a_session() {
    let mut sp = ServerParameters::new();
    sp.set_param("work_mem", "64MB", false);
    assert!(sp.get("work_mem").is_none());
    sp.set_param("timezone", "UTC", false);
    assert_eq!(sp.get("TimeZone").unwrap(), "UTC");
    // Only planner parameters change planning, and only if they change.
    assert!(!sp.set_param("work_mem", "64MB", true));
    assert!(sp.set_param("search_path", "a", true));
    assert!(!sp.set_param("search_path", "a", true));
}

#[test]
fn a_copied_snapshot_is_the_same() {
    let mut a = parameters(&[("search_path", "s"), ("TimeZone", "UTC"), ("work_mem", "1MB")]);
    let mut b = ServerParameters::new();
    assert!(b.set_from_hashmap(&a.as_hashmap(), true));
    assert_eq!(b.cached_planner_hash(), PLANNER_HASH_UNSET);
    assert!(a.compare_params(&b).is_empty() && b.compare_params(&a).is_empty());
    assert_eq!(b.get("TimeZone").unwrap(), "UTC");
    assert_eq!(a.planner_param_hash(), b.planner_param_hash());
    // A second copy changes nothing, and keeps the hash.
    assert!(!b.set_from_hashmap(&a.as_hashmap(), true));
    assert_eq!(b.cached_planner_hash(), a.planner_param_hash());
}
