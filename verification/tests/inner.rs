use pg_doorman::config::{Address, CleanupMode, User};
use pg_doorman::errors::Error;
use pg_doorman::pool::checkout::{
    Checkout, CheckoutEvent, CheckoutStep, Outlook, PoolError, TimeoutType,
};
use pg_doorman::pool::grow::{BackgroundStep, ReplenishStep, Replenishing};
use pg_doorman::pool::inner::{
    anticipation_base_ms, anticipation_cap, anticipation_total, budget_from, burst_gate_budget,
    release_burst_slot, try_take_burst_slot, ObjectInner, Pool, Returned,
    ANTICIPATION_HARD_CAP_MS, ANTICIPATION_MIN_BUDGET_MS, BURST_GATE_MIN_BUDGET_MS,
};
use pg_doorman::pool::pool_coordinator::{CoordinatorConfig, CoordinatorPermit, PoolCoordinator};
use pg_doorman::pool::retain::return_permits;
use pg_doorman::pool::server_pool::ServerPool;
use pg_doorman::pool::types::{apply_jitter, Metrics, PoolConfig, Timeouts};
use pg_doorman::server::server_backend::Server;
use pg_doorman::server::startup::{Handshake, SessionOptions};
use pg_doorman::string_map::StringMap;
use rand::Rng;

#[test]
fn burst_gate_guard_decrements_on_drop() {
    let mut counter = 1;
    release_burst_slot(&mut counter);
    assert_eq!(counter, 0);
}

#[test]
fn burst_slot_taken_when_under_cap() {
    let mut counter = 0;
    assert!(try_take_burst_slot(&mut counter, 2));
    assert_eq!(counter, 1);
    assert!(try_take_burst_slot(&mut counter, 2));
    assert_eq!(counter, 2);
}

#[test]
fn burst_slot_rejected_at_cap_and_counter_rolled_back() {
    let mut counter = 2;
    assert!(!try_take_burst_slot(&mut counter, 2));
    assert_eq!(counter, 2);
}

#[test]
fn burst_slot_rejected_when_already_above_cap() {
    let mut counter = 5;
    assert!(!try_take_burst_slot(&mut counter, 2));
    assert_eq!(counter, 5);
}

#[test]
fn burst_slot_zero_cap_always_rejects() {
    let mut counter = 0;
    assert!(!try_take_burst_slot(&mut counter, 0));
    assert_eq!(counter, 0);
}

#[test]
fn anticipation_budget_cold_start() {
    assert_eq!(anticipation_base_ms(0), 100);
}

#[test]
fn anticipation_budget_fast_workload() {
    assert_eq!(anticipation_base_ms(700), 1);
}

#[test]
fn anticipation_budget_medium_workload() {
    assert_eq!(anticipation_base_ms(50_000), 100);
}

#[test]
fn anticipation_budget_high_latency() {
    assert_eq!(anticipation_base_ms(300_000), 600);
}

#[test]
fn anticipation_budget_clamp_range() {
    for p99_us in [0, 500, 1000, 5000, 50_000, 200_000, 500_000] {
        let base = anticipation_base_ms(p99_us);
        let jitter_range = (base / 5).max(1);
        let min_val = base.saturating_sub(jitter_range);
        let max_val = base + jitter_range;
        let clamped_min = min_val.clamp(ANTICIPATION_MIN_BUDGET_MS, ANTICIPATION_HARD_CAP_MS);
        let clamped_max = max_val.clamp(ANTICIPATION_MIN_BUDGET_MS, ANTICIPATION_HARD_CAP_MS);
        assert!(clamped_min >= ANTICIPATION_MIN_BUDGET_MS);
        assert!(clamped_max <= ANTICIPATION_HARD_CAP_MS);
        let cap = anticipation_cap(p99_us);
        assert!(cap >= clamped_min && cap <= clamped_max);
    }
}

#[test]
fn burst_gate_budget_cold_start() {
    let budget = burst_gate_budget(0);
    assert!(budget >= BURST_GATE_MIN_BUDGET_MS);
    assert!(budget <= ANTICIPATION_HARD_CAP_MS);
}

#[test]
fn burst_gate_budget_normal_workload() {
    let budget = burst_gate_budget(67_000);
    assert!(budget >= BURST_GATE_MIN_BUDGET_MS);
    assert!(budget <= ANTICIPATION_HARD_CAP_MS);
}

#[test]
fn burst_gate_budget_fast_workload() {
    assert_eq!(burst_gate_budget(700), BURST_GATE_MIN_BUDGET_MS);
}

#[test]
fn burst_gate_budget_clamp_range() {
    for p99_us in [0, 500, 1000, 5000, 50_000, 200_000, 500_000] {
        let budget = burst_gate_budget(p99_us);
        assert!(budget >= BURST_GATE_MIN_BUDGET_MS);
        assert!(budget <= ANTICIPATION_HARD_CAP_MS);
    }
}

#[test]
fn anticipation_base_ms_u64_max_saturates() {
    assert_eq!(anticipation_base_ms(u64::MAX), u64::MAX / 1000);
}

#[test]
fn anticipation_base_ms_one_microsecond() {
    assert_eq!(anticipation_base_ms(1), 0);
}

#[test]
fn anticipation_base_ms_boundary_500us() {
    assert_eq!(anticipation_base_ms(500), 1);
}

#[test]
fn anticipation_base_ms_boundary_499us() {
    assert_eq!(anticipation_base_ms(499), 0);
}

#[test]
fn anticipation_base_ms_hard_cap_boundary() {
    assert_eq!(anticipation_base_ms(250_000), 500);
    assert_eq!(anticipation_base_ms(250_000), ANTICIPATION_HARD_CAP_MS);
}

#[test]
fn anticipation_jitter_clamp_always_in_bounds() {
    let inputs = [
        0,
        1,
        10,
        100,
        499,
        500,
        501,
        1_000,
        2_500,
        5_000,
        10_000,
        25_000,
        50_000,
        100_000,
        200_000,
        250_000,
        300_000,
        500_000,
        1_000_000,
        u64::MAX / 2,
        u64::MAX,
    ];
    for &p99_us in &inputs {
        for _ in 0..20 {
            let base_ms = anticipation_base_ms(p99_us);
            let jitter_range = (base_ms / 5).max(1);
            let jitter = rand::rng().random_range(0..=jitter_range * 2);
            let clamped = budget_from(
                base_ms,
                jitter,
                ANTICIPATION_MIN_BUDGET_MS,
                ANTICIPATION_HARD_CAP_MS,
            );
            assert_eq!(
                clamped,
                (base_ms.saturating_sub(jitter_range) + jitter)
                    .clamp(ANTICIPATION_MIN_BUDGET_MS, ANTICIPATION_HARD_CAP_MS)
            );
            assert!(
                clamped >= ANTICIPATION_MIN_BUDGET_MS,
                "p99_us={p99_us} base={base_ms} jitter={jitter}: result {clamped} < min {}",
                ANTICIPATION_MIN_BUDGET_MS,
            );
            assert!(
                clamped <= ANTICIPATION_HARD_CAP_MS,
                "p99_us={p99_us} base={base_ms} jitter={jitter}: result {clamped} > cap {}",
                ANTICIPATION_HARD_CAP_MS,
            );
        }
    }
}

#[test]
fn anticipation_jitter_clamp_zero_base_clamps_to_min() {
    let base_ms = anticipation_base_ms(1);
    assert_eq!(base_ms, 0);
    let jitter_range = (base_ms / 5).max(1);
    let min_possible = base_ms
        .saturating_sub(jitter_range)
        .clamp(ANTICIPATION_MIN_BUDGET_MS, ANTICIPATION_HARD_CAP_MS);
    let max_possible =
        (base_ms + jitter_range * 2).clamp(ANTICIPATION_MIN_BUDGET_MS, ANTICIPATION_HARD_CAP_MS);
    assert_eq!(min_possible, ANTICIPATION_MIN_BUDGET_MS);
    assert_eq!(max_possible, ANTICIPATION_MIN_BUDGET_MS);
    assert_eq!(anticipation_cap(1), ANTICIPATION_MIN_BUDGET_MS);
}

#[test]
fn anticipation_leaves_time_to_make_a_connection() {
    assert_eq!(anticipation_total(None, 0), 100);
    assert_eq!(anticipation_total(Some(5_000), 1_000), 3_500);
    assert_eq!(anticipation_total(Some(1_200), 400), 300);
    assert_eq!(anticipation_total(Some(600), 400), 0);
}

#[test]
fn jitter_stays_within_a_fifth() {
    assert_eq!(apply_jitter(100, 0), 80);
    assert_eq!(apply_jitter(100, 40), 120);
    assert_eq!(apply_jitter(0, 0), 0);
}

fn server() -> Server {
    Server::startup(
        Handshake::new(),
        SessionOptions {
            connection_id: 1,
            address: Address::default(),
            application_name: "test".to_string(),
            connected_with_tls: false,
            cleanup_connections: true,
            server_reset_query: None,
            session_mode: false,
            max_message_size: 0,
            operator_managed_startup_keys: Vec::new(),
            prepared_statement_cache_size: 0,
        },
    )
}

fn test_pool(max_size: usize, limited: bool) -> Pool {
    let server_pool = ServerPool::new(
        Address::default(),
        User::default(),
        "test_db",
        CleanupMode::Off,
        None,
        false,
        0,
        "test_app".to_string(),
        1,
        60_000,
        60_000,
        60_000,
        5_000,
        5_000,
        false,
        None,
        &StringMap::new(),
        StringMap::new(),
    );
    Pool::builder(server_pool)
        .config(PoolConfig { max_size, ..PoolConfig::default() })
        .coordinator(limited)
        .pool_name("test_db".to_string())
        .username("test_user".to_string())
        .build()
}

const OUTLOOK: Outlook =
    Outlook { now_ms: 0, paused: false, warm_threshold: 100, anticipation_ms: 5, gate_ms: 20 };

/// From one connection on, checkouts wait a little for one to come back.
const WARM: Outlook = Outlook { warm_threshold: 1, ..OUTLOOK };

const NO_LIMITS: Timeouts = Timeouts { wait: Some(1_000), create: None, recycle: None };

/// Runs a checkout until it has a connection or has to wait for a handover.
fn check_out(pool: &mut Pool, o: Outlook) -> (Checkout, CheckoutStep) {
    let (c, step) = Checkout::begin(pool, NO_LIMITS, false, o.now_ms, false);
    run(pool, c, step, o)
}

/// Runs a checkout of a limited database, which waits for a connection to come
/// back before it makes another one.
fn check_out_limited(pool: &mut Pool) -> (Checkout, CheckoutStep) {
    let (c, step) = Checkout::begin(pool, NO_LIMITS, true, 0, false);
    run(pool, c, step, WARM)
}

fn run(
    pool: &mut Pool,
    mut c: Checkout,
    mut step: CheckoutStep,
    o: Outlook,
) -> (Checkout, CheckoutStep) {
    loop {
        let event = match step {
            CheckoutStep::Again | CheckoutStep::Yield => CheckoutEvent::Go,
            CheckoutStep::Recycle { inner, .. } => CheckoutEvent::Usable(inner),
            CheckoutStep::Create(_) => {
                CheckoutEvent::Made(server(), Metrics::new(60_000, 60_000, 0, o.now_ms))
            }
            other => return (c, other),
        };
        step = c.advance(pool, event, o);
    }
}

fn take(pool: &mut Pool) -> ObjectInner {
    match check_out(pool, OUTLOOK).1 {
        CheckoutStep::Done { inner, .. } => inner,
        _ => panic!("expected a connection"),
    }
}

#[test]
fn under_pressure_tracks_semaphore_exhaustion() {
    let mut pool = test_pool(2, false);
    assert!(!pool.under_pressure(), "fresh pool must report no pressure");
    let a = take(&mut pool);
    assert!(!pool.under_pressure());
    let _b = take(&mut pool);
    assert!(pool.under_pressure(), "drained semaphore must report under_pressure");
    pool.check_in(a, 0);
    assert!(!pool.under_pressure(), "releasing one permit must clear pressure");
}

#[test]
fn upgrade_reserve_to_main_noop_on_empty_pool() {
    let mut coord = PoolCoordinator::new(
        "test_db".to_string(),
        CoordinatorConfig {
            max_db_connections: 4,
            min_connection_lifetime_ms: 5000,
            reserve_pool_size: 2,
            reserve_pool_timeout_ms: 100,
        },
    );
    let mut pool = test_pool(4, true);
    assert_eq!(pool.upgrade_reserve_to_main(&mut coord), 0);
    assert_eq!(coord.reserve_in_use, 0);
    assert_eq!(coord.main_in_use, 0);
}

#[test]
fn direct_handoff_delivers_to_oldest_waiter() {
    let mut pool = test_pool(4, false);
    let held = take(&mut pool);
    let (_c1, s1) = check_out_limited(&mut pool);
    let (_c2, s2) = check_out_limited(&mut pool);
    assert!(matches!(s1, CheckoutStep::AwaitHandover(_)));
    assert!(matches!(s2, CheckoutStep::AwaitHandover(_)));
    assert_eq!(pool.waiters.len(), 2);
    let oldest = pool.waiters[0].id;
    match pool.check_in(held, 0) {
        Returned::HandedOver(id) => assert_eq!(id, oldest),
        _ => panic!("expected a handover"),
    }
    assert_eq!(pool.waiters.len(), 1);
    assert_eq!(pool.mailbox.len(), 1);
}

#[test]
fn direct_handoff_skips_dropped_receiver() {
    let mut pool = test_pool(4, false);
    let held = take(&mut pool);
    let (_c1, _s1) = check_out_limited(&mut pool);
    let (_c2, _s2) = check_out_limited(&mut pool);
    pool.waiters[0].live = false;
    let second = pool.waiters[1].id;
    match pool.check_in(held, 0) {
        Returned::HandedOver(id) => assert_eq!(id, second),
        _ => panic!("expected a handover"),
    }
}

#[test]
fn direct_handoff_falls_back_when_no_waiters() {
    let mut pool = test_pool(4, false);
    let held = take(&mut pool);
    assert!(matches!(pool.check_in(held, 0), Returned::Idle));
    assert_eq!(pool.idle.len(), 1);
}

#[test]
fn semaphore_permit_restored_on_handoff() {
    let mut pool = test_pool(4, false);
    let held = take(&mut pool);
    let (_c, _s) = check_out_limited(&mut pool);
    let before = pool.counters.permits;
    pool.check_in(held, 0);
    assert_eq!(pool.counters.permits, before + 1);
}

#[test]
fn semaphore_permit_restored_on_idle_return() {
    let mut pool = test_pool(4, false);
    let held = take(&mut pool);
    assert_eq!(pool.counters.permits, 3);
    pool.check_in(held, 0);
    assert_eq!(pool.counters.permits, 4);
}

#[test]
fn semaphore_does_not_drain_after_n_handoffs() {
    let mut pool = test_pool(4, false);
    for iteration in 0..100 {
        let a = take(&mut pool);
        let (mut c, s) = check_out_limited(&mut pool);
        assert!(matches!(s, CheckoutStep::AwaitHandover(_)));
        pool.check_in(a, 0);
        let mut step = c.advance(&mut pool, CheckoutEvent::Handed, WARM);
        let b = loop {
            step = match step {
                CheckoutStep::Done { inner, .. } => break inner,
                CheckoutStep::Recycle { inner, .. } => {
                    c.advance(&mut pool, CheckoutEvent::Usable(inner), WARM)
                }
                _ => c.advance(&mut pool, CheckoutEvent::Go, WARM),
            };
        };
        pool.check_in(b, 0);
        assert_eq!(pool.counters.permits, 4, "permit leak at iteration {iteration}");
        assert_eq!(pool.counters.size, 1);
    }
}

#[test]
fn full_cycle_idle_preserves_permits() {
    let mut pool = test_pool(8, false);
    for _ in 0..50 {
        let inner = take(&mut pool);
        pool.check_in(inner, 0);
    }
    assert_eq!(pool.counters.permits, 8);
    assert_eq!(pool.counters.size, 1);
    assert_eq!(pool.counters.users, 0);
}

#[test]
fn pre_replace_does_not_inflate_semaphore() {
    let mut pool = test_pool(4, false);
    for _ in 0..3 {
        pool.counters.pre_replacements_in_flight += 1;
        assert!(matches!(pool.pre_replace_one(), BackgroundStep::Create(None)));
        pool.replacement_made(ObjectInner {
            obj: server(),
            metrics: Metrics::new(60_000, 60_000, 0, 0),
            coordinator_permit: None,
        });
    }
    assert_eq!(pool.counters.permits, 4, "pre_replace_one must not inflate the semaphore");
    assert_eq!(pool.idle.len(), 3);
    let mut held = Vec::new();
    for _ in 0..4 {
        held.push(take(&mut pool));
    }
    assert_eq!(pool.counters.permits, 0);
    assert!(matches!(check_out(&mut pool, OUTLOOK).1, CheckoutStep::AwaitPermit(_)));
}

#[test]
fn a_broken_connection_is_not_kept() {
    let mut pool = test_pool(2, false);
    let mut held = take(&mut pool);
    held.obj.mark_bad();
    assert!(matches!(pool.check_in(held, 0), Returned::Evicted(_)));
    assert_eq!(pool.counters.size, 0);
    assert_eq!(pool.counters.permits, 2);
}

#[test]
fn a_closed_pool_turns_clients_away() {
    let mut pool = test_pool(2, false);
    pool.close();
    assert!(pool.is_closed());
    match check_out(&mut pool, OUTLOOK).1 {
        CheckoutStep::Failed { error, .. } => {
            assert!(matches!(error, PoolError::Closed));
            assert_eq!(pool.counters.users, 0);
        }
        _ => panic!("expected a failure"),
    }
}

#[test]
fn a_checkout_that_cannot_connect_reports_why() {
    let mut pool = test_pool(2, false);
    let (mut c, mut step) = Checkout::begin(&mut pool, NO_LIMITS, false, 0, false);
    loop {
        step = match step {
            CheckoutStep::Create(_) => c.advance(
                &mut pool,
                CheckoutEvent::NotMade(Error::ConnectError("refused".to_string())),
                OUTLOOK,
            ),
            CheckoutStep::Failed { error, .. } => {
                match error {
                    PoolError::Backend(Error::ConnectError(m)) => assert_eq!(m, "refused"),
                    other => panic!("unexpected {other:?}"),
                }
                break;
            }
            _ => c.advance(&mut pool, CheckoutEvent::Go, OUTLOOK),
        };
    }
    assert_eq!(pool.counters.permits, 2);
    assert_eq!(pool.counters.inflight_creates, 0);
    assert_eq!(pool.counters.size, 0);
}

#[test]
fn waiting_for_a_permit_has_an_end() {
    let mut pool = test_pool(1, false);
    let _held = take(&mut pool);
    let (mut c, step) = check_out(&mut pool, OUTLOOK);
    assert!(matches!(step, CheckoutStep::AwaitPermit(Some(1_000))));
    match c.advance(&mut pool, CheckoutEvent::TimedOut, OUTLOOK) {
        CheckoutStep::Failed { error, .. } => {
            assert!(matches!(error, PoolError::Timeout(TimeoutType::Wait)))
        }
        _ => panic!("expected a timeout"),
    }
}

#[test]
fn a_paused_pool_makes_clients_wait() {
    let mut pool = test_pool(1, false);
    pool.pause();
    assert!(pool.is_paused());
    let (_, step) = pool.timeout_get(NO_LIMITS, 0);
    assert!(matches!(step, CheckoutStep::AwaitResume(Some(1_000))));
    let (_, step) = pool.get(0);
    assert!(matches!(step, CheckoutStep::AwaitResume(limit) if limit == pool.timeouts().wait));
    assert_eq!(pool.counters.users, 2);
    pool.resume();
    assert!(!pool.is_paused());
    let (_, step) = pool.get(0);
    assert!(matches!(step, CheckoutStep::Again));
}

#[test]
fn reconnecting_closes_what_is_idle_and_ages_the_rest() {
    let mut pool = test_pool(2, false);
    let a = take(&mut pool);
    pool.check_in(a, 0);
    let (epoch, closed) = pool.reconnect();
    assert_eq!(epoch, 1);
    assert_eq!(closed.len(), 1);
    assert_eq!(pool.reconnect_epoch(), 1);
    assert_eq!(pool.counters.size, 0);
}

#[test]
fn shrinking_closes_idle_connections() {
    let mut pool = test_pool(3, false);
    let a = take(&mut pool);
    let b = take(&mut pool);
    pool.check_in(a, 0);
    pool.check_in(b, 0);
    let closed = pool.resize(1);
    assert_eq!(closed.len(), 1);
    assert_eq!(pool.status().max_size, 1);
    assert_eq!(pool.status().size, 1);
}

#[test]
fn a_smaller_pool_gives_fewer_permits() {
    let mut pool = test_pool(4, false);
    assert!(pool.resize(2).is_empty());
    assert_eq!(pool.status().max_size, 2);
    assert_eq!(pool.counters.permits, 2);
    let _a = take(&mut pool);
    let _b = take(&mut pool);
    assert!(matches!(check_out(&mut pool, OUTLOOK).1, CheckoutStep::AwaitPermit(_)));
    // Permits in use are not taken away.
    let mut pool = test_pool(4, false);
    let _held = [take(&mut pool), take(&mut pool), take(&mut pool)];
    pool.resize(1);
    assert_eq!(pool.counters.permits, 0);
    let mut pool = test_pool(2, false);
    pool.resize(5);
    assert_eq!(pool.counters.permits, 5);
}

#[test]
fn only_older_connections_are_evicted() {
    let mut pool = test_pool(1, false);
    let a = take(&mut pool);
    pool.check_in(a, 0);
    assert!(pool.evict_one_idle(1_000, 1_000).is_empty());
    assert_eq!(pool.idle.len(), 1);
    assert_eq!(pool.evict_one_idle(1_000, 1_001).len(), 1);
    assert_eq!(pool.counters.size, 0);
}

#[test]
fn reserve_connections_are_closed_after_their_time() {
    let mut pool = test_pool(1, true);
    let mut a = take(&mut pool);
    a.coordinator_permit = Some(CoordinatorPermit { is_reserve: true });
    pool.check_in(a, 0);
    assert!(pool.close_idle_reserve_connections(500, 500).is_empty());
    assert_eq!(pool.close_idle_reserve_connections(500, 501).len(), 1);
}

#[test]
fn clients_who_hold_a_connection_are_users() {
    let mut pool = test_pool(3, false);
    let a = take(&mut pool);
    let b = take(&mut pool);
    pool.check_in(b, 0);
    assert_eq!(pool.counters.users, 1);
    assert_eq!((pool.status().size, pool.status().available), (2, 1));
    pool.check_in(a, 0);
    assert_eq!((pool.counters.users, pool.status().available), (0, 2));
}

#[test]
fn filling_up_stops_at_the_first_failure() {
    let mut pool = test_pool(5, false);
    let made = || ObjectInner {
        obj: server(),
        metrics: Metrics::new(60_000, 60_000, 0, 0),
        coordinator_permit: None,
    };
    let mut work = Replenishing::new(3);
    for _ in 0..2 {
        assert!(matches!(pool.replenish_next(&mut work), ReplenishStep::Create(None)));
        assert!(pool.replenish_ended(&mut work, Some(made())).is_none());
    }
    assert!(matches!(pool.replenish_next(&mut work), ReplenishStep::Create(None)));
    assert!(pool.replenish_ended(&mut work, None).is_none());
    assert!(matches!(pool.replenish_next(&mut work), ReplenishStep::Over(2)));
    assert_eq!((pool.counters.size, pool.counters.inflight_creates), (2, 0));

    let mut work = Replenishing::new(1);
    assert!(matches!(pool.replenish_next(&mut work), ReplenishStep::Create(None)));
    pool.resize(2);
    assert!(pool.replenish_ended(&mut work, Some(made())).is_some());
    assert!(matches!(pool.replenish_next(&mut work), ReplenishStep::Over(0)));

    let mut limit = PoolCoordinator::new(
        "test_db".to_string(),
        CoordinatorConfig {
            max_db_connections: 1,
            min_connection_lifetime_ms: 0,
            reserve_pool_size: 0,
            reserve_pool_timeout_ms: 0,
        },
    );
    let mut pool = test_pool(5, true);
    let mut work = Replenishing::new(5);
    assert!(matches!(
        pool.replenish_next_within(&mut work, &mut limit),
        ReplenishStep::Create(Some(_))
    ));
    assert!(pool.replenish_ended(&mut work, Some(made())).is_none());
    assert!(matches!(
        pool.replenish_next_within(&mut work, &mut limit),
        ReplenishStep::Over(1)
    ));
}

#[test]
fn the_oldest_are_closed_first() {
    let mut pool = test_pool(3, false);
    let a = take(&mut pool);
    let mut b = take(&mut pool);
    b.metrics.created_ms = 500;
    pool.check_in(a, 1_000);
    pool.check_in(b, 1_000);
    let closed = pool.retain_oldest_first(|_: &Server, _: &Metrics| true, 1, 1_000);
    assert_eq!(closed.len(), 1);
    assert_eq!(closed[0].metrics.created_ms, 0);
    assert_eq!(pool.idle.len(), 1);
}

#[test]
fn reserve_connections_move_to_the_limit_when_there_is_room() {
    let mut coord = PoolCoordinator::new(
        "test_db".to_string(),
        CoordinatorConfig {
            max_db_connections: 1,
            min_connection_lifetime_ms: 0,
            reserve_pool_size: 1,
            reserve_pool_timeout_ms: 0,
        },
    );
    let main = coord.try_acquire().unwrap();
    assert!(!main.is_reserve);
    assert!(coord.try_acquire().is_none());
    coord.reserve_in_use = 1;
    let mut pool = test_pool(2, true);
    let mut held = take(&mut pool);
    held.coordinator_permit = Some(CoordinatorPermit { is_reserve: true });
    pool.check_in(held, 0);
    // The limit is reached, so nothing moves.
    assert_eq!(pool.upgrade_reserve_to_main(&mut coord), 0);
    coord.release(main);
    assert_eq!(pool.upgrade_reserve_to_main(&mut coord), 1);
    assert_eq!(coord.main_in_use, 1);
    assert_eq!(coord.reserve_in_use, 0);
    let closed = pool.drain();
    return_permits(&mut coord, &closed);
    assert_eq!(coord.main_in_use, 0);
}

#[test]
fn a_checkout_takes_only_what_fits() {
    let mut pool = test_pool(2, false);
    let (c, step) = Checkout::begin(&mut pool, NO_LIMITS, false, 0, false);
    assert!(c.accepts(&pool, &CheckoutEvent::Go));
    assert!(!c.accepts(&pool, &CheckoutEvent::NoLeave));
    assert!(!c.accepts(&pool, &CheckoutEvent::Unusable));
    let (c, step) = run(&mut pool, c, step, OUTLOOK);
    assert!(matches!(step, CheckoutStep::Done { .. }));
    // A checkout that is over takes nothing.
    assert!(!c.accepts(&pool, &CheckoutEvent::Go));
    // Nor does one that the pool has not counted.
    let (c, _) = Checkout::begin(&mut pool, NO_LIMITS, false, 0, false);
    let other = test_pool(2, false);
    assert!(c.accepts(&pool, &CheckoutEvent::Go));
    assert!(!c.accepts(&other, &CheckoutEvent::Go));
}
