//! What is exported of the lookup of users.
use vstd::prelude::*;
use crate::pool::id_map::IdMap;
use crate::string_map::StringMap;
use crate::text::same_text;
use crate::web::metrics::pools::{append_reading, reading2};
use crate::web::metrics::tracker::{CounterDeltaTracker, Reading};
use crate::web::metrics::update::{push0, push2, Family, Op, Update};
#[allow(unused_imports)]
use crate::pool::id_map::Id;
#[allow(unused_imports)]
use crate::web::metrics::label_map::Labels;
#[allow(unused_imports)]
use crate::web::metrics::tracker;
#[allow(unused_imports)]
use crate::web::metrics::tracker::{Mark, Sample};
#[allow(unused_imports)]
use crate::web::metrics::update;
#[allow(unused_imports)]
use crate::web::metrics::update::Change;

verus! {

/// What the lookup of the users of a database has counted.
#[derive(Debug, Clone, Copy, PartialEq, Eq, Default)]
pub struct AuthQueryStats {
    /// Which incarnation of the lookup counted.
    pub generation: u64,
    pub cache_entries: u64,
    pub cache_hits: u64,
    pub cache_misses: u64,
    pub cache_refetches: u64,
    pub cache_rate_limited: u64,
    pub auth_success: u64,
    pub auth_failure: u64,
    pub executor_queries: u64,
    pub executor_errors: u64,
    pub dynamic_pools_created: u64,
    pub dynamic_pools_destroyed: u64,
}

/// How many of the pools belong to a database.
pub open spec fn pools_of(dynamic: Seq<(Id, ())>, db: Seq<char>) -> nat
    decreases dynamic.len(),
{
    if dynamic.len() == 0 {
        0
    } else {
        pools_of(dynamic.drop_last(), db) + if dynamic.last().0.0 == db {
            1nat
        } else {
            0
        }
    }
}

/// There are no more pools of a database than pools.
proof fn pools_of_bound(dynamic: Seq<(Id, ())>, db: Seq<char>)
    ensures
        pools_of(dynamic, db) <= dynamic.len(),
    decreases dynamic.len(),
{
    if dynamic.len() > 0 {
        pools_of_bound(dynamic.drop_last(), db);
    }
}

/// Counts the pools of a database.
pub fn count_pools(dynamic: &IdMap<()>, db: &str) -> (n: usize)
    ensures
        n == pools_of(dynamic.listing(), db@),
{
    let ghost s = dynamic.listing();
    let len: usize = dynamic.len();
    let mut n: usize = 0;
    let mut i: usize = 0;
    assert(s.take(0) =~= Seq::<(Id, ())>::empty());
    while i < len
        invariant
            i <= len,
            len == s.len(),
            s == dynamic.listing(),
            n == pools_of(s.take(i as int), db@),
        decreases len - i,
    {
        proof {
            assert(s.take(i + 1).drop_last() =~= s.take(i as int));
            pools_of_bound(s.take(i as int), db@);
        }
        if same_text(dynamic.id(i).db.as_str(), db) {
            n = n + 1;
        }
        i = i + 1;
    }
    assert(s.take(len as int) =~= s);
    n
}

/// The changes that show the lookup for a database.
pub open spec fn lookup_shown(
    before: Seq<Change>,
    db: Seq<char>,
    s: AuthQueryStats,
    current: u64,
) -> Seq<Change> {
    before.push(
        update::change(Family::AuthQueryCache, Op::Show(s.cache_entries), seq!["entries"@, db]),
    ).push(
        update::change(Family::AuthQueryCache, Op::Show(s.cache_hits), seq!["hits"@, db]),
    ).push(
        update::change(Family::AuthQueryCache, Op::Show(s.cache_misses), seq!["misses"@, db]),
    ).push(
        update::change(Family::AuthQueryCache, Op::Show(s.cache_refetches), seq!["refetches"@, db]),
    ).push(
        update::change(
            Family::AuthQueryCache,
            Op::Show(s.cache_rate_limited),
            seq!["rate_limited"@, db],
        ),
    ).push(
        update::change(Family::AuthQueryAuth, Op::Show(s.auth_success), seq!["success"@, db]),
    ).push(
        update::change(Family::AuthQueryAuth, Op::Show(s.auth_failure), seq!["failure"@, db]),
    ).push(
        update::change(Family::AuthQueryExecutor, Op::Show(s.executor_queries), seq!["queries"@, db]),
    ).push(
        update::change(Family::AuthQueryExecutor, Op::Show(s.executor_errors), seq!["errors"@, db]),
    ).push(
        update::change(Family::AuthQueryDynamicPools, Op::Show(current), seq!["current"@, db]),
    ).push(
        update::change(
            Family::AuthQueryDynamicPools,
            Op::Show(s.dynamic_pools_created),
            seq!["created"@, db],
        ),
    ).push(
        update::change(
            Family::AuthQueryDynamicPools,
            Op::Show(s.dynamic_pools_destroyed),
            seq!["destroyed"@, db],
        ),
    )
}

/// Shows the lookup for a database.
fn show_lookup(out: &mut Vec<Update>, db: &str, s: &AuthQueryStats, current: u64)
    ensures
        update::changes(final(out)@) == lookup_shown(update::changes(old(out)@), db@, *s, current),
{
    push2(out, Family::AuthQueryCache, Op::Show(s.cache_entries), "entries", db);
    push2(out, Family::AuthQueryCache, Op::Show(s.cache_hits), "hits", db);
    push2(out, Family::AuthQueryCache, Op::Show(s.cache_misses), "misses", db);
    push2(out, Family::AuthQueryCache, Op::Show(s.cache_refetches), "refetches", db);
    push2(out, Family::AuthQueryCache, Op::Show(s.cache_rate_limited), "rate_limited", db);
    push2(out, Family::AuthQueryAuth, Op::Show(s.auth_success), "success", db);
    push2(out, Family::AuthQueryAuth, Op::Show(s.auth_failure), "failure", db);
    push2(out, Family::AuthQueryExecutor, Op::Show(s.executor_queries), "queries", db);
    push2(out, Family::AuthQueryExecutor, Op::Show(s.executor_errors), "errors", db);
    push2(out, Family::AuthQueryDynamicPools, Op::Show(current), "current", db);
    push2(out, Family::AuthQueryDynamicPools, Op::Show(s.dynamic_pools_created), "created", db);
    push2(out, Family::AuthQueryDynamicPools, Op::Show(s.dynamic_pools_destroyed), "destroyed", db);
}

/// The changes that show all lookups.
pub open spec fn lookups_shown(
    before: Seq<Change>,
    states: Seq<(Seq<char>, AuthQueryStats)>,
    dynamic: Seq<(Id, ())>,
) -> Seq<Change>
    decreases states.len(),
{
    if states.len() == 0 {
        before
    } else {
        let (db, s) = states.last();
        lookup_shown(
            lookups_shown(before, states.drop_last(), dynamic),
            db,
            s,
            pools_of(dynamic, db) as u64,
        )
    }
}

/// What one counter of a lookup says.
pub open spec fn lookup_sample(
    kind: Seq<char>,
    db: Seq<char>,
    generation: u64,
    value: u64,
) -> Sample {
    Sample { labels: seq![kind, db], generation, value }
}

/// What the caches of lookups have counted.
pub open spec fn cache_samples(states: Seq<(Seq<char>, AuthQueryStats)>) -> Seq<Sample>
    decreases states.len(),
{
    if states.len() == 0 {
        Seq::empty()
    } else {
        let (db, s) = states.last();
        cache_samples(states.drop_last()).push(
            lookup_sample("hits"@, db, s.generation, s.cache_hits),
        ).push(lookup_sample("misses"@, db, s.generation, s.cache_misses)).push(
            lookup_sample("refetches"@, db, s.generation, s.cache_refetches),
        ).push(lookup_sample("rate_limited"@, db, s.generation, s.cache_rate_limited))
    }
}

/// How many users were let in and turned away.
pub open spec fn outcome_samples(states: Seq<(Seq<char>, AuthQueryStats)>) -> Seq<Sample>
    decreases states.len(),
{
    if states.len() == 0 {
        Seq::empty()
    } else {
        let (db, s) = states.last();
        outcome_samples(states.drop_last()).push(
            lookup_sample("success"@, db, s.generation, s.auth_success),
        ).push(lookup_sample("failure"@, db, s.generation, s.auth_failure))
    }
}

/// How many lookups were run and failed.
pub open spec fn executor_samples(states: Seq<(Seq<char>, AuthQueryStats)>) -> Seq<Sample>
    decreases states.len(),
{
    if states.len() == 0 {
        Seq::empty()
    } else {
        let (db, s) = states.last();
        executor_samples(states.drop_last()).push(
            lookup_sample("queries"@, db, s.generation, s.executor_queries),
        ).push(lookup_sample("errors"@, db, s.generation, s.executor_errors))
    }
}

/// How many pools of looked up users came and went.
pub open spec fn dynamic_samples(states: Seq<(Seq<char>, AuthQueryStats)>) -> Seq<Sample>
    decreases states.len(),
{
    if states.len() == 0 {
        Seq::empty()
    } else {
        let (db, s) = states.last();
        dynamic_samples(states.drop_last()).push(
            lookup_sample("created"@, db, s.generation, s.dynamic_pools_created),
        ).push(lookup_sample("destroyed"@, db, s.generation, s.dynamic_pools_destroyed))
    }
}

/// The changes by which the series of lookups go.
pub open spec fn lookups_reset(before: Seq<Change>) -> Seq<Change> {
    before.push(update::change(Family::AuthQueryCache, Op::Reset, seq![])).push(
        update::change(Family::AuthQueryAuth, Op::Reset, seq![]),
    ).push(update::change(Family::AuthQueryExecutor, Op::Reset, seq![])).push(
        update::change(Family::AuthQueryDynamicPools, Op::Reset, seq![]),
    )
}

/// What was exported of lookups last.
#[derive(Debug)]
pub struct LookupTrackers {
    pub cache: CounterDeltaTracker,
    pub auth: CounterDeltaTracker,
    pub executor: CounterDeltaTracker,
    pub dynamic_pools: CounterDeltaTracker,
}

/// The same, as the contracts speak of it.
pub struct LookupMarks {
    pub cache: Seq<(Labels, Mark)>,
    pub auth: Seq<(Labels, Mark)>,
    pub executor: Seq<(Labels, Mark)>,
    pub dynamic_pools: Seq<(Labels, Mark)>,
}

impl View for LookupTrackers {
    type V = LookupMarks;

    open spec fn view(&self) -> LookupMarks {
        LookupMarks {
            cache: self.cache.marks.listing(),
            auth: self.auth.marks.listing(),
            executor: self.executor.marks.listing(),
            dynamic_pools: self.dynamic_pools.marks.listing(),
        }
    }
}

/// The changes when lookups are exported. Without any lookup their series go,
/// and their counters stay as they are.
pub open spec fn lookups_exported(
    before: Seq<Change>,
    states: Seq<(Seq<char>, AuthQueryStats)>,
    dynamic: Seq<(Id, ())>,
    t: LookupMarks,
) -> Seq<Change> {
    let a = lookups_reset(before);
    if states.len() == 0 {
        a
    } else {
        let b = lookups_shown(a, states, dynamic);
        let c = tracker::exported(b, Family::AuthQueryCacheTotal, t.cache, cache_samples(states));
        let d = tracker::exported(c, Family::AuthQueryAuthTotal, t.auth, outcome_samples(states));
        let e = tracker::exported(
            d,
            Family::AuthQueryExecutorTotal,
            t.executor,
            executor_samples(states),
        );
        tracker::exported(
            e,
            Family::AuthQueryDynamicPoolsTotal,
            t.dynamic_pools,
            dynamic_samples(states),
        )
    }
}

/// What was exported of lookups after they were.
pub open spec fn lookups_after(
    t: LookupMarks,
    states: Seq<(Seq<char>, AuthQueryStats)>,
) -> LookupMarks {
    if states.len() == 0 {
        t
    } else {
        LookupMarks {
            cache: tracker::marks_after(t.cache, cache_samples(states)),
            auth: tracker::marks_after(t.auth, outcome_samples(states)),
            executor: tracker::marks_after(t.executor, executor_samples(states)),
            dynamic_pools: tracker::marks_after(t.dynamic_pools, dynamic_samples(states)),
        }
    }
}

/// Reads what the caches of lookups have counted.
fn cache_readings(states: &StringMap<AuthQueryStats>) -> (r: Vec<Reading>)
    ensures
        tracker::samples(r@) == cache_samples(states.listing()),
{
    let ghost s = states.listing();
    let n: usize = states.len();
    let mut r: Vec<Reading> = Vec::new();
    let mut i: usize = 0;
    proof {
        assert(s.take(0) =~= Seq::<(Seq<char>, AuthQueryStats)>::empty());
        assert(tracker::samples(r@) =~= Seq::<Sample>::empty());
    }
    while i < n
        invariant
            i <= n,
            n == s.len(),
            s == states.listing(),
            tracker::samples(r@) == cache_samples(s.take(i as int)),
        decreases n - i,
    {
        assert(s.take(i + 1).drop_last() =~= s.take(i as int));
        let db = states.key(i).as_str();
        let v = states.value(i);
        append_reading(&mut r, reading2("hits", db, v.generation, v.cache_hits));
        append_reading(&mut r, reading2("misses", db, v.generation, v.cache_misses));
        append_reading(&mut r, reading2("refetches", db, v.generation, v.cache_refetches));
        append_reading(&mut r, reading2("rate_limited", db, v.generation, v.cache_rate_limited));
        i = i + 1;
    }
    assert(s.take(n as int) =~= s);
    r
}

/// Reads how many users were let in and turned away.
fn outcome_readings(states: &StringMap<AuthQueryStats>) -> (r: Vec<Reading>)
    ensures
        tracker::samples(r@) == outcome_samples(states.listing()),
{
    let ghost s = states.listing();
    let n: usize = states.len();
    let mut r: Vec<Reading> = Vec::new();
    let mut i: usize = 0;
    proof {
        assert(s.take(0) =~= Seq::<(Seq<char>, AuthQueryStats)>::empty());
        assert(tracker::samples(r@) =~= Seq::<Sample>::empty());
    }
    while i < n
        invariant
            i <= n,
            n == s.len(),
            s == states.listing(),
            tracker::samples(r@) == outcome_samples(s.take(i as int)),
        decreases n - i,
    {
        assert(s.take(i + 1).drop_last() =~= s.take(i as int));
        let db = states.key(i).as_str();
        let v = states.value(i);
        append_reading(&mut r, reading2("success", db, v.generation, v.auth_success));
        append_reading(&mut r, reading2("failure", db, v.generation, v.auth_failure));
        i = i + 1;
    }
    assert(s.take(n as int) =~= s);
    r
}

/// Reads how many lookups were run and failed.
fn executor_readings(states: &StringMap<AuthQueryStats>) -> (r: Vec<Reading>)
    ensures
        tracker::samples(r@) == executor_samples(states.listing()),
{
    let ghost s = states.listing();
    let n: usize = states.len();
    let mut r: Vec<Reading> = Vec::new();
    let mut i: usize = 0;
    proof {
        assert(s.take(0) =~= Seq::<(Seq<char>, AuthQueryStats)>::empty());
        assert(tracker::samples(r@) =~= Seq::<Sample>::empty());
    }
    while i < n
        invariant
            i <= n,
            n == s.len(),
            s == states.listing(),
            tracker::samples(r@) == executor_samples(s.take(i as int)),
        decreases n - i,
    {
        assert(s.take(i + 1).drop_last() =~= s.take(i as int));
        let db = states.key(i).as_str();
        let v = states.value(i);
        append_reading(&mut r, reading2("queries", db, v.generation, v.executor_queries));
        append_reading(&mut r, reading2("errors", db, v.generation, v.executor_errors));
        i = i + 1;
    }
    assert(s.take(n as int) =~= s);
    r
}

/// Reads how many pools of looked up users came and went.
fn dynamic_readings(states: &StringMap<AuthQueryStats>) -> (r: Vec<Reading>)
    ensures
        tracker::samples(r@) == dynamic_samples(states.listing()),
{
    let ghost s = states.listing();
    let n: usize = states.len();
    let mut r: Vec<Reading> = Vec::new();
    let mut i: usize = 0;
    proof {
        assert(s.take(0) =~= Seq::<(Seq<char>, AuthQueryStats)>::empty());
        assert(tracker::samples(r@) =~= Seq::<Sample>::empty());
    }
    while i < n
        invariant
            i <= n,
            n == s.len(),
            s == states.listing(),
            tracker::samples(r@) == dynamic_samples(s.take(i as int)),
        decreases n - i,
    {
        assert(s.take(i + 1).drop_last() =~= s.take(i as int));
        let db = states.key(i).as_str();
        let v = states.value(i);
        append_reading(&mut r, reading2("created", db, v.generation, v.dynamic_pools_created));
        append_reading(&mut r, reading2("destroyed", db, v.generation, v.dynamic_pools_destroyed));
        i = i + 1;
    }
    assert(s.take(n as int) =~= s);
    r
}

/// Exports the lookups of users.
pub fn update_auth_query_metrics(
    out: &mut Vec<Update>,
    states: &StringMap<AuthQueryStats>,
    dynamic: &IdMap<()>,
    trackers: &mut LookupTrackers,
)
    ensures
        update::changes(final(out)@) == lookups_exported(
            update::changes(old(out)@),
            states.listing(),
            dynamic.listing(),
            old(trackers)@,
        ),
        final(trackers)@ == lookups_after(old(trackers)@, states.listing()),
{
    let ghost s = states.listing();
    let ghost before = lookups_reset(update::changes(out@));
    push0(out, Family::AuthQueryCache, Op::Reset);
    push0(out, Family::AuthQueryAuth, Op::Reset);
    push0(out, Family::AuthQueryExecutor, Op::Reset);
    push0(out, Family::AuthQueryDynamicPools, Op::Reset);
    let n: usize = states.len();
    if n == 0 {
        return;
    }
    let mut i: usize = 0;
    assert(s.take(0) =~= Seq::<(Seq<char>, AuthQueryStats)>::empty());
    while i < n
        invariant
            i <= n,
            n == s.len(),
            s == states.listing(),
            update::changes(out@) == lookups_shown(before, s.take(i as int), dynamic.listing()),
        decreases n - i,
    {
        assert(s.take(i + 1).drop_last() =~= s.take(i as int));
        let db = states.key(i).as_str();
        let current: usize = count_pools(dynamic, db);
        show_lookup(out, db, states.value(i), current as u64);
        i = i + 1;
    }
    assert(s.take(n as int) =~= s);
    trackers.cache.export(Family::AuthQueryCacheTotal, &cache_readings(states), out);
    trackers.auth.export(Family::AuthQueryAuthTotal, &outcome_readings(states), out);
    trackers.executor.export(Family::AuthQueryExecutorTotal, &executor_readings(states), out);
    trackers.dynamic_pools.export(
        Family::AuthQueryDynamicPoolsTotal,
        &dynamic_readings(states),
        out,
    );
}

/// The lookup for a database is shown with its own numbers.
pub proof fn lookups_show_their_numbers(
    m: update::AllShown,
    before: Seq<Change>,
    db: Seq<char>,
    s: AuthQueryStats,
    current: u64,
)
    ensures
        ({
            let b = update::all_applied(m, lookup_shown(before, db, s, current));
            &&& update::shown_at(b, (Family::AuthQueryCache, seq!["entries"@, db])).thousandths == 1000 * s.cache_entries
            &&& update::shown_at(b, (Family::AuthQueryCache, seq!["hits"@, db])).thousandths == 1000 * s.cache_hits
            &&& update::shown_at(b, (Family::AuthQueryCache, seq!["misses"@, db])).thousandths == 1000 * s.cache_misses
            &&& update::shown_at(b, (Family::AuthQueryCache, seq!["refetches"@, db])).thousandths == 1000 * s.cache_refetches
            &&& update::shown_at(b, (Family::AuthQueryCache, seq!["rate_limited"@, db])).thousandths == 1000 * s.cache_rate_limited
            &&& update::shown_at(b, (Family::AuthQueryAuth, seq!["success"@, db])).thousandths == 1000 * s.auth_success
            &&& update::shown_at(b, (Family::AuthQueryAuth, seq!["failure"@, db])).thousandths == 1000 * s.auth_failure
            &&& update::shown_at(b, (Family::AuthQueryExecutor, seq!["queries"@, db])).thousandths == 1000 * s.executor_queries
            &&& update::shown_at(b, (Family::AuthQueryExecutor, seq!["errors"@, db])).thousandths == 1000 * s.executor_errors
            &&& update::shown_at(b, (Family::AuthQueryDynamicPools, seq!["current"@, db])).thousandths == 1000 * current
            &&& update::shown_at(b, (Family::AuthQueryDynamicPools, seq!["created"@, db])).thousandths == 1000 * s.dynamic_pools_created
            &&& update::shown_at(b, (Family::AuthQueryDynamicPools, seq!["destroyed"@, db])).thousandths == 1000 * s.dynamic_pools_destroyed
        }),
{
    assert forall|cs: Seq<Change>, c: Change| #[trigger]
        update::all_applied(m, cs.push(c)) == update::applied(update::all_applied(m, cs), c) by {
        update::appended_is_applied_last(m, cs, c);
    }
    reveal_strlit("entries");
    reveal_strlit("hits");
    reveal_strlit("misses");
    reveal_strlit("refetches");
    reveal_strlit("rate_limited");
    reveal_strlit("success");
    reveal_strlit("failure");
    reveal_strlit("queries");
    reveal_strlit("errors");
    reveal_strlit("current");
    reveal_strlit("created");
    reveal_strlit("destroyed");
    assert(seq!["entries"@, db][0] == "entries"@);
    assert(seq!["hits"@, db][0] == "hits"@);
    assert(seq!["misses"@, db][0] == "misses"@);
    assert(seq!["refetches"@, db][0] == "refetches"@);
    assert(seq!["rate_limited"@, db][0] == "rate_limited"@);
    assert("entries"@.len() == 7 && "hits"@.len() == 4);
    assert("entries"@.len() == 7 && "misses"@.len() == 6);
    assert("entries"@.len() == 7 && "refetches"@.len() == 9);
    assert("entries"@.len() == 7 && "rate_limited"@.len() == 12);
    assert("hits"@.len() == 4 && "misses"@.len() == 6);
    assert("hits"@.len() == 4 && "refetches"@.len() == 9);
    assert("hits"@.len() == 4 && "rate_limited"@.len() == 12);
    assert("misses"@.len() == 6 && "refetches"@.len() == 9);
    assert("misses"@.len() == 6 && "rate_limited"@.len() == 12);
    assert("refetches"@.len() == 9 && "rate_limited"@.len() == 12);
    assert(seq!["success"@, db][0] == "success"@);
    assert(seq!["failure"@, db][0] == "failure"@);
    assert("success"@[0] == 's' && "failure"@[0] == 'f');
    assert(seq!["queries"@, db][0] == "queries"@);
    assert(seq!["errors"@, db][0] == "errors"@);
    assert("queries"@.len() == 7 && "errors"@.len() == 6);
    assert(seq!["current"@, db][0] == "current"@);
    assert(seq!["created"@, db][0] == "created"@);
    assert(seq!["destroyed"@, db][0] == "destroyed"@);
    assert("current"@[1] == 'u' && "created"@[1] == 'r');
    assert("current"@.len() == 7 && "destroyed"@.len() == 9);
    assert("created"@.len() == 7 && "destroyed"@.len() == 9);
}

/// A pool is counted for its own database and for no other.
pub proof fn pools_count_for_their_database(dynamic: Seq<(Id, ())>, id: Id, db: Seq<char>)
    ensures
        pools_of(Seq::empty(), db) == 0,
        pools_of(dynamic.push((id, ())), db) == pools_of(dynamic, db) + (if id.0 == db {
            1int
        } else {
            0int
        }),
{
    assert(dynamic.push((id, ())).drop_last() =~= dynamic);
}

/// Without any lookup nothing is shown of lookups.
pub proof fn without_lookups_nothing_is_shown(
    m: update::AllShown,
    before: Seq<Change>,
    dynamic: Seq<(Id, ())>,
    t: LookupMarks,
    labels: Labels,
)
    ensures
        ({
            let b = update::all_applied(m, lookups_exported(before, Seq::empty(), dynamic, t));
            &&& !b.contains_key((Family::AuthQueryCache, labels))
            &&& !b.contains_key((Family::AuthQueryAuth, labels))
            &&& !b.contains_key((Family::AuthQueryExecutor, labels))
            &&& !b.contains_key((Family::AuthQueryDynamicPools, labels))
        }),
{
    assert forall|cs: Seq<Change>, c: Change| #[trigger]
        update::all_applied(m, cs.push(c)) == update::applied(update::all_applied(m, cs), c) by {
        update::appended_is_applied_last(m, cs, c);
    }
}

/// What a lookup has counted is read under the names of its counters.
pub proof fn lookup_counters_are_read(states: Seq<(Seq<char>, AuthQueryStats)>, db: Seq<char>, s: AuthQueryStats)
    ensures
        ({
            let all = states.push((db, s));
            let sample = |kind: Seq<char>, value: u64|
                Sample { labels: seq![kind, db], generation: s.generation, value };
            &&& cache_samples(all) == cache_samples(states) + seq![
                sample("hits"@, s.cache_hits),
                sample("misses"@, s.cache_misses),
                sample("refetches"@, s.cache_refetches),
                sample("rate_limited"@, s.cache_rate_limited),
            ]
            &&& outcome_samples(all) == outcome_samples(states) + seq![
                sample("success"@, s.auth_success),
                sample("failure"@, s.auth_failure),
            ]
            &&& executor_samples(all) == executor_samples(states) + seq![
                sample("queries"@, s.executor_queries),
                sample("errors"@, s.executor_errors),
            ]
            &&& dynamic_samples(all) == dynamic_samples(states) + seq![
                sample("created"@, s.dynamic_pools_created),
                sample("destroyed"@, s.dynamic_pools_destroyed),
            ]
        }),
{
    assert(states.push((db, s)).drop_last() =~= states);
}

} // verus!
