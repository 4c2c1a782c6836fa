//! What is exported of the backends.
use vstd::prelude::*;
use crate::pool::id_map::{IdMap, PoolIdentifier};
use crate::text::decimal_text;
use crate::web::metrics::label_map::{copy_labels, labels_of, LabelMap};
use crate::web::metrics::pools::{append_reading, reading3, PoolStats};
use crate::web::metrics::tracker::{classify_sqlstate, CounterDeltaTracker, Mark, Reading};
use crate::web::metrics::update::{append, push0, push1, Family, Op, Update};
#[allow(unused_imports)]
use crate::pool::id_map::Id;
#[allow(unused_imports)]
use crate::string_map;
#[allow(unused_imports)]
use crate::text;
#[allow(unused_imports)]
use crate::web::metrics::label_map;
#[allow(unused_imports)]
use crate::web::metrics::label_map::Labels;
#[allow(unused_imports)]
use crate::web::metrics::tracker;
#[allow(unused_imports)]
use crate::web::metrics::tracker::Sample;
#[allow(unused_imports)]
use crate::web::metrics::update;
#[allow(unused_imports)]
use crate::web::metrics::update::Change;

verus! {

/// What the backends of a pool have counted.
#[derive(Debug)]
pub struct AddressStats {
    /// Which incarnation of the pool counted.
    pub generation: u64,
    pub server_cleanup_ok: u64,
    pub server_cleanup_error: u64,
    /// How often each SQLSTATE was reported.
    pub errors_by_sqlstate: Vec<(String, u64)>,
}

/// A sum that stops at the largest number.
pub open spec fn capped_sum(a: u64, b: u64) -> u64 {
    if a + b > u64::MAX {
        u64::MAX
    } else {
        (a + b) as u64
    }
}

/// The errors per class with those of one code added.
pub open spec fn error_added(
    sums: Seq<(Labels, Mark)>,
    id: Id,
    generation: u64,
    code: Seq<char>,
    count: u64,
) -> Seq<(Labels, Mark)> {
    let k = seq![id.1, id.0, tracker::sqlstate_class(code)];
    let sum = match label_map::found(sums, k) {
        Some(m) => m.value,
        None => 0,
    };
    label_map::placed(sums, k, Mark { value: capped_sum(sum, count), generation })
}

/// The errors per class with those of several codes added.
pub open spec fn errors_added(
    sums: Seq<(Labels, Mark)>,
    id: Id,
    generation: u64,
    errors: Seq<(String, u64)>,
) -> Seq<(Labels, Mark)>
    decreases errors.len(),
{
    if errors.len() == 0 {
        sums
    } else {
        error_added(
            errors_added(sums, id, generation, errors.drop_last()),
            id,
            generation,
            errors.last().0@,
            errors.last().1,
        )
    }
}

/// The errors of all pools per user, database and class.
pub open spec fn error_sums(pools: Seq<(Id, AddressStats)>) -> Seq<(Labels, Mark)>
    decreases pools.len(),
{
    if pools.len() == 0 {
        Seq::empty()
    } else {
        let (id, a) = pools.last();
        errors_added(error_sums(pools.drop_last()), id, a.generation, a.errors_by_sqlstate@)
    }
}

/// What marks say as samples.
pub open spec fn mark_samples(s: Seq<(Labels, Mark)>) -> Seq<Sample> {
    Seq::new(
        s.len(),
        |i: int| Sample { labels: s[i].0, generation: s[i].1.generation, value: s[i].1.value },
    )
}

/// Adds the errors of a pool to the errors per class.
fn add_errors(sums: &mut LabelMap<Mark>, id: &PoolIdentifier, a: &AddressStats)
    ensures
        final(sums).listing() == errors_added(
            old(sums).listing(),
            id@,
            a.generation,
            a.errors_by_sqlstate@,
        ),
{
    let ghost start = sums.listing();
    let ghost e = a.errors_by_sqlstate@;
    let mut j: usize = 0;
    assert(e.take(0) =~= Seq::<(String, u64)>::empty());
    while j < a.errors_by_sqlstate.len()
        invariant
            j <= a.errors_by_sqlstate.len(),
            e == a.errors_by_sqlstate@,
            sums.listing() == errors_added(start, id@, a.generation, e.take(j as int)),
        decreases a.errors_by_sqlstate.len() - j,
    {
        assert(e.take(j + 1).drop_last() =~= e.take(j as int));
        let class = classify_sqlstate(a.errors_by_sqlstate[j].0.as_str());
        let list = [id.user.as_str(), id.db.as_str(), class];
        assert(text::views(list@) =~= seq![id.user@, id.db@, class@]);
        let labels = labels_of(&list);
        let sum: u64 = match sums.get(&labels) {
            Some(m) => m.value,
            None => 0,
        };
        let value: u64 = sum.saturating_add(a.errors_by_sqlstate[j].1);
        sums.put(labels, Mark { value, generation: a.generation });
        j = j + 1;
    }
    assert(e.take(e.len() as int) =~= e);
}

/// Reads marks as they stand.
fn readings_of(sums: &LabelMap<Mark>) -> (r: Vec<Reading>)
    ensures
        tracker::samples(r@) == mark_samples(sums.listing()),
{
    let mut r: Vec<Reading> = Vec::new();
    let n: usize = sums.len();
    let ghost s = sums.listing();
    let mut i: usize = 0;
    assert(tracker::samples(r@) =~= mark_samples(s.take(0)));
    while i < n
        invariant
            i <= n,
            n == s.len(),
            s == sums.listing(),
            tracker::samples(r@) == mark_samples(s.take(i as int)),
        decreases n - i,
    {
        let m: Mark = *sums.value(i);
        append_reading(
            &mut r,
            Reading { labels: copy_labels(sums.labels(i)), generation: m.generation, value: m.value },
        );
        assert(tracker::samples(r@) =~= mark_samples(s.take(i + 1)));
        i = i + 1;
    }
    assert(s.take(n as int) =~= s);
    r
}

/// Exports the errors that backends reported, per class.
pub fn update_pool_errors_metrics(
    out: &mut Vec<Update>,
    pools: &IdMap<AddressStats>,
    errors: &mut CounterDeltaTracker,
)
    ensures
        update::changes(final(out)@) == tracker::exported(
            update::changes(old(out)@),
            Family::PoolsErrorsTotal,
            old(errors).marks.listing(),
            mark_samples(error_sums(pools.listing())),
        ),
        final(errors).marks.listing() == tracker::marks_after(
            old(errors).marks.listing(),
            mark_samples(error_sums(pools.listing())),
        ),
{
    let ghost s = pools.listing();
    let mut sums: LabelMap<Mark> = LabelMap::new();
    let n: usize = pools.len();
    let mut i: usize = 0;
    assert(s.take(0) =~= Seq::<(Id, AddressStats)>::empty());
    while i < n
        invariant
            i <= n,
            n == s.len(),
            s == pools.listing(),
            sums.listing() == error_sums(s.take(i as int)),
        decreases n - i,
    {
        assert(s.take(i + 1).drop_last() =~= s.take(i as int));
        add_errors(&mut sums, pools.id(i), pools.value(i));
        i = i + 1;
    }
    assert(s.take(n as int) =~= s);
    let readings = readings_of(&sums);
    errors.export(Family::PoolsErrorsTotal, &readings, out);
}

/// How often sessions were cleaned up, with what result.
pub open spec fn cleanup_samples(pools: Seq<(Id, AddressStats)>) -> Seq<Sample>
    decreases pools.len(),
{
    if pools.len() == 0 {
        Seq::empty()
    } else {
        let (id, a) = pools.last();
        cleanup_samples(pools.drop_last()).push(
            Sample {
                labels: seq![id.1, id.0, "ok"@],
                generation: a.generation,
                value: a.server_cleanup_ok,
            },
        ).push(
            Sample {
                labels: seq![id.1, id.0, "error"@],
                generation: a.generation,
                value: a.server_cleanup_error,
            },
        )
    }
}

/// Exports how often sessions were cleaned up.
pub fn update_server_cleanup_metrics(
    out: &mut Vec<Update>,
    pools: &IdMap<AddressStats>,
    cleanups: &mut CounterDeltaTracker,
)
    ensures
        update::changes(final(out)@) == tracker::exported(
            update::changes(old(out)@),
            Family::ServerCleanupTotal,
            old(cleanups).marks.listing(),
            cleanup_samples(pools.listing()),
        ),
        final(cleanups).marks.listing() == tracker::marks_after(
            old(cleanups).marks.listing(),
            cleanup_samples(pools.listing()),
        ),
{
    let ghost s = pools.listing();
    let mut r: Vec<Reading> = Vec::new();
    let n: usize = pools.len();
    let mut i: usize = 0;
    proof {
        assert(s.take(0) =~= Seq::<(Id, AddressStats)>::empty());
        assert(tracker::samples(r@) =~= Seq::<Sample>::empty());
    }
    while i < n
        invariant
            i <= n,
            n == s.len(),
            s == pools.listing(),
            tracker::samples(r@) == cleanup_samples(s.take(i as int)),
        decreases n - i,
    {
        assert(s.take(i + 1).drop_last() =~= s.take(i as int));
        let user = pools.id(i).user.as_str();
        let db = pools.id(i).db.as_str();
        let a = pools.value(i);
        append_reading(&mut r, reading3(user, db, "ok", a.generation, a.server_cleanup_ok));
        append_reading(&mut r, reading3(user, db, "error", a.generation, a.server_cleanup_error));
        i = i + 1;
    }
    assert(s.take(n as int) =~= s);
    cleanups.export(Family::ServerCleanupTotal, &r, out);
}

/// What is known of a backend when it is exported.
#[derive(Debug)]
pub struct ServerStats {
    /// No two backends have the same.
    pub id: u64,
    pub username: String,
    pub pool_name: String,
    pub prepared_hit_count: u64,
    pub prepared_miss_count: u64,
    pub tls: bool,
}

/// How often prepared statements were at hand.
#[derive(Debug, Clone, Copy, PartialEq, Eq, Structural)]
pub struct Tally {
    pub hits: u64,
    pub misses: u64,
}

/// The label values of the pool of a backend.
pub open spec fn pool_labels(x: ServerStats) -> Labels {
    seq![x.username@, x.pool_name@]
}

/// The tally of a pool; nothing for one that has none.
pub open spec fn tally_of(s: Seq<(Labels, Tally)>, k: Labels) -> Tally {
    match label_map::found(s, k) {
        Some(t) => t,
        None => Tally { hits: 0, misses: 0 },
    }
}

/// The tallies with one added to that of a pool.
pub open spec fn tally_added(s: Seq<(Labels, Tally)>, k: Labels, more: Tally) -> Seq<
    (Labels, Tally),
> {
    let t = tally_of(s, k);
    label_map::placed(
        s,
        k,
        Tally {
            hits: capped_sum(t.hits, more.hits),
            misses: capped_sum(t.misses, more.misses),
        },
    )
}

/// The tallies with those of a backend added.
pub open spec fn tallied(s: Seq<(Labels, Tally)>, x: ServerStats) -> Seq<(Labels, Tally)> {
    tally_added(
        s,
        pool_labels(x),
        Tally { hits: x.prepared_hit_count, misses: x.prepared_miss_count },
    )
}

/// The tallies of all pools.
pub open spec fn all_tallied(servers: Seq<ServerStats>) -> Seq<(Labels, Tally)>
    decreases servers.len(),
{
    if servers.len() == 0 {
        Seq::empty()
    } else {
        tallied(all_tallied(servers.drop_last()), servers.last())
    }
}

/// The changes that count the backends with TLS.
pub open spec fn tls_counted(before: Seq<Change>, servers: Seq<ServerStats>) -> Seq<Change>
    decreases servers.len(),
{
    if servers.len() == 0 {
        before
    } else {
        let rest = tls_counted(before, servers.drop_last());
        if servers.last().tls {
            rest.push(
                update::change(
                    Family::ServerTlsConnections,
                    Op::Add(1),
                    seq![servers.last().pool_name@],
                ),
            )
        } else {
            rest
        }
    }
}

/// The changes by which the series of backends go.
pub open spec fn servers_reset(before: Seq<Change>) -> Seq<Change> {
    before.push(update::change(Family::ServersPreparedHits, Op::Reset, seq![])).push(
        update::change(Family::ServersPreparedMisses, Op::Reset, seq![]),
    ).push(update::change(Family::ServerTlsConnections, Op::Reset, seq![]))
}

/// The changes that show tallies.
pub open spec fn tallies_shown(before: Seq<Change>, s: Seq<(Labels, Tally)>) -> Seq<Change>
    decreases s.len(),
{
    if s.len() == 0 {
        before
    } else {
        let (k, t) = s.last();
        tallies_shown(before, s.drop_last()).push(
            update::change(Family::ServersPreparedHits, Op::Show(t.hits), k),
        ).push(update::change(Family::ServersPreparedMisses, Op::Show(t.misses), k))
    }
}

/// The incarnation of a pool that is known; 0 for one that is not.
pub open spec fn generation_of(pools: Map<Id, PoolStats>, labels: Labels) -> u64 {
    let id = (labels[1], labels[0]);
    if pools.contains_key(id) {
        pools[id].source_generation
    } else {
        0
    }
}

/// What was seen last of how often prepared statements were at hand.
#[derive(Debug)]
pub struct PreparedTrackers {
    /// How often they were, per pool.
    pub hits: CounterDeltaTracker,
    /// How often they were not, per pool.
    pub misses: CounterDeltaTracker,
    /// How often they were, per backend.
    pub backend_hits: CounterDeltaTracker,
    /// How often they were not, per backend.
    pub backend_misses: CounterDeltaTracker,
}

/// The same, as the contracts speak of it.
pub struct PreparedMarks {
    pub hits: Seq<(Labels, Mark)>,
    pub misses: Seq<(Labels, Mark)>,
    pub backend_hits: Seq<(Labels, Mark)>,
    pub backend_misses: Seq<(Labels, Mark)>,
}

impl View for PreparedTrackers {
    type V = PreparedMarks;

    open spec fn view(&self) -> PreparedMarks {
        PreparedMarks {
            hits: self.hits.marks.listing(),
            misses: self.misses.marks.listing(),
            backend_hits: self.backend_hits.marks.listing(),
            backend_misses: self.backend_misses.marks.listing(),
        }
    }
}

/// The label values that tell a backend from all others.
pub open spec fn backend_labels(x: ServerStats) -> Labels {
    seq![x.username@, x.pool_name@, text::decimal(x.id as nat)]
}

/// How often prepared statements were at hand on one backend.
pub open spec fn backend_hit(x: ServerStats, pools: Map<Id, PoolStats>) -> Sample {
    Sample {
        labels: backend_labels(x),
        generation: generation_of(pools, pool_labels(x)),
        value: x.prepared_hit_count,
    }
}

/// How often prepared statements were not at hand on one backend.
pub open spec fn backend_miss(x: ServerStats, pools: Map<Id, PoolStats>) -> Sample {
    Sample { value: x.prepared_miss_count, ..backend_hit(x, pools) }
}

/// The same of all backends.
pub open spec fn backend_hits(servers: Seq<ServerStats>, pools: Map<Id, PoolStats>) -> Seq<Sample> {
    Seq::new(servers.len(), |i: int| backend_hit(servers[i], pools))
}

/// The same of all backends.
pub open spec fn backend_misses(servers: Seq<ServerStats>, pools: Map<Id, PoolStats>) -> Seq<
    Sample,
> {
    Seq::new(servers.len(), |i: int| backend_miss(servers[i], pools))
}

/// How much a sample has grown since it was seen last.
pub open spec fn sample_growth(marks: Seq<(Labels, Mark)>, s: Sample) -> u64 {
    tracker::growth(label_map::found(marks, s.labels), s.generation, s.value)
}

/// What the backends of each pool have counted since they were seen last. One
/// that is gone takes nothing away.
pub open spec fn all_gained(
    servers: Seq<ServerStats>,
    pools: Map<Id, PoolStats>,
    marks: PreparedMarks,
) -> Seq<(Labels, Tally)>
    decreases servers.len(),
{
    if servers.len() == 0 {
        Seq::empty()
    } else {
        let init = servers.drop_last();
        let x = servers.last();
        tally_added(
            all_gained(init, pools, marks),
            pool_labels(x),
            Tally {
                hits: sample_growth(
                    tracker::all_noted(marks.backend_hits, backend_hits(init, pools)),
                    backend_hit(x, pools),
                ),
                misses: sample_growth(
                    tracker::all_noted(marks.backend_misses, backend_misses(init, pools)),
                    backend_miss(x, pools),
                ),
            },
        )
    }
}

/// What was counted for a series so far.
pub open spec fn counted(marks: Seq<(Labels, Mark)>, k: Labels) -> u64 {
    match label_map::found(marks, k) {
        Some(m) => m.value,
        None => 0,
    }
}

/// How often prepared statements were at hand since each pool was seen first.
pub open spec fn hit_samples(
    totals: Seq<(Labels, Tally)>,
    gained: Seq<(Labels, Tally)>,
    marks: Seq<(Labels, Mark)>,
) -> Seq<Sample> {
    Seq::new(
        totals.len(),
        |i: int|
            Sample {
                labels: totals[i].0,
                generation: 0,
                value: capped_sum(
                    counted(marks, totals[i].0),
                    tally_of(gained, totals[i].0).hits,
                ),
            },
    )
}

/// How often prepared statements were not at hand since each pool was seen first.
pub open spec fn miss_samples(
    totals: Seq<(Labels, Tally)>,
    gained: Seq<(Labels, Tally)>,
    marks: Seq<(Labels, Mark)>,
) -> Seq<Sample> {
    Seq::new(
        totals.len(),
        |i: int|
            Sample {
                labels: totals[i].0,
                generation: 0,
                value: capped_sum(
                    counted(marks, totals[i].0),
                    tally_of(gained, totals[i].0).misses,
                ),
            },
    )
}

/// What was counted for a series so far.
fn so_far(t: &CounterDeltaTracker, labels: &Vec<String>) -> (r: u64)
    ensures
        r == counted(t.marks.listing(), text::texts_of(labels@)),
{
    match t.marks.get(labels) {
        Some(m) => m.value,
        None => 0,
    }
}

/// Adds to the tally of a pool.
fn add_tally(totals: &mut LabelMap<Tally>, x: &ServerStats, more: Tally)
    ensures
        final(totals).listing() == tally_added(old(totals).listing(), pool_labels(*x), more),
{
    let list = [x.username.as_str(), x.pool_name.as_str()];
    assert(text::views(list@) =~= pool_labels(*x));
    let labels = labels_of(&list);
    let t: Tally = match totals.get(&labels) {
        Some(t) => *t,
        None => Tally { hits: 0, misses: 0 },
    };
    totals.put(
        labels,
        Tally {
            hits: t.hits.saturating_add(more.hits),
            misses: t.misses.saturating_add(more.misses),
        },
    );
}

/// The incarnation of the pool of a backend.
fn pool_generation(pools: &IdMap<PoolStats>, user: &str, db: &str) -> (r: u64)
    ensures
        r == generation_of(pools@, seq![user@, db@]),
{
    match pools.get(&PoolIdentifier::new(db, user)) {
        Some(p) => p.source_generation,
        None => 0,
    }
}

/// The label values that tell a backend from all others.
fn labels_of_backend(x: &ServerStats) -> (r: Vec<String>)
    ensures
        text::texts_of(r@) == backend_labels(*x),
{
    let id = decimal_text(x.id);
    let list = [x.username.as_str(), x.pool_name.as_str(), id.as_str()];
    assert(text::views(list@) =~= backend_labels(*x));
    labels_of(&list)
}

/// The changes when backends are exported.
pub open spec fn servers_exported(
    before: Seq<Change>,
    servers: Seq<ServerStats>,
    pools: Map<Id, PoolStats>,
    marks: PreparedMarks,
) -> Seq<Change> {
    let totals = all_tallied(servers);
    let gained = all_gained(servers, pools, marks);
    let a = tls_counted(servers_reset(before), servers);
    let b = tallies_shown(a, totals);
    let c = tracker::exported(
        b,
        Family::ServersPreparedHitsTotal,
        marks.hits,
        hit_samples(totals, gained, marks.hits),
    );
    tracker::exported(
        c,
        Family::ServersPreparedMissesTotal,
        marks.misses,
        miss_samples(totals, gained, marks.misses),
    )
}

/// What was seen last after backends were exported.
pub open spec fn prepared_after(
    servers: Seq<ServerStats>,
    pools: Map<Id, PoolStats>,
    marks: PreparedMarks,
) -> PreparedMarks {
    let totals = all_tallied(servers);
    let gained = all_gained(servers, pools, marks);
    PreparedMarks {
        hits: tracker::marks_after(marks.hits, hit_samples(totals, gained, marks.hits)),
        misses: tracker::marks_after(marks.misses, miss_samples(totals, gained, marks.misses)),
        backend_hits: tracker::marks_after(marks.backend_hits, backend_hits(servers, pools)),
        backend_misses: tracker::marks_after(marks.backend_misses, backend_misses(servers, pools)),
    }
}

/// Exports the backends: per user and database how often prepared statements
/// were at hand, on the backends there are now and in all; per pool how many
/// connections use TLS.
pub fn update_server_metrics(
    out: &mut Vec<Update>,
    servers: &Vec<ServerStats>,
    pools: &IdMap<PoolStats>,
    prepared: &mut PreparedTrackers,
)
    ensures
        update::changes(final(out)@) == servers_exported(
            update::changes(old(out)@),
            servers@,
            pools@,
            old(prepared)@,
        ),
        final(prepared)@ == prepared_after(servers@, pools@, old(prepared)@),
{
    let ghost marks = prepared@;
    let ghost before = servers_reset(update::changes(out@));
    let ghost s = servers@;
    push0(out, Family::ServersPreparedHits, Op::Reset);
    push0(out, Family::ServersPreparedMisses, Op::Reset);
    push0(out, Family::ServerTlsConnections, Op::Reset);
    let mut totals: LabelMap<Tally> = LabelMap::new();
    let mut gained: LabelMap<Tally> = LabelMap::new();
    let mut backends: Vec<Vec<String>> = Vec::new();
    let mut i: usize = 0;
    proof {
        assert(s.take(0) =~= Seq::<ServerStats>::empty());
        assert(backend_hits(s.take(0), pools@) =~= Seq::<Sample>::empty());
        assert(backend_misses(s.take(0), pools@) =~= Seq::<Sample>::empty());
        assert(label_map::label_lists(backends@) =~= tracker::sample_labels(
            backend_hits(s.take(0), pools@),
        ));
    }
    while i < servers.len()
        invariant
            i <= servers.len(),
            s == servers@,
            totals.listing() == all_tallied(s.take(i as int)),
            gained.listing() == all_gained(s.take(i as int), pools@, marks),
            prepared.hits.marks.listing() == marks.hits,
            prepared.misses.marks.listing() == marks.misses,
            prepared.backend_hits.marks.listing() == tracker::all_noted(
                marks.backend_hits,
                backend_hits(s.take(i as int), pools@),
            ),
            prepared.backend_misses.marks.listing() == tracker::all_noted(
                marks.backend_misses,
                backend_misses(s.take(i as int), pools@),
            ),
            label_map::label_lists(backends@) == tracker::sample_labels(
                backend_hits(s.take(i as int), pools@),
            ),
            update::changes(out@) == tls_counted(before, s.take(i as int)),
        decreases servers.len() - i,
    {
        let x = &servers[i];
        let ghost ks = label_map::label_lists(backends@);
        proof {
            let now = s.take(i + 1);
            assert(now.drop_last() =~= s.take(i as int));
            assert(backend_hits(now, pools@).drop_last() =~= backend_hits(
                s.take(i as int),
                pools@,
            ));
            assert(backend_misses(now, pools@).drop_last() =~= backend_misses(
                s.take(i as int),
                pools@,
            ));
            assert(backend_hits(now, pools@).last() == backend_hit(*x, pools@));
            assert(backend_misses(now, pools@).last() == backend_miss(*x, pools@));
            assert(tracker::sample_labels(backend_hits(now, pools@)) =~= ks.push(
                backend_labels(*x),
            ));
        }
        add_tally(
            &mut totals,
            x,
            Tally { hits: x.prepared_hit_count, misses: x.prepared_miss_count },
        );
        let generation: u64 = pool_generation(pools, x.username.as_str(), x.pool_name.as_str());
        let hits: u64 = prepared.backend_hits.observe(
            labels_of_backend(x),
            generation,
            x.prepared_hit_count,
        );
        let misses: u64 = prepared.backend_misses.observe(
            labels_of_backend(x),
            generation,
            x.prepared_miss_count,
        );
        add_tally(&mut gained, x, Tally { hits, misses });
        backends.push(labels_of_backend(x));
        assert(label_map::label_lists(backends@) =~= ks.push(backend_labels(*x)));
        if x.tls {
            push1(out, Family::ServerTlsConnections, Op::Add(1), x.pool_name.as_str());
        }
        i = i + 1;
    }
    assert(s.take(s.len() as int) =~= s);
    let ghost shown = update::changes(out@);
    let ghost ts = totals.listing();
    let ghost gs = gained.listing();
    assert(tracker::sample_labels(backend_misses(s, pools@)) =~= tracker::sample_labels(
        backend_hits(s, pools@),
    ));
    let _ = prepared.backend_hits.drain_stale(&backends);
    let _ = prepared.backend_misses.drain_stale(&backends);
    let mut h: Vec<Reading> = Vec::new();
    let mut m: Vec<Reading> = Vec::new();
    let n: usize = totals.len();
    let mut j: usize = 0;
    proof {
        assert(ts.take(0) =~= Seq::<(Labels, Tally)>::empty());
        assert(tracker::samples(h@) =~= hit_samples(ts.take(0), gs, marks.hits));
        assert(tracker::samples(m@) =~= miss_samples(ts.take(0), gs, marks.misses));
    }
    while j < n
        invariant
            j <= n,
            n == ts.len(),
            ts == totals.listing(),
            gs == gained.listing(),
            prepared.hits.marks.listing() == marks.hits,
            prepared.misses.marks.listing() == marks.misses,
            prepared.backend_hits.marks.listing() == tracker::marks_after(
                marks.backend_hits,
                backend_hits(s, pools@),
            ),
            prepared.backend_misses.marks.listing() == tracker::marks_after(
                marks.backend_misses,
                backend_misses(s, pools@),
            ),
            update::changes(out@) == tallies_shown(shown, ts.take(j as int)),
            tracker::samples(h@) == hit_samples(ts.take(j as int), gs, marks.hits),
            tracker::samples(m@) == miss_samples(ts.take(j as int), gs, marks.misses),
        decreases n - j,
    {
        let labels = totals.labels(j);
        let t: Tally = *totals.value(j);
        assert(ts.take(j + 1).drop_last() =~= ts.take(j as int));
        append(
            out,
            Update {
                family: Family::ServersPreparedHits,
                op: Op::Show(t.hits),
                labels: copy_labels(labels),
            },
        );
        append(
            out,
            Update {
                family: Family::ServersPreparedMisses,
                op: Op::Show(t.misses),
                labels: copy_labels(labels),
            },
        );
        let more: Tally = match gained.get(labels) {
            Some(t) => *t,
            None => Tally { hits: 0, misses: 0 },
        };
        let hits: u64 = so_far(&prepared.hits, labels).saturating_add(more.hits);
        let misses: u64 = so_far(&prepared.misses, labels).saturating_add(more.misses);
        append_reading(
            &mut h,
            Reading { labels: copy_labels(labels), generation: 0, value: hits },
        );
        append_reading(
            &mut m,
            Reading { labels: copy_labels(labels), generation: 0, value: misses },
        );
        proof {
            assert(tracker::samples(h@) =~= hit_samples(ts.take(j + 1), gs, marks.hits));
            assert(tracker::samples(m@) =~= miss_samples(ts.take(j + 1), gs, marks.misses));
        }
        j = j + 1;
    }
    assert(ts.take(n as int) =~= ts);
    prepared.hits.export(Family::ServersPreparedHitsTotal, &h, out);
    prepared.misses.export(Family::ServersPreparedMissesTotal, &m, out);
}

/// The backends show what they showed when they were seen last.
pub open spec fn unchanged_since(
    servers: Seq<ServerStats>,
    pools: Map<Id, PoolStats>,
    marks: PreparedMarks,
) -> bool {
    forall|i: int|
        0 <= i < servers.len() ==> {
            let hit = backend_hit(#[trigger] servers[i], pools);
            let miss = backend_miss(servers[i], pools);
            &&& label_map::found(marks.backend_hits, hit.labels) == Some(
                Mark { value: hit.value, generation: hit.generation },
            )
            &&& label_map::found(marks.backend_misses, miss.labels) == Some(
                Mark { value: miss.value, generation: miss.generation },
            )
        }
}

/// Noting once more what was noted finds the same.
proof fn noted_again(marks: Seq<(Labels, Mark)>, s: Seq<Sample>)
    requires
        string_map::unique_keys(marks),
        forall|i: int|
            0 <= i < s.len() ==> label_map::found(marks, (#[trigger] s[i]).labels) == Some(
                Mark { value: s[i].value, generation: s[i].generation },
            ),
    ensures
        string_map::unique_keys(tracker::all_noted(marks, s)),
        forall|k: Labels| #[trigger]
            label_map::found(tracker::all_noted(marks, s), k) == label_map::found(marks, k),
    decreases s.len(),
{
    if s.len() > 0 {
        let init = s.drop_last();
        assert forall|i: int| 0 <= i < init.len() implies label_map::found(
            marks,
            (#[trigger] init[i]).labels,
        ) == Some(Mark { value: init[i].value, generation: init[i].generation }) by {
            assert(init[i] == s[i]);
        }
        noted_again(marks, init);
        let last = s.last();
        assert(last == s[s.len() - 1]);
        label_map::placed_is_found(
            tracker::all_noted(marks, init),
            last.labels,
            Mark { value: last.value, generation: last.generation },
        );
    }
}

/// Adding nothing to tallies that are all nothing leaves them so.
proof fn nothing_added(s: Seq<(Labels, Tally)>, k: Labels)
    requires
        string_map::unique_keys(s),
        forall|x: Labels| #[trigger] tally_of(s, x) == (Tally { hits: 0, misses: 0 }),
    ensures
        string_map::unique_keys(tally_added(s, k, Tally { hits: 0, misses: 0 })),
        forall|x: Labels| #[trigger]
            tally_of(tally_added(s, k, Tally { hits: 0, misses: 0 }), x) == (Tally {
                hits: 0,
                misses: 0,
            }),
{
    let nothing = Tally { hits: 0, misses: 0 };
    assert(tally_of(s, k) == nothing);
    label_map::placed_is_found(s, k, nothing);
    assert forall|x: Labels| #[trigger] tally_of(tally_added(s, k, nothing), x) == nothing by {
        assert(tally_of(s, x) == nothing);
    }
}

/// What backends have gained that show what they showed before.
proof fn unchanged_gain_nothing(
    servers: Seq<ServerStats>,
    pools: Map<Id, PoolStats>,
    marks: PreparedMarks,
)
    requires
        string_map::unique_keys(marks.backend_hits),
        string_map::unique_keys(marks.backend_misses),
        unchanged_since(servers, pools, marks),
    ensures
        string_map::unique_keys(all_gained(servers, pools, marks)),
        forall|k: Labels| #[trigger]
            tally_of(all_gained(servers, pools, marks), k) == (Tally { hits: 0, misses: 0 }),
    decreases servers.len(),
{
    if servers.len() > 0 {
        let init = servers.drop_last();
        assert forall|i: int| 0 <= i < init.len() implies #[trigger] init[i] == servers[i] by {}
        assert(unchanged_since(init, pools, marks)) by {
            assert forall|i: int| 0 <= i < init.len() implies {
                let hit = backend_hit(#[trigger] init[i], pools);
                let miss = backend_miss(init[i], pools);
                &&& label_map::found(marks.backend_hits, hit.labels) == Some(
                    Mark { value: hit.value, generation: hit.generation },
                )
                &&& label_map::found(marks.backend_misses, miss.labels) == Some(
                    Mark { value: miss.value, generation: miss.generation },
                )
            } by {
                assert(init[i] == servers[i]);
            }
        }
        unchanged_gain_nothing(init, pools, marks);
        let hits = backend_hits(init, pools);
        let misses = backend_misses(init, pools);
        assert forall|i: int| 0 <= i < hits.len() implies label_map::found(
            marks.backend_hits,
            (#[trigger] hits[i]).labels,
        ) == Some(Mark { value: hits[i].value, generation: hits[i].generation }) by {
            assert(init[i] == servers[i]);
        }
        assert forall|i: int| 0 <= i < misses.len() implies label_map::found(
            marks.backend_misses,
            (#[trigger] misses[i]).labels,
        ) == Some(Mark { value: misses[i].value, generation: misses[i].generation }) by {
            assert(init[i] == servers[i]);
        }
        noted_again(marks.backend_hits, hits);
        noted_again(marks.backend_misses, misses);
        assert(servers.last() == servers[servers.len() - 1]);
        nothing_added(all_gained(init, pools, marks), pool_labels(servers.last()));
    }
}

/// When backends go and those that are left have counted nothing, the totals stay
/// what they were, although fewer backends add up to less.
pub proof fn rotation_adds_nothing(
    servers: Seq<ServerStats>,
    pools: Map<Id, PoolStats>,
    marks: PreparedMarks,
)
    requires
        string_map::unique_keys(marks.backend_hits),
        string_map::unique_keys(marks.backend_misses),
        unchanged_since(servers, pools, marks),
    ensures
        ({
            let totals = all_tallied(servers);
            let gained = all_gained(servers, pools, marks);
            let hits = hit_samples(totals, gained, marks.hits);
            let misses = miss_samples(totals, gained, marks.misses);
            forall|i: int|
                0 <= i < totals.len() ==> (#[trigger] hits[i]).value == counted(
                    marks.hits,
                    totals[i].0,
                ) && (#[trigger] misses[i]).value == counted(marks.misses, totals[i].0)
        }),
{
    unchanged_gain_nothing(servers, pools, marks);
    let totals = all_tallied(servers);
    let gained = all_gained(servers, pools, marks);
    assert forall|i: int| 0 <= i < totals.len() implies #[trigger] tally_of(gained, totals[i].0)
        == (Tally { hits: 0, misses: 0 }) by {}
}

/// Totals are counted on, whatever incarnation a pool is of.
pub open spec fn cumulative(marks: Seq<(Labels, Mark)>) -> bool {
    forall|i: int| 0 <= i < marks.len() ==> (#[trigger] marks[i]).1.generation == 0
}

/// Noting a total leaves the totals counted on.
proof fn cumulative_is_noted(marks: Seq<(Labels, Mark)>, s: Seq<Sample>)
    requires
        cumulative(marks),
        forall|i: int| 0 <= i < s.len() ==> (#[trigger] s[i]).generation == 0,
    ensures
        cumulative(tracker::all_noted(marks, s)),
    decreases s.len(),
{
    if s.len() > 0 {
        let init = s.drop_last();
        assert forall|i: int| 0 <= i < init.len() implies (#[trigger] init[i]).generation == 0 by {
            assert(init[i] == s[i]);
        }
        cumulative_is_noted(marks, init);
        let at = tracker::all_noted(marks, init);
        assert(s.last() == s[s.len() - 1]);
        let k = s.last().labels;
        if string_map::has_key(at, k) {
            assert(string_map::key_at(at, k, label_map::place(at, k)));
        }
    }
}

/// Forgetting totals leaves the others counted on.
proof fn cumulative_is_kept(marks: Seq<(Labels, Mark)>, keys: Seq<Labels>)
    requires
        cumulative(marks),
    ensures
        cumulative(label_map::kept(marks, keys)),
    decreases marks.len(),
{
    if marks.len() > 0 {
        let init = marks.drop_last();
        assert forall|i: int| 0 <= i < init.len() implies (#[trigger] init[i]).1.generation
            == 0 by {
            assert(init[i] == marks[i]);
        }
        cumulative_is_kept(init, keys);
        assert(marks.last() == marks[marks.len() - 1]);
    }
}

/// Each export adds to a total what the backends have counted since, and the
/// totals go on being counted on.
pub proof fn totals_grow_by_what_was_gained(
    servers: Seq<ServerStats>,
    pools: Map<Id, PoolStats>,
    marks: PreparedMarks,
    k: Labels,
)
    requires
        cumulative(marks.hits),
        cumulative(marks.misses),
    ensures
        ({
            let gained = tally_of(all_gained(servers, pools, marks), k);
            let hits = counted(marks.hits, k);
            let misses = counted(marks.misses, k);
            &&& tracker::growth(
                label_map::found(marks.hits, k),
                0,
                capped_sum(hits, gained.hits),
            ) == capped_sum(hits, gained.hits) - hits
            &&& tracker::growth(
                label_map::found(marks.misses, k),
                0,
                capped_sum(misses, gained.misses),
            ) == capped_sum(misses, gained.misses) - misses
        }),
        cumulative(prepared_after(servers, pools, marks).hits),
        cumulative(prepared_after(servers, pools, marks).misses),
{
    if string_map::has_key(marks.hits, k) {
        assert(string_map::key_at(marks.hits, k, label_map::place(marks.hits, k)));
    }
    if string_map::has_key(marks.misses, k) {
        assert(string_map::key_at(marks.misses, k, label_map::place(marks.misses, k)));
    }
    let totals = all_tallied(servers);
    let gained = all_gained(servers, pools, marks);
    let hits = hit_samples(totals, gained, marks.hits);
    let misses = miss_samples(totals, gained, marks.misses);
    cumulative_is_noted(marks.hits, hits);
    cumulative_is_noted(marks.misses, misses);
    cumulative_is_kept(tracker::all_noted(marks.hits, hits), tracker::sample_labels(hits));
    cumulative_is_kept(tracker::all_noted(marks.misses, misses), tracker::sample_labels(misses));
}

/// The tallies of backends have labels of their own.
proof fn tallies_differ(servers: Seq<ServerStats>)
    ensures
        string_map::unique_keys(all_tallied(servers)),
    decreases servers.len(),
{
    if servers.len() > 0 {
        let rest = all_tallied(servers.drop_last());
        let k = pool_labels(servers.last());
        tallies_differ(servers.drop_last());
        let t = tally_of(rest, k);
        label_map::placed_is_found(
            rest,
            k,
            Tally {
                hits: capped_sum(t.hits, servers.last().prepared_hit_count),
                misses: capped_sum(t.misses, servers.last().prepared_miss_count),
            },
        );
    }
}

/// A backend adds what it has counted to the tally of its own pool, and to no other.
pub proof fn backends_add_to_their_pool(servers: Seq<ServerStats>, x: ServerStats, k: Labels)
    ensures
        ({
            let a = tally_of(all_tallied(servers), k);
            let b = tally_of(all_tallied(servers.push(x)), k);
            if k == seq![x.username@, x.pool_name@] {
                &&& a.hits + x.prepared_hit_count <= u64::MAX ==> b.hits == a.hits
                    + x.prepared_hit_count
                &&& a.misses + x.prepared_miss_count <= u64::MAX ==> b.misses == a.misses
                    + x.prepared_miss_count
                &&& b.hits >= a.hits
                &&& b.misses >= a.misses
            } else {
                b == a
            }
        }),
        tally_of(all_tallied(Seq::empty()), k) == (Tally { hits: 0, misses: 0 }),
{
    assert(servers.push(x).drop_last() =~= servers);
    tallies_differ(servers);
    let rest = all_tallied(servers);
    let t = tally_of(rest, pool_labels(x));
    label_map::placed_is_found(
        rest,
        pool_labels(x),
        Tally {
            hits: capped_sum(t.hits, x.prepared_hit_count),
            misses: capped_sum(t.misses, x.prepared_miss_count),
        },
    );
    let none = all_tallied(Seq::empty());
    assert(!string_map::has_key(none, k)) by {
        if string_map::has_key(none, k) {
            let i = choose|i: int| string_map::key_at(none, k, i);
            assert(0 <= i < none.len());
        }
    }
}

/// How many of the backends of a pool use TLS.
pub open spec fn tls_backends(servers: Seq<ServerStats>, pool: Seq<char>) -> nat
    decreases servers.len(),
{
    if servers.len() == 0 {
        0
    } else {
        tls_backends(servers.drop_last(), pool) + if servers.last().tls && servers.last().pool_name@
            == pool {
            1nat
        } else {
            0nat
        }
    }
}

/// Each pool shows how many of its backends use TLS, whatever was shown before.
pub proof fn tls_backends_are_counted(
    m: update::AllShown,
    before: Seq<Change>,
    servers: Seq<ServerStats>,
    pool: Seq<char>,
)
    ensures
        update::shown_at(
            update::all_applied(m, tls_counted(servers_reset(before), servers)),
            (Family::ServerTlsConnections, seq![pool]),
        ).thousandths == 1000 * tls_backends(servers, pool),
    decreases servers.len(),
{
    assert forall|cs: Seq<Change>, c: Change| #[trigger]
        update::all_applied(m, cs.push(c)) == update::applied(update::all_applied(m, cs), c) by {
        update::appended_is_applied_last(m, cs, c);
    }
    if servers.len() > 0 {
        tls_backends_are_counted(m, before, servers.drop_last(), pool);
        let name = servers.last().pool_name@;
        assert(seq![name][0] == name && seq![pool][0] == pool);
    }
}

/// The tally of a pool is shown under the names of its user and database.
pub proof fn tallies_are_shown(
    m: update::AllShown,
    before: Seq<Change>,
    s: Seq<(Labels, Tally)>,
    i: int,
)
    requires
        string_map::unique_keys(s),
        0 <= i < s.len(),
    ensures
        ({
            let b = update::all_applied(m, tallies_shown(before, s));
            &&& update::shown_at(b, (Family::ServersPreparedHits, s[i].0)).thousandths == 1000
                * s[i].1.hits
            &&& update::shown_at(b, (Family::ServersPreparedMisses, s[i].0)).thousandths == 1000
                * s[i].1.misses
        }),
    decreases s.len(),
{
    assert forall|cs: Seq<Change>, c: Change| #[trigger]
        update::all_applied(m, cs.push(c)) == update::applied(update::all_applied(m, cs), c) by {
        update::appended_is_applied_last(m, cs, c);
    }
    let n = s.len() - 1;
    if i < n {
        let front = s.drop_last();
        assert(string_map::unique_keys(front)) by {
            assert forall|x: int, y: int| 0 <= x < y < front.len() implies (#[trigger] front[x]).0 != (
            #[trigger] front[y]).0 by {
                assert(s[x].0 != s[y].0);
            }
        }
        tallies_are_shown(m, before, front, i);
        assert(front[i] == s[i]);
        assert(s[i].0 != s[n].0);
    }
}

/// Errors are summed up under the class of their code, for the user and the database
/// whose backend reported them.
pub proof fn errors_are_summed_by_class(
    sums: Seq<(Labels, Mark)>,
    id: Id,
    generation: u64,
    code: Seq<char>,
    count: u64,
    k: Labels,
)
    requires
        string_map::unique_keys(sums),
    ensures
        ({
            let a = label_map::found(sums, k);
            let b = label_map::found(error_added(sums, id, generation, code, count), k);
            if k == seq![id.1, id.0, tracker::sqlstate_class(code)] {
                &&& b.is_some()
                &&& b.unwrap().generation == generation
                &&& a.is_none() ==> b.unwrap().value == count
                &&& a matches Some(x) ==> (x.value + count <= u64::MAX ==> b.unwrap().value
                    == x.value + count)
            } else {
                b == a
            }
        }),
{
    let l = seq![id.1, id.0, tracker::sqlstate_class(code)];
    let sum = match label_map::found(sums, l) {
        Some(m) => m.value,
        None => 0,
    };
    label_map::placed_is_found(sums, l, Mark { value: capped_sum(sum, count), generation });
}

/// Every pool's cleanups are read, the good ones and the bad ones.
pub proof fn cleanups_are_read(pools: Seq<(Id, AddressStats)>, id: Id, s: AddressStats)
    ensures
        cleanup_samples(pools.push((id, s))) == cleanup_samples(pools) + seq![
            Sample {
                labels: seq![id.1, id.0, "ok"@],
                generation: s.generation,
                value: s.server_cleanup_ok,
            },
            Sample {
                labels: seq![id.1, id.0, "error"@],
                generation: s.generation,
                value: s.server_cleanup_error,
            },
        ],
        error_sums(pools.push((id, s))) == errors_added(
            error_sums(pools),
            id,
            s.generation,
            s.errors_by_sqlstate@,
        ),
{
    assert(pools.push((id, s)).drop_last() =~= pools);
}

} // verus!
