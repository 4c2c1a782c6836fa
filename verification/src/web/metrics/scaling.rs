//! What is exported of the growth of pools.
use vstd::prelude::*;
use crate::pool::connection_pool::ConnectionPool;
use crate::pool::id_map::IdMap;
use crate::pool::inner::ScalingStatsSnapshot;
use crate::web::metrics::label_map::{labels_of, LabelMap};
use crate::web::metrics::update::{push3, Family, Op, Update};
#[allow(unused_imports)]
use crate::pool::id_map::Id;
#[allow(unused_imports)]
use crate::pool::inner::Pool;
#[allow(unused_imports)]
use crate::text;
#[allow(unused_imports)]
use crate::web::metrics::label_map;
#[allow(unused_imports)]
use crate::web::metrics::label_map::Labels;
#[allow(unused_imports)]
use crate::web::metrics::update;
#[allow(unused_imports)]
use crate::web::metrics::update::Change;

verus! {

/// What the counters of a pool say.
pub open spec fn snapshot_of(p: Pool) -> ScalingStatsSnapshot {
    ScalingStatsSnapshot {
        creates_started: p.counters.stats.creates_started,
        burst_gate_waits: p.counters.stats.burst_gate_waits,
        burst_gate_budget_exhausted: p.counters.stats.burst_gate_budget_exhausted,
        anticipation_wakes_notify: p.counters.stats.anticipation_wakes_notify,
        anticipation_wakes_timeout: p.counters.stats.anticipation_wakes_timeout,
        create_fallback: p.counters.stats.create_fallback,
        replenish_deferred: p.counters.stats.replenish_deferred,
        inflight_creates: p.counters.inflight_creates,
        pre_replacements_triggered: p.counters.stats.pre_replacements_triggered,
        pre_replacements_skipped: p.counters.stats.pre_replacements_skipped,
    }
}

/// What the counters of a pool say that was not exported before.
pub open spec fn nothing_counted() -> ScalingStatsSnapshot {
    ScalingStatsSnapshot {
        creates_started: 0,
        burst_gate_waits: 0,
        burst_gate_budget_exhausted: 0,
        anticipation_wakes_notify: 0,
        anticipation_wakes_timeout: 0,
        create_fallback: 0,
        replenish_deferred: 0,
        inflight_creates: 0,
        pre_replacements_triggered: 0,
        pre_replacements_skipped: 0,
    }
}

/// The changes when one counter of a pool has grown; none if it has not.
pub open spec fn counter_grown(
    before: Seq<Change>,
    name: Seq<char>,
    id: Id,
    last: u64,
    value: u64,
) -> Seq<Change> {
    if value > last {
        before.push(
            update::change(
                Family::PoolScalingTotal,
                Op::Add((value - last) as u64),
                seq![name, id.1, id.0],
            ),
        )
    } else {
        before
    }
}

/// The changes that show how a pool grows.
pub open spec fn scaling_shown(
    before: Seq<Change>,
    id: Id,
    last: ScalingStatsSnapshot,
    s: ScalingStatsSnapshot,
) -> Seq<Change> {
    let a = before.push(
        update::change(
            Family::PoolScaling,
            Op::Show(s.inflight_creates as u64),
            seq!["inflight_creates"@, id.1, id.0],
        ),
    );
    let b = counter_grown(a, "creates_started"@, id, last.creates_started, s.creates_started);
    let c = counter_grown(b, "burst_gate_waits"@, id, last.burst_gate_waits, s.burst_gate_waits);
    let d = counter_grown(
        c,
        "burst_gate_budget_exhausted"@,
        id,
        last.burst_gate_budget_exhausted,
        s.burst_gate_budget_exhausted,
    );
    let e = counter_grown(
        d,
        "anticipation_wakes_notify"@,
        id,
        last.anticipation_wakes_notify,
        s.anticipation_wakes_notify,
    );
    let f = counter_grown(
        e,
        "anticipation_wakes_timeout"@,
        id,
        last.anticipation_wakes_timeout,
        s.anticipation_wakes_timeout,
    );
    let g = counter_grown(f, "create_fallback"@, id, last.create_fallback, s.create_fallback);
    counter_grown(g, "replenish_deferred"@, id, last.replenish_deferred, s.replenish_deferred)
}

/// The changes by which the series of a pool go.
pub open spec fn scaling_gone(before: Seq<Change>, user: Seq<char>, db: Seq<char>) -> Seq<Change> {
    before.push(
        update::change(Family::PoolScaling, Op::Remove, seq!["inflight_creates"@, user, db]),
    ).push(
        update::change(Family::PoolScalingTotal, Op::Remove, seq!["creates_started"@, user, db]),
    ).push(
        update::change(Family::PoolScalingTotal, Op::Remove, seq!["burst_gate_waits"@, user, db]),
    ).push(
        update::change(
            Family::PoolScalingTotal,
            Op::Remove,
            seq!["burst_gate_budget_exhausted"@, user, db],
        ),
    ).push(
        update::change(
            Family::PoolScalingTotal,
            Op::Remove,
            seq!["anticipation_wakes_notify"@, user, db],
        ),
    ).push(
        update::change(
            Family::PoolScalingTotal,
            Op::Remove,
            seq!["anticipation_wakes_timeout"@, user, db],
        ),
    ).push(
        update::change(Family::PoolScalingTotal, Op::Remove, seq!["create_fallback"@, user, db]),
    ).push(
        update::change(Family::PoolScalingTotal, Op::Remove, seq!["replenish_deferred"@, user, db]),
    )
}

/// What was exported of the pools, after these were.
pub open spec fn scaling_noted(
    last: Seq<(Labels, ScalingStatsSnapshot)>,
    pools: Seq<(Id, ConnectionPool)>,
) -> Seq<(Labels, ScalingStatsSnapshot)>
    decreases pools.len(),
{
    if pools.len() == 0 {
        last
    } else {
        let (id, p) = pools.last();
        label_map::placed(
            scaling_noted(last, pools.drop_last()),
            seq![id.1, id.0],
            snapshot_of(p.database),
        )
    }
}

/// The changes that show how pools grow.
pub open spec fn scalings_shown(
    before: Seq<Change>,
    last: Seq<(Labels, ScalingStatsSnapshot)>,
    pools: Seq<(Id, ConnectionPool)>,
) -> Seq<Change>
    decreases pools.len(),
{
    if pools.len() == 0 {
        before
    } else {
        let (id, p) = pools.last();
        let at = scaling_noted(last, pools.drop_last());
        let seen = match label_map::found(at, seq![id.1, id.0]) {
            Some(s) => s,
            None => nothing_counted(),
        };
        scaling_shown(
            scalings_shown(before, last, pools.drop_last()),
            id,
            seen,
            snapshot_of(p.database),
        )
    }
}

/// The changes by which the series of pools go.
pub open spec fn scalings_gone(before: Seq<Change>, stale: Seq<Labels>) -> Seq<Change>
    decreases stale.len(),
{
    if stale.len() == 0 {
        before
    } else {
        scaling_gone(
            scalings_gone(before, stale.drop_last()),
            stale.last()[0],
            stale.last()[1],
        )
    }
}

/// The user and the database of each pool.
pub open spec fn pool_labels(pools: Seq<(Id, ConnectionPool)>) -> Seq<Labels> {
    Seq::new(pools.len(), |i: int| seq![pools[i].0.1, pools[i].0.0])
}

/// The changes when the growth of pools is exported.
pub open spec fn scalings_exported(
    before: Seq<Change>,
    last: Seq<(Labels, ScalingStatsSnapshot)>,
    pools: Seq<(Id, ConnectionPool)>,
) -> Seq<Change> {
    scalings_gone(
        scalings_shown(before, last, pools),
        label_map::dropped(scaling_noted(last, pools), pool_labels(pools)),
    )
}

/// What was exported of the growth of pools after it was.
pub open spec fn scalings_after(
    last: Seq<(Labels, ScalingStatsSnapshot)>,
    pools: Seq<(Id, ConnectionPool)>,
) -> Seq<(Labels, ScalingStatsSnapshot)> {
    label_map::kept(scaling_noted(last, pools), pool_labels(pools))
}

/// Every entry belongs to a user and a database.
pub open spec fn two_labels(s: Seq<(Labels, ScalingStatsSnapshot)>) -> bool {
    forall|i: int| 0 <= i < s.len() ==> (#[trigger] s[i]).0.len() == 2
}

/// Noting pools keeps two labels.
proof fn noted_keeps_labels(
    last: Seq<(Labels, ScalingStatsSnapshot)>,
    pools: Seq<(Id, ConnectionPool)>,
)
    requires
        two_labels(last),
    ensures
        two_labels(scaling_noted(last, pools)),
    decreases pools.len(),
{
    if pools.len() > 0 {
        noted_keeps_labels(last, pools.drop_last());
        let rest = scaling_noted(last, pools.drop_last());
        let t = scaling_noted(last, pools);
        assert forall|i: int| 0 <= i < t.len() implies (#[trigger] t[i]).0.len() == 2 by {
            if i < rest.len() {
                assert(rest[i].0.len() == 2);
            }
        }
    }
}

/// What is kept and dropped of entries with two labels has two labels.
proof fn kept_keeps_labels(s: Seq<(Labels, ScalingStatsSnapshot)>, keys: Seq<Labels>)
    requires
        two_labels(s),
    ensures
        two_labels(label_map::kept(s, keys)),
        forall|i: int| 0 <= i < label_map::dropped(s, keys).len() ==> (#[trigger] label_map::dropped(s, keys)[i]).len() == 2,
    decreases s.len(),
{
    if s.len() > 0 {
        assert(two_labels(s.drop_last())) by {
            assert forall|i: int| 0 <= i < s.drop_last().len() implies (
            #[trigger] s.drop_last()[i]).0.len() == 2 by {
                assert(s[i].0.len() == 2);
            }
        }
        kept_keeps_labels(s.drop_last(), keys);
        assert(s[s.len() - 1].0.len() == 2);
        let rest = label_map::kept(s.drop_last(), keys);
        let t = label_map::kept(s, keys);
        assert forall|i: int| 0 <= i < t.len() implies (#[trigger] t[i]).0.len() == 2 by {
            if i < rest.len() {
                assert(rest[i].0.len() == 2);
            }
        }
        let gone = label_map::dropped(s.drop_last(), keys);
        let d = label_map::dropped(s, keys);
        assert forall|i: int| 0 <= i < d.len() implies (#[trigger] d[i]).len() == 2 by {
            if i < gone.len() {
                assert(gone[i].len() == 2);
            }
        }
    }
}

/// Exports one counter of a pool if it has grown.
fn grow_counter(out: &mut Vec<Update>, name: &str, user: &str, db: &str, last: u64, value: u64)
    ensures
        update::changes(final(out)@) == counter_grown(
            update::changes(old(out)@),
            name@,
            (db@, user@),
            last,
            value,
        ),
{
    if value > last {
        push3(out, Family::PoolScalingTotal, Op::Add(value - last), name, user, db);
    }
}

/// Shows how a pool grows.
fn show_scaling(
    out: &mut Vec<Update>,
    user: &str,
    db: &str,
    last: &ScalingStatsSnapshot,
    s: &ScalingStatsSnapshot,
)
    ensures
        update::changes(final(out)@) == scaling_shown(
            update::changes(old(out)@),
            (db@, user@),
            *last,
            *s,
        ),
{
    push3(
        out,
        Family::PoolScaling,
        Op::Show(s.inflight_creates as u64),
        "inflight_creates",
        user,
        db,
    );
    grow_counter(out, "creates_started", user, db, last.creates_started, s.creates_started);
    grow_counter(out, "burst_gate_waits", user, db, last.burst_gate_waits, s.burst_gate_waits);
    grow_counter(
        out,
        "burst_gate_budget_exhausted",
        user,
        db,
        last.burst_gate_budget_exhausted,
        s.burst_gate_budget_exhausted,
    );
    grow_counter(
        out,
        "anticipation_wakes_notify",
        user,
        db,
        last.anticipation_wakes_notify,
        s.anticipation_wakes_notify,
    );
    grow_counter(
        out,
        "anticipation_wakes_timeout",
        user,
        db,
        last.anticipation_wakes_timeout,
        s.anticipation_wakes_timeout,
    );
    grow_counter(out, "create_fallback", user, db, last.create_fallback, s.create_fallback);
    grow_counter(out, "replenish_deferred", user, db, last.replenish_deferred, s.replenish_deferred);
}

/// Lets the series of a pool go.
fn reset_pool_scaling_metrics(out: &mut Vec<Update>, user: &str, db: &str)
    ensures
        update::changes(final(out)@) == scaling_gone(update::changes(old(out)@), user@, db@),
{
    push3(out, Family::PoolScaling, Op::Remove, "inflight_creates", user, db);
    push3(out, Family::PoolScalingTotal, Op::Remove, "creates_started", user, db);
    push3(out, Family::PoolScalingTotal, Op::Remove, "burst_gate_waits", user, db);
    push3(out, Family::PoolScalingTotal, Op::Remove, "burst_gate_budget_exhausted", user, db);
    push3(out, Family::PoolScalingTotal, Op::Remove, "anticipation_wakes_notify", user, db);
    push3(out, Family::PoolScalingTotal, Op::Remove, "anticipation_wakes_timeout", user, db);
    push3(out, Family::PoolScalingTotal, Op::Remove, "create_fallback", user, db);
    push3(out, Family::PoolScalingTotal, Op::Remove, "replenish_deferred", user, db);
}

/// Lets the series of pools go.
fn remove_scalings(out: &mut Vec<Update>, stale: &Vec<Vec<String>>)
    requires
        forall|i: int|
            0 <= i < stale.len() ==> (#[trigger] label_map::label_lists(stale@)[i]).len() == 2,
    ensures
        update::changes(final(out)@) == scalings_gone(
            update::changes(old(out)@),
            label_map::label_lists(stale@),
        ),
{
    let ghost before = update::changes(out@);
    let ghost ls = label_map::label_lists(stale@);
    let mut i: usize = 0;
    assert(ls.take(0) =~= Seq::<Labels>::empty());
    while i < stale.len()
        invariant
            i <= stale.len(),
            ls == label_map::label_lists(stale@),
            forall|i: int| 0 <= i < stale.len() ==> (#[trigger] ls[i]).len() == 2,
            update::changes(out@) == scalings_gone(before, ls.take(i as int)),
        decreases stale.len() - i,
    {
        let labels = &stale[i];
        proof {
            assert(ls.take(i + 1).drop_last() =~= ls.take(i as int));
            assert(ls[i as int] == text::texts_of(labels@));
            assert(ls[i as int][0] == labels@[0]@ && ls[i as int][1] == labels@[1]@);
        }
        reset_pool_scaling_metrics(out, labels[0].as_str(), labels[1].as_str());
        i = i + 1;
    }
    assert(ls.take(ls.len() as int) =~= ls);
}

/// Exports how pools grow.
pub fn update_pool_scaling_metrics(
    out: &mut Vec<Update>,
    pools: &IdMap<ConnectionPool>,
    last: &mut LabelMap<ScalingStatsSnapshot>,
)
    requires
        two_labels(old(last).listing()),
    ensures
        two_labels(final(last).listing()),
        update::changes(final(out)@) == scalings_exported(
            update::changes(old(out)@),
            old(last).listing(),
            pools.listing(),
        ),
        final(last).listing() == scalings_after(old(last).listing(), pools.listing()),
{
    let ghost before = update::changes(out@);
    let ghost start = last.listing();
    let ghost s = pools.listing();
    let n: usize = pools.len();
    let mut keys: Vec<Vec<String>> = Vec::new();
    let mut i: usize = 0;
    proof {
        assert(s.take(0) =~= Seq::<(Id, ConnectionPool)>::empty());
        assert(label_map::label_lists(keys@) =~= pool_labels(s.take(0)));
    }
    while i < n
        invariant
            i <= n,
            n == s.len(),
            s == pools.listing(),
            update::changes(out@) == scalings_shown(before, start, s.take(i as int)),
            last.listing() == scaling_noted(start, s.take(i as int)),
            label_map::label_lists(keys@) == pool_labels(s.take(i as int)),
        decreases n - i,
    {
        let ghost ks = label_map::label_lists(keys@);
        let user = pools.id(i).user.as_str();
        let db = pools.id(i).db.as_str();
        let now = pools.value(i).database.scaling_stats();
        let list = [user, db];
        proof {
            assert(s.take(i + 1).drop_last() =~= s.take(i as int));
            assert(text::views(list@) =~= seq![user@, db@]);
        }
        let labels = labels_of(&list);
        let seen: ScalingStatsSnapshot = match last.get(&labels) {
            Some(v) => *v,
            None => ScalingStatsSnapshot {
                creates_started: 0,
                burst_gate_waits: 0,
                burst_gate_budget_exhausted: 0,
                anticipation_wakes_notify: 0,
                anticipation_wakes_timeout: 0,
                create_fallback: 0,
                replenish_deferred: 0,
                inflight_creates: 0,
                pre_replacements_triggered: 0,
                pre_replacements_skipped: 0,
            },
        };
        show_scaling(out, user, db, &seen, &now);
        last.put(labels, now);
        keys.push(labels_of(&list));
        proof {
            assert(label_map::label_lists(keys@) =~= ks.push(seq![user@, db@]));
            assert(pool_labels(s.take(i + 1)) =~= ks.push(seq![user@, db@]));
        }
        i = i + 1;
    }
    proof {
        assert(s.take(n as int) =~= s);
        noted_keeps_labels(start, s);
        kept_keeps_labels(last.listing(), pool_labels(s));
    }
    let stale = last.drop_others(&keys);
    remove_scalings(out, &stale);
}

/// How a pool grows is shown with its own numbers: each counter grows by what the pool
/// has counted since, and never goes back.
#[verifier::rlimit(60)]
pub proof fn scalings_show_their_numbers(
    m: update::AllShown,
    before: Seq<Change>,
    id: Id,
    last: ScalingStatsSnapshot,
    s: ScalingStatsSnapshot,
)
    ensures
        ({
            let a = update::all_applied(m, before);
            let b = update::all_applied(m, scaling_shown(before, id, last, s));
            &&& update::shown_at(b, (Family::PoolScaling, seq!["inflight_creates"@, id.1, id.0])).thousandths == 1000 * s.inflight_creates
            &&& update::shown_at(b, (Family::PoolScalingTotal, seq!["creates_started"@, id.1, id.0])).thousandths - update::shown_at(a, (Family::PoolScalingTotal, seq!["creates_started"@, id.1, id.0])).thousandths == if s.creates_started > last.creates_started {
                1000 * (s.creates_started - last.creates_started)
            } else {
                0
            }
            &&& update::shown_at(b, (Family::PoolScalingTotal, seq!["burst_gate_waits"@, id.1, id.0])).thousandths - update::shown_at(a, (Family::PoolScalingTotal, seq!["burst_gate_waits"@, id.1, id.0])).thousandths == if s.burst_gate_waits > last.burst_gate_waits {
                1000 * (s.burst_gate_waits - last.burst_gate_waits)
            } else {
                0
            }
            &&& update::shown_at(b, (Family::PoolScalingTotal, seq!["burst_gate_budget_exhausted"@, id.1, id.0])).thousandths - update::shown_at(a, (Family::PoolScalingTotal, seq!["burst_gate_budget_exhausted"@, id.1, id.0])).thousandths == if s.burst_gate_budget_exhausted > last.burst_gate_budget_exhausted {
                1000 * (s.burst_gate_budget_exhausted - last.burst_gate_budget_exhausted)
            } else {
                0
            }
            &&& update::shown_at(b, (Family::PoolScalingTotal, seq!["anticipation_wakes_notify"@, id.1, id.0])).thousandths - update::shown_at(a, (Family::PoolScalingTotal, seq!["anticipation_wakes_notify"@, id.1, id.0])).thousandths == if s.anticipation_wakes_notify > last.anticipation_wakes_notify {
                1000 * (s.anticipation_wakes_notify - last.anticipation_wakes_notify)
            } else {
                0
            }
            &&& update::shown_at(b, (Family::PoolScalingTotal, seq!["anticipation_wakes_timeout"@, id.1, id.0])).thousandths - update::shown_at(a, (Family::PoolScalingTotal, seq!["anticipation_wakes_timeout"@, id.1, id.0])).thousandths == if s.anticipation_wakes_timeout > last.anticipation_wakes_timeout {
                1000 * (s.anticipation_wakes_timeout - last.anticipation_wakes_timeout)
            } else {
                0
            }
            &&& update::shown_at(b, (Family::PoolScalingTotal, seq!["create_fallback"@, id.1, id.0])).thousandths - update::shown_at(a, (Family::PoolScalingTotal, seq!["create_fallback"@, id.1, id.0])).thousandths == if s.create_fallback > last.create_fallback {
                1000 * (s.create_fallback - last.create_fallback)
            } else {
                0
            }
            &&& update::shown_at(b, (Family::PoolScalingTotal, seq!["replenish_deferred"@, id.1, id.0])).thousandths - update::shown_at(a, (Family::PoolScalingTotal, seq!["replenish_deferred"@, id.1, id.0])).thousandths == if s.replenish_deferred > last.replenish_deferred {
                1000 * (s.replenish_deferred - last.replenish_deferred)
            } else {
                0
            }
        }),
{
    assert forall|cs: Seq<Change>, c: Change| #[trigger]
        update::all_applied(m, cs.push(c)) == update::applied(update::all_applied(m, cs), c) by {
        update::appended_is_applied_last(m, cs, c);
    }
    reveal_strlit("creates_started");
    reveal_strlit("burst_gate_waits");
    reveal_strlit("burst_gate_budget_exhausted");
    reveal_strlit("anticipation_wakes_notify");
    reveal_strlit("anticipation_wakes_timeout");
    reveal_strlit("create_fallback");
    reveal_strlit("replenish_deferred");
    reveal_strlit("inflight_creates");
    assert(seq!["creates_started"@, id.1, id.0][0] == "creates_started"@);
    assert(seq!["burst_gate_waits"@, id.1, id.0][0] == "burst_gate_waits"@);
    assert(seq!["burst_gate_budget_exhausted"@, id.1, id.0][0] == "burst_gate_budget_exhausted"@);
    assert(seq!["anticipation_wakes_notify"@, id.1, id.0][0] == "anticipation_wakes_notify"@);
    assert(seq!["anticipation_wakes_timeout"@, id.1, id.0][0] == "anticipation_wakes_timeout"@);
    assert(seq!["create_fallback"@, id.1, id.0][0] == "create_fallback"@);
    assert(seq!["replenish_deferred"@, id.1, id.0][0] == "replenish_deferred"@);
    assert("creates_started"@.len() == 15 && "burst_gate_waits"@.len() == 16);
    assert("creates_started"@.len() == 15 && "burst_gate_budget_exhausted"@.len() == 27);
    assert("creates_started"@.len() == 15 && "anticipation_wakes_notify"@.len() == 25);
    assert("creates_started"@.len() == 15 && "anticipation_wakes_timeout"@.len() == 26);
    assert("creates_started"@[6] == 's' && "create_fallback"@[6] == '_');
    assert("creates_started"@.len() == 15 && "replenish_deferred"@.len() == 18);
    assert("burst_gate_waits"@.len() == 16 && "burst_gate_budget_exhausted"@.len() == 27);
    assert("burst_gate_waits"@.len() == 16 && "anticipation_wakes_notify"@.len() == 25);
    assert("burst_gate_waits"@.len() == 16 && "anticipation_wakes_timeout"@.len() == 26);
    assert("burst_gate_waits"@.len() == 16 && "create_fallback"@.len() == 15);
    assert("burst_gate_waits"@.len() == 16 && "replenish_deferred"@.len() == 18);
    assert("burst_gate_budget_exhausted"@.len() == 27 && "anticipation_wakes_notify"@.len() == 25);
    assert("burst_gate_budget_exhausted"@.len() == 27 && "anticipation_wakes_timeout"@.len() == 26);
    assert("burst_gate_budget_exhausted"@.len() == 27 && "create_fallback"@.len() == 15);
    assert("burst_gate_budget_exhausted"@.len() == 27 && "replenish_deferred"@.len() == 18);
    assert("anticipation_wakes_notify"@.len() == 25 && "anticipation_wakes_timeout"@.len() == 26);
    assert("anticipation_wakes_notify"@.len() == 25 && "create_fallback"@.len() == 15);
    assert("anticipation_wakes_notify"@.len() == 25 && "replenish_deferred"@.len() == 18);
    assert("anticipation_wakes_timeout"@.len() == 26 && "create_fallback"@.len() == 15);
    assert("anticipation_wakes_timeout"@.len() == 26 && "replenish_deferred"@.len() == 18);
    assert("create_fallback"@.len() == 15 && "replenish_deferred"@.len() == 18);
    assert(seq!["inflight_creates"@, id.1, id.0][0] == "inflight_creates"@);
}

/// The series of a pool that is gone are not shown any more.
pub proof fn scalings_that_are_gone_show_nothing(m: update::AllShown, before: Seq<Change>, id: Id)
    ensures
        !update::all_applied(m, scaling_gone(before, id.1, id.0)).contains_key(
            (Family::PoolScaling, seq!["inflight_creates"@, id.1, id.0]),
        ),
        !update::all_applied(m, scaling_gone(before, id.1, id.0)).contains_key(
            (Family::PoolScalingTotal, seq!["creates_started"@, id.1, id.0]),
        ),
        !update::all_applied(m, scaling_gone(before, id.1, id.0)).contains_key(
            (Family::PoolScalingTotal, seq!["burst_gate_waits"@, id.1, id.0]),
        ),
        !update::all_applied(m, scaling_gone(before, id.1, id.0)).contains_key(
            (Family::PoolScalingTotal, seq!["burst_gate_budget_exhausted"@, id.1, id.0]),
        ),
        !update::all_applied(m, scaling_gone(before, id.1, id.0)).contains_key(
            (Family::PoolScalingTotal, seq!["anticipation_wakes_notify"@, id.1, id.0]),
        ),
        !update::all_applied(m, scaling_gone(before, id.1, id.0)).contains_key(
            (Family::PoolScalingTotal, seq!["anticipation_wakes_timeout"@, id.1, id.0]),
        ),
        !update::all_applied(m, scaling_gone(before, id.1, id.0)).contains_key(
            (Family::PoolScalingTotal, seq!["create_fallback"@, id.1, id.0]),
        ),
        !update::all_applied(m, scaling_gone(before, id.1, id.0)).contains_key(
            (Family::PoolScalingTotal, seq!["replenish_deferred"@, id.1, id.0]),
        ),
{
    assert forall|cs: Seq<Change>, c: Change| #[trigger]
        update::all_applied(m, cs.push(c)) == update::applied(update::all_applied(m, cs), c) by {
        update::appended_is_applied_last(m, cs, c);
    }
}

/// What is exported is what the pool has counted.
pub proof fn snapshots_are_true(p: Pool)
    ensures
        snapshot_of(p).creates_started == p.counters.stats.creates_started,
        snapshot_of(p).burst_gate_waits == p.counters.stats.burst_gate_waits,
        snapshot_of(p).burst_gate_budget_exhausted == p.counters.stats.burst_gate_budget_exhausted,
        snapshot_of(p).anticipation_wakes_notify == p.counters.stats.anticipation_wakes_notify,
        snapshot_of(p).anticipation_wakes_timeout == p.counters.stats.anticipation_wakes_timeout,
        snapshot_of(p).create_fallback == p.counters.stats.create_fallback,
        snapshot_of(p).replenish_deferred == p.counters.stats.replenish_deferred,
        snapshot_of(p).inflight_creates == p.counters.inflight_creates,
{
}

} // verus!
