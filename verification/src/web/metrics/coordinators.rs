//! What is exported of the limits of databases.
use vstd::prelude::*;
use crate::string_map::StringMap;
use crate::web::metrics::update::{push2, Family, Op, Update};
#[allow(unused_imports)]
use crate::string_map;
#[allow(unused_imports)]
use crate::web::metrics::update;
#[allow(unused_imports)]
use crate::web::metrics::update::Change;

verus! {

/// What is known of a limit when it is exported.
#[derive(Debug, Clone, Copy, PartialEq, Eq, Default)]
pub struct CoordinatorStats {
    /// Which object it is: another one after a reload has another identity.
    pub identity: u64,
    pub total_connections: u64,
    pub reserve_in_use: u64,
    pub max_db_connections: u64,
    pub reserve_pool_size: u64,
    pub evictions_total: u64,
    pub reserve_acquisitions_total: u64,
    pub exhaustions_total: u64,
}

/// What was exported of a limit last.
#[derive(Debug, Clone, Copy, PartialEq, Eq, Structural)]
pub struct CoordinatorMark {
    pub identity: u64,
    pub evictions: u64,
    pub reserve_acquisitions: u64,
    pub exhaustions: u64,
}

/// The larger number: a counter that shows `shown` is raised to `value` and never
/// lowered.
pub open spec fn raised(shown: u64, value: u64) -> u64 {
    if value > shown {
        value
    } else {
        shown
    }
}

/// By how much a counter is raised.
pub fn lift(shown: u64, value: u64) -> (r: u64)
    ensures
        r == raised(shown, value) - shown,
{
    if value > shown {
        value - shown
    } else {
        0
    }
}

/// The changes by which the series of a limit go.
pub open spec fn limit_gone(before: Seq<Change>, db: Seq<char>) -> Seq<Change> {
    before.push(update::change(Family::Coordinator, Op::Remove, seq!["connections"@, db])).push(
        update::change(Family::Coordinator, Op::Remove, seq!["reserve_in_use"@, db]),
    ).push(update::change(Family::Coordinator, Op::Remove, seq!["max_connections"@, db])).push(
        update::change(Family::Coordinator, Op::Remove, seq!["reserve_pool_size"@, db]),
    ).push(update::change(Family::CoordinatorTotal, Op::Remove, seq!["evictions"@, db])).push(
        update::change(Family::CoordinatorTotal, Op::Remove, seq!["reserve_acquisitions"@, db]),
    ).push(update::change(Family::CoordinatorTotal, Op::Remove, seq!["exhaustions"@, db]))
}

/// Lets the series of a limit go.
fn reset_coordinator_counters(out: &mut Vec<Update>, db: &str)
    ensures
        update::changes(final(out)@) == limit_gone(update::changes(old(out)@), db@),
{
    push2(out, Family::Coordinator, Op::Remove, "connections", db);
    push2(out, Family::Coordinator, Op::Remove, "reserve_in_use", db);
    push2(out, Family::Coordinator, Op::Remove, "max_connections", db);
    push2(out, Family::Coordinator, Op::Remove, "reserve_pool_size", db);
    push2(out, Family::CoordinatorTotal, Op::Remove, "evictions", db);
    push2(out, Family::CoordinatorTotal, Op::Remove, "reserve_acquisitions", db);
    push2(out, Family::CoordinatorTotal, Op::Remove, "exhaustions", db);
}

/// The changes by which the limits go that are there no more.
pub open spec fn missing_gone(
    before: Seq<Change>,
    marks: Seq<(Seq<char>, CoordinatorMark)>,
    current: Map<Seq<char>, CoordinatorStats>,
) -> Seq<Change>
    decreases marks.len(),
{
    if marks.len() == 0 {
        before
    } else {
        let rest = missing_gone(before, marks.drop_last(), current);
        if current.contains_key(marks.last().0) {
            rest
        } else {
            limit_gone(rest, marks.last().0)
        }
    }
}

/// Whether a limit was replaced by another one since it was exported.
pub open spec fn replaced(
    marks: Map<Seq<char>, CoordinatorMark>,
    db: Seq<char>,
    s: CoordinatorStats,
) -> bool {
    marks.contains_key(db) && marks[db].identity != s.identity
}

/// The changes by which the limits go that were replaced.
pub open spec fn replaced_gone(
    before: Seq<Change>,
    marks: Map<Seq<char>, CoordinatorMark>,
    current: Seq<(Seq<char>, CoordinatorStats)>,
) -> Seq<Change>
    decreases current.len(),
{
    if current.len() == 0 {
        before
    } else {
        let rest = replaced_gone(before, marks, current.drop_last());
        let (db, s) = current.last();
        if replaced(marks, db, s) {
            limit_gone(rest, db)
        } else {
            rest
        }
    }
}

/// What the counters of a limit show: nothing, unless this very limit was
/// exported before.
pub open spec fn shown(
    marks: Map<Seq<char>, CoordinatorMark>,
    db: Seq<char>,
    s: CoordinatorStats,
) -> CoordinatorMark {
    if marks.contains_key(db) && marks[db].identity == s.identity {
        marks[db]
    } else {
        CoordinatorMark {
            identity: s.identity,
            evictions: 0,
            reserve_acquisitions: 0,
            exhaustions: 0,
        }
    }
}

/// What the counters show after the limit was exported.
pub open spec fn mark_of(m: CoordinatorMark, s: CoordinatorStats) -> CoordinatorMark {
    CoordinatorMark {
        identity: s.identity,
        evictions: raised(m.evictions, s.evictions_total),
        reserve_acquisitions: raised(m.reserve_acquisitions, s.reserve_acquisitions_total),
        exhaustions: raised(m.exhaustions, s.exhaustions_total),
    }
}

/// The changes that show a limit.
pub open spec fn limit_shown(
    before: Seq<Change>,
    db: Seq<char>,
    s: CoordinatorStats,
    m: CoordinatorMark,
) -> Seq<Change> {
    let n = mark_of(m, s);
    before.push(
        update::change(
            Family::Coordinator,
            Op::Show(s.total_connections),
            seq!["connections"@, db],
        ),
    ).push(
        update::change(Family::Coordinator, Op::Show(s.reserve_in_use), seq!["reserve_in_use"@, db]),
    ).push(
        update::change(
            Family::Coordinator,
            Op::Show(s.max_db_connections),
            seq!["max_connections"@, db],
        ),
    ).push(
        update::change(
            Family::Coordinator,
            Op::Show(s.reserve_pool_size),
            seq!["reserve_pool_size"@, db],
        ),
    ).push(
        update::change(
            Family::CoordinatorTotal,
            Op::Add((n.evictions - m.evictions) as u64),
            seq!["evictions"@, db],
        ),
    ).push(
        update::change(
            Family::CoordinatorTotal,
            Op::Add((n.reserve_acquisitions - m.reserve_acquisitions) as u64),
            seq!["reserve_acquisitions"@, db],
        ),
    ).push(
        update::change(
            Family::CoordinatorTotal,
            Op::Add((n.exhaustions - m.exhaustions) as u64),
            seq!["exhaustions"@, db],
        ),
    )
}

/// The changes that show limits.
pub open spec fn limits_shown(
    before: Seq<Change>,
    marks: Map<Seq<char>, CoordinatorMark>,
    current: Seq<(Seq<char>, CoordinatorStats)>,
) -> Seq<Change>
    decreases current.len(),
{
    if current.len() == 0 {
        before
    } else {
        let (db, s) = current.last();
        limit_shown(
            limits_shown(before, marks, current.drop_last()),
            db,
            s,
            shown(marks, db, s),
        )
    }
}

/// What was exported of limits after they were.
pub open spec fn limits_after(
    marks: Map<Seq<char>, CoordinatorMark>,
    current: Seq<(Seq<char>, CoordinatorStats)>,
) -> Seq<(Seq<char>, CoordinatorMark)> {
    Seq::new(
        current.len(),
        |i: int|
            (
                current[i].0,
                mark_of(shown(marks, current[i].0, current[i].1), current[i].1),
            ),
    )
}

/// The changes when limits are exported.
pub open spec fn limits_exported(
    before: Seq<Change>,
    marks: Seq<(Seq<char>, CoordinatorMark)>,
    current: Seq<(Seq<char>, CoordinatorStats)>,
) -> Seq<Change> {
    let old_marks = string_map::listed(marks);
    let a = missing_gone(before, marks, string_map::listed(current));
    let b = replaced_gone(a, old_marks, current);
    limits_shown(b, old_marks, current)
}

/// Shows a limit, whose counters show `m`.
fn show_limit(
    out: &mut Vec<Update>,
    db: &str,
    s: &CoordinatorStats,
    m: CoordinatorMark,
) -> (r: CoordinatorMark)
    ensures
        update::changes(final(out)@) == limit_shown(update::changes(old(out)@), db@, *s, m),
        r == mark_of(m, *s),
{
    let evictions: u64 = lift(m.evictions, s.evictions_total);
    let acquisitions: u64 = lift(m.reserve_acquisitions, s.reserve_acquisitions_total);
    let exhaustions: u64 = lift(m.exhaustions, s.exhaustions_total);
    push2(out, Family::Coordinator, Op::Show(s.total_connections), "connections", db);
    push2(out, Family::Coordinator, Op::Show(s.reserve_in_use), "reserve_in_use", db);
    push2(out, Family::Coordinator, Op::Show(s.max_db_connections), "max_connections", db);
    push2(out, Family::Coordinator, Op::Show(s.reserve_pool_size), "reserve_pool_size", db);
    push2(out, Family::CoordinatorTotal, Op::Add(evictions), "evictions", db);
    push2(out, Family::CoordinatorTotal, Op::Add(acquisitions), "reserve_acquisitions", db);
    push2(out, Family::CoordinatorTotal, Op::Add(exhaustions), "exhaustions", db);
    CoordinatorMark {
        identity: s.identity,
        evictions: m.evictions + evictions,
        reserve_acquisitions: m.reserve_acquisitions + acquisitions,
        exhaustions: m.exhaustions + exhaustions,
    }
}

/// What the counters of a limit show.
fn shown_of(marks: &StringMap<CoordinatorMark>, db: &str, s: &CoordinatorStats) -> (r:
    CoordinatorMark)
    ensures
        r == shown(marks@, db@, *s),
{
    match marks.get(db) {
        Some(m) => if m.identity == s.identity {
            return *m;
        },
        None => {},
    }
    CoordinatorMark { identity: s.identity, evictions: 0, reserve_acquisitions: 0, exhaustions: 0 }
}

/// Lets the series of limits go that are there no more or were replaced.
fn drop_limits(
    out: &mut Vec<Update>,
    current: &StringMap<CoordinatorStats>,
    marks: &StringMap<CoordinatorMark>,
)
    ensures
        update::changes(final(out)@) == replaced_gone(
            missing_gone(update::changes(old(out)@), marks.listing(), current@),
            marks@,
            current.listing(),
        ),
{
    let ghost before = update::changes(out@);
    let ghost ms = marks.listing();
    let ghost cs = current.listing();
    let m: usize = marks.len();
    let mut i: usize = 0;
    assert(ms.take(0) =~= Seq::<(Seq<char>, CoordinatorMark)>::empty());
    while i < m
        invariant
            i <= m,
            m == ms.len(),
            ms == marks.listing(),
            update::changes(out@) == missing_gone(before, ms.take(i as int), current@),
        decreases m - i,
    {
        assert(ms.take(i + 1).drop_last() =~= ms.take(i as int));
        let db = marks.key(i).as_str();
        if !current.contains_key(db) {
            reset_coordinator_counters(out, db);
        }
        i = i + 1;
    }
    assert(ms.take(m as int) =~= ms);
    let ghost middle = update::changes(out@);
    let n: usize = current.len();
    let mut j: usize = 0;
    assert(cs.take(0) =~= Seq::<(Seq<char>, CoordinatorStats)>::empty());
    while j < n
        invariant
            j <= n,
            n == cs.len(),
            cs == current.listing(),
            update::changes(out@) == replaced_gone(middle, marks@, cs.take(j as int)),
        decreases n - j,
    {
        assert(cs.take(j + 1).drop_last() =~= cs.take(j as int));
        let db = current.key(j).as_str();
        let gone: bool = match marks.get(db) {
            Some(mark) => mark.identity != current.value(j).identity,
            None => false,
        };
        if gone {
            reset_coordinator_counters(out, db);
        }
        j = j + 1;
    }
    assert(cs.take(n as int) =~= cs);
}

/// Exports the limits of databases. The series of a limit that was replaced start
/// from nothing.
pub fn update_coordinator_metrics(
    out: &mut Vec<Update>,
    current: &StringMap<CoordinatorStats>,
    marks: &mut StringMap<CoordinatorMark>,
)
    ensures
        update::changes(final(out)@) == limits_exported(
            update::changes(old(out)@),
            old(marks).listing(),
            current.listing(),
        ),
        final(marks).listing() == limits_after(old(marks)@, current.listing()),
{
    let ghost cs = current.listing();
    let ghost old_marks = marks@;
    drop_limits(out, current, marks);
    let ghost middle = update::changes(out@);
    let mut next: StringMap<CoordinatorMark> = StringMap::new();
    let n: usize = current.len();
    let mut i: usize = 0;
    proof {
        assert(cs.take(0) =~= Seq::<(Seq<char>, CoordinatorStats)>::empty());
        assert(next.listing() =~= limits_after(old_marks, cs.take(0)));
    }
    while i < n
        invariant
            i <= n,
            n == cs.len(),
            cs == current.listing(),
            string_map::unique_keys(cs),
            old_marks == marks@,
            update::changes(out@) == limits_shown(middle, old_marks, cs.take(i as int)),
            next.listing() == limits_after(old_marks, cs.take(i as int)),
        decreases n - i,
    {
        assert(cs.take(i + 1).drop_last() =~= cs.take(i as int));
        let db = current.key(i);
        let s = current.value(i);
        let before = shown_of(marks, db.as_str(), s);
        let mark = show_limit(out, db.as_str(), s, before);
        proof {
            if string_map::has_key(next.listing(), db@) {
                let j = choose|j: int| string_map::key_at(next.listing(), db@, j);
                assert(cs[j].0 == db@);
                assert(cs[i as int].0 == db@);
            }
        }
        let _ = next.insert(db.clone(), mark);
        assert(next.listing() =~= limits_after(old_marks, cs.take(i + 1)));
        i = i + 1;
    }
    assert(cs.take(n as int) =~= cs);
    *marks = next;
}

/// While a limit stays the same, its counters never go back, and they show what
/// it has counted as soon as that is more.
pub proof fn limit_counters_only_grow(m: CoordinatorMark, s: CoordinatorStats)
    ensures
        mark_of(m, s).evictions >= m.evictions,
        mark_of(m, s).reserve_acquisitions >= m.reserve_acquisitions,
        mark_of(m, s).exhaustions >= m.exhaustions,
        s.evictions_total >= m.evictions ==> mark_of(m, s).evictions == s.evictions_total,
        s.reserve_acquisitions_total >= m.reserve_acquisitions ==> mark_of(
            m,
            s,
        ).reserve_acquisitions == s.reserve_acquisitions_total,
        s.exhaustions_total >= m.exhaustions ==> mark_of(m, s).exhaustions == s.exhaustions_total,
{
}

/// A limit is shown with its own numbers, and its counters are raised to what it has
/// counted.
pub proof fn limits_show_their_numbers(
    m: update::AllShown,
    before: Seq<Change>,
    db: Seq<char>,
    s: CoordinatorStats,
    m0: CoordinatorMark,
)
    ensures
        ({
            let a = update::all_applied(m, before);
            let b = update::all_applied(m, limit_shown(before, db, s, m0));
            &&& update::shown_at(b, (Family::Coordinator, seq!["connections"@, db])).thousandths == 1000 * s.total_connections
            &&& update::shown_at(b, (Family::Coordinator, seq!["reserve_in_use"@, db])).thousandths == 1000 * s.reserve_in_use
            &&& update::shown_at(b, (Family::Coordinator, seq!["max_connections"@, db])).thousandths == 1000 * s.max_db_connections
            &&& update::shown_at(b, (Family::Coordinator, seq!["reserve_pool_size"@, db])).thousandths == 1000 * s.reserve_pool_size
            &&& update::shown_at(a, (Family::CoordinatorTotal, seq!["evictions"@, db])).thousandths == 1000 * m0.evictions ==> update::shown_at(b, (Family::CoordinatorTotal, seq!["evictions"@, db])).thousandths == 1000 * (if s.evictions_total > m0.evictions {
                s.evictions_total
            } else {
                m0.evictions
            })
            &&& update::shown_at(a, (Family::CoordinatorTotal, seq!["reserve_acquisitions"@, db])).thousandths == 1000 * m0.reserve_acquisitions ==> update::shown_at(b, (Family::CoordinatorTotal, seq!["reserve_acquisitions"@, db])).thousandths == 1000 * (if s.reserve_acquisitions_total > m0.reserve_acquisitions {
                s.reserve_acquisitions_total
            } else {
                m0.reserve_acquisitions
            })
            &&& update::shown_at(a, (Family::CoordinatorTotal, seq!["exhaustions"@, db])).thousandths == 1000 * m0.exhaustions ==> update::shown_at(b, (Family::CoordinatorTotal, seq!["exhaustions"@, db])).thousandths == 1000 * (if s.exhaustions_total > m0.exhaustions {
                s.exhaustions_total
            } else {
                m0.exhaustions
            })
        }),
{
    assert forall|cs: Seq<Change>, c: Change| #[trigger]
        update::all_applied(m, cs.push(c)) == update::applied(update::all_applied(m, cs), c) by {
        update::appended_is_applied_last(m, cs, c);
    }
    reveal_strlit("connections");
    reveal_strlit("reserve_in_use");
    reveal_strlit("max_connections");
    reveal_strlit("reserve_pool_size");
    reveal_strlit("evictions");
    reveal_strlit("reserve_acquisitions");
    reveal_strlit("exhaustions");
    assert(seq!["connections"@, db][0] == "connections"@);
    assert(seq!["reserve_in_use"@, db][0] == "reserve_in_use"@);
    assert(seq!["max_connections"@, db][0] == "max_connections"@);
    assert(seq!["reserve_pool_size"@, db][0] == "reserve_pool_size"@);
    assert("connections"@.len() == 11 && "reserve_in_use"@.len() == 14);
    assert("connections"@.len() == 11 && "max_connections"@.len() == 15);
    assert("connections"@.len() == 11 && "reserve_pool_size"@.len() == 17);
    assert("reserve_in_use"@.len() == 14 && "max_connections"@.len() == 15);
    assert("reserve_in_use"@.len() == 14 && "reserve_pool_size"@.len() == 17);
    assert("max_connections"@.len() == 15 && "reserve_pool_size"@.len() == 17);
    assert(seq!["evictions"@, db][0] == "evictions"@);
    assert(seq!["reserve_acquisitions"@, db][0] == "reserve_acquisitions"@);
    assert(seq!["exhaustions"@, db][0] == "exhaustions"@);
    assert("evictions"@.len() == 9 && "reserve_acquisitions"@.len() == 20);
    assert("evictions"@.len() == 9 && "exhaustions"@.len() == 11);
    assert("reserve_acquisitions"@.len() == 20 && "exhaustions"@.len() == 11);
}

/// The series of a limit that is gone are not shown any more.
pub proof fn limits_that_are_gone_show_nothing(m: update::AllShown, before: Seq<Change>, db: Seq<char>)
    ensures
        !update::all_applied(m, limit_gone(before, db)).contains_key(
            (Family::Coordinator, seq!["connections"@, db]),
        ),
        !update::all_applied(m, limit_gone(before, db)).contains_key(
            (Family::Coordinator, seq!["reserve_in_use"@, db]),
        ),
        !update::all_applied(m, limit_gone(before, db)).contains_key(
            (Family::Coordinator, seq!["max_connections"@, db]),
        ),
        !update::all_applied(m, limit_gone(before, db)).contains_key(
            (Family::Coordinator, seq!["reserve_pool_size"@, db]),
        ),
        !update::all_applied(m, limit_gone(before, db)).contains_key(
            (Family::CoordinatorTotal, seq!["evictions"@, db]),
        ),
        !update::all_applied(m, limit_gone(before, db)).contains_key(
            (Family::CoordinatorTotal, seq!["reserve_acquisitions"@, db]),
        ),
        !update::all_applied(m, limit_gone(before, db)).contains_key(
            (Family::CoordinatorTotal, seq!["exhaustions"@, db]),
        ),
{
    assert forall|cs: Seq<Change>, c: Change| #[trigger]
        update::all_applied(m, cs.push(c)) == update::applied(update::all_applied(m, cs), c) by {
        update::appended_is_applied_last(m, cs, c);
    }
}

/// A limit that was replaced starts from nothing, one that stays goes on from what was
/// shown of it.
pub proof fn replaced_limits_start_over(
    marks: Map<Seq<char>, CoordinatorMark>,
    db: Seq<char>,
    s: CoordinatorStats,
)
    ensures
        marks.contains_key(db) && marks[db].identity == s.identity ==> shown(marks, db, s)
            == marks[db] && !replaced(marks, db, s),
        !marks.contains_key(db) || marks[db].identity != s.identity ==> shown(marks, db, s).evictions
            == 0 && shown(marks, db, s).reserve_acquisitions == 0 && shown(marks, db, s).exhaustions
            == 0,
        marks.contains_key(db) && marks[db].identity != s.identity ==> replaced(marks, db, s),
{
}

} // verus!
