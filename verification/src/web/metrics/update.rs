//! What an exporter is told to do.
use vstd::prelude::*;
use crate::web::metrics::label_map::labels_of;
#[allow(unused_imports)]
use crate::text;
#[allow(unused_imports)]
use crate::web::metrics::label_map::Labels;

verus! {

/// The exported families of series.
#[derive(Debug, Clone, Copy, PartialEq, Eq, Hash, Structural)]
pub enum Family {
    BuildInfo,
    UsersConfigured,
    LogLevel,
    TotalMemory,
    Connections,
    ConnectionsTotal,
    Sockets,
    PoolsClients,
    PoolSize,
    PoolsServers,
    PoolsOldestActiveAgeMs,
    PoolsPaused,
    PoolsMaxwaitMicroseconds,
    PoolsErrorsTotal,
    ServerCleanupTotal,
    PoolsBytes,
    PoolsBytesTotal,
    PoolCacheEntries,
    PoolCacheBytes,
    ClientCacheEntries,
    ClientCacheBytes,
    AsyncClientsCount,
    ClientPreparedNamedEntries,
    ClientPreparedAnonymousEntries,
    ClientPreparedAnonymousEvictionsTotal,
    ListenerRejectionsTotal,
    StreamingEventsTotal,
    StreamingBytesTotal,
    QueryInternerEntries,
    QueryInternerBytes,
    QueryInternerEvictionsTotal,
    QueryInternerSyntheticMissesTotal,
    PoolsQueriesPercentile,
    PoolsTransactionsPercentile,
    PoolsTransactionsCount,
    PoolsTransactionsTotal,
    PoolsTransactionsTotalTime,
    PoolsQueriesCount,
    PoolsQueriesTotal,
    PoolsQueriesTotalTime,
    PoolsAvgWaitTime,
    PoolsQueryDuration,
    PoolsTransactionDuration,
    PoolsWaitDuration,
    ServersPreparedHits,
    ServersPreparedMisses,
    ServersPreparedHitsTotal,
    ServersPreparedMissesTotal,
    AuthQueryCache,
    AuthQueryAuth,
    AuthQueryExecutor,
    AuthQueryDynamicPools,
    AuthQueryCacheTotal,
    AuthQueryAuthTotal,
    AuthQueryExecutorTotal,
    AuthQueryDynamicPoolsTotal,
    Coordinator,
    CoordinatorTotal,
    PoolScaling,
    PoolScalingTotal,
    ServerTlsConnections,
}

/// What happens to a series, or to all the series of a family.
#[derive(Debug, Clone, Copy, PartialEq, Eq, Structural)]
pub enum Op {
    /// All series of the family go.
    Reset,
    /// The series shows this value.
    Show(u64),
    /// The series shows a thousandth of this value.
    ShowThousandths(u64),
    /// The series grows by this value; it starts from nothing.
    Add(u64),
    /// The series goes.
    Remove,
    /// The series counts a duration of so many microseconds.
    Observe(u64),
}

/// One step for the exporter.
#[derive(Debug)]
pub struct Update {
    pub family: Family,
    pub op: Op,
    /// The label values of the series; none for a whole family.
    pub labels: Vec<String>,
}

/// The same, as the contracts speak of it.
pub struct Change {
    pub family: Family,
    pub op: Op,
    pub labels: Labels,
}

impl View for Update {
    type V = Change;

    open spec fn view(&self) -> Change {
        Change { family: self.family, op: self.op, labels: text::texts_of(self.labels@) }
    }
}

/// A change of the series with these label values.
pub open spec fn change(family: Family, op: Op, labels: Labels) -> Change {
    Change { family, op, labels }
}

/// The changes that updates stand for.
pub open spec fn changes(updates: Seq<Update>) -> Seq<Change> {
    Seq::new(updates.len(), |i: int| updates[i]@)
}

/// What a series shows.
pub struct Shown {
    /// Its value, in thousandths.
    pub thousandths: int,
    /// The durations that it has counted, in microseconds.
    pub observed: Seq<u64>,
}

/// What all series show, by their family and label values.
pub type AllShown = Map<(Family, Labels), Shown>;

/// A series that shows one.
pub open spec fn one() -> Shown {
    Shown { thousandths: 1000, observed: Seq::empty() }
}

/// What a series shows; nothing for one that is not there.
pub open spec fn shown_at(m: AllShown, k: (Family, Labels)) -> Shown {
    if m.contains_key(k) {
        m[k]
    } else {
        Shown { thousandths: 0, observed: Seq::empty() }
    }
}

/// What the series show after a change.
pub open spec fn applied(m: AllShown, c: Change) -> AllShown {
    let k = (c.family, c.labels);
    match c.op {
        Op::Reset => Map::new(
            |x: (Family, Labels)| m.contains_key(x) && x.0 != c.family,
            |x: (Family, Labels)| m[x],
        ),
        Op::Show(v) => m.insert(k, Shown { thousandths: v * 1000, observed: Seq::empty() }),
        Op::ShowThousandths(v) => m.insert(
            k,
            Shown { thousandths: v as int, observed: Seq::empty() },
        ),
        Op::Add(v) => m.insert(
            k,
            Shown { thousandths: shown_at(m, k).thousandths + v * 1000, ..shown_at(m, k) },
        ),
        Op::Remove => m.remove(k),
        Op::Observe(v) => m.insert(
            k,
            Shown { observed: shown_at(m, k).observed.push(v), ..shown_at(m, k) },
        ),
    }
}

/// What the series show after changes, one after the other.
pub open spec fn all_applied(m: AllShown, cs: Seq<Change>) -> AllShown
    decreases cs.len(),
{
    if cs.len() == 0 {
        m
    } else {
        applied(all_applied(m, cs.drop_last()), cs.last())
    }
}

/// Changes that were appended are applied last.
pub proof fn appended_is_applied_last(m: AllShown, cs: Seq<Change>, c: Change)
    ensures
        all_applied(m, cs.push(c)) == applied(all_applied(m, cs), c),
{
    assert(cs.push(c).drop_last() =~= cs);
}

/// An update of the series with these label values.
pub fn update(family: Family, op: Op, labels: &[&str]) -> (r: Update)
    ensures
        r@ == change(family, op, text::views(labels@)),
{
    Update { family, op, labels: labels_of(labels) }
}

/// Appends an update.
pub fn append(out: &mut Vec<Update>, u: Update)
    ensures
        changes(final(out)@) == changes(old(out)@).push(u@),
{
    out.push(u);
    assert(changes(out@) =~= changes(old(out)@).push(u@));
}

/// Appends an update of a whole family or of a series without labels.
pub fn push0(out: &mut Vec<Update>, family: Family, op: Op)
    ensures
        changes(final(out)@) == changes(old(out)@).push(change(family, op, seq![])),
{
    let u = Update { family, op, labels: Vec::new() };
    assert(u@.labels =~= seq![]);
    append(out, u);
}

/// Appends an update of a series with one label.
pub fn push1(out: &mut Vec<Update>, family: Family, op: Op, a: &str)
    ensures
        changes(final(out)@) == changes(old(out)@).push(change(family, op, seq![a@])),
{
    let list = [a];
    assert(text::views(list@) =~= seq![a@]);
    append(out, update(family, op, &list));
}

/// Appends an update of a series with two labels.
pub fn push2(out: &mut Vec<Update>, family: Family, op: Op, a: &str, b: &str)
    ensures
        changes(final(out)@) == changes(old(out)@).push(change(family, op, seq![a@, b@])),
{
    let list = [a, b];
    assert(text::views(list@) =~= seq![a@, b@]);
    append(out, update(family, op, &list));
}

/// Appends an update of a series with three labels.
pub fn push3(out: &mut Vec<Update>, family: Family, op: Op, a: &str, b: &str, c: &str)
    ensures
        changes(final(out)@) == changes(old(out)@).push(change(family, op, seq![a@, b@, c@])),
{
    let list = [a, b, c];
    assert(text::views(list@) =~= seq![a@, b@, c@]);
    append(out, update(family, op, &list));
}

} // verus!
