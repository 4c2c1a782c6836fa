//! How much a counter has grown since it was exported last.
use vstd::prelude::*;
use crate::text::{has_prefix, same_text};
use crate::web::metrics::label_map::{copy_labels, LabelMap};
use crate::web::metrics::update::{append, Family, Op, Update};
#[allow(unused_imports)]
use crate::string_map;
#[allow(unused_imports)]
use crate::text;
#[allow(unused_imports)]
use crate::web::metrics::label_map;
#[allow(unused_imports)]
use crate::web::metrics::label_map::Labels;
#[allow(unused_imports)]
use crate::web::metrics::update;
#[allow(unused_imports)]
use crate::web::metrics::update::Change;

verus! {

/// What was seen of a source last.
#[derive(Debug, Clone, Copy, PartialEq, Eq, Structural)]
pub struct Mark {
    pub value: u64,
    /// Which incarnation of the source it was.
    pub generation: u64,
}

/// How much a source has counted since it was seen last. A new incarnation has
/// counted from nothing, and so has one that shows less than before.
pub open spec fn growth(last: Option<Mark>, generation: u64, current: u64) -> u64 {
    let m = match last {
        Some(m) => m,
        None => Mark { value: 0, generation: 0 },
    };
    if generation == m.generation && current >= m.value {
        (current - m.value) as u64
    } else {
        current
    }
}

/// Counts per series what their sources have counted, although sources start
/// over whenever they are made anew.
#[derive(Debug)]
pub struct CounterDeltaTracker {
    pub marks: LabelMap<Mark>,
}

/// A source with the label values of its series.
#[derive(Debug)]
pub struct Reading {
    pub labels: Vec<String>,
    pub generation: u64,
    pub value: u64,
}

/// The same, as the contracts speak of it.
pub struct Sample {
    pub labels: Labels,
    pub generation: u64,
    pub value: u64,
}

impl View for Reading {
    type V = Sample;

    open spec fn view(&self) -> Sample {
        Sample {
            labels: text::texts_of(self.labels@),
            generation: self.generation,
            value: self.value,
        }
    }
}

/// The samples that readings stand for.
pub open spec fn samples(readings: Seq<Reading>) -> Seq<Sample> {
    Seq::new(readings.len(), |i: int| readings[i]@)
}

/// The label values of samples.
pub open spec fn sample_labels(s: Seq<Sample>) -> Seq<Labels> {
    Seq::new(s.len(), |i: int| s[i].labels)
}

/// The marks after a sample was seen.
pub open spec fn noted(marks: Seq<(Labels, Mark)>, s: Sample) -> Seq<(Labels, Mark)> {
    label_map::placed(marks, s.labels, Mark { value: s.value, generation: s.generation })
}

/// The marks after samples were seen.
pub open spec fn all_noted(marks: Seq<(Labels, Mark)>, s: Seq<Sample>) -> Seq<(Labels, Mark)>
    decreases s.len(),
{
    if s.len() == 0 {
        marks
    } else {
        noted(all_noted(marks, s.drop_last()), s.last())
    }
}

/// The changes when samples are exported: each series grows as its source did.
pub open spec fn grown(
    before: Seq<Change>,
    family: Family,
    marks: Seq<(Labels, Mark)>,
    s: Seq<Sample>,
) -> Seq<Change>
    decreases s.len(),
{
    if s.len() == 0 {
        before
    } else {
        let x = s.last();
        let at = all_noted(marks, s.drop_last());
        grown(before, family, marks, s.drop_last()).push(
            update::change(
                family,
                Op::Add(growth(label_map::found(at, x.labels), x.generation, x.value)),
                x.labels,
            ),
        )
    }
}

/// The changes when series go.
pub open spec fn gone(before: Seq<Change>, family: Family, labels: Seq<Labels>) -> Seq<Change>
    decreases labels.len(),
{
    if labels.len() == 0 {
        before
    } else {
        gone(before, family, labels.drop_last()).push(
            update::change(family, Op::Remove, labels.last()),
        )
    }
}

/// The changes when a family is exported: its series grow, and those that have
/// no source any more go.
pub open spec fn exported(
    before: Seq<Change>,
    family: Family,
    marks: Seq<(Labels, Mark)>,
    s: Seq<Sample>,
) -> Seq<Change> {
    gone(
        grown(before, family, marks, s),
        family,
        label_map::dropped(all_noted(marks, s), sample_labels(s)),
    )
}

/// The marks after a family was exported.
pub open spec fn marks_after(marks: Seq<(Labels, Mark)>, s: Seq<Sample>) -> Seq<(Labels, Mark)> {
    label_map::kept(all_noted(marks, s), sample_labels(s))
}

/// Appends that series go.
pub(crate) fn remove_all(out: &mut Vec<Update>, family: Family, labels: Vec<Vec<String>>)
    ensures
        changes_gone(*old(out), *final(out), family, labels@),
{
    let ghost ls = label_map::label_lists(labels@);
    let ghost before = update::changes(out@);
    let mut i: usize = 0;
    assert(ls.take(0) =~= Seq::<Labels>::empty());
    while i < labels.len()
        invariant
            i <= labels.len(),
            ls == label_map::label_lists(labels@),
            update::changes(out@) == gone(before, family, ls.take(i as int)),
        decreases labels.len() - i,
    {
        assert(ls.take(i + 1).drop_last() =~= ls.take(i as int));
        append(out, Update { family, op: Op::Remove, labels: copy_labels(&labels[i]) });
        i = i + 1;
    }
    assert(ls.take(ls.len() as int) =~= ls);
}

/// Updates with removals appended.
pub open spec fn changes_gone(
    before: Vec<Update>,
    after: Vec<Update>,
    family: Family,
    labels: Seq<Vec<String>>,
) -> bool {
    update::changes(after@) == gone(
        update::changes(before@),
        family,
        label_map::label_lists(labels),
    )
}

impl CounterDeltaTracker {
    /// Nothing was seen yet.
    pub fn new() -> (r: Self)
        ensures
            r.marks.listing() == Seq::<(Labels, Mark)>::empty(),
    {
        CounterDeltaTracker { marks: LabelMap::new() }
    }

    /// Notes the value of a source and says how much it has grown.
    pub fn observe(&mut self, labels: Vec<String>, generation: u64, current: u64) -> (delta: u64)
        ensures
            delta == growth(
                label_map::found(old(self).marks.listing(), text::texts_of(labels@)),
                generation,
                current,
            ),
            final(self).marks.listing() == label_map::placed(
                old(self).marks.listing(),
                text::texts_of(labels@),
                Mark { value: current, generation },
            ),
    {
        let last: Mark = match self.marks.get(&labels) {
            Some(m) => *m,
            None => Mark { value: 0, generation: 0 },
        };
        let delta: u64 = if generation != last.generation {
            current
        } else if current >= last.value {
            current - last.value
        } else {
            current
        };
        self.marks.put(labels, Mark { value: current, generation });
        delta
    }

    /// Forgets the series that are not among `current`, and names them.
    pub fn drain_stale(&mut self, current: &Vec<Vec<String>>) -> (stale: Vec<Vec<String>>)
        ensures
            final(self).marks.listing() == label_map::kept(
                old(self).marks.listing(),
                label_map::label_lists(current@),
            ),
            label_map::label_lists(stale@) == label_map::dropped(
                old(self).marks.listing(),
                label_map::label_lists(current@),
            ),
    {
        self.marks.drop_others(current)
    }

    /// Exports all the series of a family.
    pub fn export(&mut self, family: Family, readings: &Vec<Reading>, out: &mut Vec<Update>)
        ensures
            update::changes(final(out)@) == exported(
                update::changes(old(out)@),
                family,
                old(self).marks.listing(),
                samples(readings@),
            ),
            final(self).marks.listing() == marks_after(
                old(self).marks.listing(),
                samples(readings@),
            ),
    {
        let ghost s = samples(readings@);
        let ghost before = update::changes(out@);
        let ghost marks = self.marks.listing();
        let mut keys: Vec<Vec<String>> = Vec::new();
        let mut i: usize = 0;
        assert(s.take(0) =~= Seq::<Sample>::empty());
        assert(label_map::label_lists(keys@) =~= sample_labels(s.take(0)));
        while i < readings.len()
            invariant
                i <= readings.len(),
                s == samples(readings@),
                update::changes(out@) == grown(before, family, marks, s.take(i as int)),
                self.marks.listing() == all_noted(marks, s.take(i as int)),
                label_map::label_lists(keys@) == sample_labels(s.take(i as int)),
            decreases readings.len() - i,
        {
            let r = &readings[i];
            let ghost ks = label_map::label_lists(keys@);
            assert(s.take(i + 1).drop_last() =~= s.take(i as int));
            assert(s.take(i + 1).last() == r@);
            let delta: u64 = self.observe(copy_labels(&r.labels), r.generation, r.value);
            append(out, Update { family, op: Op::Add(delta), labels: copy_labels(&r.labels) });
            keys.push(copy_labels(&r.labels));
            proof {
                assert(label_map::label_lists(keys@) =~= ks.push(r@.labels));
                assert(sample_labels(s.take(i + 1)) =~= ks.push(r@.labels));
            }
            i = i + 1;
        }
        assert(s.take(s.len() as int) =~= s);
        let stale = self.drain_stale(&keys);
        remove_all(out, family, stale);
    }
}

/// What a sequence of observations of one source makes its series grow by.
pub open spec fn total_growth(seen: Seq<(u64, u64)>) -> nat
    decreases seen.len(),
{
    if seen.len() == 0 {
        0
    } else {
        let last = last_mark(seen.drop_last());
        total_growth(seen.drop_last()) + growth(last, seen.last().0, seen.last().1) as nat
    }
}

/// The mark after observations, each with its generation and its value.
pub open spec fn last_mark(seen: Seq<(u64, u64)>) -> Option<Mark> {
    if seen.len() == 0 {
        None
    } else {
        Some(Mark { generation: seen.last().0, value: seen.last().1 })
    }
}

/// However often a source is observed while it only grows, its series shows what
/// it has counted: nothing is counted twice and nothing is missed.
pub proof fn growth_adds_up(seen: Seq<(u64, u64)>)
    requires
        seen.len() > 0,
        forall|i: int, j: int|
            0 <= i < j < seen.len() ==> (#[trigger] seen[i]).0 == (#[trigger] seen[j]).0
                && seen[i].1 <= seen[j].1,
    ensures
        total_growth(seen) == seen.last().1,
    decreases seen.len(),
{
    let init = seen.drop_last();
    if init.len() > 0 {
        growth_adds_up(init);
        assert(init.last() == seen[seen.len() - 2]);
        assert(seen.last() == seen[seen.len() - 1]);
    } else {
        assert(total_growth(init) == 0);
    }
}

/// When a source is made anew, its series grows by what the new one has counted,
/// even if that is more than the old one had; and once seen it is not counted
/// again.
pub proof fn new_generation_counts_once(last: Mark, generation: u64, current: u64)
    requires
        generation != last.generation,
    ensures
        growth(Some(last), generation, current) == current,
        growth(Some(Mark { value: current, generation }), generation, current) == 0,
{
}

/// A series whose source was gone starts from nothing when a source of the same
/// name appears.
pub proof fn forgotten_sources_start_over(
    marks: Seq<(Labels, Mark)>,
    current: Seq<Labels>,
    labels: Labels,
    generation: u64,
    value: u64,
)
    requires
        string_map::unique_keys(marks),
        !current.contains(labels),
    ensures
        growth(
            label_map::found(label_map::kept(marks, current), labels),
            generation,
            value,
        ) == value,
{
    label_map::kept_is_listed(marks, current);
    assert(!string_map::has_key(label_map::kept(marks, current), labels));
}

/// Each sample has labels of its own.
pub open spec fn labels_differ(s: Seq<Sample>) -> bool {
    forall|i: int, j: int|
        0 <= i < j < s.len() ==> (#[trigger] s[i]).labels != (#[trigger] s[j]).labels
}

/// Noting samples keeps the labels different, notes each of them and leaves the
/// others alone.
proof fn all_noted_found(marks: Seq<(Labels, Mark)>, s: Seq<Sample>)
    requires
        string_map::unique_keys(marks),
        labels_differ(s),
    ensures
        string_map::unique_keys(all_noted(marks, s)),
        forall|i: int|
            0 <= i < s.len() ==> label_map::found(
                all_noted(marks, s),
                (#[trigger] s[i]).labels,
            ) == Some(Mark { value: s[i].value, generation: s[i].generation }),
        forall|k: Labels|
            !sample_labels(s).contains(k) ==> #[trigger] label_map::found(all_noted(marks, s), k)
                == label_map::found(marks, k),
    decreases s.len(),
{
    if s.len() > 0 {
        let init = s.drop_last();
        let last = s.last();
        assert(labels_differ(init)) by {
            assert forall|i: int, j: int| 0 <= i < j < init.len() implies (
            #[trigger] init[i]).labels != (#[trigger] init[j]).labels by {
                assert(init[i] == s[i] && init[j] == s[j]);
            }
        }
        all_noted_found(marks, init);
        let at = all_noted(marks, init);
        let m = Mark { value: last.value, generation: last.generation };
        label_map::placed_is_found(at, last.labels, m);
        assert forall|i: int| 0 <= i < s.len() implies label_map::found(
            all_noted(marks, s),
            (#[trigger] s[i]).labels,
        ) == Some(Mark { value: s[i].value, generation: s[i].generation }) by {
            if i < init.len() {
                assert(init[i] == s[i]);
                assert(s[s.len() - 1] == last);
                assert(s[i].labels != last.labels);
            }
        }
        assert forall|k: Labels| !sample_labels(s).contains(k) implies
            #[trigger] label_map::found(all_noted(marks, s), k) == label_map::found(marks, k) by {
            assert(sample_labels(s)[s.len() - 1] == last.labels);
            if sample_labels(init).contains(k) {
                let i = choose|i: int| 0 <= i < init.len() && sample_labels(init)[i] == k;
                assert(sample_labels(s)[i] == k);
            }
        }
    }
}

/// Exporting the same values once more adds nothing to any series.
pub proof fn repeated_export_adds_nothing(marks: Seq<(Labels, Mark)>, s: Seq<Sample>, i: int)
    requires
        string_map::unique_keys(marks),
        labels_differ(s),
        0 <= i < s.len(),
    ensures
        growth(
            label_map::found(all_noted(marks_after(marks, s), s.take(i)), s[i].labels),
            s[i].generation,
            s[i].value,
        ) == 0,
{
    let k = s[i].labels;
    let noted = all_noted(marks, s);
    let after = marks_after(marks, s);
    all_noted_found(marks, s);
    label_map::kept_is_listed(noted, sample_labels(s));
    assert(sample_labels(s)[i] == k);
    label_map::kept_is_found(noted, sample_labels(s), k);
    let t = s.take(i);
    assert(labels_differ(t)) by {
        assert forall|a: int, b: int| 0 <= a < b < t.len() implies (#[trigger] t[a]).labels != (
        #[trigger] t[b]).labels by {
            assert(t[a] == s[a] && t[b] == s[b]);
        }
    }
    all_noted_found(after, t);
    assert(!sample_labels(t).contains(k)) by {
        if sample_labels(t).contains(k) {
            let j = choose|j: int| 0 <= j < t.len() && sample_labels(t)[j] == k;
            assert(s[j].labels == s[i].labels);
        }
    }
}

/// The class that an SQLSTATE is exported under.
pub open spec fn sqlstate_class(code: Seq<char>) -> Seq<char> {
    if code == "25P02"@ || code == "26000"@ {
        code
    } else if text::starts_with(code, "08"@) {
        "08"@
    } else if text::starts_with(code, "53"@) {
        "53"@
    } else if text::starts_with(code, "57"@) {
        "57"@
    } else {
        "other"@
    }
}

/// The class that an SQLSTATE is exported under: its first two characters where
/// they say that connections, resources or operators were the cause, the whole
/// code where it points at one misuse, `other` otherwise.
pub fn classify_sqlstate(code: &str) -> (r: &'static str)
    ensures
        r@ == sqlstate_class(code@),
{
    if same_text(code, "25P02") {
        "25P02"
    } else if same_text(code, "26000") {
        "26000"
    } else if has_prefix(code, "08") {
        "08"
    } else if has_prefix(code, "53") {
        "53"
    } else if has_prefix(code, "57") {
        "57"
    } else {
        "other"
    }
}

/// Whatever a backend reports, one of six classes comes out.
pub proof fn classes_are_few(code: Seq<char>)
    ensures
        seq!["25P02"@, "26000"@, "08"@, "53"@, "57"@, "other"@].contains(sqlstate_class(code)),
{
    let all = seq!["25P02"@, "26000"@, "08"@, "53"@, "57"@, "other"@];
    assert(all[0] == "25P02"@ && all[1] == "26000"@ && all[2] == "08"@ && all[3] == "53"@
        && all[4] == "57"@ && all[5] == "other"@);
}

/// What series show after samples have made them grow.
proof fn grown_is_shown(
    m: update::AllShown,
    before: Seq<Change>,
    family: Family,
    marks: Seq<(Labels, Mark)>,
    s: Seq<Sample>,
    k: (Family, Labels),
)
    requires
        string_map::unique_keys(marks),
        labels_differ(s),
    ensures
        ({
            let a = update::all_applied(m, before);
            let b = update::all_applied(m, grown(before, family, marks, s));
            &&& k.0 != family || !sample_labels(s).contains(k.1) ==> b.contains_key(k)
                == a.contains_key(k) && (a.contains_key(k) ==> b[k] == a[k])
            &&& forall|i: int|
                0 <= i < s.len() && k == (family, (#[trigger] s[i]).labels) ==> b.contains_key(k)
                    && b[k].thousandths == update::shown_at(a, k).thousandths + 1000 * growth(
                    label_map::found(marks, s[i].labels),
                    s[i].generation,
                    s[i].value,
                )
        }),
    decreases s.len(),
{
    if s.len() > 0 {
        let front = s.drop_last();
        let x = s.last();
        let n = s.len() - 1;
        assert(labels_differ(front)) by {
            assert forall|i: int, j: int| 0 <= i < j < front.len() implies (#[trigger] front[i]).labels
                != (#[trigger] front[j]).labels by {
                assert(s[i].labels != s[j].labels);
            }
        }
        grown_is_shown(m, before, family, marks, front, k);
        all_noted_found(marks, front);
        assert(!sample_labels(front).contains(x.labels)) by {
            if sample_labels(front).contains(x.labels) {
                let i = choose|i: int|
                    0 <= i < sample_labels(front).len() && sample_labels(front)[i] == x.labels;
                assert(front[i] == s[i]);
                assert(s[i].labels != s[n].labels);
            }
        }
        let grew = grown(before, family, marks, front);
        let c = update::change(
            family,
            Op::Add(
                growth(label_map::found(all_noted(marks, front), x.labels), x.generation, x.value),
            ),
            x.labels,
        );
        update::appended_is_applied_last(m, grew, c);
        assert(sample_labels(s)[n] == x.labels);
        assert(sample_labels(s).contains(x.labels));
        if k.0 == family && sample_labels(front).contains(k.1) {
            let i = choose|i: int|
                0 <= i < sample_labels(front).len() && sample_labels(front)[i] == k.1;
            assert(sample_labels(s)[i] == k.1);
        }
        assert forall|i: int| 0 <= i < s.len() && k == (family, (#[trigger] s[i]).labels) implies ({
            let a = update::all_applied(m, before);
            let b = update::all_applied(m, grown(before, family, marks, s));
            b.contains_key(k) && b[k].thousandths == update::shown_at(a, k).thousandths + 1000
                * growth(label_map::found(marks, s[i].labels), s[i].generation, s[i].value)
        }) by {
            if i < n {
                assert(front[i] == s[i]);
                assert(s[i].labels != s[n].labels);
            }
        }
    }
}

/// What series show after some have gone.
proof fn gone_is_not_shown(
    m: update::AllShown,
    before: Seq<Change>,
    family: Family,
    labels: Seq<Labels>,
    k: (Family, Labels),
)
    ensures
        ({
            let a = update::all_applied(m, before);
            let b = update::all_applied(m, gone(before, family, labels));
            if k.0 == family && labels.contains(k.1) {
                !b.contains_key(k)
            } else {
                b.contains_key(k) == a.contains_key(k) && (a.contains_key(k) ==> b[k] == a[k])
            }
        }),
    decreases labels.len(),
{
    if labels.len() > 0 {
        let front = labels.drop_last();
        gone_is_not_shown(m, before, family, front, k);
        update::appended_is_applied_last(
            m,
            gone(before, family, front),
            update::change(family, Op::Remove, labels.last()),
        );
        assert(labels[labels.len() - 1] == labels.last());
        if front.contains(k.1) {
            let i = choose|i: int| 0 <= i < front.len() && front[i] == k.1;
            assert(labels[i] == k.1);
        }
        if labels.contains(k.1) && labels.last() != k.1 {
            let i = choose|i: int| 0 <= i < labels.len() && labels[i] == k.1;
            assert(front[i] == k.1);
        }
    }
}

/// An export makes each series grow by what its source has counted since it was seen
/// last, takes those away whose source is gone, and touches no other family.
pub proof fn exports_follow_the_sources(
    m: update::AllShown,
    before: Seq<Change>,
    family: Family,
    marks: Seq<(Labels, Mark)>,
    s: Seq<Sample>,
    k: (Family, Labels),
)
    requires
        string_map::unique_keys(marks),
        labels_differ(s),
    ensures
        ({
            let a = update::all_applied(m, before);
            let b = update::all_applied(m, exported(before, family, marks, s));
            &&& k.0 != family ==> b.contains_key(k) == a.contains_key(k) && (a.contains_key(k)
                ==> b[k] == a[k])
            &&& k.0 == family && string_map::has_key(marks, k.1) && (forall|i: int|
                0 <= i < s.len() ==> (#[trigger] s[i]).labels != k.1) ==> !b.contains_key(k)
            &&& forall|i: int|
                0 <= i < s.len() && k == (family, (#[trigger] s[i]).labels) ==> {
                    let last = label_map::found(marks, k.1);
                    let more = update::shown_at(b, k).thousandths - update::shown_at(
                        a,
                        k,
                    ).thousandths;
                    &&& b.contains_key(k)
                    &&& last.is_none() ==> more == 1000 * s[i].value
                    &&& last matches Some(x) ==> if x.generation == s[i].generation && x.value
                        <= s[i].value {
                        more == 1000 * (s[i].value - x.value)
                    } else {
                        more == 1000 * s[i].value
                    }
                }
        }),
{
    let keys = sample_labels(s);
    let stale = label_map::dropped(all_noted(marks, s), keys);
    grown_is_shown(m, before, family, marks, s, k);
    gone_is_not_shown(m, grown(before, family, marks, s), family, stale, k);
    label_map::dropped_is_the_rest(all_noted(marks, s), keys, k.1);
    all_noted_found(marks, s);
    if forall|i: int| 0 <= i < s.len() ==> (#[trigger] s[i]).labels != k.1 {
        if keys.contains(k.1) {
            let i = choose|i: int| 0 <= i < keys.len() && keys[i] == k.1;
            assert(s[i].labels == k.1);
        }
        if string_map::has_key(marks, k.1) {
            assert(label_map::found(all_noted(marks, s), k.1).is_some());
        }
    }
    assert forall|i: int| 0 <= i < s.len() && k == (family, (#[trigger] s[i]).labels) implies keys.contains(
        k.1,
    ) by {
        assert(keys[i] == k.1);
    }
}

/// The class of an SQLSTATE: the two codes that point at one misuse stand for themselves,
/// connections, resources and operators for their class, all else for the rest.
pub proof fn classes_tell_the_cause(rest: Seq<char>)
    ensures
        sqlstate_class("25P02"@) == "25P02"@,
        sqlstate_class("26000"@) == "26000"@,
        sqlstate_class("08"@ + rest) == "08"@,
        sqlstate_class("53"@ + rest) == "53"@,
        sqlstate_class("57"@ + rest) == "57"@,
        !text::starts_with(rest, "08"@) && !text::starts_with(rest, "53"@) && !text::starts_with(
            rest,
            "57"@,
        ) && rest != "25P02"@ && rest != "26000"@ ==> sqlstate_class(rest) == "other"@,
{
    reveal_strlit("25P02");
    reveal_strlit("26000");
    reveal_strlit("08");
    reveal_strlit("53");
    reveal_strlit("57");
    let a = "08"@ + rest;
    let b = "53"@ + rest;
    let c = "57"@ + rest;
    assert(a.subrange(0, 2) =~= "08"@);
    assert(b.subrange(0, 2) =~= "53"@);
    assert(c.subrange(0, 2) =~= "57"@);
    assert(a[0] == '0' && b[0] == '5' && c[0] == '5' && b[1] == '3' && c[1] == '7');
    assert("25P02"@[0] == '2' && "26000"@[0] == '2');
    assert("08"@[0] == '0' && "53"@[1] == '3' && "57"@[1] == '7');
    assert(b.subrange(0, 2)[0] == '5');
    assert(c.subrange(0, 2)[0] == '5');
    assert(c.subrange(0, 2)[1] == '7');
}

} // verus!
