//! Values by label values.
use vstd::prelude::*;
use crate::text::same_text;
#[allow(unused_imports)]
use crate::string_map;
#[allow(unused_imports)]
use crate::text;

verus! {

/// The label values of a series, as the contracts speak of them.
pub type Labels = Seq<Seq<char>>;

/// Whether both are the same label values.
pub fn same_labels(a: &Vec<String>, b: &Vec<String>) -> (r: bool)
    ensures
        r == (text::texts_of(a@) == text::texts_of(b@)),
{
    if a.len() != b.len() {
        assert(text::texts_of(a@).len() != text::texts_of(b@).len());
        return false;
    }
    let mut i: usize = 0;
    while i < a.len()
        invariant
            i <= a.len(),
            a.len() == b.len(),
            forall|j: int| 0 <= j < i ==> (#[trigger] a@[j])@ == b@[j]@,
        decreases a.len() - i,
    {
        if !same_text(a[i].as_str(), b[i].as_str()) {
            assert(text::texts_of(a@)[i as int] != text::texts_of(b@)[i as int]);
            return false;
        }
        i = i + 1;
    }
    assert(text::texts_of(a@) =~= text::texts_of(b@));
    true
}

/// A copy of label values.
pub fn copy_labels(a: &Vec<String>) -> (r: Vec<String>)
    ensures
        text::texts_of(r@) == text::texts_of(a@),
{
    let mut r: Vec<String> = Vec::new();
    let mut i: usize = 0;
    while i < a.len()
        invariant
            i <= a.len(),
            r@ == a@.take(i as int),
        decreases a.len() - i,
    {
        r.push(a[i].clone());
        assert(r@ =~= a@.take(i + 1));
        i = i + 1;
    }
    assert(r@ =~= a@);
    r
}

/// Label values out of texts.
pub fn labels_of(list: &[&str]) -> (r: Vec<String>)
    ensures
        text::texts_of(r@) == text::views(list@),
{
    let mut r: Vec<String> = Vec::new();
    let mut i: usize = 0;
    while i < list.len()
        invariant
            i <= list.len(),
            r.len() == i,
            forall|j: int| 0 <= j < i ==> (#[trigger] r@[j])@ == list@[j]@,
        decreases list.len() - i,
    {
        r.push(list[i].to_owned());
        i = i + 1;
    }
    assert(text::texts_of(r@) =~= text::views(list@));
    r
}

/// Whether label values are in a list.
pub fn has_labels(list: &Vec<Vec<String>>, k: &Vec<String>) -> (r: bool)
    ensures
        r == label_lists(list@).contains(text::texts_of(k@)),
{
    let mut i: usize = 0;
    while i < list.len()
        invariant
            i <= list.len(),
            forall|j: int|
                0 <= j < i ==> (#[trigger] label_lists(list@)[j]) != text::texts_of(k@),
        decreases list.len() - i,
    {
        if same_labels(&list[i], k) {
            assert(label_lists(list@)[i as int] == text::texts_of(k@));
            return true;
        }
        i = i + 1;
    }
    false
}

/// The label values of a list.
pub open spec fn label_lists(list: Seq<Vec<String>>) -> Seq<Labels> {
    Seq::new(list.len(), |i: int| text::texts_of(list[i]@))
}

/// Where in a listing the label values stand.
pub open spec fn place<V>(s: Seq<(Labels, V)>, k: Labels) -> int {
    choose|i: int| string_map::key_at(s, k, i)
}

/// The value for label values.
pub open spec fn found<V>(s: Seq<(Labels, V)>, k: Labels) -> Option<V> {
    if string_map::has_key(s, k) {
        Some(s[place(s, k)].1)
    } else {
        None
    }
}

/// The listing with a value for label values: the one that was there gives way,
/// a new one comes last.
pub open spec fn placed<V>(s: Seq<(Labels, V)>, k: Labels, v: V) -> Seq<(Labels, V)> {
    if string_map::has_key(s, k) {
        s.update(place(s, k), (k, v))
    } else {
        s.push((k, v))
    }
}

/// The entries whose label values are among `keys`.
pub open spec fn kept<V>(s: Seq<(Labels, V)>, keys: Seq<Labels>) -> Seq<(Labels, V)>
    decreases s.len(),
{
    if s.len() == 0 {
        s
    } else {
        let rest = kept(s.drop_last(), keys);
        if keys.contains(s.last().0) {
            rest.push(s.last())
        } else {
            rest
        }
    }
}

/// The label values that are not among `keys`.
pub open spec fn dropped<V>(s: Seq<(Labels, V)>, keys: Seq<Labels>) -> Seq<Labels>
    decreases s.len(),
{
    if s.len() == 0 {
        Seq::empty()
    } else {
        let rest = dropped(s.drop_last(), keys);
        if keys.contains(s.last().0) {
            rest
        } else {
            rest.push(s.last().0)
        }
    }
}

/// What is kept was listed, among `keys`, and still has different labels.
pub proof fn kept_is_listed<V>(s: Seq<(Labels, V)>, keys: Seq<Labels>)
    requires
        string_map::unique_keys(s),
    ensures
        string_map::unique_keys(kept(s, keys)),
        forall|k: Labels| #[trigger]
            string_map::has_key(kept(s, keys), k) <==> string_map::has_key(s, k)
                && keys.contains(k),
    decreases s.len(),
{
    let out = kept(s, keys);
    if s.len() > 0 {
        let init = s.drop_last();
        kept_is_listed(init, keys);
        let rest = kept(init, keys);
        let last = s.last();
        assert(!string_map::has_key(init, last.0)) by {
            if string_map::has_key(init, last.0) {
                let i = choose|i: int| string_map::key_at(init, last.0, i);
                assert(s[i].0 == last.0);
                assert(s[s.len() - 1].0 == last.0);
            }
        }
        assert(!string_map::has_key(rest, last.0));
        if keys.contains(last.0) {
            string_map::listed_push(rest, last.0, last.1);
        }
        assert forall|k: Labels| #[trigger]
            string_map::has_key(out, k) == (string_map::has_key(s, k) && keys.contains(k)) by {
            if string_map::has_key(out, k) {
                let i = choose|i: int| string_map::key_at(out, k, i);
                if i < rest.len() {
                    assert(string_map::key_at(rest, k, i));
                    assert(string_map::has_key(rest, k));
                    assert(string_map::has_key(init, k));
                    let j = choose|j: int| string_map::key_at(init, k, j);
                    assert(string_map::key_at(s, k, j));
                } else {
                    assert(string_map::key_at(s, k, s.len() - 1));
                }
            }
            if string_map::has_key(s, k) && keys.contains(k) {
                let j = choose|j: int| string_map::key_at(s, k, j);
                if j < init.len() {
                    assert(string_map::key_at(init, k, j));
                    assert(string_map::has_key(init, k));
                    assert(string_map::has_key(rest, k));
                    let i = choose|i: int| string_map::key_at(rest, k, i);
                    assert(string_map::key_at(out, k, i));
                } else {
                    assert(string_map::key_at(out, k, rest.len() as int));
                }
            }
        }
    } else {
        assert forall|k: Labels| #[trigger]
            string_map::has_key(out, k) == (string_map::has_key(s, k) && keys.contains(k)) by {}
    }
}

/// What is kept is found as before.
pub proof fn kept_is_found<V>(s: Seq<(Labels, V)>, keys: Seq<Labels>, k: Labels)
    requires
        string_map::unique_keys(s),
        keys.contains(k),
    ensures
        found(kept(s, keys), k) == found(s, k),
    decreases s.len(),
{
    kept_is_listed(s, keys);
    let out = kept(s, keys);
    assert(string_map::has_key(out, k) == string_map::has_key(s, k));
    if string_map::has_key(s, k) {
        let i = place(s, k);
        let j = place(out, k);
        assert(string_map::key_at(s, k, i));
        assert(string_map::key_at(out, k, j));
        let init = s.drop_last();
        assert(string_map::unique_keys(init));
        if i == s.len() - 1 {
            assert(out[out.len() - 1] == s[i]);
            assert(out[j].0 == out[out.len() - 1].0);
        } else {
            kept_is_found(init, keys, k);
            assert(string_map::key_at(init, k, i));
            assert(string_map::has_key(init, k));
            let i2 = place(init, k);
            assert(string_map::key_at(init, k, i2));
            assert(s[i2].0 == s[i].0);
            kept_is_listed(init, keys);
            let rest = kept(init, keys);
            assert(string_map::has_key(rest, k));
            let j2 = place(rest, k);
            assert(string_map::key_at(rest, k, j2));
            assert(out[j2] == rest[j2]);
            assert(out[j2].0 == out[j].0);
        }
    }
}

/// A value that was placed is found, and no other changes.
pub proof fn placed_is_found<V>(s: Seq<(Labels, V)>, k: Labels, v: V)
    requires
        string_map::unique_keys(s),
    ensures
        string_map::unique_keys(placed(s, k, v)),
        found(placed(s, k, v), k) == Some(v),
        forall|x: Labels| x != k ==> #[trigger] found(placed(s, k, v), x) == found(s, x),
{
    let t = placed(s, k, v);
    if string_map::has_key(s, k) {
        let i = place(s, k);
        string_map::listed_update(s, i, v);
        assert(string_map::key_at(t, k, i));
        assert(s[i].0 == k);
    } else {
        string_map::listed_push(s, k, v);
        assert(string_map::key_at(t, k, s.len() as int));
    }
    let p = place(t, k);
    assert(string_map::key_at(t, k, p));
    assert(t[p].1 == v);
    assert forall|x: Labels| x != k implies #[trigger] found(t, x) == found(s, x) by {
        if string_map::has_key(s, x) {
            let i = place(s, x);
            assert(string_map::key_at(s, x, i));
            assert(string_map::key_at(t, x, i));
            let j = place(t, x);
            assert(string_map::key_at(t, x, j));
            assert(i == j);
        } else if string_map::has_key(t, x) {
            let j = place(t, x);
            assert(string_map::key_at(t, x, j));
            assert(string_map::key_at(s, x, j));
        }
    }
}

/// The listing of stored entries.
pub open spec fn label_listing<V>(entries: Seq<(Vec<String>, V)>) -> Seq<(Labels, V)> {
    Seq::new(entries.len(), |i: int| (text::texts_of(entries[i].0@), entries[i].1))
}

/// A map from label values to values.
#[derive(Debug)]
pub struct LabelMap<V> {
    entries: Vec<(Vec<String>, V)>,
}

impl<V> LabelMap<V> {
    /// The entries in order.
    pub closed spec fn listing(&self) -> Seq<(Labels, V)> {
        label_listing(self.entries@)
    }

    #[verifier::type_invariant]
    spec fn labels_differ(self) -> bool {
        string_map::unique_keys(self.listing())
    }

    /// The empty map.
    pub fn new() -> (m: Self)
        ensures
            m.listing() == Seq::<(Labels, V)>::empty(),
    {
        let m = LabelMap { entries: Vec::new() };
        assert(m.listing() =~= Seq::<(Labels, V)>::empty());
        m
    }

    /// The number of entries.
    pub fn len(&self) -> (n: usize)
        ensures
            n == self.listing().len(),
            string_map::unique_keys(self.listing()),
    {
        proof {
            use_type_invariant(self);
        }
        self.entries.len()
    }

    /// The label values of entry `i`.
    pub fn labels(&self, i: usize) -> (k: &Vec<String>)
        requires
            i < self.listing().len(),
        ensures
            text::texts_of(k@) == self.listing()[i as int].0,
    {
        &self.entries[i].0
    }

    /// The value of entry `i`.
    pub fn value(&self, i: usize) -> (v: &V)
        requires
            i < self.listing().len(),
        ensures
            *v == self.listing()[i as int].1,
    {
        &self.entries[i].1
    }

    /// The place of the entry with these label values.
    fn find(&self, k: &Vec<String>) -> (r: Option<usize>)
        ensures
            match r {
                Some(i) => string_map::key_at(self.listing(), text::texts_of(k@), i as int),
                None => !string_map::has_key(self.listing(), text::texts_of(k@)),
            },
    {
        let mut i: usize = 0;
        while i < self.entries.len()
            invariant
                i <= self.entries.len(),
                forall|j: int|
                    0 <= j < i ==> (#[trigger] self.listing()[j]).0 != text::texts_of(k@),
            decreases self.entries.len() - i,
        {
            if same_labels(&self.entries[i].0, k) {
                return Some(i);
            }
            i = i + 1;
        }
        None
    }

    /// The value for label values.
    pub fn get(&self, k: &Vec<String>) -> (r: Option<&V>)
        ensures
            match r {
                Some(v) => found(self.listing(), text::texts_of(k@)) == Some(*v),
                None => found(self.listing(), text::texts_of(k@)) is None,
            },
    {
        proof {
            use_type_invariant(self);
        }
        match self.find(k) {
            Some(i) => {
                assert(string_map::key_at(
                    self.listing(),
                    text::texts_of(k@),
                    place(self.listing(), text::texts_of(k@)),
                ));
                Some(&self.entries[i].1)
            },
            None => None,
        }
    }

    /// Stores a value for label values.
    pub fn put(&mut self, k: Vec<String>, v: V)
        ensures
            final(self).listing() == placed(old(self).listing(), text::texts_of(k@), v),
    {
        proof {
            use_type_invariant(&*self);
        }
        let at = self.find(&k);
        let ghost s = self.listing();
        let ghost key = text::texts_of(k@);
        proof {
            placed_is_found(s, key, v);
        }
        let mut entries: Vec<(Vec<String>, V)> = Vec::new();
        std::mem::swap(&mut entries, &mut self.entries);
        match at {
            Some(i) => {
                assert(string_map::key_at(s, key, place(s, key)));
                let _ = entries.remove(i);
                entries.insert(i, (k, v));
                assert(label_listing(entries@) =~= s.update(i as int, (key, v)));
            },
            None => {
                entries.push((k, v));
                assert(label_listing(entries@) =~= s.push((key, v)));
            },
        }
        self.entries = entries;
    }

    /// Drops the entries whose label values are not among `keys`, and names them.
    pub fn drop_others(&mut self, keys: &Vec<Vec<String>>) -> (r: Vec<Vec<String>>)
        ensures
            final(self).listing() == kept(old(self).listing(), label_lists(keys@)),
            label_lists(r@) == dropped(old(self).listing(), label_lists(keys@)),
    {
        proof {
            use_type_invariant(&*self);
            kept_is_listed(self.listing(), label_lists(keys@));
        }
        let ghost s = self.listing();
        let ghost ks = label_lists(keys@);
        let mut entries: Vec<(Vec<String>, V)> = Vec::new();
        std::mem::swap(&mut entries, &mut self.entries);
        let mut stay: Vec<(Vec<String>, V)> = Vec::new();
        let mut go: Vec<Vec<String>> = Vec::new();
        let n: usize = entries.len();
        let mut i: usize = 0;
        proof {
            assert(s.take(0) =~= Seq::<(Labels, V)>::empty());
            assert(label_listing(stay@) =~= s.take(0));
            assert(label_lists(go@) =~= Seq::<Labels>::empty());
            assert(label_listing(entries@) =~= s.skip(0));
        }
        while i < n
            invariant
                i <= n,
                n == s.len(),
                ks == label_lists(keys@),
                label_listing(entries@) == s.skip(i as int),
                label_listing(stay@) == kept(s.take(i as int), ks),
                label_lists(go@) == dropped(s.take(i as int), ks),
            decreases n - i,
        {
            assert(label_listing(entries@).len() == entries@.len());
            let ghost first = label_listing(entries@)[0];
            let ghost before = label_listing(stay@);
            let ghost gone = label_lists(go@);
            let ghost waiting = entries@;
            let (k, v) = entries.remove(0);
            proof {
                assert(first == s[i as int]);
                assert(s.take(i + 1).drop_last() =~= s.take(i as int));
                assert(entries@ =~= waiting.drop_first());
                assert(label_listing(entries@) =~= s.skip(i + 1)) by {
                    assert forall|j: int| 0 <= j < entries@.len() implies #[trigger]
                        label_listing(entries@)[j] == s.skip(i + 1)[j] by {
                        assert(label_listing(waiting)[j + 1] == s.skip(i as int)[j + 1]);
                    }
                }
            }
            if has_labels(keys, &k) {
                stay.push((k, v));
                assert(label_listing(stay@) =~= before.push(first));
            } else {
                go.push(k);
                assert(label_lists(go@) =~= gone.push(first.0));
            }
            i = i + 1;
        }
        assert(s.take(n as int) =~= s);
        self.entries = stay;
        go
    }
}

/// What is dropped was listed, and is not among `keys`.
pub proof fn dropped_is_the_rest<V>(s: Seq<(Labels, V)>, keys: Seq<Labels>, k: Labels)
    ensures
        dropped(s, keys).contains(k) <==> string_map::has_key(s, k) && !keys.contains(k),
    decreases s.len(),
{
    if s.len() > 0 {
        let front = s.drop_last();
        let rest = dropped(front, keys);
        dropped_is_the_rest(front, keys, k);
        assert(s[s.len() - 1] == s.last());
        if string_map::has_key(front, k) {
            let i = choose|i: int| string_map::key_at(front, k, i);
            assert(string_map::key_at(s, k, i));
        }
        if string_map::has_key(s, k) && !string_map::has_key(front, k) {
            let i = choose|i: int| string_map::key_at(s, k, i);
            if i < front.len() {
                assert(string_map::key_at(front, k, i));
            }
            assert(s.last().0 == k);
        }
        if s.last().0 == k {
            assert(string_map::key_at(s, k, s.len() - 1));
        }
        if !keys.contains(s.last().0) {
            let all = rest.push(s.last().0);
            if rest.contains(k) {
                let i = choose|i: int| 0 <= i < rest.len() && rest[i] == k;
                assert(all[i] == k);
            }
            if s.last().0 == k {
                assert(all[all.len() - 1] == k);
            }
            if all.contains(k) && !rest.contains(k) {
                let i = choose|i: int| 0 <= i < all.len() && all[i] == k;
                if i < rest.len() {
                    assert(rest[i] == k);
                }
            }
        }
    }
}

} // verus!
