//! A map from texts to values that remembers the order of insertion.
use vstd::prelude::*;
use crate::text::{same_text, text_before};
#[allow(unused_imports)]
use crate::text;

verus! {

/// Entry `i` of the listing has the key `k`.
pub open spec fn key_at<K, V>(s: Seq<(K, V)>, k: K, i: int) -> bool {
    0 <= i < s.len() && s[i].0 == k
}

/// Some entry of the listing has the key `k`.
pub open spec fn has_key<K, V>(s: Seq<(K, V)>, k: K) -> bool {
    exists|i: int| key_at(s, k, i)
}

/// No key is listed twice.
pub open spec fn unique_keys<K, V>(s: Seq<(K, V)>) -> bool {
    forall|i: int, j: int|
        0 <= i < j < s.len() ==> (#[trigger] s[i]).0 != (#[trigger] s[j]).0
}

/// The map that a listing stands for.
pub open spec fn listed<K, V>(s: Seq<(K, V)>) -> Map<K, V> {
    Map::new(|k: K| has_key(s, k), |k: K| s[choose|i: int| key_at(s, k, i)].1)
}

/// An entry of a listing without repeated keys is found in its map.
pub proof fn listed_entry<K, V>(s: Seq<(K, V)>, i: int)
    requires
        unique_keys(s),
        0 <= i < s.len(),
    ensures
        listed(s).contains_key(s[i].0),
        listed(s)[s[i].0] == s[i].1,
{
    let k = s[i].0;
    assert(key_at(s, k, i));
    let j = choose|j: int| key_at(s, k, j);
    assert(key_at(s, k, j));
    assert(i == j);
}

/// A key of the map stands in the listing.
pub proof fn listed_key<K, V>(s: Seq<(K, V)>, k: K) -> (i: int)
    requires
        unique_keys(s),
        listed(s).contains_key(k),
    ensures
        key_at(s, k, i),
        listed(s)[k] == s[i].1,
{
    let i = choose|i: int| key_at(s, k, i);
    i
}

/// Adding an entry with a new key adds the entry to the map.
pub proof fn listed_push<K, V>(s: Seq<(K, V)>, k: K, v: V)
    requires
        unique_keys(s),
        !has_key(s, k),
    ensures
        unique_keys(s.push((k, v))),
        listed(s.push((k, v))) == listed(s).insert(k, v),
{
    let t = s.push((k, v));
    assert forall|i: int, j: int| 0 <= i < j < t.len() implies (#[trigger] t[i]).0 != (
    #[trigger] t[j]).0 by {
        if j == s.len() {
            assert(!key_at(s, k, i));
        }
    }
    let m = listed(s).insert(k, v);
    assert forall|x: K| #[trigger] listed(t).contains_key(x) == m.contains_key(x) by {
        if has_key(s, x) {
            let i = choose|i: int| key_at(s, x, i);
            assert(key_at(t, x, i));
        }
        if x == k {
            assert(key_at(t, x, s.len() as int));
        }
        if has_key(t, x) && x != k {
            let i = choose|i: int| key_at(t, x, i);
            assert(key_at(s, x, i));
        }
    }
    assert forall|x: K| #[trigger] m.contains_key(x) implies listed(t)[x] == m[x] by {
        if x == k {
            listed_entry(t, s.len() as int);
        } else {
            let i = listed_key(s, x);
            listed_entry(t, i);
        }
    }
    assert(listed(t) =~= m);
}

/// Replacing the value of an entry replaces it in the map.
pub proof fn listed_update<K, V>(s: Seq<(K, V)>, i: int, v: V)
    requires
        unique_keys(s),
        0 <= i < s.len(),
    ensures
        unique_keys(s.update(i, (s[i].0, v))),
        listed(s.update(i, (s[i].0, v))) == listed(s).insert(s[i].0, v),
{
    let k = s[i].0;
    let t = s.update(i, (k, v));
    let m = listed(s).insert(k, v);
    assert forall|x: K| #[trigger] listed(t).contains_key(x) == m.contains_key(x) by {
        if has_key(s, x) {
            let j = choose|j: int| key_at(s, x, j);
            assert(key_at(t, x, j));
        }
        if x == k {
            assert(key_at(t, x, i));
        }
        if has_key(t, x) {
            let j = choose|j: int| key_at(t, x, j);
            assert(key_at(s, x, j));
        }
    }
    assert forall|x: K| #[trigger] m.contains_key(x) implies listed(t)[x] == m[x] by {
        if x == k {
            listed_entry(t, i);
        } else {
            let j = listed_key(s, x);
            listed_entry(t, j);
        }
    }
    assert(listed(t) =~= m);
}

/// Removing an entry removes it from the map.
pub proof fn listed_remove<K, V>(s: Seq<(K, V)>, i: int)
    requires
        unique_keys(s),
        0 <= i < s.len(),
    ensures
        unique_keys(s.remove(i)),
        listed(s.remove(i)) == listed(s).remove(s[i].0),
{
    let k = s[i].0;
    let t = s.remove(i);
    let m = listed(s).remove(k);
    assert forall|a: int, b: int| 0 <= a < b < t.len() implies (#[trigger] t[a]).0 != (
    #[trigger] t[b]).0 by {
        let a2 = if a < i { a } else { a + 1 };
        let b2 = if b < i { b } else { b + 1 };
        assert(t[a] == s[a2] && t[b] == s[b2]);
    }
    assert forall|x: K| #[trigger] listed(t).contains_key(x) == m.contains_key(x) by {
        if has_key(s, x) && x != k {
            let j = choose|j: int| key_at(s, x, j);
            let j2 = if j < i { j } else { j - 1 };
            assert(key_at(t, x, j2));
        }
        if has_key(t, x) {
            let j = choose|j: int| key_at(t, x, j);
            let j2 = if j < i { j } else { j + 1 };
            assert(key_at(s, x, j2));
            assert(s[j2].0 != s[i].0);
        }
    }
    assert forall|x: K| #[trigger] m.contains_key(x) implies listed(t)[x] == m[x] by {
        let j = listed_key(s, x);
        let j2 = if j < i { j } else { j - 1 };
        listed_entry(t, j2);
    }
    assert(listed(t) =~= m);
}

/// The empty listing stands for the empty map.
pub proof fn listed_empty<K, V>()
    ensures
        listed(Seq::<(K, V)>::empty()) == Map::<K, V>::empty(),
{
    assert(listed(Seq::<(K, V)>::empty()) =~= Map::<K, V>::empty());
}

/// Parts of a listing without repeated keys, and the map of one entry more.
pub proof fn listed_step<K, V>(s: Seq<(K, V)>, i: int)
    requires
        unique_keys(s),
        0 <= i < s.len(),
    ensures
        unique_keys(s.take(i)),
        listed(s.take(i + 1)) == listed(s.take(i)).insert(s[i].0, s[i].1),
        !listed(s.take(i)).contains_key(s[i].0),
{
    let part = s.take(i);
    assert(unique_keys(part)) by {
        assert forall|a: int, b: int| 0 <= a < b < part.len() implies (#[trigger] part[a]).0 != (
        #[trigger] part[b]).0 by {
            assert(s[a].0 != s[b].0);
        }
    }
    assert forall|j: int| !#[trigger] key_at(part, s[i].0, j) by {
        if key_at(part, s[i].0, j) {
            assert(s[j].0 == s[i].0);
        }
    }
    listed_push(part, s[i].0, s[i].1);
    assert(s.take(i + 1) =~= part.push(s[i]));
}

/// The keys of a listing come in the order of texts, each once.
pub open spec fn ordered<V>(s: Seq<(Seq<char>, V)>) -> bool {
    forall|i: int, j: int|
        0 <= i < j < s.len() ==> text::text_lt((#[trigger] s[i]).0, (#[trigger] s[j]).0)
}

/// The listing of stored entries.
pub open spec fn listing_of<V>(entries: Seq<(String, V)>) -> Seq<(Seq<char>, V)> {
    Seq::new(entries.len(), |i: int| (entries[i].0@, entries[i].1))
}

/// A map from texts to values. Entries keep the place at which their key was
/// first inserted.
#[derive(Debug)]
pub struct StringMap<V> {
    entries: Vec<(String, V)>,
}

impl<V> StringMap<V> {
    /// The entries in order.
    pub closed spec fn listing(&self) -> Seq<(Seq<char>, V)> {
        listing_of(self.entries@)
    }

    #[verifier::type_invariant]
    spec fn keys_differ(self) -> bool {
        unique_keys(self.listing())
    }
}

impl<V> View for StringMap<V> {
    type V = Map<Seq<char>, V>;

    open spec fn view(&self) -> Map<Seq<char>, V> {
        listed(self.listing())
    }
}

impl<V> StringMap<V> {
    /// The empty map.
    pub fn new() -> (m: Self)
        ensures
            m@ == Map::<Seq<char>, V>::empty(),
            m.listing() == Seq::<(Seq<char>, V)>::empty(),
    {
        let m = StringMap { entries: Vec::new() };
        proof {
            assert(m.listing() =~= Seq::<(Seq<char>, V)>::empty());
            listed_empty::<Seq<char>, V>();
        }
        m
    }

    /// The number of entries.
    pub fn len(&self) -> (n: usize)
        ensures
            n == self.listing().len(),
            unique_keys(self.listing()),
    {
        proof {
            use_type_invariant(self);
        }
        self.entries.len()
    }

    /// Whether there is no entry.
    pub fn is_empty(&self) -> (r: bool)
        ensures
            r == (self@ == Map::<Seq<char>, V>::empty()),
            r == (self.listing().len() == 0),
    {
        proof {
            use_type_invariant(self);
            if self.listing().len() == 0 {
                assert(self.listing() =~= Seq::<(Seq<char>, V)>::empty());
                listed_empty::<Seq<char>, V>();
            } else {
                listed_entry(self.listing(), 0);
            }
        }
        self.entries.len() == 0
    }

    /// The key of entry `i`.
    pub fn key(&self, i: usize) -> (k: &String)
        requires
            i < self.listing().len(),
        ensures
            k@ == self.listing()[i as int].0,
    {
        &self.entries[i].0
    }

    /// The value of entry `i`.
    pub fn value(&self, i: usize) -> (v: &V)
        requires
            i < self.listing().len(),
        ensures
            *v == self.listing()[i as int].1,
    {
        &self.entries[i].1
    }

    /// The place of the entry with this key.
    fn find(&self, key: &str) -> (r: Option<usize>)
        ensures
            match r {
                Some(i) => key_at(self.listing(), key@, i as int),
                None => !has_key(self.listing(), key@),
            },
    {
        let mut i: usize = 0;
        while i < self.entries.len()
            invariant
                i <= self.entries.len(),
                forall|j: int| 0 <= j < i ==> !#[trigger] key_at(self.listing(), key@, j),
            decreases self.entries.len() - i,
        {
            if same_text(self.entries[i].0.as_str(), key) {
                return Some(i);
            }
            i = i + 1;
        }
        None
    }

    /// The value stored under `key`.
    pub fn get(&self, key: &str) -> (r: Option<&V>)
        ensures
            match r {
                Some(v) => self@.contains_key(key@) && *v == self@[key@],
                None => !self@.contains_key(key@),
            },
    {
        proof {
            use_type_invariant(self);
        }
        match self.find(key) {
            Some(i) => {
                proof {
                    listed_entry(self.listing(), i as int);
                }
                Some(&self.entries[i].1)
            },
            None => None,
        }
    }

    /// Whether `key` is in the map.
    pub fn contains_key(&self, key: &str) -> (r: bool)
        ensures
            r == self@.contains_key(key@),
    {
        match self.find(key) {
            Some(_i) => true,
            None => false,
        }
    }

    /// Stores `value` under `key`; a value stored there before is handed back.
    pub fn insert(&mut self, key: String, value: V) -> (r: Option<V>)
        ensures
            final(self)@ == old(self)@.insert(key@, value),
            match r {
                Some(v) => old(self)@.contains_key(key@) && v == old(self)@[key@],
                None => !old(self)@.contains_key(key@),
            },
            has_key(old(self).listing(), key@) ==> final(self).listing().len()
                == old(self).listing().len(),
            !has_key(old(self).listing(), key@) ==> final(self).listing()
                == old(self).listing().push((key@, value)),
    {
        proof {
            use_type_invariant(&*self);
        }
        let place = self.find(key.as_str());
        let mut entries: Vec<(String, V)> = Vec::new();
        std::mem::swap(&mut entries, &mut self.entries);
        let ghost before = old(self).listing();
        match place {
            Some(i) => {
                let ghost k = key@;
                let (_, replaced) = entries.remove(i);
                entries.insert(i, (key, value));
                proof {
                    listed_entry(before, i as int);
                    listed_update(before, i as int, value);
                    assert(listing_of(entries@) =~= before.update(i as int, (k, value)));
                }
                self.entries = entries;
                Some(replaced)
            },
            None => {
                let ghost k = key@;
                entries.push((key, value));
                proof {
                    listed_push(before, k, value);
                    assert(listing_of(entries@) =~= before.push((k, value)));
                }
                self.entries = entries;
                None
            },
        }
    }

    /// Takes the entry with this key out of the map.
    pub fn remove(&mut self, key: &str) -> (r: Option<V>)
        ensures
            final(self)@ == old(self)@.remove(key@),
            match r {
                Some(v) => old(self)@.contains_key(key@) && v == old(self)@[key@],
                None => !old(self)@.contains_key(key@) && final(self).listing() == old(self).listing(),
            },
    {
        proof {
            use_type_invariant(&*self);
        }
        let place = self.find(key);
        let ghost before = old(self).listing();
        match place {
            Some(i) => {
                let mut entries: Vec<(String, V)> = Vec::new();
                std::mem::swap(&mut entries, &mut self.entries);
                let (_, removed) = entries.remove(i);
                proof {
                    listed_entry(before, i as int);
                    listed_remove(before, i as int);
                    assert(listing_of(entries@) =~= before.remove(i as int));
                }
                self.entries = entries;
                Some(removed)
            },
            None => {
                assert(old(self)@.remove(key@) =~= old(self)@);
                None
            },
        }
    }
}

/// The texts that a map from texts to strings holds.
pub open spec fn texts(m: Map<Seq<char>, String>) -> Map<Seq<char>, Seq<char>> {
    m.map_values(|v: String| v@)
}

/// The same for a listing.
pub open spec fn text_listing(s: Seq<(Seq<char>, String)>) -> Seq<(Seq<char>, Seq<char>)> {
    Seq::new(s.len(), |i: int| (s[i].0, s[i].1@))
}

/// Inserting a string inserts its text.
pub broadcast proof fn texts_insert(m: Map<Seq<char>, String>, k: Seq<char>, v: String)
    ensures
        #[trigger] texts(m.insert(k, v)) == texts(m).insert(k, v@),
{
    assert(texts(m.insert(k, v)) =~= texts(m).insert(k, v@));
}

/// Removing a string removes its text.
pub broadcast proof fn texts_remove(m: Map<Seq<char>, String>, k: Seq<char>)
    ensures
        #[trigger] texts(m.remove(k)) == texts(m).remove(k),
{
    assert(texts(m.remove(k)) =~= texts(m).remove(k));
}

/// Taking the texts and taking the map may be done in either order.
pub proof fn listed_texts(s: Seq<(Seq<char>, String)>)
    requires
        unique_keys(s),
    ensures
        unique_keys(text_listing(s)),
        listed(text_listing(s)) == texts(listed(s)),
{
    let t = text_listing(s);
    assert forall|i: int, j: int| 0 <= i < j < t.len() implies (#[trigger] t[i]).0 != (
    #[trigger] t[j]).0 by {
        assert(s[i].0 != s[j].0);
    }
    assert forall|x: Seq<char>|
        #[trigger] listed(t).contains_key(x) == texts(listed(s)).contains_key(x) by {
        if has_key(s, x) {
            let i = choose|i: int| key_at(s, x, i);
            assert(key_at(t, x, i));
        }
        if has_key(t, x) {
            let i = choose|i: int| key_at(t, x, i);
            assert(key_at(s, x, i));
        }
    }
    assert forall|x: Seq<char>| #[trigger] listed(t).contains_key(x) implies listed(t)[x]
        == texts(listed(s))[x] by {
        let i = listed_key(s, x);
        listed_entry(t, i);
    }
    assert(listed(t) =~= texts(listed(s)));
}

/// A listing in order repeats no key.
pub proof fn ordered_unique_keys<V>(s: Seq<(Seq<char>, V)>)
    requires
        ordered(s),
    ensures
        unique_keys(s),
{
    assert forall|i: int, j: int| 0 <= i < j < s.len() implies (#[trigger] s[i]).0 != (
    #[trigger] s[j]).0 by {
        text::text_lt_irreflexive(s[i].0);
    }
}

/// A map has one listing in order only.
pub proof fn ordered_listing_unique<V>(s: Seq<(Seq<char>, V)>, t: Seq<(Seq<char>, V)>)
    requires
        ordered(s),
        ordered(t),
        listed(s) == listed(t),
    ensures
        s == t,
    decreases s.len(),
{
    ordered_unique_keys(s);
    ordered_unique_keys(t);
    if s.len() == 0 {
        if t.len() > 0 {
            listed_entry(t, 0);
            let i = listed_key(s, t[0].0);
        }
        assert(s =~= t);
    } else {
        listed_entry(s, 0);
        let j = listed_key(t, s[0].0);
        listed_entry(t, 0);
        let i = listed_key(s, t[0].0);
        if j > 0 {
            assert(text::text_lt(t[0].0, t[j].0));
            text::text_lt_irreflexive(s[0].0);
            if i > 0 {
                assert(text::text_lt(s[0].0, s[i].0));
                text::text_lt_transitive(s[0].0, t[0].0, s[0].0);
            }
        }
        assert(s[0] == t[0]);
        listed_remove(s, 0);
        listed_remove(t, 0);
        let s1 = s.remove(0);
        let t1 = t.remove(0);
        assert(ordered(s1)) by {
            assert forall|a: int, b: int| 0 <= a < b < s1.len() implies text::text_lt(
                (#[trigger] s1[a]).0,
                (#[trigger] s1[b]).0,
            ) by {
                assert(text::text_lt(s[a + 1].0, s[b + 1].0));
            }
        }
        assert(ordered(t1)) by {
            assert forall|a: int, b: int| 0 <= a < b < t1.len() implies text::text_lt(
                (#[trigger] t1[a]).0,
                (#[trigger] t1[b]).0,
            ) by {
                assert(text::text_lt(t[a + 1].0, t[b + 1].0));
            }
        }
        ordered_listing_unique(s1, t1);
        assert(s =~= seq![s[0]] + s1);
        assert(t =~= seq![t[0]] + t1);
    }
}

/// The entries of a map in the order of their keys.
pub open spec fn in_order(m: Map<Seq<char>, Seq<char>>) -> Seq<(Seq<char>, Seq<char>)> {
    choose|s: Seq<(Seq<char>, Seq<char>)>| #[trigger] ordered(s) && listed(s) == m
}

/// A listing in order is `in_order` of its map.
pub proof fn in_order_of(s: Seq<(Seq<char>, Seq<char>)>)
    requires
        ordered(s),
    ensures
        in_order(listed(s)) == s,
{
    ordered_listing_unique(s, in_order(listed(s)));
}

/// An entry put between two parts of a listing in order.
proof fn ordered_insert<V>(s: Seq<(Seq<char>, V)>, p: int, k: Seq<char>, v: V)
    requires
        ordered(s),
        0 <= p <= s.len(),
        forall|i: int| 0 <= i < p ==> text::text_lt((#[trigger] s[i]).0, k),
        forall|i: int| p <= i < s.len() ==> text::text_lt(k, (#[trigger] s[i]).0),
    ensures
        ordered(s.insert(p, (k, v))),
        listed(s.insert(p, (k, v))) == listed(s).insert(k, v),
{
    let t = s.insert(p, (k, v));
    assert forall|a: int, b: int| 0 <= a < b < t.len() implies text::text_lt(
        (#[trigger] t[a]).0,
        (#[trigger] t[b]).0,
    ) by {
        let a2 = if a < p { a } else { a - 1 };
        let b2 = if b < p { b } else { b - 1 };
        if a != p && b != p {
            assert(text::text_lt(s[a2].0, s[b2].0));
        } else if a == p {
            assert(text::text_lt(k, s[b2].0));
        } else {
            assert(text::text_lt(s[a2].0, k));
        }
    }
    ordered_unique_keys(t);
    listed_remove(t, p);
    listed_entry(t, p);
    assert(t.remove(p) =~= s);
    assert(listed(t) =~= listed(s).insert(k, v));
}

impl StringMap<String> {
    /// The entries in the order of their keys.
    pub fn sorted(&self) -> (r: Vec<(String, String)>)
        ensures
            text_listing(listing_of(r@)) == in_order(texts(self@)),
            ordered(listing_of(r@)),
            listed(listing_of(r@)) == self@,
    {
        proof {
            use_type_invariant(self);
        }
        let mut out: Vec<(String, String)> = Vec::new();
        let ghost whole = self.listing();
        proof {
            assert(listing_of(out@) =~= Seq::<(Seq<char>, String)>::empty());
            assert(whole.take(0) =~= Seq::<(Seq<char>, String)>::empty());
        }
        let mut i: usize = 0;
        while i < self.entries.len()
            invariant
                i <= self.entries.len(),
                whole == self.listing(),
                unique_keys(whole),
                ordered(listing_of(out@)),
                listed(listing_of(out@)) == listed(whole.take(i as int)),
            decreases self.entries.len() - i,
        {
            let ghost k = whole[i as int].0;
            let ghost now = listing_of(out@);
            proof {
                let part = whole.take(i as int);
                assert forall|j: int| !#[trigger] key_at(part, k, j) by {
                    if key_at(part, k, j) {
                        assert(whole[j].0 == whole[i as int].0);
                    }
                }
                assert(unique_keys(part)) by {
                    assert forall|a: int, b: int| 0 <= a < b < part.len() implies (
                    #[trigger] part[a]).0 != (#[trigger] part[b]).0 by {
                        assert(whole[a].0 != whole[b].0);
                    }
                }
                listed_push(part, k, whole[i as int].1);
                assert(whole.take(i + 1) =~= part.push(whole[i as int]));
                assert(!listed(now).contains_key(k));
            }
            let mut p: usize = 0;
            while p < out.len() && text_before(out[p].0.as_str(), self.entries[i].0.as_str())
                invariant
                    p <= out.len(),
                    i < self.entries.len(),
                    now == listing_of(out@),
                    k == self.entries@[i as int].0@,
                    forall|j: int| 0 <= j < p ==> text::text_lt((#[trigger] now[j]).0, k),
                decreases out.len() - p,
            {
                assert(now[p as int].0 == out@[p as int].0@);
                p = p + 1;
            }
            proof {
                ordered_unique_keys(now);
                assert forall|j: int| p <= j < now.len() implies text::text_lt(
                    k,
                    (#[trigger] now[j]).0,
                ) by {
                    listed_entry(now, p as int);
                    assert(now[p as int].0 == out@[p as int].0@);
                    text::text_lt_total(now[p as int].0, k);
                    if j > p {
                        assert(text::text_lt(now[p as int].0, now[j].0));
                        text::text_lt_transitive(k, now[p as int].0, now[j].0);
                    }
                }
                ordered_insert(now, p as int, k, whole[i as int].1);
            }
            out.insert(p, (self.entries[i].0.clone(), self.entries[i].1.clone()));
            assert(listing_of(out@) =~= now.insert(p as int, (k, whole[i as int].1)));
            i = i + 1;
        }
        proof {
            assert(whole.take(whole.len() as int) =~= whole);
            let s = listing_of(out@);
            ordered_unique_keys(s);
            listed_texts(s);
            let t = text_listing(s);
            assert forall|a: int, b: int| 0 <= a < b < t.len() implies text::text_lt(
                (#[trigger] t[a]).0,
                (#[trigger] t[b]).0,
            ) by {
                assert(text::text_lt(s[a].0, s[b].0));
            }
            in_order_of(t);
        }
        out
    }

    /// A copy whose entries stand in the order of their keys.
    pub fn in_key_order(&self) -> (r: StringMap<String>)
        ensures
            r@ == self@,
            text_listing(r.listing()) == in_order(texts(self@)),
    {
        let entries = self.sorted();
        proof {
            ordered_unique_keys(listing_of(entries@));
        }
        StringMap { entries }
    }

    /// A copy with the same entries in the same order.
    pub fn copy(&self) -> (r: StringMap<String>)
        ensures
            r.listing() == self.listing(),
            r@ == self@,
            unique_keys(r.listing()),
    {
        proof {
            use_type_invariant(self);
        }
        let mut entries: Vec<(String, String)> = Vec::new();
        let mut i: usize = 0;
        while i < self.entries.len()
            invariant
                i <= self.entries.len(),
                entries.len() == i,
                forall|j: int|
                    0 <= j < i ==> (#[trigger] entries@[j]) == self.entries@[j],
            decreases self.entries.len() - i,
        {
            entries.push((self.entries[i].0.clone(), self.entries[i].1.clone()));
            i = i + 1;
        }
        assert(entries@ =~= self.entries@);
        StringMap { entries }
    }
}

} // verus!
