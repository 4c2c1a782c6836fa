//! The names of the prepared statements that one backend connection has.
use std::num::NonZeroUsize;
use lru::LruCache;
use vstd::prelude::*;
use crate::text::same_text;

verus! {

/// The cache of the crate `lru`.
#[verifier::external_type_specification]
#[verifier::external_body]
#[verifier::reject_recursive_types(K)]
#[verifier::reject_recursive_types(V)]
#[verifier::reject_recursive_types(S)]
pub struct ExLruCache<K, V, S>(lru::LruCache<K, V, S>);

/// The hasher that the crate `lru` uses by default.
#[verifier::external_type_specification]
#[verifier::external_body]
pub struct ExDefaultHasher(lru::DefaultHasher);

/// The names in a cache, the most recently used first.
pub uninterp spec fn cached(c: LruCache<String, ()>) -> Seq<Seq<char>>;

/// The number of names that a cache was made for.
pub uninterp spec fn cache_limit(c: LruCache<String, ()>) -> nat;

/// The names without this one.
pub open spec fn without(names: Seq<Seq<char>>, name: Seq<char>) -> Seq<Seq<char>> {
    names.filter(|n: Seq<char>| n != name)
}

/// Taking a name out of a list leaves exactly the other names.
pub proof fn without_contains(names: Seq<Seq<char>>, name: Seq<char>)
    ensures
        forall|other: Seq<char>| #[trigger]
            without(names, name).contains(other) <==> names.contains(other) && other != name,
        without(names, name).len() <= names.len(),
    decreases names.len(),
{
    reveal(Seq::filter);
    if names.len() > 0 {
        without_contains(names.drop_last(), name);
        let w = without(names.drop_last(), name);
        let v = without(names, name);
        assert forall|other: Seq<char>| #[trigger] v.contains(other) <==> names.contains(other)
            && other != name by {
            if names.contains(other) && other != name {
                let i = choose|i: int| 0 <= i < names.len() && names[i] == other;
                if i < names.len() - 1 {
                    assert(names.drop_last()[i] == other);
                    assert(w.contains(other));
                    let j = choose|j: int| 0 <= j < w.len() && w[j] == other;
                    assert(v[j] == other);
                } else {
                    assert(v[v.len() - 1] == other);
                }
            }
            if v.contains(other) {
                let j = choose|j: int| 0 <= j < v.len() && v[j] == other;
                if j < w.len() {
                    assert(w[j] == other);
                    assert(w.contains(other));
                    let i = choose|i: int|
                        0 <= i < names.drop_last().len() && names.drop_last()[i] == other;
                    assert(names[i] == other);
                } else {
                    assert(names[names.len() - 1] == other);
                }
            }
        }
    }
}

/// The names with this one moved or put to the front.
pub open spec fn fronted(names: Seq<Seq<char>>, name: Seq<char>) -> Seq<Seq<char>> {
    seq![name] + without(names, name)
}

/// `LruCache::new`: an empty cache for `limit` names. It allocates room for all
/// of them, which the address space does not have for larger limits.
#[verifier::external_body]
fn lru_new(limit: u32) -> (c: LruCache<String, ()>)
    requires
        limit > 0,
    ensures
        cached(c) == Seq::<Seq<char>>::empty(),
        cache_limit(c) == limit,
{
    LruCache::new(NonZeroUsize::new(limit as usize).unwrap())
}

/// `LruCache::push`: the name becomes the most recently used. A name that was
/// there already is handed back; if a full cache had to make room, the name
/// that was used longest ago is.
#[verifier::external_body]
fn lru_push(c: &mut LruCache<String, ()>, name: String) -> (r: Option<String>)
    ensures
        cache_limit(*final(c)) == cache_limit(*old(c)),
        cached(*final(c)) == if cached(*old(c)).contains(name@) {
            fronted(cached(*old(c)), name@)
        } else if cached(*old(c)).len() == cache_limit(*old(c)) {
            seq![name@] + cached(*old(c)).drop_last()
        } else {
            seq![name@] + cached(*old(c))
        },
        match r {
            Some(n) => n@ == if cached(*old(c)).contains(name@) {
                name@
            } else {
                cached(*old(c)).last()
            },
            None => true,
        },
        r.is_some() == (cached(*old(c)).contains(name@) || cached(*old(c)).len() == cache_limit(
            *old(c),
        )),
{
    c.push(name, ()).map(|entry| entry.0)
}

/// `LruCache::pop`: the name leaves the cache, the others keep their order.
#[verifier::external_body]
fn lru_pop(c: &mut LruCache<String, ()>, name: &str)
    ensures
        cache_limit(*final(c)) == cache_limit(*old(c)),
        cached(*final(c)) == without(cached(*old(c)), name@),
{
    c.pop(name);
}

/// `LruCache::get`: tells whether the name is there; if it is, it becomes the
/// most recently used.
#[verifier::external_body]
fn lru_get(c: &mut LruCache<String, ()>, name: &str) -> (r: bool)
    ensures
        r == cached(*old(c)).contains(name@),
        cache_limit(*final(c)) == cache_limit(*old(c)),
        cached(*final(c)) == if r {
            fronted(cached(*old(c)), name@)
        } else {
            cached(*old(c))
        },
{
    c.get(name).is_some()
}

/// `LruCache::clear`: no name is left.
#[verifier::external_body]
fn lru_clear(c: &mut LruCache<String, ()>)
    ensures
        cache_limit(*final(c)) == cache_limit(*old(c)),
        cached(*final(c)) == Seq::<Seq<char>>::empty(),
{
    c.clear();
}

/// `LruCache::len`: the number of names.
#[verifier::external_body]
fn lru_len(c: &LruCache<String, ()>) -> (n: usize)
    ensures
        n == cached(*c).len(),
{
    c.len()
}

/// What is known of the prepared statements of a backend: none are followed,
/// or the most recently used ones are, up to a limit.
pub struct StatementNames {
    pub names: Seq<Seq<char>>,
    pub limit: nat,
}

/// The statement names after `name` was added.
pub open spec fn names_added(s: StatementNames, name: Seq<char>) -> StatementNames {
    StatementNames {
        names: if s.names.contains(name) {
            fronted(s.names, name)
        } else if s.names.len() == s.limit {
            seq![name] + s.names.drop_last()
        } else {
            seq![name] + s.names
        },
        limit: s.limit,
    }
}

/// The name that had to leave when `name` was added.
pub open spec fn name_evicted(s: StatementNames, name: Seq<char>) -> Option<Seq<char>> {
    if !s.names.contains(name) && s.names.len() == s.limit && s.names.last() != name {
        Some(s.names.last())
    } else {
        None
    }
}

/// The statement names after `name` was looked up.
pub open spec fn names_used(s: StatementNames, name: Seq<char>) -> StatementNames {
    StatementNames {
        names: if s.names.contains(name) {
            fronted(s.names, name)
        } else {
            s.names
        },
        limit: s.limit,
    }
}

/// The statement names after `name` was removed.
pub open spec fn names_removed(s: StatementNames, name: Seq<char>) -> StatementNames {
    StatementNames { names: without(s.names, name), limit: s.limit }
}

/// The statement names after all of these were removed.
pub open spec fn all_removed(s: StatementNames, names: Seq<Seq<char>>) -> StatementNames
    decreases names.len(),
{
    if names.len() == 0 {
        s
    } else {
        names_removed(all_removed(s, names.drop_last()), names.last())
    }
}

/// The texts of a list of strings.
pub open spec fn names_of(v: Seq<String>) -> Seq<Seq<char>> {
    Seq::new(v.len(), |i: int| v[i]@)
}

/// The statement names after all were forgotten.
pub open spec fn names_cleared(s: StatementNames) -> StatementNames {
    StatementNames { names: Seq::empty(), limit: s.limit }
}

/// The prepared statements of one backend, as far as they are followed.
pub struct PreparedCache {
    cache: Option<LruCache<String, ()>>,
}

impl View for PreparedCache {
    type V = Option<StatementNames>;

    closed spec fn view(&self) -> Option<StatementNames> {
        match self.cache {
            Some(c) => Some(StatementNames { names: cached(c), limit: cache_limit(c) }),
            None => None,
        }
    }
}

impl PreparedCache {
    /// A cache for up to `limit` names; 0 switches the cache off.
    pub fn new(limit: u32) -> (r: Self)
        ensures
            r@ == if limit == 0 {
                None
            } else {
                Some(StatementNames { names: Seq::empty(), limit: limit as nat })
            },
    {
        if limit == 0 {
            PreparedCache { cache: None }
        } else {
            PreparedCache { cache: Some(lru_new(limit)) }
        }
    }

    /// Whether statement names are followed.
    pub fn is_enabled(&self) -> (r: bool)
        ensures
            r == self@.is_some(),
    {
        self.cache.is_some()
    }

    /// The number of names, `None` if they are not followed.
    pub fn len(&self) -> (r: Option<usize>)
        ensures
            match r {
                Some(n) => self@.is_some() && n == self@.unwrap().names.len(),
                None => self@.is_none(),
            },
    {
        match &self.cache {
            Some(c) => Some(lru_len(c)),
            None => None,
        }
    }

    /// Adds a name. If another name had to leave for it, that one is returned.
    pub fn add(&mut self, name: &str) -> (r: Option<String>)
        ensures
            match old(self)@ {
                Some(s) => {
                    &&& final(self)@ == Some(names_added(s, name@))
                    &&& r.is_some() == name_evicted(s, name@).is_some()
                    &&& r.is_some() ==> r.unwrap()@ == name_evicted(s, name@).unwrap()
                },
                None => final(self)@.is_none() && r.is_none(),
            },
    {
        match &mut self.cache {
            Some(c) => {
                match lru_push(c, name.to_owned()) {
                    Some(evicted) => {
                        if same_text(evicted.as_str(), name) {
                            None
                        } else {
                            Some(evicted)
                        }
                    },
                    None => None,
                }
            },
            None => None,
        }
    }

    /// Removes a name.
    pub fn remove(&mut self, name: &str)
        ensures
            final(self)@ == match old(self)@ {
                Some(s) => Some(names_removed(s, name@)),
                None => None,
            },
    {
        match &mut self.cache {
            Some(c) => {
                lru_pop(c, name);
            },
            None => {},
        }
    }

    /// Removes all the names of a list.
    pub fn remove_all(&mut self, names: &Vec<String>)
        ensures
            final(self)@ == match old(self)@ {
                Some(s) => Some(all_removed(s, names_of(names@))),
                None => None,
            },
    {
        let ghost all = names_of(names@);
        let ghost start = self@;
        let mut i: usize = 0;
        assert(all.take(0) =~= Seq::<Seq<char>>::empty());
        while i < names.len()
            invariant
                i <= names.len(),
                all == names_of(names@),
                self@ == (match start {
                    Some(s) => Some(all_removed(s, all.take(i as int))),
                    None => None,
                }),
            decreases names.len() - i,
        {
            self.remove(names[i].as_str());
            proof {
                assert(all.take(i + 1).drop_last() =~= all.take(i as int));
                assert(all.take(i + 1).last() == names@[i as int]@);
            }
            i = i + 1;
        }
        assert(all.take(all.len() as int) =~= all);
    }

    /// Whether the name is followed; a name that is becomes the most recently
    /// used.
    pub fn has(&mut self, name: &str) -> (r: bool)
        ensures
            r == (old(self)@.is_some() && old(self)@.unwrap().names.contains(name@)),
            final(self)@ == match old(self)@ {
                Some(s) => Some(names_used(s, name@)),
                None => None,
            },
    {
        match &mut self.cache {
            Some(c) => lru_get(c, name),
            None => false,
        }
    }

    /// Forgets all names.
    pub fn clear(&mut self)
        ensures
            final(self)@ == match old(self)@ {
                Some(s) => Some(names_cleared(s)),
                None => None,
            },
    {
        match &mut self.cache {
            Some(c) => {
                lru_clear(c);
            },
            None => {},
        }
    }
}

} // verus!
