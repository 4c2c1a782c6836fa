//! Pools by database and user.
use vstd::prelude::*;
use crate::config::Address;
use crate::text::{concat, same_text};
#[allow(unused_imports)]
use crate::string_map;
#[allow(unused_imports)]
use crate::text;

verus! {

/// Names a pool: the database that clients ask for and the user who asks.
#[derive(Debug, PartialEq, Eq, Hash)]
pub struct PoolIdentifier {
    pub db: String,
    pub user: String,
}

/// The names, as the contracts speak of them.
pub type Id = (Seq<char>, Seq<char>);

impl View for PoolIdentifier {
    type V = Id;

    open spec fn view(&self) -> Id {
        (self.db@, self.user@)
    }
}

impl PoolIdentifier {
    /// The pool of `user` for `db`.
    pub fn new(db: &str, user: &str) -> (r: PoolIdentifier)
        ensures
            r@ == (db@, user@),
    {
        PoolIdentifier { db: db.to_owned(), user: user.to_owned() }
    }

    /// The pool that an address belongs to.
    pub fn of_address(address: &Address) -> (r: PoolIdentifier)
        ensures
            r@ == (address.database@, address.username@),
    {
        PoolIdentifier::new(address.database.as_str(), address.username.as_str())
    }

    /// Whether both name the same pool.
    pub fn same(&self, other: &PoolIdentifier) -> (r: bool)
        ensures
            r == (self@ == other@),
    {
        same_text(self.db.as_str(), other.db.as_str()) && same_text(
            self.user.as_str(),
            other.user.as_str(),
        )
    }

    /// The name by which a pool is reported.
    pub fn text(&self) -> (s: String)
        ensures
            s@ == text::join(seq![self.user@, "@"@, self.db@]),
    {
        let parts = [self.user.as_str(), "@", self.db.as_str()];
        assert(text::views(parts@) =~= seq![self.user@, "@"@, self.db@]);
        concat(&parts)
    }
}

impl Clone for PoolIdentifier {
    fn clone(&self) -> (r: Self)
        ensures
            r == *self,
    {
        PoolIdentifier { db: self.db.clone(), user: self.user.clone() }
    }
}

impl Default for PoolIdentifier {
    fn default() -> (r: Self)
        ensures
            r@ == (""@, ""@),
    {
        PoolIdentifier::new("", "")
    }
}

/// The listing of stored entries.
pub open spec fn id_listing<V>(entries: Seq<(PoolIdentifier, V)>) -> Seq<(Id, V)> {
    Seq::new(entries.len(), |i: int| (entries[i].0@, entries[i].1))
}

/// A map from identifiers to values.
#[derive(Debug)]
pub struct IdMap<V> {
    entries: Vec<(PoolIdentifier, V)>,
}

impl<V> IdMap<V> {
    /// The entries in order.
    pub closed spec fn listing(&self) -> Seq<(Id, V)> {
        id_listing(self.entries@)
    }

    #[verifier::type_invariant]
    spec fn ids_differ(self) -> bool {
        string_map::unique_keys(self.listing())
    }
}

impl<V> View for IdMap<V> {
    type V = Map<Id, V>;

    open spec fn view(&self) -> Map<Id, V> {
        string_map::listed(self.listing())
    }
}

impl<V> IdMap<V> {
    /// The empty map.
    pub fn new() -> (m: Self)
        ensures
            m@ == Map::<Id, V>::empty(),
    {
        let m = IdMap { entries: Vec::new() };
        proof {
            assert(m.listing() =~= Seq::<(Id, V)>::empty());
            string_map::listed_empty::<Id, V>();
        }
        m
    }

    /// The number of entries.
    pub fn len(&self) -> (n: usize)
        ensures
            n == self.listing().len(),
            string_map::unique_keys(self.listing()),
    {
        proof {
            use_type_invariant(self);
        }
        self.entries.len()
    }

    /// The identifier of entry `i`.
    pub fn id(&self, i: usize) -> (k: &PoolIdentifier)
        requires
            i < self.listing().len(),
        ensures
            k@ == self.listing()[i as int].0,
    {
        &self.entries[i].0
    }

    /// The value of entry `i`.
    pub fn value(&self, i: usize) -> (v: &V)
        requires
            i < self.listing().len(),
        ensures
            *v == self.listing()[i as int].1,
    {
        &self.entries[i].1
    }

    /// The place of the entry with this identifier.
    fn find(&self, id: &PoolIdentifier) -> (r: Option<usize>)
        ensures
            match r {
                Some(i) => string_map::key_at(self.listing(), id@, i as int),
                None => !string_map::has_key(self.listing(), id@),
            },
    {
        let mut i: usize = 0;
        while i < self.entries.len()
            invariant
                i <= self.entries.len(),
                forall|j: int| 0 <= j < i ==> (#[trigger] self.listing()[j]).0 != id@,
            decreases self.entries.len() - i,
        {
            if self.entries[i].0.same(id) {
                return Some(i);
            }
            i = i + 1;
        }
        None
    }

    /// The value for an identifier.
    pub fn get(&self, id: &PoolIdentifier) -> (r: Option<&V>)
        ensures
            match r {
                Some(v) => self@.contains_key(id@) && *v == self@[id@],
                None => !self@.contains_key(id@),
            },
    {
        proof {
            use_type_invariant(self);
        }
        match self.find(id) {
            Some(i) => {
                proof {
                    string_map::listed_entry(self.listing(), i as int);
                }
                Some(&self.entries[i].1)
            },
            None => None,
        }
    }

    /// Whether there is a value for an identifier.
    pub fn contains_key(&self, id: &PoolIdentifier) -> (r: bool)
        ensures
            r == self@.contains_key(id@),
    {
        self.find(id).is_some()
    }

    /// Stores a value; one stored before is handed back.
    pub fn insert(&mut self, id: PoolIdentifier, value: V) -> (r: Option<V>)
        ensures
            final(self)@ == old(self)@.insert(id@, value),
            match r {
                Some(v) => old(self)@.contains_key(id@) && v == old(self)@[id@],
                None => !old(self)@.contains_key(id@),
            },
    {
        let before = self.remove(&id);
        proof {
            use_type_invariant(&*self);
        }
        let mut entries: Vec<(PoolIdentifier, V)> = Vec::new();
        std::mem::swap(&mut entries, &mut self.entries);
        let ghost s = id_listing(entries@);
        proof {
            if string_map::has_key(s, id@) {
                let i = choose|i: int| string_map::key_at(s, id@, i);
                string_map::listed_entry(s, i);
            }
            string_map::listed_push(s, id@, value);
        }
        let ghost k = id@;
        entries.push((id, value));
        proof {
            assert(id_listing(entries@) =~= s.push((k, value)));
            assert(string_map::listed(s).insert(k, value) =~= old(self)@.insert(k, value));
        }
        self.entries = entries;
        before
    }

    /// Takes the value for an identifier out.
    pub fn remove(&mut self, id: &PoolIdentifier) -> (r: Option<V>)
        ensures
            final(self)@ == old(self)@.remove(id@),
            match r {
                Some(v) => old(self)@.contains_key(id@) && v == old(self)@[id@],
                None => !old(self)@.contains_key(id@),
            },
    {
        proof {
            use_type_invariant(&*self);
        }
        match self.find(id) {
            Some(i) => {
                let ghost s = self.listing();
                proof {
                    string_map::listed_entry(s, i as int);
                    string_map::listed_remove(s, i as int);
                }
                let mut entries: Vec<(PoolIdentifier, V)> = Vec::new();
                std::mem::swap(&mut entries, &mut self.entries);
                let (_, value) = entries.remove(i);
                assert(id_listing(entries@) =~= s.remove(i as int));
                self.entries = entries;
                Some(value)
            },
            None => {
                assert(self@ =~= self@.remove(id@));
                None
            },
        }
    }

    /// Takes some entry out, if there is one.
    pub fn pop(&mut self) -> (r: Option<(PoolIdentifier, V)>)
        ensures
            match r {
                Some((id, v)) => old(self)@.contains_key(id@) && v == old(self)@[id@]
                    && final(self)@ == old(self)@.remove(id@) && final(self).listing().len()
                    == old(self).listing().len() - 1,
                None => old(self)@ == Map::<Id, V>::empty() && final(self)@ == old(self)@
                    && old(self).listing().len() == 0,
            },
    {
        proof {
            use_type_invariant(&*self);
        }
        let n: usize = self.entries.len();
        if n == 0 {
            proof {
                assert(self.listing() =~= Seq::<(Id, V)>::empty());
                string_map::listed_empty::<Id, V>();
            }
            return None;
        }
        let ghost s = self.listing();
        proof {
            string_map::listed_entry(s, n - 1);
            string_map::listed_remove(s, n - 1);
        }
        let mut entries: Vec<(PoolIdentifier, V)> = Vec::new();
        std::mem::swap(&mut entries, &mut self.entries);
        let (id, value) = entries.remove(n - 1);
        assert(id_listing(entries@) =~= s.remove(n - 1));
        self.entries = entries;
        Some((id, value))
    }

    /// All entries, in order.
    pub fn into_entries(self) -> (r: Vec<(PoolIdentifier, V)>)
        ensures
            id_listing(r@) == self.listing(),
            string_map::unique_keys(self.listing()),
    {
        proof {
            use_type_invariant(&self);
        }
        self.entries
    }

    /// The map of entries with different identifiers.
    pub fn from_entries(entries: Vec<(PoolIdentifier, V)>) -> (m: Self)
        requires
            string_map::unique_keys(id_listing(entries@)),
        ensures
            m.listing() == id_listing(entries@),
    {
        IdMap { entries }
    }
}

} // verus!
