//! All the pools, and who may find them.
use vstd::prelude::*;
use crate::config::{AuthQueryConfig, Config, General, Pool as ConfigPool};
use crate::pool::connection_pool::{resolve_client_anon_cache_size_inner, ConnectionPool};
use crate::pool::id_map::{IdMap, PoolIdentifier};
use crate::pool::pool_coordinator::PoolCoordinator;
use crate::string_map::StringMap;
#[allow(unused_imports)]
use crate::config;
#[allow(unused_imports)]
use crate::pool::connection_pool;
#[allow(unused_imports)]
use crate::pool::id_map::Id;

verus! {

/// How the users of a database are looked up that are not configured.
#[derive(Debug)]
pub struct AuthQueryState {
    pub config: AuthQueryConfig,
    /// A digest of the startup parameters of the database.
    pub pool_startup_hash: u64,
    /// A digest of everything else that their pools are made from.
    pub parent_fingerprint: u64,
    pub pool_name: String,
    pub server_host: String,
    pub server_port: u16,
    /// The pool that they share, if they share one.
    pub shared_pool_id: Option<PoolIdentifier>,
    pub dynamic_pools_created: u64,
    pub dynamic_pools_destroyed: u64,
}

/// The pool that looked up users share.
pub open spec fn shared_id(pool_name: Seq<char>, c: AuthQueryConfig) -> Option<Id> {
    match c.server_user {
        Some(name) => Some((pool_name, name@)),
        None => None,
    }
}

/// An identifier that may be missing.
pub open spec fn opt_id(id: Option<PoolIdentifier>) -> Option<Id> {
    match id {
        Some(id) => Some(id@),
        None => None,
    }
}

/// All the pools.
pub struct Registry {
    pub pools: IdMap<ConnectionPool>,
    /// The pools of users that were looked up.
    pub dynamic: IdMap<()>,
    /// The limits of the databases that have one.
    pub coordinators: StringMap<PoolCoordinator>,
    pub auth_query: StringMap<AuthQueryState>,
    /// A digest of the general configuration that the pools were made from; 0
    /// before there was one.
    pub previous_general_startup_hash: u64,
    /// It is recorded which client works with which backend, for cancel requests.
    pub clients_mapped: bool,
}

impl Registry {
    /// The users of a database share a pool exactly if their lookup says so.
    pub open spec fn wf(&self) -> bool {
        forall|n: Seq<char>| #[trigger]
            self.auth_query@.contains_key(n) ==> opt_id(self.auth_query@[n].shared_pool_id)
                == shared_id(n, self.auth_query@[n].config)
    }

    /// No pools at all.
    pub fn new() -> (r: Registry)
        ensures
            r.wf(),
            r.pools@ == Map::<Id, ConnectionPool>::empty(),
            r.dynamic@ == Map::<Id, ()>::empty(),
            r.coordinators@ == Map::<Seq<char>, PoolCoordinator>::empty(),
            r.auth_query@ == Map::<Seq<char>, AuthQueryState>::empty(),
            r.previous_general_startup_hash == 0,
            !r.clients_mapped,
    {
        Registry {
            pools: IdMap::new(),
            dynamic: IdMap::new(),
            coordinators: StringMap::new(),
            auth_query: StringMap::new(),
            previous_general_startup_hash: 0,
            clients_mapped: false,
        }
    }
}

/// Records that a pool belongs to a user who was looked up.
pub fn register_dynamic_pool(registry: &mut Registry, id: &PoolIdentifier)
    ensures
        final(registry).dynamic@ == old(registry).dynamic@.insert(id@, ()),
        *final(registry) == (Registry { dynamic: final(registry).dynamic, ..*old(registry) }),
{
    if !registry.dynamic.contains_key(id) {
        let _ = registry.dynamic.insert(id.clone(), ());
    } else {
        assert(registry.dynamic@.insert(id@, ()) =~= registry.dynamic@);
    }
}

/// Whether a pool belongs to a user who was looked up.
pub fn is_dynamic_pool(registry: &Registry, id: &PoolIdentifier) -> (r: bool)
    ensures
        r == registry.dynamic@.contains_key(id@),
{
    registry.dynamic.contains_key(id)
}

/// Drops the pool of a user who was looked up; the pool of a configured user
/// stays. Returns whether there was a pool to drop.
pub fn drop_dynamic_pool(registry: &mut Registry, id: &PoolIdentifier) -> (r: bool)
    ensures
        *final(registry) == (Registry {
            pools: final(registry).pools,
            dynamic: final(registry).dynamic,
            ..*old(registry)
        }),
        if old(registry).dynamic@.contains_key(id@) {
            &&& r == old(registry).pools@.contains_key(id@)
            &&& final(registry).pools@ == old(registry).pools@.remove(id@)
            &&& final(registry).dynamic@ == old(registry).dynamic@.remove(id@)
        } else {
            &&& !r
            &&& *final(registry) == *old(registry)
        },
{
    if !is_dynamic_pool(registry, id) {
        return false;
    }
    let removed = registry.pools.remove(id).is_some();
    let _ = registry.dynamic.remove(id);
    removed
}

/// How the users of a database are looked up.
pub fn get_auth_query_state<'a>(registry: &'a Registry, db: &str) -> (r: Option<&'a AuthQueryState>)
    ensures
        match r {
            Some(state) => registry.auth_query@.contains_key(db@) && *state
                == registry.auth_query@[db@],
            None => !registry.auth_query@.contains_key(db@),
        },
{
    registry.auth_query.get(db)
}

/// The pool of a user for a database.
pub fn get_pool<'a>(registry: &'a Registry, db: &str, user: &str) -> (r: Option<&'a ConnectionPool>)
    ensures
        match r {
            Some(pool) => registry.pools@.contains_key((db@, user@)) && *pool
                == registry.pools@[(db@, user@)],
            None => !registry.pools@.contains_key((db@, user@)),
        },
{
    let id = PoolIdentifier::new(db, user);
    registry.pools.get(&id)
}

/// Whether there is a pool of a user for a database.
pub fn pool_exists(registry: &Registry, db: &str, user: &str) -> (r: bool)
    ensures
        r == registry.pools@.contains_key((db@, user@)),
{
    registry.pools.contains_key(&PoolIdentifier::new(db, user))
}

/// What is configured for a database.
pub fn get_pool_config<'a>(config: &'a Config, db: &str) -> (r: Option<&'a ConfigPool>)
    ensures
        match r {
            Some(pool) => config.pools@.contains_key(db@) && *pool == config.pools@[db@],
            None => !config.pools@.contains_key(db@),
        },
{
    config.pools.get(db)
}

/// All the pools.
pub fn get_all_pools(registry: &Registry) -> (r: &IdMap<ConnectionPool>)
    ensures
        *r == registry.pools,
{
    &registry.pools
}

/// The limit of a database.
pub fn get_coordinator<'a>(registry: &'a Registry, db: &str) -> (r: Option<&'a PoolCoordinator>)
    ensures
        match r {
            Some(c) => registry.coordinators@.contains_key(db@) && *c == registry.coordinators@[db@],
            None => !registry.coordinators@.contains_key(db@),
        },
{
    registry.coordinators.get(db)
}

/// The size of a client's cache for unnamed statements, for a client of this
/// database. Of a database that is not configured the general size is taken.
pub fn resolve_client_anon_cache_size(config: &Config, pool_name: &str, general: &General) -> (r:
    usize)
    ensures
        r == connection_pool::client_anon_cache_size(
            *general,
            if config.pools@.contains_key(pool_name@) {
                config.pools@[pool_name@].prepared_statements_cache_size
            } else {
                None
            },
        ),
{
    let pool_override: Option<usize> = match get_pool_config(config, pool_name) {
        Some(pool) => pool.prepared_statements_cache_size,
        None => None,
    };
    resolve_client_anon_cache_size_inner(general, pool_override)
}

/// A first connection of a looked up user's pool was made: from now on the pool
/// may be collected when it is idle. Says whether there is such a pool.
pub fn commit_init(registry: &mut Registry, id: &PoolIdentifier) -> (r: bool)
    ensures
        r == old(registry).pools@.contains_key(id@),
        *final(registry) == (Registry { pools: final(registry).pools, ..*old(registry) }),
        final(registry).pools@ == if r {
            old(registry).pools@.insert(
                id@,
                (ConnectionPool { init_complete: true, ..old(registry).pools@[id@] }),
            )
        } else {
            old(registry).pools@
        },
{
    match registry.pools.remove(id) {
        Some(pool) => {
            let mut pool = pool;
            pool.init_complete = true;
            let _ = registry.pools.insert(id.clone(), pool);
            assert(registry.pools@ =~= old(registry).pools@.insert(
                id@,
                (ConnectionPool { init_complete: true, ..old(registry).pools@[id@] }),
            ));
            true
        },
        None => {
            assert(registry.pools@ =~= old(registry).pools@);
            false
        },
    }
}

} // verus!
