//! Removing the pools of looked up users that nobody uses.
use vstd::prelude::*;
use crate::pool::connection_pool::ConnectionPool;
use crate::pool::id_map::PoolIdentifier;
use crate::pool::registry::{AuthQueryState, Registry};
use crate::pool::reload::count_destroyed;
use crate::string_map::StringMap;
#[allow(unused_imports)]
use crate::config::Config;
#[allow(unused_imports)]
use crate::pool::connection_pool;
#[allow(unused_imports)]
use crate::pool::id_map::Id;
#[allow(unused_imports)]
use crate::pool::reload;
#[allow(unused_imports)]
use crate::pool::reload::Loaded;
#[allow(unused_imports)]
use crate::pool::server_pool;
#[allow(unused_imports)]
use crate::string_map;

verus! {

/// A pool without connections may go: it is not paused, keeps no connections
/// ready, and has had a first connection.
pub open spec fn may_go(p: ConnectionPool) -> bool {
    &&& !server_pool::paused_in(p.database.setup.server_pool.pool_state)
    &&& connection_pool::or_else(p.settings.user.min_pool_size, 0u32) == 0
    &&& p.init_complete
}

/// Whether a pool without connections may go.
pub fn should_gc_idle_pool(pool: &ConnectionPool) -> (r: bool)
    ensures
        r == may_go(*pool),
{
    if pool.database.is_paused() {
        return false;
    }
    let min: u32 = match pool.settings.user.min_pool_size {
        Some(n) => n,
        None => 0,
    };
    min == 0 && pool.init_complete
}

/// The pool of a looked up user is removed: it has no connections and may go, or
/// it is gone already.
pub open spec fn collectable(registry: Registry, id: Id) -> bool {
    registry.dynamic@.contains_key(id) && (registry.pools@.contains_key(id) ==> (
    registry.pools@[id].database.counters.size == 0 && may_go(registry.pools@[id])))
}

/// All names of a map.
fn all_names(states: &StringMap<AuthQueryState>) -> (r: Vec<String>)
    ensures
        forall|n: Seq<char>|
            states@.contains_key(n) ==> #[trigger] reload::listed_names(r@).contains(n),
{
    let mut r: Vec<String> = Vec::new();
    let n: usize = states.len();
    let ghost s = states.listing();
    let mut i: usize = 0;
    while i < n
        invariant
            i <= n == s.len(),
            s == states.listing(),
            string_map::unique_keys(s),
            r@.len() == i,
            forall|j: int| 0 <= j < i ==> (#[trigger] r@[j])@ == s[j].0,
        decreases n - i,
    {
        r.push(states.key(i).clone());
        i = i + 1;
    }
    proof {
        assert forall|x: Seq<char>|
            states@.contains_key(x) implies #[trigger] reload::listed_names(r@).contains(x) by {
            let j = string_map::listed_key(s, x);
            assert(r@[j]@ == s[j].0);
            assert(reload::listed_names(r@)[j] == x);
        }
    }
    r
}

/// The pools of looked up users that are removed.
fn find_collectable(registry: &Registry) -> (r: Vec<PoolIdentifier>)
    ensures
        reload::ids_of(r@).no_duplicates(),
        forall|id: Id| #[trigger]
            reload::ids_of(r@).contains(id) <==> collectable(*registry, id),
{
    let mut r: Vec<PoolIdentifier> = Vec::new();
    let n: usize = registry.dynamic.len();
    let ghost s = registry.dynamic.listing();
    let mut i: usize = 0;
    while i < n
        invariant
            i <= n == s.len(),
            s == registry.dynamic.listing(),
            string_map::unique_keys(s),
            reload::ids_of(r@).no_duplicates(),
            forall|id: Id| #[trigger]
                reload::ids_of(r@).contains(id) <==> exists|j: int|
                    0 <= j < i && (#[trigger] s[j]).0 == id && collectable(*registry, id),
        decreases n - i,
    {
        let id = registry.dynamic.id(i);
        let ghost key = s[i as int].0;
        let ghost was = reload::ids_of(r@);
        proof {
            string_map::listed_entry(s, i as int);
        }
        let goes = match registry.pools.get(id) {
            Some(pool) => pool.pool_state().size == 0 && should_gc_idle_pool(pool),
            None => true,
        };
        assert(goes == collectable(*registry, key));
        if goes {
            proof {
                if was.contains(key) {
                    let j = choose|j: int|
                        0 <= j < i && (#[trigger] s[j]).0 == key && collectable(*registry, key);
                    assert(s[j].0 != s[i as int].0);
                }
            }
            r.push(id.clone());
            proof {
                let now = reload::ids_of(r@);
                assert(now =~= was.push(key));
                assert forall|x: Id| now.contains(x) <==> was.contains(x) || x == key by {
                    if was.contains(x) {
                        let k = choose|k: int| 0 <= k < was.len() && was[k] == x;
                        assert(now[k] == x);
                    }
                    if x == key {
                        assert(now[was.len() as int] == x);
                    }
                }
                assert forall|a: int, b: int|
                    0 <= a < now.len() && 0 <= b < now.len() && a != b implies now[a]
                    != now[b] by {
                    if a < was.len() {
                        assert(was.contains(was[a]));
                    }
                    if b < was.len() {
                        assert(was.contains(was[b]));
                    }
                }
            }
        }
        proof {
            let now = reload::ids_of(r@);
            assert forall|x: Id| #[trigger] now.contains(x) <==> exists|j: int|
                0 <= j < i + 1 && (#[trigger] s[j]).0 == x && collectable(*registry, x) by {
                assert(now.contains(x) <==> was.contains(x) || (goes && x == key));
                assert(was.contains(x) <==> exists|j: int|
                    0 <= j < i && (#[trigger] s[j]).0 == x && collectable(*registry, x));
                if x == key {
                    assert(s[i as int].0 == x);
                }
            }
        }
        i = i + 1;
    }
    proof {
        assert forall|x: Id| #[trigger] reload::ids_of(r@).contains(x) <==> collectable(
            *registry,
            x,
        ) by {
            if collectable(*registry, x) {
                let j = string_map::listed_key(s, x);
                assert(s[j].0 == x);
            }
        }
    }
    r
}

/// The registry after pools were removed.
pub open spec fn collected(before: Registry, after: Registry, removed: Seq<Id>) -> bool {
    &&& forall|id: Id| #[trigger] removed.contains(id) <==> collectable(before, id)
    &&& removed.no_duplicates()
    &&& forall|id: Id| #[trigger]
        after.pools@.contains_key(id) <==> before.pools@.contains_key(id) && !collectable(
            before,
            id,
        )
    &&& forall|id: Id| after.pools@.contains_key(id) ==> #[trigger] after.pools@[id]
        == before.pools@[id]
    &&& forall|id: Id| #[trigger]
        after.dynamic@.contains_key(id) <==> before.dynamic@.contains_key(id) && !collectable(
            before,
            id,
        )
    &&& forall|n: Seq<char>| #[trigger]
        after.auth_query@.contains_key(n) <==> before.auth_query@.contains_key(n)
    &&& forall|n: Seq<char>|
        before.auth_query@.contains_key(n) ==> #[trigger] after.auth_query@[n] == (AuthQueryState {
            dynamic_pools_destroyed: reload::raised(
                before.auth_query@[n].dynamic_pools_destroyed,
                reload::count_of(removed, n),
            ),
            ..before.auth_query@[n]
        })
    &&& after.coordinators == before.coordinators
    &&& after.previous_general_startup_hash == before.previous_general_startup_hash
    &&& after.clients_mapped == before.clients_mapped
}

/// Removes the pools of looked up users that nobody uses. Returns which.
pub fn gc_idle_dynamic_pools(registry: &mut Registry) -> (removed: Vec<PoolIdentifier>)
    ensures
        collected(*old(registry), *final(registry), reload::ids_of(removed@)),
{
    let ghost before = *registry;
    let removed = find_collectable(registry);
    let names = all_names(&registry.auth_query);
    count_destroyed(&mut registry.auth_query, &names, &removed);
    let ghost ids = reload::ids_of(removed@);
    let mut i: usize = 0;
    assert(ids.take(0) =~= Seq::<Id>::empty());
    while i < removed.len()
        invariant
            i <= removed.len(),
            ids == reload::ids_of(removed@),
            before == *old(registry),
            registry.coordinators == before.coordinators,
            registry.previous_general_startup_hash == before.previous_general_startup_hash,
            registry.clients_mapped == before.clients_mapped,
            reload::lookups_counted(
                before.auth_query@,
                registry.auth_query@,
                reload::listed_names(names@),
                ids,
            ),
            forall|id: Id| #[trigger]
                registry.pools@.contains_key(id) <==> before.pools@.contains_key(id)
                    && !ids.take(i as int).contains(id),
            forall|id: Id|
                registry.pools@.contains_key(id) ==> #[trigger] registry.pools@[id]
                    == before.pools@[id],
            forall|id: Id| #[trigger]
                registry.dynamic@.contains_key(id) <==> before.dynamic@.contains_key(id)
                    && !ids.take(i as int).contains(id),
        decreases removed.len() - i,
    {
        let ghost was = *registry;
        let _ = registry.pools.remove(&removed[i]);
        let _ = registry.dynamic.remove(&removed[i]);
        proof {
            let key = ids[i as int];
            let now = ids.take(i + 1);
            let old_part = ids.take(i as int);
            assert(now =~= old_part.push(key));
            assert forall|x: Id| #[trigger] now.contains(x) <==> old_part.contains(x) || x
                == key by {
                if old_part.contains(x) {
                    let k = choose|k: int| 0 <= k < old_part.len() && old_part[k] == x;
                    assert(now[k] == x);
                }
                if x == key {
                    assert(now[i as int] == x);
                }
            }
            assert forall|id: Id|
                registry.pools@.contains_key(id) implies #[trigger] registry.pools@[id]
                == before.pools@[id] by {
                assert(was.pools@.contains_key(id));
                assert(was.pools@[id] == before.pools@[id]);
            }
        }
        i = i + 1;
    }
    proof {
        assert(ids.take(ids.len() as int) =~= ids);
        assert forall|n: Seq<char>|
            before.auth_query@.contains_key(n) implies #[trigger] registry.auth_query@[n] == (
        AuthQueryState {
            dynamic_pools_destroyed: reload::raised(
                before.auth_query@[n].dynamic_pools_destroyed,
                reload::count_of(ids, n),
            ),
            ..before.auth_query@[n]
        }) by {
            assert(reload::listed_names(names@).contains(n));
        }
    }
    removed
}

/// A pool that is still waiting for its first connection is never removed, nor is
/// a configured user's.
pub proof fn collection_spares_pools_in_use(
    before: Registry,
    after: Registry,
    removed: Seq<Id>,
    id: Id,
)
    requires
        collected(before, after, removed),
        before.pools@.contains_key(id),
        !before.pools@[id].init_complete || before.pools@[id].database.counters.size > 0
            || !before.dynamic@.contains_key(id),
    ensures
        after.pools@.contains_key(id),
        after.pools@[id] == before.pools@[id],
{
    assert(!collectable(before, id));
}

/// Removing pools of looked up users leaves the pools in line with the
/// configuration.
pub proof fn collection_stays_in_line(
    before: Registry,
    after: Registry,
    removed: Seq<Id>,
    config: Config,
    loaded: Loaded,
)
    requires
        collected(before, after, removed),
        reload::in_line(before, config, loaded),
    ensures
        reload::in_line(after, config, loaded),
{
    reload::in_line_is_kept(before, after, config, loaded);
}

/// The pool of a looked up user goes exactly if nobody may miss it: it has no connection
/// and has had one, is not paused and keeps none ready. It goes with its mark.
pub proof fn idle_dynamic_pools_go(before: Registry, after: Registry, removed: Seq<Id>, id: Id)
    requires
        collected(before, after, removed),
        before.dynamic@.contains_key(id),
        before.pools@.contains_key(id),
    ensures
        ({
            let p = before.pools@[id];
            let goes = p.database.counters.size == 0 && p.init_complete && !server_pool::paused_in(
                p.database.setup.server_pool.pool_state,
            ) && (p.settings.user.min_pool_size.is_none() || p.settings.user.min_pool_size
                == Some(0u32));
            &&& after.pools@.contains_key(id) <==> !goes
            &&& after.dynamic@.contains_key(id) <==> !goes
            &&& removed.contains(id) <==> goes
        }),
{
    assert(removed.contains(id) <==> collectable(before, id));
}

} // verus!
