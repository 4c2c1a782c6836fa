//! Making the pools anew after the configuration was read again, and keeping
//! those that still fit it.
use std::collections::hash_map::DefaultHasher;
use std::hash::Hasher;
use vstd::prelude::*;
use crate::config::{AuthQueryConfig, Config, General, Pool as ConfigPool, ServerTlsConfig, User};
use crate::digest::{map_digest, write_number};
use crate::errors::Error;
use crate::pool::connection_pool::{
    empty_overlay_hash, static_backend_auth, ConnectionPool, Recipe,
};
use crate::pool::id_map::{IdMap, PoolIdentifier};
use crate::pool::pool_coordinator::{CoordinatorConfig, PoolCoordinator};
use crate::pool::registry::{AuthQueryState, Registry};
use crate::string_map::StringMap;
use crate::text::same_text;
#[allow(unused_imports)]
use crate::config;
#[allow(unused_imports)]
use crate::digest;
#[allow(unused_imports)]
use crate::pool::connection_pool;
#[allow(unused_imports)]
use crate::pool::connection_pool::Plan;
#[allow(unused_imports)]
use crate::pool::id_map::Id;
#[allow(unused_imports)]
use crate::pool::registry;
#[allow(unused_imports)]
use crate::string_map;

verus! {

/// The limit that is configured for a database; 0 sets none.
pub open spec fn limit_of(pc: ConfigPool) -> u32 {
    connection_pool::or_else(pc.max_db_connections, 0u32)
}

/// How the limit of a database is kept.
pub open spec fn coordinator_config(pc: ConfigPool) -> CoordinatorConfig {
    CoordinatorConfig {
        max_db_connections: limit_of(pc) as usize,
        min_connection_lifetime_ms: connection_pool::or_else(pc.min_connection_lifetime, 30_000u64),
        reserve_pool_size: connection_pool::or_else(pc.reserve_pool_size, 0u32) as usize,
        reserve_pool_timeout_ms: connection_pool::or_else(pc.reserve_pool_timeout, 3_000u64),
    }
}

/// How the limit of a database is kept.
fn make_coordinator_config(pc: &ConfigPool) -> (r: CoordinatorConfig)
    ensures
        r == coordinator_config(*pc),
{
    let max: u32 = match pc.max_db_connections {
        Some(n) => n,
        None => 0,
    };
    let reserve: u32 = match pc.reserve_pool_size {
        Some(n) => n,
        None => 0,
    };
    CoordinatorConfig {
        max_db_connections: max as usize,
        min_connection_lifetime_ms: match pc.min_connection_lifetime {
            Some(ms) => ms,
            None => 30_000,
        },
        reserve_pool_size: reserve as usize,
        reserve_pool_timeout_ms: match pc.reserve_pool_timeout {
            Some(ms) => ms,
            None => 3_000,
        },
    }
}

/// The limit of a database after the configuration was read: the old one, with
/// what it has counted, if it is configured in the same way.
pub open spec fn coordinator_after(
    before: Map<Seq<char>, PoolCoordinator>,
    c: PoolCoordinator,
    name: Seq<char>,
    pc: ConfigPool,
) -> bool {
    if before.contains_key(name) && before[name].config == coordinator_config(pc) {
        c == before[name]
    } else {
        &&& c.database@ == name
        &&& c.config == coordinator_config(pc)
        &&& c.main_in_use == 0
        &&& c.reserve_in_use == 0
    }
}

/// The limits after the configuration was read: one for each database that has
/// one.
pub open spec fn coordinators_after(
    before: Map<Seq<char>, PoolCoordinator>,
    after: Map<Seq<char>, PoolCoordinator>,
    pools: Map<Seq<char>, ConfigPool>,
) -> bool {
    &&& forall|n: Seq<char>| #[trigger]
        after.contains_key(n) <==> pools.contains_key(n) && limit_of(pools[n]) > 0
    &&& forall|n: Seq<char>| #[trigger]
        after.contains_key(n) ==> coordinator_after(before, after[n], n, pools[n])
}

/// Makes the limits anew.
fn reload_coordinators(old_coordinators: &mut StringMap<PoolCoordinator>, config: &Config) -> (r:
    StringMap<PoolCoordinator>)
    ensures
        coordinators_after(old(old_coordinators)@, r@, config.pools@),
{
    let mut out: StringMap<PoolCoordinator> = StringMap::new();
    let n: usize = config.pools.len();
    let ghost s = config.pools.listing();
    let ghost before = old_coordinators@;
    let mut i: usize = 0;
    proof {
        assert(s.take(0) =~= Seq::<(Seq<char>, ConfigPool)>::empty());
        string_map::listed_empty::<Seq<char>, ConfigPool>();
    }
    while i < n
        invariant
            i <= n == s.len(),
            s == config.pools.listing(),
            string_map::unique_keys(s),
            before == old(old_coordinators)@,
            forall|k: Seq<char>|
                !string_map::listed(s.take(i as int)).contains_key(k)
                    ==> #[trigger] old_coordinators@.contains_key(k) == before.contains_key(k),
            forall|k: Seq<char>|
                !string_map::listed(s.take(i as int)).contains_key(k) && before.contains_key(k)
                    ==> #[trigger] old_coordinators@[k] == before[k],
            coordinators_after(before, out@, string_map::listed(s.take(i as int))),
        decreases n - i,
    {
        proof {
            string_map::listed_step(s, i as int);
        }
        let name = config.pools.key(i);
        let pc = config.pools.value(i);
        let wanted = make_coordinator_config(pc);
        if wanted.max_db_connections > 0 {
            let kept = match old_coordinators.remove(name.as_str()) {
                Some(c) => {
                    if c.config == wanted {
                        c
                    } else {
                        PoolCoordinator::new(name.clone(), wanted)
                    }
                },
                None => PoolCoordinator::new(name.clone(), wanted),
            };
            assert(coordinator_after(before, kept, name@, *pc));
            let _ = out.insert(name.clone(), kept);
        }
        i = i + 1;
    }
    assert(s.take(n as int) =~= s);
    out
}

/// The digest of all that the pools of a database are made from.
pub open spec fn pool_fingerprint(pc: ConfigPool, general: General) -> u64 {
    digest::digest_of(
        digest::number_writes(pc.digest()) + digest::number_writes(
            digest::digest_of(general.startup_writes()),
        ),
    )
}

/// The digest of all that the pools of a database are made from. A change that
/// concerns all databases changes it too.
pub fn compute_pool_fingerprint(pc: &ConfigPool, general: &General) -> (r: u64)
    ensures
        r == pool_fingerprint(*pc, *general),
{
    let mut h = DefaultHasher::new();
    write_number(&mut h, pc.hash_value());
    write_number(&mut h, general.startup_hash());
    assert(h@ =~= digest::number_writes(pc.digest()) + digest::number_writes(
        digest::digest_of(general.startup_writes()),
    ));
    h.finish()
}

/// The user with this name who is configured last.
pub open spec fn user_named(users: Seq<User>, name: Seq<char>) -> Option<User>
    decreases users.len(),
{
    if users.len() == 0 {
        None
    } else {
        match user_named(users.skip(1), name) {
            Some(user) => Some(user),
            None => if users[0].username@ == name {
                Some(users[0])
            } else {
                None
            },
        }
    }
}

/// The configured user whose pool this is.
pub open spec fn static_user(pools: Map<Seq<char>, ConfigPool>, id: Id) -> Option<User> {
    if pools.contains_key(id.0) {
        user_named(pools[id.0].users@, id.1)
    } else {
        None
    }
}

/// A pool that fits the configuration is kept, unless it is a looked up user's:
/// the configured user takes its place.
pub open spec fn reusable(
    before: Map<Id, ConnectionPool>,
    dynamic: Map<Id, ()>,
    id: Id,
    hash: u64,
    tls: ServerTlsConfig,
) -> bool {
    &&& before.contains_key(id)
    &&& !dynamic.contains_key(id)
    &&& before[id].config_hash == hash
    &&& before[id].address.server_tls == tls
}

/// The pool of a configured user, made anew.
pub open spec fn made_static(p: ConnectionPool, user: User, r: Plan, hash: u64) -> bool {
    &&& connection_pool::pool_of(p, user, r, Map::empty())
    &&& p.backend_auth == connection_pool::static_passthrough(user)
    &&& p.config_hash == hash
    &&& p.per_user_startup_overlay_hash == connection_pool::overlay_digest(Map::empty())
    &&& p.init_complete
}

/// The pool of a configured user after the configuration was read.
pub open spec fn static_after(
    before: Map<Id, ConnectionPool>,
    dynamic: Map<Id, ()>,
    p: ConnectionPool,
    id: Id,
    user: User,
    r: Plan,
    hash: u64,
) -> bool {
    if reusable(before, dynamic, id, hash, r.tls) {
        p == before[id]
    } else {
        made_static(p, user, r, hash)
    }
}

/// Makes the pool of a configured user.
fn make_static(user: &User, r: &Recipe, hash: u64) -> (p: ConnectionPool)
    ensures
        made_static(p, *user, r@, hash),
{
    let overlay: StringMap<String> = StringMap::new();
    assert(string_map::texts(overlay@) =~= Map::empty());
    ConnectionPool::make(
        user,
        r,
        static_backend_auth(user),
        overlay,
        empty_overlay_hash(),
        hash,
        true,
    )
}

/// The pools of the users of one database after the configuration was read.
pub open spec fn users_after(
    before: Map<Id, ConnectionPool>,
    dynamic: Map<Id, ()>,
    start: Map<Id, ConnectionPool>,
    after: Map<Id, ConnectionPool>,
    users: Seq<User>,
    r: Plan,
    hash: u64,
) -> bool {
    &&& forall|id: Id| #[trigger]
        after.contains_key(id) <==> start.contains_key(id) || (id.0 == r.pool_name && user_named(
            users,
            id.1,
        ).is_some())
    &&& forall|id: Id|
        id.0 != r.pool_name && start.contains_key(id) ==> #[trigger] after[id] == start[id]
    &&& forall|id: Id|
        id.0 == r.pool_name && user_named(users, id.1).is_some() ==> static_after(
            before,
            dynamic,
            #[trigger] after[id],
            id,
            user_named(users, id.1).unwrap(),
            r,
            hash,
        )
}

/// What is left of the old pools once the users of one database were looked at,
/// and which of them are not kept.
pub open spec fn old_after(
    before: Map<Id, ConnectionPool>,
    dynamic: Map<Id, ()>,
    rest: Map<Id, ConnectionPool>,
    retired: Seq<ConnectionPool>,
    users: Seq<User>,
    r: Plan,
    hash: u64,
) -> bool {
    &&& forall|id: Id| #[trigger]
        rest.contains_key(id) <==> before.contains_key(id) && !(id.0 == r.pool_name && user_named(
            users,
            id.1,
        ).is_some())
    &&& forall|id: Id| rest.contains_key(id) ==> #[trigger] rest[id] == before[id]
    &&& forall|id: Id|
        #![trigger before.contains_key(id)]
        before.contains_key(id) && id.0 == r.pool_name && user_named(users, id.1).is_some()
            && !reusable(before, dynamic, id, hash, r.tls) ==> retired.contains(before[id])
}

/// The old pool of a user of one database that is made anew.
pub open spec fn replaced_user(
    before: Map<Id, ConnectionPool>,
    dynamic: Map<Id, ()>,
    users: Seq<User>,
    r: Plan,
    hash: u64,
    id: Id,
) -> bool {
    &&& before.contains_key(id)
    &&& id.0 == r.pool_name
    &&& user_named(users, id.1).is_some()
    &&& !reusable(before, dynamic, id, hash, r.tls)
}

/// Looks at the users of one database: pools that still fit are kept, the others
/// are made anew.
fn reload_users(
    rest: &mut IdMap<ConnectionPool>,
    dynamic: &IdMap<()>,
    out: &mut IdMap<ConnectionPool>,
    retired: &mut Vec<ConnectionPool>,
    r: &Recipe,
    hash: u64,
)
    requires
        forall|id: Id| #[trigger] old(out)@.contains_key(id) ==> id.0 != r.pool_name@,
    ensures
        users_after(old(rest)@, dynamic@, old(out)@, final(out)@, r.pool.users@, r@, hash),
        old_after(old(rest)@, dynamic@, final(rest)@, final(retired)@, r.pool.users@, r@, hash),
        forall|p: ConnectionPool|
            old(retired)@.contains(p) ==> #[trigger] final(retired)@.contains(p),
        forall|p: ConnectionPool| #[trigger]
            final(retired)@.contains(p) ==> old(retired)@.contains(p) || exists|id: Id| #[trigger]
                replaced_user(old(rest)@, dynamic@, r.pool.users@, r@, hash, id) && old(rest)@[id]
                    == p,
{
    let users = &r.pool.users;
    let ghost before = rest@;
    let ghost start = out@;
    let ghost all = users@;
    let mut j: usize = users.len();
    assert(all.skip(all.len() as int) =~= Seq::<User>::empty());
    while j > 0
        invariant
            j <= all.len(),
            users == r.pool.users,
            all == users@,
            before == old(rest)@,
            start == old(out)@,
            forall|id: Id| #[trigger] start.contains_key(id) ==> id.0 != r.pool_name@,
            users_after(before, dynamic@, start, out@, all.skip(j as int), r@, hash),
            old_after(before, dynamic@, rest@, retired@, all.skip(j as int), r@, hash),
            forall|p: ConnectionPool| old(retired)@.contains(p) ==> #[trigger] retired@.contains(p),
            forall|p: ConnectionPool| #[trigger]
                retired@.contains(p) ==> old(retired)@.contains(p) || exists|id: Id| #[trigger]
                    replaced_user(before, dynamic@, all.skip(j as int), r@, hash, id)
                        && before[id] == p,
        decreases j,
    {
        j = j - 1;
        let ghost later = all.skip(j + 1);
        let ghost now = all.skip(j as int);
        assert(now.skip(1) =~= later);
        assert(now[0] == all[j as int]);
        let user = &users[j];
        let id = PoolIdentifier::new(r.pool_name, user.username.as_str());
        let ghost key = id@;
        let ghost before_step = (rest@, out@, retired@);
        proof {
            assert forall|u: Seq<char>| u != user.username@ implies user_named(now, u)
                == user_named(later, u) by {}
        }
        if !out.contains_key(&id) {
            let kept = match rest.remove(&id) {
                Some(pool) => {
                    if pool.config_hash == hash && pool.address.server_tls == r.tls
                        && !dynamic.contains_key(&id) {
                        pool
                    } else {
                        retired.push(pool);
                        assert(retired@.last() == before[key]);
                        assert(retired@.contains(before[key]));
                        make_static(user, r, hash)
                    }
                },
                None => make_static(user, r, hash),
            };
            proof {
                assert(user_named(later, key.1).is_none());
                assert(user_named(now, key.1) == Some(*user));
                assert(static_after(before, dynamic@, kept, key, *user, r@, hash));
                assert forall|p: ConnectionPool| before_step.2.contains(
                    p,
                ) implies #[trigger] retired@.contains(p) by {
                    let k = choose|k: int| 0 <= k < before_step.2.len() && before_step.2[k] == p;
                    assert(retired@[k] == p);
                }
            }
            let _ = out.insert(id, kept);
        } else {
            assert(user_named(later, key.1).is_some());
        }
        proof {
            assert forall|u: Seq<char>|
                user_named(now, u) == (if u == user.username@ && user_named(later, u).is_none() {
                    Some(*user)
                } else {
                    user_named(later, u)
                }) by {}
            assert forall|p: ConnectionPool| #[trigger] retired@.contains(p) implies old(
                retired,
            )@.contains(p) || exists|x: Id| #[trigger]
                replaced_user(before, dynamic@, now, r@, hash, x) && before[x] == p by {
                let was = before_step.2;
                if was.contains(p) {
                    if !old(retired)@.contains(p) {
                        let x = choose|x: Id| #[trigger]
                            replaced_user(before, dynamic@, later, r@, hash, x) && before[x] == p;
                        assert(replaced_user(before, dynamic@, now, r@, hash, x));
                    }
                } else {
                    let k = choose|k: int| 0 <= k < retired@.len() && retired@[k] == p;
                    if k < was.len() {
                        assert(was[k] == p);
                    }
                    assert(replaced_user(before, dynamic@, now, r@, hash, key));
                    assert(before[key] == p);
                }
            }
        }
    }
    assert(all.skip(0) =~= all);
}

/// The TLS settings of the databases as they were read, or why they could not be.
pub type Loaded = Map<Seq<char>, Result<ServerTlsConfig, Error>>;

/// What the pools of a database are made from.
pub open spec fn plan_of(config: Config, loaded: Loaded, name: Seq<char>) -> Plan {
    Plan {
        pool_name: name,
        pool: config.pools@[name],
        general: config.general,
        tls: loaded[name]->Ok_0,
        limited: limit_of(config.pools@[name]) > 0,
    }
}

/// The pools of the configured users after the configuration was read, for the
/// databases `pools`.
pub open spec fn statics_after(
    before: Map<Id, ConnectionPool>,
    dynamic: Map<Id, ()>,
    after: Map<Id, ConnectionPool>,
    pools: Map<Seq<char>, ConfigPool>,
    config: Config,
    loaded: Loaded,
) -> bool {
    &&& forall|id: Id| #[trigger] after.contains_key(id) <==> static_user(pools, id).is_some()
    &&& forall|id: Id|
        static_user(pools, id).is_some() ==> static_after(
            before,
            dynamic,
            #[trigger] after[id],
            id,
            static_user(pools, id).unwrap(),
            plan_of(config, loaded, id.0),
            pool_fingerprint(pools[id.0], config.general),
        )
}

/// What is left of the old pools once the configured users were looked at, and
/// which of them are not kept.
pub open spec fn rest_after(
    before: Map<Id, ConnectionPool>,
    dynamic: Map<Id, ()>,
    rest: Map<Id, ConnectionPool>,
    retired: Seq<ConnectionPool>,
    pools: Map<Seq<char>, ConfigPool>,
    config: Config,
    loaded: Loaded,
) -> bool {
    &&& forall|id: Id| #[trigger]
        rest.contains_key(id) <==> before.contains_key(id) && static_user(pools, id).is_none()
    &&& forall|id: Id| rest.contains_key(id) ==> #[trigger] rest[id] == before[id]
    &&& forall|id: Id|
        #![trigger before.contains_key(id)]
        before.contains_key(id) && static_user(pools, id).is_some() && !reusable(
            before,
            dynamic,
            id,
            pool_fingerprint(pools[id.0], config.general),
            plan_of(config, loaded, id.0).tls,
        ) ==> retired.contains(before[id])
}

/// The TLS settings of every database are known.
pub open spec fn all_loaded(config: Config, loaded: Loaded) -> bool {
    forall|n: Seq<char>| #[trigger]
        config.pools@.contains_key(n) ==> loaded.contains_key(n) && loaded[n] is Ok
}

/// The old pool of a configured user that is made anew.
pub open spec fn replaced_static(
    before: Map<Id, ConnectionPool>,
    dynamic: Map<Id, ()>,
    pools: Map<Seq<char>, ConfigPool>,
    config: Config,
    loaded: Loaded,
    id: Id,
) -> bool {
    &&& before.contains_key(id)
    &&& static_user(pools, id).is_some()
    &&& !reusable(
        before,
        dynamic,
        id,
        pool_fingerprint(pools[id.0], config.general),
        plan_of(config, loaded, id.0).tls,
    )
}

/// All pools in `retired` are old pools of configured users that are made anew.
pub open spec fn only_replaced(
    before: Map<Id, ConnectionPool>,
    dynamic: Map<Id, ()>,
    retired: Seq<ConnectionPool>,
    pools: Map<Seq<char>, ConfigPool>,
    config: Config,
    loaded: Loaded,
) -> bool {
    forall|p: ConnectionPool| #[trigger]
        retired.contains(p) ==> exists|id: Id| #[trigger]
            replaced_static(before, dynamic, pools, config, loaded, id) && before[id] == p
}

/// Looks at the configured users of all databases.
fn reload_statics(
    rest: &mut IdMap<ConnectionPool>,
    dynamic: &IdMap<()>,
    retired: &mut Vec<ConnectionPool>,
    config: &Config,
    loaded: &StringMap<Result<ServerTlsConfig, Error>>,
) -> (out: IdMap<ConnectionPool>)
    requires
        all_loaded(*config, loaded@),
        old(retired)@.len() == 0,
    ensures
        statics_after(old(rest)@, dynamic@, out@, config.pools@, *config, loaded@),
        rest_after(old(rest)@, dynamic@, final(rest)@, final(retired)@, config.pools@, *config, loaded@),
        only_replaced(old(rest)@, dynamic@, final(retired)@, config.pools@, *config, loaded@),
{
    let mut out: IdMap<ConnectionPool> = IdMap::new();
    let n: usize = config.pools.len();
    let ghost s = config.pools.listing();
    let ghost before = rest@;
    let mut i: usize = 0;
    proof {
        assert(s.take(0) =~= Seq::<(Seq<char>, ConfigPool)>::empty());
        string_map::listed_empty::<Seq<char>, ConfigPool>();
    }
    while i < n
        invariant
            i <= n == s.len(),
            s == config.pools.listing(),
            string_map::unique_keys(s),
            before == old(rest)@,
            all_loaded(*config, loaded@),
            statics_after(
                before,
                dynamic@,
                out@,
                string_map::listed(s.take(i as int)),
                *config,
                loaded@,
            ),
            rest_after(
                before,
                dynamic@,
                rest@,
                retired@,
                string_map::listed(s.take(i as int)),
                *config,
                loaded@,
            ),
            only_replaced(
                before,
                dynamic@,
                retired@,
                string_map::listed(s.take(i as int)),
                *config,
                loaded@,
            ),
        decreases n - i,
    {
        let ghost part = string_map::listed(s.take(i as int));
        let ghost next = string_map::listed(s.take(i + 1));
        let ghost key = s[i as int].0;
        proof {
            string_map::listed_step(s, i as int);
            string_map::listed_entry(s, i as int);
        }
        let name = config.pools.key(i);
        let pc = config.pools.value(i);
        let tls = match loaded.get(name.as_str()) {
            Some(Ok(tls)) => *tls,
            _ => {
                assert(false);
                ServerTlsConfig::default()
            },
        };
        let recipe = Recipe {
            pool_name: name.as_str(),
            pool: pc,
            general: &config.general,
            tls,
            limited: match pc.max_db_connections {
                Some(m) => m > 0,
                None => false,
            },
        };
        let hash: u64 = compute_pool_fingerprint(pc, &config.general);
        let ghost rest0 = rest@;
        let ghost out0 = out@;
        let ghost retired0 = retired@;
        proof {
            assert(recipe@ == plan_of(*config, loaded@, key));
            assert forall|id: Id| #[trigger] out@.contains_key(id) implies id.0 != name@ by {
                assert(static_user(part, id).is_some());
            }
        }
        reload_users(rest, dynamic, &mut out, retired, &recipe, hash);
        proof {
            assert forall|id: Id|
                #![trigger static_user(next, id)]
                static_user(next, id) == (if id.0 == key {
                    user_named(pc.users@, id.1)
                } else {
                    static_user(part, id)
                }) by {}
            assert(statics_after(before, dynamic@, out@, next, *config, loaded@)) by {
                assert forall|id: Id| #[trigger]
                    out@.contains_key(id) <==> static_user(next, id).is_some() by {
                    assert(static_user(next, id) == (if id.0 == key {
                        user_named(pc.users@, id.1)
                    } else {
                        static_user(part, id)
                    }));
                    assert(out0.contains_key(id) <==> static_user(part, id).is_some());
                }
                assert forall|id: Id| static_user(next, id).is_some() implies static_after(
                    before,
                    dynamic@,
                    #[trigger] out@[id],
                    id,
                    static_user(next, id).unwrap(),
                    plan_of(*config, loaded@, id.0),
                    pool_fingerprint(next[id.0], config.general),
                ) by {
                    if id.0 == key {
                        assert(static_after(
                            rest0,
                            dynamic@,
                            out@[id],
                            id,
                            user_named(pc.users@, id.1).unwrap(),
                            recipe@,
                            hash,
                        ));
                        assert(static_user(part, id).is_none());
                        assert(rest0.contains_key(id) <==> before.contains_key(id));
                        if rest0.contains_key(id) {
                            assert(rest0[id] == before[id]);
                        }
                    } else {
                        assert(out0.contains_key(id));
                        assert(out@[id] == out0[id]);
                    }
                }
            }
            assert(rest_after(before, dynamic@, rest@, retired@, next, *config, loaded@)) by {
                assert forall|id: Id| #[trigger]
                    rest@.contains_key(id) <==> before.contains_key(id) && static_user(
                        next,
                        id,
                    ).is_none() by {
                    assert(rest0.contains_key(id) <==> before.contains_key(id) && static_user(
                        part,
                        id,
                    ).is_none());
                }
                assert forall|id: Id| rest@.contains_key(id) implies #[trigger] rest@[id]
                    == before[id] by {
                    assert(rest0.contains_key(id));
                    assert(rest@[id] == rest0[id]);
                    assert(rest0[id] == before[id]);
                }
                assert forall|id: Id|
                    #![trigger before.contains_key(id)]
                    before.contains_key(id) && static_user(next, id).is_some() && !reusable(
                        before,
                        dynamic@,
                        id,
                        pool_fingerprint(next[id.0], config.general),
                        plan_of(*config, loaded@, id.0).tls,
                    ) implies retired@.contains(before[id]) by {
                    if id.0 == key {
                        assert(static_user(part, id).is_none());
                        assert(rest0.contains_key(id));
                        assert(rest0[id] == before[id]);
                    } else {
                        assert(retired0.contains(before[id]));
                    }
                }
            }
            assert(only_replaced(before, dynamic@, retired@, next, *config, loaded@)) by {
                assert forall|p: ConnectionPool| #[trigger] retired@.contains(p) implies exists|id: Id|
                    #[trigger]
                    replaced_static(before, dynamic@, next, *config, loaded@, id) && before[id]
                        == p by {
                    if retired0.contains(p) {
                        let id = choose|id: Id| #[trigger]
                            replaced_static(before, dynamic@, part, *config, loaded@, id)
                                && before[id] == p;
                        assert(id.0 != key);
                        assert(static_user(next, id) == static_user(part, id));
                        assert(replaced_static(before, dynamic@, next, *config, loaded@, id));
                    } else {
                        let id = choose|id: Id| #[trigger]
                            replaced_user(rest0, dynamic@, pc.users@, recipe@, hash, id)
                                && rest0[id] == p;
                        assert(rest0.contains_key(id));
                        assert(rest0[id] == before[id]);
                        assert(static_user(next, id) == user_named(pc.users@, id.1));
                        assert(replaced_static(before, dynamic@, next, *config, loaded@, id));
                    }
                }
            }
        }
        i = i + 1;
    }
    assert(s.take(n as int) =~= s);
    out
}

/// A digest of the startup parameters of a database.
pub open spec fn startup_digest(pc: ConfigPool) -> u64 {
    digest::digest_of(digest::map_writes(string_map::texts(pc.startup_parameters@)))
}

/// A digest of everything else that the pools of looked up users are made from.
pub open spec fn parent_digest(pc: ConfigPool, general: General) -> u64 {
    pc.digest() ^ digest::digest_of(general.startup_writes())
}

/// A lookup that still fits the configuration of its database.
pub open spec fn lookup_fits(state: AuthQueryState, pc: ConfigPool, general: General) -> bool {
    match pc.auth_query {
        Some(c) => config::auth_query_view(c) == config::auth_query_view(state.config)
            && state.pool_startup_hash == startup_digest(pc) && state.parent_fingerprint
            == parent_digest(pc, general),
        None => false,
    }
}

/// Whether a lookup still fits the configuration of its database.
fn fits(state: &AuthQueryState, pc: &ConfigPool, general: &General) -> (r: bool)
    ensures
        r == lookup_fits(*state, *pc, *general),
{
    match &pc.auth_query {
        Some(c) => {
            c.same(&state.config) && state.pool_startup_hash == map_digest(&pc.startup_parameters)
                && state.parent_fingerprint == (pc.hash_value() ^ general.startup_hash())
        },
        None => false,
    }
}

/// The lookup of a database is kept.
pub open spec fn lookup_kept(
    states: Map<Seq<char>, AuthQueryState>,
    pools: Map<Seq<char>, ConfigPool>,
    general: General,
    name: Seq<char>,
) -> bool {
    states.contains_key(name) && pools.contains_key(name) && lookup_fits(
        states[name],
        pools[name],
        general,
    )
}

/// A new lookup.
pub open spec fn made_lookup(
    s: AuthQueryState,
    name: Seq<char>,
    pc: ConfigPool,
    general: General,
) -> bool {
    &&& pc.auth_query == Some(s.config)
    &&& s.pool_startup_hash == startup_digest(pc)
    &&& s.parent_fingerprint == parent_digest(pc, general)
    &&& s.pool_name@ == name
    &&& s.server_host == pc.server_host
    &&& s.server_port == pc.server_port
    &&& registry::opt_id(s.shared_pool_id) == registry::shared_id(name, s.config)
    &&& s.dynamic_pools_created == 0
    &&& s.dynamic_pools_destroyed == 0
}

/// The lookups after the configuration was read.
pub open spec fn lookups_after(
    before: Map<Seq<char>, AuthQueryState>,
    after: Map<Seq<char>, AuthQueryState>,
    pools: Map<Seq<char>, ConfigPool>,
    general: General,
) -> bool {
    &&& forall|n: Seq<char>| #[trigger]
        after.contains_key(n) <==> pools.contains_key(n) && pools[n].auth_query.is_some()
    &&& forall|n: Seq<char>|
        after.contains_key(n) ==> if lookup_kept(before, pools, general, n) {
            #[trigger] after[n] == before[n]
        } else {
            made_lookup(after[n], n, pools[n], general)
        }
}

/// This pool is the one that the looked up users of its database share.
pub open spec fn is_shared(pools: Map<Seq<char>, ConfigPool>, id: Id) -> bool {
    &&& pools.contains_key(id.0)
    &&& pools[id.0].auth_query.is_some()
    &&& registry::shared_id(id.0, pools[id.0].auth_query.unwrap()) == Some(id)
}

/// Whom the backend sees in place of looked up users.
pub open spec fn shared_user(user: User, c: AuthQueryConfig) -> bool {
    &&& c.server_user.is_some()
    &&& user.username@ == c.server_user.unwrap()@
    &&& user.password@ == ""@
    &&& user.pool_size == c.pool_size
    &&& user.min_pool_size.is_none()
    &&& user.server_username.is_some()
    &&& user.server_username.unwrap()@ == c.server_user.unwrap()@
    &&& user.server_password.is_some()
    &&& user.server_password.unwrap()@ == match c.server_password {
        Some(p) => p@,
        None => ""@,
    }
    &&& user.pool_mode.is_none()
}

/// A pool that looked up users share, made anew.
pub open spec fn made_shared(p: ConnectionPool, c: AuthQueryConfig, r: Plan, hash: u64) -> bool {
    &&& shared_user(p.settings.user, c)
    &&& connection_pool::pool_of(p, p.settings.user, r, Map::empty())
    &&& p.backend_auth.is_none()
    &&& p.config_hash == hash
    &&& p.per_user_startup_overlay_hash == connection_pool::overlay_digest(Map::empty())
    &&& p.init_complete
}

/// Makes a pool that looked up users share.
fn make_shared(c: &AuthQueryConfig, name: &String, r: &Recipe, hash: u64) -> (p: ConnectionPool)
    requires
        c.server_user.is_some(),
        name@ == c.server_user.unwrap()@,
    ensures
        made_shared(p, *c, r@, hash),
{
    let mut user: User = Default::default();
    user.username = name.clone();
    user.password = "".to_owned();
    user.pool_size = c.pool_size;
    user.server_username = Some(name.clone());
    user.server_password = match &c.server_password {
        Some(p) => Some(p.clone()),
        None => Some("".to_owned()),
    };
    let overlay: StringMap<String> = StringMap::new();
    assert(string_map::texts(overlay@) =~= Map::empty());
    ConnectionPool::make(&user, r, None, overlay, empty_overlay_hash(), hash, true)
}

/// Looks at the looked up users of one database: their lookup and the pool that
/// they share are kept if they still fit.
fn reload_lookup(
    states: &mut StringMap<AuthQueryState>,
    rest: &mut IdMap<ConnectionPool>,
    out: &mut IdMap<ConnectionPool>,
    r: &Recipe,
    c: &AuthQueryConfig,
    hash: u64,
) -> (state: AuthQueryState)
    requires
        r.pool.auth_query == Some(*c),
        old(states)@.contains_key(r.pool_name@) ==> registry::opt_id(
            old(states)@[r.pool_name@].shared_pool_id,
        ) == registry::shared_id(r.pool_name@, old(states)@[r.pool_name@].config),
    ensures
        final(states)@ == old(states)@.remove(r.pool_name@),
        ({
            let n = r.pool_name@;
            let kept = old(states)@.contains_key(n) && lookup_fits(
                old(states)@[n],
                *r.pool,
                *r.general,
            );
            &&& if kept {
                state == old(states)@[n]
            } else {
                made_lookup(state, n, *r.pool, *r.general)
            }
            &&& match registry::shared_id(n, *c) {
                None => final(out)@ == old(out)@ && final(rest)@ == old(rest)@,
                Some(id) => if old(out)@.contains_key(id) {
                    final(out)@ == old(out)@ && final(rest)@ == old(rest)@
                } else if kept {
                    if old(rest)@.contains_key(id) {
                        &&& final(out)@ == old(out)@.insert(id, old(rest)@[id])
                        &&& final(rest)@ == old(rest)@.remove(id)
                    } else {
                        final(out)@ == old(out)@ && final(rest)@ == old(rest)@
                    }
                } else {
                    &&& final(rest)@ == old(rest)@
                    &&& final(out)@.contains_key(id)
                    &&& final(out)@ == old(out)@.insert(id, final(out)@[id])
                    &&& made_shared(final(out)@[id], *c, r@, hash)
                },
            }
        }),
{
    let ghost rest0 = rest@;
    let ghost out0 = out@;
    match states.remove(r.pool_name) {
        Some(state) => {
            if fits(&state, r.pool, r.general) {
                match &state.shared_pool_id {
                    Some(id) => {
                        if !out.contains_key(id) {
                            match rest.remove(id) {
                                Some(pool) => {
                                    let _ = out.insert(id.clone(), pool);
                                },
                                None => {
                                    assert(rest@ =~= rest0);
                                },
                            }
                        }
                    },
                    None => {},
                }
                proof {
                    assert(config::auth_query_view(*c) == config::auth_query_view(state.config));
                    assert(registry::shared_id(r.pool_name@, *c) == registry::shared_id(
                        r.pool_name@,
                        state.config,
                    ));
                }
                return state;
            }
        },
        None => {},
    }
    let shared_pool_id = match &c.server_user {
        Some(name) => {
            let id = PoolIdentifier::new(r.pool_name, name.as_str());
            if !out.contains_key(&id) {
                let pool = make_shared(c, name, r, hash);
                let _ = out.insert(id.clone(), pool);
            }
            Some(id)
        },
        None => None,
    };
    AuthQueryState {
        config: c.clone(),
        pool_startup_hash: map_digest(&r.pool.startup_parameters),
        parent_fingerprint: r.pool.hash_value() ^ r.general.startup_hash(),
        pool_name: r.pool_name.to_owned(),
        server_host: r.pool.server_host.clone(),
        server_port: r.pool.server_port,
        shared_pool_id,
        dynamic_pools_created: 0,
        dynamic_pools_destroyed: 0,
    }
}

/// A shared pool that is taken over as it is.
pub open spec fn shared_moved(
    states: Map<Seq<char>, AuthQueryState>,
    rest: Map<Id, ConnectionPool>,
    start: Map<Id, ConnectionPool>,
    pools: Map<Seq<char>, ConfigPool>,
    general: General,
    id: Id,
) -> bool {
    is_shared(pools, id) && lookup_kept(states, pools, general, id.0) && !start.contains_key(id)
        && rest.contains_key(id)
}

/// The pools after those were added that looked up users share.
pub open spec fn shared_after(
    states: Map<Seq<char>, AuthQueryState>,
    rest: Map<Id, ConnectionPool>,
    start: Map<Id, ConnectionPool>,
    after: Map<Id, ConnectionPool>,
    pools: Map<Seq<char>, ConfigPool>,
    config: Config,
    loaded: Loaded,
) -> bool {
    &&& forall|id: Id| #[trigger]
        after.contains_key(id) <==> start.contains_key(id) || (is_shared(pools, id) && (lookup_kept(
            states,
            pools,
            config.general,
            id.0,
        ) ==> rest.contains_key(id)))
    &&& forall|id: Id| start.contains_key(id) ==> #[trigger] after[id] == start[id]
    &&& forall|id: Id|
        #![trigger after[id]]
        after.contains_key(id) && !start.contains_key(id) ==> if lookup_kept(
            states,
            pools,
            config.general,
            id.0,
        ) {
            after[id] == rest[id]
        } else {
            made_shared(
                after[id],
                pools[id.0].auth_query.unwrap(),
                plan_of(config, loaded, id.0),
                pool_fingerprint(pools[id.0], config.general),
            )
        }
}

/// What is left of the old pools after those were taken over that looked up users
/// share.
pub open spec fn rest_after_shared(
    states: Map<Seq<char>, AuthQueryState>,
    before: Map<Id, ConnectionPool>,
    rest: Map<Id, ConnectionPool>,
    start: Map<Id, ConnectionPool>,
    pools: Map<Seq<char>, ConfigPool>,
    general: General,
) -> bool {
    &&& forall|id: Id| #[trigger]
        rest.contains_key(id) <==> before.contains_key(id) && !shared_moved(
            states,
            before,
            start,
            pools,
            general,
            id,
        )
    &&& forall|id: Id| rest.contains_key(id) ==> #[trigger] rest[id] == before[id]
}

/// The names that are still to be looked at have their old lookups.
pub open spec fn lookups_left(
    before: Map<Seq<char>, AuthQueryState>,
    now: Map<Seq<char>, AuthQueryState>,
    pools: Map<Seq<char>, ConfigPool>,
) -> bool {
    forall|n: Seq<char>|
        #![trigger now.contains_key(n)]
        !pools.contains_key(n) ==> now.contains_key(n) == before.contains_key(n) && (
        before.contains_key(n) ==> now[n] == before[n])
}

/// Lookups whose shared pools have the names that they should have.
pub open spec fn lookups_wf(states: Map<Seq<char>, AuthQueryState>) -> bool {
    forall|n: Seq<char>| #[trigger]
        states.contains_key(n) ==> registry::opt_id(states[n].shared_pool_id) == registry::shared_id(
            n,
            states[n].config,
        )
}

/// Looks at the looked up users of all databases.
#[verifier::rlimit(40)]
fn reload_lookups(
    states: &mut StringMap<AuthQueryState>,
    rest: &mut IdMap<ConnectionPool>,
    out: &mut IdMap<ConnectionPool>,
    config: &Config,
    loaded: &StringMap<Result<ServerTlsConfig, Error>>,
) -> (lookups: StringMap<AuthQueryState>)
    requires
        all_loaded(*config, loaded@),
        lookups_wf(old(states)@),
    ensures
        lookups_after(old(states)@, lookups@, config.pools@, config.general),
        shared_after(
            old(states)@,
            old(rest)@,
            old(out)@,
            final(out)@,
            config.pools@,
            *config,
            loaded@,
        ),
        rest_after_shared(
            old(states)@,
            old(rest)@,
            final(rest)@,
            old(out)@,
            config.pools@,
            config.general,
        ),
{
    let mut lookups: StringMap<AuthQueryState> = StringMap::new();
    let n: usize = config.pools.len();
    let ghost s = config.pools.listing();
    let ghost states0 = states@;
    let ghost rest0 = rest@;
    let ghost out0 = out@;
    let mut i: usize = 0;
    proof {
        assert(s.take(0) =~= Seq::<(Seq<char>, ConfigPool)>::empty());
        string_map::listed_empty::<Seq<char>, ConfigPool>();
    }
    while i < n
        invariant
            i <= n == s.len(),
            s == config.pools.listing(),
            string_map::unique_keys(s),
            all_loaded(*config, loaded@),
            lookups_wf(states0),
            states0 == old(states)@,
            rest0 == old(rest)@,
            out0 == old(out)@,
            lookups_left(states0, states@, string_map::listed(s.take(i as int))),
            lookups_after(
                states0,
                lookups@,
                string_map::listed(s.take(i as int)),
                config.general,
            ),
            shared_after(
                states0,
                rest0,
                out0,
                out@,
                string_map::listed(s.take(i as int)),
                *config,
                loaded@,
            ),
            rest_after_shared(
                states0,
                rest0,
                rest@,
                out0,
                string_map::listed(s.take(i as int)),
                config.general,
            ),
        decreases n - i,
    {
        let ghost part = string_map::listed(s.take(i as int));
        let ghost next = string_map::listed(s.take(i + 1));
        let ghost key = s[i as int].0;
        proof {
            string_map::listed_step(s, i as int);
            string_map::listed_entry(s, i as int);
            assert(states@.contains_key(key) == states0.contains_key(key));
        }
        let name = config.pools.key(i);
        let pc = config.pools.value(i);
        let ghost rest1 = rest@;
        let ghost out1 = out@;
        let ghost states1 = states@;
        match &pc.auth_query {
            Some(c) => {
                let tls = match loaded.get(name.as_str()) {
                    Some(Ok(tls)) => *tls,
                    _ => {
                        assert(false);
                        ServerTlsConfig::default()
                    },
                };
                let recipe = Recipe {
                    pool_name: name.as_str(),
                    pool: pc,
                    general: &config.general,
                    tls,
                    limited: match pc.max_db_connections {
                        Some(m) => m > 0,
                        None => false,
                    },
                };
                let hash: u64 = compute_pool_fingerprint(pc, &config.general);
                assert(recipe@ == plan_of(*config, loaded@, key));
                let state = reload_lookup(states, rest, out, &recipe, c, hash);
                let _ = lookups.insert(name.clone(), state);
                proof {
                    lookup_step(
                        (states0, rest0, out0),
                        (rest1, out1),
                        (rest@, out@),
                        part,
                        next,
                        *config,
                        loaded@,
                        key,
                    );
                }
            },
            None => {
                proof {
                    no_lookup_step(
                        (states0, rest0, out0),
                        (rest@, out@),
                        part,
                        next,
                        *config,
                        loaded@,
                        key,
                    );
                }
            },
        }
        i = i + 1;
    }
    assert(s.take(n as int) =~= s);
    lookups
}

/// What was at the beginning: lookups, old pools, new pools.
pub type Start = (Map<Seq<char>, AuthQueryState>, Map<Id, ConnectionPool>, Map<Id, ConnectionPool>);

/// A database without lookup changes nothing.
proof fn no_lookup_step(
    start: Start,
    now: (Map<Id, ConnectionPool>, Map<Id, ConnectionPool>),
    part: Map<Seq<char>, ConfigPool>,
    next: Map<Seq<char>, ConfigPool>,
    config: Config,
    loaded: Loaded,
    key: Seq<char>,
)
    requires
        next == part.insert(key, config.pools@[key]),
        !part.contains_key(key),
        config.pools@[key].auth_query.is_none(),
        shared_after(start.0, start.1, start.2, now.1, part, config, loaded),
        rest_after_shared(start.0, start.1, now.0, start.2, part, config.general),
    ensures
        shared_after(start.0, start.1, start.2, now.1, next, config, loaded),
        rest_after_shared(start.0, start.1, now.0, start.2, next, config.general),
{
    assert forall|id: Id| #[trigger] is_shared(next, id) == is_shared(part, id) by {}
    assert forall|id: Id| is_shared(part, id) implies #[trigger] lookup_kept(
        start.0,
        next,
        config.general,
        id.0,
    ) == lookup_kept(start.0, part, config.general, id.0) by {}
    assert forall|id: Id|
        #![trigger now.1[id]]
        now.1.contains_key(id) && !start.2.contains_key(id) implies id.0 != key by {
        assert(is_shared(part, id));
    }
    assert forall|id: Id| #[trigger]
        now.1.contains_key(id) <==> start.2.contains_key(id) || (is_shared(next, id) && (
        lookup_kept(start.0, next, config.general, id.0) ==> start.1.contains_key(id))) by {
        assert(is_shared(next, id) == is_shared(part, id));
    }
    assert forall|id: Id| #[trigger]
        now.0.contains_key(id) <==> start.1.contains_key(id) && !shared_moved(
            start.0,
            start.1,
            start.2,
            next,
            config.general,
            id,
        ) by {
        assert(is_shared(next, id) == is_shared(part, id));
    }
}

/// One database with a lookup.
proof fn lookup_step(
    start: Start,
    was: (Map<Id, ConnectionPool>, Map<Id, ConnectionPool>),
    now: (Map<Id, ConnectionPool>, Map<Id, ConnectionPool>),
    part: Map<Seq<char>, ConfigPool>,
    next: Map<Seq<char>, ConfigPool>,
    config: Config,
    loaded: Loaded,
    key: Seq<char>,
)
    requires
        next == part.insert(key, config.pools@[key]),
        !part.contains_key(key),
        config.pools@[key].auth_query.is_some(),
        shared_after(start.0, start.1, start.2, was.1, part, config, loaded),
        rest_after_shared(start.0, start.1, was.0, start.2, part, config.general),
        ({
            let c = config.pools@[key].auth_query.unwrap();
            let kept = start.0.contains_key(key) && lookup_fits(
                start.0[key],
                config.pools@[key],
                config.general,
            );
            match registry::shared_id(key, c) {
                None => now.1 == was.1 && now.0 == was.0,
                Some(id) => if was.1.contains_key(id) {
                    now.1 == was.1 && now.0 == was.0
                } else if kept {
                    if was.0.contains_key(id) {
                        now.1 == was.1.insert(id, was.0[id]) && now.0 == was.0.remove(id)
                    } else {
                        now.1 == was.1 && now.0 == was.0
                    }
                } else {
                    &&& now.0 == was.0
                    &&& now.1.contains_key(id)
                    &&& now.1 == was.1.insert(id, now.1[id])
                    &&& made_shared(
                        now.1[id],
                        c,
                        plan_of(config, loaded, key),
                        pool_fingerprint(config.pools@[key], config.general),
                    )
                },
            }
        }),
    ensures
        shared_after(start.0, start.1, start.2, now.1, next, config, loaded),
        rest_after_shared(start.0, start.1, now.0, start.2, next, config.general),
{
    let c = config.pools@[key].auth_query.unwrap();
    assert forall|id: Id| #[trigger]
        is_shared(next, id) == (is_shared(part, id) || registry::shared_id(key, c) == Some(id)) by {
        if id.0 == key {
            assert(!is_shared(part, id));
        }
    }
    assert forall|id: Id|
        #![trigger lookup_kept(start.0, next, config.general, id.0)]
        id.0 != key ==> lookup_kept(start.0, next, config.general, id.0) == lookup_kept(
            start.0,
            part,
            config.general,
            id.0,
        ) by {}
    assert forall|id: Id| #[trigger] is_shared(part, id) implies id.0 != key by {}
    assert forall|id: Id| #[trigger]
        now.1.contains_key(id) <==> start.2.contains_key(id) || (is_shared(next, id) && (
        lookup_kept(start.0, next, config.general, id.0) ==> start.1.contains_key(id))) by {
        assert(is_shared(next, id) == (is_shared(part, id) || registry::shared_id(key, c) == Some(
            id,
        )));
        assert(was.1.contains_key(id) <==> start.2.contains_key(id) || (is_shared(part, id) && (
        lookup_kept(start.0, part, config.general, id.0) ==> start.1.contains_key(id))));
        assert(was.0.contains_key(id) <==> start.1.contains_key(id) && !shared_moved(
            start.0,
            start.1,
            start.2,
            part,
            config.general,
            id,
        ));
    }
    assert forall|id: Id| start.2.contains_key(id) implies #[trigger] now.1[id] == start.2[id] by {
        assert(was.1.contains_key(id));
        assert(was.1[id] == start.2[id]);
    }
    assert forall|id: Id|
        #![trigger now.1[id]]
        now.1.contains_key(id) && !start.2.contains_key(id) implies if lookup_kept(
        start.0,
        next,
        config.general,
        id.0,
    ) {
        now.1[id] == start.1[id]
    } else {
        made_shared(
            now.1[id],
            next[id.0].auth_query.unwrap(),
            plan_of(config, loaded, id.0),
            pool_fingerprint(next[id.0], config.general),
        )
    } by {
        if registry::shared_id(key, c) == Some(id) {
            assert(!is_shared(part, id));
            assert(!was.1.contains_key(id));
            if was.0.contains_key(id) {
                assert(was.0[id] == start.1[id]);
            }
        } else {
            assert(was.1.contains_key(id));
            assert(now.1[id] == was.1[id]);
            assert(is_shared(part, id));
        }
    }
    assert forall|id: Id| #[trigger]
        now.0.contains_key(id) <==> start.1.contains_key(id) && !shared_moved(
            start.0,
            start.1,
            start.2,
            next,
            config.general,
            id,
        ) by {
        assert(was.0.contains_key(id) <==> start.1.contains_key(id) && !shared_moved(
            start.0,
            start.1,
            start.2,
            part,
            config.general,
            id,
        ));
        assert(is_shared(next, id) == (is_shared(part, id) || registry::shared_id(key, c) == Some(
            id,
        )));
        assert(was.1.contains_key(id) <==> start.2.contains_key(id) || (is_shared(part, id) && (
        lookup_kept(start.0, part, config.general, id.0) ==> start.1.contains_key(id))));
    }
    assert forall|id: Id| now.0.contains_key(id) implies #[trigger] now.0[id] == start.1[id] by {
        assert(was.0.contains_key(id));
        assert(was.0[id] == start.1[id]);
    }
}

/// The texts of a list of strings.
pub open spec fn listed_names(list: Seq<String>) -> Seq<Seq<char>> {
    Seq::new(list.len(), |i: int| list[i]@)
}

/// The lookups that are kept, and those that are not.
fn part_lookups(states: &StringMap<AuthQueryState>, config: &Config) -> (r: (
    Vec<String>,
    Vec<String>,
))
    ensures
        forall|n: Seq<char>| #[trigger]
            listed_names(r.0@).contains(n) <==> lookup_kept(
                states@,
                config.pools@,
                config.general,
                n,
            ),
        forall|n: Seq<char>| #[trigger]
            listed_names(r.1@).contains(n) <==> states@.contains_key(n) && !lookup_kept(
                states@,
                config.pools@,
                config.general,
                n,
            ),
{
    let mut kept: Vec<String> = Vec::new();
    let mut changed: Vec<String> = Vec::new();
    let n: usize = states.len();
    let ghost s = states.listing();
    let mut i: usize = 0;
    while i < n
        invariant
            i <= n == s.len(),
            s == states.listing(),
            string_map::unique_keys(s),
            forall|x: Seq<char>| #[trigger]
                listed_names(kept@).contains(x) <==> exists|j: int|
                    0 <= j < i && (#[trigger] s[j]).0 == x && lookup_kept(
                        states@,
                        config.pools@,
                        config.general,
                        x,
                    ),
            forall|x: Seq<char>| #[trigger]
                listed_names(changed@).contains(x) <==> exists|j: int|
                    0 <= j < i && (#[trigger] s[j]).0 == x && !lookup_kept(
                        states@,
                        config.pools@,
                        config.general,
                        x,
                    ),
        decreases n - i,
    {
        let name = states.key(i);
        let state = states.value(i);
        let ghost key = s[i as int].0;
        let ghost kept0 = listed_names(kept@);
        let ghost changed0 = listed_names(changed@);
        proof {
            string_map::listed_entry(s, i as int);
        }
        let same = match config.pools.get(name.as_str()) {
            Some(pc) => fits(state, pc, &config.general),
            None => false,
        };
        assert(same == lookup_kept(states@, config.pools@, config.general, key));
        if same {
            kept.push(name.clone());
        } else {
            changed.push(name.clone());
        }
        proof {
            let kept1 = listed_names(kept@);
            let changed1 = listed_names(changed@);
            if same {
                assert(kept1 =~= kept0.push(key));
            } else {
                assert(changed1 =~= changed0.push(key));
            }
            assert forall|x: Seq<char>|
                kept1.contains(x) <==> kept0.contains(x) || (same && x == key) by {
                pushed(kept0, key, x);
            }
            assert forall|x: Seq<char>|
                changed1.contains(x) <==> changed0.contains(x) || (!same && x == key) by {
                pushed(changed0, key, x);
            }
            assert forall|x: Seq<char>| #[trigger] kept1.contains(x) <==> exists|j: int|
                0 <= j < i + 1 && (#[trigger] s[j]).0 == x && lookup_kept(
                    states@,
                    config.pools@,
                    config.general,
                    x,
                ) by {
                assert(kept0.contains(x) <==> exists|j: int|
                    0 <= j < i && (#[trigger] s[j]).0 == x && lookup_kept(
                        states@,
                        config.pools@,
                        config.general,
                        x,
                    ));
                if x == key {
                    assert(s[i as int].0 == x);
                }
            }
            assert forall|x: Seq<char>| #[trigger] changed1.contains(x) <==> exists|j: int|
                0 <= j < i + 1 && (#[trigger] s[j]).0 == x && !lookup_kept(
                    states@,
                    config.pools@,
                    config.general,
                    x,
                ) by {
                assert(changed0.contains(x) <==> exists|j: int|
                    0 <= j < i && (#[trigger] s[j]).0 == x && !lookup_kept(
                        states@,
                        config.pools@,
                        config.general,
                        x,
                    ));
                if x == key {
                    assert(s[i as int].0 == x);
                }
            }
        }
        i = i + 1;
    }
    proof {
        assert forall|x: Seq<char>| #[trigger] listed_names(kept@).contains(x) <==> lookup_kept(
            states@,
            config.pools@,
            config.general,
            x,
        ) by {
            if lookup_kept(states@, config.pools@, config.general, x) {
                let j = string_map::listed_key(s, x);
                assert(s[j].0 == x);
            }
        }
        assert forall|x: Seq<char>| #[trigger]
            listed_names(changed@).contains(x) <==> states@.contains_key(x) && !lookup_kept(
                states@,
                config.pools@,
                config.general,
                x,
            ) by {
            if states@.contains_key(x) {
                let j = string_map::listed_key(s, x);
                assert(s[j].0 == x);
            }
            if listed_names(changed@).contains(x) {
                let j = choose|j: int|
                    0 <= j < i && (#[trigger] s[j]).0 == x && !lookup_kept(
                        states@,
                        config.pools@,
                        config.general,
                        x,
                    );
                string_map::listed_entry(s, j);
            }
        }
    }
    (kept, changed)
}

/// What a sequence contains after one element was added.
proof fn pushed<T>(s: Seq<T>, a: T, x: T)
    ensures
        s.push(a).contains(x) <==> s.contains(x) || x == a,
{
    if s.contains(x) {
        let k = choose|k: int| 0 <= k < s.len() && s[k] == x;
        assert(s.push(a)[k] == x);
    }
    if x == a {
        assert(s.push(a)[s.len() as int] == x);
    }
}

/// Whether a name is in a list.
fn has_name(list: &Vec<String>, name: &str) -> (r: bool)
    ensures
        r == listed_names(list@).contains(name@),
{
    let mut i: usize = 0;
    while i < list.len()
        invariant
            i <= list.len(),
            forall|k: int| 0 <= k < i ==> (#[trigger] listed_names(list@)[k]) != name@,
        decreases list.len() - i,
    {
        if same_text(list[i].as_str(), name) {
            assert(listed_names(list@)[i as int] == name@);
            return true;
        }
        i = i + 1;
    }
    false
}

/// Whether a user is configured for a database.
fn is_static(config: &Config, id: &PoolIdentifier) -> (r: bool)
    ensures
        r == static_user(config.pools@, id@).is_some(),
{
    match config.pools.get(id.db.as_str()) {
        Some(pc) => {
            let ghost all = pc.users@;
            let mut j: usize = pc.users.len();
            assert(all.skip(all.len() as int) =~= Seq::<User>::empty());
            while j > 0
                invariant
                    j <= all.len(),
                    all == pc.users@,
                    config.pools@.contains_key(id.db@),
                    *pc == config.pools@[id.db@],
                    user_named(all.skip(j as int), id.user@).is_none(),
                decreases j,
            {
                j = j - 1;
                assert(all.skip(j as int).skip(1) =~= all.skip(j + 1));
                if same_text(pc.users[j].username.as_str(), id.user.as_str()) {
                    proof {
                        found_later(all, j as int, id.user@);
                    }
                    return true;
                }
            }
            assert(all.skip(0) =~= all);
            false
        },
        None => false,
    }
}

/// A user who is configured among the later ones is configured.
proof fn found_later(users: Seq<User>, j: int, name: Seq<char>)
    requires
        0 <= j <= users.len(),
        user_named(users.skip(j), name).is_some(),
    ensures
        user_named(users, name).is_some(),
    decreases j,
{
    if j == 0 {
        assert(users.skip(0) =~= users);
    } else {
        assert(users.skip(j - 1).skip(1) =~= users.skip(j));
        found_later(users, j - 1, name);
    }
}

/// The pool of a looked up user is dropped: its lookup is no longer the same, the
/// user is configured now, or all such pools are made anew.
pub open spec fn dropped(
    states: Map<Seq<char>, AuthQueryState>,
    config: Config,
    all: bool,
    id: Id,
) -> bool {
    ||| states.contains_key(id.0) && !lookup_kept(states, config.pools@, config.general, id.0)
    ||| static_user(config.pools@, id).is_some()
    ||| all
}

/// The pools after those of looked up users were added.
pub open spec fn dynamic_after(
    states: Map<Seq<char>, AuthQueryState>,
    config: Config,
    all: bool,
    dynamic: Map<Id, ()>,
    rest: Map<Id, ConnectionPool>,
    start: Map<Id, ConnectionPool>,
    after: Map<Id, ConnectionPool>,
    left: Map<Id, ConnectionPool>,
    tracked_after: Map<Id, ()>,
    removed: Seq<Id>,
) -> bool {
    &&& forall|id: Id| #[trigger]
        after.contains_key(id) <==> start.contains_key(id) || (dynamic.contains_key(id) && !dropped(states, config, all, id)
            && rest.contains_key(id))
    &&& forall|id: Id|
        #![trigger after[id]]
        after.contains_key(id) ==> after[id] == if start.contains_key(id) {
            start[id]
        } else {
            rest[id]
        }
    &&& forall|id: Id| #[trigger]
        left.contains_key(id) <==> rest.contains_key(id) && !(dynamic.contains_key(id) && !dropped(states, config, all, id)
            && !start.contains_key(id))
    &&& forall|id: Id| left.contains_key(id) ==> #[trigger] left[id] == rest[id]
    &&& forall|id: Id| #[trigger]
        tracked_after.contains_key(id) <==> dynamic.contains_key(id) && !dropped(states, config, all, id)
    &&& removed.no_duplicates()
    &&& forall|id: Id| #[trigger] removed.contains(id) <==> dynamic.contains_key(id) && dropped(states, config, all, id)
}

/// The views of identifiers.
pub open spec fn ids_of(list: Seq<PoolIdentifier>) -> Seq<Id> {
    Seq::new(list.len(), |i: int| list[i]@)
}

/// Looks at the pools of looked up users: those that are not dropped are taken
/// over.
fn reload_dynamic(
    dynamic: &IdMap<()>,
    rest: &mut IdMap<ConnectionPool>,
    out: &mut IdMap<ConnectionPool>,
    config: &Config,
    changed: &Vec<String>,
    all: bool,
    Ghost(states): Ghost<Map<Seq<char>, AuthQueryState>>,
) -> (r: (IdMap<()>, Vec<PoolIdentifier>))
    requires
        forall|n: Seq<char>| #[trigger]
            listed_names(changed@).contains(n) <==> states.contains_key(n) && !lookup_kept(
                states,
                config.pools@,
                config.general,
                n,
            ),
    ensures
        dynamic_after(
            states,
            *config,
            all,
            dynamic@,
            old(rest)@,
            old(out)@,
            final(out)@,
            final(rest)@,
            r.0@,
            ids_of(r.1@),
        ),
{
    let mut kept: IdMap<()> = IdMap::new();
    let mut removed: Vec<PoolIdentifier> = Vec::new();
    let n: usize = dynamic.len();
    let ghost s = dynamic.listing();
    let ghost rest0 = rest@;
    let ghost out0 = out@;
    let mut i: usize = 0;
    proof {
        assert(s.take(0) =~= Seq::<(Id, ())>::empty());
        string_map::listed_empty::<Id, ()>();
    }
    while i < n
        invariant
            i <= n == s.len(),
            s == dynamic.listing(),
            string_map::unique_keys(s),
            rest0 == old(rest)@,
            out0 == old(out)@,
            forall|x: Seq<char>| #[trigger]
                listed_names(changed@).contains(x) <==> states.contains_key(x) && !lookup_kept(
                    states,
                    config.pools@,
                    config.general,
                    x,
                ),
            dynamic_after(
                states,
                *config,
                all,
                string_map::listed(s.take(i as int)),
                rest0,
                out0,
                out@,
                rest@,
                kept@,
                ids_of(removed@),
            ),
        decreases n - i,
    {
        let ghost part = string_map::listed(s.take(i as int));
        let ghost key = s[i as int].0;
        let ghost was = (out@, rest@, kept@, ids_of(removed@));
        proof {
            string_map::listed_step(s, i as int);
        }
        let id = dynamic.id(i);
        let goes = has_name(changed, id.db.as_str()) || is_static(config, id) || all;
        assert(goes == dropped(states, *config, all, key));
        if goes {
            removed.push(id.clone());
            assert(ids_of(removed@) =~= was.3.push(key));
        } else {
            let _ = kept.insert(id.clone(), ());
            if !out.contains_key(id) {
                match rest.remove(id) {
                    Some(pool) => {
                        let _ = out.insert(id.clone(), pool);
                    },
                    None => {
                        assert(rest@ =~= was.1);
                    },
                }
            }
        }
        proof {
            dynamic_step(
                states,
                *config,
                all,
                part,
                key,
                (rest0, out0),
                was,
                (out@, rest@, kept@, ids_of(removed@)),
            );
        }
        i = i + 1;
    }
    assert(s.take(n as int) =~= s);
    (kept, removed)
}

/// The new pools, what is left of the old ones, the looked up users that are
/// kept, and those that are not.
pub type Progress = (Map<Id, ConnectionPool>, Map<Id, ConnectionPool>, Map<Id, ()>, Seq<Id>);

/// One looked up user more.
proof fn dynamic_step(
    states: Map<Seq<char>, AuthQueryState>,
    config: Config,
    all: bool,
    part: Map<Id, ()>,
    key: Id,
    start: (Map<Id, ConnectionPool>, Map<Id, ConnectionPool>),
    was: Progress,
    now: Progress,
)
    requires
        !part.contains_key(key),
        dynamic_after(states, config, all, part, start.0, start.1, was.0, was.1, was.2, was.3),
        if dropped(states, config, all, key) {
            &&& now.0 == was.0
            &&& now.1 == was.1
            &&& now.2 == was.2
            &&& now.3 == was.3.push(key)
        } else {
            &&& now.2 == was.2.insert(key, ())
            &&& now.3 == was.3
            &&& if was.0.contains_key(key) || !was.1.contains_key(key) {
                now.0 == was.0 && now.1 == was.1
            } else {
                now.0 == was.0.insert(key, was.1[key]) && now.1 == was.1.remove(key)
            }
        },
    ensures
        dynamic_after(
            states,
            config,
            all,
            part.insert(key, ()),
            start.0,
            start.1,
            now.0,
            now.1,
            now.2,
            now.3,
        ),
{
    let next = part.insert(key, ());
    assert(!was.3.contains(key));
    assert(was.0.contains_key(key) <==> start.1.contains_key(key));
    assert(was.1.contains_key(key) <==> start.0.contains_key(key));
    if was.1.contains_key(key) {
        assert(was.1[key] == start.0[key]);
    }
    assert forall|id: Id| #[trigger]
        now.0.contains_key(id) <==> start.1.contains_key(id) || (next.contains_key(id) && !dropped(states, config, all, id)
            && start.0.contains_key(id)) by {
        assert(was.0.contains_key(id) <==> start.1.contains_key(id) || (part.contains_key(id)
            && !dropped(states, config, all, id) && start.0.contains_key(id)));
    }
    assert forall|id: Id|
        #![trigger now.0[id]]
        now.0.contains_key(id) implies now.0[id] == if start.1.contains_key(id) {
        start.1[id]
    } else {
        start.0[id]
    } by {
        if was.0.contains_key(id) {
            assert(now.0[id] == was.0[id]);
        }
    }
    assert forall|id: Id| #[trigger]
        now.1.contains_key(id) <==> start.0.contains_key(id) && !(next.contains_key(id) && !dropped(states, config, all, id)
            && !start.1.contains_key(id)) by {
        assert(was.1.contains_key(id) <==> start.0.contains_key(id) && !(part.contains_key(id)
            && !dropped(states, config, all, id) && !start.1.contains_key(id)));
    }
    assert forall|id: Id| now.1.contains_key(id) implies #[trigger] now.1[id] == start.0[id] by {
        assert(was.1.contains_key(id));
        assert(was.1[id] == start.0[id]);
    }
    assert forall|id: Id| #[trigger]
        now.2.contains_key(id) <==> next.contains_key(id) && !dropped(states, config, all, id) by {
        assert(was.2.contains_key(id) <==> part.contains_key(id) && !dropped(states, config, all, id));
    }
    assert forall|id: Id| #[trigger] now.3.contains(id) <==> next.contains_key(id) && dropped(states, config, all, id) by {
        assert(was.3.contains(id) <==> part.contains_key(id) && dropped(states, config, all, id));
        pushed(was.3, key, id);
    }
    assert(now.3.no_duplicates()) by {
        if dropped(states, config, all, key) {
            assert forall|a: int, b: int|
                0 <= a < now.3.len() && 0 <= b < now.3.len() && a != b implies now.3[a]
                != now.3[b] by {
                if a == was.3.len() {
                    assert(now.3[b] == was.3[b]);
                    assert(was.3.contains(was.3[b]));
                } else if b == was.3.len() {
                    assert(now.3[a] == was.3[a]);
                    assert(was.3.contains(was.3[a]));
                }
            }
        }
    }
}

/// How many of these pools belong to a database.
pub open spec fn count_of(ids: Seq<Id>, name: Seq<char>) -> nat
    decreases ids.len(),
{
    if ids.len() == 0 {
        0
    } else {
        count_of(ids.drop_last(), name) + if ids.last().0 == name {
            1nat
        } else {
            0nat
        }
    }
}

/// A count that was raised so often, starting again from zero after the largest.
pub open spec fn raised(n: u64, times: nat) -> u64
    decreases times,
{
    if times == 0 {
        n
    } else {
        raised(n, (times - 1) as nat).wrapping_add(1)
    }
}

/// The lookups after the dropped pools were counted, for those that are kept.
pub open spec fn lookups_counted(
    before: Map<Seq<char>, AuthQueryState>,
    after: Map<Seq<char>, AuthQueryState>,
    kept: Seq<Seq<char>>,
    removed: Seq<Id>,
) -> bool {
    &&& forall|n: Seq<char>| #[trigger] after.contains_key(n) <==> before.contains_key(n)
    &&& forall|n: Seq<char>|
        before.contains_key(n) ==> #[trigger] after[n] == (AuthQueryState {
            dynamic_pools_destroyed: if kept.contains(n) {
                raised(before[n].dynamic_pools_destroyed, count_of(removed, n))
            } else {
                before[n].dynamic_pools_destroyed
            },
            ..before[n]
        })
}

/// Counts the dropped pools.
pub(crate) fn count_destroyed(
    lookups: &mut StringMap<AuthQueryState>,
    kept: &Vec<String>,
    removed: &Vec<PoolIdentifier>,
)
    ensures
        lookups_counted(
            old(lookups)@,
            final(lookups)@,
            listed_names(kept@),
            ids_of(removed@),
        ),
{
    let ghost before = lookups@;
    let ghost ids = ids_of(removed@);
    let ghost names = listed_names(kept@);
    let mut i: usize = 0;
    assert(ids.take(0) =~= Seq::<Id>::empty());
    while i < removed.len()
        invariant
            i <= removed.len(),
            before == old(lookups)@,
            ids == ids_of(removed@),
            names == listed_names(kept@),
            lookups_counted(before, lookups@, names, ids.take(i as int)),
        decreases removed.len() - i,
    {
        let db = removed[i].db.as_str();
        let ghost was = lookups@;
        proof {
            assert(ids.take(i + 1).drop_last() =~= ids.take(i as int));
            assert(ids.take(i + 1).last() == ids[i as int]);
            assert forall|n: Seq<char>| #[trigger] count_of(ids.take(i + 1), n) == count_of(
                ids.take(i as int),
                n,
            ) + if n == db@ {
                1nat
            } else {
                0nat
            } by {}
        }
        if has_name(kept, db) {
            match lookups.remove(db) {
                Some(state) => {
                    let mut state = state;
                    state.dynamic_pools_destroyed = state.dynamic_pools_destroyed.wrapping_add(1);
                    let _ = lookups.insert(removed[i].db.clone(), state);
                },
                None => {
                    assert(lookups@ =~= was);
                },
            }
        }
        proof {
            assert forall|n: Seq<char>| before.contains_key(n) implies #[trigger] lookups@[n] == (
            AuthQueryState {
                dynamic_pools_destroyed: if names.contains(n) {
                    raised(before[n].dynamic_pools_destroyed, count_of(ids.take(i + 1), n))
                } else {
                    before[n].dynamic_pools_destroyed
                },
                ..before[n]
            }) by {
                assert(was.contains_key(n));
                assert(was[n] == (AuthQueryState {
                    dynamic_pools_destroyed: if names.contains(n) {
                        raised(before[n].dynamic_pools_destroyed, count_of(ids.take(i as int), n))
                    } else {
                        before[n].dynamic_pools_destroyed
                    },
                    ..before[n]
                }));
                assert(count_of(ids.take(i + 1), n) == count_of(ids.take(i as int), n) + if n
                    == db@ {
                    1nat
                } else {
                    0nat
                });
            }
        }
        i = i + 1;
    }
    assert(ids.take(ids.len() as int) =~= ids);
}

/// What a reload leaves to be done.
pub struct Reloaded {
    /// Pools that are no longer found; their connections are closed as they come
    /// back.
    pub retired: Vec<ConnectionPool>,
    /// Databases whose looked up users have to be looked up again.
    pub cleared: Vec<String>,
    /// Pools of looked up users that were dropped.
    pub removed: Vec<PoolIdentifier>,
}

/// All pools of looked up users are made anew: the general configuration that they
/// were made from has changed.
pub open spec fn general_changed(previous: u64, general: General) -> bool {
    previous != 0 && previous != digest::digest_of(general.startup_writes())
}

/// The pool of a looked up user that is taken over.
pub open spec fn carried(before: Registry, config: Config, id: Id) -> bool {
    &&& before.dynamic@.contains_key(id)
    &&& !dropped(
        before.auth_query@,
        config,
        general_changed(before.previous_general_startup_hash, config.general),
        id,
    )
    &&& before.pools@.contains_key(id)
}

/// Which pools there are after the configuration was read.
pub open spec fn pool_stays(before: Registry, config: Config, id: Id) -> bool {
    ||| static_user(config.pools@, id).is_some()
    ||| is_shared(config.pools@, id) && (lookup_kept(
        before.auth_query@,
        config.pools@,
        config.general,
        id.0,
    ) ==> before.pools@.contains_key(id))
    ||| carried(before, config, id)
}

/// What a pool is after the configuration was read.
pub open spec fn pool_becomes(
    before: Registry,
    config: Config,
    loaded: Loaded,
    id: Id,
    p: ConnectionPool,
) -> bool {
    let hash = pool_fingerprint(config.pools@[id.0], config.general);
    if static_user(config.pools@, id).is_some() {
        static_after(
            before.pools@,
            before.dynamic@,
            p,
            id,
            static_user(config.pools@, id).unwrap(),
            plan_of(config, loaded, id.0),
            hash,
        )
    } else if is_shared(config.pools@, id) && !lookup_kept(
        before.auth_query@,
        config.pools@,
        config.general,
        id.0,
    ) {
        made_shared(
            p,
            config.pools@[id.0].auth_query.unwrap(),
            plan_of(config, loaded, id.0),
            hash,
        )
    } else {
        p == before.pools@[id]
    }
}

/// An old pool that does not stay: a configured user's is made anew if it does
/// not fit, a shared one if its lookup has changed, and any other goes unless it
/// is taken over.
pub open spec fn gives_way(before: Registry, config: Config, loaded: Loaded, id: Id) -> bool {
    &&& before.pools@.contains_key(id)
    &&& if static_user(config.pools@, id).is_some() {
        replaced_static(before.pools@, before.dynamic@, config.pools@, config, loaded, id)
    } else if is_shared(config.pools@, id) {
        !lookup_kept(before.auth_query@, config.pools@, config.general, id.0)
    } else {
        !carried(before, config, id)
    }
}

/// A lookup after the configuration was read.
pub open spec fn lookup_becomes(
    before: Registry,
    config: Config,
    removed: Seq<Id>,
    name: Seq<char>,
    s: AuthQueryState,
) -> bool {
    if lookup_kept(before.auth_query@, config.pools@, config.general, name) {
        s == (AuthQueryState {
            dynamic_pools_destroyed: raised(
                before.auth_query@[name].dynamic_pools_destroyed,
                count_of(removed, name),
            ),
            ..before.auth_query@[name]
        })
    } else {
        made_lookup(s, name, config.pools@[name], config.general)
    }
}

/// The pools after the configuration was read.
pub open spec fn reload_of(
    before: Registry,
    after: Registry,
    config: Config,
    loaded: Loaded,
    r: Reloaded,
) -> bool {
    let all = general_changed(before.previous_general_startup_hash, config.general);
    &&& after.wf()
    &&& coordinators_after(before.coordinators@, after.coordinators@, config.pools@)
    &&& forall|id: Id| #[trigger]
        after.pools@.contains_key(id) <==> pool_stays(before, config, id)
    &&& forall|id: Id|
        #![trigger after.pools@[id]]
        after.pools@.contains_key(id) ==> pool_becomes(before, config, loaded, id, after.pools@[id])
    &&& forall|id: Id| #[trigger]
        after.dynamic@.contains_key(id) <==> before.dynamic@.contains_key(id) && !dropped(
            before.auth_query@,
            config,
            all,
            id,
        )
    &&& forall|n: Seq<char>| #[trigger]
        after.auth_query@.contains_key(n) <==> config.pools@.contains_key(n)
            && config.pools@[n].auth_query.is_some()
    &&& forall|n: Seq<char>|
        #![trigger after.auth_query@[n]]
        after.auth_query@.contains_key(n) ==> lookup_becomes(
            before,
            config,
            ids_of(r.removed@),
            n,
            after.auth_query@[n],
        )
    &&& after.previous_general_startup_hash == digest::digest_of(config.general.startup_writes())
    &&& after.clients_mapped
    &&& forall|n: Seq<char>| #[trigger]
        listed_names(r.cleared@).contains(n) <==> before.auth_query@.contains_key(n)
            && !lookup_kept(before.auth_query@, config.pools@, config.general, n)
    &&& ids_of(r.removed@).no_duplicates()
    &&& forall|id: Id| #[trigger]
        ids_of(r.removed@).contains(id) <==> before.dynamic@.contains_key(id) && dropped(
            before.auth_query@,
            config,
            all,
            id,
        )
    &&& forall|id: Id| #[trigger]
        gives_way(before, config, loaded, id) ==> r.retired@.contains(before.pools@[id])
    &&& forall|p: ConnectionPool| #[trigger]
        r.retired@.contains(p) ==> exists|id: Id| #[trigger]
            gives_way(before, config, loaded, id) && before.pools@[id] == p
}

/// The first database whose TLS settings could not be read, and why.
pub open spec fn first_failure(config: Config, loaded: Loaded, e: Error) -> bool {
    let s = config.pools.listing();
    exists|i: int|
        0 <= i < s.len() && loaded[(#[trigger] s[i]).0] == Err::<ServerTlsConfig, Error>(e) && (
        forall|j: int| 0 <= j < i ==> loaded[(#[trigger] s[j]).0] is Ok)
}

/// Whether the TLS settings of all databases could be read.
fn check_loaded(config: &Config, loaded: &StringMap<Result<ServerTlsConfig, Error>>) -> (r: Result<
    (),
    Error,
>)
    requires
        forall|n: Seq<char>| #[trigger] config.pools@.contains_key(n) ==> loaded@.contains_key(n),
    ensures
        match r {
            Ok(_) => all_loaded(*config, loaded@),
            Err(e) => first_failure(*config, loaded@, e),
        },
{
    let n: usize = config.pools.len();
    let ghost s = config.pools.listing();
    let mut i: usize = 0;
    while i < n
        invariant
            i <= n == s.len(),
            s == config.pools.listing(),
            string_map::unique_keys(s),
            forall|x: Seq<char>| #[trigger]
                config.pools@.contains_key(x) ==> loaded@.contains_key(x),
            forall|j: int| 0 <= j < i ==> loaded@[(#[trigger] s[j]).0] is Ok,
        decreases n - i,
    {
        proof {
            string_map::listed_entry(s, i as int);
            assert(config.pools@.contains_key(s[i as int].0));
        }
        let name = config.pools.key(i);
        match loaded.get(name.as_str()) {
            Some(result) => match result {
                Ok(_tls) => {},
                Err(e) => {
                    let e = e.clone();
                    assert(loaded@[s[i as int].0] == Err::<ServerTlsConfig, Error>(e));
                    return Err(e);
                },
            },
            None => {
                assert(false);
            },
        }
        i = i + 1;
    }
    proof {
        assert forall|x: Seq<char>| #[trigger] config.pools@.contains_key(x) implies loaded@[x]
            is Ok by {
            let j = string_map::listed_key(s, x);
            assert(s[j].0 == x);
        }
    }
    Ok(())
}

/// Adds what is left of the old pools to those that are retired.
fn retire(rest: IdMap<ConnectionPool>, retired: &mut Vec<ConnectionPool>)
    ensures
        forall|p: ConnectionPool| #[trigger]
            final(retired)@.contains(p) <==> old(retired)@.contains(p) || exists|id: Id| #[trigger]
                rest@.contains_key(id) && rest@[id] == p,
{
    let mut rest = rest;
    let ghost start = rest@;
    let ghost before = retired@;
    let mut n: usize = rest.len();
    while n > 0
        invariant
            n == rest.listing().len(),
            before == old(retired)@,
            forall|id: Id| #[trigger]
                rest@.contains_key(id) ==> start.contains_key(id) && start[id] == rest@[id],
            forall|id: Id|
                #![trigger start.contains_key(id)]
                start.contains_key(id) && !rest@.contains_key(id) ==> retired@.contains(start[id]),
            forall|p: ConnectionPool| before.contains(p) ==> #[trigger] retired@.contains(p),
            forall|p: ConnectionPool| #[trigger]
                retired@.contains(p) ==> before.contains(p) || exists|id: Id| #[trigger]
                    start.contains_key(id) && start[id] == p,
        decreases n,
    {
        let ghost was = retired@;
        let ghost rest0 = rest@;
        match rest.pop() {
            Some((id, pool)) => {
                let ghost key = id@;
                retired.push(pool);
                proof {
                    assert(rest0.contains_key(key));
                    assert forall|p: ConnectionPool| #[trigger]
                        retired@.contains(p) <==> was.contains(p) || p == pool by {
                        pushed(was, pool, p);
                    }
                    assert(start.contains_key(key) && start[key] == pool);
                }
            },
            None => {
                assert(false);
            },
        }
        n = n - 1;
    }
    proof {
        assert(rest.listing() =~= Seq::<(Id, ConnectionPool)>::empty());
        string_map::listed_empty::<Id, ConnectionPool>();
        assert forall|p: ConnectionPool| #[trigger] retired@.contains(p) <==> before.contains(p)
            || exists|id: Id| #[trigger] start.contains_key(id) && start[id] == p by {
            if exists|id: Id| #[trigger] start.contains_key(id) && start[id] == p {
                let id = choose|id: Id| #[trigger] start.contains_key(id) && start[id] == p;
                assert(!rest@.contains_key(id));
            }
        }
    }
}

/// The steps of a reload together.
proof fn pools_come_together(
    before: Registry,
    config: Config,
    loaded: Loaded,
    statics: (Map<Id, ConnectionPool>, Map<Id, ConnectionPool>, Seq<ConnectionPool>),
    shared: (Map<Id, ConnectionPool>, Map<Id, ConnectionPool>),
    done: (Map<Id, ConnectionPool>, Map<Id, ConnectionPool>),
    dynamic: Map<Id, ()>,
    removed: Seq<Id>,
)
    requires
        statics_after(before.pools@, before.dynamic@, statics.0, config.pools@, config, loaded),
        rest_after(before.pools@, before.dynamic@, statics.1, statics.2, config.pools@, config, loaded),
        shared_after(
            before.auth_query@,
            statics.1,
            statics.0,
            shared.0,
            config.pools@,
            config,
            loaded,
        ),
        rest_after_shared(
            before.auth_query@,
            statics.1,
            shared.1,
            statics.0,
            config.pools@,
            config.general,
        ),
        dynamic_after(
            before.auth_query@,
            config,
            general_changed(before.previous_general_startup_hash, config.general),
            before.dynamic@,
            shared.1,
            shared.0,
            done.0,
            done.1,
            dynamic,
            removed,
        ),
    ensures
        forall|id: Id| #[trigger] done.0.contains_key(id) <==> pool_stays(before, config, id),
        forall|id: Id|
            #![trigger done.0[id]]
            done.0.contains_key(id) ==> pool_becomes(before, config, loaded, id, done.0[id]),
        forall|id: Id|
            #![trigger before.pools@.contains_key(id)]
            before.pools@.contains_key(id) ==> went(before, config, loaded, done.1, id),
        forall|id: Id| #[trigger]
            done.1.contains_key(id) ==> before.pools@.contains_key(id) && done.1[id]
                == before.pools@[id],
{
    assert forall|id: Id|
        #![trigger done.0[id]]
        #![trigger done.0.contains_key(id)]
        (done.0.contains_key(id) <==> pool_stays(before, config, id)) && (done.0.contains_key(id)
            ==> pool_becomes(before, config, loaded, id, done.0[id])) by {
        one_pool(before, config, loaded, statics, shared, done, dynamic, removed, id);
    }
    assert forall|id: Id|
        #![trigger before.pools@.contains_key(id)]
        before.pools@.contains_key(id) implies went(before, config, loaded, done.1, id) by {
        one_pool(before, config, loaded, statics, shared, done, dynamic, removed, id);
    }
    assert forall|id: Id| #[trigger] done.1.contains_key(id) implies before.pools@.contains_key(id)
        && done.1[id] == before.pools@[id] by {
        one_pool(before, config, loaded, statics, shared, done, dynamic, removed, id);
    }
}

/// An old pool gives way exactly if it is a configured user's that is made anew
/// or is left over in the end.
spec fn went(
    before: Registry,
    config: Config,
    loaded: Loaded,
    left: Map<Id, ConnectionPool>,
    id: Id,
) -> bool {
    gives_way(before, config, loaded, id) <==> left.contains_key(id) || replaced_static(
        before.pools@,
        before.dynamic@,
        config.pools@,
        config,
        loaded,
        id,
    )
}

/// What the steps of a reload do to one pool.
proof fn one_pool(
    before: Registry,
    config: Config,
    loaded: Loaded,
    statics: (Map<Id, ConnectionPool>, Map<Id, ConnectionPool>, Seq<ConnectionPool>),
    shared: (Map<Id, ConnectionPool>, Map<Id, ConnectionPool>),
    done: (Map<Id, ConnectionPool>, Map<Id, ConnectionPool>),
    dynamic: Map<Id, ()>,
    removed: Seq<Id>,
    id: Id,
)
    requires
        statics_after(before.pools@, before.dynamic@, statics.0, config.pools@, config, loaded),
        rest_after(before.pools@, before.dynamic@, statics.1, statics.2, config.pools@, config, loaded),
        shared_after(
            before.auth_query@,
            statics.1,
            statics.0,
            shared.0,
            config.pools@,
            config,
            loaded,
        ),
        rest_after_shared(
            before.auth_query@,
            statics.1,
            shared.1,
            statics.0,
            config.pools@,
            config.general,
        ),
        dynamic_after(
            before.auth_query@,
            config,
            general_changed(before.previous_general_startup_hash, config.general),
            before.dynamic@,
            shared.1,
            shared.0,
            done.0,
            done.1,
            dynamic,
            removed,
        ),
    ensures
        done.0.contains_key(id) <==> pool_stays(before, config, id),
        done.0.contains_key(id) ==> pool_becomes(before, config, loaded, id, done.0[id]),
        before.pools@.contains_key(id) ==> went(before, config, loaded, done.1, id),
        done.1.contains_key(id) ==> before.pools@.contains_key(id) && done.1[id]
            == before.pools@[id],
{
    let all = general_changed(before.previous_general_startup_hash, config.general);
    assert(statics.0.contains_key(id) <==> static_user(config.pools@, id).is_some());
    assert(statics.1.contains_key(id) <==> before.pools@.contains_key(id) && static_user(
        config.pools@,
        id,
    ).is_none());
    assert(shared.0.contains_key(id) <==> statics.0.contains_key(id) || (is_shared(
        config.pools@,
        id,
    ) && (lookup_kept(before.auth_query@, config.pools@, config.general, id.0)
        ==> statics.1.contains_key(id))));
    assert(shared.1.contains_key(id) <==> statics.1.contains_key(id) && !shared_moved(
        before.auth_query@,
        statics.1,
        statics.0,
        config.pools@,
        config.general,
        id,
    ));
    assert(done.0.contains_key(id) <==> shared.0.contains_key(id) || (before.dynamic@.contains_key(
        id,
    ) && !dropped(before.auth_query@, config, all, id) && shared.1.contains_key(id)));
    assert(done.1.contains_key(id) <==> shared.1.contains_key(id) && !(before.dynamic@.contains_key(
        id,
    ) && !dropped(before.auth_query@, config, all, id) && !shared.0.contains_key(id)));
    if statics.1.contains_key(id) {
        assert(statics.1[id] == before.pools@[id]);
    }
    if shared.1.contains_key(id) {
        assert(shared.1[id] == statics.1[id]);
    }
    if done.1.contains_key(id) {
        assert(done.1[id] == shared.1[id]);
    }
    if done.0.contains_key(id) {
        assert(done.0[id] == if shared.0.contains_key(id) {
            shared.0[id]
        } else {
            shared.1[id]
        });
    }
    if statics.0.contains_key(id) {
        assert(shared.0[id] == statics.0[id]);
        assert(static_after(
            before.pools@,
            before.dynamic@,
            statics.0[id],
            id,
            static_user(config.pools@, id).unwrap(),
            plan_of(config, loaded, id.0),
            pool_fingerprint(config.pools@[id.0], config.general),
        ));
    } else if shared.0.contains_key(id) {
        assert(shared.0[id] == shared.0[id]);
    }
    if before.pools@.contains_key(id) && static_user(config.pools@, id).is_some() && !reusable(
        before.pools@,
        before.dynamic@,
        id,
        pool_fingerprint(config.pools@[id.0], config.general),
        plan_of(config, loaded, id.0).tls,
    ) {
        assert(statics.2.contains(before.pools@[id]));
    }
}

impl ConnectionPool {
    /// Brings the pools to the configuration that was read. Pools that still fit
    /// stay as they are, with their connections; the others are made anew. If the
    /// TLS settings of a database could not be read no pool changes. From now on
    /// it is recorded which client works with which backend.
    pub fn from_config(
        registry: &mut Registry,
        config: &Config,
        loaded: &StringMap<Result<ServerTlsConfig, Error>>,
    ) -> (r: Result<Reloaded, Error>)
        requires
            old(registry).wf(),
            forall|n: Seq<char>| #[trigger]
                config.pools@.contains_key(n) ==> loaded@.contains_key(n),
        ensures
            match r {
                Ok(reloaded) => all_loaded(*config, loaded@) && reload_of(
                    *old(registry),
                    *final(registry),
                    *config,
                    loaded@,
                    reloaded,
                ),
                Err(e) => first_failure(*config, loaded@, e) && *final(registry) == (Registry {
                    clients_mapped: true,
                    ..*old(registry)
                }),
            },
    {
        registry.clients_mapped = true;
        match check_loaded(config, loaded) {
            Ok(_) => {},
            Err(e) => {
                return Err(e);
            },
        }
        let ghost before = *old(registry);
        let general_hash: u64 = config.general.startup_hash();
        let all = registry.previous_general_startup_hash != 0
            && registry.previous_general_startup_hash != general_hash;
        let (kept, changed) = part_lookups(&registry.auth_query, config);
        let coordinators = reload_coordinators(&mut registry.coordinators, config);
        let mut rest: IdMap<ConnectionPool> = IdMap::new();
        std::mem::swap(&mut rest, &mut registry.pools);
        let ghost old_pools = rest@;
        let mut retired: Vec<ConnectionPool> = Vec::new();
        let mut pools = reload_statics(&mut rest, &registry.dynamic, &mut retired, config, loaded);
        let ghost statics = pools@;
        let ghost rest1 = rest@;
        let mut lookups = reload_lookups(
            &mut registry.auth_query,
            &mut rest,
            &mut pools,
            config,
            loaded,
        );
        let ghost with_shared = pools@;
        let ghost rest2 = rest@;
        let ghost fresh_lookups = lookups@;
        let (dynamic, removed) = reload_dynamic(
            &registry.dynamic,
            &mut rest,
            &mut pools,
            config,
            &changed,
            all,
            Ghost(before.auth_query@),
        );
        let ghost rest3 = rest@;
        let ghost retired1 = retired@;
        count_destroyed(&mut lookups, &kept, &removed);
        retire(rest, &mut retired);
        registry.pools = pools;
        registry.dynamic = dynamic;
        registry.coordinators = coordinators;
        registry.auth_query = lookups;
        registry.previous_general_startup_hash = general_hash;
        let reloaded = Reloaded { retired, cleared: changed, removed };
        proof {
            pools_come_together(
                before,
                *config,
                loaded@,
                (statics, rest1, retired1),
                (with_shared, rest2),
                (registry.pools@, rest3),
                registry.dynamic@,
                ids_of(reloaded.removed@),
            );
            assert forall|id: Id| #[trigger]
                gives_way(before, *config, loaded@, id) implies reloaded.retired@.contains(
                before.pools@[id],
            ) by {
                assert(went(before, *config, loaded@, rest3, id));
                if rest3.contains_key(id) {
                    assert(reloaded.retired@.contains(rest3[id]));
                } else {
                    assert(retired1.contains(before.pools@[id]));
                }
            }
            assert forall|p: ConnectionPool| #[trigger]
                reloaded.retired@.contains(p) implies exists|id: Id| #[trigger]
                gives_way(before, *config, loaded@, id) && before.pools@[id] == p by {
                if retired1.contains(p) {
                    let id = choose|id: Id| #[trigger]
                        replaced_static(
                            before.pools@,
                            before.dynamic@,
                            config.pools@,
                            *config,
                            loaded@,
                            id,
                        ) && before.pools@[id] == p;
                    assert(gives_way(before, *config, loaded@, id));
                } else {
                    let id = choose|id: Id| #[trigger] rest3.contains_key(id) && rest3[id] == p;
                    assert(before.pools@.contains_key(id));
                    assert(went(before, *config, loaded@, rest3, id));
                    assert(gives_way(before, *config, loaded@, id));
                }
            }
            assert forall|n: Seq<char>|
                #![trigger registry.auth_query@[n]]
                registry.auth_query@.contains_key(n) implies lookup_becomes(
                before,
                *config,
                ids_of(reloaded.removed@),
                n,
                registry.auth_query@[n],
            ) by {
                assert(fresh_lookups.contains_key(n));
                assert(listed_names(kept@).contains(n) <==> lookup_kept(
                    before.auth_query@,
                    config.pools@,
                    config.general,
                    n,
                ));
                if lookup_kept(before.auth_query@, config.pools@, config.general, n) {
                    assert(fresh_lookups[n] == before.auth_query@[n]);
                } else {
                    assert(made_lookup(fresh_lookups[n], n, config.pools@[n], config.general));
                }
            }
            assert(registry.wf()) by {
                assert forall|n: Seq<char>| #[trigger]
                    registry.auth_query@.contains_key(n) implies registry::opt_id(
                    registry.auth_query@[n].shared_pool_id,
                ) == registry::shared_id(n, registry.auth_query@[n].config) by {
                    assert(lookup_becomes(
                        before,
                        *config,
                        ids_of(reloaded.removed@),
                        n,
                        registry.auth_query@[n],
                    ));
                    if lookup_kept(before.auth_query@, config.pools@, config.general, n) {
                        assert(before.auth_query@.contains_key(n));
                    }
                }
            }
        }
        Ok(reloaded)
    }
}

/// The pools are those of this configuration: a reload brings them in line with
/// it, and what clients do keeps them so.
pub open spec fn in_line(r: Registry, config: Config, loaded: Loaded) -> bool {
    &&& r.previous_general_startup_hash == digest::digest_of(config.general.startup_writes())
    &&& forall|n: Seq<char>| #[trigger]
        r.auth_query@.contains_key(n) <==> config.pools@.contains_key(n)
            && config.pools@[n].auth_query.is_some()
    &&& forall|n: Seq<char>| #[trigger]
        r.auth_query@.contains_key(n) ==> lookup_kept(
            r.auth_query@,
            config.pools@,
            config.general,
            n,
        )
    &&& forall|n: Seq<char>| #[trigger]
        r.coordinators@.contains_key(n) <==> config.pools@.contains_key(n) && limit_of(
            config.pools@[n],
        ) > 0
    &&& forall|n: Seq<char>| #[trigger]
        r.coordinators@.contains_key(n) ==> r.coordinators@[n].config == coordinator_config(
            config.pools@[n],
        )
    &&& forall|id: Id|
        #![trigger static_user(config.pools@, id)]
        static_user(config.pools@, id).is_some() ==> reusable(
            r.pools@,
            r.dynamic@,
            id,
            pool_fingerprint(config.pools@[id.0], config.general),
            plan_of(config, loaded, id.0).tls,
        )
    &&& forall|id: Id| #[trigger]
        r.pools@.contains_key(id) ==> r.dynamic@.contains_key(id) || static_user(
            config.pools@,
            id,
        ).is_some() || is_shared(config.pools@, id)
}

/// Pools that belong to a configured user, or are shared, and are still those of
/// the same configuration.
pub open spec fn keeps_configured(before: Registry, after: Registry) -> bool {
    &&& forall|id: Id| #[trigger]
        before.pools@.contains_key(id) && !before.dynamic@.contains_key(id) ==> {
            &&& after.pools@.contains_key(id)
            &&& !after.dynamic@.contains_key(id)
            &&& after.pools@[id].config_hash == before.pools@[id].config_hash
            &&& after.pools@[id].address.server_tls == before.pools@[id].address.server_tls
        }
    &&& forall|id: Id| #[trigger]
        after.pools@.contains_key(id) ==> after.dynamic@.contains_key(id)
            || before.pools@.contains_key(id)
    &&& forall|id: Id| #[trigger]
        after.pools@.contains_key(id) && before.dynamic@.contains_key(id)
            ==> after.dynamic@.contains_key(id)
}

/// The lookups and limits are still those of the same configuration.
pub open spec fn keeps_databases(before: Registry, after: Registry) -> bool {
    &&& after.previous_general_startup_hash == before.previous_general_startup_hash
    &&& forall|n: Seq<char>| #[trigger]
        after.auth_query@.contains_key(n) <==> before.auth_query@.contains_key(n)
    &&& forall|n: Seq<char>| #[trigger]
        after.auth_query@.contains_key(n) ==> {
            &&& after.auth_query@[n].config == before.auth_query@[n].config
            &&& after.auth_query@[n].pool_startup_hash == before.auth_query@[n].pool_startup_hash
            &&& after.auth_query@[n].parent_fingerprint == before.auth_query@[n].parent_fingerprint
        }
    &&& forall|n: Seq<char>| #[trigger]
        after.coordinators@.contains_key(n) <==> before.coordinators@.contains_key(n)
    &&& forall|n: Seq<char>| #[trigger]
        after.coordinators@.contains_key(n) ==> after.coordinators@[n].config
            == before.coordinators@[n].config
}

/// A reload brings the pools in line with the configuration.
pub proof fn reload_brings_in_line(
    before: Registry,
    after: Registry,
    config: Config,
    loaded: Loaded,
    r: Reloaded,
)
    requires
        reload_of(before, after, config, loaded, r),
    ensures
        in_line(after, config, loaded),
{
    assert forall|n: Seq<char>| #[trigger] after.auth_query@.contains_key(n) implies lookup_kept(
        after.auth_query@,
        config.pools@,
        config.general,
        n,
    ) by {
        assert(lookup_becomes(before, config, ids_of(r.removed@), n, after.auth_query@[n]));
    }
    assert forall|id: Id|
        #![trigger static_user(config.pools@, id)]
        static_user(config.pools@, id).is_some() implies reusable(
        after.pools@,
        after.dynamic@,
        id,
        pool_fingerprint(config.pools@[id.0], config.general),
        plan_of(config, loaded, id.0).tls,
    ) by {
        assert(pool_stays(before, config, id));
        assert(pool_becomes(before, config, loaded, id, after.pools@[id]));
    }
    assert forall|id: Id| #[trigger]
        after.pools@.contains_key(id) implies after.dynamic@.contains_key(id) || static_user(
        config.pools@,
        id,
    ).is_some() || is_shared(config.pools@, id) by {
        assert(pool_stays(before, config, id));
    }
}

/// The pools stay in line with the configuration while connections come and go,
/// limits count them, and pools of looked up users are made and removed.
pub proof fn in_line_is_kept(before: Registry, after: Registry, config: Config, loaded: Loaded)
    requires
        in_line(before, config, loaded),
        keeps_configured(before, after),
        keeps_databases(before, after),
    ensures
        in_line(after, config, loaded),
{
    assert forall|id: Id|
        #![trigger static_user(config.pools@, id)]
        static_user(config.pools@, id).is_some() implies reusable(
        after.pools@,
        after.dynamic@,
        id,
        pool_fingerprint(config.pools@[id.0], config.general),
        plan_of(config, loaded, id.0).tls,
    ) by {
        assert(before.pools@.contains_key(id));
    }
    assert forall|id: Id| #[trigger]
        after.pools@.contains_key(id) implies after.dynamic@.contains_key(id) || static_user(
        config.pools@,
        id,
    ).is_some() || is_shared(config.pools@, id) by {
        if before.pools@.contains_key(id) {}
    }
}

/// Reading a configuration again that the pools are in line with changes nothing:
/// there are the same pools under the same names, with their connections, the
/// same limits with what they have counted, and the same lookups.
pub proof fn same_configuration_keeps_every_pool(
    now: Registry,
    again: Registry,
    config: Config,
    loaded: Loaded,
    r: Reloaded,
)
    requires
        in_line(now, config, loaded),
        forall|id: Id| #[trigger]
            now.dynamic@.contains_key(id) ==> now.pools@.contains_key(id) && static_user(
                config.pools@,
                id,
            ).is_none(),
        reload_of(now, again, config, loaded, r),
    ensures
        again.pools@ == now.pools@,
        again.dynamic@ == now.dynamic@,
        again.coordinators@ == now.coordinators@,
        again.auth_query@ == now.auth_query@,
        r.removed@.len() == 0,
        r.cleared@.len() == 0,
        r.retired@.len() == 0,
{
    let all = general_changed(now.previous_general_startup_hash, config.general);
    assert(!all);
    assert forall|id: Id| now.dynamic@.contains_key(id) implies !#[trigger] dropped(
        now.auth_query@,
        config,
        all,
        id,
    ) by {}
    assert(again.dynamic@ =~= now.dynamic@);
    if r.removed@.len() > 0 {
        assert(ids_of(r.removed@).contains(ids_of(r.removed@)[0]));
    }
    if r.cleared@.len() > 0 {
        assert(listed_names(r.cleared@).contains(listed_names(r.cleared@)[0]));
    }
    assert(ids_of(r.removed@) =~= Seq::<Id>::empty());
    assert forall|n: Seq<char>| #[trigger] again.auth_query@.contains_key(n) implies again.auth_query@[n]
        == now.auth_query@[n] by {
        assert(lookup_becomes(now, config, ids_of(r.removed@), n, again.auth_query@[n]));
        assert(now.auth_query@.contains_key(n));
        assert(count_of(ids_of(r.removed@), n) == 0);
    }
    assert(again.auth_query@ =~= now.auth_query@);
    assert forall|n: Seq<char>| #[trigger]
        again.coordinators@.contains_key(n) implies again.coordinators@[n]
        == now.coordinators@[n] by {
        assert(now.coordinators@.contains_key(n));
        assert(coordinator_after(
            now.coordinators@,
            again.coordinators@[n],
            n,
            config.pools@[n],
        ));
    }
    assert(again.coordinators@ =~= now.coordinators@);
    assert forall|id: Id| #[trigger]
        again.pools@.contains_key(id) <==> now.pools@.contains_key(id) by {
        assert(again.pools@.contains_key(id) <==> pool_stays(now, config, id));
        if is_shared(config.pools@, id) {
            assert(now.auth_query@.contains_key(id.0));
        }
    }
    assert forall|id: Id| #[trigger] again.pools@.contains_key(id) implies again.pools@[id]
        == now.pools@[id] by {
        assert(pool_becomes(now, config, loaded, id, again.pools@[id]));
        if is_shared(config.pools@, id) {
            assert(now.auth_query@.contains_key(id.0));
        }
    }
    assert(again.pools@ =~= now.pools@);
    assert forall|id: Id| !#[trigger] gives_way(now, config, loaded, id) by {
        if is_shared(config.pools@, id) {
            assert(now.auth_query@.contains_key(id.0));
        }
        if now.pools@.contains_key(id) && now.dynamic@.contains_key(id) {
            assert(!dropped(now.auth_query@, config, all, id));
        }
    }
    if r.retired@.len() > 0 {
        assert(r.retired@.contains(r.retired@[0]));
    }
}

/// A configured user takes the place of a looked up one: after a reload the pool
/// is the configured user's, made anew, and no looked up user's.
pub proof fn configured_users_take_over(
    before: Registry,
    after: Registry,
    config: Config,
    loaded: Loaded,
    r: Reloaded,
    id: Id,
)
    requires
        reload_of(before, after, config, loaded, r),
        before.dynamic@.contains_key(id),
        static_user(config.pools@, id).is_some(),
    ensures
        after.pools@.contains_key(id),
        !after.dynamic@.contains_key(id),
        made_static(
            after.pools@[id],
            static_user(config.pools@, id).unwrap(),
            plan_of(config, loaded, id.0),
            pool_fingerprint(config.pools@[id.0], config.general),
        ),
{
    assert(pool_stays(before, config, id));
    assert(pool_becomes(before, config, loaded, id, after.pools@[id]));
}

/// A pool of a looked up user survives a reload only if nothing that it was made
/// from has changed, and never in place of a configured user's pool.
pub proof fn stale_dynamic_pools_are_dropped(
    before: Registry,
    after: Registry,
    config: Config,
    loaded: Loaded,
    r: Reloaded,
    id: Id,
)
    requires
        reload_of(before, after, config, loaded, r),
        before.dynamic@.contains_key(id),
        dropped(
            before.auth_query@,
            config,
            general_changed(before.previous_general_startup_hash, config.general),
            id,
        ),
    ensures
        !after.dynamic@.contains_key(id),
        after.pools@.contains_key(id) ==> static_user(config.pools@, id).is_some() || is_shared(
            config.pools@,
            id,
        ),
{
    if after.pools@.contains_key(id) {
        assert(pool_stays(before, config, id));
    }
}

/// After a reload every database has the limit that is configured for it, with the
/// reserve and the times of its configuration; what is counted stays exactly where the
/// limit is the same.
pub proof fn limits_follow_the_configuration(
    before: Registry,
    after: Registry,
    config: Config,
    loaded: Loaded,
    r: Reloaded,
    n: Seq<char>,
)
    requires
        reload_of(before, after, config, loaded, r),
        config.pools@.contains_key(n),
    ensures
        ({
            let pc = config.pools@[n];
            let c = after.coordinators@[n];
            &&& after.coordinators@.contains_key(n) <==> pc.max_db_connections.is_some()
                && pc.max_db_connections.unwrap() > 0
            &&& after.coordinators@.contains_key(n) ==> {
                &&& pc.max_db_connections == Some(c.config.max_db_connections as u32)
                &&& pc.reserve_pool_size matches Some(m) ==> c.config.reserve_pool_size == m
                &&& pc.reserve_pool_size.is_none() ==> c.config.reserve_pool_size == 0
                &&& pc.min_connection_lifetime matches Some(ms)
                    ==> c.config.min_connection_lifetime_ms == ms
                &&& pc.min_connection_lifetime.is_none() ==> c.config.min_connection_lifetime_ms
                    == 30_000
                &&& pc.reserve_pool_timeout matches Some(ms) ==> c.config.reserve_pool_timeout_ms
                    == ms
                &&& pc.reserve_pool_timeout.is_none() ==> c.config.reserve_pool_timeout_ms == 3_000
                &&& before.coordinators@.contains_key(n) && before.coordinators@[n].config
                    == c.config ==> c.main_in_use == before.coordinators@[n].main_in_use
                    && c.reserve_in_use == before.coordinators@[n].reserve_in_use
                &&& !before.coordinators@.contains_key(n) || before.coordinators@[n].config
                    != c.config ==> c.main_in_use == 0 && c.reserve_in_use == 0
            }
        }),
{
}

/// One of the users has this name.
pub open spec fn has_user(users: Seq<User>, name: Seq<char>) -> bool {
    exists|i: int| 0 <= i < users.len() && (#[trigger] users[i]).username@ == name
}

/// Of two users with the same name the later one counts, and every user counts who has
/// a name of their own.
pub proof fn last_user_of_a_name_counts(users: Seq<User>, name: Seq<char>)
    ensures
        user_named(users, name).is_some() <==> has_user(users, name),
        user_named(users, name) matches Some(u) ==> exists|i: int|
            0 <= i < users.len() && #[trigger] users[i] == u && u.username@ == name && (forall|
                j: int,
            |
                i < j < users.len() ==> (#[trigger] users[j]).username@ != name),
    decreases users.len(),
{
    if users.len() > 0 {
        let rest = users.skip(1);
        last_user_of_a_name_counts(rest, name);
        if has_user(users, name) && !has_user(rest, name) {
            let i = choose|i: int| 0 <= i < users.len() && (#[trigger] users[i]).username@ == name;
            if i > 0 {
                assert(rest[i - 1] == users[i]);
            }
        }
        if has_user(rest, name) {
            let i = choose|i: int|
                0 <= i < rest.len() && #[trigger] rest[i] == user_named(rest, name).unwrap()
                    && rest[i].username@ == name && (forall|j: int|
                    i < j < rest.len() ==> (#[trigger] rest[j]).username@ != name);
            assert(users[i + 1] == rest[i]);
            assert forall|j: int| i + 1 < j < users.len() implies (#[trigger] users[j]).username@
                != name by {
                assert(users[j] == rest[j - 1]);
            }
        } else if users[0].username@ == name {
            assert forall|j: int| 0 < j < users.len() implies (#[trigger] users[j]).username@
                != name by {
                assert(users[j] == rest[j - 1]);
            }
            assert(users[0] == user_named(users, name).unwrap());
        }
    }
}

/// Every configured user has a pool after a reload, and no looked up user's. The old one
/// stays, with its connections, exactly if it was made from the same configuration and
/// the same TLS settings; otherwise it is retired and a new one is made, without
/// connections and for the user as configured.
pub proof fn every_configured_user_has_a_pool(
    before: Registry,
    after: Registry,
    config: Config,
    loaded: Loaded,
    r: Reloaded,
    id: Id,
)
    requires
        reload_of(before, after, config, loaded, r),
        config.pools@.contains_key(id.0),
        has_user(config.pools@[id.0].users@, id.1),
    ensures
        ({
            let hash = pool_fingerprint(config.pools@[id.0], config.general);
            let p = after.pools@[id];
            let fits = before.pools@.contains_key(id) && !before.dynamic@.contains_key(id)
                && before.pools@[id].config_hash == hash && before.pools@[id].address.server_tls
                == loaded[id.0]->Ok_0;
            &&& after.pools@.contains_key(id)
            &&& !after.dynamic@.contains_key(id)
            &&& p.config_hash == hash
            &&& p.address.server_tls == loaded[id.0]->Ok_0
            &&& fits ==> p == before.pools@[id]
            &&& !fits ==> {
                &&& p.settings.user.username@ == id.1
                &&& config.pools@[id.0].users@.contains(p.settings.user)
                &&& p.database.idle@.len() == 0
                &&& p.database.config.max_size == p.settings.user.pool_size
                &&& p.address.host == config.pools@[id.0].server_host
                &&& p.address.port == config.pools@[id.0].server_port
                &&& p.settings.db@ == id.0
                &&& p.init_complete
                &&& p.database.setup.limited == (config.pools@[id.0].max_db_connections.is_some()
                    && config.pools@[id.0].max_db_connections.unwrap() > 0)
                &&& before.pools@.contains_key(id) ==> r.retired@.contains(before.pools@[id])
            }
        }),
{
    let users = config.pools@[id.0].users@;
    last_user_of_a_name_counts(users, id.1);
    let i = choose|i: int|
        0 <= i < users.len() && #[trigger] users[i] == user_named(users, id.1).unwrap()
            && users[i].username@ == id.1 && (forall|j: int|
            i < j < users.len() ==> (#[trigger] users[j]).username@ != id.1);
    assert(users.contains(users[i]));
    assert(static_user(config.pools@, id) == user_named(users, id.1));
    assert(pool_stays(before, config, id));
    assert(pool_becomes(before, config, loaded, id, after.pools@[id]));
    if before.pools@.contains_key(id) && !reusable(
        before.pools@,
        before.dynamic@,
        id,
        pool_fingerprint(config.pools@[id.0], config.general),
        plan_of(config, loaded, id.0).tls,
    ) {
        assert(gives_way(before, config, loaded, id));
    }
}

/// A pool that nobody is configured for any more, and that no looked up user has, is
/// retired by a reload.
pub proof fn forgotten_pools_are_retired(
    before: Registry,
    after: Registry,
    config: Config,
    loaded: Loaded,
    r: Reloaded,
    id: Id,
)
    requires
        reload_of(before, after, config, loaded, r),
        before.pools@.contains_key(id),
        !before.dynamic@.contains_key(id),
        config.pools@.contains_key(id.0) ==> !has_user(config.pools@[id.0].users@, id.1) && (
        config.pools@[id.0].auth_query matches Some(c) ==> (c.server_user matches Some(name)
            ==> name@ != id.1)),
    ensures
        !after.pools@.contains_key(id),
        r.retired@.contains(before.pools@[id]),
{
    if config.pools@.contains_key(id.0) {
        last_user_of_a_name_counts(config.pools@[id.0].users@, id.1);
    }
    assert(static_user(config.pools@, id).is_none());
    assert(!is_shared(config.pools@, id));
    assert(gives_way(before, config, loaded, id));
    assert(!pool_stays(before, config, id));
}

/// The pool of a looked up user stays as it is exactly if the user is not configured, the
/// lookup of the database is configured as before, and so is everything that sessions
/// depend on; otherwise it is removed and named among the removed ones.
pub proof fn looked_up_users_keep_their_pools(
    before: Registry,
    after: Registry,
    config: Config,
    loaded: Loaded,
    r: Reloaded,
    id: Id,
)
    requires
        reload_of(before, after, config, loaded, r),
        before.dynamic@.contains_key(id),
        before.pools@.contains_key(id),
        before.auth_query@.contains_key(id.0),
        config.pools@.contains_key(id.0),
    ensures
        ({
            let state = before.auth_query@[id.0];
            let pc = config.pools@[id.0];
            let now = digest::digest_of(config.general.startup_writes());
            let same = !has_user(pc.users@, id.1) && pc.auth_query.is_some()
                && config::auth_query_view(pc.auth_query.unwrap()) == config::auth_query_view(
                state.config,
            ) && state.pool_startup_hash == startup_digest(pc) && state.parent_fingerprint
                == parent_digest(pc, config.general) && (before.previous_general_startup_hash == 0
                || before.previous_general_startup_hash == now);
            &&& same <==> after.dynamic@.contains_key(id)
            &&& same ==> after.pools@.contains_key(id) && after.pools@[id] == before.pools@[id]
            &&& same <==> !ids_of(r.removed@).contains(id)
        }),
{
    last_user_of_a_name_counts(config.pools@[id.0].users@, id.1);
    let all = general_changed(before.previous_general_startup_hash, config.general);
    assert(static_user(config.pools@, id) == user_named(config.pools@[id.0].users@, id.1));
    if !dropped(before.auth_query@, config, all, id) {
        assert(carried(before, config, id));
        assert(pool_stays(before, config, id));
        assert(pool_becomes(before, config, loaded, id, after.pools@[id]));
    }
}

/// The cache of a lookup is cleared exactly if the lookup is gone or configured otherwise
/// than before; one that stays counts each of its removed pools once.
pub proof fn changed_lookups_are_cleared(
    before: Registry,
    after: Registry,
    config: Config,
    loaded: Loaded,
    r: Reloaded,
    n: Seq<char>,
)
    requires
        reload_of(before, after, config, loaded, r),
        before.auth_query@.contains_key(n),
    ensures
        !config.pools@.contains_key(n) || config.pools@[n].auth_query.is_none()
            ==> !after.auth_query@.contains_key(n) && listed_names(r.cleared@).contains(n),
        config.pools@.contains_key(n) && config.pools@[n].auth_query.is_some() ==> {
            let c = config.pools@[n].auth_query.unwrap();
            &&& after.auth_query@.contains_key(n)
            &&& config::auth_query_view(c) != config::auth_query_view(before.auth_query@[n].config)
                ==> listed_names(r.cleared@).contains(n) && after.auth_query@[n].config == c
                && after.auth_query@[n].dynamic_pools_created == 0
            &&& !listed_names(r.cleared@).contains(n) ==> after.auth_query@[n].config
                == before.auth_query@[n].config && after.auth_query@[n].dynamic_pools_created
                == before.auth_query@[n].dynamic_pools_created
            &&& !listed_names(r.cleared@).contains(n) && (forall|id: Id| #[trigger]
                ids_of(r.removed@).contains(id) ==> id.0 != n)
                ==> after.auth_query@[n].dynamic_pools_destroyed
                == before.auth_query@[n].dynamic_pools_destroyed
        },
{
    if config.pools@.contains_key(n) && config.pools@[n].auth_query.is_some() {
        assert(lookup_becomes(before, config, ids_of(r.removed@), n, after.auth_query@[n]));
        if forall|id: Id| #[trigger] ids_of(r.removed@).contains(id) ==> id.0 != n {
            none_counted(ids_of(r.removed@), n);
        }
    }
}

/// Pools of other databases are not counted.
proof fn none_counted(ids: Seq<Id>, name: Seq<char>)
    requires
        forall|id: Id| #[trigger] ids.contains(id) ==> id.0 != name,
    ensures
        count_of(ids, name) == 0,
    decreases ids.len(),
{
    if ids.len() > 0 {
        let front = ids.drop_last();
        assert forall|id: Id| #[trigger] front.contains(id) implies id.0 != name by {
            let i = choose|i: int| 0 <= i < front.len() && front[i] == id;
            assert(ids[i] == id);
            assert(ids.contains(id));
        }
        none_counted(front, name);
        assert(ids[ids.len() - 1] == ids.last());
        assert(ids.contains(ids.last()));
    }
}

/// A removed pool is counted for its own database, once each.
pub proof fn removed_pools_are_counted(ids: Seq<Id>, id: Id, name: Seq<char>, n: u64)
    ensures
        count_of(Seq::empty(), name) == 0,
        count_of(ids.push(id), name) == count_of(ids, name) + (if id.0 == name {
            1int
        } else {
            0int
        }),
        raised(n, 0) == n,
        n < u64::MAX ==> raised(n, 1) == n + 1,
{
    assert(ids.push(id).drop_last() =~= ids);
    reveal_with_fuel(raised, 2);
}

/// After a reload looked up users of a database that share a pool have it: as it was if
/// their lookup is the same, else a new one that logs in as the lookup says.
pub proof fn shared_pools_follow_the_lookup(
    before: Registry,
    after: Registry,
    config: Config,
    loaded: Loaded,
    r: Reloaded,
    id: Id,
)
    requires
        reload_of(before, after, config, loaded, r),
        config.pools@.contains_key(id.0),
        !has_user(config.pools@[id.0].users@, id.1),
        config.pools@[id.0].auth_query.is_some(),
        config.pools@[id.0].auth_query.unwrap().server_user.is_some(),
        config.pools@[id.0].auth_query.unwrap().server_user.unwrap()@ == id.1,
        !before.auth_query@.contains_key(id.0),
    ensures
        ({
            let c = config.pools@[id.0].auth_query.unwrap();
            let p = after.pools@[id];
            &&& after.pools@.contains_key(id)
            &&& p.settings.user.username@ == id.1
            &&& p.settings.user.pool_size == c.pool_size
            &&& p.database.config.max_size == c.pool_size
            &&& p.settings.user.server_username matches Some(name) && name@ == id.1
            &&& p.backend_auth.is_none()
            &&& p.address.host == config.pools@[id.0].server_host
            &&& p.init_complete
        }),
{
    last_user_of_a_name_counts(config.pools@[id.0].users@, id.1);
    assert(static_user(config.pools@, id).is_none());
    assert(is_shared(config.pools@, id));
    assert(pool_stays(before, config, id));
    assert(pool_becomes(before, config, loaded, id, after.pools@[id]));
}

/// A fingerprint sees every change of what a pool is made from: as long as none of the
/// digests that it is made of stand for two things, two databases with the same
/// fingerprint are configured in the same way, and so are their sessions in general.
pub proof fn fingerprints_see_every_change(
    p: ConfigPool,
    q: ConfigPool,
    g: General,
    h: General,
    known: Set<Seq<Seq<u8>>>,
)
    requires
        forall|x: Seq<Seq<u8>>, y: Seq<Seq<u8>>| #[trigger]
            known.contains(x) && #[trigger] known.contains(y) && digest::digest_of(x)
                == digest::digest_of(y) ==> x == y,
        known.contains(p.limit_writes(p.session_writes(Seq::empty()))),
        known.contains(q.limit_writes(q.session_writes(Seq::empty()))),
        known.contains(g.startup_writes()),
        known.contains(h.startup_writes()),
        known.contains(
            digest::number_writes(p.digest()) + digest::number_writes(
                digest::digest_of(g.startup_writes()),
            ),
        ),
        known.contains(
            digest::number_writes(q.digest()) + digest::number_writes(
                digest::digest_of(h.startup_writes()),
            ),
        ),
        config::countable(p),
        config::countable(q),
        string_map::in_order(string_map::texts(g.startup_parameters@)).len() <= u64::MAX,
        string_map::in_order(string_map::texts(h.startup_parameters@)).len() <= u64::MAX,
        pool_fingerprint(p, g) == pool_fingerprint(q, h),
    ensures
        config::same_sessions(p, q),
        config::same_limits(p, q),
        string_map::in_order(string_map::texts(g.startup_parameters@)) == string_map::in_order(
            string_map::texts(h.startup_parameters@),
        ),
        g.sync_server_parameters == h.sync_server_parameters,
        g.cleanup_server_connections == h.cleanup_server_connections,
{
    let a = digest::number_writes(p.digest());
    let b = digest::number_writes(digest::digest_of(g.startup_writes()));
    let c = digest::number_writes(q.digest());
    let d = digest::number_writes(digest::digest_of(h.startup_writes()));
    let w = a + b;
    assert(w == c + d);
    digest::whole_stands(w);
    digest::parts_stand(w, 0, a, b);
    digest::parts_stand(w, 0, c, d);
    digest::numbers_tell(w, 0, p.digest(), q.digest());
    digest::numbers_tell(
        w,
        1,
        digest::digest_of(g.startup_writes()),
        digest::digest_of(h.startup_writes()),
    );
    config::every_setting_is_written(p, q);
    config::every_general_setting_is_written(g, h);
}

} // verus!
