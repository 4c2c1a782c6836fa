//! Pools of users who are not configured but were looked up at their login.
use vstd::prelude::*;
use crate::config::{
    AuthQueryConfig, BackendAuthMethod, Config, Pool as ConfigPool, ServerTlsConfig, User,
};
use crate::errors::Error;
use crate::pool::connection_pool::{ConnectionPool, Recipe};
use crate::pool::id_map::PoolIdentifier;
use crate::pool::registry::{
    get_coordinator, get_pool_config, is_dynamic_pool, register_dynamic_pool,
    AuthQueryState, Registry,
};
use crate::string_map::StringMap;
use crate::text::concat;
#[allow(unused_imports)]
use crate::pool::connection_pool;
#[allow(unused_imports)]
use crate::pool::connection_pool::Plan;
#[allow(unused_imports)]
use crate::pool::id_map::Id;
#[allow(unused_imports)]
use crate::pool::reload;
#[allow(unused_imports)]
use crate::pool::reload::Loaded;
#[allow(unused_imports)]
use crate::string_map;
#[allow(unused_imports)]
use crate::text;

verus! {

/// Whether a pool is made anew because the user's startup parameters have
/// changed. The pool of a configured user never is.
pub fn should_rebuild_for_overlay_drift(live_hash: u64, fetched_hash: u64, is_dynamic: bool) -> (r:
    bool)
    ensures
        r == (live_hash != fetched_hash && is_dynamic),
{
    live_hash != fetched_hash && is_dynamic
}

/// What a login of a looked up user leads to.
#[derive(Debug, Clone, Copy, PartialEq, Eq, Structural)]
pub enum DynamicPool {
    /// The user has a pool already.
    Existing,
    /// The user has a new pool; so many connections are to be made ready.
    Created { prewarm: u32 },
}

/// The pool of the user is good as it is.
pub open spec fn is_current(registry: Registry, id: Id, hash: u64) -> bool {
    registry.pools@.contains_key(id) && !(registry.pools@[id].per_user_startup_overlay_hash != hash
        && registry.dynamic@.contains_key(id))
}

/// A pool after a login: the identity that it passes on is brought up to date, if
/// it is a looked up user's, passes one on and the user's startup parameters are
/// the same. The pool of a configured user is left alone.
pub open spec fn refreshed(
    p: ConnectionPool,
    dynamic: bool,
    hash: u64,
    auth: Option<BackendAuthMethod>,
) -> ConnectionPool {
    ConnectionPool {
        backend_auth: if dynamic && p.per_user_startup_overlay_hash == hash
            && p.backend_auth.is_some() && auth.is_some() {
            auth
        } else {
            p.backend_auth
        },
        ..p
    }
}

/// A looked up user.
pub open spec fn looked_up(user: User, username: Seq<char>, c: AuthQueryConfig) -> bool {
    &&& user.username@ == username
    &&& user.password@ == ""@
    &&& user.pool_size == c.pool_size
    &&& user.min_pool_size == if c.min_pool_size > 0 {
        Some(c.min_pool_size)
    } else {
        None
    }
    &&& user.server_username.is_some()
    &&& user.server_username.unwrap()@ == username
    &&& user.server_password.is_none()
    &&& user.pool_mode.is_none()
}

/// The new pool of a looked up user. Users who share a pool have no startup
/// parameters of their own.
pub open spec fn made_dynamic(
    p: ConnectionPool,
    username: Seq<char>,
    c: AuthQueryConfig,
    r: Plan,
    auth: Option<BackendAuthMethod>,
    overlay: Map<Seq<char>, Seq<char>>,
    hash: u64,
) -> bool {
    &&& looked_up(p.settings.user, username, c)
    &&& connection_pool::pool_of(p, p.settings.user, r, overlay)
    &&& p.backend_auth == auth
    &&& p.config_hash == 0
    &&& p.per_user_startup_overlay_hash == hash
    &&& !p.init_complete
}

/// The user's startup parameters as they are used.
pub open spec fn used_overlay(
    registry: Registry,
    pool_name: Seq<char>,
    fetched: Map<Seq<char>, Seq<char>>,
) -> Map<Seq<char>, Seq<char>> {
    if registry.auth_query@.contains_key(pool_name)
        && registry.auth_query@[pool_name].config.server_user.is_some() {
        Map::empty()
    } else {
        fetched
    }
}

/// Why a looked up user gets no pool.
pub open spec fn refused(
    registry: Registry,
    config: Config,
    pool_name: Seq<char>,
    tls: Result<ServerTlsConfig, Error>,
    e: Error,
) -> bool {
    if !config.pools@.contains_key(pool_name) {
        e matches Error::AuthError(m) && m@ == text::join(
            seq!["auth_query: pool config '"@, pool_name, "' not found for dynamic pool"@],
        )
    } else if config.pools@[pool_name].auth_query.is_none() {
        e matches Error::AuthError(m) && m@ == text::join(
            seq!["auth_query: config not found in pool '"@, pool_name, "' for dynamic pool"@],
        )
    } else if !registry.clients_mapped {
        e matches Error::AuthError(m) && m@ == "auth_query: client_server_map not initialized"@
    } else {
        tls == Err::<ServerTlsConfig, Error>(e)
    }
}

/// A looked up user can get a pool.
pub open spec fn can_create(
    registry: Registry,
    config: Config,
    pool_name: Seq<char>,
    tls: Result<ServerTlsConfig, Error>,
) -> bool {
    &&& config.pools@.contains_key(pool_name)
    &&& config.pools@[pool_name].auth_query.is_some()
    &&& registry.clients_mapped
    &&& tls is Ok
}

/// The registry without a pool whose user's startup parameters have changed.
pub open spec fn without_stale(before: Registry, after: Registry, id: Id) -> bool {
    &&& after.pools@ == before.pools@.remove(id)
    &&& after.dynamic@ == if before.pools@.contains_key(id) {
        before.dynamic@.remove(id)
    } else {
        before.dynamic@
    }
    &&& after.coordinators == before.coordinators
    &&& after.auth_query == before.auth_query
    &&& after.previous_general_startup_hash == before.previous_general_startup_hash
    &&& after.clients_mapped == before.clients_mapped
}

/// Makes the user.
fn make_user(username: &str, c: &AuthQueryConfig) -> (user: User)
    ensures
        looked_up(user, username@, *c),
{
    let mut user: User = Default::default();
    user.username = username.to_owned();
    user.password = "".to_owned();
    user.pool_size = c.pool_size;
    user.min_pool_size = if c.min_pool_size > 0 {
        Some(c.min_pool_size)
    } else {
        None
    };
    user.server_username = Some(username.to_owned());
    user
}

/// The error for a database that is not configured.
fn no_pool_config(pool_name: &str) -> (e: Error)
    ensures
        e matches Error::AuthError(m) && m@ == text::join(
            seq!["auth_query: pool config '"@, pool_name@, "' not found for dynamic pool"@],
        ),
{
    let parts = ["auth_query: pool config '", pool_name, "' not found for dynamic pool"];
    assert(text::views(parts@) =~= seq![
        "auth_query: pool config '"@,
        pool_name@,
        "' not found for dynamic pool"@,
    ]);
    Error::AuthError(concat(&parts))
}

/// The error for a database whose users are not looked up.
fn no_lookup_config(pool_name: &str) -> (e: Error)
    ensures
        e matches Error::AuthError(m) && m@ == text::join(
            seq!["auth_query: config not found in pool '"@, pool_name@, "' for dynamic pool"@],
        ),
{
    let parts = ["auth_query: config not found in pool '", pool_name, "' for dynamic pool"];
    assert(text::views(parts@) =~= seq![
        "auth_query: config not found in pool '"@,
        pool_name@,
        "' for dynamic pool"@,
    ]);
    Error::AuthError(concat(&parts))
}

/// Takes out the pool of a looked up user whose startup parameters have changed,
/// for its connections to be closed. The pool of a configured user stays.
pub fn drop_dynamic_pool_if_overlay_drifted(
    registry: &mut Registry,
    id: &PoolIdentifier,
    hash: u64,
) -> (r: Option<ConnectionPool>)
    ensures
        if !old(registry).pools@.contains_key(id@) || is_current(*old(registry), id@, hash) {
            r.is_none() && *final(registry) == *old(registry)
        } else {
            &&& r == Some(old(registry).pools@[id@])
            &&& without_stale(*old(registry), *final(registry), id@)
        },
{
    let live: u64 = match registry.pools.get(id) {
        Some(pool) => pool.per_user_startup_overlay_hash,
        None => {
            return None;
        },
    };
    if should_rebuild_for_overlay_drift(live, hash, is_dynamic_pool(registry, id)) {
        let gone = registry.pools.remove(id);
        let _ = registry.dynamic.remove(id);
        gone
    } else {
        None
    }
}

/// Uses the pool that a user has, if it is good as it is. Otherwise a pool whose
/// user's startup parameters have changed is dropped, and the identity is handed
/// back.
fn use_existing(
    registry: &mut Registry,
    id: &PoolIdentifier,
    backend_auth: Option<BackendAuthMethod>,
    hash: u64,
) -> (r: Result<(), Option<BackendAuthMethod>>)
    ensures
        if is_current(*old(registry), id@, hash) {
            &&& r is Ok
            &&& final(registry).pools@ == old(registry).pools@.insert(
                id@,
                refreshed(
                    old(registry).pools@[id@],
                    old(registry).dynamic@.contains_key(id@),
                    hash,
                    backend_auth,
                ),
            )
            &&& *final(registry) == (Registry { pools: final(registry).pools, ..*old(registry) })
        } else {
            &&& r == Err::<(), Option<BackendAuthMethod>>(backend_auth)
            &&& without_stale(*old(registry), *final(registry), id@)
        },
{
    if !registry.pools.contains_key(id) {
        assert(registry.pools@.remove(id@) =~= registry.pools@);
        return Err(backend_auth);
    }
    if drop_dynamic_pool_if_overlay_drifted(registry, id, hash).is_some() {
        return Err(backend_auth);
    }
    let dynamic = is_dynamic_pool(registry, id);
    match registry.pools.remove(id) {
        Some(pool) => {
            let mut pool = pool;
            if dynamic && pool.per_user_startup_overlay_hash == hash && pool.backend_auth.is_some()
                && backend_auth.is_some() {
                pool.backend_auth = backend_auth;
            }
            let _ = registry.pools.insert(id.clone(), pool);
            assert(registry.pools@ =~= old(registry).pools@.insert(
                id@,
                refreshed(old(registry).pools@[id@], dynamic, hash, backend_auth),
            ));
        },
        None => {
            assert(false);
        },
    }
    Ok(())
}

/// Counts a new pool of a looked up user.
fn count_created(states: &mut StringMap<AuthQueryState>, pool_name: &str)
    ensures
        final(states)@ == if old(states)@.contains_key(pool_name@) {
            old(states)@.insert(
                pool_name@,
                AuthQueryState {
                    dynamic_pools_created: old(
                        states,
                    )@[pool_name@].dynamic_pools_created.wrapping_add(1),
                    ..old(states)@[pool_name@]
                },
            )
        } else {
            old(states)@
        },
{
    match states.remove(pool_name) {
        Some(state) => {
            let mut state = state;
            state.dynamic_pools_created = state.dynamic_pools_created.wrapping_add(1);
            let ghost counted = state;
            let _ = states.insert(pool_name.to_owned(), state);
            assert(states@ =~= old(states)@.insert(pool_name@, counted));
        },
        None => {
            assert(states@ =~= old(states)@);
        },
    }
}

/// What a login of a looked up user does to the pools, and what it leads to.
/// `fetched` holds the user's startup parameters, of which `hash` is a digest.
pub open spec fn login_of(
    before: Registry,
    after: Registry,
    config: Config,
    tls: Result<ServerTlsConfig, Error>,
    id: Id,
    auth: Option<BackendAuthMethod>,
    fetched: Map<Seq<char>, Seq<char>>,
    hash: u64,
    r: Result<DynamicPool, Error>,
) -> bool {
    if is_current(before, id, hash) {
        &&& r == Ok::<DynamicPool, Error>(DynamicPool::Existing)
        &&& after.pools@ == before.pools@.insert(
            id,
            refreshed(before.pools@[id], before.dynamic@.contains_key(id), hash, auth),
        )
        &&& after == (Registry { pools: after.pools, ..before })
    } else if !can_create(before, config, id.0, tls) {
        &&& r matches Err(e) && refused(before, config, id.0, tls, e)
        &&& without_stale(before, after, id)
    } else {
        let c = config.pools@[id.0].auth_query.unwrap();
        let plan = Plan {
            pool_name: id.0,
            pool: config.pools@[id.0],
            general: config.general,
            tls: tls->Ok_0,
            limited: before.coordinators@.contains_key(id.0),
        };
        &&& r == Ok::<DynamicPool, Error>(DynamicPool::Created { prewarm: c.min_pool_size })
        &&& after.pools@.contains_key(id)
        &&& after.pools@ == before.pools@.insert(id, after.pools@[id])
        &&& made_dynamic(
            after.pools@[id],
            id.1,
            c,
            plan,
            auth,
            used_overlay(before, id.0, fetched),
            hash,
        )
        &&& after.dynamic@ == before.dynamic@.insert(id, ())
        &&& after.coordinators == before.coordinators
        &&& after.previous_general_startup_hash == before.previous_general_startup_hash
        &&& after.clients_mapped == before.clients_mapped
        &&& after.auth_query@ == if before.auth_query@.contains_key(id.0) {
            before.auth_query@.insert(
                id.0,
                AuthQueryState {
                    dynamic_pools_created: before.auth_query@[id.0].dynamic_pools_created.wrapping_add(
                        1,
                    ),
                    ..before.auth_query@[id.0]
                },
            )
        } else {
            before.auth_query@
        }
    }
}

/// The pool of a user who was looked up at their login: the one that there is, or
/// a new one. `fetched_overlay` holds the user's startup parameters, of which
/// `fetched_overlay_hash` is a digest; a pool that was made with others is
/// dropped.
pub fn create_dynamic_pool(
    registry: &mut Registry,
    config: &Config,
    tls: Result<ServerTlsConfig, Error>,
    pool_name: &str,
    username: &str,
    backend_auth: Option<BackendAuthMethod>,
    fetched_overlay: &StringMap<String>,
    fetched_overlay_hash: u64,
) -> (r: Result<DynamicPool, Error>)
    ensures
        login_of(
            *old(registry),
            *final(registry),
            *config,
            tls,
            (pool_name@, username@),
            backend_auth,
            string_map::texts(fetched_overlay@),
            fetched_overlay_hash,
            r,
        ),
{
    let id = PoolIdentifier::new(pool_name, username);
    let backend_auth = match use_existing(registry, &id, backend_auth, fetched_overlay_hash) {
        Ok(_) => {
            return Ok(DynamicPool::Existing);
        },
        Err(auth) => auth,
    };
    let pool: &ConfigPool = match get_pool_config(config, pool_name) {
        Some(pool) => pool,
        None => {
            return Err(no_pool_config(pool_name));
        },
    };
    let c = match &pool.auth_query {
        Some(c) => c,
        None => {
            return Err(no_lookup_config(pool_name));
        },
    };
    if !registry.clients_mapped {
        return Err(Error::AuthError("auth_query: client_server_map not initialized".to_owned()));
    }
    let tls = match tls {
        Ok(tls) => tls,
        Err(e) => {
            return Err(e);
        },
    };
    let recipe = Recipe {
        pool_name,
        pool,
        general: &config.general,
        tls,
        limited: get_coordinator(registry, pool_name).is_some(),
    };
    let shared = match registry.auth_query.get(pool_name) {
        Some(state) => state.config.is_dedicated_mode(),
        None => false,
    };
    let overlay = if shared {
        let nothing: StringMap<String> = StringMap::new();
        assert(string_map::texts(nothing@) =~= Map::empty());
        nothing
    } else {
        fetched_overlay.copy()
    };
    let user = make_user(username, c);
    let made = ConnectionPool::make(
        &user,
        &recipe,
        backend_auth,
        overlay,
        fetched_overlay_hash,
        0,
        false,
    );
    let ghost stale_free = registry.pools@;
    let ghost new_pool = made;
    let _ = registry.pools.insert(id.clone(), made);
    register_dynamic_pool(registry, &id);
    count_created(&mut registry.auth_query, pool_name);
    proof {
        assert(registry.pools@ =~= old(registry).pools@.insert(id@, new_pool));
        assert(registry.dynamic@ =~= old(registry).dynamic@.insert(id@, ()));
    }
    Ok(DynamicPool::Created { prewarm: c.min_pool_size })
}

/// After a login of a looked up user the pool was made with the startup
/// parameters that were fetched for it, unless it is a configured user's.
pub proof fn login_uses_the_fetched_parameters(
    before: Registry,
    after: Registry,
    config: Config,
    tls: Result<ServerTlsConfig, Error>,
    id: Id,
    auth: Option<BackendAuthMethod>,
    fetched: Map<Seq<char>, Seq<char>>,
    hash: u64,
    r: Result<DynamicPool, Error>,
)
    requires
        login_of(before, after, config, tls, id, auth, fetched, hash, r),
        r is Ok,
        after.dynamic@.contains_key(id),
    ensures
        after.pools@[id].per_user_startup_overlay_hash == hash,
{
}

/// A login never replaces or changes a pool that the operator configured,
/// whatever startup parameters and identity the lookup brings.
pub proof fn configured_pools_are_kept(
    before: Registry,
    after: Registry,
    config: Config,
    tls: Result<ServerTlsConfig, Error>,
    id: Id,
    auth: Option<BackendAuthMethod>,
    fetched: Map<Seq<char>, Seq<char>>,
    hash: u64,
    r: Result<DynamicPool, Error>,
)
    requires
        login_of(before, after, config, tls, id, auth, fetched, hash, r),
        before.pools@.contains_key(id),
        !before.dynamic@.contains_key(id),
    ensures
        r == Ok::<DynamicPool, Error>(DynamicPool::Existing),
        after.pools@ == before.pools@,
        after.dynamic@ == before.dynamic@,
{
    assert(after.pools@ =~= before.pools@);
}

/// A login of a looked up user leaves the pools in line with the configuration.
pub proof fn login_stays_in_line(
    before: Registry,
    after: Registry,
    config: Config,
    tls: Result<ServerTlsConfig, Error>,
    id: Id,
    auth: Option<BackendAuthMethod>,
    fetched: Map<Seq<char>, Seq<char>>,
    hash: u64,
    r: Result<DynamicPool, Error>,
    loaded: Loaded,
)
    requires
        login_of(before, after, config, tls, id, auth, fetched, hash, r),
        reload::in_line(before, config, loaded),
    ensures
        reload::in_line(after, config, loaded),
{
    reload::in_line_is_kept(before, after, config, loaded);
}

/// A looked up user who has a pool keeps it as long as their startup parameters stay the
/// same: no login makes a second pool, counts one or touches another.
pub proof fn login_keeps_a_current_pool(
    before: Registry,
    after: Registry,
    config: Config,
    tls: Result<ServerTlsConfig, Error>,
    id: Id,
    auth: Option<BackendAuthMethod>,
    fetched: Map<Seq<char>, Seq<char>>,
    hash: u64,
    r: Result<DynamicPool, Error>,
    other: Id,
)
    requires
        login_of(before, after, config, tls, id, auth, fetched, hash, r),
    ensures
        before.pools@.contains_key(id) && before.pools@[id].per_user_startup_overlay_hash == hash
            ==> {
            &&& r == Ok::<DynamicPool, Error>(DynamicPool::Existing)
            &&& after.pools@.contains_key(id)
            &&& after.pools@[id].database == before.pools@[id].database
            &&& after.pools@[id].settings == before.pools@[id].settings
            &&& after.dynamic@ == before.dynamic@
            &&& after.auth_query@ == before.auth_query@
            &&& before.dynamic@.contains_key(id) && before.pools@[id].backend_auth.is_some()
                && auth.is_some() ==> after.pools@[id].backend_auth == auth
            &&& auth.is_none() ==> after.pools@[id].backend_auth == before.pools@[id].backend_auth
        },
        other != id ==> after.pools@.contains_key(other) == before.pools@.contains_key(other) && (
        before.pools@.contains_key(other) ==> after.pools@[other] == before.pools@[other]),
        after.coordinators@ == before.coordinators@,
{
}

/// A looked up user without a pool, or with one that was made with other startup
/// parameters, gets a new one: with the size and the minimum of the lookup, the fetched
/// parameters, and the database's settings. It is counted once.
pub proof fn login_makes_a_missing_pool(
    before: Registry,
    after: Registry,
    config: Config,
    tls: Result<ServerTlsConfig, Error>,
    id: Id,
    auth: Option<BackendAuthMethod>,
    fetched: Map<Seq<char>, Seq<char>>,
    hash: u64,
    r: Result<DynamicPool, Error>,
)
    requires
        login_of(before, after, config, tls, id, auth, fetched, hash, r),
        !before.pools@.contains_key(id) || (before.dynamic@.contains_key(id)
            && before.pools@[id].per_user_startup_overlay_hash != hash),
    ensures
        r is Ok <==> config.pools@.contains_key(id.0) && config.pools@[id.0].auth_query.is_some()
            && before.clients_mapped && tls is Ok,
        r is Err ==> !after.pools@.contains_key(id) && after.auth_query@ == before.auth_query@,
        r is Err && before.pools@.contains_key(id) ==> !after.dynamic@.contains_key(id),
        r is Ok ==> {
            let p = after.pools@[id];
            let c = config.pools@[id.0].auth_query.unwrap();
            &&& r->Ok_0 == DynamicPool::Created { prewarm: c.min_pool_size }
            &&& after.pools@.contains_key(id)
            &&& after.dynamic@.contains_key(id)
            &&& p.settings.user.username@ == id.1
            &&& p.settings.user.pool_size == c.pool_size
            &&& p.database.config.max_size == c.pool_size
            &&& p.address.host == config.pools@[id.0].server_host
            &&& p.address.port == config.pools@[id.0].server_port
            &&& p.address.server_tls == tls->Ok_0
            &&& p.database.setup.limited == before.coordinators@.contains_key(id.0)
            &&& p.backend_auth == auth
            &&& p.per_user_startup_overlay_hash == hash
            &&& !p.init_complete
            &&& before.auth_query@.contains_key(id.0)
                && before.auth_query@[id.0].config.server_user.is_some() ==> string_map::texts(
                p.database.setup.server_pool.per_user_startup_overlay@,
            ) == Map::<Seq<char>, Seq<char>>::empty()
            &&& !before.auth_query@.contains_key(id.0)
                || before.auth_query@[id.0].config.server_user.is_none() ==> string_map::texts(
                p.database.setup.server_pool.per_user_startup_overlay@,
            ) == fetched
            &&& before.auth_query@.contains_key(id.0)
                && before.auth_query@[id.0].dynamic_pools_created < u64::MAX
                ==> after.auth_query@[id.0].dynamic_pools_created
                == before.auth_query@[id.0].dynamic_pools_created + 1
        },
{
}

} // verus!
