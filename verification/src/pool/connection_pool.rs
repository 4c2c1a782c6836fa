//! The pool of one user for one database, and how it is made from the
//! configuration.
use vstd::prelude::*;
use crate::config::{
    copy_opt, Address, BackendAuthMethod, General, Pool as ConfigPool, PoolMode, ServerTlsConfig,
    ServerTlsMode, User,
};
use crate::digest::map_digest;
use crate::errors::Error;
use crate::pool::checkout::PoolError;
use crate::pool::fallback::FallbackConfig;
use crate::pool::inner::Pool;
use crate::pool::server_pool::ServerPool;
use crate::pool::types::{PoolConfig, QueueMode, Status, Timeouts};
use crate::server::parameters::ServerParameters;
use crate::startup_parameters::cascade_canonical_keys;
use crate::string_map::StringMap;
use crate::text::{has_prefix, same_text};
#[allow(unused_imports)]
use crate::config;
#[allow(unused_imports)]
use crate::digest;
#[allow(unused_imports)]
use crate::pool::inner;
#[allow(unused_imports)]
use crate::pool::server_pool;
#[allow(unused_imports)]
use crate::pool::types::ScalingConfig;
#[allow(unused_imports)]
use crate::startup_parameters;
#[allow(unused_imports)]
use crate::string_map;
#[allow(unused_imports)]
use crate::text;

verus! {

/// How a stored MD5 password begins.
pub const MD5_PASSWORD_PREFIX: &'static str = "md5";

/// How a stored SCRAM password begins.
pub const SCRAM_SHA_256: &'static str = "SCRAM-SHA-256";

/// The application name of connections for which none is configured.
pub const DEFAULT_APPLICATION_NAME: &'static str = "pg_doorman";

/// What a client of the pool gets.
#[derive(Debug)]
pub struct PoolSettings {
    pub pool_mode: PoolMode,
    pub user: User,
    pub db: String,
    /// Parameters that a client sets are brought to its next backend.
    pub sync_server_parameters: bool,
    pub idle_timeout_ms: u64,
    pub life_time_ms: u64,
    /// The connections that other pools of the database do not take away.
    pub min_guaranteed_pool_size: u32,
}

impl Default for PoolSettings {
    fn default() -> (r: Self)
        ensures
            r.pool_mode == PoolMode::Transaction,
            config::is_default_user(r.user),
            r.db@ == ""@,
            !r.sync_server_parameters,
            r.idle_timeout_ms == config::DEFAULT_IDLE_TIMEOUT_MS,
            r.life_time_ms == config::DEFAULT_SERVER_LIFETIME_MS,
            r.min_guaranteed_pool_size == 0,
    {
        PoolSettings {
            pool_mode: PoolMode::Transaction,
            user: Default::default(),
            db: "".to_owned(),
            sync_server_parameters: false,
            idle_timeout_ms: config::DEFAULT_IDLE_TIMEOUT_MS,
            life_time_ms: config::DEFAULT_SERVER_LIFETIME_MS,
            min_guaranteed_pool_size: 0,
        }
    }
}

/// The pool of one user for one database.
pub struct ConnectionPool {
    pub database: Pool,
    pub address: Address,
    pub settings: PoolSettings,
    /// How the pooler proves the user's identity, if it passes on the user's own.
    pub backend_auth: Option<BackendAuthMethod>,
    /// The parameters that backends report, once one has been asked.
    pub original_server_parameters: ServerParameters,
    /// A digest of what the pool was made from.
    pub config_hash: u64,
    /// A digest of the user's own startup parameters.
    pub per_user_startup_overlay_hash: u64,
    /// The size of the cache for prepared statements, if there is one.
    pub prepared_statements_cache_size: Option<usize>,
    /// How often in a row the pool could not be filled up.
    pub replenish_failures: u32,
    /// A first connection was made; always set for configured users.
    pub init_complete: bool,
}

/// A digest of a user's startup parameters, whatever their order.
pub open spec fn overlay_digest(m: Map<Seq<char>, Seq<char>>) -> u64 {
    digest::digest_of(digest::map_writes(m))
}

/// A digest of a user's startup parameters, whatever their order.
pub fn per_user_overlay_hash(entries: &StringMap<String>) -> (r: u64)
    ensures
        r == overlay_digest(string_map::texts(entries@)),
{
    map_digest(entries)
}

/// The digest of no startup parameters.
pub fn empty_overlay_hash() -> (r: u64)
    ensures
        r == overlay_digest(Map::empty()),
{
    let nothing: StringMap<String> = StringMap::new();
    assert(string_map::texts(nothing@) =~= Map::empty());
    per_user_overlay_hash(&nothing)
}

/// The size of the cache for prepared statements on a backend.
pub open spec fn server_cache_size(
    pool_cache_size: usize,
    pool_override: Option<usize>,
    general_override: Option<usize>,
) -> usize {
    if pool_cache_size == 0 {
        0
    } else {
        match pool_override {
            Some(n) => n,
            None => match general_override {
                Some(n) => n,
                None => pool_cache_size,
            },
        }
    }
}

/// The size of the cache for prepared statements on a backend: the pool's own, or
/// the general one, or that of the pool's cache. Without a pool's cache there is
/// none.
pub fn resolve_server_cache_size(
    pool_cache_size: usize,
    pool_override: Option<usize>,
    general_override: Option<usize>,
) -> (r: usize)
    ensures
        r == server_cache_size(pool_cache_size, pool_override, general_override),
{
    if pool_cache_size == 0 {
        return 0;
    }
    match pool_override {
        Some(n) => n,
        None => match general_override {
            Some(n) => n,
            None => pool_cache_size,
        },
    }
}

/// The size of a client's cache for unnamed statements.
pub open spec fn client_anon_cache_size(general: General, pool_override: Option<usize>) -> usize {
    match general.client_anonymous_prepared_cache_size {
        Some(n) => n,
        None => match pool_override {
            Some(n) => n,
            None => general.prepared_statements_cache_size,
        },
    }
}

/// The size of a client's cache for unnamed statements: the one configured for
/// that, or the pool's cache size, or the general one.
pub fn resolve_client_anon_cache_size_inner(general: &General, pool_override: Option<usize>) -> (r:
    usize)
    ensures
        r == client_anon_cache_size(*general, pool_override),
{
    match general.client_anonymous_prepared_cache_size {
        Some(n) => n,
        None => match pool_override {
            Some(n) => n,
            None => general.prepared_statements_cache_size,
        },
    }
}

/// The first of two values that is there.
pub open spec fn first_of<T>(a: Option<T>, b: Option<T>) -> Option<T> {
    match a {
        Some(x) => Some(x),
        None => b,
    }
}

/// A value, or what stands in for it.
pub open spec fn or_else<T>(a: Option<T>, b: T) -> T {
    match a {
        Some(x) => x,
        None => b,
    }
}

/// A number of the pool's, or the general one, or a default.
fn pick(pool: Option<u64>, general: Option<u64>, otherwise: u64) -> (r: u64)
    ensures
        r == or_else(first_of(pool, general), otherwise),
{
    match pool {
        Some(n) => n,
        None => match general {
            Some(n) => n,
            None => otherwise,
        },
    }
}

/// A fallback that was configured like this.
pub open spec fn fallback_of(f: Option<FallbackConfig>, pc: ConfigPool, general: General) -> bool {
    match first_of(pc.patroni_api_urls, general.patroni_api_urls) {
        None => f.is_none(),
        Some(urls) => {
            let cooldown = or_else(
                first_of(pc.fallback_cooldown, general.fallback_cooldown),
                30_000u64,
            );
            &&& f.is_some()
            &&& f.unwrap().urls@ == urls@
            &&& f.unwrap().cooldown_ms == cooldown
            &&& f.unwrap().api_timeout_ms == or_else(
                first_of(pc.patroni_api_timeout, general.patroni_api_timeout),
                5_000u64,
            )
            &&& f.unwrap().connect_timeout_ms == or_else(
                first_of(pc.fallback_connect_timeout, general.fallback_connect_timeout),
                5_000u64,
            )
            &&& f.unwrap().lifetime_ms == or_else(
                first_of(pc.fallback_lifetime, general.fallback_lifetime),
                cooldown,
            )
        },
    }
}

/// A copy of a list of strings.
fn copy_list(list: &Vec<String>) -> (r: Vec<String>)
    ensures
        r@ == list@,
{
    let mut r: Vec<String> = Vec::new();
    let mut i: usize = 0;
    while i < list.len()
        invariant
            i <= list.len(),
            r@ == list@.take(i as int),
        decreases list.len() - i,
    {
        r.push(list[i].clone());
        assert(r@ =~= list@.take(i + 1));
        i = i + 1;
    }
    assert(list@.take(list@.len() as int) =~= list@);
    r
}

/// The fallback of a pool: none unless the cluster can be asked.
pub fn build_fallback_state(pc: &ConfigPool, general: &General) -> (r: Option<FallbackConfig>)
    ensures
        fallback_of(r, *pc, *general),
{
    let urls = match &pc.patroni_api_urls {
        Some(urls) => copy_list(urls),
        None => match &general.patroni_api_urls {
            Some(urls) => copy_list(urls),
            None => {
                return None;
            },
        },
    };
    let cooldown_ms: u64 = pick(pc.fallback_cooldown, general.fallback_cooldown, 30_000);
    Some(
        FallbackConfig {
            urls,
            cooldown_ms,
            connect_timeout_ms: pick(
                pc.fallback_connect_timeout,
                general.fallback_connect_timeout,
                5_000,
            ),
            api_timeout_ms: pick(pc.patroni_api_timeout, general.patroni_api_timeout, 5_000),
            lifetime_ms: pick(pc.fallback_lifetime, general.fallback_lifetime, cooldown_ms),
        },
    )
}

/// The connections that other pools of the database may take away.
pub open spec fn spare(size: usize, user_min: Option<u32>, pool_min: u32) -> nat {
    let user = or_else(user_min, 0u32);
    let least = if user > pool_min {
        user
    } else {
        pool_min
    };
    if size > least {
        (size - least) as nat
    } else {
        0
    }
}

/// The connections above the larger of two minimums.
pub fn compute_spare(
    current_pool_size: usize,
    user_min_pool_size: Option<u32>,
    pool_min_guaranteed: u32,
) -> (r: usize)
    ensures
        r == spare(current_pool_size, user_min_pool_size, pool_min_guaranteed),
{
    let user: u32 = match user_min_pool_size {
        Some(n) => n,
        None => 0,
    };
    let least: u32 = if user > pool_min_guaranteed {
        user
    } else {
        pool_min_guaranteed
    };
    if current_pool_size > least as usize {
        current_pool_size - least as usize
    } else {
        0
    }
}

/// Where the TLS settings of a pool are read from.
#[derive(Debug)]
pub struct TlsSource {
    pub mode: ServerTlsMode,
    pub ca_cert: Option<String>,
    pub certificate: Option<String>,
    pub private_key: Option<String>,
}

/// The pool's own text, or the general one.
fn either(pool: &Option<String>, general: &Option<String>) -> (r: Option<String>)
    ensures
        r == first_of(*pool, *general),
{
    match pool {
        Some(s) => Some(s.clone()),
        None => copy_opt(general),
    }
}

/// Where the TLS settings of a pool are read from: what the pool says wins over
/// what is said in general.
pub fn build_server_tls_for_pool(pc: &ConfigPool, general: &General) -> (r: Result<
    TlsSource,
    Error,
>)
    ensures
        ({
            let word = match pc.server_tls_mode {
                Some(w) => w@,
                None => general.server_tls_mode@,
            };
            match config::tls_mode_of(word) {
                Some(mode) => r matches Ok(source) && source.mode == mode && source.ca_cert
                    == first_of(pc.server_tls_ca_cert, general.server_tls_ca_cert)
                    && source.certificate == first_of(
                    pc.server_tls_certificate,
                    general.server_tls_certificate,
                ) && source.private_key == first_of(
                    pc.server_tls_private_key,
                    general.server_tls_private_key,
                ),
                None => r matches Err(Error::BadConfig(m)) && m@ == text::join(
                    seq!["unknown server_tls_mode '"@, word, "'"@],
                ),
            }
        }),
{
    let word = match &pc.server_tls_mode {
        Some(w) => w.as_str(),
        None => general.server_tls_mode.as_str(),
    };
    match ServerTlsMode::parse(word) {
        Ok(mode) => Ok(
            TlsSource {
                mode,
                ca_cert: either(&pc.server_tls_ca_cert, &general.server_tls_ca_cert),
                certificate: either(&pc.server_tls_certificate, &general.server_tls_certificate),
                private_key: either(&pc.server_tls_private_key, &general.server_tls_private_key),
            },
        ),
        Err(e) => Err(e),
    }
}

/// The identity that a configured user's pool passes on: the user's own, if no
/// other is configured and the stored password allows it.
pub open spec fn static_passthrough(user: User) -> Option<BackendAuthMethod> {
    if user.server_password.is_none() && (user.server_username.is_none()
        || user.server_username.unwrap()@ == user.username@) {
        if text::starts_with(user.password@, MD5_PASSWORD_PREFIX@) {
            Some(BackendAuthMethod::Md5PassTheHash(user.password))
        } else if text::starts_with(user.password@, SCRAM_SHA_256@) {
            Some(BackendAuthMethod::ScramPending)
        } else {
            None
        }
    } else {
        None
    }
}

/// The identity that a configured user's pool passes on.
pub fn static_backend_auth(user: &User) -> (r: Option<BackendAuthMethod>)
    ensures
        r == static_passthrough(*user),
{
    let own = match &user.server_username {
        Some(name) => same_text(name.as_str(), user.username.as_str()),
        None => true,
    };
    if user.server_password.is_none() && own {
        if has_prefix(user.password.as_str(), MD5_PASSWORD_PREFIX) {
            return Some(BackendAuthMethod::Md5PassTheHash(user.password.clone()));
        }
        if has_prefix(user.password.as_str(), SCRAM_SHA_256) {
            return Some(BackendAuthMethod::ScramPending);
        }
    }
    None
}

/// What a pool is made from.
pub struct Recipe<'a> {
    /// The name of the database.
    pub pool_name: &'a str,
    pub pool: &'a ConfigPool,
    pub general: &'a General,
    pub tls: ServerTlsConfig,
    /// The database has a limit on its connections.
    pub limited: bool,
}

/// The same, as the contracts speak of it.
pub struct Plan {
    pub pool_name: Seq<char>,
    pub pool: ConfigPool,
    pub general: General,
    pub tls: ServerTlsConfig,
    pub limited: bool,
}

impl<'a> View for Recipe<'a> {
    type V = Plan;

    open spec fn view(&self) -> Plan {
        Plan {
            pool_name: self.pool_name@,
            pool: *self.pool,
            general: *self.general,
            tls: self.tls,
            limited: self.limited,
        }
    }
}

/// The mode of a user's pool.
pub open spec fn mode_of(user: User, pc: ConfigPool) -> PoolMode {
    or_else(user.pool_mode, pc.pool_mode)
}

/// The size of the pool's cache for prepared statements.
pub open spec fn cache_size(pc: ConfigPool, general: General) -> usize {
    if general.prepared_statements {
        or_else(pc.prepared_statements_cache_size, general.prepared_statements_cache_size)
    } else {
        0
    }
}

/// The limits of a user's pool.
pub open spec fn limits_of(user: User, pc: ConfigPool, general: General) -> PoolConfig {
    PoolConfig {
        max_size: user.pool_size as usize,
        timeouts: Timeouts {
            wait: Some(general.query_wait_timeout),
            create: Some(general.connect_timeout),
            recycle: None,
        },
        queue_mode: if general.server_round_robin {
            QueueMode::Fifo
        } else {
            QueueMode::Lifo
        },
        scaling: ScalingConfig {
            fast_retries: or_else(pc.scaling_fast_retries, general.scaling.fast_retries),
            max_parallel_creates: or_else(
                pc.scaling_max_parallel_creates,
                general.scaling.max_parallel_creates,
            ),
        },
    }
}

/// The database as the backend knows it.
pub open spec fn backend_database(pool_name: Seq<char>, pc: ConfigPool) -> Seq<char> {
    match pc.server_database {
        Some(name) => name@,
        None => pool_name,
    }
}

/// The application name of the connections.
pub open spec fn application_of(pc: ConfigPool) -> Seq<char> {
    match pc.application_name {
        Some(name) => name@,
        None => DEFAULT_APPLICATION_NAME@,
    }
}

/// The address of a user's backend.
pub open spec fn address_of(a: Address, user: User, r: Plan) -> bool {
    &&& a.host == r.pool.server_host
    &&& a.port == r.pool.server_port
    &&& a.database@ == r.pool_name
    &&& a.username == user.username
    &&& a.pool_name@ == r.pool_name
    &&& a.server_tls == r.tls
}

/// What a user's pool needs to make connections, with the user's own startup
/// parameters in `overlay`.
pub open spec fn server_pool_of(
    s: ServerPool,
    user: User,
    r: Plan,
    overlay: Map<Seq<char>, Seq<char>>,
) -> bool {
    let pc = r.pool;
    let general = r.general;
    &&& address_of(s.address, user, r)
    &&& s.user == user
    &&& s.database@ == backend_database(r.pool_name, pc)
    &&& s.cleanup_connections == or_else(
        pc.cleanup_server_connections,
        general.cleanup_server_connections,
    )
    &&& s.cleanup_server_query == first_of(pc.cleanup_server_query, general.cleanup_server_query)
    &&& s.application_name@ == application_of(pc)
    &&& s.log_client_parameter_status_changes == pc.log_client_parameter_status_changes
    &&& s.prepared_statement_cache_size == server_cache_size(
        cache_size(pc, general),
        pc.server_prepared_statements_cache_size,
        general.server_prepared_statements_cache_size,
    )
    &&& s.max_concurrent_creates == general.max_concurrent_creates
    &&& s.connection_counter == 0
    &&& s.lifetime_ms == or_else(pc.server_lifetime, general.server_lifetime)
    &&& s.idle_timeout_ms == or_else(pc.idle_timeout, general.idle_timeout)
    &&& s.idle_check_timeout_ms == general.server_idle_check_timeout
    &&& s.connect_timeout_ms == general.connect_timeout
    &&& s.query_wait_timeout_ms == general.query_wait_timeout
    &&& s.session_mode == (mode_of(user, pc) == PoolMode::Session)
    &&& fallback_of(s.fallback, pc, general)
    &&& s.pool_state == 0
    &&& string_map::texts(s.per_user_startup_overlay@) == overlay
    &&& (string_map::texts(s.resolved_startup_map@), s.resolved_startup_decision)
        == server_pool::resolution(
        startup_parameters::cascade(
            string_map::texts(general.startup_parameters@),
            string_map::texts(pc.startup_parameters@),
        ),
        overlay,
        (server_pool::login_of(user), backend_database(r.pool_name, pc), application_of(pc)),
    )
}

/// What a client of a user's pool gets.
pub open spec fn settings_of(s: PoolSettings, user: User, r: Plan) -> bool {
    let pc = r.pool;
    let general = r.general;
    &&& s.pool_mode == mode_of(user, pc)
    &&& s.user == user
    &&& s.db@ == r.pool_name
    &&& s.sync_server_parameters == or_else(
        pc.sync_server_parameters,
        general.sync_server_parameters,
    )
    &&& s.idle_timeout_ms == or_else(pc.idle_timeout, general.idle_timeout)
    &&& s.life_time_ms == or_else(pc.server_lifetime, general.server_lifetime)
    &&& s.min_guaranteed_pool_size == or_else(pc.min_guaranteed_pool_size, 0u32)
}

/// A pool without connections, made for a user after a recipe.
pub open spec fn pool_of(
    p: ConnectionPool,
    user: User,
    r: Plan,
    overlay: Map<Seq<char>, Seq<char>>,
) -> bool {
    let setup = p.database.setup;
    &&& address_of(p.address, user, r)
    &&& settings_of(p.settings, user, r)
    &&& inner::is_fresh(p.database, limits_of(user, r.pool, r.general), setup)
    &&& setup.limited == r.limited
    &&& setup.pool_name@ == r.pool_name
    &&& setup.username == user.username
    &&& server_pool_of(setup.server_pool, user, r, overlay)
    &&& p.original_server_parameters@ == Map::<Seq<char>, Seq<char>>::empty()
    &&& p.prepared_statements_cache_size == if r.general.prepared_statements {
        Some(cache_size(r.pool, r.general))
    } else {
        None
    }
    &&& p.replenish_failures == 0
}

/// Makes what a user's pool needs to make connections.
fn make_server_pool(user: &User, address: Address, r: &Recipe, overlay: StringMap<String>) -> (s:
    ServerPool)
    requires
        address_of(address, *user, r@),
    ensures
        server_pool_of(s, *user, r@, string_map::texts(overlay@)),
{
    let pc = r.pool;
    let general = r.general;
    let database = match &pc.server_database {
        Some(name) => name.clone(),
        None => r.pool_name.to_owned(),
    };
    let application_name = match &pc.application_name {
        Some(name) => name.clone(),
        None => DEFAULT_APPLICATION_NAME.to_owned(),
    };
    let pool_cache: usize = pool_cache_size(pc, general);
    let server_cache: usize = resolve_server_cache_size(
        pool_cache,
        pc.server_prepared_statements_cache_size,
        general.server_prepared_statements_cache_size,
    );
    let lifetime: u64 = pick(pc.server_lifetime, None, general.server_lifetime);
    let idle_timeout: u64 = pick(pc.idle_timeout, None, general.idle_timeout);
    let session_mode = match pool_mode(user, pc) {
        PoolMode::Session => true,
        PoolMode::Transaction => false,
    };
    let base = cascade_canonical_keys(&general.startup_parameters, &pc.startup_parameters);
    ServerPool::new(
        address,
        user.clone(),
        database.as_str(),
        pc.effective_cleanup_server_connections(general),
        pc.effective_cleanup_server_query(general),
        pc.log_client_parameter_status_changes,
        server_cache,
        application_name,
        general.max_concurrent_creates,
        lifetime,
        idle_timeout,
        general.server_idle_check_timeout,
        general.connect_timeout,
        general.query_wait_timeout,
        session_mode,
        build_fallback_state(pc, general),
        &base,
        overlay,
    )
}

/// The mode of a user's pool.
fn pool_mode(user: &User, pc: &ConfigPool) -> (r: PoolMode)
    ensures
        r == mode_of(*user, *pc),
{
    match user.pool_mode {
        Some(mode) => mode,
        None => pc.pool_mode,
    }
}

/// The size of the pool's cache for prepared statements.
fn pool_cache_size(pc: &ConfigPool, general: &General) -> (r: usize)
    ensures
        r == cache_size(*pc, *general),
{
    if general.prepared_statements {
        match pc.prepared_statements_cache_size {
            Some(n) => n,
            None => general.prepared_statements_cache_size,
        }
    } else {
        0
    }
}

/// The address of a user's backend.
fn make_address(user: &User, r: &Recipe) -> (a: Address)
    ensures
        address_of(a, *user, r@),
{
    Address {
        host: r.pool.server_host.clone(),
        port: r.pool.server_port,
        database: r.pool_name.to_owned(),
        username: user.username.clone(),
        pool_name: r.pool_name.to_owned(),
        server_tls: r.tls,
    }
}

/// What a client of a user's pool gets.
fn make_settings(user: &User, r: &Recipe) -> (s: PoolSettings)
    ensures
        settings_of(s, *user, r@),
{
    let pc = r.pool;
    let general = r.general;
    PoolSettings {
        pool_mode: pool_mode(user, pc),
        user: user.clone(),
        db: r.pool_name.to_owned(),
        sync_server_parameters: pc.effective_sync_server_parameters(general),
        idle_timeout_ms: pick(pc.idle_timeout, None, general.idle_timeout),
        life_time_ms: pick(pc.server_lifetime, None, general.server_lifetime),
        min_guaranteed_pool_size: match pc.min_guaranteed_pool_size {
            Some(n) => n,
            None => 0,
        },
    }
}

impl ConnectionPool {
    /// Makes the pool of a user. `overlay` holds the user's own startup
    /// parameters; of them and of the configuration digests are kept.
    pub fn make(
        user: &User,
        r: &Recipe,
        backend_auth: Option<BackendAuthMethod>,
        overlay: StringMap<String>,
        overlay_hash: u64,
        config_hash: u64,
        init_complete: bool,
    ) -> (p: ConnectionPool)
        ensures
            pool_of(p, *user, r@, string_map::texts(overlay@)),
            p.backend_auth == backend_auth,
            p.config_hash == config_hash,
            p.per_user_startup_overlay_hash == overlay_hash,
            p.init_complete == init_complete,
    {
        let address = make_address(user, r);
        let server_pool = make_server_pool(user, make_address(user, r), r, overlay);
        let config = PoolConfig {
            max_size: user.pool_size as usize,
            timeouts: Timeouts {
                wait: Some(r.general.query_wait_timeout),
                create: Some(r.general.connect_timeout),
                recycle: None,
            },
            queue_mode: if r.general.server_round_robin {
                QueueMode::Fifo
            } else {
                QueueMode::Lifo
            },
            scaling: r.pool.resolve_scaling_config(r.general),
        };
        let builder = Pool::builder(server_pool).coordinator(r.limited).pool_name(
            r.pool_name.to_owned(),
        ).username(user.username.clone()).config(config);
        let database = builder.build();
        ConnectionPool {
            database,
            address,
            settings: make_settings(user, r),
            backend_auth,
            original_server_parameters: ServerParameters::new(),
            config_hash,
            per_user_startup_overlay_hash: overlay_hash,
            prepared_statements_cache_size: if r.general.prepared_statements {
                Some(pool_cache_size(r.pool, r.general))
            } else {
                None
            },
            replenish_failures: 0,
            init_complete,
        }
    }

    /// What the pool reports of itself.
    pub fn pool_state(&self) -> (r: Status)
        ensures
            r == inner::status_of(self.database.counters),
    {
        self.database.status()
    }

    /// Where the pool's backend is.
    pub fn address(&self) -> (r: &Address)
        ensures
            *r == self.address,
    {
        &self.address
    }

    /// The connections that other pools of the database may take away.
    pub fn spare_above_min(&self) -> (r: usize)
        ensures
            r == spare(
                self.database.counters.size,
                self.settings.user.min_pool_size,
                self.settings.min_guaranteed_pool_size,
            ),
    {
        compute_spare(
            self.pool_state().size,
            self.settings.user.min_pool_size,
            self.settings.min_guaranteed_pool_size,
        )
    }

    /// The parameters that backends report, if one has been asked.
    pub fn cached_server_parameters(&self) -> (r: Option<ServerParameters>)
        ensures
            match r {
                Some(p) => p@ == self.original_server_parameters@ && p@
                    != Map::<Seq<char>, Seq<char>>::empty(),
                None => self.original_server_parameters@ == Map::<Seq<char>, Seq<char>>::empty(),
            },
    {
        if self.original_server_parameters.is_empty() {
            None
        } else {
            Some(self.original_server_parameters.clone())
        }
    }

    /// Keeps the parameters that a backend reported. The rejection of a startup
    /// parameter is handed on as it is; of any other failure its text.
    pub fn get_server_parameters(
        &mut self,
        reported: Result<&StringMap<String>, PoolError>,
    ) -> (r: Result<ServerParameters, Error>)
        ensures
            match reported {
                Ok(map) => {
                    let after = with_startup(
                        old(self).original_server_parameters@,
                        string_map::text_listing(map.listing()),
                    );
                    &&& final(self).original_server_parameters@ == after
                    &&& r matches Ok(p) && p@ == after
                    &&& *final(self) == (ConnectionPool {
                        original_server_parameters: final(self).original_server_parameters,
                        ..*old(self)
                    })
                },
                Err(e) => *final(self) == *old(self) && match e {
                    PoolError::Backend(err) if err is ServerStartupParameterRejection => r
                        == Err::<ServerParameters, Error>(err),
                    _ => r matches Err(Error::ServerStartupReadParameters(m)) && m@
                        == crate::pool::checkout::pool_error_text(e),
                },
            },
    {
        match reported {
            Ok(map) => {
                let _ = self.original_server_parameters.set_from_hashmap(map, true);
                Ok(self.original_server_parameters.clone())
            },
            Err(e) => {
                let text = e.text();
                match e {
                    PoolError::Backend(err) => match err {
                        Error::ServerStartupParameterRejection { .. } => Err(err),
                        _ => Err(Error::ServerStartupReadParameters(text)),
                    },
                    _ => Err(Error::ServerStartupReadParameters(text)),
                }
            },
        }
    }
}

/// Parameters with those of a listing set, as a backend reports them at the
/// beginning of a session.
pub open spec fn with_startup(
    m: Map<Seq<char>, Seq<char>>,
    s: Seq<(Seq<char>, Seq<char>)>,
) -> Map<Seq<char>, Seq<char>> {
    crate::server::parameters::with_params(m, s, true)
}

/// The pool of a user follows the configuration: what is set for the user wins over what
/// is set for the database, and that over what is set in general.
pub proof fn nearer_settings_win(
    p: ConnectionPool,
    user: User,
    r: Plan,
    overlay: Map<Seq<char>, Seq<char>>,
)
    requires
        pool_of(p, user, r, overlay),
    ensures
        user.pool_mode matches Some(m) ==> p.settings.pool_mode == m,
        user.pool_mode.is_none() ==> p.settings.pool_mode == r.pool.pool_mode,
        r.pool.sync_server_parameters matches Some(b) ==> p.settings.sync_server_parameters == b,
        r.pool.sync_server_parameters.is_none() ==> p.settings.sync_server_parameters
            == r.general.sync_server_parameters,
        r.pool.idle_timeout matches Some(ms) ==> p.settings.idle_timeout_ms == ms
            && p.database.setup.server_pool.idle_timeout_ms == ms,
        r.pool.idle_timeout.is_none() ==> p.settings.idle_timeout_ms == r.general.idle_timeout
            && p.database.setup.server_pool.idle_timeout_ms == r.general.idle_timeout,
        r.pool.server_lifetime matches Some(ms) ==> p.settings.life_time_ms == ms
            && p.database.setup.server_pool.lifetime_ms == ms,
        r.pool.server_lifetime.is_none() ==> p.settings.life_time_ms == r.general.server_lifetime
            && p.database.setup.server_pool.lifetime_ms == r.general.server_lifetime,
        r.pool.min_guaranteed_pool_size matches Some(n) ==> p.settings.min_guaranteed_pool_size
            == n,
        r.pool.min_guaranteed_pool_size.is_none() ==> p.settings.min_guaranteed_pool_size == 0,
        r.pool.cleanup_server_connections matches Some(m)
            ==> p.database.setup.server_pool.cleanup_connections == m,
        r.pool.cleanup_server_connections.is_none()
            ==> p.database.setup.server_pool.cleanup_connections
            == r.general.cleanup_server_connections,
        r.pool.cleanup_server_query.is_some()
            ==> p.database.setup.server_pool.cleanup_server_query == r.pool.cleanup_server_query,
        r.pool.cleanup_server_query.is_none()
            ==> p.database.setup.server_pool.cleanup_server_query == r.general.cleanup_server_query,
        p.settings.pool_mode == PoolMode::Session
            <==> p.database.setup.server_pool.session_mode,
{
}

/// The connections of a user's pool go to the backend of the database, log in as the user
/// and bear the database's name, unless another one is configured.
pub proof fn connections_go_to_the_backend(
    p: ConnectionPool,
    user: User,
    r: Plan,
    overlay: Map<Seq<char>, Seq<char>>,
)
    requires
        pool_of(p, user, r, overlay),
    ensures
        p.address.host == r.pool.server_host,
        p.address.port == r.pool.server_port,
        p.address.database@ == r.pool_name,
        p.address.pool_name@ == r.pool_name,
        p.address.username == user.username,
        p.address.server_tls == r.tls,
        p.database.setup.server_pool.address.host == r.pool.server_host,
        p.database.setup.server_pool.address.port == r.pool.server_port,
        p.database.setup.server_pool.address.server_tls == r.tls,
        p.database.setup.server_pool.user == user,
        p.settings.user == user,
        p.settings.db@ == r.pool_name,
        r.pool.server_database matches Some(name) ==> p.database.setup.server_pool.database@
            == name@,
        r.pool.server_database.is_none() ==> p.database.setup.server_pool.database@ == r.pool_name,
        r.pool.application_name matches Some(name)
            ==> p.database.setup.server_pool.application_name@ == name@,
        r.pool.application_name.is_none() ==> p.database.setup.server_pool.application_name@
            == "pg_doorman"@,
        string_map::texts(p.database.setup.server_pool.per_user_startup_overlay@) == overlay,
{
}

/// A new pool is as large as its user's pool may be, waits and grows as it is configured,
/// and has no connection yet.
pub proof fn new_pools_keep_the_limits(
    p: ConnectionPool,
    user: User,
    r: Plan,
    overlay: Map<Seq<char>, Seq<char>>,
)
    requires
        pool_of(p, user, r, overlay),
    ensures
        p.database.config.max_size == user.pool_size,
        p.database.config.timeouts.wait == Some(r.general.query_wait_timeout),
        p.database.config.timeouts.create == Some(r.general.connect_timeout),
        p.database.config.queue_mode == QueueMode::Fifo <==> r.general.server_round_robin,
        r.pool.scaling_fast_retries matches Some(n) ==> p.database.config.scaling.fast_retries
            == n,
        r.pool.scaling_fast_retries.is_none() ==> p.database.config.scaling.fast_retries
            == r.general.scaling.fast_retries,
        r.pool.scaling_max_parallel_creates matches Some(n)
            ==> p.database.config.scaling.max_parallel_creates == n,
        r.pool.scaling_max_parallel_creates.is_none()
            ==> p.database.config.scaling.max_parallel_creates
            == r.general.scaling.max_parallel_creates,
        p.database.idle@.len() == 0,
        p.database.setup.limited == r.limited,
        p.replenish_failures == 0,
{
}

/// Without prepared statements no cache has any room; with them a backend's cache is as
/// large as the nearest setting says, and as the pool's cache where none does.
pub proof fn caches_follow_the_settings(
    p: ConnectionPool,
    user: User,
    r: Plan,
    overlay: Map<Seq<char>, Seq<char>>,
)
    requires
        pool_of(p, user, r, overlay),
    ensures
        p.prepared_statements_cache_size.is_some() <==> r.general.prepared_statements,
        !r.general.prepared_statements
            ==> p.database.setup.server_pool.prepared_statement_cache_size == 0,
        p.prepared_statements_cache_size matches Some(n) ==> {
            &&& r.pool.prepared_statements_cache_size matches Some(m) ==> n == m
            &&& r.pool.prepared_statements_cache_size.is_none() ==> n
                == r.general.prepared_statements_cache_size
            &&& n == 0 ==> p.database.setup.server_pool.prepared_statement_cache_size == 0
            &&& n > 0 ==> {
                &&& r.pool.server_prepared_statements_cache_size matches Some(m)
                    ==> p.database.setup.server_pool.prepared_statement_cache_size == m
                &&& r.pool.server_prepared_statements_cache_size.is_none() ==> {
                    &&& r.general.server_prepared_statements_cache_size matches Some(m)
                        ==> p.database.setup.server_pool.prepared_statement_cache_size == m
                    &&& r.general.server_prepared_statements_cache_size.is_none()
                        ==> p.database.setup.server_pool.prepared_statement_cache_size == n
                }
            }
        },
{
}

/// A pool has a fallback exactly if the cluster can be asked; its times are the pool's,
/// or the general ones, or 30 seconds of cooldown and 5 seconds for an answer. A
/// connection to a fallback lives as long as the cooldown, unless it is said otherwise.
pub proof fn fallback_needs_a_cluster(f: Option<FallbackConfig>, pc: ConfigPool, general: General)
    requires
        fallback_of(f, pc, general),
    ensures
        f.is_some() <==> pc.patroni_api_urls.is_some() || general.patroni_api_urls.is_some(),
        f matches Some(c) ==> {
            &&& pc.patroni_api_urls matches Some(urls) ==> c.urls@ == urls@
            &&& pc.fallback_cooldown matches Some(ms) ==> c.cooldown_ms == ms
            &&& pc.fallback_cooldown.is_none() && general.fallback_cooldown.is_none()
                ==> c.cooldown_ms == 30_000
            &&& pc.patroni_api_timeout matches Some(ms) ==> c.api_timeout_ms == ms
            &&& pc.patroni_api_timeout.is_none() && general.patroni_api_timeout.is_none()
                ==> c.api_timeout_ms == 5_000
            &&& pc.fallback_connect_timeout matches Some(ms) ==> c.connect_timeout_ms == ms
            &&& pc.fallback_connect_timeout.is_none() && general.fallback_connect_timeout.is_none()
                ==> c.connect_timeout_ms == 5_000
            &&& pc.fallback_lifetime matches Some(ms) ==> c.lifetime_ms == ms
            &&& pc.fallback_lifetime.is_none() && general.fallback_lifetime.is_none()
                ==> c.lifetime_ms == c.cooldown_ms
            &&& pc.patroni_api_urls.is_none() ==> c.urls@ == general.patroni_api_urls.unwrap()@
            &&& pc.fallback_cooldown.is_none() && general.fallback_cooldown.is_some()
                ==> c.cooldown_ms == general.fallback_cooldown.unwrap()
            &&& pc.patroni_api_timeout.is_none() && general.patroni_api_timeout.is_some()
                ==> c.api_timeout_ms == general.patroni_api_timeout.unwrap()
            &&& pc.fallback_connect_timeout.is_none() && general.fallback_connect_timeout.is_some()
                ==> c.connect_timeout_ms == general.fallback_connect_timeout.unwrap()
            &&& pc.fallback_lifetime.is_none() && general.fallback_lifetime.is_some()
                ==> c.lifetime_ms == general.fallback_lifetime.unwrap()
        },
{
}

/// What may be taken away from a pool leaves it with both of its minimums, and with no
/// more than the larger of them.
pub proof fn spare_leaves_the_minimum(size: usize, user_min: Option<u32>, pool_min: u32)
    ensures
        spare(size, user_min, pool_min) <= size,
        spare(size, user_min, pool_min) > 0 ==> size - spare(size, user_min, pool_min) >= pool_min
            && (user_min matches Some(m) ==> size - spare(size, user_min, pool_min) >= m),
        size - spare(size, user_min, pool_min) == size || size - spare(size, user_min, pool_min)
            == pool_min || user_min == Some((size - spare(size, user_min, pool_min)) as u32),
        size > pool_min && (user_min.is_none() || size > user_min.unwrap()) ==> spare(
            size,
            user_min,
            pool_min,
        ) > 0,
{
}

/// A user's own identity is passed on only if no other is configured, and only as the
/// stored password allows: an MD5 hash as it is, SCRAM once a client has logged in.
pub proof fn own_identity_is_passed_on(user: User)
    ensures
        static_passthrough(user).is_some() ==> user.server_password.is_none() && (
        user.server_username matches Some(name) ==> name@ == user.username@),
        static_passthrough(user) matches Some(auth) ==> {
            &&& auth is Md5PassTheHash ==> text::starts_with(user.password@, "md5"@)
                && auth->Md5PassTheHash_0@ == user.password@
            &&& auth is ScramPending ==> text::starts_with(user.password@, "SCRAM-SHA-256"@)
            &&& !(auth is ScramPassthrough)
        },
        user.server_password.is_none() && user.server_username.is_none() && (text::starts_with(
            user.password@,
            "md5"@,
        ) || text::starts_with(user.password@, "SCRAM-SHA-256"@)) ==> static_passthrough(
            user,
        ).is_some(),
        user.server_username matches Some(name) ==> (user.server_password.is_none() && name@
            == user.username@ && (text::starts_with(user.password@, "md5"@) || text::starts_with(
            user.password@,
            "SCRAM-SHA-256"@,
        )) ==> static_passthrough(user).is_some()),
{
}

} // verus!
