//! What the operator configures.
use std::collections::hash_map::DefaultHasher;
use std::hash::Hasher;
use vstd::prelude::*;
use crate::digest::{
    write_flag, write_map, write_number, write_opt_list, write_opt_number, write_opt_text,
    write_text,
};
use crate::errors::Error;
use crate::pool::types::ScalingConfig;
use crate::string_map::StringMap;
use crate::text::{concat, decimal_text, same_text};
#[allow(unused_imports)]
use crate::digest;
#[allow(unused_imports)]
use crate::messages;
#[allow(unused_imports)]
use crate::string_map;
#[allow(unused_imports)]
use crate::text;

verus! {

/// When a backend connection goes back to its pool.
#[derive(Debug, Clone, Copy, PartialEq, Eq, Structural)]
pub enum PoolMode {
    /// After each transaction.
    Transaction,
    /// When the client leaves.
    Session,
}

/// The name of a mode.
pub open spec fn mode_name(m: PoolMode) -> Seq<char> {
    match m {
        PoolMode::Transaction => "transaction"@,
        PoolMode::Session => "session"@,
    }
}

impl PoolMode {
    /// The name of the mode.
    pub fn as_str(&self) -> (r: &'static str)
        ensures
            r@ == mode_name(*self),
    {
        match self {
            PoolMode::Transaction => "transaction",
            PoolMode::Session => "session",
        }
    }
}

/// Whether sessions are cleaned up before the next client gets them.
#[derive(Debug, Clone, Copy, PartialEq, Eq, Structural)]
pub enum CleanupMode {
    /// Dirty sessions are cleaned up.
    On,
    /// Dirty sessions are given up.
    Off,
}

/// How much TLS a backend connection uses.
#[derive(Debug, Clone, Copy, PartialEq, Eq, Structural)]
pub enum ServerTlsMode {
    /// Never.
    Disable,
    /// Only if the backend refuses a plain connection.
    Allow,
    /// If the backend offers it.
    Prefer,
    /// Always.
    Require,
    /// Always, with a trusted certificate.
    VerifyCa,
    /// Always, with a trusted certificate of that host.
    VerifyFull,
}

/// The mode that a configured word stands for.
pub open spec fn tls_mode_of(word: Seq<char>) -> Option<ServerTlsMode> {
    if word == "disable"@ {
        Some(ServerTlsMode::Disable)
    } else if word == "allow"@ {
        Some(ServerTlsMode::Allow)
    } else if word == "prefer"@ {
        Some(ServerTlsMode::Prefer)
    } else if word == "require"@ {
        Some(ServerTlsMode::Require)
    } else if word == "verify-ca"@ {
        Some(ServerTlsMode::VerifyCa)
    } else if word == "verify-full"@ {
        Some(ServerTlsMode::VerifyFull)
    } else {
        None
    }
}

impl ServerTlsMode {
    /// The mode that a configured word stands for.
    pub fn parse(word: &str) -> (r: Result<ServerTlsMode, Error>)
        ensures
            match r {
                Ok(mode) => tls_mode_of(word@) == Some(mode),
                Err(e) => tls_mode_of(word@).is_none() && (e matches Error::BadConfig(m) && m@
                    == text::join(seq!["unknown server_tls_mode '"@, word@, "'"@])),
            },
    {
        if same_text(word, "disable") {
            Ok(ServerTlsMode::Disable)
        } else if same_text(word, "allow") {
            Ok(ServerTlsMode::Allow)
        } else if same_text(word, "prefer") {
            Ok(ServerTlsMode::Prefer)
        } else if same_text(word, "require") {
            Ok(ServerTlsMode::Require)
        } else if same_text(word, "verify-ca") {
            Ok(ServerTlsMode::VerifyCa)
        } else if same_text(word, "verify-full") {
            Ok(ServerTlsMode::VerifyFull)
        } else {
            let parts = ["unknown server_tls_mode '", word, "'"];
            assert(text::views(parts@) =~= seq!["unknown server_tls_mode '"@, word@, "'"@]);
            Err(Error::BadConfig(concat(&parts)))
        }
    }

    /// Whether a refused plain connection is tried again with TLS.
    pub fn retries_with_tls(self) -> (r: bool)
        ensures
            r == (self == ServerTlsMode::Allow),
    {
        match self {
            ServerTlsMode::Allow => true,
            _ => false,
        }
    }
}

/// The TLS settings of a backend connection.
#[derive(Debug, Clone, Copy, PartialEq, Eq, Structural)]
pub struct ServerTlsConfig {
    pub mode: ServerTlsMode,
    /// A digest of the certificates as they were read.
    pub cert_hash: u64,
}

impl Default for ServerTlsConfig {
    /// No TLS.
    fn default() -> (r: Self)
        ensures
            r == (ServerTlsConfig { mode: ServerTlsMode::Disable, cert_hash: 0 }),
    {
        ServerTlsConfig { mode: ServerTlsMode::Disable, cert_hash: 0 }
    }
}

/// How the pooler proves the client's identity to the backend.
#[derive(Debug, Clone)]
pub enum BackendAuthMethod {
    /// The MD5 hash of the password is handed on.
    Md5PassTheHash(String),
    /// The client key of a SCRAM exchange is used again.
    ScramPassthrough(Vec<u8>),
    /// SCRAM, but no client has logged in yet.
    ScramPending,
}

/// Where a backend is and who logs in there.
#[derive(Debug)]
pub struct Address {
    pub host: String,
    pub port: u16,
    pub database: String,
    pub username: String,
    pub pool_name: String,
    pub server_tls: ServerTlsConfig,
}

/// The text by which an address is reported.
pub open spec fn address_text(a: Address) -> Seq<char> {
    text::join(
        seq![
            a.host@,
            ":"@,
            text::decimal(a.port as nat),
            "/"@,
            a.database@,
            "@"@,
            a.username@,
        ],
    )
}

impl Address {
    /// The text by which the address is reported.
    pub fn text(&self) -> (s: String)
        ensures
            s@ == address_text(*self),
    {
        let port = decimal_text(self.port as u64);
        let parts = [
            self.host.as_str(),
            ":",
            port.as_str(),
            "/",
            self.database.as_str(),
            "@",
            self.username.as_str(),
        ];
        assert(text::views(parts@) =~= seq![
            self.host@,
            ":"@,
            text::decimal(self.port as nat),
            "/"@,
            self.database@,
            "@"@,
            self.username@,
        ]);
        concat(&parts)
    }
}

impl Clone for Address {
    fn clone(&self) -> (r: Self)
        ensures
            r == *self,
    {
        Address {
            host: self.host.clone(),
            port: self.port,
            database: self.database.clone(),
            username: self.username.clone(),
            pool_name: self.pool_name.clone(),
            server_tls: self.server_tls,
        }
    }
}

impl Default for Address {
    /// The address of a local backend.
    fn default() -> (r: Self)
        ensures
            r.host@ == "127.0.0.1"@,
            r.port == 5432,
            r.database@ == "database"@,
            r.username@ == "username"@,
            r.pool_name@ == "pool_name"@,
            r.server_tls == (ServerTlsConfig { mode: ServerTlsMode::Disable, cert_hash: 0 }),
    {
        Address {
            host: "127.0.0.1".to_owned(),
            port: 5432,
            database: "database".to_owned(),
            username: "username".to_owned(),
            pool_name: "pool_name".to_owned(),
            server_tls: ServerTlsConfig { mode: ServerTlsMode::Disable, cert_hash: 0 },
        }
    }
}

/// A copy of a text that may be missing.
pub(crate) fn copy_opt(s: &Option<String>) -> (r: Option<String>)
    ensures
        r == *s,
{
    match s {
        Some(t) => Some(t.clone()),
        None => None,
    }
}

/// A user who may log in.
#[derive(Debug)]
pub struct User {
    pub username: String,
    pub password: String,
    /// The connections that the user's pool may have.
    pub pool_size: u32,
    /// The connections that are kept ready.
    pub min_pool_size: Option<u32>,
    /// Whom the backend sees.
    pub server_username: Option<String>,
    pub server_password: Option<String>,
    /// A mode of the user's own.
    pub pool_mode: Option<PoolMode>,
}

impl Clone for User {
    fn clone(&self) -> (r: Self)
        ensures
            r == *self,
    {
        User {
            username: self.username.clone(),
            password: self.password.clone(),
            pool_size: self.pool_size,
            min_pool_size: self.min_pool_size,
            server_username: copy_opt(&self.server_username),
            server_password: copy_opt(&self.server_password),
            pool_mode: self.pool_mode,
        }
    }
}

/// The pool size of a user for whom none is configured.
pub const DEFAULT_POOL_SIZE: u32 = 40;

/// The user of whom nothing is configured.
pub open spec fn is_default_user(u: User) -> bool {
    &&& u.username@ == "postgres"@
    &&& u.password@ == ""@
    &&& u.pool_size == DEFAULT_POOL_SIZE
    &&& u.min_pool_size.is_none()
    &&& u.server_username.is_none()
    &&& u.server_password.is_none()
    &&& u.pool_mode.is_none()
}

impl Default for User {
    fn default() -> (r: Self)
        ensures
            is_default_user(r),
    {
        User {
            username: "postgres".to_owned(),
            password: "".to_owned(),
            pool_size: DEFAULT_POOL_SIZE,
            min_pool_size: None,
            server_username: None,
            server_password: None,
            pool_mode: None,
        }
    }
}

/// How users are looked up that are not configured.
#[derive(Debug)]
pub struct AuthQueryConfig {
    pub query: String,
    pub user: String,
    pub password: String,
    /// Whom the backend sees in place of the users, if they share a pool.
    pub server_user: Option<String>,
    pub server_password: Option<String>,
    pub pool_size: u32,
    pub min_pool_size: u32,
}

/// The texts and numbers of such a lookup.
pub open spec fn auth_query_view(c: AuthQueryConfig) -> (
    (Seq<char>, Seq<char>, Seq<char>),
    (Option<Seq<char>>, Option<Seq<char>>),
    (u32, u32),
) {
    (
        (c.query@, c.user@, c.password@),
        (messages::opt_text(c.server_user), messages::opt_text(c.server_password)),
        (c.pool_size, c.min_pool_size),
    )
}

/// Whether two texts that may be missing are the same.
fn same_opt(a: &Option<String>, b: &Option<String>) -> (r: bool)
    ensures
        r == (messages::opt_text(*a) == messages::opt_text(*b)),
{
    match (a, b) {
        (Some(x), Some(y)) => same_text(x.as_str(), y.as_str()),
        (None, None) => true,
        _ => false,
    }
}

impl AuthQueryConfig {
    /// Whether the users share one pool.
    pub fn is_dedicated_mode(&self) -> (r: bool)
        ensures
            r == self.server_user.is_some(),
    {
        self.server_user.is_some()
    }

    /// Whether two lookups are configured in the same way.
    pub fn same(&self, other: &AuthQueryConfig) -> (r: bool)
        ensures
            r == (auth_query_view(*self) == auth_query_view(*other)),
    {
        same_text(self.query.as_str(), other.query.as_str()) && same_text(
            self.user.as_str(),
            other.user.as_str(),
        ) && same_text(self.password.as_str(), other.password.as_str()) && same_opt(
            &self.server_user,
            &other.server_user,
        ) && same_opt(&self.server_password, &other.server_password) && self.pool_size
            == other.pool_size && self.min_pool_size == other.min_pool_size
    }
}

impl Clone for AuthQueryConfig {
    fn clone(&self) -> (r: Self)
        ensures
            r == *self,
    {
        AuthQueryConfig {
            query: self.query.clone(),
            user: self.user.clone(),
            password: self.password.clone(),
            server_user: copy_opt(&self.server_user),
            server_password: copy_opt(&self.server_password),
            pool_size: self.pool_size,
            min_pool_size: self.min_pool_size,
        }
    }
}

/// What is configured for all pools. Times are in milliseconds.
#[derive(Debug)]
pub struct General {
    pub startup_parameters: StringMap<String>,
    pub sync_server_parameters: bool,
    pub cleanup_server_connections: CleanupMode,
    pub cleanup_server_query: Option<String>,
    pub server_tls_mode: String,
    pub server_tls_ca_cert: Option<String>,
    pub server_tls_certificate: Option<String>,
    pub server_tls_private_key: Option<String>,
    pub prepared_statements: bool,
    pub prepared_statements_cache_size: usize,
    pub server_prepared_statements_cache_size: Option<usize>,
    pub client_anonymous_prepared_cache_size: Option<usize>,
    pub max_concurrent_creates: usize,
    pub server_lifetime: u64,
    pub idle_timeout: u64,
    pub server_idle_check_timeout: u64,
    pub connect_timeout: u64,
    pub query_wait_timeout: u64,
    pub server_round_robin: bool,
    pub scaling: ScalingConfig,
    pub patroni_api_urls: Option<Vec<String>>,
    pub patroni_api_timeout: Option<u64>,
    pub fallback_cooldown: Option<u64>,
    pub fallback_connect_timeout: Option<u64>,
    pub fallback_lifetime: Option<u64>,
    pub retain_connections_time: u64,
    pub retain_connections_max: usize,
}

/// How long an idle connection is kept by default.
pub const DEFAULT_IDLE_TIMEOUT_MS: u64 = 600_000;

/// How long a connection lives by default.
pub const DEFAULT_SERVER_LIFETIME_MS: u64 = 1_200_000;

impl Default for General {
    fn default() -> (r: Self)
        ensures
            r.startup_parameters@ == Map::<Seq<char>, String>::empty(),
            !r.sync_server_parameters,
            r.cleanup_server_connections == CleanupMode::On,
            r.cleanup_server_query.is_none(),
            r.server_tls_mode@ == "allow"@,
            r.server_tls_ca_cert.is_none(),
            r.server_tls_certificate.is_none(),
            r.server_tls_private_key.is_none(),
            r.prepared_statements,
            r.prepared_statements_cache_size == 8192,
            r.server_prepared_statements_cache_size.is_none(),
            r.client_anonymous_prepared_cache_size.is_none(),
            r.max_concurrent_creates == 4,
            r.server_lifetime == DEFAULT_SERVER_LIFETIME_MS,
            r.idle_timeout == DEFAULT_IDLE_TIMEOUT_MS,
            r.server_idle_check_timeout == 60_000,
            r.connect_timeout == 3_000,
            r.query_wait_timeout == 5_000,
            !r.server_round_robin,
            r.scaling == (ScalingConfig { fast_retries: 10, max_parallel_creates: 2 }),
            r.patroni_api_urls.is_none(),
            r.patroni_api_timeout.is_none(),
            r.fallback_cooldown.is_none(),
            r.fallback_connect_timeout.is_none(),
            r.fallback_lifetime.is_none(),
            r.retain_connections_time == 30_000,
            r.retain_connections_max == 3,
    {
        General {
            startup_parameters: StringMap::new(),
            sync_server_parameters: false,
            cleanup_server_connections: CleanupMode::On,
            cleanup_server_query: None,
            server_tls_mode: "allow".to_owned(),
            server_tls_ca_cert: None,
            server_tls_certificate: None,
            server_tls_private_key: None,
            prepared_statements: true,
            prepared_statements_cache_size: 8192,
            server_prepared_statements_cache_size: None,
            client_anonymous_prepared_cache_size: None,
            max_concurrent_creates: 4,
            server_lifetime: DEFAULT_SERVER_LIFETIME_MS,
            idle_timeout: DEFAULT_IDLE_TIMEOUT_MS,
            server_idle_check_timeout: 60_000,
            connect_timeout: 3_000,
            query_wait_timeout: 5_000,
            server_round_robin: false,
            scaling: ScalingConfig { fast_retries: 10, max_parallel_creates: 2 },
            patroni_api_urls: None,
            patroni_api_timeout: None,
            fallback_cooldown: None,
            fallback_connect_timeout: None,
            fallback_lifetime: None,
            retain_connections_time: 30_000,
            retain_connections_max: 3,
        }
    }
}

impl General {
    /// How the part is written that every backend session depends on.
    pub open spec fn startup_writes(self) -> Seq<Seq<u8>> {
        digest::map_writes(string_map::texts(self.startup_parameters@)) + digest::flag_writes(
            self.sync_server_parameters,
        ) + digest::opt_text_writes(messages::opt_text(self.cleanup_server_query))
            + digest::number_writes(cleanup_number(self.cleanup_server_connections))
    }

    /// A digest of the part that every backend session depends on.
    pub fn startup_hash(&self) -> (r: u64)
        ensures
            r == digest::digest_of(self.startup_writes()),
    {
        let mut h = DefaultHasher::new();
        write_map(&mut h, &self.startup_parameters);
        write_flag(&mut h, self.sync_server_parameters);
        write_opt_text(&mut h, &self.cleanup_server_query);
        let number: u64 = match self.cleanup_server_connections {
            CleanupMode::On => 0,
            CleanupMode::Off => 1,
        };
        write_number(&mut h, number);
        assert(h@ =~= self.startup_writes());
        h.finish()
    }
}

/// The number that stands for a cleanup mode.
pub open spec fn cleanup_number(mode: CleanupMode) -> u64 {
    match mode {
        CleanupMode::On => 0,
        CleanupMode::Off => 1,
    }
}

/// What is configured for one database. Times are in milliseconds.
#[derive(Debug)]
pub struct Pool {
    pub pool_mode: PoolMode,
    pub server_host: String,
    pub server_port: u16,
    pub server_database: Option<String>,
    pub application_name: Option<String>,
    pub users: Vec<User>,
    pub auth_query: Option<AuthQueryConfig>,
    pub startup_parameters: StringMap<String>,
    pub sync_server_parameters: Option<bool>,
    pub cleanup_server_connections: Option<CleanupMode>,
    pub cleanup_server_query: Option<String>,
    pub log_client_parameter_status_changes: bool,
    pub prepared_statements_cache_size: Option<usize>,
    pub server_prepared_statements_cache_size: Option<usize>,
    pub server_lifetime: Option<u64>,
    pub idle_timeout: Option<u64>,
    pub server_tls_mode: Option<String>,
    pub server_tls_ca_cert: Option<String>,
    pub server_tls_certificate: Option<String>,
    pub server_tls_private_key: Option<String>,
    pub max_db_connections: Option<u32>,
    pub min_connection_lifetime: Option<u64>,
    pub reserve_pool_size: Option<u32>,
    pub reserve_pool_timeout: Option<u64>,
    pub min_guaranteed_pool_size: Option<u32>,
    pub scaling_fast_retries: Option<u32>,
    pub scaling_max_parallel_creates: Option<u32>,
    pub patroni_api_urls: Option<Vec<String>>,
    pub patroni_api_timeout: Option<u64>,
    pub fallback_cooldown: Option<u64>,
    pub fallback_connect_timeout: Option<u64>,
    pub fallback_lifetime: Option<u64>,
}

impl Default for Pool {
    fn default() -> (r: Self)
        ensures
            r.pool_mode == PoolMode::Transaction,
            r.server_host@ == "127.0.0.1"@,
            r.server_port == 5432,
            r.server_database.is_none(),
            r.application_name.is_none(),
            r.users@.len() == 0,
            r.auth_query.is_none(),
            r.startup_parameters@ == Map::<Seq<char>, String>::empty(),
            r.sync_server_parameters.is_none(),
            r.cleanup_server_connections.is_none(),
            r.cleanup_server_query.is_none(),
            !r.log_client_parameter_status_changes,
            r.prepared_statements_cache_size.is_none(),
            r.server_prepared_statements_cache_size.is_none(),
            r.server_lifetime.is_none(),
            r.idle_timeout.is_none(),
            r.server_tls_mode.is_none(),
            r.server_tls_ca_cert.is_none(),
            r.server_tls_certificate.is_none(),
            r.server_tls_private_key.is_none(),
            r.max_db_connections.is_none(),
            r.min_connection_lifetime.is_none(),
            r.reserve_pool_size.is_none(),
            r.reserve_pool_timeout.is_none(),
            r.min_guaranteed_pool_size.is_none(),
            r.scaling_fast_retries.is_none(),
            r.scaling_max_parallel_creates.is_none(),
            r.patroni_api_urls.is_none(),
            r.patroni_api_timeout.is_none(),
            r.fallback_cooldown.is_none(),
            r.fallback_connect_timeout.is_none(),
            r.fallback_lifetime.is_none(),
    {
        Pool {
            pool_mode: PoolMode::Transaction,
            server_host: "127.0.0.1".to_owned(),
            server_port: 5432,
            server_database: None,
            application_name: None,
            users: Vec::new(),
            auth_query: None,
            startup_parameters: StringMap::new(),
            sync_server_parameters: None,
            cleanup_server_connections: None,
            cleanup_server_query: None,
            log_client_parameter_status_changes: false,
            prepared_statements_cache_size: None,
            server_prepared_statements_cache_size: None,
            server_lifetime: None,
            idle_timeout: None,
            server_tls_mode: None,
            server_tls_ca_cert: None,
            server_tls_certificate: None,
            server_tls_private_key: None,
            max_db_connections: None,
            min_connection_lifetime: None,
            reserve_pool_size: None,
            reserve_pool_timeout: None,
            min_guaranteed_pool_size: None,
            scaling_fast_retries: None,
            scaling_max_parallel_creates: None,
            patroni_api_urls: None,
            patroni_api_timeout: None,
            fallback_cooldown: None,
            fallback_connect_timeout: None,
            fallback_lifetime: None,
        }
    }
}

/// The number that stands for a pool mode.
pub open spec fn mode_number(mode: PoolMode) -> u64 {
    match mode {
        PoolMode::Transaction => 0,
        PoolMode::Session => 1,
    }
}

/// The number that stands for a pool mode.
fn number_of_mode(mode: PoolMode) -> (r: u64)
    ensures
        r == mode_number(mode),
{
    match mode {
        PoolMode::Transaction => 0,
        PoolMode::Session => 1,
    }
}

/// A wider number.
pub open spec fn wide(n: Option<u32>) -> Option<u64> {
    match n {
        Some(n) => Some(n as u64),
        None => None,
    }
}

/// A wider number.
fn widen(n: Option<u32>) -> (r: Option<u64>)
    ensures
        r == wide(n),
{
    match n {
        Some(n) => Some(n as u64),
        None => None,
    }
}

/// A size as a number.
pub open spec fn size_number(n: Option<usize>) -> Option<u64> {
    match n {
        Some(n) => Some(n as u64),
        None => None,
    }
}

/// A size as a number.
fn number_of_size(n: Option<usize>) -> (r: Option<u64>)
    ensures
        r == size_number(n),
{
    match n {
        Some(n) => Some(n as u64),
        None => None,
    }
}

impl User {
    /// How a user is written.
    pub open spec fn writes(self) -> Seq<Seq<u8>> {
        digest::text_writes(self.username@) + digest::text_writes(self.password@)
            + digest::number_writes(self.pool_size as u64) + digest::opt_number_writes(
            wide(self.min_pool_size),
        ) + digest::opt_text_writes(messages::opt_text(self.server_username))
            + digest::opt_text_writes(messages::opt_text(self.server_password))
            + digest::opt_number_writes(
            match self.pool_mode {
                Some(mode) => Some(mode_number(mode)),
                None => None,
            },
        )
    }

    /// Writes the user.
    fn write(&self, h: &mut DefaultHasher)
        ensures
            final(h)@ == old(h)@ + self.writes(),
    {
        write_text(h, self.username.as_str());
        write_text(h, self.password.as_str());
        write_number(h, self.pool_size as u64);
        write_opt_number(h, widen(self.min_pool_size));
        write_opt_text(h, &self.server_username);
        write_opt_text(h, &self.server_password);
        let mode: Option<u64> = match self.pool_mode {
            Some(mode) => Some(number_of_mode(mode)),
            None => None,
        };
        write_opt_number(h, mode);
        assert(h@ =~= old(h)@ + self.writes());
    }
}

/// How users are written.
pub open spec fn users_writes(users: Seq<User>) -> Seq<Seq<u8>>
    decreases users.len(),
{
    if users.len() == 0 {
        Seq::empty()
    } else {
        users_writes(users.drop_last()) + users.last().writes()
    }
}

/// Writes the users.
fn write_users(h: &mut DefaultHasher, users: &Vec<User>)
    ensures
        final(h)@ == old(h)@ + users_writes(users@),
{
    let mut i: usize = 0;
    let ghost head = h@;
    proof {
        assert(users@.take(0) =~= Seq::<User>::empty());
        assert(head =~= head + users_writes(users@.take(0)));
    }
    while i < users.len()
        invariant
            i <= users@.len(),
            h@ == head + users_writes(users@.take(i as int)),
        decreases users.len() - i,
    {
        users[i].write(h);
        proof {
            assert(users@.take(i + 1).drop_last() =~= users@.take(i as int));
            assert(h@ =~= head + users_writes(users@.take(i + 1)));
        }
        i = i + 1;
    }
    assert(users@.take(users@.len() as int) =~= users@);
}

impl Pool {
    /// What was written before, and the backend and the sessions on it.
    pub open spec fn session_writes(self, before: Seq<Seq<u8>>) -> Seq<Seq<u8>> {
        before + digest::number_writes(mode_number(self.pool_mode)) + digest::text_writes(
            self.server_host@,
        ) + digest::number_writes(self.server_port as u64) + digest::opt_text_writes(
            messages::opt_text(self.server_database),
        ) + digest::opt_text_writes(messages::opt_text(self.application_name))
            + digest::number_writes(self.users@.len() as u64) + users_writes(self.users@)
            + digest::map_writes(string_map::texts(self.startup_parameters@))
            + digest::opt_number_writes(
            match self.sync_server_parameters {
                Some(b) => Some(
                    if b {
                        1u64
                    } else {
                        0u64
                    },
                ),
                None => None,
            },
        ) + digest::opt_number_writes(
            match self.cleanup_server_connections {
                Some(mode) => Some(cleanup_number(mode)),
                None => None,
            },
        ) + digest::opt_text_writes(messages::opt_text(self.cleanup_server_query))
            + digest::flag_writes(self.log_client_parameter_status_changes)
            + digest::opt_number_writes(size_number(self.prepared_statements_cache_size))
            + digest::opt_number_writes(size_number(self.server_prepared_statements_cache_size))
    }

    /// Writes the backend and the sessions on it.
    fn write_session(&self, h: &mut DefaultHasher)
        ensures
            final(h)@ == self.session_writes(old(h)@),
    {
        write_number(h, number_of_mode(self.pool_mode));
        write_text(h, self.server_host.as_str());
        write_number(h, self.server_port as u64);
        write_opt_text(h, &self.server_database);
        write_opt_text(h, &self.application_name);
        write_number(h, self.users.len() as u64);
        write_users(h, &self.users);
        write_map(h, &self.startup_parameters);
        let sync: Option<u64> = match self.sync_server_parameters {
            Some(b) => Some(
                if b {
                    1
                } else {
                    0
                },
            ),
            None => None,
        };
        write_opt_number(h, sync);
        let cleanup: Option<u64> = match self.cleanup_server_connections {
            Some(CleanupMode::On) => Some(0),
            Some(CleanupMode::Off) => Some(1),
            None => None,
        };
        write_opt_number(h, cleanup);
        write_opt_text(h, &self.cleanup_server_query);
        write_flag(h, self.log_client_parameter_status_changes);
        write_opt_number(h, number_of_size(self.prepared_statements_cache_size));
        write_opt_number(h, number_of_size(self.server_prepared_statements_cache_size));
    }

    /// What was written before, and the limits.
    pub open spec fn limit_writes(self, before: Seq<Seq<u8>>) -> Seq<Seq<u8>> {
        before + digest::opt_number_writes(self.server_lifetime) + digest::opt_number_writes(
            self.idle_timeout,
        ) + digest::opt_text_writes(messages::opt_text(self.server_tls_mode))
            + digest::opt_text_writes(messages::opt_text(self.server_tls_ca_cert))
            + digest::opt_text_writes(messages::opt_text(self.server_tls_certificate))
            + digest::opt_text_writes(messages::opt_text(self.server_tls_private_key))
            + digest::opt_number_writes(wide(self.max_db_connections))
            + digest::opt_number_writes(self.min_connection_lifetime) + digest::opt_number_writes(
            wide(self.reserve_pool_size),
        ) + digest::opt_number_writes(self.reserve_pool_timeout) + digest::opt_number_writes(
            wide(self.min_guaranteed_pool_size),
        ) + digest::opt_number_writes(wide(self.scaling_fast_retries))
            + digest::opt_number_writes(wide(self.scaling_max_parallel_creates))
            + digest::opt_list_writes(self.patroni_api_urls) + digest::opt_number_writes(
            self.patroni_api_timeout,
        ) + digest::opt_number_writes(self.fallback_cooldown) + digest::opt_number_writes(
            self.fallback_connect_timeout,
        ) + digest::opt_number_writes(self.fallback_lifetime)
    }

    /// Writes the limits.
    fn write_limits(&self, h: &mut DefaultHasher)
        ensures
            final(h)@ == self.limit_writes(old(h)@),
    {
        write_opt_number(h, self.server_lifetime);
        write_opt_number(h, self.idle_timeout);
        write_opt_text(h, &self.server_tls_mode);
        write_opt_text(h, &self.server_tls_ca_cert);
        write_opt_text(h, &self.server_tls_certificate);
        write_opt_text(h, &self.server_tls_private_key);
        write_opt_number(h, widen(self.max_db_connections));
        write_opt_number(h, self.min_connection_lifetime);
        write_opt_number(h, widen(self.reserve_pool_size));
        write_opt_number(h, self.reserve_pool_timeout);
        write_opt_number(h, widen(self.min_guaranteed_pool_size));
        write_opt_number(h, widen(self.scaling_fast_retries));
        write_opt_number(h, widen(self.scaling_max_parallel_creates));
        write_opt_list(h, &self.patroni_api_urls);
        write_opt_number(h, self.patroni_api_timeout);
        write_opt_number(h, self.fallback_cooldown);
        write_opt_number(h, self.fallback_connect_timeout);
        write_opt_number(h, self.fallback_lifetime);
    }

    /// The digest of all that is configured for the database, except how
    /// users are looked up.
    pub open spec fn digest(self) -> u64 {
        digest::digest_of(self.limit_writes(self.session_writes(Seq::empty())))
    }

    /// A digest of all that is configured for the database, except how users
    /// are looked up.
    pub fn hash_value(&self) -> (r: u64)
        ensures
            r == self.digest(),
    {
        let mut h = DefaultHasher::new();
        self.write_session(&mut h);
        self.write_limits(&mut h);
        h.finish()
    }

    /// Whether parameters that clients set are brought to the backends.
    pub fn effective_sync_server_parameters(&self, general: &General) -> (r: bool)
        ensures
            r == match self.sync_server_parameters {
                Some(b) => b,
                None => general.sync_server_parameters,
            },
    {
        match self.sync_server_parameters {
            Some(b) => b,
            None => general.sync_server_parameters,
        }
    }

    /// Whether dirty sessions are cleaned up.
    pub fn effective_cleanup_server_connections(&self, general: &General) -> (r: CleanupMode)
        ensures
            r == match self.cleanup_server_connections {
                Some(mode) => mode,
                None => general.cleanup_server_connections,
            },
    {
        match self.cleanup_server_connections {
            Some(mode) => mode,
            None => general.cleanup_server_connections,
        }
    }

    /// The query that resets a session fully.
    pub fn effective_cleanup_server_query(&self, general: &General) -> (r: Option<String>)
        ensures
            r == match self.cleanup_server_query {
                Some(q) => Some(q),
                None => general.cleanup_server_query,
            },
    {
        match &self.cleanup_server_query {
            Some(q) => Some(q.clone()),
            None => copy_opt(&general.cleanup_server_query),
        }
    }

    /// How the pools of the database grow.
    pub fn resolve_scaling_config(&self, general: &General) -> (r: ScalingConfig)
        ensures
            r == (ScalingConfig {
                fast_retries: match self.scaling_fast_retries {
                    Some(n) => n,
                    None => general.scaling.fast_retries,
                },
                max_parallel_creates: match self.scaling_max_parallel_creates {
                    Some(n) => n,
                    None => general.scaling.max_parallel_creates,
                },
            }),
    {
        ScalingConfig {
            fast_retries: match self.scaling_fast_retries {
                Some(n) => n,
                None => general.scaling.fast_retries,
            },
            max_parallel_creates: match self.scaling_max_parallel_creates {
                Some(n) => n,
                None => general.scaling.max_parallel_creates,
            },
        }
    }
}

/// The whole configuration.
#[derive(Debug)]
pub struct Config {
    pub general: General,
    /// The databases by their names.
    pub pools: StringMap<Pool>,
}

/// A mode that may be missing as a number.
pub open spec fn written_mode(mode: Option<PoolMode>) -> Option<u64> {
    match mode {
        Some(mode) => Some(mode_number(mode)),
        None => None,
    }
}

/// A cleanup mode that may be missing as a number.
pub open spec fn written_cleanup(mode: Option<CleanupMode>) -> Option<u64> {
    match mode {
        Some(mode) => Some(cleanup_number(mode)),
        None => None,
    }
}

/// A flag that may be missing as a number.
pub open spec fn written_flag(flag: Option<bool>) -> Option<u64> {
    match flag {
        Some(b) => Some(
            if b {
                1u64
            } else {
                0u64
            },
        ),
        None => None,
    }
}

/// Two users are configured in the same way.
pub open spec fn same_user(a: User, b: User) -> bool {
    &&& a.username@ == b.username@
    &&& a.password@ == b.password@
    &&& a.pool_size == b.pool_size
    &&& a.min_pool_size == b.min_pool_size
    &&& messages::opt_text(a.server_username) == messages::opt_text(b.server_username)
    &&& messages::opt_text(a.server_password) == messages::opt_text(b.server_password)
    &&& a.pool_mode == b.pool_mode
}

/// The same users are configured, in the same order.
pub open spec fn same_users(a: Seq<User>, b: Seq<User>) -> bool {
    &&& a.len() == b.len()
    &&& forall|i: int| 0 <= i < a.len() ==> same_user(#[trigger] a[i], b[i])
}

/// A written user tells what is configured for them.
proof fn user_tells(w: Seq<Seq<u8>>, at: int, a: User, b: User)
    requires
        digest::stands_at(w, at, a.writes()),
        digest::stands_at(w, at, b.writes()),
    ensures
        same_user(a, b),
        a.writes().len() == b.writes().len(),
{
    let left1 = digest::text_writes(a.username@);
    let left2 = left1 + digest::text_writes(a.password@);
    let left3 = left2 + digest::number_writes(a.pool_size as u64);
    let left4 = left3 + digest::opt_number_writes(wide(a.min_pool_size));
    let left5 = left4 + digest::opt_text_writes(messages::opt_text(a.server_username));
    let left6 = left5 + digest::opt_text_writes(messages::opt_text(a.server_password));
    let left7 = left6 + digest::opt_number_writes(written_mode(a.pool_mode));
    let right1 = digest::text_writes(b.username@);
    let right2 = right1 + digest::text_writes(b.password@);
    let right3 = right2 + digest::number_writes(b.pool_size as u64);
    let right4 = right3 + digest::opt_number_writes(wide(b.min_pool_size));
    let right5 = right4 + digest::opt_text_writes(messages::opt_text(b.server_username));
    let right6 = right5 + digest::opt_text_writes(messages::opt_text(b.server_password));
    let right7 = right6 + digest::opt_number_writes(written_mode(b.pool_mode));
    digest::parts_stand(w, at, left6, digest::opt_number_writes(written_mode(a.pool_mode)));
    digest::parts_stand(w, at, left5, digest::opt_text_writes(messages::opt_text(a.server_password)));
    digest::parts_stand(w, at, left4, digest::opt_text_writes(messages::opt_text(a.server_username)));
    digest::parts_stand(w, at, left3, digest::opt_number_writes(wide(a.min_pool_size)));
    digest::parts_stand(w, at, left2, digest::number_writes(a.pool_size as u64));
    digest::parts_stand(w, at, left1, digest::text_writes(a.password@));
    digest::parts_stand(w, at, right6, digest::opt_number_writes(written_mode(b.pool_mode)));
    digest::parts_stand(w, at, right5, digest::opt_text_writes(messages::opt_text(b.server_password)));
    digest::parts_stand(w, at, right4, digest::opt_text_writes(messages::opt_text(b.server_username)));
    digest::parts_stand(w, at, right3, digest::opt_number_writes(wide(b.min_pool_size)));
    digest::parts_stand(w, at, right2, digest::number_writes(b.pool_size as u64));
    digest::parts_stand(w, at, right1, digest::text_writes(b.password@));
    digest::texts_tell(w, at, a.username@, b.username@);
    digest::texts_tell(w, at + left1.len(), a.password@, b.password@);
    digest::numbers_tell(w, at + left2.len(), a.pool_size as u64, b.pool_size as u64);
    digest::opt_numbers_tell(w, at + left3.len(), wide(a.min_pool_size), wide(b.min_pool_size));
    digest::opt_texts_tell(w, at + left4.len(), messages::opt_text(a.server_username), messages::opt_text(b.server_username));
    digest::opt_texts_tell(w, at + left5.len(), messages::opt_text(a.server_password), messages::opt_text(b.server_password));
    digest::opt_numbers_tell(w, at + left6.len(), written_mode(a.pool_mode), written_mode(b.pool_mode));
}

/// Written users, as many of them, tell what is configured for each.
proof fn users_tell(w: Seq<Seq<u8>>, at: int, a: Seq<User>, b: Seq<User>)
    requires
        a.len() == b.len(),
        digest::stands_at(w, at, users_writes(a)),
        digest::stands_at(w, at, users_writes(b)),
    ensures
        same_users(a, b),
        users_writes(a).len() == users_writes(b).len(),
    decreases a.len(),
{
    if a.len() > 0 {
        let x = a.drop_last();
        let y = b.drop_last();
        digest::parts_stand(w, at, users_writes(x), a.last().writes());
        digest::parts_stand(w, at, users_writes(y), b.last().writes());
        users_tell(w, at, x, y);
        user_tells(w, at + users_writes(x).len(), a.last(), b.last());
        assert forall|i: int| 0 <= i < a.len() implies same_user(#[trigger] a[i], b[i]) by {
            if i < x.len() {
                assert(same_user(x[i], y[i]));
            }
        }
    }
}

/// The lists of a database are as long as can be counted.
pub open spec fn countable(p: Pool) -> bool {
    &&& p.users@.len() <= u64::MAX
    &&& string_map::in_order(string_map::texts(p.startup_parameters@)).len() <= u64::MAX
    &&& p.patroni_api_urls.is_some() ==> p.patroni_api_urls.unwrap()@.len() <= u64::MAX
}

/// The backend and the sessions on it are configured in the same way.
pub open spec fn same_sessions(p: Pool, q: Pool) -> bool {
    &&& p.pool_mode == q.pool_mode
    &&& p.server_host@ == q.server_host@
    &&& p.server_port == q.server_port
    &&& messages::opt_text(p.server_database) == messages::opt_text(q.server_database)
    &&& messages::opt_text(p.application_name) == messages::opt_text(q.application_name)
    &&& same_users(p.users@, q.users@)
    &&& string_map::in_order(string_map::texts(p.startup_parameters@)) == string_map::in_order(
        string_map::texts(q.startup_parameters@),
    )
    &&& p.sync_server_parameters == q.sync_server_parameters
    &&& p.cleanup_server_connections == q.cleanup_server_connections
    &&& messages::opt_text(p.cleanup_server_query) == messages::opt_text(q.cleanup_server_query)
    &&& p.log_client_parameter_status_changes == q.log_client_parameter_status_changes
    &&& p.prepared_statements_cache_size == q.prepared_statements_cache_size
    &&& p.server_prepared_statements_cache_size == q.server_prepared_statements_cache_size
}

/// The limits are configured in the same way.
pub open spec fn same_limits(p: Pool, q: Pool) -> bool {
    &&& p.server_lifetime == q.server_lifetime
    &&& p.idle_timeout == q.idle_timeout
    &&& messages::opt_text(p.server_tls_mode) == messages::opt_text(q.server_tls_mode)
    &&& messages::opt_text(p.server_tls_ca_cert) == messages::opt_text(q.server_tls_ca_cert)
    &&& messages::opt_text(p.server_tls_certificate) == messages::opt_text(q.server_tls_certificate)
    &&& messages::opt_text(p.server_tls_private_key) == messages::opt_text(q.server_tls_private_key)
    &&& p.max_db_connections == q.max_db_connections
    &&& p.min_connection_lifetime == q.min_connection_lifetime
    &&& p.reserve_pool_size == q.reserve_pool_size
    &&& p.reserve_pool_timeout == q.reserve_pool_timeout
    &&& p.min_guaranteed_pool_size == q.min_guaranteed_pool_size
    &&& p.scaling_fast_retries == q.scaling_fast_retries
    &&& p.scaling_max_parallel_creates == q.scaling_max_parallel_creates
    &&& p.patroni_api_timeout == q.patroni_api_timeout
    &&& p.fallback_cooldown == q.fallback_cooldown
    &&& p.fallback_connect_timeout == q.fallback_connect_timeout
    &&& p.fallback_lifetime == q.fallback_lifetime
    &&& p.patroni_api_urls.is_some() == q.patroni_api_urls.is_some()
    &&& p.patroni_api_urls.is_some() ==> digest::list_texts(p.patroni_api_urls.unwrap()@)
        == digest::list_texts(q.patroni_api_urls.unwrap()@)
}

/// What is written of the sessions tells how they are configured.
#[verifier::rlimit(60)]
proof fn sessions_tell(w: Seq<Seq<u8>>, p: Pool, q: Pool)
    requires
        countable(p),
        countable(q),
        digest::stands_at(w, 0, p.session_writes(Seq::empty())),
        digest::stands_at(w, 0, q.session_writes(Seq::empty())),
    ensures
        same_sessions(p, q),
        p.session_writes(Seq::empty()).len() == q.session_writes(Seq::empty()).len(),
{
    let none = Seq::<Seq<u8>>::empty();
    let left1 = none + digest::number_writes(mode_number(p.pool_mode));
    let left2 = left1 + digest::text_writes(p.server_host@);
    let left3 = left2 + digest::number_writes(p.server_port as u64);
    let left4 = left3 + digest::opt_text_writes(messages::opt_text(p.server_database));
    let left5 = left4 + digest::opt_text_writes(messages::opt_text(p.application_name));
    let left6 = left5 + digest::number_writes(p.users@.len() as u64);
    let left7 = left6 + users_writes(p.users@);
    let left8 = left7 + digest::map_writes(string_map::texts(p.startup_parameters@));
    let left9 = left8 + digest::opt_number_writes(written_flag(p.sync_server_parameters));
    let left10 = left9 + digest::opt_number_writes(written_cleanup(p.cleanup_server_connections));
    let left11 = left10 + digest::opt_text_writes(messages::opt_text(p.cleanup_server_query));
    let left12 = left11 + digest::flag_writes(p.log_client_parameter_status_changes);
    let left13 = left12 + digest::opt_number_writes(size_number(p.prepared_statements_cache_size));
    let left14 = left13 + digest::opt_number_writes(size_number(p.server_prepared_statements_cache_size));
    let right1 = none + digest::number_writes(mode_number(q.pool_mode));
    let right2 = right1 + digest::text_writes(q.server_host@);
    let right3 = right2 + digest::number_writes(q.server_port as u64);
    let right4 = right3 + digest::opt_text_writes(messages::opt_text(q.server_database));
    let right5 = right4 + digest::opt_text_writes(messages::opt_text(q.application_name));
    let right6 = right5 + digest::number_writes(q.users@.len() as u64);
    let right7 = right6 + users_writes(q.users@);
    let right8 = right7 + digest::map_writes(string_map::texts(q.startup_parameters@));
    let right9 = right8 + digest::opt_number_writes(written_flag(q.sync_server_parameters));
    let right10 = right9 + digest::opt_number_writes(written_cleanup(q.cleanup_server_connections));
    let right11 = right10 + digest::opt_text_writes(messages::opt_text(q.cleanup_server_query));
    let right12 = right11 + digest::flag_writes(q.log_client_parameter_status_changes);
    let right13 = right12 + digest::opt_number_writes(size_number(q.prepared_statements_cache_size));
    let right14 = right13 + digest::opt_number_writes(size_number(q.server_prepared_statements_cache_size));
    digest::parts_stand(w, 0, left13, digest::opt_number_writes(size_number(p.server_prepared_statements_cache_size)));
    digest::parts_stand(w, 0, left12, digest::opt_number_writes(size_number(p.prepared_statements_cache_size)));
    digest::parts_stand(w, 0, left11, digest::flag_writes(p.log_client_parameter_status_changes));
    digest::parts_stand(w, 0, left10, digest::opt_text_writes(messages::opt_text(p.cleanup_server_query)));
    digest::parts_stand(w, 0, left9, digest::opt_number_writes(written_cleanup(p.cleanup_server_connections)));
    digest::parts_stand(w, 0, left8, digest::opt_number_writes(written_flag(p.sync_server_parameters)));
    digest::parts_stand(w, 0, left7, digest::map_writes(string_map::texts(p.startup_parameters@)));
    digest::parts_stand(w, 0, left6, users_writes(p.users@));
    digest::parts_stand(w, 0, left5, digest::number_writes(p.users@.len() as u64));
    digest::parts_stand(w, 0, left4, digest::opt_text_writes(messages::opt_text(p.application_name)));
    digest::parts_stand(w, 0, left3, digest::opt_text_writes(messages::opt_text(p.server_database)));
    digest::parts_stand(w, 0, left2, digest::number_writes(p.server_port as u64));
    digest::parts_stand(w, 0, left1, digest::text_writes(p.server_host@));
    digest::parts_stand(w, 0, none, digest::number_writes(mode_number(p.pool_mode)));
    digest::parts_stand(w, 0, right13, digest::opt_number_writes(size_number(q.server_prepared_statements_cache_size)));
    digest::parts_stand(w, 0, right12, digest::opt_number_writes(size_number(q.prepared_statements_cache_size)));
    digest::parts_stand(w, 0, right11, digest::flag_writes(q.log_client_parameter_status_changes));
    digest::parts_stand(w, 0, right10, digest::opt_text_writes(messages::opt_text(q.cleanup_server_query)));
    digest::parts_stand(w, 0, right9, digest::opt_number_writes(written_cleanup(q.cleanup_server_connections)));
    digest::parts_stand(w, 0, right8, digest::opt_number_writes(written_flag(q.sync_server_parameters)));
    digest::parts_stand(w, 0, right7, digest::map_writes(string_map::texts(q.startup_parameters@)));
    digest::parts_stand(w, 0, right6, users_writes(q.users@));
    digest::parts_stand(w, 0, right5, digest::number_writes(q.users@.len() as u64));
    digest::parts_stand(w, 0, right4, digest::opt_text_writes(messages::opt_text(q.application_name)));
    digest::parts_stand(w, 0, right3, digest::opt_text_writes(messages::opt_text(q.server_database)));
    digest::parts_stand(w, 0, right2, digest::number_writes(q.server_port as u64));
    digest::parts_stand(w, 0, right1, digest::text_writes(q.server_host@));
    digest::parts_stand(w, 0, none, digest::number_writes(mode_number(q.pool_mode)));
    digest::numbers_tell(w, none.len() as int, mode_number(p.pool_mode), mode_number(q.pool_mode));
    digest::texts_tell(w, left1.len() as int, p.server_host@, q.server_host@);
    digest::numbers_tell(w, left2.len() as int, p.server_port as u64, q.server_port as u64);
    digest::opt_texts_tell(w, left3.len() as int, messages::opt_text(p.server_database), messages::opt_text(q.server_database));
    digest::opt_texts_tell(w, left4.len() as int, messages::opt_text(p.application_name), messages::opt_text(q.application_name));
    digest::numbers_tell(w, left5.len() as int, p.users@.len() as u64, q.users@.len() as u64);
    users_tell(w, left6.len() as int, p.users@, q.users@);
    digest::maps_tell(w, left7.len() as int, string_map::texts(p.startup_parameters@), string_map::texts(q.startup_parameters@));
    digest::opt_numbers_tell(w, left8.len() as int, written_flag(p.sync_server_parameters), written_flag(q.sync_server_parameters));
    digest::opt_numbers_tell(w, left9.len() as int, written_cleanup(p.cleanup_server_connections), written_cleanup(q.cleanup_server_connections));
    digest::opt_texts_tell(w, left10.len() as int, messages::opt_text(p.cleanup_server_query), messages::opt_text(q.cleanup_server_query));
    digest::flags_tell(w, left11.len() as int, p.log_client_parameter_status_changes, q.log_client_parameter_status_changes);
    digest::opt_numbers_tell(w, left12.len() as int, size_number(p.prepared_statements_cache_size), size_number(q.prepared_statements_cache_size));
    digest::opt_numbers_tell(w, left13.len() as int, size_number(p.server_prepared_statements_cache_size), size_number(q.server_prepared_statements_cache_size));
}

/// What a digest of a database is made from tells everything that is configured for it,
/// except how users are looked up: two databases of which the same is written are
/// configured in the same way.
#[verifier::rlimit(60)]
pub proof fn every_setting_is_written(p: Pool, q: Pool)
    requires
        countable(p),
        countable(q),
        p.limit_writes(p.session_writes(Seq::empty())) == q.limit_writes(
            q.session_writes(Seq::empty()),
        ),
    ensures
        same_sessions(p, q),
        same_limits(p, q),
{
    let w = p.limit_writes(p.session_writes(Seq::empty()));
    digest::whole_stands(w);
    let left0 = p.session_writes(Seq::empty());
    let right0 = q.session_writes(Seq::empty());
    let left1 = left0 + digest::opt_number_writes(p.server_lifetime);
    let left2 = left1 + digest::opt_number_writes(p.idle_timeout);
    let left3 = left2 + digest::opt_text_writes(messages::opt_text(p.server_tls_mode));
    let left4 = left3 + digest::opt_text_writes(messages::opt_text(p.server_tls_ca_cert));
    let left5 = left4 + digest::opt_text_writes(messages::opt_text(p.server_tls_certificate));
    let left6 = left5 + digest::opt_text_writes(messages::opt_text(p.server_tls_private_key));
    let left7 = left6 + digest::opt_number_writes(wide(p.max_db_connections));
    let left8 = left7 + digest::opt_number_writes(p.min_connection_lifetime);
    let left9 = left8 + digest::opt_number_writes(wide(p.reserve_pool_size));
    let left10 = left9 + digest::opt_number_writes(p.reserve_pool_timeout);
    let left11 = left10 + digest::opt_number_writes(wide(p.min_guaranteed_pool_size));
    let left12 = left11 + digest::opt_number_writes(wide(p.scaling_fast_retries));
    let left13 = left12 + digest::opt_number_writes(wide(p.scaling_max_parallel_creates));
    let left14 = left13 + digest::opt_list_writes(p.patroni_api_urls);
    let left15 = left14 + digest::opt_number_writes(p.patroni_api_timeout);
    let left16 = left15 + digest::opt_number_writes(p.fallback_cooldown);
    let left17 = left16 + digest::opt_number_writes(p.fallback_connect_timeout);
    let left18 = left17 + digest::opt_number_writes(p.fallback_lifetime);
    let right1 = right0 + digest::opt_number_writes(q.server_lifetime);
    let right2 = right1 + digest::opt_number_writes(q.idle_timeout);
    let right3 = right2 + digest::opt_text_writes(messages::opt_text(q.server_tls_mode));
    let right4 = right3 + digest::opt_text_writes(messages::opt_text(q.server_tls_ca_cert));
    let right5 = right4 + digest::opt_text_writes(messages::opt_text(q.server_tls_certificate));
    let right6 = right5 + digest::opt_text_writes(messages::opt_text(q.server_tls_private_key));
    let right7 = right6 + digest::opt_number_writes(wide(q.max_db_connections));
    let right8 = right7 + digest::opt_number_writes(q.min_connection_lifetime);
    let right9 = right8 + digest::opt_number_writes(wide(q.reserve_pool_size));
    let right10 = right9 + digest::opt_number_writes(q.reserve_pool_timeout);
    let right11 = right10 + digest::opt_number_writes(wide(q.min_guaranteed_pool_size));
    let right12 = right11 + digest::opt_number_writes(wide(q.scaling_fast_retries));
    let right13 = right12 + digest::opt_number_writes(wide(q.scaling_max_parallel_creates));
    let right14 = right13 + digest::opt_list_writes(q.patroni_api_urls);
    let right15 = right14 + digest::opt_number_writes(q.patroni_api_timeout);
    let right16 = right15 + digest::opt_number_writes(q.fallback_cooldown);
    let right17 = right16 + digest::opt_number_writes(q.fallback_connect_timeout);
    let right18 = right17 + digest::opt_number_writes(q.fallback_lifetime);
    digest::parts_stand(w, 0, left17, digest::opt_number_writes(p.fallback_lifetime));
    digest::parts_stand(w, 0, left16, digest::opt_number_writes(p.fallback_connect_timeout));
    digest::parts_stand(w, 0, left15, digest::opt_number_writes(p.fallback_cooldown));
    digest::parts_stand(w, 0, left14, digest::opt_number_writes(p.patroni_api_timeout));
    digest::parts_stand(w, 0, left13, digest::opt_list_writes(p.patroni_api_urls));
    digest::parts_stand(w, 0, left12, digest::opt_number_writes(wide(p.scaling_max_parallel_creates)));
    digest::parts_stand(w, 0, left11, digest::opt_number_writes(wide(p.scaling_fast_retries)));
    digest::parts_stand(w, 0, left10, digest::opt_number_writes(wide(p.min_guaranteed_pool_size)));
    digest::parts_stand(w, 0, left9, digest::opt_number_writes(p.reserve_pool_timeout));
    digest::parts_stand(w, 0, left8, digest::opt_number_writes(wide(p.reserve_pool_size)));
    digest::parts_stand(w, 0, left7, digest::opt_number_writes(p.min_connection_lifetime));
    digest::parts_stand(w, 0, left6, digest::opt_number_writes(wide(p.max_db_connections)));
    digest::parts_stand(w, 0, left5, digest::opt_text_writes(messages::opt_text(p.server_tls_private_key)));
    digest::parts_stand(w, 0, left4, digest::opt_text_writes(messages::opt_text(p.server_tls_certificate)));
    digest::parts_stand(w, 0, left3, digest::opt_text_writes(messages::opt_text(p.server_tls_ca_cert)));
    digest::parts_stand(w, 0, left2, digest::opt_text_writes(messages::opt_text(p.server_tls_mode)));
    digest::parts_stand(w, 0, left1, digest::opt_number_writes(p.idle_timeout));
    digest::parts_stand(w, 0, left0, digest::opt_number_writes(p.server_lifetime));
    digest::parts_stand(w, 0, right17, digest::opt_number_writes(q.fallback_lifetime));
    digest::parts_stand(w, 0, right16, digest::opt_number_writes(q.fallback_connect_timeout));
    digest::parts_stand(w, 0, right15, digest::opt_number_writes(q.fallback_cooldown));
    digest::parts_stand(w, 0, right14, digest::opt_number_writes(q.patroni_api_timeout));
    digest::parts_stand(w, 0, right13, digest::opt_list_writes(q.patroni_api_urls));
    digest::parts_stand(w, 0, right12, digest::opt_number_writes(wide(q.scaling_max_parallel_creates)));
    digest::parts_stand(w, 0, right11, digest::opt_number_writes(wide(q.scaling_fast_retries)));
    digest::parts_stand(w, 0, right10, digest::opt_number_writes(wide(q.min_guaranteed_pool_size)));
    digest::parts_stand(w, 0, right9, digest::opt_number_writes(q.reserve_pool_timeout));
    digest::parts_stand(w, 0, right8, digest::opt_number_writes(wide(q.reserve_pool_size)));
    digest::parts_stand(w, 0, right7, digest::opt_number_writes(q.min_connection_lifetime));
    digest::parts_stand(w, 0, right6, digest::opt_number_writes(wide(q.max_db_connections)));
    digest::parts_stand(w, 0, right5, digest::opt_text_writes(messages::opt_text(q.server_tls_private_key)));
    digest::parts_stand(w, 0, right4, digest::opt_text_writes(messages::opt_text(q.server_tls_certificate)));
    digest::parts_stand(w, 0, right3, digest::opt_text_writes(messages::opt_text(q.server_tls_ca_cert)));
    digest::parts_stand(w, 0, right2, digest::opt_text_writes(messages::opt_text(q.server_tls_mode)));
    digest::parts_stand(w, 0, right1, digest::opt_number_writes(q.idle_timeout));
    digest::parts_stand(w, 0, right0, digest::opt_number_writes(q.server_lifetime));
    sessions_tell(w, p, q);
    digest::opt_numbers_tell(w, left0.len() as int, p.server_lifetime, q.server_lifetime);
    digest::opt_numbers_tell(w, left1.len() as int, p.idle_timeout, q.idle_timeout);
    digest::opt_texts_tell(w, left2.len() as int, messages::opt_text(p.server_tls_mode), messages::opt_text(q.server_tls_mode));
    digest::opt_texts_tell(w, left3.len() as int, messages::opt_text(p.server_tls_ca_cert), messages::opt_text(q.server_tls_ca_cert));
    digest::opt_texts_tell(w, left4.len() as int, messages::opt_text(p.server_tls_certificate), messages::opt_text(q.server_tls_certificate));
    digest::opt_texts_tell(w, left5.len() as int, messages::opt_text(p.server_tls_private_key), messages::opt_text(q.server_tls_private_key));
    digest::opt_numbers_tell(w, left6.len() as int, wide(p.max_db_connections), wide(q.max_db_connections));
    digest::opt_numbers_tell(w, left7.len() as int, p.min_connection_lifetime, q.min_connection_lifetime);
    digest::opt_numbers_tell(w, left8.len() as int, wide(p.reserve_pool_size), wide(q.reserve_pool_size));
    digest::opt_numbers_tell(w, left9.len() as int, p.reserve_pool_timeout, q.reserve_pool_timeout);
    digest::opt_numbers_tell(w, left10.len() as int, wide(p.min_guaranteed_pool_size), wide(q.min_guaranteed_pool_size));
    digest::opt_numbers_tell(w, left11.len() as int, wide(p.scaling_fast_retries), wide(q.scaling_fast_retries));
    digest::opt_numbers_tell(w, left12.len() as int, wide(p.scaling_max_parallel_creates), wide(q.scaling_max_parallel_creates));
    digest::opt_lists_tell(w, left13.len() as int, p.patroni_api_urls, q.patroni_api_urls);
    digest::opt_numbers_tell(w, left14.len() as int, p.patroni_api_timeout, q.patroni_api_timeout);
    digest::opt_numbers_tell(w, left15.len() as int, p.fallback_cooldown, q.fallback_cooldown);
    digest::opt_numbers_tell(w, left16.len() as int, p.fallback_connect_timeout, q.fallback_connect_timeout);
    digest::opt_numbers_tell(w, left17.len() as int, p.fallback_lifetime, q.fallback_lifetime);
}

/// The same of what every backend session depends on.
pub proof fn every_general_setting_is_written(p: General, q: General)
    requires
        string_map::in_order(string_map::texts(p.startup_parameters@)).len() <= u64::MAX,
        string_map::in_order(string_map::texts(q.startup_parameters@)).len() <= u64::MAX,
        p.startup_writes() == q.startup_writes(),
    ensures
        string_map::in_order(string_map::texts(p.startup_parameters@)) == string_map::in_order(
            string_map::texts(q.startup_parameters@),
        ),
        p.sync_server_parameters == q.sync_server_parameters,
        messages::opt_text(p.cleanup_server_query) == messages::opt_text(q.cleanup_server_query),
        p.cleanup_server_connections == q.cleanup_server_connections,
{
    let w = p.startup_writes();
    digest::whole_stands(w);
    let left1 = digest::map_writes(string_map::texts(p.startup_parameters@));
    let left2 = left1 + digest::flag_writes(p.sync_server_parameters);
    let left3 = left2 + digest::opt_text_writes(messages::opt_text(p.cleanup_server_query));
    let left4 = left3 + digest::number_writes(cleanup_number(p.cleanup_server_connections));
    let right1 = digest::map_writes(string_map::texts(q.startup_parameters@));
    let right2 = right1 + digest::flag_writes(q.sync_server_parameters);
    let right3 = right2 + digest::opt_text_writes(messages::opt_text(q.cleanup_server_query));
    let right4 = right3 + digest::number_writes(cleanup_number(q.cleanup_server_connections));
    digest::parts_stand(w, 0, left3, digest::number_writes(cleanup_number(p.cleanup_server_connections)));
    digest::parts_stand(w, 0, left2, digest::opt_text_writes(messages::opt_text(p.cleanup_server_query)));
    digest::parts_stand(w, 0, left1, digest::flag_writes(p.sync_server_parameters));
    digest::parts_stand(w, 0, right3, digest::number_writes(cleanup_number(q.cleanup_server_connections)));
    digest::parts_stand(w, 0, right2, digest::opt_text_writes(messages::opt_text(q.cleanup_server_query)));
    digest::parts_stand(w, 0, right1, digest::flag_writes(q.sync_server_parameters));
    digest::maps_tell(w, 0, string_map::texts(p.startup_parameters@), string_map::texts(q.startup_parameters@));
    digest::flags_tell(w, left1.len() as int, p.sync_server_parameters, q.sync_server_parameters);
    digest::opt_texts_tell(w, left2.len() as int, messages::opt_text(p.cleanup_server_query), messages::opt_text(q.cleanup_server_query));
    digest::numbers_tell(w, left3.len() as int, cleanup_number(p.cleanup_server_connections), cleanup_number(q.cleanup_server_connections));
}

/// Each TLS mode has one word, and no other word stands for a mode.
pub proof fn every_mode_has_its_word(a: Seq<char>, b: Seq<char>)
    ensures
        tls_mode_of(a).is_some() && tls_mode_of(a) == tls_mode_of(b) ==> a == b,
        tls_mode_of(a) == Some(ServerTlsMode::Disable) <==> a == "disable"@,
        tls_mode_of(a) == Some(ServerTlsMode::Allow) <==> a == "allow"@,
        tls_mode_of(a) == Some(ServerTlsMode::Prefer) <==> a == "prefer"@,
        tls_mode_of(a) == Some(ServerTlsMode::Require) <==> a == "require"@,
        tls_mode_of(a) == Some(ServerTlsMode::VerifyCa) <==> a == "verify-ca"@,
        tls_mode_of(a) == Some(ServerTlsMode::VerifyFull) <==> a == "verify-full"@,
{
    reveal_strlit("disable");
    reveal_strlit("allow");
    reveal_strlit("prefer");
    reveal_strlit("require");
    reveal_strlit("verify-ca");
    reveal_strlit("verify-full");
    assert("disable"@.len() == 7 && "allow"@.len() == 5 && "prefer"@.len() == 6);
    assert("require"@.len() == 7 && "verify-ca"@.len() == 9 && "verify-full"@.len() == 11);
    assert("disable"@[0] == 'd' && "require"@[0] == 'r');
}

/// Two lookups count as the same only if they agree in everything that is configured.
pub proof fn same_lookups_agree_in_everything(a: AuthQueryConfig, b: AuthQueryConfig)
    ensures
        auth_query_view(a) == auth_query_view(b) <==> a.query@ == b.query@ && a.user@ == b.user@
            && a.password@ == b.password@ && messages::opt_text(a.server_user)
            == messages::opt_text(b.server_user) && messages::opt_text(a.server_password)
            == messages::opt_text(b.server_password) && a.pool_size == b.pool_size
            && a.min_pool_size == b.min_pool_size,
{
}

} // verus!
