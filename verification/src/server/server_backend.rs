//! One connection to a backend: what is known of the session on it.
use bytes::BytesMut;
use vstd::prelude::*;
use crate::config::Address;
use crate::server::cleanup::CleanupState;
use crate::server::parameters::ServerParameters;
use crate::server::prepared_statements::PreparedCache;
#[allow(unused_imports)]
use crate::config;
#[allow(unused_imports)]
use crate::server::prepared_statements::StatementNames;
use crate::string_map::StringMap;
use crate::text::{concat, same_text};
#[allow(unused_imports)]
use crate::server::prepared_statements;
#[allow(unused_imports)]
use crate::messages;
#[allow(unused_imports)]
use crate::string_map;
#[allow(unused_imports)]
use crate::text;
#[allow(unused_imports)]
use crate::wire;

verus! {

/// What is fixed when a connection is made.
pub struct ServerSettings {
    /// The number of the connection that carries the session.
    pub connection_id: u64,
    /// Where the backend is and who is logged in.
    pub address: Address,
    /// The process of the backend, for cancel requests.
    pub process_id: i32,
    /// The key that a cancel request needs.
    pub secret_key: i32,
    /// The application name of the connection.
    pub application_name: String,
    /// Whether the connection uses TLS.
    pub connected_with_tls: bool,
    /// Whether dirty sessions are cleaned up at all.
    pub cleanup_connections: bool,
    /// A query of the operator's that resets a session fully.
    pub server_reset_query: Option<String>,
    /// Whether the pool is in session mode.
    pub session_mode: bool,
    /// Larger messages are streamed; 0 switches streaming off.
    pub max_message_size: i32,
    /// Parameters that the operator has set and clients do not change.
    pub operator_managed_startup_keys: Vec<String>,
}

/// The settings, as the contracts speak of them.
pub struct Settings {
    pub connection_id: u64,
    pub address: Address,
    pub process_id: i32,
    pub secret_key: i32,
    pub application_name: Seq<char>,
    pub connected_with_tls: bool,
    pub cleanup_connections: bool,
    pub reset_query: Option<Seq<char>>,
    pub session_mode: bool,
    pub max_message_size: i32,
    pub operator_keys: Seq<Seq<char>>,
}

impl View for ServerSettings {
    type V = Settings;

    open spec fn view(&self) -> Settings {
        Settings {
            connection_id: self.connection_id,
            address: self.address,
            process_id: self.process_id,
            secret_key: self.secret_key,
            application_name: self.application_name@,
            connected_with_tls: self.connected_with_tls,
            cleanup_connections: self.cleanup_connections,
            reset_query: messages::opt_text(self.server_reset_query),
            session_mode: self.session_mode,
            max_message_size: self.max_message_size,
            operator_keys: prepared_statements::names_of(self.operator_managed_startup_keys@),
        }
    }
}

/// Where the session stands in the protocol.
#[derive(Debug, Clone, Copy)]
pub struct SessionState {
    /// Whether a transaction is open.
    pub in_transaction: bool,
    /// Whether more messages are to come.
    pub data_available: bool,
    /// Whether a COPY is running.
    pub in_copy_mode: bool,
    /// Whether the client uses Flush in place of Sync.
    pub async_mode: bool,
    /// The responses that are still due in that mode.
    pub expected_responses: u32,
    /// Whether the connection must not be used again.
    pub bad: bool,
    /// What has to be cleaned up before the next client.
    pub cleanup: CleanupState,
    /// A reset is running: what its commands report does not count before it
    /// has ended idle.
    pub resetting: bool,
    /// Something was sent although the operator has configured a reset: what it
    /// did is not known.
    pub reset_pending: bool,
    /// Statements were noted whose Parse has not been sent.
    pub has_pending_cache_entries: bool,
    /// The header of a large message that is streamed next.
    pub pending_large_message: Option<(u8, i32)>,
    /// A lifetime of its own, for connections to a fallback.
    pub override_lifetime_ms: Option<u64>,
}

/// Why a connection is closed. Times are in milliseconds.
#[derive(Debug, Clone, Copy, PartialEq, Eq, Structural)]
pub enum CloseReason {
    /// It was given up.
    Bad,
    /// It is of an older epoch.
    Outdated,
    /// It has outlived its time.
    Outlived { age_ms: u64, limit_ms: u64 },
    /// It gave no sign of life.
    Silent { idle_ms: u64 },
}

impl CloseReason {
    /// The words for a reason, with its times as `a` and `b` write them.
    pub open spec fn words(self, a: Seq<char>, b: Seq<char>) -> Seq<char> {
        match self {
            CloseReason::Bad => "bad connection"@,
            CloseReason::Outdated => "reconnect epoch outdated"@,
            CloseReason::Outlived { .. } => text::join(
                seq!["lifetime exceeded (age="@, a, ", limit="@, b, ")"@],
            ),
            CloseReason::Silent { .. } => text::join(
                seq!["failed alive check after "@, a, " idle"@],
            ),
        }
    }

    /// The words for the reason. `write` is how times are written.
    pub fn describe(&self, write: impl Fn(u64) -> String) -> (s: String)
        requires
            forall|ms: u64| call_requires(write, (ms,)),
        ensures
            match *self {
                CloseReason::Outlived { age_ms, limit_ms } => exists|a: String, b: String|
                    #![trigger self.words(a@, b@)]
                    call_ensures(write, (age_ms,), a) && call_ensures(write, (limit_ms,), b) && s@
                        == self.words(a@, b@),
                CloseReason::Silent { idle_ms } => exists|a: String|
                    #![trigger self.words(a@, Seq::empty())]
                    call_ensures(write, (idle_ms,), a) && s@ == self.words(a@, Seq::empty()),
                _ => s@ == self.words(Seq::empty(), Seq::empty()),
            },
    {
        match *self {
            CloseReason::Bad => "bad connection".to_owned(),
            CloseReason::Outdated => "reconnect epoch outdated".to_owned(),
            CloseReason::Outlived { age_ms, limit_ms } => {
                let age = write(age_ms);
                let limit = write(limit_ms);
                let parts = ["lifetime exceeded (age=", age.as_str(), ", limit=", limit.as_str(), ")"];
                assert(text::views(parts@) =~= seq![
                    "lifetime exceeded (age="@,
                    age@,
                    ", limit="@,
                    limit@,
                    ")"@,
                ]);
                let s = concat(&parts);
                assert(s@ == self.words(age@, limit@));
                s
            },
            CloseReason::Silent { idle_ms } => {
                let idle = write(idle_ms);
                let parts = ["failed alive check after ", idle.as_str(), " idle"];
                assert(text::views(parts@) =~= seq!["failed alive check after "@, idle@, " idle"@]);
                let s = concat(&parts);
                assert(s@ == self.words(idle@, Seq::empty()));
                s
            },
        }
    }
}

/// The state of a session, as the contracts speak of it.
pub struct Session {
    pub settings: Settings,
    pub state: SessionState,
    pub parameters: Map<Seq<char>, Seq<char>>,
    pub buffer: Seq<u8>,
    pub unsupported: Option<Seq<char>>,
    pub statements: Option<StatementNames>,
    pub registering: Seq<Seq<char>>,
    pub deferred_closes: Seq<Seq<char>>,
    pub last_sql_error: Option<(Seq<char>, Seq<char>)>,
    pub close_reason: Option<CloseReason>,
}

/// The texts of an optional pair of strings.
pub open spec fn opt_pair(p: Option<(String, String)>) -> Option<(Seq<char>, Seq<char>)> {
    match p {
        Some((a, b)) => Some((a@, b@)),
        None => None,
    }
}

/// A connection to a PostgreSQL server.
pub struct Server {
    /// What is fixed when a connection is made.
    pub settings: ServerSettings,
    /// Where the session stands in the protocol.
    pub state: SessionState,
    /// Messages for the client that have not been handed out.
    pub buffer: BytesMut,
    /// The parameters of the session as far as they are known.
    pub server_parameters: ServerParameters,
    /// A notice of the current exchange that a feature is not supported.
    pub unsupported_feature_notice: Option<String>,
    /// Names of the statements that the backend has prepared.
    pub prepared_statement_cache: PreparedCache,
    /// Statements whose Parse has not been confirmed.
    pub registering_prepared_statement: Vec<String>,
    /// Statements that left the cache but are still open on the backend.
    pub deferred_eviction_closes: Vec<String>,
    /// The last error that the backend reported in the current exchange.
    pub last_sql_error: Option<(String, String)>,
    /// Why the connection is closed.
    pub close_reason: Option<CloseReason>,
}

impl View for Server {
    type V = Session;

    open spec fn view(&self) -> Session {
        Session {
            settings: self.settings@,
            state: self.state,
            parameters: self.server_parameters@,
            buffer: wire::held(self.buffer),
            unsupported: messages::opt_text(self.unsupported_feature_notice),
            statements: self.prepared_statement_cache@,
            registering: prepared_statements::names_of(self.registering_prepared_statement@),
            deferred_closes: prepared_statements::names_of(self.deferred_eviction_closes@),
            last_sql_error: opt_pair(self.last_sql_error),
            close_reason: self.close_reason,
        }
    }
}

/// Whether `name` is in the list.
pub fn list_has(list: &Vec<String>, name: &str) -> (r: bool)
    ensures
        r == prepared_statements::names_of(list@).contains(name@),
{
    let mut i: usize = 0;
    while i < list.len()
        invariant
            i <= list.len(),
            forall|k: int| 0 <= k < i ==> (#[trigger] prepared_statements::names_of(list@)[k]) != name@,
        decreases list.len() - i,
    {
        if same_text(list[i].as_str(), name) {
            assert(prepared_statements::names_of(list@)[i as int] == name@);
            return true;
        }
        i = i + 1;
    }
    false
}

/// The session gives up the connection.
pub open spec fn given_up(s: Session) -> Session {
    Session { state: SessionState { bad: true, ..s.state }, ..s }
}

impl Server {
    /// The process of the backend.
    pub fn get_process_id(&self) -> (r: i32)
        ensures
            r == self@.settings.process_id,
    {
        self.settings.process_id
    }

    /// A copy of the session's parameters.
    pub fn server_parameters_as_hashmap(&self) -> (r: StringMap<String>)
        ensures
            string_map::texts(r@) == self@.parameters,
    {
        self.server_parameters.as_hashmap()
    }

    /// Gives up the connection.
    pub fn mark_bad(&mut self)
        ensures
            final(self)@ == given_up(old(self)@),
    {
        self.state.bad = true;
    }

    /// Whether the connection must not be used again.
    pub fn is_bad(&self) -> (r: bool)
        ensures
            r == self@.state.bad,
    {
        self.state.bad
    }

    /// Whether a socket that became readable between queries belongs to a
    /// connection that is still alive: only if reading from it would block after
    /// all. With TLS nothing can be read without harm to the session, and a backend
    /// that is idle sends nothing, so such a connection is taken for dead.
    pub fn check_server_alive(&self, would_block: bool) -> (r: bool)
        ensures
            r == (!self@.settings.connected_with_tls && would_block),
    {
        !self.settings.connected_with_tls && would_block
    }

    /// Whether what the backend still sends has to be read and thrown away: until
    /// no more is to come or reading fails.
    pub fn wait_available(&self, failed: bool) -> (r: bool)
        ensures
            r == (self@.state.data_available && !failed),
    {
        self.state.data_available && !failed
    }

    /// Where the backend is and who is logged in.
    pub fn address_to_string(&self) -> (s: String)
        ensures
            s@ == config::address_text(self@.settings.address),
    {
        self.settings.address.text()
    }

    /// Whether the client uses Flush in place of Sync.
    pub fn is_async(&self) -> (r: bool)
        ensures
            r == self@.state.async_mode,
    {
        self.state.async_mode
    }

    /// Whether a transaction is open.
    pub fn in_transaction(&self) -> (r: bool)
        ensures
            r == self@.state.in_transaction,
    {
        self.state.in_transaction
    }

    /// Whether a COPY is running.
    pub fn in_copy_mode(&self) -> (r: bool)
        ensures
            r == self@.state.in_copy_mode,
    {
        self.state.in_copy_mode
    }

    /// Whether more messages are to come.
    pub fn is_data_available(&self) -> (r: bool)
        ensures
            r == self@.state.data_available,
    {
        self.state.data_available
    }

    /// Switches between Flush and Sync.
    pub fn set_async_mode(&mut self, async_mode: bool)
        ensures
            final(self)@ == (Session {
                state: SessionState { async_mode, ..old(self)@.state },
                ..old(self)@
            }),
    {
        self.state.async_mode = async_mode;
    }

    /// Sets the number of responses that are due.
    pub fn set_expected_responses(&mut self, count: u32)
        ensures
            final(self)@ == (Session {
                state: SessionState { expected_responses: count, ..old(self)@.state },
                ..old(self)@
            }),
    {
        self.state.expected_responses = count;
    }

    /// The number of responses that are due.
    pub fn expected_responses(&self) -> (r: u32)
        ensures
            r == self@.state.expected_responses,
    {
        self.state.expected_responses
    }

    /// One fewer response is due.
    pub fn decrement_expected(&mut self)
        ensures
            final(self)@ == (Session {
                state: SessionState {
                    expected_responses: if old(self)@.state.expected_responses == 0 {
                        0
                    } else {
                        (old(self)@.state.expected_responses - 1) as u32
                    },
                    ..old(self)@.state
                },
                ..old(self)@
            }),
    {
        self.state.expected_responses = if self.state.expected_responses == 0 {
            0
        } else {
            self.state.expected_responses - 1
        };
    }

    /// No response is due.
    pub fn reset_expected_responses(&mut self)
        ensures
            final(self)@ == (Session {
                state: SessionState { expected_responses: 0, ..old(self)@.state },
                ..old(self)@
            }),
    {
        self.state.expected_responses = 0;
    }

    /// Asks for every kind of cleanup at the next checkin.
    pub fn mark_dirty(&mut self)
        ensures
            final(self)@ == (Session {
                state: SessionState {
                    cleanup: CleanupState {
                        needs_cleanup_set: true,
                        needs_cleanup_prepare: true,
                        needs_cleanup_declare: true,
                    },
                    ..old(self)@.state
                },
                ..old(self)@
            }),
    {
        self.state.cleanup.set_true();
    }

    /// Whether the backend has a prepared statement of this name: it is in the
    /// cache, or it left the cache but has not been closed.
    pub fn has_prepared_statement(&mut self, name: &str) -> (r: bool)
        ensures
            r == session_has_statement(old(self)@, name@),
            final(self)@ == after_lookup(old(self)@, name@),
    {
        if list_has(&self.deferred_eviction_closes, name) {
            return true;
        }
        self.prepared_statement_cache.has(name)
    }
}

/// Whether the backend has a prepared statement of this name.
pub open spec fn session_has_statement(s: Session, name: Seq<char>) -> bool {
    s.deferred_closes.contains(name) || (s.statements.is_some()
        && s.statements.unwrap().names.contains(name))
}

/// The session after a statement was looked up: a statement in the cache was
/// used.
pub open spec fn after_lookup(s: Session, name: Seq<char>) -> Session {
    if s.deferred_closes.contains(name) {
        s
    } else {
        Session {
            statements: match s.statements {
                Some(names) => Some(prepared_statements::names_used(names, name)),
                None => None,
            },
            ..s
        }
    }
}

} // verus!
