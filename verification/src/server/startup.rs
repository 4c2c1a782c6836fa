//! The startup of a backend connection, from the StartupMessage to the first
//! ReadyForQuery.
use vstd::prelude::*;
use vstd::string::*;
use crate::config::{Address, BackendAuthMethod};
use crate::errors::{Error, ServerIdentifier};
use crate::messages::{read_number, read_parameter_status, PgErrorMsg};
use crate::server::cleanup::CleanupState;
use crate::server::parameters::ServerParameters;
use crate::server::prepared_statements::PreparedCache;
#[allow(unused_imports)]
use crate::server::prepared_statements::StatementNames;
use crate::server::server_backend::{Server, ServerSettings, SessionState};
#[allow(unused_imports)]
use crate::server::server_backend::{Session, Settings};
use crate::string_map::StringMap;
use crate::text::{chars_of, concat, decimal_text, find_text, has_prefix, has_text, text_of};
use crate::wire::new_buffer;
#[allow(unused_imports)]
use crate::messages;
#[allow(unused_imports)]
use crate::server::cleanup;
#[allow(unused_imports)]
use crate::server::parameters;
#[allow(unused_imports)]
use crate::server::prepared_statements;
#[allow(unused_imports)]
use crate::string_map;
#[allow(unused_imports)]
use crate::text;

verus! {

/// Whether a host stands for a Unix socket.
pub fn is_unix_socket(host: &str) -> (r: bool)
    ensures
        r == text::starts_with(host@, "/"@),
{
    has_prefix(host, "/")
}

/// From what a SCRAM exchange with the backend is answered.
#[derive(Debug, Clone, Copy, PartialEq, Eq, Structural)]
pub enum ScramSource {
    /// The key of the client's own exchange.
    ClientKey,
    /// The configured password of the backend login.
    Password,
    /// Nothing: a SCRAM exchange fails.
    Nothing,
}

/// The source of a SCRAM exchange: the client's key where there is one,
/// otherwise the password that goes with a configured backend login.
pub fn scram_source(
    backend_auth: &Option<BackendAuthMethod>,
    has_server_username: bool,
    has_server_password: bool,
) -> (r: ScramSource)
    ensures
        r == if backend_auth matches Some(BackendAuthMethod::ScramPassthrough(_)) {
            ScramSource::ClientKey
        } else if has_server_username && has_server_password {
            ScramSource::Password
        } else {
            ScramSource::Nothing
        },
{
    match backend_auth {
        Some(BackendAuthMethod::ScramPassthrough(_key)) => ScramSource::ClientKey,
        _ => {
            if has_server_username && has_server_password {
                ScramSource::Password
            } else {
                ScramSource::Nothing
            }
        },
    }
}

/// `name` stands in double quotes behind the first `parameter "` of a message.
pub open spec fn names_parameter(message: Seq<char>, name: Seq<char>) -> bool {
    exists|at: int, end: int|
        {
            &&& #[trigger] text::occurs_at(message, "parameter \""@, at)
            &&& forall|k: int| 0 <= k < at ==> !text::occurs_at(message, "parameter \""@, k)
            &&& at + "parameter \""@.len() <= end
            &&& #[trigger] text::occurs_at(message, "\""@, end)
            &&& forall|k: int|
                at + "parameter \""@.len() <= k < end ==> !text::occurs_at(message, "\""@, k)
            &&& name == message.subrange(at + "parameter \""@.len(), end)
        }
}

/// The parameter that an English message names.
pub fn extract_parameter_name(message: &str) -> (r: Option<String>)
    ensures
        match r {
            Some(name) => names_parameter(message@, name@),
            None => forall|name: Seq<char>| !names_parameter(message@, name),
        },
{
    let text = chars_of(message);
    let lead = chars_of("parameter \"");
    let quote = chars_of("\"");
    match find_text(&text, &lead, 0) {
        Some(at) => {
            let total: usize = text.len();
            assert(at + lead@.len() <= total);
            let from: usize = at + lead.len();
            match find_text(&text, &quote, from) {
                Some(end) => Some(text_of(&text, from, end)),
                None => None,
            }
        },
        None => None,
    }
}

/// `key` stands in double quotes in a message.
pub open spec fn quotes_key(message: Seq<char>, key: Seq<char>) -> bool {
    text::contains_text(message, "\""@ + key + "\""@)
}

/// The key at place `i` is the first that stands in double quotes in a message.
pub open spec fn first_quoted(
    message: Seq<char>,
    sent: Seq<(Seq<char>, String)>,
    key: Seq<char>,
    i: int,
) -> bool {
    &&& string_map::key_at(sent, key, i)
    &&& quotes_key(message, key)
    &&& forall|j: int| 0 <= j < i ==> !quotes_key(message, (#[trigger] sent[j]).0)
}

/// The first of the sent keys that stands in double quotes in a message.
pub fn match_sent_key_in_message(message: &str, sent: &StringMap<String>) -> (r: Option<String>)
    ensures
        match r {
            Some(key) => exists|i: int|
                #![trigger sent.listing()[i]]
                first_quoted(message@, sent.listing(), key@, i),
            None => forall|j: int|
                0 <= j < sent.listing().len() ==> !quotes_key(
                    message@,
                    (#[trigger] sent.listing()[j]).0,
                ),
        },
{
    let n: usize = sent.len();
    let mut i: usize = 0;
    while i < n
        invariant
            i <= n == sent.listing().len(),
            forall|j: int|
                0 <= j < i ==> !quotes_key(message@, (#[trigger] sent.listing()[j]).0),
        decreases n - i,
    {
        let key = sent.key(i);
        let mut needle: String = "\"".to_owned();
        needle.append(key.as_str());
        needle.append("\"");
        if has_text(message, needle.as_str()) {
            proof {
                assert(needle@ =~= "\""@ + key@ + "\""@);
                assert(quotes_key(message@, key@));
            }
            let found = key.clone();
            assert(first_quoted(message@, sent.listing(), found@, i as int));
            return Some(found);
        }
        i = i + 1;
    }
    None
}

/// A message blames one of the sent keys: it names it in English, or quotes it
/// in another language.
pub open spec fn blames_sent_key(message: Seq<char>, sent: Map<Seq<char>, String>) -> bool {
    ||| exists|name: Seq<char>| names_parameter(message, name) && sent.contains_key(name)
    ||| exists|key: Seq<char>| sent.contains_key(key) && quotes_key(message, key)
}

/// A message names at most one parameter.
proof fn named_parameter_is_unique(message: Seq<char>, a: Seq<char>, b: Seq<char>)
    requires
        names_parameter(message, a),
        names_parameter(message, b),
    ensures
        a == b,
{
    let lead = "parameter \""@;
    let (at1, end1) = choose|at: int, end: int|
        {
            &&& #[trigger] text::occurs_at(message, lead, at)
            &&& forall|k: int| 0 <= k < at ==> !text::occurs_at(message, lead, k)
            &&& at + lead.len() <= end
            &&& #[trigger] text::occurs_at(message, "\""@, end)
            &&& forall|k: int| at + lead.len() <= k < end ==> !text::occurs_at(message, "\""@, k)
            &&& a == message.subrange(at + lead.len(), end)
        };
    let (at2, end2) = choose|at: int, end: int|
        {
            &&& #[trigger] text::occurs_at(message, lead, at)
            &&& forall|k: int| 0 <= k < at ==> !text::occurs_at(message, lead, k)
            &&& at + lead.len() <= end
            &&& #[trigger] text::occurs_at(message, "\""@, end)
            &&& forall|k: int| at + lead.len() <= k < end ==> !text::occurs_at(message, "\""@, k)
            &&& b == message.subrange(at + lead.len(), end)
        };
    assert(at1 == at2);
    assert(end1 == end2);
}

/// The sent key that a message blames: the parameter that it names in English
/// if that was sent, otherwise the first of the sent keys that it quotes.
pub fn blamed_key(message: &str, sent: &StringMap<String>) -> (r: Option<String>)
    ensures
        r.is_some() == blames_sent_key(message@, sent@),
        forall|name: Seq<char>| #[trigger]
            names_parameter(message@, name) && sent@.contains_key(name) ==> (r matches Some(key)
                && key@ == name),
        r matches Some(key) ==> {
            ||| names_parameter(message@, key@) && sent@.contains_key(key@)
            ||| exists|i: int|
                #![trigger sent.listing()[i]]
                first_quoted(message@, sent.listing(), key@, i)
        },
{
    let n: usize = sent.len();
    match extract_parameter_name(message) {
        Some(name) => {
            proof {
                assert forall|other: Seq<char>| names_parameter(message@, other) implies other
                    == name@ by {
                    named_parameter_is_unique(message@, other, name@);
                }
            }
            if sent.contains_key(name.as_str()) {
                return Some(name);
            }
        },
        None => {},
    }
    let r = match_sent_key_in_message(message, sent);
    proof {
        match r {
            Some(ref key) => {
                let i = choose|i: int| first_quoted(message@, sent.listing(), key@, i);
                string_map::listed_entry(sent.listing(), i);
            },
            None => {
                assert forall|key: Seq<char>| sent@.contains_key(key) implies !quotes_key(
                    message@,
                    key,
                ) by {
                    let i = string_map::listed_key(sent.listing(), key);
                    assert(sent.listing()[i].0 == key);
                }
            },
        }
    }
    r
}

/// `e` is what an ErrorResponse during the startup leads to.
pub open spec fn is_startup_failure(
    e: Error,
    body: Seq<u8>,
    sent: Map<Seq<char>, String>,
    id: ServerIdentifier,
) -> bool {
    match messages::error_fields(body) {
        None => e matches Error::ServerStartupError(m, i) && m@ == "startup ErrorResponse"@ && i
            == id,
        Some(fields) => {
            let code = messages::or_empty(messages::field_text(fields, 67u8));
            let message = messages::or_empty(messages::field_text(fields, 77u8));
            if text::starts_with(code, "57P"@) {
                // The server is starting up or shutting down.
                e matches Error::ServerUnavailableError(m, i) && m@ == message && i == id
            } else if blames_sent_key(message, sent) {
                e matches Error::ServerStartupParameterRejection {
                    sqlstate,
                    message: m,
                    server_identifier,
                } && sqlstate@ == code && m@ == message && server_identifier == id
            } else {
                e matches Error::ServerStartupError(m, i) && m@ == text::join(
                    seq![code, ": "@, message],
                ) && i == id
            }
        },
    }
}

/// The error that an ErrorResponse during the startup leads to.
pub fn startup_failure(body: &[u8], sent: &StringMap<String>, id: &ServerIdentifier) -> (e: Error)
    ensures
        is_startup_failure(e, body@, sent@, *id),
{
    match PgErrorMsg::parse(body) {
        None => Error::ServerStartupError("startup ErrorResponse".to_owned(), id.clone()),
        Some(msg) => {
            if has_prefix(msg.code.as_str(), "57P") {
                return Error::ServerUnavailableError(msg.message, id.clone());
            }
            match blamed_key(msg.message.as_str(), sent) {
                Some(_key) => Error::ServerStartupParameterRejection {
                    sqlstate: msg.code,
                    message: msg.message,
                    server_identifier: id.clone(),
                },
                None => {
                    let parts = [msg.code.as_str(), ": ", msg.message.as_str()];
                    assert(text::views(parts@) =~= seq![msg.code@, ": "@, msg.message@]);
                    Error::ServerStartupError(concat(&parts), id.clone())
                },
            }
        },
    }
}

/// What is known of a backend while its startup runs.
pub struct Handshake {
    /// The parameters that the backend has reported.
    pub parameters: ServerParameters,
    pub process_id: i32,
    pub secret_key: i32,
    /// The backend has accepted the login.
    pub authenticated: bool,
}

/// The same, as the contracts speak of it.
pub struct HandshakeView {
    pub parameters: Map<Seq<char>, Seq<char>>,
    pub process_id: i32,
    pub secret_key: i32,
    pub authenticated: bool,
}

impl View for Handshake {
    type V = HandshakeView;

    open spec fn view(&self) -> HandshakeView {
        HandshakeView {
            parameters: self.parameters@,
            process_id: self.process_id,
            secret_key: self.secret_key,
            authenticated: self.authenticated,
        }
    }
}

/// What the startup needs next.
pub enum HandshakeStep {
    /// The next message.
    Continue,
    /// An answer to this authentication request; 0 asks for none.
    Authenticate(i32),
    /// The session is ready.
    Ready,
    /// The startup has failed.
    Failed(Error),
}

/// The text that reports an unexpected message.
pub open spec fn unexpected_text(code: u8) -> Seq<char> {
    text::join(
        seq![
            "Received unexpected message code '"@,
            seq![code as char],
            "' (ASCII: "@,
            text::decimal(code as nat),
            ") during server startup. This may indicate an incompatible PostgreSQL server version or protocol."@,
        ],
    )
}

/// The error that reports an unexpected message.
fn unexpected_error(code: u8) -> (e: Error)
    ensures
        e matches Error::ProtocolSyncError(m) && m@ == unexpected_text(code),
{
    let mut shown: String = String::new();
    shown.push(code as char);
    let number = decimal_text(code as u64);
    let parts = [
        "Received unexpected message code '",
        shown.as_str(),
        "' (ASCII: ",
        number.as_str(),
        ") during server startup. This may indicate an incompatible PostgreSQL server version or protocol.",
    ];
    proof {
        assert(shown@ =~= seq![code as char]);
        assert(text::views(parts@) =~= seq![
            "Received unexpected message code '"@,
            seq![code as char],
            "' (ASCII: "@,
            text::decimal(code as nat),
            ") during server startup. This may indicate an incompatible PostgreSQL server version or protocol."@,
        ]);
    }
    Error::ProtocolSyncError(concat(&parts))
}

/// `e` is a refused startup with this text.
pub open spec fn is_refusal(e: Error, text: Seq<char>, id: ServerIdentifier) -> bool {
    e matches Error::ServerStartupError(m, i) && m@ == text && i == id
}

/// What is known after a message of the startup.
pub open spec fn handshake_after(h: HandshakeView, code: u8, body: Seq<u8>) -> HandshakeView {
    if code == 82 && body.len() >= 4 && messages::number_at(body, 0) == 0 {
        // AuthenticationOk
        HandshakeView { authenticated: true, ..h }
    } else if code == 83 {
        // ParameterStatus
        match messages::status_of(body) {
            Some((key, value)) => HandshakeView {
                parameters: parameters::with_param(h.parameters, key, value, true),
                ..h
            },
            None => h,
        }
    } else if code == 75 && body.len() >= 8 {
        // BackendKeyData
        HandshakeView { process_id: messages::number_at(body, 0), secret_key: messages::number_at(body, 4), ..h }
    } else {
        h
    }
}

/// `step` is what a message of the startup leads to.
pub open spec fn is_handshake_step(
    step: HandshakeStep,
    code: u8,
    body: Seq<u8>,
    sent: Map<Seq<char>, String>,
    id: ServerIdentifier,
) -> bool {
    if code == 82 {
        // Authentication
        if body.len() < 4 {
            step matches HandshakeStep::Failed(e) && is_refusal(
                e,
                "Failed to read authentication code from server"@,
                id,
            )
        } else {
            step == HandshakeStep::Authenticate(messages::number_at(body, 0))
        }
    } else if code == 69 {
        // ErrorResponse
        step matches HandshakeStep::Failed(e) && is_startup_failure(e, body, sent, id)
    } else if code == 78 {
        // NoticeResponse
        step is Continue
    } else if code == 83 {
        // ParameterStatus
        if messages::status_of(body).is_some() {
            step is Continue
        } else {
            step matches HandshakeStep::Failed(e) && is_refusal(
                e,
                "failed to read parameter status during startup"@,
                id,
            )
        }
    } else if code == 75 {
        // BackendKeyData
        if body.len() < 4 {
            step matches HandshakeStep::Failed(e) && is_refusal(
                e,
                "failed to read process ID during startup"@,
                id,
            )
        } else if body.len() < 8 {
            step matches HandshakeStep::Failed(e) && is_refusal(
                e,
                "failed to read secret key during startup"@,
                id,
            )
        } else {
            step is Continue
        }
    } else if code == 90 {
        // ReadyForQuery
        step is Ready
    } else {
        step matches HandshakeStep::Failed(e) && (e matches Error::ProtocolSyncError(m) && m@
            == unexpected_text(code))
    }
}

impl Handshake {
    /// The startup begins.
    pub fn new() -> (h: Handshake)
        ensures
            h@ == (HandshakeView {
                parameters: Map::empty(),
                process_id: 0,
                secret_key: 0,
                authenticated: false,
            }),
    {
        Handshake {
            parameters: ServerParameters::new(),
            process_id: 0,
            secret_key: 0,
            authenticated: false,
        }
    }

    /// Takes in a message of the startup. `sent` are the parameters of the
    /// StartupMessage that the operator configured.
    pub fn on_message(
        &mut self,
        code: u8,
        body: &[u8],
        sent: &StringMap<String>,
        id: &ServerIdentifier,
    ) -> (step: HandshakeStep)
        ensures
            final(self)@ == handshake_after(old(self)@, code, body@),
            is_handshake_step(step, code, body@, sent@, *id),
    {
        if code == 82 {
            if body.len() < 4 {
                return HandshakeStep::Failed(
                    Error::ServerStartupError(
                        "Failed to read authentication code from server".to_owned(),
                        id.clone(),
                    ),
                );
            }
            let auth_code: i32 = read_number(body, 0);
            self.authenticated = self.authenticated || auth_code == 0;
            HandshakeStep::Authenticate(auth_code)
        } else if code == 69 {
            HandshakeStep::Failed(startup_failure(body, sent, id))
        } else if code == 78 {
            HandshakeStep::Continue
        } else if code == 83 {
            match read_parameter_status(body) {
                Some((key, value)) => {
                    self.parameters.set_param(key.as_str(), value.as_str(), true);
                    HandshakeStep::Continue
                },
                None => HandshakeStep::Failed(
                    Error::ServerStartupError(
                        "failed to read parameter status during startup".to_owned(),
                        id.clone(),
                    ),
                ),
            }
        } else if code == 75 {
            if body.len() < 4 {
                return HandshakeStep::Failed(
                    Error::ServerStartupError(
                        "failed to read process ID during startup".to_owned(),
                        id.clone(),
                    ),
                );
            }
            if body.len() < 8 {
                return HandshakeStep::Failed(
                    Error::ServerStartupError(
                        "failed to read secret key during startup".to_owned(),
                        id.clone(),
                    ),
                );
            }
            self.process_id = read_number(body, 0);
            self.secret_key = read_number(body, 4);
            HandshakeStep::Continue
        } else if code == 90 {
            HandshakeStep::Ready
        } else {
            HandshakeStep::Failed(unexpected_error(code))
        }
    }
}

/// What a pool sets for the sessions of its connections.
pub struct SessionOptions {
    /// The number of the connection that carries the session.
    pub connection_id: u64,
    pub address: Address,
    pub application_name: String,
    pub connected_with_tls: bool,
    pub cleanup_connections: bool,
    pub server_reset_query: Option<String>,
    pub session_mode: bool,
    pub max_message_size: i32,
    pub operator_managed_startup_keys: Vec<String>,
    /// The number of statement names that are followed; 0 follows none.
    pub prepared_statement_cache_size: u32,
}

/// The session of a connection whose startup has ended well.
pub open spec fn fresh_session(h: HandshakeView, o: SessionOptions) -> Session {
    Session {
        settings: Settings {
            connection_id: o.connection_id,
            address: o.address,
            process_id: h.process_id,
            secret_key: h.secret_key,
            application_name: o.application_name@,
            connected_with_tls: o.connected_with_tls,
            cleanup_connections: o.cleanup_connections,
            reset_query: messages::opt_text(o.server_reset_query),
            session_mode: o.session_mode,
            max_message_size: o.max_message_size,
            operator_keys: prepared_statements::names_of(o.operator_managed_startup_keys@),
        },
        state: SessionState {
            in_transaction: false,
            data_available: false,
            in_copy_mode: false,
            async_mode: false,
            expected_responses: 0,
            bad: false,
            cleanup: cleanup::clean(),
            resetting: false,
            reset_pending: false,
            has_pending_cache_entries: false,
            pending_large_message: None,
            override_lifetime_ms: None,
        },
        parameters: h.parameters,
        buffer: Seq::empty(),
        unsupported: None,
        statements: if o.prepared_statement_cache_size == 0 {
            None
        } else {
            Some(
                StatementNames {
                    names: Seq::empty(),
                    limit: o.prepared_statement_cache_size as nat,
                },
            )
        },
        registering: Seq::empty(),
        deferred_closes: Seq::empty(),
        last_sql_error: None,
        close_reason: None,
    }
}

impl Server {
    /// The connection, once its startup has ended well.
    pub fn startup(handshake: Handshake, options: SessionOptions) -> (r: Server)
        ensures
            r@ == fresh_session(handshake@, options),
    {
        let r = Server {
            settings: ServerSettings {
                connection_id: options.connection_id,
                address: options.address,
                process_id: handshake.process_id,
                secret_key: handshake.secret_key,
                application_name: options.application_name,
                connected_with_tls: options.connected_with_tls,
                cleanup_connections: options.cleanup_connections,
                server_reset_query: options.server_reset_query,
                session_mode: options.session_mode,
                max_message_size: options.max_message_size,
                operator_managed_startup_keys: options.operator_managed_startup_keys,
            },
            state: SessionState {
                in_transaction: false,
                data_available: false,
                in_copy_mode: false,
                async_mode: false,
                expected_responses: 0,
                bad: false,
                cleanup: CleanupState::new(),
                resetting: false,
                reset_pending: false,
                has_pending_cache_entries: false,
                pending_large_message: None,
                override_lifetime_ms: None,
            },
            buffer: new_buffer(),
            server_parameters: handshake.parameters,
            unsupported_feature_notice: None,
            prepared_statement_cache: PreparedCache::new(options.prepared_statement_cache_size),
            registering_prepared_statement: Vec::new(),
            deferred_eviction_closes: Vec::new(),
            last_sql_error: None,
            close_reason: None,
        };
        proof {
            assert(prepared_statements::names_of(r.registering_prepared_statement@) =~= Seq::<Seq<char>>::empty());
            assert(prepared_statements::names_of(r.deferred_eviction_closes@) =~= Seq::<Seq<char>>::empty());
        }
        r
    }
}

/// A fresh session is reusable, and a checkin of it needs no reset.
pub proof fn fresh_session_is_reusable(h: HandshakeView, o: SessionOptions)
    ensures
        crate::server::checkin::is_reusable(fresh_session(h, o)),
        crate::server::checkin::is_checkin_step(
            fresh_session(h, o),
            crate::server::checkin::CheckinStep::Done,
        ),
{
}

/// What the messages of a startup mean: an AuthenticationOk alone accepts the login, the
/// key data tell the process and its key, a ParameterStatus sets a parameter, and no
/// other message changes what is known.
pub proof fn startup_messages_are_taken_in(h: HandshakeView, code: u8, body: Seq<u8>)
    ensures
        ({
            let t = handshake_after(h, code, body);
            &&& t.authenticated <==> h.authenticated || (code as char == 'R' && body.len() >= 4
                && messages::number_at(body, 0) == 0)
            &&& code as char == 'K' && body.len() >= 8 ==> t.process_id == messages::number_at(
                body,
                0,
            ) && t.secret_key == messages::number_at(body, 4)
            &&& code as char != 'K' ==> t.process_id == h.process_id && t.secret_key
                == h.secret_key
            &&& code as char != 'S' ==> t.parameters == h.parameters
            &&& code as char == 'S' ==> match messages::status_of(body) {
                Some((key, value)) => t.parameters == h.parameters.insert(
                    parameters::canonical_name(key),
                    value,
                ),
                None => t.parameters == h.parameters,
            }
        }),
{
}

/// A session begins with a clean slate, and with what its login and its options say.
pub proof fn sessions_begin_clean(h: HandshakeView, o: SessionOptions)
    ensures
        ({
            let s = fresh_session(h, o);
            &&& !s.state.bad && !s.state.in_transaction && !s.state.in_copy_mode
                && !s.state.data_available && !s.state.resetting && !s.state.async_mode
            &&& !s.state.cleanup.needs_cleanup_set && !s.state.cleanup.needs_cleanup_prepare
                && !s.state.cleanup.needs_cleanup_declare
            &&& s.settings.process_id == h.process_id
            &&& s.settings.secret_key == h.secret_key
            &&& s.parameters == h.parameters
            &&& s.buffer.len() == 0
            &&& s.registering.len() == 0
            &&& s.deferred_closes.len() == 0
            &&& s.statements.is_some() <==> o.prepared_statement_cache_size > 0
            &&& s.statements matches Some(names) ==> names.names.len() == 0 && names.limit
                == o.prepared_statement_cache_size
            &&& s.settings.reset_query == messages::opt_text(o.server_reset_query)
            &&& s.settings.cleanup_connections == o.cleanup_connections
            &&& s.settings.session_mode == o.session_mode
            &&& s.settings.max_message_size == o.max_message_size
        }),
{
}

/// What a refused startup means: a server that is starting up or shutting down is
/// unavailable, a message that blames a parameter which was sent is handed on to the
/// operator's account, all else is a refused startup.
pub proof fn refusals_are_told_apart(
    e: Error,
    body: Seq<u8>,
    sent: Map<Seq<char>, String>,
    id: ServerIdentifier,
)
    requires
        is_startup_failure(e, body, sent, id),
    ensures
        match messages::error_fields(body) {
            None => e is ServerStartupError,
            Some(fields) => {
                let code = messages::or_empty(messages::field_text(fields, 67u8));
                let message = messages::or_empty(messages::field_text(fields, 77u8));
                let down = text::starts_with(code, "57P"@);
                let blamed = exists|k: Seq<char>|
                    #![trigger sent.contains_key(k)]
                    sent.contains_key(k) && (names_parameter(message, k) || quotes_key(message, k));
                &&& e is ServerUnavailableError <==> down
                &&& e is ServerStartupParameterRejection <==> !down && blamed
                &&& e is ServerStartupError <==> !down && !blamed
            },
        },
{
    match messages::error_fields(body) {
        Some(fields) => {
            let message = messages::or_empty(messages::field_text(fields, 77u8));
            if exists|k: Seq<char>|
                #![trigger sent.contains_key(k)]
                sent.contains_key(k) && (names_parameter(message, k) || quotes_key(message, k)) {
                let k = choose|k: Seq<char>|
                    #![trigger sent.contains_key(k)]
                    sent.contains_key(k) && (names_parameter(message, k) || quotes_key(message, k));
                assert(blames_sent_key(message, sent));
            }
        },
        None => {},
    }
}

/// A key is quoted exactly if it stands between two double quotes.
pub proof fn quoted_keys_stand_in_quotes(before: Seq<char>, key: Seq<char>, after: Seq<char>)
    ensures
        quotes_key(before + seq!['"'] + key + seq!['"'] + after, key),
{
    reveal_strlit("\"");
    let whole = before + seq!['"'] + key + seq!['"'] + after;
    let needle = "\""@ + key + "\""@;
    let at = before.len() as int;
    assert(whole.subrange(at, at + needle.len()) =~= needle);
    assert(text::occurs_at(whole, needle, at));
}

/// A startup is over exactly when the backend is ready, and has failed when it reports an
/// error, sends a message that is cut off, or one that has no place in a startup. An
/// authentication request is handed on with its kind.
pub proof fn startups_end_ready_or_fail(
    step: HandshakeStep,
    code: u8,
    body: Seq<u8>,
    sent: Map<Seq<char>, String>,
    id: ServerIdentifier,
)
    requires
        is_handshake_step(step, code, body, sent, id),
    ensures
        step is Ready <==> code as char == 'Z',
        step matches HandshakeStep::Authenticate(kind) ==> code as char == 'R' && body.len() >= 4
            && kind == messages::number_at(body, 0),
        code as char == 'R' && body.len() >= 4 ==> step is Authenticate,
        code as char == 'E' ==> step is Failed,
        code as char == 'N' ==> step is Continue,
        code as char == 'K' ==> (step is Continue <==> body.len() >= 8),
        code as char == 'S' ==> (step is Continue <==> messages::status_of(body).is_some()),
        step is Continue ==> code as char == 'N' || code as char == 'K' || code as char == 'S',
        code as char != 'R' && code as char != 'E' && code as char != 'N' && code as char != 'S'
            && code as char != 'K' && code as char != 'Z' ==> (
        step matches HandshakeStep::Failed(e) && e is ProtocolSyncError),
        code as char != 'E' ==> (step matches HandshakeStep::Failed(e)
            ==> e is ServerStartupError || e is ProtocolSyncError),
{
}

} // verus!
