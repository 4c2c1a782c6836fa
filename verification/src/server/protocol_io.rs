//! What the messages of a backend do to the session.
use bytes::BytesMut;
use vstd::prelude::*;
use vstd::slice::slice_subrange;
use vstd::string::*;
use vstd::utf8::encode_utf8;
use crate::config::Address;
use crate::errors::Error;
use crate::messages::{read_number, read_parameter_status, PgErrorMsg, MAX_MESSAGE_SIZE};
use crate::server::cleanup::CleanupState;
use crate::server::parameters::ServerParameters;
use crate::server::server_backend::Server;
#[allow(unused_imports)]
use crate::server::prepared_statements::StatementNames;
#[allow(unused_imports)]
use crate::server::server_backend::{Session, SessionState};
use crate::text::{chars_of, concat, decimal_text, same_text};
use crate::wire::{buffer_len, clear_buffer, new_buffer, put_byte, put_bytes, put_number};
#[allow(unused_imports)]
use crate::messages;
#[allow(unused_imports)]
use crate::server::cleanup;
#[allow(unused_imports)]
use crate::server::parameters;
#[allow(unused_imports)]
use crate::server::prepared_statements;
#[allow(unused_imports)]
use crate::text;
#[allow(unused_imports)]
use crate::wire;

verus! {

/// From this size on the buffer is handed out.
pub const BUFFER_FLUSH_THRESHOLD: usize = 8192;

/// What a CommandComplete tag means for the cleanup of the session.
#[derive(Debug, Clone, Copy, PartialEq, Eq, Structural)]
pub enum CommandCompleteEffect {
    /// Nothing.
    Inert,
    /// A parameter may have been set.
    ArmSet,
    /// A cursor may be open.
    ArmDeclare,
    /// The parameters are back at their defaults.
    DisarmSet,
    /// No cursor is open.
    DisarmDeclare,
    /// No statement is prepared.
    DisarmPrepare,
    /// The session is as new.
    DisarmAll,
}

/// What a tag, with its terminator, means for the cleanup of the session.
pub open spec fn effect_of(tag: Seq<u8>) -> CommandCompleteEffect {
    if tag == messages::c_string("SET"@) {
        CommandCompleteEffect::ArmSet
    } else if tag == messages::c_string("RESET"@) {
        CommandCompleteEffect::DisarmSet
    } else if tag == messages::c_string("DECLARE CURSOR"@) {
        CommandCompleteEffect::ArmDeclare
    } else if tag == messages::c_string("CLOSE CURSOR ALL"@) {
        CommandCompleteEffect::DisarmDeclare
    } else if tag == messages::c_string("DEALLOCATE ALL"@) {
        CommandCompleteEffect::DisarmPrepare
    } else if tag == messages::c_string("DISCARD ALL"@) {
        CommandCompleteEffect::DisarmAll
    } else {
        CommandCompleteEffect::Inert
    }
}

/// Whether `tag` is `name` with its terminator.
fn is_tag(tag: &[u8], name: &str) -> (r: bool)
    ensures
        r == (tag@ == messages::c_string(name@)),
{
    let bytes = name.as_bytes();
    if tag.len() == 0 || tag.len() - 1 != bytes.len() {
        return false;
    }
    let mut i: usize = 0;
    while i < bytes.len()
        invariant
            i <= bytes.len(),
            tag.len() == bytes.len() + 1,
            bytes@ == encode_utf8(name@),
            forall|k: int| 0 <= k < i ==> tag@[k] == bytes@[k],
        decreases bytes.len() - i,
    {
        if tag[i] != bytes[i] {
            assert(messages::c_string(name@)[i as int] == bytes@[i as int]);
            return false;
        }
        i = i + 1;
    }
    if tag[i] != 0 {
        assert(messages::c_string(name@)[i as int] == 0);
        return false;
    }
    assert(tag@ =~= messages::c_string(name@));
    true
}

/// What a CommandComplete tag, with its terminator, means for the cleanup of
/// the session.
pub fn classify_command_complete(tag: &[u8]) -> (r: CommandCompleteEffect)
    ensures
        r == effect_of(tag@),
{
    if is_tag(tag, "SET") {
        CommandCompleteEffect::ArmSet
    } else if is_tag(tag, "RESET") {
        CommandCompleteEffect::DisarmSet
    } else if is_tag(tag, "DECLARE CURSOR") {
        CommandCompleteEffect::ArmDeclare
    } else if is_tag(tag, "CLOSE CURSOR ALL") {
        CommandCompleteEffect::DisarmDeclare
    } else if is_tag(tag, "DEALLOCATE ALL") {
        CommandCompleteEffect::DisarmPrepare
    } else if is_tag(tag, "DISCARD ALL") {
        CommandCompleteEffect::DisarmAll
    } else {
        CommandCompleteEffect::Inert
    }
}

/// A text on one line: line breaks are written as `\n` and `\r`.
pub open spec fn one_line(s: Seq<char>) -> Seq<char>
    decreases s.len(),
{
    if s.len() == 0 {
        Seq::empty()
    } else if s.last() == '\n' {
        one_line(s.drop_last()).push('\\').push('n')
    } else if s.last() == '\r' {
        one_line(s.drop_last()).push('\\').push('r')
    } else {
        one_line(s.drop_last()).push(s.last())
    }
}

/// Replaces line breaks to keep log lines single-line.
pub fn sanitize_for_log(s: &str) -> (r: String)
    ensures
        r@ == one_line(s@),
{
    let v = chars_of(s);
    let mut r: String = String::new();
    let mut i: usize = 0;
    assert(s@.take(0) =~= Seq::<char>::empty());
    while i < v.len()
        invariant
            i <= v.len(),
            v@ == s@,
            r@ == one_line(s@.take(i as int)),
        decreases v.len() - i,
    {
        let c = v[i];
        proof {
            assert(s@.take(i + 1).drop_last() =~= s@.take(i as int));
        }
        if c == '\n' {
            r.push('\\');
            r.push('n');
        } else if c == '\r' {
            r.push('\\');
            r.push('r');
        } else {
            r.push(c);
        }
        i = i + 1;
    }
    assert(s@.take(s@.len() as int) =~= s@);
    r
}

/// A logged text never breaks the line.
pub proof fn one_line_has_no_break(s: Seq<char>)
    ensures
        !one_line(s).contains('\n'),
        !one_line(s).contains('\r'),
    decreases s.len(),
{
    if s.len() > 0 {
        one_line_has_no_break(s.drop_last());
        let t = one_line(s.drop_last());
        let u = one_line(s);
        assert forall|i: int| 0 <= i < u.len() implies u[i] != '\n' && u[i] != '\r' by {
            if i < t.len() {
                assert(t.contains(t[i]));
            }
        }
    }
}

/// A response has come in: in async mode one fewer is due.
pub open spec fn one_fewer_due(s: Session) -> Session {
    if s.state.async_mode && s.state.expected_responses > 0 {
        Session {
            state: SessionState {
                expected_responses: (s.state.expected_responses - 1) as u32,
                ..s.state
            },
            ..s
        }
    } else {
        s
    }
}

/// The error that a body reports, as SQLSTATE and message.
pub open spec fn reported_error(body: Seq<u8>) -> (Seq<char>, Seq<char>) {
    match messages::error_fields(body) {
        Some(fields) => (messages::or_empty(messages::field_text(fields, 67u8)), messages::or_empty(messages::field_text(fields, 77u8))),
        None => ("XX000"@, "<unparseable ErrorResponse>"@),
    }
}

/// An ErrorResponse has come in. Statements whose Parse was not confirmed are
/// not prepared; in async mode the rest of the pipeline is void.
#[verifier::opaque]
pub open spec fn after_error(s: Session, body: Seq<u8>) -> Session {
    Session {
        state: SessionState {
            in_copy_mode: false,
            cleanup: CleanupState {
                needs_cleanup_prepare: s.state.cleanup.needs_cleanup_prepare
                    || s.statements.is_some(),
                ..s.state.cleanup
            },
            has_pending_cache_entries: s.state.has_pending_cache_entries && s.registering.len()
                == 0,
            data_available: s.state.data_available && !s.state.async_mode,
            bad: s.state.bad || (s.state.async_mode && !s.settings.session_mode),
            expected_responses: if s.state.async_mode {
                0
            } else {
                s.state.expected_responses
            },
            ..s.state
        },
        last_sql_error: Some(reported_error(body)),
        statements: match s.statements {
            Some(names) => Some(prepared_statements::all_removed(names, s.registering)),
            None => None,
        },
        registering: Seq::empty(),
        ..s
    }
}

/// The backend has no prepared statement any more.
pub open spec fn statements_dropped(s: Session) -> Session {
    Session {
        statements: match s.statements {
            Some(names) => Some(prepared_statements::names_cleared(names)),
            None => None,
        },
        registering: Seq::empty(),
        ..s
    }
}

/// The cleanup state after a command with this effect; `partial` tells that the
/// backend reported an unsupported feature in the exchange.
pub open spec fn cleanup_after(
    c: CleanupState,
    effect: CommandCompleteEffect,
    partial: bool,
) -> CleanupState {
    match effect {
        CommandCompleteEffect::Inert => c,
        CommandCompleteEffect::ArmSet => CleanupState { needs_cleanup_set: true, ..c },
        CommandCompleteEffect::ArmDeclare => CleanupState { needs_cleanup_declare: true, ..c },
        CommandCompleteEffect::DisarmSet => CleanupState { needs_cleanup_set: false, ..c },
        CommandCompleteEffect::DisarmDeclare => CleanupState { needs_cleanup_declare: false, ..c },
        CommandCompleteEffect::DisarmPrepare => CleanupState { needs_cleanup_prepare: false, ..c },
        CommandCompleteEffect::DisarmAll => if partial {
            c
        } else {
            cleanup::clean()
        },
    }
}

/// What a CommandComplete does outside a reset. If the backend said that
/// DISCARD ALL did not reach the whole cluster, the session stays dirty, and
/// only a reset of the operator's can clean it.
pub open spec fn after_effect(s: Session, effect: CommandCompleteEffect) -> Session {
    let partial = s.unsupported.is_some();
    let t = Session {
        state: SessionState {
            cleanup: cleanup_after(s.state.cleanup, effect, partial),
            bad: s.state.bad || (effect is DisarmAll && partial && s.settings.reset_query.is_none()),
            ..s.state
        },
        ..s
    };
    if effect is DisarmPrepare || effect is DisarmAll {
        statements_dropped(t)
    } else {
        t
    }
}

/// A CommandComplete has come in. While a reset is running its commands do not
/// count.
#[verifier::opaque]
pub open spec fn after_complete(s: Session, body: Seq<u8>) -> Session {
    let out = Session { state: SessionState { in_copy_mode: false, ..s.state }, ..s };
    one_fewer_due(
        if s.state.resetting {
            out
        } else {
            after_effect(out, effect_of(body))
        },
    )
}

/// A NoticeResponse has come in: that a feature is not supported is kept, and
/// makes a running reset fail.
#[verifier::opaque]
pub open spec fn after_notice(s: Session, body: Seq<u8>) -> Session {
    match messages::error_fields(body) {
        Some(fields) => {
            let code = messages::or_empty(messages::field_text(fields, 67u8));
            let message = messages::or_empty(messages::field_text(fields, 77u8));
            if code == "0A000"@ || code == "0AM01"@ {
                Session {
                    unsupported: Some(message),
                    last_sql_error: if s.state.resetting {
                        Some((code, message))
                    } else {
                        s.last_sql_error
                    },
                    ..s
                }
            } else {
                s
            }
        },
        None => s,
    }
}

/// Why reading from a backend fails.
pub enum ReadFault {
    /// A message is larger than the protocol allows.
    Oversize,
    /// A ReadyForQuery reports a state that does not exist.
    UnknownState(u8),
    /// A message is shorter than its kind must be.
    Malformed,
}

/// Whether reading goes on after a message.
pub enum Next {
    /// More messages are read.
    Continue,
    /// What was read is handed out.
    Stop,
    /// The session cannot go on.
    Fail(ReadFault),
}

/// A message has been taken in.
pub struct Taken {
    pub session: Session,
    pub client: Map<Seq<char>, Seq<char>>,
    pub next: Next,
}

/// A ReadyForQuery has come in.
#[verifier::opaque]
pub open spec fn after_ready(
    s: Session,
    client: Map<Seq<char>, Seq<char>>,
    body: Seq<u8>,
) -> Taken {
    if body.len() == 0 {
        Taken {
            session: Session { state: SessionState { bad: true, ..s.state }, ..s },
            client,
            next: Next::Fail(ReadFault::Malformed),
        }
    } else if body[0] == 84 || body[0] == 69 {
        Taken {
            session: Session {
                state: SessionState { in_transaction: true, data_available: false, ..s.state },
                ..s
            },
            client,
            next: Next::Stop,
        }
    } else if body[0] == 73 {
        Taken {
            session: Session {
                state: SessionState { in_transaction: false, data_available: false, ..s.state },
                ..s
            },
            client,
            next: Next::Stop,
        }
    } else {
        Taken {
            session: Session { state: SessionState { bad: true, ..s.state }, ..s },
            client,
            next: Next::Fail(ReadFault::UnknownState(body[0])),
        }
    }
}

/// A ParameterStatus has come in. The client's parameters follow where they
/// are tracked.
#[verifier::opaque]
pub open spec fn after_status(
    s: Session,
    client: Map<Seq<char>, Seq<char>>,
    track: bool,
    body: Seq<u8>,
) -> Taken {
    match messages::status_of(body) {
        Some((key, value)) => Taken {
            session: Session { parameters: parameters::with_param(s.parameters, key, value, false), ..s },
            client: if track {
                parameters::with_param(client, key, value, false)
            } else {
                client
            },
            next: Next::Continue,
        },
        None => Taken {
            session: Session { state: SessionState { bad: true, ..s.state }, ..s },
            client,
            next: Next::Fail(ReadFault::Malformed),
        },
    }
}

/// Messages that only answer a request of the extended protocol.
pub open spec fn is_plain_answer(code: u8) -> bool {
    // BindComplete, CloseComplete, ParameterDescription, PortalSuspended,
    // NoData, RowDescription
    code == 50 || code == 51 || code == 116 || code == 115 || code == 110 || code == 84
}

/// A ParseComplete has come in: it confirms the oldest pending statement.
#[verifier::opaque]
pub open spec fn after_parse(s: Session) -> Session {
    one_fewer_due(
        Session {
            registering: if s.registering.len() > 0 {
                s.registering.drop_first()
            } else {
                s.registering
            },
            ..s
        },
    )
}

/// An EmptyQueryResponse has come in: a reset that does nothing has failed.
#[verifier::opaque]
pub open spec fn after_empty_query(s: Session) -> Session {
    one_fewer_due(
        Session {
            last_sql_error: if s.state.resetting {
                Some(("XX000"@, "empty backend reset"@))
            } else {
                s.last_sql_error
            },
            ..s
        },
    )
}

/// A message after which reading simply goes on has come in.
#[verifier::opaque]
pub open spec fn after_quiet(s: Session, code: u8, body: Seq<u8>) -> Session {
    if code == 69 {
        // ErrorResponse
        after_error(s, body)
    } else if code == 67 {
        // CommandComplete
        after_complete(s, body)
    } else if code == 49 {
        // ParseComplete
        after_parse(s)
    } else if is_plain_answer(code) {
        one_fewer_due(s)
    } else if code == 73 {
        // EmptyQueryResponse
        after_empty_query(s)
    } else if code == 78 {
        // NoticeResponse
        after_notice(s, body)
    } else {
        // CopyDone, FunctionCallResponse and all others are passed on.
        s
    }
}

/// A message that concerns the session alone has come in; with it, whether what
/// was read is handed out now. Rows are buffered up to a limit, and a COPY is
/// handed over at once.
#[verifier::opaque]
pub open spec fn after_flow(s: Session, code: u8, body: Seq<u8>) -> (Session, bool) {
    let full = s.buffer.len() >= BUFFER_FLUSH_THRESHOLD;
    if code == 68 {
        // DataRow
        (Session { state: SessionState { data_available: true, ..s.state }, ..s }, full)
    } else if code == 71 {
        // CopyInResponse
        (Session { state: SessionState { in_copy_mode: true, ..s.state }, ..s }, true)
    } else if code == 72 {
        // CopyOutResponse
        (
            Session {
                state: SessionState { in_copy_mode: true, data_available: true, ..s.state },
                ..s
            },
            true,
        )
    } else if code == 100 {
        // CopyData
        (s, full)
    } else {
        (after_quiet(s, code, body), false)
    }
}

/// A message whose bytes are in the buffer has come in.
pub open spec fn after_message(
    s: Session,
    client: Map<Seq<char>, Seq<char>>,
    track: bool,
    code: u8,
    body: Seq<u8>,
) -> Taken {
    if code == 90 {
        // ReadyForQuery
        after_ready(s, client, body)
    } else if code == 83 {
        // ParameterStatus
        after_status(s, client, track, body)
    } else {
        let (t, stop) = after_flow(s, code, body);
        Taken {
            session: t,
            client,
            next: if stop {
                Next::Stop
            } else {
                Next::Continue
            },
        }
    }
}

/// `r` reports how a message was taken in: whether reading stops.
pub open spec fn reports_next(r: Result<bool, Error>, address: Address, next: Next) -> bool {
    match next {
        Next::Continue => r == Ok::<bool, Error>(false),
        Next::Stop => r == Ok::<bool, Error>(true),
        Next::Fail(fault) => r is Err && is_fault(r->Err_0, address, fault),
    }
}

/// The parts of the text that reports an unknown transaction state.
pub open spec fn unknown_state_parts(address: Address, state: u8) -> Seq<Seq<char>> {
    seq![
        "Protocol synchronization error with server "@,
        address.host@,
        " (database: "@,
        address.database@,
        ", user: "@,
        address.username@,
        "). Received unknown transaction state character: '"@,
        seq![state as char],
        "' (ASCII: "@,
        text::decimal(state as nat),
        "). This may indicate an incompatible PostgreSQL server version or a corrupted message."@,
    ]
}

/// The text that reports an unknown transaction state.
pub open spec fn unknown_state_text(address: Address, state: u8) -> Seq<char> {
    text::join(unknown_state_parts(address, state))
}

/// `e` reports this fault.
#[verifier::opaque]
pub open spec fn is_fault(e: Error, address: Address, fault: ReadFault) -> bool {
    match fault {
        ReadFault::Oversize => e is MaxMessageSize,
        ReadFault::UnknownState(state) => e matches Error::ProtocolSyncError(m) && m@
            == unknown_state_text(address, state),
        ReadFault::Malformed => e matches Error::ProtocolSyncError(m) && m@
            == "malformed message from the backend"@,
    }
}

/// The error that reports an unknown transaction state.
fn unknown_state_error(address: &Address, state: u8) -> (e: Error)
    ensures
        e matches Error::ProtocolSyncError(m) && m@ == unknown_state_text(*address, state),
{
    let mut shown: String = String::new();
    shown.push(state as char);
    let number = decimal_text(state as u64);
    let parts = [
        "Protocol synchronization error with server ",
        address.host.as_str(),
        " (database: ",
        address.database.as_str(),
        ", user: ",
        address.username.as_str(),
        "). Received unknown transaction state character: '",
        shown.as_str(),
        "' (ASCII: ",
        number.as_str(),
        "). This may indicate an incompatible PostgreSQL server version or a corrupted message.",
    ];
    let text = concat(&parts);
    proof {
        assert(shown@ =~= seq![state as char]);
        assert(text::views(parts@) =~= unknown_state_parts(*address, state));
    }
    Error::ProtocolSyncError(text)
}

/// Handles ReadyForQuery.
pub fn handle_ready_for_query(
    server: &mut Server,
    body: &[u8],
    client: &ServerParameters,
) -> (r: Result<bool, Error>)
    ensures
        final(server)@ == after_ready(old(server)@, client@, body@).session,
        reports_next(
            r,
            old(server)@.settings.address,
            after_ready(old(server)@, client@, body@).next,
        ),
        after_ready(old(server)@, client@, body@).client == client@,
{
    proof {
        reveal(after_ready);
        reveal(is_fault);
    }
    if body.len() == 0 {
        server.state.bad = true;
        return Err(Error::ProtocolSyncError("malformed message from the backend".to_owned()));
    }
    let state: u8 = body[0];
    if state != 84 && state != 69 && state != 73 {
        let e = unknown_state_error(&server.settings.address, state);
        server.state.bad = true;
        return Err(e);
    }
    server.state.in_transaction = state != 73;
    server.state.data_available = false;
    Ok(true)
}

/// Notes the error that a body reports.
fn note_error(server: &mut Server, body: &[u8])
    ensures
        final(server)@ == (Session {
            last_sql_error: Some(reported_error(body@)),
            ..old(server)@
        }),
{
    let noted = match PgErrorMsg::parse(body) {
        Some(msg) => (msg.code, msg.message),
        None => ("XX000".to_owned(), "<unparseable ErrorResponse>".to_owned()),
    };
    server.last_sql_error = Some(noted);
}

/// Statements whose Parse was not confirmed are not prepared.
fn forget_unconfirmed(server: &mut Server)
    ensures
        final(server)@ == (Session {
            statements: match old(server)@.statements {
                Some(names) => Some(prepared_statements::all_removed(names, old(server)@.registering)),
                None => None,
            },
            registering: Seq::empty(),
            state: SessionState {
                has_pending_cache_entries: old(server)@.state.has_pending_cache_entries && old(
                    server,
                )@.registering.len() == 0,
                ..old(server)@.state
            },
            ..old(server)@
        }),
{
    if server.registering_prepared_statement.len() > 0 {
        server.prepared_statement_cache.remove_all(&server.registering_prepared_statement);
        server.registering_prepared_statement.clear();
        server.state.has_pending_cache_entries = false;
    }
    assert(prepared_statements::names_of(server.registering_prepared_statement@) =~= Seq::<Seq<char>>::empty());
}

/// Handles ErrorResponse.
pub fn handle_error_response(server: &mut Server, body: &[u8])
    ensures
        final(server)@ == after_error(old(server)@, body@),
{
    proof {
        reveal(after_error);
    }
    note_error(server, body);
    server.state.in_copy_mode = false;
    let has_cache = server.prepared_statement_cache.is_enabled();
    server.state.cleanup.needs_cleanup_prepare = server.state.cleanup.needs_cleanup_prepare
        || has_cache;
    forget_unconfirmed(server);
    server.state.data_available = server.state.data_available && !server.state.async_mode;
    server.state.bad = server.state.bad || (server.state.async_mode && !server.settings.session_mode);
    server.state.expected_responses = if server.state.async_mode {
        0
    } else {
        server.state.expected_responses
    };
}

/// The cleanup state after a command with this effect.
fn next_cleanup(c: CleanupState, effect: CommandCompleteEffect, partial: bool) -> (r: CleanupState)
    ensures
        r == cleanup_after(c, effect, partial),
{
    let mut r = c;
    match effect {
        CommandCompleteEffect::Inert => {},
        CommandCompleteEffect::ArmSet => {
            r.needs_cleanup_set = true;
        },
        CommandCompleteEffect::ArmDeclare => {
            r.needs_cleanup_declare = true;
        },
        CommandCompleteEffect::DisarmSet => {
            r.needs_cleanup_set = false;
        },
        CommandCompleteEffect::DisarmDeclare => {
            r.needs_cleanup_declare = false;
        },
        CommandCompleteEffect::DisarmPrepare => {
            r.needs_cleanup_prepare = false;
        },
        CommandCompleteEffect::DisarmAll => {
            if !partial {
                r.reset();
            }
        },
    }
    r
}

/// Forgets all prepared statements after the backend has dropped them.
pub fn drop_prepared_statement_cache_on_reset(server: &mut Server)
    ensures
        final(server)@ == statements_dropped(old(server)@),
{
    server.registering_prepared_statement.clear();
    server.prepared_statement_cache.clear();
    assert(prepared_statements::names_of(server.registering_prepared_statement@) =~= Seq::<Seq<char>>::empty());
}

/// Applies the effect of a command to the session.
fn apply_effect(server: &mut Server, effect: CommandCompleteEffect)
    ensures
        final(server)@ == after_effect(old(server)@, effect),
{
    let partial = server.unsupported_feature_notice.is_some();
    let all = match effect {
        CommandCompleteEffect::DisarmAll => true,
        _ => false,
    };
    let prepared = match effect {
        CommandCompleteEffect::DisarmPrepare => true,
        _ => all,
    };
    server.state.cleanup = next_cleanup(server.state.cleanup, effect, partial);
    server.state.bad = server.state.bad || (all && partial && server.settings.server_reset_query.is_none());
    if prepared {
        drop_prepared_statement_cache_on_reset(server);
    }
}

/// In async mode one fewer response is due.
fn answer_received(server: &mut Server)
    ensures
        final(server)@ == one_fewer_due(old(server)@),
{
    server.state.expected_responses = if server.state.async_mode && server.state.expected_responses > 0 {
        server.state.expected_responses - 1
    } else {
        server.state.expected_responses
    };
}

/// Handles CommandComplete: the end of a COPY, and what the command means for
/// the cleanup of the session.
pub fn handle_command_complete(server: &mut Server, body: &[u8])
    ensures
        final(server)@ == after_complete(old(server)@, body@),
{
    proof {
        reveal(after_complete);
    }
    server.state.in_copy_mode = false;
    if !server.state.resetting {
        apply_effect(server, classify_command_complete(body));
    }
    answer_received(server);
}

/// Handles ParameterStatus.
pub fn handle_parameter_status(
    server: &mut Server,
    body: &[u8],
    client: &mut ServerParameters,
    track: bool,
) -> (r: Result<bool, Error>)
    ensures
        final(server)@ == after_status(old(server)@, old(client)@, track, body@).session,
        final(client)@ == after_status(old(server)@, old(client)@, track, body@).client,
        reports_next(
            r,
            old(server)@.settings.address,
            after_status(old(server)@, old(client)@, track, body@).next,
        ),
{
    proof {
        reveal(after_status);
        reveal(is_fault);
    }
    match read_parameter_status(body) {
        Some((key, value)) => {
            if track {
                client.set_param(key.as_str(), value.as_str(), false);
            }
            server.server_parameters.set_param(key.as_str(), value.as_str(), false);
            Ok(false)
        },
        None => {
            server.state.bad = true;
            Err(Error::ProtocolSyncError("malformed message from the backend".to_owned()))
        },
    }
}

/// Handles NoticeResponse.
pub fn handle_notice(server: &mut Server, body: &[u8])
    ensures
        final(server)@ == after_notice(old(server)@, body@),
{
    proof {
        reveal(after_notice);
    }
    match PgErrorMsg::parse(body) {
        Some(notice) => {
            if same_text(notice.code.as_str(), "0A000") || same_text(
                notice.code.as_str(),
                "0AM01",
            ) {
                server.unsupported_feature_notice = Some(notice.message.clone());
                if server.state.resetting {
                    server.last_sql_error = Some((notice.code, notice.message));
                }
            }
        },
        None => {},
    }
}

/// Handles ParseComplete: the oldest pending statement is prepared.
fn handle_parse_complete(server: &mut Server)
    ensures
        final(server)@ == after_parse(old(server)@),
{
    proof {
        reveal(after_parse);
    }
    if server.registering_prepared_statement.len() > 0 {
        let ghost before = prepared_statements::names_of(server.registering_prepared_statement@);
        server.registering_prepared_statement.remove(0);
        assert(prepared_statements::names_of(server.registering_prepared_statement@) =~= before.drop_first());
    }
    answer_received(server);
}

/// Handles EmptyQueryResponse.
fn handle_empty_query(server: &mut Server)
    ensures
        final(server)@ == after_empty_query(old(server)@),
{
    proof {
        reveal(after_empty_query);
    }
    if server.state.resetting {
        server.last_sql_error = Some(("XX000".to_owned(), "empty backend reset".to_owned()));
    }
    answer_received(server);
}

/// Takes in a message after which reading simply goes on.
fn handle_quiet(server: &mut Server, code: u8, body: &[u8])
    ensures
        final(server)@ == after_quiet(old(server)@, code, body@),
{
    proof {
        reveal(after_quiet);
    }
    if code == 69 {
        handle_error_response(server, body);
    } else if code == 67 {
        handle_command_complete(server, body);
    } else if code == 49 {
        handle_parse_complete(server);
    } else if code == 50 || code == 51 || code == 116 || code == 115 || code == 110 || code == 84 {
        answer_received(server);
    } else if code == 73 {
        handle_empty_query(server);
    } else if code == 78 {
        handle_notice(server, body);
    }
}

/// Takes in a message that concerns the session alone.
fn handle_flow(server: &mut Server, code: u8, body: &[u8]) -> (stop: bool)
    ensures
        (final(server)@, stop) == after_flow(old(server)@, code, body@),
{
    proof {
        reveal(after_flow);
    }
    let full = buffer_len(&server.buffer) >= BUFFER_FLUSH_THRESHOLD;
    if code == 68 || code == 71 || code == 72 || code == 100 {
        let copy = code == 71 || code == 72;
        server.state.in_copy_mode = server.state.in_copy_mode || copy;
        server.state.data_available = server.state.data_available || code == 68 || code == 72;
        copy || full
    } else {
        handle_quiet(server, code, body);
        false
    }
}

/// Takes in one message whose bytes are in the buffer. The result tells whether
/// what was read is handed out now.
pub fn handle_message(
    server: &mut Server,
    code: u8,
    body: &[u8],
    client: &mut ServerParameters,
    track: bool,
) -> (r: Result<bool, Error>)
    ensures
        final(server)@ == after_message(old(server)@, old(client)@, track, code, body@).session,
        final(client)@ == after_message(old(server)@, old(client)@, track, code, body@).client,
        reports_next(
            r,
            old(server)@.settings.address,
            after_message(old(server)@, old(client)@, track, code, body@).next,
        ),
{
    if code == 90 {
        handle_ready_for_query(server, body, client)
    } else if code == 83 {
        handle_parameter_status(server, body, client, track)
    } else {
        Ok(handle_flow(server, code, body))
    }
}

/// What reading from a backend gives.
pub enum Outcome {
    /// All whole messages were taken in; more bytes are needed.
    NeedMore,
    /// Messages for the client.
    Bytes(Seq<u8>),
    /// A message that is streamed: these bytes and then its payload go to the
    /// client.
    Large(LargeHeader),
    /// The session cannot go on.
    Failed(ReadFault),
}

/// The start of a message that is streamed.
pub struct LargeHeader {
    pub code: u8,
    pub len: i32,
    /// Whether the connection was given up before.
    pub was_bad: bool,
    /// The bytes that go out before the payload.
    pub bytes: Seq<u8>,
}

/// The result of reading: the session and the client's parameters after it, the
/// number of bytes that were taken, and what came out.
pub struct Run {
    pub session: Session,
    pub client: Map<Seq<char>, Seq<char>>,
    pub taken: int,
    pub outcome: Outcome,
}

/// Messages of these kinds are streamed when they are larger than the session
/// allows in memory.
pub open spec fn is_streamed(s: Session, code: u8, len: i32) -> bool {
    &&& s.settings.max_message_size > 0
    &&& len > s.settings.max_message_size
    &&& code == 68 || code == 100 || code == 86
}

/// What is buffered is handed out.
pub open spec fn handed_out(s: Session, client: Map<Seq<char>, Seq<char>>, taken: int) -> Run {
    Run {
        session: Session { buffer: Seq::empty(), ..s },
        client,
        taken,
        outcome: Outcome::Bytes(s.buffer),
    }
}

/// Streaming begins: until it has ended well the connection is given up.
pub open spec fn stream_started(
    s: Session,
    client: Map<Seq<char>, Seq<char>>,
    code: u8,
    len: i32,
    taken: int,
) -> Run {
    Run {
        session: Session {
            state: SessionState { bad: true, ..s.state },
            buffer: Seq::empty(),
            ..s
        },
        client,
        taken,
        outcome: Outcome::Large(
            LargeHeader {
                code,
                len,
                was_bad: s.state.bad,
                bytes: s.buffer + (seq![code] + wire::be32(len)),
            },
        ),
    }
}

/// The connection is given up.
pub open spec fn read_failed(
    s: Session,
    client: Map<Seq<char>, Seq<char>>,
    taken: int,
    fault: ReadFault,
) -> Run {
    Run {
        session: Session { state: SessionState { bad: true, ..s.state }, ..s },
        client,
        taken,
        outcome: Outcome::Failed(fault),
    }
}

/// The header of a message has come in, but it is not simply read.
pub open spec fn after_header(
    s: Session,
    client: Map<Seq<char>, Seq<char>>,
    code: u8,
    len: i32,
) -> Option<Run> {
    if is_streamed(s, code, len) {
        if s.buffer.len() > 0 {
            // What came before is handed out first, so that the order stays.
            Some(
                Run {
                    session: Session {
                        state: SessionState {
                            pending_large_message: Some((code, len)),
                            data_available: true,
                            ..s.state
                        },
                        buffer: Seq::empty(),
                        ..s
                    },
                    client,
                    taken: 5,
                    outcome: Outcome::Bytes(s.buffer),
                },
            )
        } else {
            Some(stream_started(s, client, code, len, 5))
        }
    } else if len > MAX_MESSAGE_SIZE {
        Some(read_failed(s, client, 5, ReadFault::Oversize))
    } else if len < 4 {
        Some(read_failed(s, client, 5, ReadFault::Malformed))
    } else {
        None
    }
}

/// One step of reading: it ends the reading, or one message was taken in and
/// reading goes on behind it.
pub enum Step {
    Finished(Run),
    Onward(Taken, int),
}

/// Reading the first message in `input`.
#[verifier::opaque]
pub open spec fn recv_step(
    s: Session,
    client: Map<Seq<char>, Seq<char>>,
    track: bool,
    input: Seq<u8>,
) -> Step {
    if s.state.async_mode && s.state.expected_responses == 0 {
        Step::Finished(
            handed_out(
                Session { state: SessionState { data_available: false, ..s.state }, ..s },
                client,
                0,
            ),
        )
    } else if input.len() < 5 {
        Step::Finished(Run { session: s, client, taken: 0, outcome: Outcome::NeedMore })
    } else {
        let len = messages::number_at(input, 1);
        match after_header(s, client, input[0], len) {
            Some(run) => Step::Finished(run),
            None => if input.len() < 1 + len {
                Step::Finished(Run { session: s, client, taken: 0, outcome: Outcome::NeedMore })
            } else {
                let t = after_message(
                    Session { buffer: s.buffer + input.subrange(0, 1 + len), ..s },
                    client,
                    track,
                    input[0],
                    input.subrange(5, 1 + len),
                );
                match t.next {
                    Next::Continue => Step::Onward(t, 1 + len),
                    Next::Stop => Step::Finished(handed_out(t.session, t.client, 1 + len)),
                    Next::Fail(fault) => Step::Finished(
                        Run {
                            session: t.session,
                            client: t.client,
                            taken: 1 + len,
                            outcome: Outcome::Failed(fault),
                        },
                    ),
                }
            },
        }
    }
}

/// Reading the messages in `input`, one after the other.
pub open spec fn recv_run(
    s: Session,
    client: Map<Seq<char>, Seq<char>>,
    track: bool,
    input: Seq<u8>,
) -> Run
    decreases input.len(),
{
    match recv_step(s, client, track, input) {
        Step::Finished(run) => run,
        Step::Onward(t, taken) => if 0 < taken <= input.len() {
            let rest = recv_run(t.session, t.client, track, input.skip(taken));
            Run { taken: rest.taken + taken, ..rest }
        } else {
            Run { session: s, client, taken: 0, outcome: Outcome::NeedMore }
        },
    }
}

/// Reading from a backend: a large message that was put off is streamed first.
pub open spec fn recv_result(
    s: Session,
    client: Map<Seq<char>, Seq<char>>,
    track: bool,
    input: Seq<u8>,
) -> Run {
    match s.state.pending_large_message {
        Some((code, len)) => stream_started(s, client, code, len, 0),
        None => recv_run(s, client, track, input),
    }
}

/// A message that is streamed to the client.
pub struct LargeMessage {
    pub code: u8,
    pub len: i32,
    /// Whether the connection was given up before.
    pub was_bad: bool,
    /// What goes to the client before the payload.
    pub header: BytesMut,
}

/// What reading from a backend gives.
pub enum Received {
    /// All whole messages were taken in; more bytes are needed.
    NeedMore,
    /// Messages for the client.
    Bytes(BytesMut),
    /// The next message is streamed.
    Large(LargeMessage),
    /// The session cannot go on.
    Failed(Error),
}

/// `r` is what the outcome says.
pub open spec fn shows(r: Received, address: Address, outcome: Outcome) -> bool {
    match outcome {
        Outcome::NeedMore => r is NeedMore,
        Outcome::Bytes(bytes) => r matches Received::Bytes(b) && wire::held(b) == bytes,
        Outcome::Large(h) => r matches Received::Large(m) && m.code == h.code && m.len == h.len
            && m.was_bad == h.was_bad && wire::held(m.header) == h.bytes,
        Outcome::Failed(fault) => r matches Received::Failed(e) && is_fault(e, address, fault),
    }
}

/// Hands out what is buffered.
fn take_buffer(server: &mut Server) -> (b: BytesMut)
    ensures
        wire::held(b) == old(server)@.buffer,
        final(server)@ == (Session { buffer: Seq::empty(), ..old(server)@ }),
{
    let mut b = new_buffer();
    std::mem::swap(&mut b, &mut server.buffer);
    b
}

/// Begins to stream a message.
fn start_stream(server: &mut Server, code: u8, len: i32) -> (r: Received)
    ensures
        ({
            let run = stream_started(old(server)@, Map::empty(), code, len, 0);
            final(server)@ == run.session && shows(
                r,
                old(server)@.settings.address,
                run.outcome,
            )
        }),
{
    let was_bad = server.state.bad;
    let mut header = take_buffer(server);
    put_byte(&mut header, code);
    put_number(&mut header, len);
    server.state.bad = true;
    assert(wire::held(header) =~= old(server)@.buffer + (seq![code] + wire::be32(len)));
    Received::Large(LargeMessage { code, len, was_bad, header })
}

/// Decides by the header of a message whether it is simply read.
fn handle_header(server: &mut Server, code: u8, len: i32) -> (r: Option<Received>)
    ensures
        match after_header(old(server)@, Map::empty(), code, len) {
            Some(run) => final(server)@ == run.session && r.is_some() && shows(
                r.unwrap(),
                old(server)@.settings.address,
                run.outcome,
            ),
            None => r.is_none() && final(server)@ == old(server)@,
        },
{
    let max: i32 = server.settings.max_message_size;
    if max > 0 && len > max && (code == 68 || code == 100 || code == 86) {
        if buffer_len(&server.buffer) > 0 {
            server.state.pending_large_message = Some((code, len));
            server.state.data_available = true;
            Some(Received::Bytes(take_buffer(server)))
        } else {
            Some(start_stream(server, code, len))
        }
    } else if len > MAX_MESSAGE_SIZE || len < 4 {
        proof {
            reveal(is_fault);
        }
        server.state.bad = true;
        if len > MAX_MESSAGE_SIZE {
            Some(Received::Failed(Error::MaxMessageSize))
        } else {
            Some(
                Received::Failed(
                    Error::ProtocolSyncError("malformed message from the backend".to_owned()),
                ),
            )
        }
    } else {
        None
    }
}

/// Takes in the message whose bytes are `input[at..end]`.
fn take_message(
    server: &mut Server,
    input: &[u8],
    at: usize,
    end: usize,
    client: &mut ServerParameters,
    track: bool,
) -> (r: Result<bool, Error>)
    requires
        at + 5 <= end <= input.len(),
    ensures
        ({
            let t = after_message(
                Session {
                    buffer: old(server)@.buffer + input@.subrange(at as int, end as int),
                    ..old(server)@
                },
                old(client)@,
                track,
                input@[at as int],
                input@.subrange(at + 5, end as int),
            );
            &&& final(server)@ == t.session
            &&& final(client)@ == t.client
            &&& reports_next(r, old(server)@.settings.address, t.next)
        }),
{
    put_bytes(&mut server.buffer, slice_subrange(input, at, end));
    handle_message(server, input[at], slice_subrange(input, at + 5, end), client, track)
}

/// Reads the first message at `at`: what ended the reading, or `None` if it
/// goes on; and the number of bytes that were taken.
fn recv_one(
    server: &mut Server,
    input: &[u8],
    at: usize,
    client: &mut ServerParameters,
    track: bool,
) -> (r: (usize, Option<Received>))
    requires
        at <= input.len(),
    ensures
        at + r.0 <= input.len(),
        match recv_step(old(server)@, old(client)@, track, input@.skip(at as int)) {
            Step::Finished(run) => {
                &&& final(server)@ == run.session
                &&& final(client)@ == run.client
                &&& r.0 == run.taken
                &&& r.1.is_some()
                &&& shows(r.1.unwrap(), old(server)@.settings.address, run.outcome)
            },
            Step::Onward(t, taken) => {
                &&& final(server)@ == t.session
                &&& final(client)@ == t.client
                &&& r.0 == taken > 0
                &&& r.1.is_none()
            },
        },
{
    proof {
        reveal(recv_step);
    }
    let ghost rest = input@.skip(at as int);
    if server.state.async_mode && server.state.expected_responses == 0 {
        server.state.data_available = false;
        return (0, Some(Received::Bytes(take_buffer(server))));
    }
    if input.len() - at < 5 {
        return (0, Some(Received::NeedMore));
    }
    let len: i32 = read_number(input, at + 1);
    assert(len == messages::number_at(rest, 1));
    let header = handle_header(server, input[at], len);
    if header.is_some() {
        return (5, header);
    }
    let size: usize = (len as usize) + 1;
    if input.len() - at < size {
        return (0, Some(Received::NeedMore));
    }
    proof {
        assert(rest.subrange(0, 1 + len) =~= input@.subrange(at as int, at + size));
        assert(rest.subrange(5, 1 + len) =~= input@.subrange(at + 5, at + size));
    }
    match take_message(server, input, at, at + size, client, track) {
        Ok(stop) => {
            if stop {
                (size, Some(Received::Bytes(take_buffer(server))))
            } else {
                (size, None)
            }
        },
        Err(e) => (size, Some(Received::Failed(e))),
    }
}

/// No message changes the settings of the connection.
pub proof fn messages_keep_settings(
    s: Session,
    client: Map<Seq<char>, Seq<char>>,
    track: bool,
    code: u8,
    body: Seq<u8>,
)
    ensures
        after_message(s, client, track, code, body).session.settings == s.settings,
{
    reveal(after_ready);
    reveal(after_status);
    reveal(after_flow);
    reveal(after_quiet);
    reveal(after_error);
    reveal(after_complete);
    reveal(after_parse);
    reveal(after_empty_query);
    reveal(after_notice);
}

/// Reads the messages that a backend has sent. `input` holds the bytes that
/// have arrived and were not taken yet; the number of bytes that are taken now
/// is returned with what came out. The client's parameters follow the session's
/// where `track` says so.
pub fn recv(
    server: &mut Server,
    input: &[u8],
    client: &mut ServerParameters,
    track: bool,
) -> (r: (usize, Received))
    ensures
        r.0 <= input.len(),
        ({
            let run = recv_result(old(server)@, old(client)@, track, input@);
            &&& final(server)@ == run.session
            &&& final(client)@ == run.client
            &&& r.0 == run.taken
            &&& shows(r.1, old(server)@.settings.address, run.outcome)
        }),
{
    match server.state.pending_large_message {
        Some((code, len)) => {
            return (0, start_stream(server, code, len));
        },
        None => {},
    }
    let ghost whole = recv_run(server@, client@, track, input@);
    let ghost address = server@.settings.address;
    let mut pos: usize = 0;
    assert(input@.skip(0) =~= input@);
    loop
        invariant
            pos <= input.len(),
            address == server@.settings.address,
            address == old(server)@.settings.address,
            whole == recv_result(old(server)@, old(client)@, track, input@),
            whole == ({
                let rest = recv_run(server@, client@, track, input@.skip(pos as int));
                Run { taken: rest.taken + pos, ..rest }
            }),
        decreases input.len() - pos,
    {
        let ghost rest = input@.skip(pos as int);
        let ghost before = server@;
        let ghost client_before = client@;
        let (taken, out) = recv_one(server, input, pos, client, track);
        match out {
            Some(received) => {
                return (pos + taken, received);
            },
            None => {
                proof {
                    assert(rest.skip(taken as int) =~= input@.skip(pos + taken));
                    step_keeps_settings(before, client_before, track, rest);
                }
                pos = pos + taken;
            },
        }
    }
}

/// Taking in a message does not change the settings of the connection.
proof fn step_keeps_settings(
    s: Session,
    client: Map<Seq<char>, Seq<char>>,
    track: bool,
    input: Seq<u8>,
)
    ensures
        recv_step(s, client, track, input) matches Step::Onward(t, _) ==> t.session.settings
            == s.settings,
{
    reveal(recv_step);
    let len = messages::number_at(input, 1);
    messages_keep_settings(
        Session { buffer: s.buffer + input.subrange(0, 1 + len), ..s },
        client,
        track,
        input[0],
        input.subrange(5, 1 + len),
    );
}

/// A step sees only the bytes that it takes, unless it needs more.
proof fn step_of_more(
    s: Session,
    client: Map<Seq<char>, Seq<char>>,
    track: bool,
    a: Seq<u8>,
    b: Seq<u8>,
)
    ensures
        match recv_step(s, client, track, a) {
            Step::Finished(run) => run.outcome is NeedMore && run.taken == 0 && run.session == s
                && run.client == client || recv_step(s, client, track, a + b) == Step::Finished(run),
            Step::Onward(t, taken) => 0 < taken <= a.len() && recv_step(s, client, track, a + b)
                == Step::Onward(t, taken),
        },
{
    reveal(recv_step);
    let c = a + b;
    if a.len() >= 5 {
        let len = messages::number_at(a, 1);
        assert(c[0] == a[0] && c[1] == a[1] && c[2] == a[2] && c[3] == a[3] && c[4] == a[4]);
        assert(messages::number_at(c, 1) == len);
        if after_header(s, client, a[0], len) is None && a.len() >= 1 + len {
            assert(c.subrange(0, 1 + len) =~= a.subrange(0, 1 + len));
            assert(c.subrange(5, 1 + len) =~= a.subrange(5, 1 + len));
        }
    }
}

/// It does not matter in which pieces the bytes of a backend arrive. Reading that
/// came to an end is not changed by bytes behind it, and reading that needs more
/// goes on, with the bytes that it has not taken, as if all had been there.
pub proof fn arrival_does_not_matter(
    s: Session,
    client: Map<Seq<char>, Seq<char>>,
    track: bool,
    a: Seq<u8>,
    b: Seq<u8>,
)
    ensures
        ({
            let first = recv_run(s, client, track, a);
            let whole = recv_run(s, client, track, a + b);
            if first.outcome is NeedMore {
                let rest = recv_run(
                    first.session,
                    first.client,
                    track,
                    a.skip(first.taken) + b,
                );
                whole == (Run { taken: first.taken + rest.taken, ..rest })
            } else {
                whole == first
            }
        }),
        0 <= recv_run(s, client, track, a).taken,
        recv_run(s, client, track, a).outcome is NeedMore ==> recv_run(s, client, track, a).taken
            <= a.len(),
    decreases a.len(),
{
    step_of_more(s, client, track, a, b);
    match recv_step(s, client, track, a) {
        Step::Finished(run) => {
            assert(0 <= run.taken) by {
                reveal(recv_step);
            }
            if run.outcome is NeedMore {
                assert(run.taken == 0) by {
                    reveal(recv_step);
                }
                assert(run.session == s && run.client == client) by {
                    reveal(recv_step);
                }
                assert(a.skip(0) =~= a);
            }
        },
        Step::Onward(t, taken) => {
            let tail = a.skip(taken);
            assert((a + b).skip(taken) =~= tail + b);
            arrival_does_not_matter(t.session, t.client, track, tail, b);
            let first = recv_run(t.session, t.client, track, tail);
            if first.outcome is NeedMore {
                assert(tail.skip(first.taken) =~= a.skip(first.taken + taken));
            }
        },
    }
}

/// Messages of the backend leave this alone: the settings, and which statements
/// have to be closed; what was noted and not sent can only become less.
pub open spec fn follows(s: Session, t: Session) -> bool {
    &&& t.settings == s.settings
    &&& t.deferred_closes == s.deferred_closes
    &&& t.state.has_pending_cache_entries ==> s.state.has_pending_cache_entries
}

/// A message leaves alone what messages leave alone, and puts no message off.
proof fn message_follows(
    s: Session,
    client: Map<Seq<char>, Seq<char>>,
    track: bool,
    code: u8,
    body: Seq<u8>,
)
    ensures
        follows(s, after_message(s, client, track, code, body).session),
        after_message(s, client, track, code, body).session.state.pending_large_message
            == s.state.pending_large_message,
{
    reveal(after_ready);
    reveal(after_status);
    reveal(after_flow);
    reveal(after_quiet);
    reveal(after_error);
    reveal(after_complete);
    reveal(after_parse);
    reveal(after_empty_query);
    reveal(after_notice);
}

/// Reading leaves alone what messages leave alone. What was buffered is handed
/// out as a whole, and after a message was put off there is more to come.
pub proof fn reading_follows(
    s: Session,
    client: Map<Seq<char>, Seq<char>>,
    track: bool,
    input: Seq<u8>,
)
    requires
        s.state.pending_large_message.is_none(),
    ensures
        ({
            let run = recv_run(s, client, track, input);
            &&& follows(s, run.session)
            &&& run.outcome is Bytes || run.outcome is Large ==> run.session.buffer.len() == 0
            &&& run.session.state.pending_large_message.is_some() ==> run.outcome is Bytes
                && run.session.state.data_available
        }),
    decreases input.len(),
{
    reveal(recv_step);
    let len = messages::number_at(input, 1);
    message_follows(
        Session { buffer: s.buffer + input.subrange(0, 1 + len), ..s },
        client,
        track,
        input[0],
        input.subrange(5, 1 + len),
    );
    match recv_step(s, client, track, input) {
        Step::Finished(_) => {},
        Step::Onward(t, taken) => {
            if 0 < taken <= input.len() {
                reading_follows(t.session, t.client, track, input.skip(taken));
            }
        },
    }
}

/// The session after a message was streamed, or streaming it failed. Only the
/// end of a row or of a function result tells that more is to come.
pub open spec fn stream_ended(s: Session, code: u8, was_bad: bool, ok: bool) -> Session {
    if ok {
        Session {
            state: SessionState {
                bad: was_bad,
                data_available: s.state.data_available || code != 100,
                pending_large_message: None,
                ..s.state
            },
            buffer: Seq::empty(),
            ..s
        }
    } else {
        Session { state: SessionState { bad: true, ..s.state }, ..s }
    }
}

/// Ends the streaming of a message. After a failure the header of a message
/// that was put off is kept: the next bytes are the middle of its payload.
pub fn finish_stream(server: &mut Server, code: u8, was_bad: bool, ok: bool)
    ensures
        final(server)@ == stream_ended(old(server)@, code, was_bad, ok),
{
    if ok {
        server.state.bad = was_bad;
        server.state.data_available = server.state.data_available || code != 100;
        server.state.pending_large_message = None;
        clear_buffer(&mut server.buffer);
    } else {
        server.state.bad = true;
    }
}

/// A connection whose message is being streamed is given up until the message
/// has gone out whole; then it is as reusable as before.
pub proof fn streaming_arms_and_restores(
    s: Session,
    client: Map<Seq<char>, Seq<char>>,
    code: u8,
    len: i32,
)
    ensures
        ({
            let begun = stream_started(s, client, code, len, 5);
            &&& begun.session.state.bad
            &&& begun.outcome matches Outcome::Large(h) && h.was_bad == s.state.bad
            &&& stream_ended(begun.session, code, s.state.bad, true).state.bad == s.state.bad
            &&& stream_ended(begun.session, code, s.state.bad, false).state.bad
        }),
{
}

/// How a streamed message is counted.
#[derive(Debug)]
pub struct StreamingRecord {
    pub kind: &'static str,
    pub result: &'static str,
    /// The bytes that went to the client, the header included.
    pub bytes: u64,
}

/// The name under which streamed messages of this kind are counted.
pub open spec fn stream_kind(code: u8) -> Seq<char> {
    if code == 68 {
        "data_row"@
    } else if code == 100 {
        "copy_data"@
    } else {
        "function_call_response"@
    }
}

/// The record of a streamed message of which `copied` bytes of payload went
/// out; its header of five bytes always does.
pub fn record_streaming(code: u8, ok: bool, copied: u64) -> (r: StreamingRecord)
    requires
        copied + 5 <= u64::MAX,
    ensures
        r.kind@ == stream_kind(code),
        r.result@ == if ok {
            "ok"@
        } else {
            "error"@
        },
        r.bytes == copied + 5,
{
    StreamingRecord {
        kind: if code == 68 {
            "data_row"
        } else if code == 100 {
            "copy_data"
        } else {
            "function_call_response"
        },
        result: if ok {
            "ok"
        } else {
            "error"
        },
        bytes: copied + 5,
    }
}

/// Something is about to be sent: a new exchange begins.
pub open spec fn sending(s: Session) -> Session {
    Session {
        state: SessionState {
            reset_pending: s.state.reset_pending || s.settings.reset_query.is_some(),
            ..s.state
        },
        unsupported: None,
        ..s
    }
}

/// Begins to send.
pub fn send_and_flush(server: &mut Server)
    ensures
        final(server)@ == sending(old(server)@),
{
    server.state.reset_pending = server.state.reset_pending
        || server.settings.server_reset_query.is_some();
    server.unsupported_feature_notice = None;
}

/// How sending ended.
pub enum SendOutcome {
    /// All bytes went out.
    Sent,
    /// Writing failed.
    Failed(Error),
    /// Writing took too long.
    TimedOut,
}

/// The session after sending: unless all went out, the connection is given up.
pub open spec fn sent(s: Session, outcome: SendOutcome) -> Session {
    Session {
        state: SessionState { bad: s.state.bad || !(outcome is Sent), ..s.state },
        ..s
    }
}

impl Server {
    /// Reads the messages that the backend has sent.
    pub fn recv(
        &mut self,
        input: &[u8],
        client: &mut ServerParameters,
        track: bool,
    ) -> (r: (usize, Received))
        ensures
            r.0 <= input.len(),
            ({
                let run = recv_result(old(self)@, old(client)@, track, input@);
                &&& final(self)@ == run.session
                &&& final(client)@ == run.client
                &&& r.0 == run.taken
                &&& shows(r.1, old(self)@.settings.address, run.outcome)
            }),
    {
        recv(self, input, client, track)
    }

    /// Begins to send; what then happened goes to
    /// [`Server::send_and_flush_timeout`].
    pub fn send_and_flush(&mut self)
        ensures
            final(self)@ == sending(old(self)@),
    {
        send_and_flush(self)
    }

    /// Ends sending, which may have had a time limit.
    pub fn send_and_flush_timeout(&mut self, outcome: SendOutcome) -> (r: Result<(), Error>)
        ensures
            final(self)@ == sent(old(self)@, outcome),
            match outcome {
                SendOutcome::Sent => r is Ok,
                SendOutcome::Failed(e) => r == Err::<(), Error>(e),
                SendOutcome::TimedOut => r is Err && r->Err_0 is FlushTimeout,
            },
    {
        match outcome {
            SendOutcome::Sent => Ok(()),
            SendOutcome::Failed(e) => {
                self.state.bad = true;
                Err(e)
            },
            SendOutcome::TimedOut => {
                self.state.bad = true;
                Err(Error::FlushTimeout)
            },
        }
    }
}

/// Removing names leaves exactly the others.
proof fn all_removed_contains(s: StatementNames, names: Seq<Seq<char>>)
    ensures
        forall|n: Seq<char>| #[trigger]
            prepared_statements::all_removed(s, names).names.contains(n) <==> s.names.contains(n)
                && !names.contains(n),
        prepared_statements::all_removed(s, names).limit == s.limit,
    decreases names.len(),
{
    if names.len() > 0 {
        let p = names.drop_last();
        all_removed_contains(s, p);
        let mid = prepared_statements::all_removed(s, p);
        prepared_statements::without_contains(mid.names, names.last());
        assert forall|n: Seq<char>| #[trigger]
            prepared_statements::all_removed(s, names).names.contains(n) <==> s.names.contains(n)
                && !names.contains(n) by {
            assert(mid.names.contains(n) <==> s.names.contains(n) && !p.contains(n));
            if names.contains(n) {
                let i = choose|i: int| 0 <= i < names.len() && names[i] == n;
                if i < p.len() {
                    assert(p[i] == n);
                }
            }
            if p.contains(n) {
                let i = choose|i: int| 0 <= i < p.len() && p[i] == n;
                assert(names[i] == n);
            }
            assert(names[names.len() - 1] == names.last());
        }
    }
}

/// An ErrorResponse, in whatever mode the session is: no statement is pending any more,
/// none that was pending counts as prepared, and all others stay. The error is noted
/// and a COPY has ended. In async mode nothing more is to come, and only a session that
/// belongs to its client alone can be used further.
pub proof fn refused_statements_are_forgotten(
    s: Session,
    client: Map<Seq<char>, Seq<char>>,
    track: bool,
    body: Seq<u8>,
)
    ensures
        ({
            let t = after_message(s, client, track, 69, body).session;
            &&& t.registering.len() == 0
            &&& s.statements.is_some() == t.statements.is_some()
            &&& forall|n: Seq<char>|
                s.statements.is_some() ==> (#[trigger] t.statements.unwrap().names.contains(n) <==> (
                s.statements.unwrap().names.contains(n) && !s.registering.contains(n)))
            &&& s.registering.len() > 0 ==> !t.state.has_pending_cache_entries
            &&& t.deferred_closes == s.deferred_closes
            &&& t.last_sql_error.is_some()
            &&& !t.state.in_copy_mode
            &&& s.statements.is_some() ==> t.state.cleanup.needs_cleanup_prepare
            &&& s.state.bad ==> t.state.bad
            &&& t.state.cleanup.needs_cleanup_set == s.state.cleanup.needs_cleanup_set
            &&& t.state.cleanup.needs_cleanup_declare == s.state.cleanup.needs_cleanup_declare
            &&& if s.state.async_mode {
                &&& !t.state.data_available
                &&& t.state.expected_responses == 0
                &&& !s.settings.session_mode ==> t.state.bad
                &&& s.settings.session_mode ==> t.state.bad == s.state.bad
            } else {
                &&& t.state.data_available == s.state.data_available
                &&& t.state.expected_responses == s.state.expected_responses
                &&& t.state.bad == s.state.bad
            }
            &&& after_message(s, client, track, 69, body).next is Continue
        }),
{
    reveal(after_ready);
    reveal(after_status);
    reveal(after_flow);
    reveal(after_quiet);
    reveal(after_error);
    reveal(after_complete);
    reveal(after_parse);
    reveal(after_empty_query);
    reveal(after_notice);
    match s.statements {
        Some(names) => all_removed_contains(names, s.registering),
        None => {},
    }
}

/// A ParseComplete confirms the statement that has been pending longest, and no other;
/// what counts as prepared stays so.
pub proof fn confirmed_statements_stay(
    s: Session,
    client: Map<Seq<char>, Seq<char>>,
    track: bool,
    body: Seq<u8>,
)
    ensures
        ({
            let t = after_message(s, client, track, 49, body).session;
            &&& t.statements == s.statements
            &&& s.registering.len() > 0 ==> s.registering == seq![s.registering[0]] + t.registering
            &&& s.registering.len() == 0 ==> t.registering.len() == 0
            &&& t.state.bad == s.state.bad
        }),
{
    reveal(after_ready);
    reveal(after_status);
    reveal(after_flow);
    reveal(after_quiet);
    reveal(after_error);
    reveal(after_complete);
    reveal(after_parse);
    reveal(after_empty_query);
    reveal(after_notice);
    if s.registering.len() > 0 {
        assert(s.registering =~= seq![s.registering[0]] + s.registering.drop_first());
    }
}

/// What the state byte of a ReadyForQuery means: idle, in a transaction, or in one that
/// has failed; with any other the connection is given up. Either way the answer has
/// ended.
pub proof fn ready_tells_the_transaction_state(
    s: Session,
    client: Map<Seq<char>, Seq<char>>,
    track: bool,
    body: Seq<u8>,
)
    ensures
        ({
            let t = after_message(s, client, track, 90, body);
            let idle = body.len() > 0 && body[0] as char == 'I';
            let open = body.len() > 0 && (body[0] as char == 'T' || body[0] as char == 'E');
            &&& idle ==> !t.session.state.in_transaction
            &&& open ==> t.session.state.in_transaction
            &&& idle || open ==> {
                &&& t.next is Stop
                &&& !t.session.state.data_available
                &&& t.session.state.bad == s.state.bad
            }
            &&& !idle && !open ==> t.session.state.bad && t.next is Fail
            &&& t.client == client
        }),
{
    reveal(after_ready);
    reveal(after_status);
    reveal(after_flow);
    reveal(after_quiet);
    reveal(after_error);
    reveal(after_complete);
    reveal(after_parse);
    reveal(after_empty_query);
    reveal(after_notice);
}

/// Rows and a COPY out mean that there is more to come, a COPY that the session is in
/// copy mode until its command has completed.
pub proof fn rows_and_copies_are_followed(
    s: Session,
    client: Map<Seq<char>, Seq<char>>,
    track: bool,
    body: Seq<u8>,
)
    ensures
        after_message(s, client, track, 68, body).session.state.data_available,
        after_message(s, client, track, 71, body).session.state.in_copy_mode,
        after_message(s, client, track, 71, body).next is Stop,
        after_message(s, client, track, 72, body).session.state.in_copy_mode,
        after_message(s, client, track, 72, body).session.state.data_available,
        after_message(s, client, track, 72, body).next is Stop,
        !after_message(s, client, track, 67, body).session.state.in_copy_mode,
        after_message(s, client, track, 100, body).session == s,
        after_message(s, client, track, 99, body).session == s,
{
    reveal(after_ready);
    reveal(after_status);
    reveal(after_flow);
    reveal(after_quiet);
    reveal(after_error);
    reveal(after_complete);
    reveal(after_parse);
    reveal(after_empty_query);
    reveal(after_notice);
}

/// Tags of different commands differ.
proof fn tags_differ()
    ensures
        messages::c_string("SET"@).len() == 4,
        messages::c_string("RESET"@).len() == 6,
        messages::c_string("DECLARE CURSOR"@).len() == 15,
        messages::c_string("CLOSE CURSOR ALL"@).len() == 17,
        messages::c_string("DEALLOCATE ALL"@).len() == 15,
        messages::c_string("DISCARD ALL"@).len() == 12,
        messages::c_string("DECLARE CURSOR"@) != messages::c_string("DEALLOCATE ALL"@),
{
    reveal_strlit("SET");
    reveal_strlit("RESET");
    reveal_strlit("DECLARE CURSOR");
    reveal_strlit("CLOSE CURSOR ALL");
    reveal_strlit("DEALLOCATE ALL");
    reveal_strlit("DISCARD ALL");
    vstd::utf8::is_ascii_chars_encode_utf8("SET"@);
    vstd::utf8::is_ascii_chars_encode_utf8("RESET"@);
    vstd::utf8::is_ascii_chars_encode_utf8("DECLARE CURSOR"@);
    vstd::utf8::is_ascii_chars_encode_utf8("CLOSE CURSOR ALL"@);
    vstd::utf8::is_ascii_chars_encode_utf8("DEALLOCATE ALL"@);
    vstd::utf8::is_ascii_chars_encode_utf8("DISCARD ALL"@);
    assert(messages::c_string("DECLARE CURSOR"@)[2] == 'C' as u8);
    assert(messages::c_string("DEALLOCATE ALL"@)[2] == 'A' as u8);
}

/// Outside a reset a completed command leaves its mark: `SET` and `DECLARE CURSOR` have
/// to be cleaned up at checkin, and the commands that undo them on the backend take the
/// mark away. Of the prepared statements none is left once the backend has dropped
/// them.
pub proof fn commands_leave_their_mark(
    s: Session,
    client: Map<Seq<char>, Seq<char>>,
    track: bool,
    body: Seq<u8>,
)
    requires
        !s.state.resetting,
    ensures
        ({
            let t = after_message(s, client, track, 67, body).session;
            let was = s.state.cleanup;
            let now = t.state.cleanup;
            &&& body == messages::c_string("SET"@) ==> now.needs_cleanup_set
                && now.needs_cleanup_prepare == was.needs_cleanup_prepare
                && now.needs_cleanup_declare == was.needs_cleanup_declare
            &&& body == messages::c_string("DECLARE CURSOR"@) ==> now.needs_cleanup_declare
                && now.needs_cleanup_set == was.needs_cleanup_set && now.needs_cleanup_prepare
                == was.needs_cleanup_prepare
            &&& body == messages::c_string("RESET"@) ==> !now.needs_cleanup_set
                && now.needs_cleanup_prepare == was.needs_cleanup_prepare
                && now.needs_cleanup_declare == was.needs_cleanup_declare
            &&& body == messages::c_string("CLOSE CURSOR ALL"@) ==> !now.needs_cleanup_declare
                && now.needs_cleanup_set == was.needs_cleanup_set && now.needs_cleanup_prepare
                == was.needs_cleanup_prepare
            &&& body == messages::c_string("DEALLOCATE ALL"@) ==> {
                &&& !now.needs_cleanup_prepare
                &&& now.needs_cleanup_set == was.needs_cleanup_set
                &&& now.needs_cleanup_declare == was.needs_cleanup_declare
                &&& t.registering.len() == 0
                &&& t.statements matches Some(names) ==> names.names.len() == 0
            }
            &&& body == messages::c_string("DISCARD ALL"@) && s.unsupported.is_none() ==> {
                &&& !now.needs_cleanup_set
                &&& !now.needs_cleanup_prepare
                &&& !now.needs_cleanup_declare
                &&& t.state.bad == s.state.bad
            }
            &&& body == messages::c_string("DISCARD ALL"@) && s.unsupported.is_some() ==> {
                &&& now == was
                &&& s.settings.reset_query.is_none() ==> t.state.bad
            }
            &&& body == messages::c_string("DISCARD ALL"@) ==> {
                &&& t.registering.len() == 0
                &&& t.statements matches Some(names) ==> names.names.len() == 0
            }
            &&& body != messages::c_string("DISCARD ALL"@) ==> t.state.bad == s.state.bad
            &&& body != messages::c_string("DISCARD ALL"@) && body != messages::c_string(
                "DEALLOCATE ALL"@,
            ) ==> t.statements == s.statements && t.registering == s.registering
            &&& now.needs_cleanup_set && !was.needs_cleanup_set ==> body == messages::c_string(
                "SET"@,
            )
            &&& now.needs_cleanup_declare && !was.needs_cleanup_declare ==> body
                == messages::c_string("DECLARE CURSOR"@)
            &&& now.needs_cleanup_prepare ==> was.needs_cleanup_prepare
            &&& was.needs_cleanup_set && !now.needs_cleanup_set ==> body == messages::c_string(
                "RESET"@,
            ) || body == messages::c_string("DISCARD ALL"@)
        }),
{
    tags_differ();
    reveal(after_ready);
    reveal(after_status);
    reveal(after_flow);
    reveal(after_quiet);
    reveal(after_error);
    reveal(after_complete);
    reveal(after_parse);
    reveal(after_empty_query);
    reveal(after_notice);
}

/// While a reset runs its commands leave no mark and take none away: only its end tells
/// whether the session is clean.
pub proof fn reset_commands_leave_no_mark(
    s: Session,
    client: Map<Seq<char>, Seq<char>>,
    track: bool,
    body: Seq<u8>,
)
    requires
        s.state.resetting,
    ensures
        ({
            let t = after_message(s, client, track, 67, body).session;
            &&& t.state.cleanup == s.state.cleanup
            &&& t.statements == s.statements
            &&& t.registering == s.registering
            &&& t.state.bad == s.state.bad
            &&& after_message(s, client, track, 73, body).session.last_sql_error.is_some()
        }),
{
    reveal(after_ready);
    reveal(after_status);
    reveal(after_flow);
    reveal(after_quiet);
    reveal(after_error);
    reveal(after_complete);
    reveal(after_parse);
    reveal(after_empty_query);
    reveal(after_notice);
}

/// An error that the backend has reported is not forgotten while the rest of the answer
/// is read, and no message makes a connection usable that was given up, ends a reset or
/// adds to what has to be closed.
pub proof fn messages_forget_no_error(
    s: Session,
    client: Map<Seq<char>, Seq<char>>,
    track: bool,
    code: u8,
    body: Seq<u8>,
)
    ensures
        ({
            let t = after_message(s, client, track, code, body).session;
            &&& s.last_sql_error.is_some() ==> t.last_sql_error.is_some()
            &&& s.unsupported.is_some() ==> t.unsupported.is_some()
            &&& s.state.bad ==> t.state.bad
            &&& t.state.resetting == s.state.resetting
            &&& t.state.async_mode == s.state.async_mode
            &&& t.buffer == s.buffer
            &&& t.settings == s.settings
            &&& t.close_reason == s.close_reason
            &&& after_message(s, client, track, code, body).next is Fail ==> t.state.bad
        }),
{
    reveal(after_ready);
    reveal(after_status);
    reveal(after_flow);
    reveal(after_quiet);
    reveal(after_error);
    reveal(after_complete);
    reveal(after_parse);
    reveal(after_empty_query);
    reveal(after_notice);
}

/// In async mode every answer to a request makes one fewer due, and otherwise none is
/// counted.
pub proof fn answers_are_counted(
    s: Session,
    client: Map<Seq<char>, Seq<char>>,
    track: bool,
    code: u8,
    body: Seq<u8>,
)
    requires
        code == 67 || code == 49 || code == 50 || code == 51 || code == 116 || code == 115 || code
            == 110 || code == 84 || code == 73,
    ensures
        ({
            let t = after_message(s, client, track, code, body).session;
            if s.state.async_mode && s.state.expected_responses > 0 {
                t.state.expected_responses == s.state.expected_responses - 1
            } else {
                t.state.expected_responses == s.state.expected_responses
            }
        }),
{
    reveal(after_ready);
    reveal(after_status);
    reveal(after_flow);
    reveal(after_quiet);
    reveal(after_error);
    reveal(after_complete);
    reveal(after_parse);
    reveal(after_empty_query);
    reveal(after_notice);
}

/// A ParameterStatus sets what is reported under its canonical name, in the session and,
/// where the client is followed, for the client; other names stay as they are.
pub proof fn reported_parameters_are_followed(
    s: Session,
    client: Map<Seq<char>, Seq<char>>,
    track: bool,
    body: Seq<u8>,
)
    ensures
        match messages::status_of(body) {
            Some((key, value)) => {
                let t = after_message(s, client, track, 83, body);
                let k = parameters::canonical_name(key);
                &&& t.next is Continue
                &&& parameters::is_tracked_name(k) ==> t.session.parameters == s.parameters.insert(
                    k,
                    value,
                ) && t.client == if track {
                    client.insert(k, value)
                } else {
                    client
                }
                &&& !parameters::is_tracked_name(k) ==> t.session.parameters == s.parameters
                    && t.client == client
                &&& t.session.state == s.state
            },
            None => after_message(s, client, track, 83, body).session.state.bad,
        },
{
    reveal(after_ready);
    reveal(after_status);
    reveal(after_flow);
    reveal(after_quiet);
    reveal(after_error);
    reveal(after_complete);
    reveal(after_parse);
    reveal(after_empty_query);
    reveal(after_notice);
}

/// No byte of a backend is lost, changed or made up on its way to the client: what was
/// buffered and what is taken now is buffered or handed out, in its order. Of a message
/// that is put off, the code and the length are kept.
pub proof fn every_byte_is_passed_on(
    s: Session,
    client: Map<Seq<char>, Seq<char>>,
    track: bool,
    input: Seq<u8>,
)
    requires
        s.state.pending_large_message.is_none(),
    ensures
        ({
            let run = recv_run(s, client, track, input);
            let arrived = s.buffer + input.take(run.taken);
            &&& 0 <= run.taken <= input.len()
            &&& match run.outcome {
                Outcome::NeedMore => run.session.buffer == arrived,
                Outcome::Bytes(b) => match run.session.state.pending_large_message {
                    None => b == arrived,
                    Some((code, len)) => arrived == b + seq![code] + wire::be32(len),
                },
                Outcome::Large(h) => h.bytes == arrived && run.session.state.bad,
                Outcome::Failed(_) => run.session.state.bad,
            }
        }),
    decreases input.len(),
{
    reveal(recv_step);
    if input.len() >= 5 {
        let len = messages::number_at(input, 1);
        let head = input.subrange(0, 1 + len);
        let u = Session { buffer: s.buffer + head, ..s };
        messages_forget_no_error(u, client, track, input[0], input.subrange(5, 1 + len));
        message_follows(u, client, track, input[0], input.subrange(5, 1 + len));
        number_written_back(input);
        assert(input.take(5) =~= seq![input[0]] + wire::be32(len));
        assert(s.buffer + input.take(5) =~= s.buffer + seq![input[0]] + wire::be32(len));
        assert(s.buffer + input.take(5) =~= s.buffer + (seq![input[0]] + wire::be32(len)));
        if 0 <= 1 + len <= input.len() {
            assert(input.take(1 + len) =~= head);
        }
    }
    assert(s.buffer + input.take(0) =~= s.buffer);
    match recv_step(s, client, track, input) {
        Step::Finished(_) => {},
        Step::Onward(t, taken) => {
            if 0 < taken <= input.len() {
                let tail = input.skip(taken);
                every_byte_is_passed_on(t.session, t.client, track, tail);
                let rest = recv_run(t.session, t.client, track, tail);
                assert(input.take(taken) + tail.take(rest.taken) =~= input.take(
                    taken + rest.taken,
                ));
                assert(t.session.buffer + tail.take(rest.taken) =~= s.buffer + input.take(
                    taken + rest.taken,
                ));
            }
        },
    }
}

/// Writing a number that was read gives its four bytes.
proof fn number_written_back(input: Seq<u8>)
    requires
        input.len() >= 5,
    ensures
        wire::be32(messages::number_at(input, 1)) == input.subrange(1, 5),
{
    let n = messages::number_at(input, 1);
    let u: int = input[1] * 0x100_0000 + input[2] * 0x1_0000 + input[3] * 0x100 + input[4];
    assert((if n < 0 {
        n + 0x1_0000_0000
    } else {
        n as int
    }) == u);
    assert(u / 0x100_0000 == input[1]);
    assert(u / 0x1_0000 % 0x100 == input[2]);
    assert(u / 0x100 % 0x100 == input[3]);
    assert(u % 0x100 == input[4]);
    assert(wire::be32(n) =~= input.subrange(1, 5));
}

/// Only rows, COPY data and function results are streamed, and only where they are
/// larger than the session allows; nothing larger than the protocol allows is read.
pub proof fn large_messages_are_not_buffered(
    s: Session,
    client: Map<Seq<char>, Seq<char>>,
    code: u8,
    len: i32,
)
    ensures
        ({
            let streamed = s.settings.max_message_size > 0 && len > s.settings.max_message_size && (
            code as char == 'D' || code as char == 'd' || code as char == 'V');
            &&& after_header(s, client, code, len).is_none() <==> !streamed && 4 <= len
                <= 268_435_456
            &&& after_header(s, client, code, len) matches Some(run) ==> if streamed {
                &&& s.buffer.len() > 0 ==> run.session.state.pending_large_message == Some(
                    (code, len),
                ) && run.outcome == Outcome::Bytes(s.buffer)
                &&& s.buffer.len() == 0 ==> (run.outcome matches Outcome::Large(h) && h.code
                    == code && h.len == len)
            } else {
                run.session.state.bad && run.outcome is Failed
            }
        }),
{
}

/// After a message was streamed whole, the connection is as usable as before and nothing
/// is put off; after a failure it is given up. The end of COPY data alone does not tell
/// that more is to come.
pub proof fn streaming_ends_well_or_retires(s: Session, code: u8, was_bad: bool)
    ensures
        stream_ended(s, code, was_bad, true).state.bad == was_bad,
        stream_ended(s, code, was_bad, true).state.pending_large_message.is_none(),
        stream_ended(s, code, was_bad, true).buffer.len() == 0,
        code as char != 'd' ==> stream_ended(s, code, was_bad, true).state.data_available,
        code as char == 'd' ==> stream_ended(s, code, was_bad, true).state.data_available
            == s.state.data_available,
        stream_ended(s, code, was_bad, false).state.bad,
{
}

/// A connection is given up when not all could be sent; what is sent begins a new
/// exchange, to which no old notice belongs.
pub proof fn sending_begins_an_exchange(s: Session, outcome: SendOutcome)
    ensures
        sending(s).unsupported.is_none(),
        sending(s).state.bad == s.state.bad,
        sending(s).parameters == s.parameters,
        !(outcome is Sent) ==> sent(s, outcome).state.bad,
        outcome is Sent ==> sent(s, outcome) == s,
{
}

/// A notice that a feature is not supported is kept with its words, and makes a running
/// reset fail; any other notice changes nothing.
pub proof fn unsupported_features_are_noted(
    s: Session,
    client: Map<Seq<char>, Seq<char>>,
    track: bool,
    body: Seq<u8>,
)
    ensures
        ({
            let t = after_message(s, client, track, 78, body).session;
            let fields = messages::error_fields(body);
            let code = messages::field_text(fields.unwrap(), 67u8);
            let words = messages::field_text(fields.unwrap(), 77u8);
            let noted = fields.is_some() && (code == Some("0A000"@) || code == Some("0AM01"@));
            &&& after_message(s, client, track, 78, body).next is Continue
            &&& noted && words.is_some() ==> t.unsupported == words
            &&& noted && s.state.resetting ==> t.last_sql_error.is_some()
                && t.last_sql_error.unwrap().0 == code.unwrap()
            &&& noted && !s.state.resetting ==> t.last_sql_error == s.last_sql_error
            &&& noted ==> t.unsupported.is_some() && t.state == s.state && t.statements
                == s.statements
            &&& fields.is_none() ==> t == s
            &&& fields.is_some() && code.is_some() && code != Some("0A000"@) && code
                != Some("0AM01"@) ==> t == s
            &&& fields.is_some() && code.is_none() ==> t == s
        }),
{
    reveal(after_flow);
    reveal(after_quiet);
    reveal(after_notice);
    reveal_strlit("0A000");
    reveal_strlit("0AM01");
    reveal_strlit("");
    assert("0A000"@.len() == 5 && "0AM01"@.len() == 5);
}

/// An error is noted as the backend words it, with its SQLSTATE; a body that cannot be
/// read counts as an internal error.
pub proof fn errors_are_noted(
    s: Session,
    client: Map<Seq<char>, Seq<char>>,
    track: bool,
    body: Seq<u8>,
)
    ensures
        ({
            let t = after_message(s, client, track, 69, body).session;
            let fields = messages::error_fields(body);
            &&& t.last_sql_error.is_some()
            &&& fields.is_none() ==> t.last_sql_error.unwrap().0 == "XX000"@
            &&& fields.is_some() ==> {
                let code = messages::field_text(fields.unwrap(), 67u8);
                let words = messages::field_text(fields.unwrap(), 77u8);
                &&& code.is_some() ==> t.last_sql_error.unwrap().0 == code.unwrap()
                &&& words.is_some() ==> t.last_sql_error.unwrap().1 == words.unwrap()
            }
        }),
{
    reveal(after_flow);
    reveal(after_quiet);
    reveal(after_error);
}

/// A logged text is the text itself but for its line breaks, which are written out.
pub proof fn line_breaks_are_written_out(s: Seq<char>, c: char)
    ensures
        one_line(Seq::empty()).len() == 0,
        one_line(s.push('\n')) == one_line(s) + seq!['\\', 'n'],
        one_line(s.push('\r')) == one_line(s) + seq!['\\', 'r'],
        c != '\n' && c != '\r' ==> one_line(s.push(c)) == one_line(s).push(c),
{
    assert(s.push('\n').drop_last() =~= s);
    assert(s.push('\r').drop_last() =~= s);
    assert(s.push(c).drop_last() =~= s);
}

} // verus!
