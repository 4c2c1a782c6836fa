//! Queries of the pooler itself, and the cleanup of a session before its
//! connection goes back to the pool.
use bytes::BytesMut;
use vstd::prelude::*;
use vstd::string::*;
use vstd::utf8::encode_utf8;
use crate::config::Address;
use crate::errors::Error;
use crate::messages::simple_query;
use crate::server::cleanup::CleanupState;
use crate::server::protocol_io::send_and_flush;
use crate::server::server_backend::Server;
#[allow(unused_imports)]
use crate::server::server_backend::{Session, SessionState};
use crate::text::concat;
use crate::wire::buffer_len;
#[allow(unused_imports)]
use crate::messages;
#[allow(unused_imports)]
use crate::server::cleanup;
#[allow(unused_imports)]
use crate::server::parameters;
#[allow(unused_imports)]
use crate::server::prepared_statements;
#[allow(unused_imports)]
use crate::server::protocol_io;
#[allow(unused_imports)]
use crate::server::protocol_io::{Outcome, Run};
#[allow(unused_imports)]
use crate::server::server_backend;
#[allow(unused_imports)]
use crate::text;
#[allow(unused_imports)]
use crate::wire;

verus! {

/// `e` is a failed query of the pooler's own with this text.
pub open spec fn is_query_error(e: Error, text: Seq<char>) -> bool {
    e matches Error::QueryError(m) && m@ == text
}

/// `e` reports that messages do not fit the session, with this text.
pub open spec fn is_sync_error(e: Error, text: Seq<char>) -> bool {
    e matches Error::ProtocolSyncError(m) && m@ == text
}

/// The session as a query of the pooler's own begins.
pub open spec fn query_begun(s: Session) -> Session {
    protocol_io::sending(Session { last_sql_error: None, ..s })
}

/// What is known of a query of the pooler's own after some of its answer was
/// read.
pub enum QueryProgress {
    /// More of the answer is to come.
    Reading,
    /// The query has ended well.
    Succeeded,
    /// The query has failed.
    Failed(Error),
}

/// The text that reports a rejected query.
pub open spec fn rejection_text(error: (Seq<char>, Seq<char>)) -> Seq<char> {
    text::join(seq!["backend rejected query (SQLSTATE "@, error.0, "): "@, error.1])
}

/// The session after some of the answer was read.
pub open spec fn query_read(s: Session) -> Session {
    if s.state.in_copy_mode {
        server_backend::given_up(s)
    } else if s.state.data_available {
        s
    } else {
        Session { last_sql_error: None, ..s }
    }
}

/// `p` is what the session tells of the query: a COPY is no answer, an error
/// that the backend reported is handed on.
pub open spec fn query_shows(s: Session, p: QueryProgress) -> bool {
    if s.state.in_copy_mode {
        p matches QueryProgress::Failed(e) && is_query_error(
            e,
            "internal query entered COPY mode"@,
        )
    } else if s.state.data_available {
        p is Reading
    } else {
        match s.last_sql_error {
            Some(error) => p matches QueryProgress::Failed(e) && is_query_error(
                e,
                rejection_text(error),
            ),
            None => p is Succeeded,
        }
    }
}

impl Server {
    /// Begins a query of the pooler's own: its result is not wanted, only
    /// whether it succeeds. The message to send is returned.
    pub fn small_simple_query(&mut self, query: &str) -> (b: BytesMut)
        requires
            encode_utf8(query@).len() + 5 <= i32::MAX,
        ensures
            wire::held(b) == messages::query_message(query@),
            final(self)@ == query_begun(old(self)@),
    {
        self.last_sql_error = None;
        send_and_flush(self);
        simple_query(query)
    }

    /// Tells how a query of the pooler's own stands after some of its answer
    /// was read.
    pub fn small_simple_query_progress(&mut self) -> (p: QueryProgress)
        ensures
            final(self)@ == query_read(old(self)@),
            query_shows(old(self)@, p),
    {
        if self.state.in_copy_mode {
            self.state.bad = true;
            return QueryProgress::Failed(
                Error::QueryError("internal query entered COPY mode".to_owned()),
            );
        }
        if self.state.data_available {
            return QueryProgress::Reading;
        }
        let mut error: Option<(String, String)> = None;
        std::mem::swap(&mut error, &mut self.last_sql_error);
        match error {
            Some((sqlstate, message)) => {
                let parts = [
                    "backend rejected query (SQLSTATE ",
                    sqlstate.as_str(),
                    "): ",
                    message.as_str(),
                ];
                assert(text::views(parts@) =~= seq![
                    "backend rejected query (SQLSTATE "@,
                    sqlstate@,
                    "): "@,
                    message@,
                ]);
                QueryProgress::Failed(Error::QueryError(concat(&parts)))
            },
            None => QueryProgress::Succeeded,
        }
    }

    /// Begins a check that the backend is alive: the smallest query there is.
    /// It is over once no more data is available.
    pub fn check_alive(&mut self) -> (b: BytesMut)
        ensures
            wire::held(b) == messages::query_message(";"@),
            final(self)@ == protocol_io::sending(old(self)@),
    {
        send_and_flush(self);
        proof {
            reveal_strlit(";");
            vstd::utf8::is_ascii_chars_encode_utf8(";"@);
        }
        simple_query(";")
    }
}

/// The session as a reset begins: it is given up until the reset has ended
/// well, and its commands do not count.
pub open spec fn reset_begun(s: Session) -> Session {
    query_begun(
        Session {
            state: SessionState {
                bad: true,
                resetting: true,
                async_mode: false,
                expected_responses: 0,
                ..s.state
            },
            ..s
        },
    )
}

/// How the exchange of a reset ended.
pub enum ResetOutcome {
    /// The backend has answered.
    Answered,
    /// The query failed.
    Failed(Error),
    /// The answer did not come in time.
    TimedOut,
}

/// The reset has ended well: a whole and supported exchange that ended idle.
pub open spec fn reset_succeeded(s: Session, outcome: ResetOutcome) -> bool {
    &&& outcome is Answered
    &&& s.unsupported.is_none()
    &&& !s.state.in_transaction && !s.state.in_copy_mode && !s.state.data_available
}

/// The session after a reset.
pub open spec fn reset_ended(s: Session, outcome: ResetOutcome) -> Session {
    Session {
        state: SessionState {
            resetting: false,
            bad: s.state.bad && !reset_succeeded(s, outcome),
            ..s.state
        },
        ..s
    }
}

/// `e` tells why a reset did not end well.
pub open spec fn is_reset_error(s: Session, outcome: ResetOutcome, e: Error) -> bool {
    match outcome {
        ResetOutcome::Failed(err) => e == err,
        ResetOutcome::TimedOut => is_query_error(e, "backend reset timed out"@),
        ResetOutcome::Answered => match s.unsupported {
            Some(notice) => is_query_error(
                e,
                text::join(seq!["backend reset is unsupported: "@, notice]),
            ),
            None => is_query_error(e, "backend reset did not finish Idle"@),
        },
    }
}

impl Server {
    /// Begins a reset with this query. The connection is given up until
    /// `finish_reset` finds that the reset ended well, so that a reset that is
    /// broken off retires the backend.
    pub fn run_reset_query(&mut self, query: &str) -> (b: BytesMut)
        requires
            encode_utf8(query@).len() + 5 <= i32::MAX,
        ensures
            wire::held(b) == messages::query_message(query@),
            final(self)@ == reset_begun(old(self)@),
    {
        self.state.bad = true;
        self.state.resetting = true;
        self.state.async_mode = false;
        self.state.expected_responses = 0;
        self.small_simple_query(query)
    }

    /// Ends a reset.
    pub fn finish_reset(&mut self, outcome: ResetOutcome) -> (r: Result<(), Error>)
        ensures
            final(self)@ == reset_ended(old(self)@, outcome),
            match r {
                Ok(_) => reset_succeeded(old(self)@, outcome),
                Err(e) => !reset_succeeded(old(self)@, outcome) && is_reset_error(
                    old(self)@,
                    outcome,
                    e,
                ),
            },
    {
        self.state.resetting = false;
        match outcome {
            ResetOutcome::Failed(e) => Err(e),
            ResetOutcome::TimedOut => Err(Error::QueryError("backend reset timed out".to_owned())),
            ResetOutcome::Answered => {
                match &self.unsupported_feature_notice {
                    Some(notice) => {
                        let parts = ["backend reset is unsupported: ", notice.as_str()];
                        assert(text::views(parts@) =~= seq!["backend reset is unsupported: "@, notice@]);
                        Err(Error::QueryError(concat(&parts)))
                    },
                    None => {
                        if self.state.in_transaction || self.state.in_copy_mode
                            || self.state.data_available {
                            Err(Error::QueryError("backend reset did not finish Idle".to_owned()))
                        } else {
                            self.state.bad = false;
                            Ok(())
                        }
                    },
                }
            },
        }
    }
}

/// A reset that did not end well leaves the connection given up, and one that
/// did leaves it usable; while it runs, the connection is given up.
pub proof fn reset_retires_unless_it_succeeds(s: Session, t: Session, outcome: ResetOutcome)
    requires
        t.state.bad,
    ensures
        reset_begun(s).state.bad,
        reset_ended(t, outcome).state.bad == !reset_succeeded(t, outcome),
        !reset_ended(t, outcome).state.resetting,
{
}

/// Which reset a checkin waits for.
#[derive(Debug, Clone, Copy, PartialEq, Eq, Structural)]
pub enum CheckinPhase {
    /// The transaction that the client left open is rolled back.
    Rollback,
    /// What the client changed is reset: parameters, prepared statements.
    Reset { gucs: bool, prepared: bool },
}

/// What a checkin needs next.
pub enum CheckinStep {
    /// The connection may go back to the pool.
    Done,
    /// The connection cannot be used again.
    Failed(Error),
    /// This query has to be run as a reset; after it has succeeded, the checkin
    /// goes on with this phase.
    Run(CheckinPhase, String),
}

/// How a session must not come back.
pub enum Misplaced {
    InCopy,
    DataAvailable,
    BufferNotEmpty,
}

/// The end of the text that reports how a session came back.
pub open spec fn misplaced_text(m: Misplaced) -> Seq<char> {
    match m {
        Misplaced::InCopy =>
            ") was returned to the pool while still in COPY mode. This may indicate a client disconnected during a COPY operation."@,
        Misplaced::DataAvailable =>
            ") was returned to the pool while still having data available. This may indicate a client disconnected before receiving all query results."@,
        Misplaced::BufferNotEmpty =>
            ") was returned to the pool with a non-empty buffer. This may indicate a client disconnected before the server response was fully processed."@,
    }
}

/// The text that reports how a session came back.
pub open spec fn misplaced_report(address: Address, m: Misplaced) -> Seq<char> {
    text::join(
        seq![
            "Protocol synchronization error: Server "@,
            address.host@,
            " (database: "@,
            address.database@,
            ", user: "@,
            address.username@,
            misplaced_text(m),
        ],
    )
}

/// The error that reports how a session came back.
fn misplaced_error(address: &Address, m: Misplaced) -> (e: Error)
    ensures
        is_sync_error(e, misplaced_report(*address, m)),
{
    let end = match m {
        Misplaced::InCopy =>
            ") was returned to the pool while still in COPY mode. This may indicate a client disconnected during a COPY operation.",
        Misplaced::DataAvailable =>
            ") was returned to the pool while still having data available. This may indicate a client disconnected before receiving all query results.",
        Misplaced::BufferNotEmpty =>
            ") was returned to the pool with a non-empty buffer. This may indicate a client disconnected before the server response was fully processed.",
    };
    let parts = [
        "Protocol synchronization error: Server ",
        address.host.as_str(),
        " (database: ",
        address.database.as_str(),
        ", user: ",
        address.username.as_str(),
        end,
    ];
    assert(text::views(parts@) =~= seq![
        "Protocol synchronization error: Server "@,
        address.host@,
        " (database: "@,
        address.database@,
        ", user: "@,
        address.username@,
        misplaced_text(m),
    ]);
    Error::ProtocolSyncError(concat(&parts))
}

/// How the session came back, if it must not.
pub open spec fn misplacement(s: Session) -> Option<Misplaced> {
    if s.state.in_copy_mode {
        Some(Misplaced::InCopy)
    } else if s.state.data_available {
        Some(Misplaced::DataAvailable)
    } else if s.buffer.len() > 0 {
        Some(Misplaced::BufferNotEmpty)
    } else {
        None
    }
}

/// What is left to clean up once no transaction is open. Statements that the
/// pooler believes in but the backend does not have, or the other way round,
/// count as prepared statements.
pub open spec fn cleanup_due(s: Session) -> CleanupState {
    CleanupState {
        needs_cleanup_prepare: s.state.cleanup.needs_cleanup_prepare
            || s.state.has_pending_cache_entries || s.deferred_closes.len() > 0,
        ..s.state.cleanup
    }
}

/// The selective reset for what is due.
pub open spec fn selective_reset(c: CleanupState) -> Seq<char> {
    "RESET ROLE;"@ + (if c.needs_cleanup_set {
        "RESET ALL;"@
    } else {
        Seq::empty()
    }) + (if c.needs_cleanup_prepare {
        "DEALLOCATE ALL;"@
    } else {
        Seq::empty()
    }) + (if c.needs_cleanup_declare {
        "CLOSE ALL;"@
    } else {
        Seq::empty()
    })
}

/// The reset that a dirty session gets: the operator's, or a selective one.
pub open spec fn reset_for(s: Session) -> Seq<char> {
    match s.settings.reset_query {
        Some(query) => query,
        None => selective_reset(cleanup_due(s)),
    }
}

/// What a reset of the operator's, or the selective one, covers.
pub open spec fn reset_phase(s: Session) -> CheckinPhase {
    let full = s.settings.reset_query.is_some();
    CheckinPhase::Reset {
        gucs: full || cleanup_due(s).needs_cleanup_set,
        prepared: full || cleanup_due(s).needs_cleanup_prepare,
    }
}

/// The session after it was found what is left to clean up.
pub open spec fn cleanup_noted(s: Session) -> Session {
    let t = Session { state: SessionState { cleanup: cleanup_due(s), ..s.state }, ..s };
    if cleanup::is_dirty(cleanup_due(s)) && !s.settings.cleanup_connections {
        server_backend::given_up(t)
    } else {
        t
    }
}

/// `step` is what a session without an open transaction needs.
pub open spec fn is_cleanup_step(s: Session, step: CheckinStep) -> bool {
    if !cleanup::is_dirty(cleanup_due(s)) {
        step is Done
    } else if !s.settings.cleanup_connections {
        step matches CheckinStep::Failed(e) && is_query_error(
            e,
            "session cleanup disabled for dirty backend"@,
        )
    } else {
        step matches CheckinStep::Run(phase, query) && phase == reset_phase(s) && query@
            == reset_for(s)
    }
}

/// The session as a checkin begins; a large message that was put off is void.
pub open spec fn checkin_begun(s: Session) -> Session {
    if s.state.bad {
        s
    } else {
        let t = Session {
            state: SessionState { pending_large_message: None, ..s.state },
            ..s
        };
        if misplacement(s).is_some() {
            server_backend::given_up(t)
        } else if s.state.in_transaction {
            t
        } else {
            cleanup_noted(t)
        }
    }
}

/// `step` is how a checkin begins.
pub open spec fn is_checkin_step(s: Session, step: CheckinStep) -> bool {
    if s.state.bad {
        step matches CheckinStep::Failed(e) && is_query_error(e, "cannot reuse a bad backend"@)
    } else {
        match misplacement(s) {
            Some(m) => step matches CheckinStep::Failed(e) && is_sync_error(
                e,
                misplaced_report(s.settings.address, m),
            ),
            None => if s.state.in_transaction {
                step matches CheckinStep::Run(phase, query) && phase == CheckinPhase::Rollback
                    && query@ == "ROLLBACK"@
            } else {
                is_cleanup_step(s, step)
            },
        }
    }
}

/// The session after its reset has succeeded.
pub open spec fn reset_applied(s: Session, gucs: bool, prepared: bool) -> Session {
    Session {
        state: SessionState {
            cleanup: cleanup::clean(),
            has_pending_cache_entries: s.state.has_pending_cache_entries && !prepared,
            ..s.state
        },
        registering: if prepared {
            Seq::empty()
        } else {
            s.registering
        },
        deferred_closes: if prepared {
            Seq::empty()
        } else {
            s.deferred_closes
        },
        statements: match s.statements {
            Some(names) => Some(
                if prepared {
                    prepared_statements::names_cleared(names)
                } else {
                    names
                },
            ),
            None => None,
        },
        parameters: if gucs {
            // What the backend does not report may have changed.
            parameters::kept_after_reset(s.parameters)
        } else {
            // The selective reset always includes the role.
            s.parameters.remove("role"@)
        },
        ..s
    }
}

/// The session after a reset of the checkin has succeeded.
pub open spec fn checkin_resumed(s: Session, phase: CheckinPhase) -> Session {
    match phase {
        CheckinPhase::Rollback => cleanup_noted(s),
        CheckinPhase::Reset { gucs, prepared } => reset_applied(s, gucs, prepared),
    }
}

/// `role` is a canonical name.
proof fn role_is_canonical()
    ensures
        parameters::canonical_name("role"@) == "role"@,
{
    reveal_strlit("role");
    reveal_strlit("datestyle");
    reveal_strlit("intervalstyle");
    reveal_strlit("timezone");
    assert(crate::text::ascii_lower("role"@) =~= "role"@);
    assert("role"@.len() == 4);
    assert("datestyle"@.len() == 9);
    assert("intervalstyle"@.len() == 13);
    assert("timezone"@.len() == 8);
}

impl Server {
    /// The selective reset for what is due.
    fn selective_reset_query(c: CleanupState) -> (r: String)
        ensures
            r@ == selective_reset(c),
    {
        let mut query: String = "RESET ROLE;".to_owned();
        if c.needs_cleanup_set {
            query.append("RESET ALL;");
        }
        if c.needs_cleanup_prepare {
            query.append("DEALLOCATE ALL;");
        }
        if c.needs_cleanup_declare {
            query.append("CLOSE ALL;");
        }
        assert(query@ =~= selective_reset(c));
        query
    }

    /// Notes what is left to clean up once no transaction is open.
    fn note_cleanup(&mut self)
        ensures
            final(self)@ == cleanup_noted(old(self)@),
    {
        let mut due = self.state.cleanup;
        due.needs_cleanup_prepare = due.needs_cleanup_prepare
            || self.state.has_pending_cache_entries || self.deferred_eviction_closes.len() > 0;
        self.state.cleanup = due;
        self.state.bad = self.state.bad || (due.needs_cleanup()
            && !self.settings.cleanup_connections);
    }

    /// What a session needs whose cleanup has been noted.
    fn cleanup_step(&self) -> (step: CheckinStep)
        requires
            self@.state.cleanup == cleanup_due(self@),
        ensures
            is_cleanup_step(self@, step),
    {
        if !self.state.cleanup.needs_cleanup() {
            CheckinStep::Done
        } else if !self.settings.cleanup_connections {
            CheckinStep::Failed(
                Error::QueryError("session cleanup disabled for dirty backend".to_owned()),
            )
        } else {
            let (query, full) = match &self.settings.server_reset_query {
                Some(query) => (query.clone(), true),
                None => (Server::selective_reset_query(self.state.cleanup), false),
            };
            let phase = CheckinPhase::Reset {
                gucs: full || self.state.cleanup.needs_cleanup_set,
                prepared: full || self.state.cleanup.needs_cleanup_prepare,
            };
            CheckinStep::Run(phase, query)
        }
    }

    /// Finds out what is left to clean up once no transaction is open.
    fn checkin_cleanup_due(&mut self) -> (step: CheckinStep)
        ensures
            final(self)@ == cleanup_noted(old(self)@),
            is_cleanup_step(old(self)@, step),
    {
        self.note_cleanup();
        self.cleanup_step()
    }

    /// Begins the cleanup before the connection goes back to the pool.
    pub fn checkin_cleanup(&mut self) -> (step: CheckinStep)
        ensures
            final(self)@ == checkin_begun(old(self)@),
            is_checkin_step(old(self)@, step),
    {
        if self.state.bad {
            return CheckinStep::Failed(Error::QueryError("cannot reuse a bad backend".to_owned()));
        }
        self.state.pending_large_message = None;
        let misplaced = if self.state.in_copy_mode {
            Some(Misplaced::InCopy)
        } else if self.state.data_available {
            Some(Misplaced::DataAvailable)
        } else if buffer_len(&self.buffer) > 0 {
            Some(Misplaced::BufferNotEmpty)
        } else {
            None
        };
        match misplaced {
            Some(m) => {
                let e = misplaced_error(&self.settings.address, m);
                self.state.bad = true;
                return CheckinStep::Failed(e);
            },
            None => {},
        }
        // Rolling back is kinder to the backend than a new connection for
        // each client that leaves a transaction open.
        if self.state.in_transaction {
            return CheckinStep::Run(CheckinPhase::Rollback, "ROLLBACK".to_owned());
        }
        self.checkin_cleanup_due()
    }

    /// Goes on with a checkin after a reset that it asked for has succeeded.
    pub fn checkin_cleanup_resume(&mut self, phase: CheckinPhase) -> (step: CheckinStep)
        ensures
            final(self)@ == checkin_resumed(old(self)@, phase),
            match phase {
                CheckinPhase::Rollback => is_cleanup_step(old(self)@, step),
                CheckinPhase::Reset { .. } => step is Done,
            },
    {
        match phase {
            CheckinPhase::Rollback => self.checkin_cleanup_due(),
            CheckinPhase::Reset { gucs, prepared } => {
                self.apply_reset(gucs, prepared);
                CheckinStep::Done
            },
        }
    }

    /// Notes what a successful reset has done to the session.
    fn apply_reset(&mut self, gucs: bool, prepared: bool)
        ensures
            final(self)@ == reset_applied(old(self)@, gucs, prepared),
    {
        if prepared {
            self.registering_prepared_statement.clear();
            self.deferred_eviction_closes.clear();
            self.prepared_statement_cache.clear();
            assert(prepared_statements::names_of(self.registering_prepared_statement@) =~= Seq::<Seq<char>>::empty());
            assert(prepared_statements::names_of(self.deferred_eviction_closes@) =~= Seq::<Seq<char>>::empty());
        }
        self.state.has_pending_cache_entries = self.state.has_pending_cache_entries && !prepared;
        if gucs {
            self.server_parameters.forget_untracked();
        } else {
            proof {
                role_is_canonical();
            }
            self.server_parameters.remove_param("role");
        }
        self.state.cleanup.reset();
    }
}

/// A session that a checkin lets go is idle, and nothing of the last client is
/// left in it.
pub open spec fn is_reusable(s: Session) -> bool {
    &&& !s.state.bad
    &&& !s.state.in_transaction && !s.state.in_copy_mode && !s.state.data_available
    &&& s.buffer.len() == 0
    &&& !cleanup::is_dirty(s.state.cleanup)
    &&& s.state.pending_large_message.is_none()
}

/// Bytes of a backend that have arrived, and for whom they are read.
pub struct Arrival {
    pub client: Map<Seq<char>, Seq<char>>,
    pub track: bool,
    pub input: Seq<u8>,
}

/// What reading them gives.
pub open spec fn reading(s: Session, a: Arrival) -> Run {
    protocol_io::recv_result(s, a.client, a.track, a.input)
}

/// The session after they were read; a large message is streamed to its end.
pub open spec fn heard(s: Session, a: Arrival) -> Session {
    let run = reading(s, a);
    match run.outcome {
        Outcome::Large(h) => protocol_io::stream_ended(run.session, h.code, h.was_bad, true),
        _ => run.session,
    }
}

/// The session after all of them were read.
pub open spec fn all_heard(s: Session, list: Seq<Arrival>) -> Session
    decreases list.len(),
{
    if list.len() == 0 {
        s
    } else {
        heard(all_heard(s, list.drop_last()), list.last())
    }
}

/// The session after a reset whose answer is `list`.
pub open spec fn reset_run(s: Session, list: Seq<Arrival>) -> Session {
    reset_ended(query_read(all_heard(reset_begun(s), list)), ResetOutcome::Answered)
}

/// A reset whose answer is `list` succeeds: reading it has handed something out,
/// the query has ended well, and so has the reset.
pub open spec fn reset_goes_well(s: Session, list: Seq<Arrival>) -> bool {
    let begun = reset_begun(s);
    let t = all_heard(begun, list);
    &&& list.len() > 0
    &&& !(reading(all_heard(begun, list.drop_last()), list.last()).outcome is NeedMore)
    &&& !(reading(all_heard(begun, list.drop_last()), list.last()).outcome is Failed)
    &&& query_shows(t, QueryProgress::Succeeded)
    &&& reset_succeeded(query_read(t), ResetOutcome::Answered)
}

/// What holds while an answer is read.
proof fn hearing_follows(s: Session, list: Seq<Arrival>)
    requires
        s.state.pending_large_message.is_none(),
    ensures
        ({
            let t = all_heard(s, list);
            &&& protocol_io::follows(s, t)
            &&& t.state.pending_large_message.is_some() ==> t.state.data_available
            &&& list.len() > 0 && (reading(all_heard(s, list.drop_last()), list.last()).outcome is Bytes
                || reading(all_heard(s, list.drop_last()), list.last()).outcome is Large)
                ==> t.buffer.len() == 0
        }),
    decreases list.len(),
{
    if list.len() > 0 {
        let init = list.drop_last();
        let last = list.last();
        hearing_follows(s, init);
        let u = all_heard(s, init);
        if u.state.pending_large_message.is_none() {
            protocol_io::reading_follows(u, last.client, last.track, last.input);
        }
    }
}

/// A reset that goes well leaves the session idle, without bytes for a client and
/// with what has to be cleaned up as it was.
proof fn reset_leaves_no_rest(s: Session, list: Seq<Arrival>)
    requires
        s.state.pending_large_message.is_none(),
        reset_goes_well(s, list),
    ensures
        ({
            let t = reset_run(s, list);
            &&& protocol_io::follows(s, t)
            &&& !t.state.bad
            &&& !t.state.in_transaction && !t.state.in_copy_mode && !t.state.data_available
            &&& t.buffer.len() == 0
            &&& t.state.pending_large_message.is_none()
        }),
{
    hearing_follows(reset_begun(s), list);
}

/// The session that a checkin lets go, if it lets it go: a transaction that is
/// open is rolled back, and a dirty session is reset. `rollback` and `reset` are
/// what the backend answers.
pub open spec fn checkin_end(s: Session, rollback: Seq<Arrival>, reset: Seq<Arrival>) -> Option<
    Session,
> {
    let begun = checkin_begun(s);
    if s.state.bad || misplacement(s).is_some() {
        None
    } else if !s.state.in_transaction {
        cleanup_end(begun, reset)
    } else if reset_goes_well(begun, rollback) {
        cleanup_end(
            checkin_resumed(reset_run(begun, rollback), CheckinPhase::Rollback),
            reset,
        )
    } else {
        None
    }
}

/// The same, once it was noted what is left to clean up.
pub open spec fn cleanup_end(s: Session, reset: Seq<Arrival>) -> Option<Session> {
    if !cleanup::is_dirty(cleanup_due(s)) {
        Some(s)
    } else if s.settings.cleanup_connections && reset_goes_well(s, reset) {
        Some(checkin_resumed(reset_run(s, reset), reset_phase(s)))
    } else {
        None
    }
}

/// Nothing of the last client is left in a session that a checkin lets go: it is
/// idle, needs no cleanup, has no bytes for a client, and the pooler and the
/// backend agree on the prepared statements.
pub proof fn finished_checkin_is_reusable(
    s: Session,
    rollback: Seq<Arrival>,
    reset: Seq<Arrival>,
)
    requires
        checkin_end(s, rollback, reset).is_some(),
    ensures
        ({
            let t = checkin_end(s, rollback, reset).unwrap();
            &&& is_reusable(t)
            &&& !t.state.has_pending_cache_entries
            &&& t.deferred_closes.len() == 0
        }),
{
    let begun = checkin_begun(s);
    if s.state.in_transaction {
        reset_leaves_no_rest(begun, rollback);
        let t = checkin_resumed(reset_run(begun, rollback), CheckinPhase::Rollback);
        if cleanup::is_dirty(cleanup_due(t)) {
            reset_leaves_no_rest(t, reset);
        }
    } else if cleanup::is_dirty(cleanup_due(begun)) {
        reset_leaves_no_rest(begun, reset);
    }
}

/// Where the operator has configured a reset, a dirty session that a checkin lets
/// go has no prepared statement, and no parameter is known of it that PostgreSQL
/// neither reports nor owns.
pub proof fn configured_reset_forgets_everything(s: Session, reset: Seq<Arrival>)
    requires
        s.settings.reset_query.is_some(),
        cleanup::is_dirty(cleanup_due(s)),
        cleanup_end(s, reset).is_some(),
    ensures
        ({
            let t = cleanup_end(s, reset).unwrap();
            &&& t.statements matches Some(names) ==> names.names.len() == 0
            &&& t.registering.len() == 0
            &&& forall|k: Seq<char>| #[trigger]
                t.parameters.contains_key(k) ==> parameters::is_tracked_name(k)
                    || parameters::is_forbidden_name(k)
        }),
{
}

/// A checkin that needs no reset lets the session go as it is.
pub proof fn clean_checkin_changes_nothing(s: Session, step: CheckinStep)
    requires
        is_checkin_step(s, step),
        step is Done,
    ensures
        checkin_end(s, Seq::empty(), Seq::empty()) == Some(checkin_begun(s)),
        checkin_begun(s) == (Session {
            state: SessionState { pending_large_message: None, ..s.state },
            ..s
        }),
{
}

/// A checkin that has failed leaves the connection given up.
pub proof fn failed_checkin_retires(s: Session, step: CheckinStep)
    requires
        is_checkin_step(s, step),
        step is Failed,
    ensures
        checkin_begun(s).state.bad,
{
}

/// What a client may have left in a backend.
pub struct Leftovers {
    /// Another role.
    pub role: bool,
    /// Other parameters.
    pub gucs: bool,
    /// Prepared statements.
    pub prepared: bool,
    /// Open cursors.
    pub cursors: bool,
}

/// What is left in a backend after it has run the statements of a query, one after
/// the other, as PostgreSQL understands them: `RESET ALL` does not reach the role.
/// `None` if a statement is not one of these.
pub open spec fn swept(query: Seq<char>, l: Leftovers) -> Option<Leftovers>
    decreases query.len(),
{
    if query.len() == 0 {
        Some(l)
    } else if text::starts_with(query, "RESET ROLE;"@) && "RESET ROLE;"@.len() > 0 {
        swept(query.skip("RESET ROLE;"@.len() as int), Leftovers { role: false, ..l })
    } else if text::starts_with(query, "RESET ALL;"@) && "RESET ALL;"@.len() > 0 {
        swept(query.skip("RESET ALL;"@.len() as int), Leftovers { gucs: false, ..l })
    } else if text::starts_with(query, "DEALLOCATE ALL;"@) && "DEALLOCATE ALL;"@.len() > 0 {
        swept(query.skip("DEALLOCATE ALL;"@.len() as int), Leftovers { prepared: false, ..l })
    } else if text::starts_with(query, "CLOSE ALL;"@) && "CLOSE ALL;"@.len() > 0 {
        swept(query.skip("CLOSE ALL;"@.len() as int), Leftovers { cursors: false, ..l })
    } else {
        None
    }
}

/// A query that begins with one of the statements.
proof fn sweep_one(rest: Seq<char>, l: Leftovers)
    ensures
        swept("RESET ROLE;"@ + rest, l) == swept(rest, Leftovers { role: false, ..l }),
        swept("RESET ALL;"@ + rest, l) == swept(rest, Leftovers { gucs: false, ..l }),
        swept("DEALLOCATE ALL;"@ + rest, l) == swept(rest, Leftovers { prepared: false, ..l }),
        swept("CLOSE ALL;"@ + rest, l) == swept(rest, Leftovers { cursors: false, ..l }),
{
    reveal_strlit("RESET ROLE;");
    reveal_strlit("RESET ALL;");
    reveal_strlit("DEALLOCATE ALL;");
    reveal_strlit("CLOSE ALL;");
    let a = "RESET ROLE;"@ + rest;
    let b = "RESET ALL;"@ + rest;
    let c = "DEALLOCATE ALL;"@ + rest;
    let d = "CLOSE ALL;"@ + rest;
    assert(a.skip(11) =~= rest);
    assert(b.skip(10) =~= rest);
    assert(c.skip(15) =~= rest);
    assert(d.skip(10) =~= rest);
    assert(a.subrange(0, 11) =~= "RESET ROLE;"@);
    assert(b.subrange(0, 10) =~= "RESET ALL;"@);
    assert(c.subrange(0, 15) =~= "DEALLOCATE ALL;"@);
    assert(d.subrange(0, 10) =~= "CLOSE ALL;"@);
    assert("RESET ROLE;"@[6] == 'R' && b[6] == 'A');
    if b.len() >= 11 {
        assert(b.subrange(0, 11)[6] == b[6]);
    }
    assert(c[0] == 'D' && d[0] == 'C');
    if c.len() >= 11 {
        assert(c.subrange(0, 11)[0] == c[0]);
    }
    assert(c.subrange(0, 10)[0] == c[0]);
    if d.len() >= 11 {
        assert(d.subrange(0, 11)[0] == d[0]);
    }
    if d.len() >= 15 {
        assert(d.subrange(0, 15)[0] == d[0]);
    }
    assert(d.subrange(0, 10)[0] == d[0]);
}

/// The statements of a selective reset do what they are for: the role always goes, and
/// the parameters, the prepared statements and the cursors go exactly where they have
/// to be cleaned up.
pub proof fn selective_reset_sweeps(c: CleanupState, l: Leftovers)
    ensures
        swept(selective_reset(c), l) == Some(
            Leftovers {
                role: false,
                gucs: l.gucs && !c.needs_cleanup_set,
                prepared: l.prepared && !c.needs_cleanup_prepare,
                cursors: l.cursors && !c.needs_cleanup_declare,
            },
        ),
{
    let none = Seq::<char>::empty();
    let close = if c.needs_cleanup_declare {
        "CLOSE ALL;"@
    } else {
        none
    };
    let deallocate = if c.needs_cleanup_prepare {
        "DEALLOCATE ALL;"@
    } else {
        none
    };
    let all = if c.needs_cleanup_set {
        "RESET ALL;"@
    } else {
        none
    };
    let l1 = Leftovers { role: false, ..l };
    let l2 = Leftovers { gucs: l.gucs && !c.needs_cleanup_set, ..l1 };
    let l3 = Leftovers { prepared: l.prepared && !c.needs_cleanup_prepare, ..l2 };
    let l4 = Leftovers { cursors: l.cursors && !c.needs_cleanup_declare, ..l3 };
    assert(close + none =~= close);
    sweep_one(none, l3);
    assert(swept(close, l3) == Some(l4));
    assert(none + close =~= close);
    sweep_one(close, l2);
    assert(swept(deallocate + close, l2) == Some(l4));
    assert(none + (deallocate + close) =~= deallocate + close);
    sweep_one(deallocate + close, l1);
    assert(swept(all + (deallocate + close), l1) == Some(l4));
    sweep_one(all + (deallocate + close), l);
    assert(selective_reset(c) =~= "RESET ROLE;"@ + (all + (deallocate + close)));
}

/// Nothing that the last client may have left reaches the next one. A checkin that has
/// no more to do found nothing to clean up. The reset that it asks for otherwise takes
/// away all that may be left, and what the checkin counts as reset was reset.
pub proof fn checkin_leaves_nothing_behind(s: Session, step: CheckinStep, l: Leftovers)
    requires
        is_checkin_step(s, step),
        !s.state.in_transaction,
        s.settings.reset_query.is_none(),
        l.role || l.gucs ==> s.state.cleanup.needs_cleanup_set,
        l.prepared ==> s.state.cleanup.needs_cleanup_prepare || s.state.has_pending_cache_entries
            || s.deferred_closes.len() > 0,
        l.cursors ==> s.state.cleanup.needs_cleanup_declare,
    ensures
        match step {
            CheckinStep::Done => !l.role && !l.gucs && !l.prepared && !l.cursors,
            CheckinStep::Run(phase, query) => {
                let all = Leftovers { role: true, gucs: true, prepared: true, cursors: true };
                let after = swept(query@, l);
                let counted = swept(query@, all);
                &&& after matches Some(r) && !r.role && !r.gucs && !r.prepared && !r.cursors
                &&& counted.is_some()
                &&& phase matches CheckinPhase::Reset { gucs, prepared } && gucs
                    == !counted.unwrap().gucs && prepared == !counted.unwrap().prepared
            },
            CheckinStep::Failed(_) => checkin_begun(s).state.bad,
        },
{
    selective_reset_sweeps(cleanup_due(s), l);
    selective_reset_sweeps(
        cleanup_due(s),
        Leftovers { role: true, gucs: true, prepared: true, cursors: true },
    );
}

/// The same once a transaction was rolled back: what is left is found out anew.
pub proof fn rollback_is_followed_by_cleanup(s: Session, step: CheckinStep)
    requires
        is_checkin_step(s, step),
        s.state.in_transaction,
        !s.state.bad,
        !s.state.in_copy_mode,
        !s.state.data_available,
        s.buffer.len() == 0,
    ensures
        step matches CheckinStep::Run(phase, query) && phase == CheckinPhase::Rollback && query@
            == "ROLLBACK"@,
        !checkin_begun(s).state.bad,
        checkin_begun(s).state.cleanup == s.state.cleanup,
        forall|t: Session, next: CheckinStep| #[trigger]
            is_cleanup_step(t, next) && !t.state.bad && !t.state.in_transaction
                && !t.state.in_copy_mode && !t.state.data_available && t.buffer.len() == 0
                ==> is_checkin_step(t, next),
{
}

/// A session comes back to the pool only if it is usable, idle and read to its end; the
/// reset that the operator has configured is run as it is, and takes the place of all
/// others.
pub proof fn checkin_starts_from_an_idle_session(s: Session, step: CheckinStep)
    requires
        is_checkin_step(s, step),
    ensures
        !(step is Failed) ==> !s.state.bad && !s.state.in_copy_mode && !s.state.data_available
            && s.buffer.len() == 0,
        s.state.bad || s.state.in_copy_mode || s.state.data_available || s.buffer.len() > 0
            ==> step is Failed,
        step is Failed ==> checkin_begun(s).state.bad,
        step is Done ==> !s.state.cleanup.needs_cleanup_set
            && !s.state.cleanup.needs_cleanup_prepare && !s.state.cleanup.needs_cleanup_declare
            && !s.state.has_pending_cache_entries && s.deferred_closes.len() == 0
            && !s.state.in_transaction,
        step is Run ==> s.state.in_transaction || s.settings.cleanup_connections,
        step matches CheckinStep::Run(phase, query) ==> (!s.state.in_transaction
            && s.settings.reset_query.is_some() ==> query@ == s.settings.reset_query.unwrap()
            && phase == (CheckinPhase::Reset { gucs: true, prepared: true })),
{
}

/// What is known of a session after its reset is what the reset has left: no parameter
/// that was reset and is not reported, no statement that was deallocated; all else is
/// as it was.
pub proof fn reset_is_mirrored(s: Session, gucs: bool, prepared: bool, k: Seq<char>)
    ensures
        ({
            let t = reset_applied(s, gucs, prepared);
            &&& !t.state.cleanup.needs_cleanup_set && !t.state.cleanup.needs_cleanup_prepare
                && !t.state.cleanup.needs_cleanup_declare
            &&& t.state.bad == s.state.bad
            &&& !gucs ==> t.parameters == s.parameters.remove("role"@)
            &&& gucs ==> t.parameters.contains_key(k) == (s.parameters.contains_key(k) && (
            parameters::is_tracked_name(k) || parameters::is_forbidden_name(k)))
            &&& gucs && t.parameters.contains_key(k) ==> t.parameters[k] == s.parameters[k]
            &&& prepared ==> t.registering.len() == 0 && t.deferred_closes.len() == 0
                && !t.state.has_pending_cache_entries && !server_backend::session_has_statement(
                t,
                k,
            )
            &&& !prepared ==> t.registering == s.registering && t.deferred_closes
                == s.deferred_closes && t.statements == s.statements
        }),
{
}

/// A query of the pooler's own has succeeded only if its answer was read to the end,
/// without a COPY and without an error of the backend.
pub proof fn own_query_succeeds_without_error(s: Session, p: QueryProgress)
    requires
        query_shows(s, p),
    ensures
        p is Succeeded <==> !s.state.in_copy_mode && !s.state.data_available
            && s.last_sql_error.is_none(),
        p is Reading <==> !s.state.in_copy_mode && s.state.data_available,
        s.state.in_copy_mode ==> query_read(s).state.bad,
        query_begun(s).last_sql_error.is_none(),
        !s.state.data_available ==> s.state.in_copy_mode || query_read(s).last_sql_error.is_none(),
{
}

/// A reset counts only if the backend has answered it in time, supports it and is idle
/// behind it. While it runs the connection is given up and its commands do not count.
pub proof fn reset_counts_only_when_idle(s: Session, t: Session, outcome: ResetOutcome)
    ensures
        reset_begun(s).state.bad,
        reset_begun(s).state.resetting,
        !reset_begun(s).state.async_mode,
        reset_begun(s).last_sql_error.is_none(),
        reset_begun(s).unsupported.is_none(),
        reset_succeeded(t, outcome) <==> outcome is Answered && t.unsupported.is_none()
            && !t.state.in_transaction && !t.state.in_copy_mode && !t.state.data_available,
        t.state.bad && !reset_succeeded(t, outcome) ==> reset_ended(t, outcome).state.bad,
        reset_succeeded(t, outcome) ==> !reset_ended(t, outcome).state.bad,
{
}

} // verus!
