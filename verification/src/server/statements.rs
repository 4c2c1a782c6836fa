//! Prepared statements on a backend, and the ends of a connection.
use bytes::BytesMut;
use vstd::prelude::*;
use vstd::utf8::encode_utf8;
use crate::errors::Error;
use crate::messages::{cancel_request, put_close, put_sync, terminate, Parse};
use crate::pool::cancel::CancelTarget;
use crate::server::prepared_statements::PreparedCache;
#[allow(unused_imports)]
use crate::server::prepared_statements::StatementNames;
use crate::server::protocol_io::send_and_flush;
use crate::server::server_backend::Server;
#[allow(unused_imports)]
use crate::server::server_backend::{Session, SessionState};
use crate::wire::new_buffer;
#[allow(unused_imports)]
use crate::messages;
#[allow(unused_imports)]
use crate::server::prepared_statements;
#[allow(unused_imports)]
use crate::server::protocol_io;
#[allow(unused_imports)]
use crate::server::server_backend;
#[allow(unused_imports)]
use crate::wire;

verus! {

/// The mode of a client's pipeline that is put aside for an exchange of the
/// pooler's own, which ends with ReadyForQuery.
#[derive(Debug, Clone, Copy, PartialEq, Eq, Structural)]
pub struct AsidePipeline {
    pub was_async: bool,
    pub expected_responses: u32,
}

/// The session as an exchange of the pooler's own begins.
pub open spec fn aside(s: Session) -> Session {
    protocol_io::sending(Session { state: SessionState { async_mode: false, ..s.state }, ..s })
}

/// The session with the client's pipeline taken up again.
pub open spec fn resumed(s: Session, p: AsidePipeline) -> Session {
    if p.was_async {
        Session {
            state: SessionState {
                async_mode: true,
                expected_responses: p.expected_responses,
                ..s.state
            },
            ..s
        }
    } else {
        s
    }
}

/// The cache and the statements to close after `name` was added. A statement
/// that has to leave the cache is closed only after the client's batch, which
/// may still use it.
pub open spec fn with_statement(
    statements: Option<StatementNames>,
    closes: Seq<Seq<char>>,
    name: Seq<char>,
) -> (Option<StatementNames>, Seq<Seq<char>>) {
    match statements {
        None => (None, closes),
        Some(names) => match prepared_statements::name_evicted(names, name) {
            Some(gone) => (
                Some(prepared_statements::names_removed(prepared_statements::names_added(names, name), gone)),
                closes.push(gone),
            ),
            None => (Some(prepared_statements::names_added(names, name)), closes),
        },
    }
}

/// The session with a new statement noted.
#[verifier::opaque]
pub open spec fn statement_noted(s: Session, name: Seq<char>, sent: bool) -> Session {
    Session {
        registering: s.registering.push(name),
        state: SessionState {
            has_pending_cache_entries: s.state.has_pending_cache_entries || !sent,
            ..s.state
        },
        statements: with_statement(s.statements, s.deferred_closes, name).0,
        deferred_closes: with_statement(s.statements, s.deferred_closes, name).1,
        ..s
    }
}

/// Adds a statement to the cache.
fn add_statement(cache: &mut PreparedCache, closes: &mut Vec<String>, name: &str)
    ensures
        (final(cache)@, prepared_statements::names_of(final(closes)@)) == with_statement(
            old(cache)@,
            prepared_statements::names_of(old(closes)@),
            name@,
        ),
{
    match cache.add(name) {
        Some(gone) => {
            cache.remove(gone.as_str());
            let ghost text = gone@;
            closes.push(gone);
            assert(prepared_statements::names_of(closes@) =~= prepared_statements::names_of(old(closes)@).push(text));
        },
        None => {},
    }
}

/// What registering a statement needs.
pub enum RegisterStep {
    /// Nothing: the statement is there.
    Known,
    /// The statement is noted; its Parse goes out with the client's batch.
    Noted,
    /// These bytes have to be sent and answered.
    Send(BytesMut, AsidePipeline),
}

/// The session as the registration of a statement begins.
pub open spec fn register_begun(s: Session, name: Seq<char>, send: bool) -> Session {
    let looked = server_backend::after_lookup(s, name);
    if server_backend::session_has_statement(s, name) {
        looked
    } else if send {
        aside(statement_noted(looked, name, true))
    } else {
        statement_noted(looked, name, false)
    }
}

impl Server {
    /// Puts the client's pipeline aside.
    fn put_aside(&mut self) -> (p: AsidePipeline)
        ensures
            final(self)@ == aside(old(self)@),
            p == (AsidePipeline {
                was_async: old(self)@.state.async_mode,
                expected_responses: old(self)@.state.expected_responses,
            }),
    {
        let p = AsidePipeline {
            was_async: self.state.async_mode,
            expected_responses: self.state.expected_responses,
        };
        self.state.async_mode = false;
        send_and_flush(self);
        p
    }

    /// Takes the client's pipeline up again after an exchange of the pooler's
    /// own.
    pub fn take_up(&mut self, p: AsidePipeline)
        ensures
            final(self)@ == resumed(old(self)@, p),
    {
        if p.was_async {
            self.state.async_mode = true;
            self.state.expected_responses = p.expected_responses;
        }
    }

    /// Notes a new statement.
    fn note_statement(&mut self, name: &str, sent: bool)
        ensures
            final(self)@ == statement_noted(old(self)@, name@, sent),
            final(self)@.state.async_mode == old(self)@.state.async_mode,
            final(self)@.state.expected_responses == old(self)@.state.expected_responses,
    {
        proof {
            reveal(statement_noted);
        }
        let ghost before = prepared_statements::names_of(self.registering_prepared_statement@);
        self.registering_prepared_statement.push(name.to_owned());
        assert(prepared_statements::names_of(self.registering_prepared_statement@) =~= before.push(name@));
        self.state.has_pending_cache_entries = self.state.has_pending_cache_entries || !sent;
        add_statement(
            &mut self.prepared_statement_cache,
            &mut self.deferred_eviction_closes,
            name,
        );
    }

    /// Begins to register a prepared statement under `server_name`. If
    /// `should_send_parse_to_server`, its Parse is sent at once, otherwise it
    /// goes out with the client's batch.
    pub fn register_prepared_statement(
        &mut self,
        parse: &Parse,
        server_name: &str,
        should_send_parse_to_server: bool,
    ) -> (step: RegisterStep)
        requires
            parse.param_types.len() <= 0x7fff,
            encode_utf8(server_name@).len() + encode_utf8(parse.query@).len() + 4
                * parse.param_types.len() + 8 <= i32::MAX,
        ensures
            final(self)@ == register_begun(old(self)@, server_name@, should_send_parse_to_server),
            match step {
                RegisterStep::Known => server_backend::session_has_statement(old(self)@, server_name@),
                RegisterStep::Noted => !server_backend::session_has_statement(old(self)@, server_name@)
                    && !should_send_parse_to_server,
                RegisterStep::Send(b, p) => {
                    &&& !server_backend::session_has_statement(old(self)@, server_name@)
                    &&& should_send_parse_to_server
                    &&& wire::held(b) == messages::parse_message(server_name@, *parse) + messages::sync_message()
                    &&& p.was_async == old(self)@.state.async_mode
                    &&& p.expected_responses == old(self)@.state.expected_responses
                },
            },
    {
        if self.has_prepared_statement(server_name) {
            return RegisterStep::Known;
        }
        self.note_statement(server_name, should_send_parse_to_server);
        if !should_send_parse_to_server {
            return RegisterStep::Noted;
        }
        let mut b = new_buffer();
        parse.put_with_name(&mut b, server_name);
        put_sync(&mut b);
        let p = self.put_aside();
        assert(wire::held(b) =~= messages::parse_message(server_name@, *parse) + messages::sync_message());
        RegisterStep::Send(b, p)
    }

    /// Ends the registration: if the statement is not there, the backend has
    /// refused it.
    pub fn finish_register(&mut self, server_name: &str) -> (r: Result<(), Error>)
        ensures
            final(self)@ == server_backend::after_lookup(old(self)@, server_name@),
            match r {
                Ok(_) => server_backend::session_has_statement(old(self)@, server_name@),
                Err(e) => !server_backend::session_has_statement(old(self)@, server_name@)
                    && e is PreparedStatementError,
            },
    {
        if self.has_prepared_statement(server_name) {
            Ok(())
        } else {
            Err(Error::PreparedStatementError)
        }
    }

    /// Closes the statements that left the cache, now that the client's batch
    /// is through; `None` if there are none.
    pub fn send_deferred_eviction_closes(&mut self) -> (r: Option<(BytesMut, AsidePipeline)>)
        requires
            forall|i: int|
                0 <= i < old(self)@.deferred_closes.len() ==> encode_utf8(
                    #[trigger] old(self)@.deferred_closes[i],
                ).len() + 6 <= i32::MAX,
        ensures
            match r {
                None => old(self)@.deferred_closes.len() == 0 && final(self)@ == old(self)@,
                Some((b, p)) => {
                    &&& old(self)@.deferred_closes.len() > 0
                    &&& wire::held(b) == close_messages(old(self)@.deferred_closes) + messages::sync_message()
                    &&& p.was_async == old(self)@.state.async_mode
                    &&& p.expected_responses == old(self)@.state.expected_responses
                    &&& final(self)@ == aside(
                        Session { deferred_closes: Seq::empty(), ..old(self)@ },
                    )
                },
            },
    {
        if self.deferred_eviction_closes.len() == 0 {
            return None;
        }
        assert(self@.deferred_closes == prepared_statements::names_of(self.deferred_eviction_closes@));
        let mut b = closes(&self.deferred_eviction_closes);
        put_sync(&mut b);
        self.deferred_eviction_closes.clear();
        assert(prepared_statements::names_of(self.deferred_eviction_closes@) =~= Seq::<Seq<char>>::empty());
        let p = self.put_aside();
        Some((b, p))
    }

    /// What goes to the backend over a connection of its own, to cancel what the
    /// process with this key is doing.
    pub fn cancel(process_id: i32, secret_key: i32) -> (b: BytesMut)
        ensures
            wire::held(b) == messages::cancel_message(process_id, secret_key),
    {
        cancel_request(process_id, secret_key)
    }

    /// Where a cancel request of the client that holds this connection has to
    /// go.
    pub fn claim(&self) -> (r: CancelTarget)
        ensures
            r.process_id == self@.settings.process_id,
            r.secret_key == self@.settings.secret_key,
            r.host == self@.settings.address.host,
            r.port == self@.settings.address.port,
            r.server_tls == self@.settings.address.server_tls,
            r.connected_with_tls == self@.settings.connected_with_tls,
            r.pool_name == self@.settings.address.pool_name,
    {
        CancelTarget {
            process_id: self.settings.process_id,
            secret_key: self.settings.secret_key,
            host: self.settings.address.host.clone(),
            port: self.settings.address.port,
            server_tls: self.settings.address.server_tls,
            connected_with_tls: self.settings.connected_with_tls,
            pool_name: self.settings.address.pool_name.clone(),
        }
    }

    /// The farewell to the backend; a connection that was given up gets none.
    pub fn farewell(&self) -> (r: Option<BytesMut>)
        ensures
            match r {
                Some(b) => !self@.state.bad && wire::held(b) == messages::terminate_message(),
                None => self@.state.bad,
            },
    {
        if self.state.bad {
            None
        } else {
            Some(terminate())
        }
    }
}

/// The Close messages for all these statements.
pub open spec fn close_messages(names: Seq<Seq<char>>) -> Seq<u8>
    decreases names.len(),
{
    if names.len() == 0 {
        Seq::empty()
    } else {
        close_messages(names.drop_last()) + messages::close_message(names.last())
    }
}

/// The Close messages for all these statements.
fn closes(names: &Vec<String>) -> (b: BytesMut)
    requires
        forall|i: int|
            0 <= i < prepared_statements::names_of(names@).len() ==> encode_utf8(#[trigger] prepared_statements::names_of(names@)[i]).len()
                + 6 <= i32::MAX,
    ensures
        wire::held(b) == close_messages(prepared_statements::names_of(names@)),
{
    let ghost all = prepared_statements::names_of(names@);
    let mut b = new_buffer();
    let mut i: usize = 0;
    assert(all.take(0) =~= Seq::<Seq<char>>::empty());
    while i < names.len()
        invariant
            i <= names.len() == all.len(),
            all == prepared_statements::names_of(names@),
            forall|i: int| 0 <= i < all.len() ==> encode_utf8(#[trigger] all[i]).len() + 6
                <= i32::MAX,
            wire::held(b) == close_messages(all.take(i as int)),
        decreases names.len() - i,
    {
        proof {
            assert(all.take(i + 1).drop_last() =~= all.take(i as int));
            assert(all[i as int] == names@[i as int]@);
        }
        put_close(&mut b, names[i].as_str());
        i = i + 1;
    }
    assert(all.take(all.len() as int) =~= all);
    b
}

/// A statement that was noted is found as long as the backend does not refuse
/// it, and so is the statement that it drove out of the cache.
pub proof fn noted_statement_is_found(s: Session, name: Seq<char>, sent: bool)
    requires
        s.statements.is_some(),
        s.statements.unwrap().limit > 0,
    ensures
        server_backend::session_has_statement(statement_noted(s, name, sent), name),
        forall|other: Seq<char>|
            server_backend::session_has_statement(s, other) ==> #[trigger] server_backend::session_has_statement(
                statement_noted(s, name, sent),
                other,
            ),
{
    reveal(statement_noted);
    let names = s.statements.unwrap();
    let t = statement_noted(s, name, sent);
    let added = prepared_statements::names_added(names, name);
    assert(added.names[0] == name);
    match prepared_statements::name_evicted(names, name) {
        Some(gone) => {
            assert(t.deferred_closes.last() == gone);
            crate::server::prepared_statements::without_contains(added.names, gone);
            assert(added.names.contains(name));
            assert forall|other: Seq<char>|
                server_backend::session_has_statement(s, other) implies #[trigger] server_backend::session_has_statement(
                t,
                other,
            ) by {
                if s.deferred_closes.contains(other) {
                    let i = choose|i: int|
                        0 <= i < s.deferred_closes.len() && s.deferred_closes[i] == other;
                    assert(t.deferred_closes[i] == other);
                } else {
                    let i = choose|i: int| 0 <= i < names.names.len() && names.names[i] == other;
                    if other == gone {
                        assert(t.deferred_closes[s.deferred_closes.len() as int] == other);
                    } else {
                        assert(i < names.names.len() - 1);
                        assert(added.names[i + 1] == other);
                    }
                }
            }
        },
        None => {
            crate::server::prepared_statements::without_contains(names.names, name);
            assert forall|other: Seq<char>|
                server_backend::session_has_statement(s, other) implies #[trigger] server_backend::session_has_statement(
                t,
                other,
            ) by {
                if !s.deferred_closes.contains(other) {
                    let i = choose|i: int| 0 <= i < names.names.len() && names.names[i] == other;
                    if names.names.contains(name) {
                        if other != name {
                            let w = crate::server::prepared_statements::without(names.names, name);
                            assert(w.contains(other));
                            let j = choose|j: int| 0 <= j < w.len() && w[j] == other;
                            assert(added.names[j + 1] == other);
                        }
                    } else {
                        assert(added.names[i + 1] == other);
                    }
                }
            }
        },
    }
}

/// A statement whose Parse the backend refused is not found: registering it fails, and
/// the next use parses it again. That holds in whatever mode the client works.
pub proof fn refused_statement_is_not_found(
    s: Session,
    name: Seq<char>,
    client: Map<Seq<char>, Seq<char>>,
    track: bool,
    body: Seq<u8>,
)
    requires
        !server_backend::session_has_statement(s, name),
    ensures
        ({
            let begun = register_begun(s, name, true);
            let t = protocol_io::after_message(begun, client, track, 69, body).session;
            &&& begun.registering.contains(name)
            &&& !begun.deferred_closes.contains(name)
                ==> !server_backend::session_has_statement(t, name)
            &&& t.registering.len() == 0
        }),
{
    reveal(statement_noted);
    let begun = register_begun(s, name, true);
    let looked = server_backend::after_lookup(s, name);
    assert(begun.registering[looked.registering.len() as int] == name);
    protocol_io::refused_statements_are_forgotten(begun, client, track, body);
}

/// A statement that is registered counts as prepared from then on, is pending until the
/// backend confirms it, and is sent only where it was not there before.
pub proof fn registration_makes_pending(s: Session, name: Seq<char>, send: bool)
    ensures
        ({
            let t = register_begun(s, name, send);
            if server_backend::session_has_statement(s, name) {
                &&& t.registering == s.registering
                &&& t.deferred_closes == s.deferred_closes
                &&& t.state == s.state
            } else {
                &&& t.registering == s.registering.push(name)
                &&& !send ==> t.state.has_pending_cache_entries && t.state.async_mode
                    == s.state.async_mode
                &&& send ==> !t.state.async_mode && t.state.has_pending_cache_entries
                    == s.state.has_pending_cache_entries
            }
        }),
{
    reveal(statement_noted);
}

/// The cache holds no more names than its limit. Only the least recently used name
/// leaves it, only when it is full and a new one comes, and that one is closed later.
pub proof fn least_recently_used_leaves(
    names: StatementNames,
    closes: Seq<Seq<char>>,
    name: Seq<char>,
)
    requires
        0 < names.limit,
        names.names.len() <= names.limit,
        names.names.no_duplicates(),
    ensures
        ({
            let (after, later) = with_statement(Some(names), closes, name);
            let full = names.names.len() == names.limit && !names.names.contains(name);
            &&& after.is_some()
            &&& after.unwrap().limit == names.limit
            &&& after.unwrap().names.len() <= names.limit
            &&& after.unwrap().names.len() > 0 && after.unwrap().names[0] == name
            &&& full ==> later == closes.push(names.names.last())
            &&& !full ==> later == closes
            &&& forall|other: Seq<char>|
                names.names.contains(other) && !(full && other == names.names.last())
                    ==> #[trigger] after.unwrap().names.contains(other)
            &&& full ==> !after.unwrap().names.contains(names.names.last())
            &&& forall|other: Seq<char>| #[trigger]
                after.unwrap().names.contains(other) ==> other == name || names.names.contains(
                    other,
                )
        }),
{
    let added = prepared_statements::names_added(names, name);
    let w = prepared_statements::without(names.names, name);
    prepared_statements::without_contains(names.names, name);
    let full = names.names.len() == names.limit && !names.names.contains(name);
    if names.names.contains(name) {
        without_one(names.names, name);
        assert forall|other: Seq<char>| names.names.contains(other) implies #[trigger] added.names.contains(
            other,
        ) by {
            if other == name {
                assert(added.names[0] == name);
            } else {
                assert(w.contains(other));
                let j = choose|j: int| 0 <= j < w.len() && w[j] == other;
                assert(added.names[j + 1] == other);
            }
        }
        assert forall|other: Seq<char>| #[trigger] added.names.contains(other) implies other == name
            || names.names.contains(other) by {
            let j = choose|j: int| 0 <= j < added.names.len() && added.names[j] == other;
            if j > 0 {
                assert(w[j - 1] == other);
                assert(w.contains(other));
            }
        }
    } else if full {
        let last = names.names.last();
        let kept = names.names.drop_last();
        assert(names.names[names.names.len() - 1] == last);
        prepared_statements::without_contains(added.names, last);
        assert forall|i: int| 0 <= i < added.names.len() implies added.names[i] != last by {
            if i > 0 {
                assert(added.names[i] == names.names[i - 1]);
            }
        }
        nothing_to_remove(added.names, last);
        assert forall|other: Seq<char>|
            names.names.contains(other) && other != last implies #[trigger] added.names.contains(
            other,
        ) by {
            let j = choose|j: int| 0 <= j < names.names.len() && names.names[j] == other;
            assert(added.names[j + 1] == other);
        }
        assert forall|other: Seq<char>| #[trigger] added.names.contains(other) implies other == name
            || names.names.contains(other) by {
            let j = choose|j: int| 0 <= j < added.names.len() && added.names[j] == other;
            if j > 0 {
                assert(names.names[j - 1] == other);
            }
        }
    } else {
        assert forall|other: Seq<char>| names.names.contains(other) implies #[trigger] added.names.contains(
            other,
        ) by {
            let j = choose|j: int| 0 <= j < names.names.len() && names.names[j] == other;
            assert(added.names[j + 1] == other);
        }
        assert forall|other: Seq<char>| #[trigger] added.names.contains(other) implies other == name
            || names.names.contains(other) by {
            let j = choose|j: int| 0 <= j < added.names.len() && added.names[j] == other;
            if j > 0 {
                assert(names.names[j - 1] == other);
            }
        }
    }
}

/// Taking out a name that is not there changes nothing.
proof fn nothing_to_remove(names: Seq<Seq<char>>, name: Seq<char>)
    requires
        forall|i: int| 0 <= i < names.len() ==> names[i] != name,
    ensures
        prepared_statements::without(names, name) == names,
    decreases names.len(),
{
    reveal(Seq::filter);
    if names.len() > 0 {
        nothing_to_remove(names.drop_last(), name);
        assert(names =~= names.drop_last().push(names.last()));
    } else {
        assert(prepared_statements::without(names, name) =~= names);
    }
}

/// Taking out a name that is there makes the list shorter.
proof fn without_one(names: Seq<Seq<char>>, name: Seq<char>)
    requires
        names.contains(name),
    ensures
        prepared_statements::without(names, name).len() < names.len(),
    decreases names.len(),
{
    reveal(Seq::filter);
    prepared_statements::without_contains(names.drop_last(), name);
    if names.last() != name {
        let i = choose|i: int| 0 <= i < names.len() && names[i] == name;
        assert(names.drop_last()[i] == name);
        without_one(names.drop_last(), name);
    }
}

/// An exchange of the pooler's own does not disturb the client's pipeline: it runs
/// without it, and the pipeline is taken up as it was.
pub proof fn pipeline_is_taken_up_again(s: Session, t: Session, p: AsidePipeline)
    requires
        p.was_async == s.state.async_mode,
        p.expected_responses == s.state.expected_responses,
        t.state.async_mode == aside(s).state.async_mode,
    ensures
        !aside(s).state.async_mode,
        resumed(t, p).state.async_mode == s.state.async_mode,
        s.state.async_mode ==> resumed(t, p).state.expected_responses
            == s.state.expected_responses,
        resumed(t, p).statements == t.statements,
        resumed(t, p).state.bad == t.state.bad,
{
}

/// A statement is found exactly if it is in the cache or is still to be closed, and a
/// look at it forgets none.
pub proof fn lookup_forgets_nothing(s: Session, name: Seq<char>, other: Seq<char>)
    ensures
        server_backend::session_has_statement(s, name) <==> s.deferred_closes.contains(name) || (
        s.statements matches Some(names) && names.names.contains(name)),
        server_backend::session_has_statement(server_backend::after_lookup(s, name), other)
            == server_backend::session_has_statement(s, other),
        server_backend::after_lookup(s, name).registering == s.registering,
        server_backend::after_lookup(s, name).state == s.state,
{
    match s.statements {
        Some(names) => {
            prepared_statements::without_contains(names.names, name);
            if names.names.contains(name) {
                let f = prepared_statements::fronted(names.names, name);
                let w = prepared_statements::without(names.names, name);
                assert(f[0] == name);
                if w.contains(other) {
                    let j = choose|j: int| 0 <= j < w.len() && w[j] == other;
                    assert(f[j + 1] == other);
                }
                if f.contains(other) {
                    let j = choose|j: int| 0 <= j < f.len() && f[j] == other;
                    if j > 0 {
                        assert(w[j - 1] == other);
                        assert(w.contains(other));
                    }
                }
            }
        },
        None => {},
    }
}

/// Every statement that has to be closed has its Close message among the bytes that are
/// sent, in their order, and nothing else is among them.
pub proof fn every_deferred_close_is_sent(names: Seq<Seq<char>>, name: Seq<char>)
    ensures
        close_messages(names.push(name)) == close_messages(names) + messages::close_message(name),
        close_messages(Seq::empty()).len() == 0,
{
    assert(names.push(name).drop_last() =~= names);
}

} // verus!
