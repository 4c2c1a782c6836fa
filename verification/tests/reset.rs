//! The reset of a session before its connection goes back to the pool.
use pg_doorman::config::Address;
use pg_doorman::errors::Error;
use pg_doorman::server::checkin::{CheckinStep, QueryProgress, ResetOutcome};
use pg_doorman::server::parameters::ServerParameters;
use pg_doorman::server::protocol_io::{finish_stream, Received};
use pg_doorman::server::server_backend::Server;
use pg_doorman::server::startup::{Handshake, SessionOptions};

fn frame(code: u8, body: &[u8]) -> Vec<u8> {
    let mut result = vec![code];
    result.extend_from_slice(&((body.len() + 4) as i32).to_be_bytes());
    result.extend_from_slice(body);
    result
}

fn notice(code: &str) -> Vec<u8> {
    frame(
        b'N',
        format!("SNOTICE\0C{code}\0Mcommand without clusterwide effect\0\0").as_bytes(),
    )
}

fn backend(reset: Option<&str>) -> Server {
    Server::startup(
        Handshake::new(),
        SessionOptions {
            connection_id: 1,
            address: Address::default(),
            application_name: "reset-test".to_string(),
            connected_with_tls: false,
            cleanup_connections: true,
            server_reset_query: reset.map(str::to_owned),
            session_mode: true,
            max_message_size: 10_000,
            operator_managed_startup_keys: Vec::new(),
            prepared_statement_cache_size: 4,
        },
    )
}

fn dirty(server: &mut Server) {
    server.mark_dirty();
    server.prepared_statement_cache.add("saved");
    server.server_parameters.set_param("search_path", "client_schema", true);
}

/// Reads an answer to a query of the pooler's own.
fn read_answer(server: &mut Server, response: &[u8]) -> ResetOutcome {
    let mut client = ServerParameters::new();
    let mut at = 0;
    loop {
        let (taken, received) = server.recv(&response[at..], &mut client, false);
        at += taken;
        match received {
            Received::NeedMore => return ResetOutcome::TimedOut,
            Received::Bytes(_) => {}
            Received::Large(m) => {
                at += m.len as usize - 4;
                finish_stream(server, m.code, m.was_bad, true);
            }
            Received::Failed(e) => return ResetOutcome::Failed(e),
        }
        match server.small_simple_query_progress() {
            QueryProgress::Reading => {}
            QueryProgress::Succeeded => return ResetOutcome::Answered,
            QueryProgress::Failed(e) => return ResetOutcome::Failed(e),
        }
    }
}

/// Runs a whole checkin against these answers.
fn checkin(server: &mut Server, responses: &[Vec<u8>]) -> Result<(), Error> {
    let mut step = server.checkin_cleanup();
    let mut next = responses.iter();
    loop {
        match step {
            CheckinStep::Done => return Ok(()),
            CheckinStep::Failed(e) => return Err(e),
            CheckinStep::Run(phase, query) => {
                server.run_reset_query(&query);
                assert!(server.is_bad(), "a reset that is broken off retires the backend");
                let response = next.next().expect("no answer for this query");
                let outcome = read_answer(server, response);
                server.finish_reset(outcome)?;
                step = server.checkin_cleanup_resume(phase);
            }
        }
    }
}

#[test]
fn custom_reset_drains_rows_and_notices_and_commits_only_at_idle() {
    let mut row = vec![0, 1];
    row.extend_from_slice(&20_000i32.to_be_bytes());
    row.extend_from_slice(&vec![b'x'; 20_000]);
    let response = [
        frame(b'C', b"DEALLOCATE ALL\0"),
        notice("00000"),
        frame(b'D', &row),
        frame(b'C', b"SELECT 1\0"),
        frame(b'Z', b"I"),
    ]
    .concat();
    let mut server = backend(Some("full reset"));
    dirty(&mut server);
    // Cleanup must ignore an old Flush response count and wait for Z.
    server.set_async_mode(true);
    server.set_expected_responses(0);
    checkin(&mut server, &[response]).unwrap();
    assert!(!server.is_bad());
    assert!(!server.state.cleanup.needs_cleanup());
    assert_eq!(server.prepared_statement_cache.len(), Some(0));
    assert!(!server.server_parameters.as_hashmap().contains_key("search_path"));
    server.small_simple_query("next client");
    assert!(matches!(
        read_answer(&mut server, &frame(b'Z', b"I")),
        ResetOutcome::Answered
    ));
}

#[test]
fn failed_or_incomplete_resets_never_commit_cleanup_state() {
    let error = frame(b'E', b"SERROR\0C42601\0Munsupported reset\0\0");
    for failure in [
        [error, frame(b'Z', b"I")].concat(),
        [notice("0AM01"), frame(b'Z', b"I")].concat(),
        [notice("0A000"), frame(b'Z', b"I")].concat(),
        [frame(b'I', b""), frame(b'Z', b"I")].concat(),
        frame(b'G', &[0, 0, 0]),
        frame(b'Z', b"T"),
        frame(b'Z', b"E"),
    ] {
        let response = [frame(b'C', b"DEALLOCATE ALL\0"), failure].concat();
        let mut server = backend(Some("partial reset"));
        dirty(&mut server);
        assert!(checkin(&mut server, &[response]).is_err());
        assert!(server.is_bad());
        assert!(server.state.cleanup.needs_cleanup());
        assert_eq!(server.prepared_statement_cache.len(), Some(1));
        assert!(server.server_parameters.as_hashmap().contains_key("search_path"));
        assert!(checkin(&mut server, &[]).is_err());
    }
}

#[test]
fn cancelled_reset_retires_backend() {
    let mut server = backend(Some("slow reset"));
    dirty(&mut server);
    let phase = match server.checkin_cleanup() {
        CheckinStep::Run(phase, query) => {
            assert_eq!(query, "slow reset");
            server.run_reset_query(&query);
            phase
        }
        _ => panic!("expected a reset"),
    };
    // The answer has not ended when the checkin is broken off.
    let _ = phase;
    let mut client = ServerParameters::new();
    server.recv(&frame(b'C', b"RESET\0"), &mut client, false);
    assert!(server.is_bad());
    assert!(server.state.cleanup.needs_cleanup());
}

#[test]
fn greengage_discard_invalidates_local_prepared_but_requires_cluster_reset() {
    for configured in [false, true] {
        let response = [
            notice("0AM01"),
            frame(b'C', b"DISCARD ALL\0"),
            frame(b'Z', b"I"),
        ]
        .concat();
        let mut server = backend(configured.then_some("cluster reset"));
        dirty(&mut server);
        server.send_and_flush();
        let mut client = ServerParameters::new();
        server.recv(&response, &mut client, false);
        assert_eq!(server.prepared_statement_cache.len(), Some(0));
        assert!(server.state.cleanup.needs_cleanup());
        assert_eq!(server.is_bad(), !configured);
        if configured {
            let answer = [frame(b'C', b"RESET\0"), frame(b'Z', b"I")].concat();
            checkin(&mut server, &[answer]).unwrap();
            assert!(!server.state.cleanup.needs_cleanup());
        }
    }
}

#[test]
fn a_clean_session_goes_back_without_a_reset() {
    let mut server = backend(Some("full reset"));
    assert!(matches!(server.checkin_cleanup(), CheckinStep::Done));
}

#[test]
fn an_open_transaction_is_rolled_back() {
    let mut server = backend(None);
    server.state.in_transaction = true;
    match server.checkin_cleanup() {
        CheckinStep::Run(_, query) => assert_eq!(query, "ROLLBACK"),
        _ => panic!("expected a rollback"),
    }
}

#[test]
fn a_reset_that_takes_too_long_is_reported() {
    let mut server = backend(Some("full reset"));
    server.run_reset_query("full reset");
    match server.finish_reset(ResetOutcome::TimedOut) {
        Err(Error::QueryError(m)) => assert_eq!(m, "backend reset timed out"),
        other => panic!("unexpected {other:?}"),
    }
    assert!(server.is_bad());
}

#[test]
fn a_copy_is_no_answer_to_a_query_of_the_pooler() {
    let mut server = backend(None);
    server.small_simple_query("oops");
    match read_answer(&mut server, &frame(b'G', &[0, 0, 0])) {
        ResetOutcome::Failed(Error::QueryError(m)) => {
            assert_eq!(m, "internal query entered COPY mode")
        }
        _ => panic!("expected a failure"),
    }
    assert!(server.is_bad());
}
