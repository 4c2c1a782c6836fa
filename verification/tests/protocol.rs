use pg_doorman::config::Address;
use pg_doorman::errors::Error;
use pg_doorman::messages::{simple_query, startup};
use pg_doorman::server::parameters::ServerParameters;
use pg_doorman::server::protocol_io::{
    classify_command_complete, finish_stream, record_streaming, sanitize_for_log,
    CommandCompleteEffect, Received, SendOutcome,
};
use pg_doorman::server::server_backend::Server;
use pg_doorman::server::startup::{Handshake, HandshakeStep, SessionOptions};
use pg_doorman::string_map::StringMap;

#[test]
fn set_tag_arms_set_cleanup() {
    assert_eq!(classify_command_complete(b"SET\0"), CommandCompleteEffect::ArmSet);
}

#[test]
fn reset_tag_disarms_set_cleanup() {
    assert_eq!(classify_command_complete(b"RESET\0"), CommandCompleteEffect::DisarmSet);
}

#[test]
fn declare_cursor_tag_arms_declare_cleanup() {
    assert_eq!(
        classify_command_complete(b"DECLARE CURSOR\0"),
        CommandCompleteEffect::ArmDeclare,
    );
}

#[test]
fn close_cursor_all_tag_disarms_declare_cleanup() {
    assert_eq!(
        classify_command_complete(b"CLOSE CURSOR ALL\0"),
        CommandCompleteEffect::DisarmDeclare,
    );
}

#[test]
fn close_single_cursor_tag_is_inert() {
    assert_eq!(classify_command_complete(b"CLOSE CURSOR\0"), CommandCompleteEffect::Inert);
}

#[test]
fn deallocate_all_tag_disarms_prepare_cleanup() {
    assert_eq!(
        classify_command_complete(b"DEALLOCATE ALL\0"),
        CommandCompleteEffect::DisarmPrepare,
    );
}

#[test]
fn discard_all_tag_disarms_every_cleanup_flag() {
    assert_eq!(classify_command_complete(b"DISCARD ALL\0"), CommandCompleteEffect::DisarmAll);
}

#[test]
fn partial_discard_tags_are_inert() {
    assert_eq!(classify_command_complete(b"DISCARD PLANS\0"), CommandCompleteEffect::Inert);
    assert_eq!(classify_command_complete(b"DISCARD TEMP\0"), CommandCompleteEffect::Inert);
    assert_eq!(classify_command_complete(b"DISCARD SEQUENCES\0"), CommandCompleteEffect::Inert);
}

#[test]
fn regular_command_tags_are_inert() {
    for tag in [
        &b"SELECT 1\0"[..],
        b"INSERT 0 1\0",
        b"UPDATE 5\0",
        b"DELETE 10\0",
        b"BEGIN\0",
        b"COMMIT\0",
        b"ROLLBACK\0",
        b"UNLISTEN\0",
        b"SAVEPOINT\0",
    ] {
        assert_eq!(
            classify_command_complete(tag),
            CommandCompleteEffect::Inert,
            "tag {:?} should not influence cleanup",
            std::str::from_utf8(tag).unwrap_or("<non-utf8>"),
        );
    }
}

#[test]
fn length_only_matches_do_not_confuse_classifier() {
    assert_eq!(
        classify_command_complete(b"DECLARE CURSOR\0"),
        CommandCompleteEffect::ArmDeclare,
    );
    assert_eq!(
        classify_command_complete(b"DEALLOCATE ALL\0"),
        CommandCompleteEffect::DisarmPrepare,
    );
    assert_eq!(classify_command_complete(b"MADE UP TAG 01\0"), CommandCompleteEffect::Inert);
}

#[test]
fn empty_or_missing_nul_is_inert() {
    assert_eq!(classify_command_complete(b""), CommandCompleteEffect::Inert);
    assert_eq!(classify_command_complete(b"SET"), CommandCompleteEffect::Inert);
    assert_eq!(classify_command_complete(b"RESET"), CommandCompleteEffect::Inert);
}

fn frame(code: u8, body: &[u8]) -> Vec<u8> {
    let mut result = vec![code];
    result.extend_from_slice(&((body.len() + 4) as i32).to_be_bytes());
    result.extend_from_slice(body);
    result
}

fn session(max_message_size: i32) -> Server {
    Server::startup(
        Handshake::new(),
        SessionOptions {
            connection_id: 1,
            address: Address::default(),
            application_name: "test".to_string(),
            connected_with_tls: false,
            cleanup_connections: true,
            server_reset_query: None,
            session_mode: false,
            max_message_size,
            operator_managed_startup_keys: Vec::new(),
            prepared_statement_cache_size: 4,
        },
    )
}

#[test]
fn messages_for_the_client_come_out_as_they_came() {
    let mut server = session(0);
    let mut client = ServerParameters::new();
    let input = [frame(b'C', b"SELECT 1\0"), frame(b'Z', b"I")].concat();
    let (taken, received) = server.recv(&input, &mut client, false);
    assert_eq!(taken, input.len());
    match received {
        Received::Bytes(b) => assert_eq!(&b[..], &input[..]),
        _ => panic!("expected bytes"),
    }
    assert!(!server.in_transaction());
    assert!(!server.is_data_available());
}

#[test]
fn a_message_in_pieces_is_waited_for() {
    let mut server = session(0);
    let mut client = ServerParameters::new();
    let input = frame(b'Z', b"T");
    let (taken, received) = server.recv(&input[..4], &mut client, false);
    assert_eq!(taken, 0);
    assert!(matches!(received, Received::NeedMore));
    let (taken, received) = server.recv(&input, &mut client, false);
    assert_eq!(taken, 6);
    assert!(matches!(received, Received::Bytes(_)));
    assert!(server.in_transaction());
}

#[test]
fn an_unknown_transaction_state_gives_the_connection_up() {
    let mut server = session(0);
    let mut client = ServerParameters::new();
    let (_, received) = server.recv(&frame(b'Z', b"?"), &mut client, false);
    assert!(matches!(received, Received::Failed(Error::ProtocolSyncError(_))));
    assert!(server.is_bad());
}

#[test]
fn sending_that_fails_gives_the_connection_up() {
    let mut server = session(0);
    server.send_and_flush();
    assert!(server.send_and_flush_timeout(SendOutcome::Sent).is_ok());
    assert!(!server.is_bad());
    let failed = SendOutcome::Failed(Error::ConnectError("broken pipe".to_string()));
    match server.send_and_flush_timeout(failed) {
        Err(Error::ConnectError(m)) => assert_eq!(m, "broken pipe"),
        other => panic!("unexpected {other:?}"),
    }
    assert!(server.is_bad());
    let mut server = session(0);
    assert!(matches!(
        server.send_and_flush_timeout(SendOutcome::TimedOut),
        Err(Error::FlushTimeout)
    ));
    assert!(server.is_bad());
}

#[test]
fn a_cancel_request_names_the_process_and_its_key() {
    let request = Server::cancel(258, -2);
    assert_eq!(
        &request[..],
        &[0, 0, 0, 16, 4, 210, 22, 46, 0, 0, 1, 2, 255, 255, 255, 254][..]
    );
}

#[test]
fn large_rows_are_streamed() {
    let mut server = session(100);
    let mut client = ServerParameters::new();
    let input = frame(b'D', &[7; 200]);
    let (taken, received) = server.recv(&input[..5], &mut client, false);
    assert_eq!(taken, 5);
    match received {
        Received::Large(m) => {
            assert_eq!(m.code, b'D');
            assert_eq!(m.len, 204);
            assert_eq!(&m.header[..], &input[..5]);
            assert!(server.is_bad(), "given up while the row is under way");
            finish_stream(&mut server, m.code, m.was_bad, true);
        }
        _ => panic!("expected a streamed message"),
    }
    assert!(!server.is_bad());
    assert!(server.is_data_available());
}

#[test]
fn streaming_is_recorded_with_the_header() {
    let r = record_streaming(b'D', true, 200);
    assert_eq!(r.kind, "data_row");
    assert_eq!(r.result, "ok");
    assert_eq!(r.bytes, 205);
    let r = record_streaming(b'd', false, 10);
    assert_eq!(r.kind, "copy_data");
    assert_eq!(r.result, "error");
}

#[test]
fn parameter_status_reaches_the_client_only_if_it_is_followed() {
    let mut server = session(0);
    let mut client = ServerParameters::new();
    let input = [frame(b'S', b"TimeZone\0UTC\0"), frame(b'Z', b"I")].concat();
    server.recv(&input, &mut client, true);
    assert_eq!(server.server_parameters_as_hashmap().get("TimeZone").unwrap(), "UTC");
    assert_eq!(client.get("TimeZone").unwrap(), "UTC");
}

#[test]
fn bytes_that_are_no_text_are_replaced() {
    let mut server = session(0);
    let mut client = ServerParameters::new();
    let input = [frame(b'E', b"SERROR\0C42601\0Mbad \xff byte\0\0"), frame(b'Z', b"I")].concat();
    server.recv(&input, &mut client, false);
    assert_eq!(
        server.last_sql_error,
        Some(("42601".to_string(), "bad \u{fffd} byte".to_string()))
    );
}

#[test]
fn log_lines_stay_one_line() {
    assert_eq!(sanitize_for_log("a\nb\rc"), "a\\nb\\rc");
}

#[test]
fn messages_are_framed() {
    assert_eq!(&simple_query("BEGIN")[..], b"Q\0\0\0\x0aBEGIN\0");
    let mut parameters = StringMap::new();
    parameters.insert("work_mem".to_string(), "64MB".to_string());
    let b = startup("u", "d", "a", &parameters).unwrap();
    assert_eq!(&b[4..8], &196608i32.to_be_bytes());
    assert_eq!(b.len() as i32, i32::from_be_bytes([b[0], b[1], b[2], b[3]]));
    let text = String::from_utf8_lossy(&b[8..]).into_owned();
    assert!(text.starts_with("user\0u\0"));
    assert!(text.contains("work_mem\064MB\0"));
    assert!(text.ends_with("\0\0"));
}

#[test]
fn a_handshake_ends_ready() {
    let sent = StringMap::new();
    let id = pg_doorman::errors::ServerIdentifier::new("u".to_string(), "d", "p");
    let mut h = Handshake::new();
    assert!(matches!(
        h.on_message(b'R', &0i32.to_be_bytes(), &sent, &id),
        HandshakeStep::Authenticate(0)
    ));
    assert!(h.authenticated);
    assert!(matches!(h.on_message(b'S', b"TimeZone\0UTC\0", &sent, &id), HandshakeStep::Continue));
    assert!(matches!(
        h.on_message(b'K', &[0, 0, 0, 1, 0, 0, 0, 2], &sent, &id),
        HandshakeStep::Continue
    ));
    assert!(matches!(h.on_message(b'Z', b"I", &sent, &id), HandshakeStep::Ready));
    assert_eq!(h.process_id, 1);
    assert_eq!(h.secret_key, 2);
    assert_eq!(h.parameters.get("TimeZone").unwrap(), "UTC");
}

#[test]
fn startup_failures_are_told_apart() {
    let mut sent = StringMap::new();
    sent.insert("work_mem".to_string(), "lots".to_string());
    let id = pg_doorman::errors::ServerIdentifier::new("u".to_string(), "d", "p");
    let fail = |body: &[u8]| {
        let mut h = Handshake::new();
        match h.on_message(b'E', body, &sent, &id) {
            HandshakeStep::Failed(e) => e,
            _ => panic!("expected a failure"),
        }
    };
    match fail(b"SFATAL\0C22023\0Minvalid value for parameter \"work_mem\"\0\0") {
        Error::ServerStartupParameterRejection { sqlstate, .. } => assert_eq!(sqlstate, "22023"),
        other => panic!("unexpected {other:?}"),
    }
    assert!(matches!(
        fail(b"SFATAL\0C57P03\0Mthe database system is starting up\0\0"),
        Error::ServerUnavailableError(..)
    ));
    assert!(matches!(
        fail(b"SFATAL\0C28P01\0Mpassword authentication failed\0\0"),
        Error::ServerStartupError(..)
    ));
}
