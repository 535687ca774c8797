use override_cache::connection::{
    frame_response, should_start_ipc_server, step, ConnectionAction, ConnectionError,
    ConnectionEvent, ConnectionState,
};
use override_cache::request::{chars_of, is_whitespace, parse_request, IpcRequest, RequestError};

fn request(tx: &str, override_objects: &str) -> IpcRequest {
    IpcRequest { tx: tx.to_string(), override_objects: override_objects.to_string() }
}

#[test]
fn parses_a_request_line() {
    assert_eq!(parse_request("SGVsbG8=;QQ==\n"), Ok(request("SGVsbG8=", "QQ==")));
}

#[test]
fn request_round_trips_through_its_format() {
    let tx = "SGVsbG8gd29ybGQh";
    let overrides = "AAECAw==";
    let line = format!("{};{}\n", tx, overrides);
    assert_eq!(parse_request(&line), Ok(request(tx, overrides)));
}

#[test]
fn trims_surrounding_white_space() {
    assert_eq!(parse_request(" \t SGVsbG8=;QQ==\r\n"), Ok(request("SGVsbG8=", "QQ==")));
    assert_eq!(parse_request("\u{3000}SGVsbG8=;QQ==\u{a0}"), Ok(request("SGVsbG8=", "QQ==")));
}

#[test]
fn request_without_separator_is_refused() {
    assert_eq!(parse_request("SGVsbG8=\n"), Err(RequestError::MissingSeparator));
    assert_eq!(parse_request(""), Err(RequestError::MissingSeparator));
    assert_eq!(parse_request("   \n"), Err(RequestError::MissingSeparator));
}

#[test]
fn invalid_transaction_is_refused() {
    assert_eq!(parse_request("abc!;QQ==\n"), Err(RequestError::InvalidTransaction));
    assert_eq!(parse_request("QQ;QQ==\n"), Err(RequestError::InvalidTransaction));
}

#[test]
fn invalid_override_objects_are_refused() {
    assert_eq!(parse_request("QQ==;%%\n"), Err(RequestError::InvalidOverrideObjects));
    // everything after the first separator is the override part
    assert_eq!(parse_request("QQ==;QQ==;QQ==\n"), Err(RequestError::InvalidOverrideObjects));
}

#[test]
fn empty_parts_are_empty_base64() {
    assert_eq!(parse_request(";\n"), Ok(request("", "")));
}

#[test]
fn white_space_is_unicode_white_space() {
    for c in ['\t', '\n', '\u{b}', '\u{c}', '\r', ' ', '\u{85}', '\u{a0}', '\u{1680}', '\u{2000}', '\u{200a}', '\u{2028}', '\u{2029}', '\u{202f}', '\u{205f}', '\u{3000}'] {
        assert!(is_whitespace(c), "{:?}", c);
        assert_eq!(is_whitespace(c), c.is_whitespace());
    }
    for c in ['a', ';', '=', '\u{200b}', '\u{180e}', '\u{feff}', '\0'] {
        assert!(!is_whitespace(c), "{:?}", c);
        assert_eq!(is_whitespace(c), c.is_whitespace());
    }
}

#[test]
fn chars_of_keeps_every_char() {
    assert_eq!(chars_of("aé;\u{3000}"), vec!['a', 'é', ';', '\u{3000}']);
}

#[test]
fn response_line_ends_in_newline() {
    assert_eq!(frame_response("{\"a\":1}"), b"{\"a\":1}\n".to_vec());
    assert_eq!(frame_response(""), b"\n".to_vec());
    assert_eq!(frame_response("é"), vec![0xc3, 0xa9, b'\n']);
}

#[test]
fn empty_read_closes_the_connection() {
    let r = step(ConnectionState::Reading, ConnectionEvent::LineRead { len: 0, line: String::new() });
    assert_eq!(r, (ConnectionState::Closed, ConnectionAction::Close));
}

#[test]
fn request_line_starts_a_dry_run() {
    let line = "SGVsbG8=;QQ==\n".to_string();
    let r = step(ConnectionState::Reading, ConnectionEvent::LineRead { len: line.len(), line });
    assert_eq!(r, (ConnectionState::DryRunning, ConnectionAction::DryRun(request("SGVsbG8=", "QQ=="))));
}

#[test]
fn bad_request_line_aborts_the_connection() {
    let line = "no separator\n".to_string();
    let r = step(ConnectionState::Reading, ConnectionEvent::LineRead { len: line.len(), line });
    assert_eq!(
        r,
        (ConnectionState::Closed, ConnectionAction::Abort(ConnectionError::Request(RequestError::MissingSeparator)))
    );
}

#[test]
fn read_failure_aborts_the_connection() {
    assert_eq!(
        step(ConnectionState::Reading, ConnectionEvent::ReadFailed),
        (ConnectionState::Closed, ConnectionAction::Abort(ConnectionError::Read))
    );
}

#[test]
fn dry_run_response_is_written_as_a_line() {
    let r = step(ConnectionState::DryRunning, ConnectionEvent::DryRunFinished { response_json: Some("{}".to_string()) });
    assert_eq!(r, (ConnectionState::Writing, ConnectionAction::Send(b"{}\n".to_vec())));
}

#[test]
fn failed_dry_run_aborts_the_connection() {
    let r = step(ConnectionState::DryRunning, ConnectionEvent::DryRunFinished { response_json: None });
    assert_eq!(r, (ConnectionState::Closed, ConnectionAction::Abort(ConnectionError::DryRun)));
}

#[test]
fn written_response_returns_to_reading() {
    assert_eq!(
        step(ConnectionState::Writing, ConnectionEvent::WriteFinished { ok: true }),
        (ConnectionState::Reading, ConnectionAction::ReadLine)
    );
    assert_eq!(
        step(ConnectionState::Writing, ConnectionEvent::WriteFinished { ok: false }),
        (ConnectionState::Closed, ConnectionAction::Abort(ConnectionError::Write))
    );
}

#[test]
fn only_full_nodes_with_an_orchestrator_serve_ipc() {
    assert!(should_start_ipc_server(false, true));
    assert!(!should_start_ipc_server(true, true));
    assert!(!should_start_ipc_server(false, false));
    assert!(!should_start_ipc_server(true, false));
}
