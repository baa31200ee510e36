use tiez_slim::ipc::{port_file_text, IpcCommand, IpcEndpoint, IpcError, IpcResponse, IpcServer};

#[test]
fn ipc_error_exit_codes() {
    assert_eq!(IpcError::ConnectionRefused.exit_code(), 2);
    assert_eq!(IpcError::InvalidJson("x".into()).exit_code(), 3);
    assert_eq!(IpcError::UnknownCommand(42).exit_code(), 42);
    assert_eq!(IpcError::NotFound.exit_code(), 5);
    assert_eq!(IpcError::IpcDisabled.exit_code(), 6);
    assert_eq!(IpcError::Timeout.exit_code(), 1);
    let io_err = IpcError::Io(std::io::Error::other("test"));
    assert_eq!(io_err.exit_code(), 1);
    assert_eq!(IpcError::Storage("x".into()).exit_code(), 1);
}

#[test]
fn ipc_error_display() {
    let e = IpcError::ConnectionRefused;
    assert!(e.message().contains("deziroslim"));

    let e = IpcError::InvalidJson("bad input".into());
    assert!(e.message().contains("bad input"));

    let e = IpcError::UnknownCommand(7);
    assert!(e.message().contains('7'));

    let e = IpcError::NotFound;
    assert!(e.message().contains("not found"));

    let e = IpcError::IpcDisabled;
    assert!(e.message().contains("disabled"));
}

#[test]
fn ipc_error_messages_exact() {
    assert_eq!(IpcError::UnknownCommand(-42).message(), "unknown command (code -42)");
    assert_eq!(IpcError::UnknownCommand(0).message(), "unknown command (code 0)");
    assert_eq!(IpcError::Timeout.message(), "IPC timed out");
    assert_eq!(IpcError::Storage("disk full".into()).message(), "disk full");
    assert_eq!(IpcError::Io(std::io::Error::other("boom")).message(), "IO error: boom");
}

#[test]
fn ipc_endpoint_reads_port_and_token() {
    let endpoint = IpcEndpoint::parse("12345\nabcdef\n").unwrap();
    assert_eq!(endpoint.port, 12345);
    assert_eq!(endpoint.token, "abcdef");
}

#[test]
fn ipc_endpoint_rejects_missing_token() {
    let err = IpcEndpoint::parse("12345\n").unwrap_err();
    assert!(matches!(err, IpcError::InvalidJson(_)));
}

#[test]
fn ipc_endpoint_errors_name_the_problem() {
    let msg = |raw: &str| match IpcEndpoint::parse(raw) {
        Err(IpcError::InvalidJson(m)) => m,
        other => panic!("unexpected {other:?}"),
    };
    assert_eq!(msg(""), "missing IPC port");
    assert_eq!(msg("port\ntoken"), "invalid port in port file");
    assert_eq!(msg("70000\ntoken"), "invalid port in port file");
    assert_eq!(msg("8080"), "missing IPC token");
    assert_eq!(msg("8080\n   \n"), "empty IPC token");
    let ok = IpcEndpoint::parse("  8080 \n  tok  \nignored").unwrap();
    assert_eq!(ok.port, 8080);
    assert_eq!(ok.token, "tok");
}

#[test]
fn unknown_cmd_code_is_deterministic() {
    let code1 = IpcServer::unknown_cmd_code("foobar");
    let code2 = IpcServer::unknown_cmd_code("foobar");
    assert_eq!(code1, code2);
    assert!(code1 >= 100);
}

#[test]
fn unknown_cmd_code_value() {
    // 'f' 'o' 'o' 'b' 'a' 'r' = 102+111+111+98+97+114 = 633
    assert_eq!(IpcServer::unknown_cmd_code("foobar"), 133);
    assert_eq!(IpcServer::unknown_cmd_code(""), 100);
}

#[test]
fn commands_route_by_name() {
    assert_eq!(IpcServer::route("list"), IpcCommand::List);
    assert_eq!(IpcServer::route("snippet_insert"), IpcCommand::SnippetInsert);
    assert_eq!(IpcServer::route("status"), IpcCommand::Status);
    assert_eq!(IpcServer::route("LIST"), IpcCommand::Unknown(IpcServer::unknown_cmd_code("LIST")));
}

#[test]
fn requests_without_the_session_token_are_refused() {
    let refused = IpcServer::accept_request(&None, "secret", "status");
    assert!(matches!(refused, Err(IpcError::IpcDisabled)));
    let wrong = IpcServer::accept_request(&Some("guess".to_string()), "secret", "status");
    assert!(matches!(wrong, Err(IpcError::IpcDisabled)));
    let ok = IpcServer::accept_request(&Some("secret".to_string()), "secret", "status");
    assert!(matches!(ok, Ok(IpcCommand::Status)));
}

#[test]
fn blank_request_lines_are_ignored() {
    assert_eq!(IpcServer::request_text("  \r\n"), None);
    assert_eq!(IpcServer::request_text(" {\"cmd\":\"list\"}\n"), Some("{\"cmd\":\"list\"}".to_string()));
}

#[test]
fn error_response_carries_code_and_message() {
    let resp = IpcResponse::err(&IpcError::NotFound);
    assert!(!resp.ok);
    assert!(resp.data.is_none());
    let body = resp.error.unwrap();
    assert_eq!(body.code, 5);
    assert_eq!(body.message, "entry not found");
    let ok = IpcResponse::ok(serde_json::Value::Bool(true));
    assert!(ok.ok);
    assert_eq!(ok.data, Some(serde_json::Value::Bool(true)));
    assert!(ok.error.is_none());
}

#[test]
fn port_file_text_layout() {
    assert_eq!(port_file_text(12345, "abcdef"), "12345\nabcdef\n");
    assert_eq!(port_file_text(0, "t"), "0\nt\n");
}

#[test]
fn a_new_session_reads_back() {
    let (token, text) = IpcServer::open_session(40123);
    assert_eq!(token.len(), 32);
    assert!(token.chars().all(|c| c.is_ascii_digit() || ('a'..='f').contains(&c)));
    let endpoint = IpcEndpoint::parse(&text).unwrap();
    assert_eq!(endpoint.port, 40123);
    assert_eq!(endpoint.token, token);
    let (other, _) = IpcServer::open_session(40123);
    assert_ne!(token, other);
}

#[test]
fn a_missing_port_file_means_no_server() {
    let err = IpcEndpoint::from_port_file(None).unwrap_err();
    assert!(matches!(err, IpcError::ConnectionRefused));
    assert_eq!(err.exit_code(), 2);
    let e = IpcEndpoint::from_port_file(Some("9\nt\n")).unwrap();
    assert_eq!((e.port, e.token.as_str()), (9, "t"));
    assert!(matches!(IpcEndpoint::from_port_file(Some("")), Err(IpcError::InvalidJson(_))));
}
