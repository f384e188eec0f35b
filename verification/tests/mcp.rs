//! The framing of the MCP server.

use rmcp::model::{ClientRequest, JsonRpcMessage, NumberOrString, ProtocolVersion};
use zhtw_mcp::mcp::revisions::{
    is_handshake_free, negotiable_protocol_versions, revisions, supported_protocol_versions,
};
use zhtw_mcp::mcp::transport::{
    delivered, drain_in_flight, encode, gate, passed, passed_reply, receive, reply, send,
    unmodelled, written, ClientMessage, DrainStep, Gate, InitFailure, Lifecycle, LineReader, LogMessage,
    LoggingLevel, Modelled, Outgoing, ReadLine, Step, DRAIN_TIMEOUT_MS, MAX_DRAIN_BYTES,
    MAX_LINE_BYTES,
};
use zhtw_mcp::mcp::transport_async::{after_dispatch, dispatch_async, drain_mcp_logs, turn, Route, Turn};
use zhtw_mcp::mcp::types::{
    parse_jsonrpc_line, JsonRpcRequest, JsonRpcResponse, RequestId, TransportError,
    INVALID_REQUEST, PARSE_ERROR, SERVER_NOT_INITIALIZED,
};

fn lifecycle() -> Lifecycle {
    Lifecycle::default()
}

fn initialized() -> Lifecycle {
    let mut lc = lifecycle();
    lc.mark_initialized();
    lc
}

fn req(method: &str, id: Option<i64>) -> JsonRpcRequest {
    JsonRpcRequest {
        jsonrpc: "2.0".into(),
        id: id.map(RequestId::Int),
        method: method.into(),
        params: "{}".into(),
    }
}

fn line(text: &str) -> ReadLine {
    ReadLine::Line(text.into())
}

fn id_of(id: &Option<RequestId>) -> Option<i64> {
    match id {
        Some(RequestId::Int(n)) => Some(*n),
        _ => None,
    }
}

// Deciding the fate of an envelope.

#[test]
fn pre_init_request_is_rejected_not_fatal() {
    let mut lc = lifecycle();
    let Gate::Reply(response) = gate(&mut lc, &req("tools/list", Some(1))) else {
        panic!("a pre-init request must be answered, not dropped");
    };
    assert_eq!(response.error.unwrap().code, SERVER_NOT_INITIALIZED);
}

#[test]
fn pre_init_notification_is_dropped() {
    let mut lc = lifecycle();
    assert!(matches!(
        gate(&mut lc, &req("notifications/initialized", None)),
        Gate::Drop
    ));
}

#[test]
fn pre_init_ping_is_answered() {
    let mut lc = lifecycle();
    let Gate::Reply(response) = gate(&mut lc, &req("ping", Some(1))) else {
        panic!("pre-init ping must be answered");
    };
    assert!(response.result.is_some());
}

#[test]
fn successful_initialize_opens_the_gate() {
    let mut lc = lifecycle();
    assert!(matches!(
        gate(&mut lc, &req("initialize", Some(1))),
        Gate::Forward
    ));
    lc.mark_initialized();
    assert!(matches!(
        gate(&mut lc, &req("tools/list", Some(2))),
        Gate::Forward
    ));
}

#[test]
fn notification_with_id_is_rejected() {
    let mut lc = initialized();
    let Gate::Reply(response) = gate(&mut lc, &req("notifications/cancelled", Some(3))) else {
        panic!("an id-bearing notification must be answered");
    };
    assert_eq!(response.error.unwrap().code, INVALID_REQUEST);
}

#[test]
fn after_shutdown_everything_but_exit_is_rejected() {
    let mut lc = initialized();
    lc.mark_shutdown();
    assert!(matches!(gate(&mut lc, &req("exit", None)), Gate::Forward));
    let Gate::Reply(response) = gate(&mut lc, &req("tools/list", Some(4))) else {
        panic!("a post-shutdown request must be answered");
    };
    assert_eq!(response.error.unwrap().code, INVALID_REQUEST);
}

#[test]
fn successful_discover_opens_the_gate() {
    let mut lc = lifecycle();
    assert!(matches!(
        gate(&mut lc, &req("server/discover", Some(1))),
        Gate::Forward
    ));
    lc.mark_initialized();
    assert!(matches!(
        gate(&mut lc, &req("tools/list", Some(2))),
        Gate::Forward
    ));
}

#[test]
fn pre_init_exit_terminates_rather_than_forwarding() {
    let mut lc = lifecycle();
    assert!(matches!(gate(&mut lc, &req("exit", None)), Gate::Exit));
    assert_eq!(lc.exit_code(), 1);
    lc.mark_shutdown();
    assert!(matches!(gate(&mut lc, &req("exit", None)), Gate::Exit));
    assert_eq!(lc.exit_code(), 0);
}

#[test]
fn pre_init_shutdown_is_answered_not_forwarded() {
    let mut lc = lifecycle();
    let Gate::Reply(response) = gate(&mut lc, &req("shutdown", Some(1))) else {
        panic!("a pre-init shutdown must be answered here");
    };
    assert!(response.result.is_some());
    assert_eq!(lc.exit_code(), 0);
}

#[test]
fn shutdown_as_a_notification_sets_the_flag_without_replying() {
    let mut lc = initialized();
    assert!(matches!(gate(&mut lc, &req("shutdown", None)), Gate::Drop));
    assert_eq!(lc.exit_code(), 0);
}

#[test]
fn exit_code_is_one_without_shutdown() {
    assert_eq!(lifecycle().exit_code(), 1);
}

#[test]
fn shutdown_closes_the_gate_before_its_handler_runs() {
    let mut lc = initialized();
    assert!(matches!(
        gate(&mut lc, &req("shutdown", Some(1))),
        Gate::Reply(_)
    ));
    let Gate::Reply(response) = gate(&mut lc, &req("tools/call", Some(2))) else {
        panic!("a pipelined request after shutdown must be answered here");
    };
    assert_eq!(response.error.unwrap().code, INVALID_REQUEST);
}

#[test]
fn the_logging_capability_is_read_off_the_envelope() {
    let mut lc = lifecycle();
    let mut request = req("initialize", Some(1));
    request.params = "{\"capabilities\":{}}".into();
    assert!(matches!(gate(&mut lc, &request), Gate::Forward));
    assert!(!lc.logs_enabled());
    request.params = "{\"capabilities\":{\"logging\":{}}}".into();
    assert!(matches!(gate(&mut lc, &request), Gate::Forward));
    assert!(lc.logs_enabled());
    // Only initialize asks for it.
    let mut lc = initialized();
    request.method = "tools/call".into();
    gate(&mut lc, &request);
    assert!(!lc.logs_enabled());
}

#[test]
fn gate_messages_are_exact() {
    let mut lc = lifecycle();
    let Gate::Reply(r) = gate(&mut lc, &req("tools/list", Some(1))) else {
        panic!("answered");
    };
    assert_eq!(id_of(&r.id), Some(1));
    assert_eq!(r.error.unwrap().message, "server not initialized");
    let Gate::Reply(r) = gate(&mut lc, &req("notifications/x", Some(2))) else {
        panic!("answered");
    };
    assert_eq!(
        r.error.unwrap().message,
        "notifications/x must be sent as a notification (no id)"
    );
    let Gate::Reply(r) = gate(&mut lc, &req("shutdown", Some(3))) else {
        panic!("answered");
    };
    assert_eq!(r.result.as_deref(), Some("{}"));
    let Gate::Reply(r) = gate(&mut lc, &req("initialize", Some(4))) else {
        panic!("answered");
    };
    assert_eq!(r.error.unwrap().message, "server is shutting down");
    // A notification before the handshake, or after shutdown, gets silence.
    assert!(matches!(gate(&mut lc, &req("tools/list", None)), Gate::Drop));
    assert!(matches!(gate(&mut lifecycle(), &req("tools/list", None)), Gate::Drop));
}

// Requests in flight.

#[test]
fn end_of_input_waits_for_an_accepted_request() {
    let mut lc = lifecycle();
    lc.accept_request(RequestId::Int(1));
    let mut deadline = None;
    assert!(matches!(
        drain_in_flight(&lc, 0, &mut deadline),
        DrainStep::Wait(5)
    ));
    assert!(matches!(
        drain_in_flight(&lc, DRAIN_TIMEOUT_MS / 2, &mut deadline),
        DrainStep::Wait(5)
    ));
    lc.retire_request(&RequestId::Int(1));
    assert!(matches!(drain_in_flight(&lc, 0, &mut None), DrainStep::Done));
}

#[test]
fn end_of_input_gives_up_on_a_request_that_never_finishes() {
    let mut lc = lifecycle();
    lc.accept_request(RequestId::Int(1));
    let mut deadline = None;
    drain_in_flight(&lc, 1000, &mut deadline);
    assert_eq!(deadline, Some(1000 + DRAIN_TIMEOUT_MS));
    // Looking again does not move the deadline.
    drain_in_flight(&lc, 20_000, &mut deadline);
    assert_eq!(deadline, Some(1000 + DRAIN_TIMEOUT_MS));
    assert!(matches!(
        drain_in_flight(&lc, 1000 + DRAIN_TIMEOUT_MS, &mut deadline),
        DrainStep::GiveUp(1)
    ));
}

#[test]
fn a_request_is_counted_once_and_settled_once() {
    let mut lc = lifecycle();
    delivered(&mut lc, Modelled::Request(RequestId::Int(1)));
    delivered(&mut lc, Modelled::Request(RequestId::Int(1)));
    delivered(&mut lc, Modelled::Request(RequestId::Str("1".into())));
    assert_eq!(lc.outstanding(), 2);
    delivered(&mut lc, Modelled::Cancelled(Some(RequestId::Int(1))));
    assert_eq!(lc.outstanding(), 1);
    delivered(&mut lc, Modelled::Cancelled(None));
    delivered(&mut lc, Modelled::Other);
    assert_eq!(lc.outstanding(), 1);
    written(&mut lc, &Some(RequestId::Int(1)));
    assert_eq!(lc.outstanding(), 1);

    let answers = send(&mut lc, Outgoing::Response(RequestId::Str("1".into())), true);
    assert!(matches!(&answers, Some(RequestId::Str(s)) if s == "1"));
    assert_eq!(lc.outstanding(), 1, "settled only once it was written");
    written(&mut lc, &answers);
    assert_eq!(lc.outstanding(), 0);
}

#[test]
fn a_message_that_cannot_be_encoded_settles_its_request() {
    let mut lc = lifecycle();
    lc.accept_request(RequestId::Int(7));
    assert!(send(&mut lc, Outgoing::Other, false).is_none());
    assert!(send(&mut lc, Outgoing::Error(None), false).is_none());
    assert_eq!(lc.outstanding(), 1);
    assert!(send(&mut lc, Outgoing::Error(Some(RequestId::Int(7))), false).is_none());
    assert_eq!(lc.outstanding(), 0);
}

// Log messages.

fn log(level: LoggingLevel, params: &str) -> LogMessage {
    LogMessage {
        level,
        params: params.into(),
    }
}

#[test]
fn logs_below_the_level_are_dropped() {
    let mut lc = lifecycle();
    let some = || vec![log(LoggingLevel::Debug, "1"), log(LoggingLevel::Error, "2")];
    assert!(lc.drain_logs(some()).is_empty(), "nobody asked for logs");
    assert!(lc.enable_logs());
    assert!(!lc.enable_logs());
    assert_eq!(lc.drain_logs(some()).len(), 2);
    lc.set_log_level(LoggingLevel::Warning);
    assert!(lc.queue_logs(false, some()).is_empty());
    assert_eq!(
        lc.queue_logs(true, some()),
        ["{\"jsonrpc\":\"2.0\",\"method\":\"notifications/message\",\"params\":2}\n"]
    );
    let levels = [
        LoggingLevel::Debug,
        LoggingLevel::Info,
        LoggingLevel::Notice,
        LoggingLevel::Warning,
        LoggingLevel::Error,
        LoggingLevel::Critical,
        LoggingLevel::Alert,
        LoggingLevel::Emergency,
    ];
    for (rank, level) in levels.into_iter().enumerate() {
        assert_eq!(Lifecycle::log_rank(level) as usize, rank);
    }
}

#[test]
fn what_was_logged_goes_out_before_the_reply() {
    let mut lc = lifecycle();
    lc.enable_logs();
    let frames = reply(&lc, vec![log(LoggingLevel::Info, "{}")], "answer\n".into());
    assert_eq!(
        frames,
        [
            "{\"jsonrpc\":\"2.0\",\"method\":\"notifications/message\",\"params\":{}}\n",
            "answer\n"
        ]
    );
    assert_eq!(encode(b"{}".to_vec()), b"{}\n");
}

// Lines.

fn read_all(reader: &mut LineReader, mut input: &[u8]) -> Vec<ReadLine> {
    let mut out = Vec::new();
    while !input.is_empty() {
        let (used, outcome) = reader.feed(input);
        input = &input[used..];
        out.extend(outcome);
    }
    out
}

#[test]
fn oversize_line_is_drained_and_the_next_line_parses() {
    let big = "x".repeat(MAX_LINE_BYTES + 10);
    let input = format!("{big}\n{{\"jsonrpc\":\"2.0\"}}\n");
    let mut reader = LineReader::new();
    let lines = read_all(&mut reader, input.as_bytes());
    assert_eq!(lines.len(), 2);
    assert!(matches!(lines[0], ReadLine::TooLong));
    assert!(matches!(&lines[1], ReadLine::Line(l) if l == "{\"jsonrpc\":\"2.0\"}"));
}

#[test]
fn a_final_frame_without_its_newline_is_still_answered() {
    let mut reader = LineReader::new();
    let (used, outcome) = reader.feed(b"{\"jsonrpc\":\"2.0\"}");
    assert_eq!(used, 17);
    assert!(outcome.is_none());
    assert!(matches!(reader.end(), ReadLine::Line(l) if l == "{\"jsonrpc\":\"2.0\"}"));
    assert!(matches!(reader.end(), ReadLine::Eof));
}

#[test]
fn a_line_at_exactly_the_limit_is_not_too_long() {
    let mut reader = LineReader::new();
    let body = "x".repeat(MAX_LINE_BYTES);
    let (_, outcome) = reader.feed(body.as_bytes());
    assert!(outcome.is_none());
    let (_, outcome) = reader.feed(b"\n");
    let Some(ReadLine::Line(line)) = outcome else {
        panic!("a line of exactly MAX_LINE_BYTES fits");
    };
    assert_eq!(line.len(), MAX_LINE_BYTES);

    // One more byte does not.
    let mut reader = LineReader::new();
    let (_, outcome) = reader.feed(format!("{body}x\n").as_bytes());
    assert!(matches!(outcome, Some(ReadLine::TooLong)));
}

#[test]
fn a_cancelled_read_of_an_oversize_line_is_still_too_long() {
    let mut reader = LineReader::resume(vec![b'x'; MAX_LINE_BYTES + 1]);
    let lines = read_all(
        &mut reader,
        b"tail-of-the-oversize-line\n{\"jsonrpc\":\"2.0\"}\n",
    );
    assert!(matches!(lines[0], ReadLine::TooLong));
    assert!(matches!(&lines[1], ReadLine::Line(l) if l == "{\"jsonrpc\":\"2.0\"}"));
}

#[test]
fn a_cancelled_read_resumes_instead_of_losing_the_line() {
    let mut reader = LineReader::new();
    let (_, outcome) = reader.feed(b"{\"jsonrpc\":");
    assert!(outcome.is_none());
    assert!(reader.mid_line());
    let (_, outcome) = reader.feed(b"\"2.0\"}\n");
    assert!(matches!(outcome, Some(ReadLine::Line(l)) if l == "{\"jsonrpc\":\"2.0\"}"));
    assert!(!reader.mid_line(), "a consumed line leaves nothing behind");
}

#[test]
fn malformed_utf8_is_reported_not_dropped() {
    let mut reader = LineReader::new();
    let (_, outcome) = reader.feed(b"\xff\xfe\n");
    assert!(matches!(outcome, Some(ReadLine::MalformedUtf8)));
}

#[test]
fn empty_input_is_eof() {
    assert!(matches!(LineReader::new().end(), ReadLine::Eof));
}

#[test]
fn a_line_without_end_is_given_up_on() {
    let mut reader = LineReader::new();
    let chunk = vec![b'x'; MAX_LINE_BYTES + 1];
    let (_, outcome) = reader.feed(&chunk);
    assert!(outcome.is_none());
    let chunk = vec![b'x'; MAX_DRAIN_BYTES];
    let (_, outcome) = reader.feed(&chunk);
    assert!(outcome.is_none(), "the whole drain is used");
    let (_, outcome) = reader.feed(b"x");
    assert!(matches!(outcome, Some(ReadLine::Unrecoverable)));

    let mut reader = LineReader::patient();
    reader.feed(&vec![b'x'; MAX_LINE_BYTES + 1]);
    reader.feed(&chunk);
    let (_, outcome) = reader.feed(b"xx\n");
    assert!(matches!(outcome, Some(ReadLine::TooLong)));
    reader.feed(&vec![b'x'; MAX_LINE_BYTES + 1]);
    assert!(matches!(reader.end(), ReadLine::TooLong));
}

#[test]
fn lines_are_trimmed_the_way_the_standard_library_trims() {
    let mut reader = LineReader::new();
    for body in ["\u{3000} 甲 乙\t\r", "\u{85}\u{a0}x\u{2028}", "   ", "\u{feff}x"] {
        let (_, outcome) = reader.feed(format!("{body}\n").as_bytes());
        let Some(ReadLine::Line(line)) = outcome else {
            panic!("a line");
        };
        assert_eq!(line, body.trim());
    }
}

// Receiving.

#[test]
fn receiving_follows_the_read() {
    let mut lc = initialized();
    assert!(matches!(receive(&mut lc, ReadLine::Eof), Step::DrainAndClose));
    assert!(matches!(receive(&mut lc, line("")), Step::Again));
    let Step::Reply(r) = receive(&mut lc, ReadLine::TooLong) else {
        panic!("answered");
    };
    assert!(r.id.is_none());
    let e = r.error.unwrap();
    assert_eq!((e.code, e.message.as_str()), (INVALID_REQUEST, "request too large"));
    let Step::ReplyAndClose(r) = receive(&mut lc, ReadLine::Unrecoverable) else {
        panic!("answered, and the session ends");
    };
    assert_eq!(r.error.unwrap().message, "request too large");
    let Step::Reply(r) = receive(&mut lc, ReadLine::MalformedUtf8) else {
        panic!("answered");
    };
    let e = r.error.unwrap();
    assert_eq!((e.code, e.message.as_str()), (PARSE_ERROR, "invalid UTF-8 in request"));
    let Step::Pass(request, text) = receive(
        &mut lc,
        line("{\"jsonrpc\":\"2.0\",\"id\":\"a\",\"method\":\"tools/list\",\"params\":{\"k\": [1]}}"),
    ) else {
        panic!("handed on");
    };
    assert_eq!(request.method, "tools/list");
    assert_eq!(request.params, "{\"k\":[1]}");
    assert!(matches!(request.id, Some(RequestId::Str(s)) if s == "a"));
    assert!(text.starts_with("{\"jsonrpc\""));
    assert!(matches!(
        receive(&mut lifecycle(), line("{\"jsonrpc\":\"2.0\",\"method\":\"exit\"}")),
        Step::Terminate
    ));
}

#[test]
fn an_envelope_nobody_can_model_is_reported() {
    let r = unmodelled(req("tools/list", Some(5)), "bad params".into()).unwrap();
    assert_eq!(id_of(&r.id), Some(5));
    let e = r.error.unwrap();
    assert_eq!((e.code, e.message.as_str()), (INVALID_REQUEST, "bad params"));
    assert!(unmodelled(req("tools/list", None), "bad params".into()).is_none());
}

/// Receives a line and hands it to the protocol layer.
fn hand_over(
    lc: &mut Lifecycle,
    text: &str,
) -> Result<ClientMessage, Option<JsonRpcResponse>> {
    let Step::Pass(request, passed_line) = receive(lc, line(text)) else {
        panic!("expected {text} to pass");
    };
    passed(lc, *request, &passed_line)
}

#[test]
fn a_request_that_passes_is_owed_an_answer_under_its_own_id() {
    let mut lc = initialized();
    let message = hand_over(&mut lc, r#"{"jsonrpc":"2.0","id":41,"method":"tools/list"}"#).unwrap();
    let JsonRpcMessage::Request(request) = message else {
        panic!("expected a request");
    };
    assert_eq!(request.id, NumberOrString::Number(41));
    assert!(matches!(request.request, ClientRequest::ListToolsRequest(_)));
    assert_eq!(lc.outstanding(), 1);
    hand_over(&mut lc, r#"{"jsonrpc":"2.0","id":"41","method":"tools/list"}"#).unwrap();
    assert_eq!(lc.outstanding(), 2);

    // A cancellation settles the request that it names, and no other.
    for (id, left) in [("7", 2), ("41", 1), ("\"41\"", 0)] {
        let cancel = format!(
            r#"{{"jsonrpc":"2.0","method":"notifications/cancelled","params":{{"requestId":{id}}}}}"#
        );
        assert!(matches!(
            hand_over(&mut lc, &cancel),
            Ok(JsonRpcMessage::Notification(_))
        ));
        assert_eq!(lc.outstanding(), left);
    }
    assert!(hand_over(&mut lc, r#"{"jsonrpc":"2.0","method":"notifications/initialized"}"#).is_ok());
    assert_eq!(lc.outstanding(), 0);
}

#[test]
fn a_line_the_protocol_layer_cannot_read_is_answered_with_its_complaint() {
    let mut lc = initialized();
    let both = r#"{"jsonrpc":"2.0","id":9,"method":"tools/list","result":{}}"#;
    let response = hand_over(&mut lc, both).unwrap_err().expect("an answer");
    assert_eq!(id_of(&response.id), Some(9));
    let error = response.error.unwrap();
    assert_eq!(error.code, INVALID_REQUEST);
    assert_eq!(error.message, "unrecognized JSON-RPC message");
    assert_eq!(lc.outstanding(), 0);
    let silent = r#"{"jsonrpc":"2.0","method":"tools/list","result":{}}"#;
    assert!(hand_over(&mut lc, silent).unwrap_err().is_none());
}

#[test]
fn a_reply_reaches_the_protocol_layer_where_it_can_be_read() {
    let answer = r#"{"jsonrpc":"2.0","id":3,"result":{}}"#;
    let Step::PassReply(reply_line) = receive(&mut initialized(), line(answer)) else {
        panic!("expected the reply to pass");
    };
    assert!(matches!(
        passed_reply(&reply_line),
        Some(JsonRpcMessage::Response(r)) if r.id == NumberOrString::Number(3)
    ));
    assert!(passed_reply(r#"{"jsonrpc":"2.0","result":{}}"#).is_none());
}

fn rejected(text: &str) -> (Option<i64>, i32) {
    let mut lc = initialized();
    let Step::Reply(r) = receive(&mut lc, line(text)) else {
        panic!("expected an answer to {text}");
    };
    (id_of(&r.id), r.error.unwrap().code)
}

#[test]
fn e2e_missing_jsonrpc_field() {
    assert_eq!(
        rejected("{\"method\":\"tools/list\",\"id\":100}"),
        (Some(100), -32600)
    );
}

#[test]
fn e2e_wrong_jsonrpc_version() {
    assert_eq!(
        rejected("{\"jsonrpc\":\"1.0\",\"method\":\"tools/list\",\"id\":101}"),
        (Some(101), -32600)
    );
}

#[test]
fn e2e_id_as_array_rejected() {
    assert_eq!(
        rejected(r#"{"jsonrpc":"2.0","method":"tools/list","id":[1,2],"params":{}}"#).1,
        -32600
    );
}

#[test]
fn e2e_id_as_object_rejected() {
    assert_eq!(
        rejected(r#"{"jsonrpc":"2.0","method":"tools/list","id":{"a":1},"params":{}}"#).1,
        -32600
    );
}

#[test]
fn e2e_params_as_array_handled() {
    let step = receive(
        &mut initialized(),
        line(r#"{"jsonrpc":"2.0","method":"tools/list","id":102,"params":[1,2,3]}"#),
    );
    assert!(matches!(step, Step::Pass(r, _) if id_of(&r.id) == Some(102)));
}

#[test]
fn e2e_not_json_returns_parse_error() {
    assert_eq!(rejected("this is not json at all"), (None, -32700));
}

#[test]
fn e2e_mcp_logging_parse_error_is_not_stale() {
    match parse_jsonrpc_line("{not-json") {
        Err(TransportError::Parse(message)) => assert!(message.contains("JSON parse")),
        _ => panic!("malformed JSON is a parse error"),
    }
}

#[test]
fn e2e_response_shaped_with_id_discarded() {
    // No answer: the reply goes to whoever asked.
    let mut lc = initialized();
    let step = receive(&mut lc, line(r#"{"jsonrpc":"2.0","id":999,"result":"stale"}"#));
    assert!(matches!(step, Step::PassReply(_)));
    let step = receive(
        &mut lc,
        line(r#"{"jsonrpc":"2.0","method":"tools/list","id":105,"params":{}}"#),
    );
    assert!(matches!(step, Step::Pass(r, _) if id_of(&r.id) == Some(105)));
}

#[test]
fn e2e_response_shaped_without_id_discarded() {
    let mut lc = initialized();
    let step = receive(&mut lc, line(r#"{"jsonrpc":"2.0","result":"stale"}"#));
    assert!(matches!(step, Step::PassReply(_)));
    assert!(matches!(
        parse_jsonrpc_line(r#"{"jsonrpc":"2.0","id":1,"error":{"code":1}}"#),
        Err(TransportError::PeerResponse)
    ));
}

#[test]
fn e2e_request_with_id_without_method_rejected() {
    assert_eq!(rejected(r#"{"jsonrpc":"2.0","id":999}"#), (Some(999), -32600));
}

#[test]
fn e2e_notification_with_id_no_response() {
    assert_eq!(
        rejected(r#"{"jsonrpc":"2.0","method":"notifications/initialized","id":200}"#),
        (Some(200), -32600)
    );
}

#[test]
fn e2e_notifications_cancelled_with_id_rejected() {
    assert_eq!(
        rejected(r#"{"jsonrpc":"2.0","method":"notifications/cancelled","id":300}"#),
        (Some(300), -32600)
    );
}

#[test]
fn e2e_stray_response_before_initialize_does_not_end_the_session() {
    let mut lc = lifecycle();
    let step = receive(&mut lc, line(r#"{"jsonrpc":"2.0","id":99,"result":{}}"#));
    assert!(matches!(step, Step::Again));
    let step = receive(
        &mut lc,
        line(r#"{"jsonrpc":"2.0","id":1,"method":"initialize","params":{"protocolVersion":"2025-06-18","capabilities":{},"clientInfo":{"name":"test","version":"0.1"}}}"#),
    );
    assert!(matches!(step, Step::Pass(_, _)));
}

#[test]
fn e2e_a_first_message_call_from_a_handshake_revision_is_refused() {
    let mut lc = lifecycle();
    let Step::Reply(r) = receive(
        &mut lc,
        line(r#"{"jsonrpc":"2.0","id":1,"method":"tools/call","params":{"_meta":{"io.modelcontextprotocol/protocolVersion":"2025-06-18"},"name":"zhtw","arguments":{"text":"這個軟件的質量"}}}"#),
    ) else {
        panic!("answered");
    };
    assert_eq!(r.error.unwrap().code, -32002);
    assert!(!is_handshake_free("2025-06-18"));
}

#[test]
fn e2e_refused_handshake_does_not_open_the_gate() {
    let mut lc = lifecycle();
    let step = receive(
        &mut lc,
        line(r#"{"jsonrpc":"2.0","id":1,"method":"initialize","params":{"protocolVersion":"1900-01-01"}}"#),
    );
    assert!(matches!(step, Step::Pass(_, _)));
    assert!(!lc.is_initialized());
    assert!(matches!(
        receive(&mut lc, line(r#"{"jsonrpc":"2.0","id":2,"method":"tools/list"}"#)),
        Step::Reply(_)
    ));
    // And the refusal is no failure of the server's.
    assert!(!InitFailure::InitializeFailed.is_failure());
    assert!(!InitFailure::ConnectionClosed.is_failure());
    assert!(!InitFailure::ExpectedInitialize.is_failure());
    assert!(InitFailure::Other.is_failure());
}

#[test]
fn e2e_every_termination_path_reports_the_code_it_promises() {
    let shutdown = r#"{"jsonrpc":"2.0","id":99,"method":"shutdown","params":{}}"#;
    let exit = r#"{"jsonrpc":"2.0","method":"exit"}"#;
    for handshake_first in [false, true] {
        for (script, code, expects_ack) in [(vec![exit], 1, false), (vec![shutdown, exit], 0, true)] {
            let mut lc = if handshake_first { initialized() } else { lifecycle() };
            let mut acknowledged = false;
            for text in script {
                match receive(&mut lc, line(text)) {
                    Step::Reply(r) => {
                        assert_eq!(id_of(&r.id), Some(99));
                        assert_eq!(r.result.as_deref(), Some("{}"));
                        acknowledged = true;
                    }
                    Step::Terminate => assert!(!handshake_first),
                    Step::Pass(r, _) => assert!(handshake_first && r.method == "exit"),
                    other => panic!("unexpected {other:?}"),
                }
            }
            assert_eq!(lc.exit_code(), code);
            assert_eq!(acknowledged, expects_ack);
        }
    }
}

// The asynchronous loop.

#[test]
fn the_asynchronous_loop_answers_in_its_own_words() {
    assert!(matches!(turn(ReadLine::Eof, false), Turn::Stop));
    assert!(matches!(turn(line(""), true), Turn::Again));
    let Turn::Answer { logs_first, response } = turn(ReadLine::MalformedUtf8, true) else {
        panic!("answered");
    };
    assert!(logs_first);
    let e = response.error.unwrap();
    assert_eq!(
        (e.code, e.message.as_str()),
        (PARSE_ERROR, "request contains malformed UTF-8 character(s)")
    );
    let Turn::Answer { logs_first, response } = turn(ReadLine::TooLong, false) else {
        panic!("answered");
    };
    assert!(!logs_first);
    assert_eq!(response.error.unwrap().message, "request too large");
    assert!(matches!(
        turn(line(r#"{"jsonrpc":"2.0","result":1}"#), true),
        Turn::Again
    ));
    assert!(matches!(turn(line("nope"), true), Turn::Answer { .. }));
    assert!(matches!(
        turn(line(r#"{"jsonrpc":"2.0","method":"ping","id":1}"#), true),
        Turn::Dispatch(r) if r.method == "ping"
    ));
}

#[test]
fn the_asynchronous_loop_routes_and_logs() {
    assert_eq!(dispatch_async(true, &req("tools/call", Some(1))), Route::Preinit);
    assert_eq!(dispatch_async(false, &req("tools/call", Some(1))), Route::ToolsCall);
    assert_eq!(dispatch_async(false, &req("tools/list", Some(1))), Route::Method);
    let mut logging = false;
    assert!(!after_dispatch(false, &mut logging));
    assert!(after_dispatch(true, &mut logging));
    assert!(!after_dispatch(true, &mut logging));
    assert!(!after_dispatch(false, &mut logging));
    assert!(logging);
    assert_eq!(
        drain_mcp_logs(&vec![log(LoggingLevel::Debug, "[]")]),
        ["{\"jsonrpc\":\"2.0\",\"method\":\"notifications/message\",\"params\":[]}\n"]
    );
}

// Revisions.

#[test]
fn a_revision_without_a_handshake_is_never_offered_by_one() {
    let negotiable = negotiable_protocol_versions();
    let newest = ProtocolVersion::V_2026_07_28.as_str().to_string();
    assert!(supported_protocol_versions().contains(&newest));
    assert!(!negotiable.contains(&newest));
    for revision in revisions().iter().filter(|r| !r.handshake) {
        assert!(
            !negotiable.contains(&revision.version),
            "{} has no handshake but is offered as one to negotiate",
            revision.version
        );
    }
    assert!(!negotiable.is_empty());
}

#[test]
fn every_served_revision_is_advertised() {
    let supported = supported_protocol_versions();
    assert_eq!(supported.len(), revisions().len());
    for revision in revisions() {
        assert!(supported.contains(&revision.version));
    }
}

#[test]
fn the_revisions_are_those_of_the_sdk() {
    assert_eq!(
        supported_protocol_versions(),
        [
            ProtocolVersion::V_2026_07_28.as_str(),
            ProtocolVersion::V_2025_11_25.as_str(),
            ProtocolVersion::V_2025_06_18.as_str(),
            ProtocolVersion::V_2025_03_26.as_str(),
            ProtocolVersion::V_2024_11_05.as_str(),
        ]
    );
    assert_eq!(
        negotiable_protocol_versions(),
        ["2025-11-25", "2025-06-18", "2025-03-26", "2024-11-05"]
    );
    assert!(is_handshake_free("2026-07-28"));
    for other in ["2025-11-25", "2024-11-05", "2027-05-01", ""] {
        assert!(!is_handshake_free(other));
    }
}
