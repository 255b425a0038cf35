use std::cell::RefCell;

use blockuntu::daemon_client::{
    revival_due, should_attempt_revival, DaemonClient, DaemonRevivalConfig, SendAction, SendState,
};
use blockuntu::host_error::{IoErrorKind, NativeHostError};
use blockuntu::native_messaging::{
    announced_length, read_native_message, write_native_message, write_native_message_in_order,
    MAX_MESSAGE_BYTES,
};
use blockuntu::protocol::{
    bridge_response, classify_browser_payload, fallback_response_for_payload,
    prepare_browser_response, prepare_daemon_request, process_browser_payload, request_metadata,
    run_bridge, BrowserMessageKind, DaemonTransport,
};
use serde_json::Value;

fn parse(bytes: &[u8]) -> Value {
    serde_json::from_slice(bytes).expect("JSON should parse")
}

fn to_bytes(text: &str) -> Vec<u8> {
    text.as_bytes().to_vec()
}

#[test]
fn reads_native_message_with_native_length_prefix() {
    let payload = br#"{"url":"https://example.com"}"#;
    let mut framed = Vec::new();
    framed.extend_from_slice(&(payload.len() as u32).to_ne_bytes());
    framed.extend_from_slice(payload);

    let parsed = read_native_message(&framed)
        .expect("message should parse")
        .expect("message should exist");
    assert_eq!(parsed, payload);
}

#[test]
fn writes_native_message_with_native_length_prefix() {
    let payload = br#"{"action":"allow"}"#;
    let mut output = Vec::new();

    write_native_message(&mut output, payload).expect("message should write");

    assert_eq!(&output[..4], &(payload.len() as u32).to_ne_bytes());
    assert_eq!(&output[4..], payload);
}

#[test]
fn reading_reports_empty_partial_and_oversized_input() {
    assert_eq!(read_native_message(&[]), Ok(None));
    assert_eq!(
        read_native_message(&[1, 0]),
        Err(NativeHostError::Io(IoErrorKind::UnexpectedEof))
    );
    let too_large = ((MAX_MESSAGE_BYTES + 1) as u32).to_ne_bytes();
    assert_eq!(
        read_native_message(&too_large),
        Err(NativeHostError::MessageTooLarge {
            length: MAX_MESSAGE_BYTES + 1,
            limit: MAX_MESSAGE_BYTES
        })
    );
    let mut truncated = 5u32.to_ne_bytes().to_vec();
    truncated.extend_from_slice(b"abc");
    assert_eq!(
        read_native_message(&truncated),
        Err(NativeHostError::Io(IoErrorKind::UnexpectedEof))
    );
}

#[test]
fn frames_in_a_fixed_byte_order_read_back() {
    let mut output = Vec::new();
    write_native_message_in_order(&mut output, b"hello", true).expect("frame should write");
    assert_eq!(output, vec![5, 0, 0, 0, b'h', b'e', b'l', b'l', b'o']);
    let mut big_endian = Vec::new();
    write_native_message_in_order(&mut big_endian, b"hi", false).expect("frame should write");
    assert_eq!(big_endian, vec![0, 0, 0, 2, b'h', b'i']);
}

#[test]
fn translates_legacy_url_to_evaluate_url_jsonrpc() {
    let prepared = prepare_daemon_request(br#"{"url":"https://blocked.example/"}"#);
    assert_eq!(prepared.browser_kind, BrowserMessageKind::LegacyUrl);

    let rpc = parse(&prepared.daemon_payload);
    assert_eq!(rpc["method"], "evaluate_url");
    assert_eq!(rpc["params"]["url"], "https://blocked.example/");
}

#[test]
fn translates_block_result_back_to_legacy_action() {
    let daemon_response = to_bytes(
        r#"{"jsonrpc":"2.0","id":null,"result":{"decision":"block","reason":{"kind":"hard_block","rule_id":"hard"}}}"#,
    );

    let response = prepare_browser_response(&BrowserMessageKind::LegacyUrl, &daemon_response);
    let response = parse(&response);

    assert_eq!(response["action"], "block");
    assert_eq!(response["reason"]["kind"], "hard_block");
}

#[test]
fn preserves_jsonrpc_passthrough() {
    let request = br#"{"jsonrpc":"2.0","id":1,"method":"status","params":{}}"#;
    let prepared = prepare_daemon_request(request);
    assert_eq!(prepared.browser_kind, BrowserMessageKind::JsonRpc);
    assert_eq!(prepared.daemon_payload, request);

    let response = br#"{"jsonrpc":"2.0","id":1,"result":{"status":"ok"}}"#;
    let bridged = parse(&prepare_browser_response(&BrowserMessageKind::JsonRpc, response));
    let expected = parse(response);
    assert_eq!(bridged, expected);
}

#[test]
fn preserves_heartbeat_shape_for_backend_failures() {
    let response =
        fallback_response_for_payload(br#"{"type":"extension_heartbeat"}"#, "backend unavailable");
    let response = parse(&response);
    assert_eq!(response["type"], "extension_heartbeat");
    assert_eq!(response["status"], "error");
}

#[test]
fn heartbeat_becomes_an_extension_heartbeat_request() {
    let prepared = prepare_daemon_request(
        br#"{"type":"extension_heartbeat","extensionId":"ext@example","extensionVersion":"1.2"}"#,
    );
    assert_eq!(prepared.browser_kind, BrowserMessageKind::LegacyHeartbeat);
    let rpc = parse(&prepared.daemon_payload);
    assert_eq!(rpc["jsonrpc"], "2.0");
    assert_eq!(rpc["id"], Value::Null);
    assert_eq!(rpc["method"], "extension_heartbeat");
    assert_eq!(rpc["params"]["extension_id"], "ext@example");
    assert_eq!(rpc["params"]["extension_version"], "1.2");

    let without_version = prepare_daemon_request(br#"{"type":"extension_heartbeat"}"#);
    let rpc = parse(&without_version.daemon_payload);
    assert_eq!(rpc["params"]["extension_id"], Value::Null);
    assert_eq!(rpc["params"]["extension_version"], Value::Null);
}

#[test]
fn classifies_each_message_kind() {
    assert_eq!(classify_browser_payload(b"not json"), BrowserMessageKind::JsonRpc);
    assert_eq!(
        classify_browser_payload(br#"{"method":"status"}"#),
        BrowserMessageKind::JsonRpc
    );
    assert_eq!(
        classify_browser_payload(br#"{"type":"extension_heartbeat"}"#),
        BrowserMessageKind::LegacyHeartbeat
    );
    assert_eq!(
        classify_browser_payload(br#"{"url":"https://a.example/"}"#),
        BrowserMessageKind::LegacyUrl
    );
    assert_eq!(
        classify_browser_payload(br#"{"other":1}"#),
        BrowserMessageKind::Unknown
    );
}

#[test]
fn a_url_that_is_not_a_string_goes_through_unchanged() {
    let payload = br#"{"url":5}"#;
    assert_eq!(classify_browser_payload(payload), BrowserMessageKind::LegacyUrl);
    let prepared = prepare_daemon_request(payload);
    assert_eq!(prepared.browser_kind, BrowserMessageKind::Unknown);
    assert_eq!(prepared.daemon_payload, payload);
}

#[test]
fn invalid_json_passes_through_as_jsonrpc() {
    let prepared = prepare_daemon_request(b"{broken");
    assert_eq!(prepared.browser_kind, BrowserMessageKind::JsonRpc);
    assert_eq!(prepared.daemon_payload, b"{broken");
}

#[test]
fn each_fallback_has_the_shape_of_its_kind() {
    let rpc = parse(&fallback_response_for_payload(br#"{"method":"status"}"#, "down"));
    assert_eq!(rpc["jsonrpc"], "2.0");
    assert_eq!(rpc["id"], Value::Null);
    assert_eq!(rpc["error"]["code"], -32000);
    assert_eq!(rpc["error"]["message"], "native host error");
    assert_eq!(rpc["error"]["data"], "down");

    let url = parse(&fallback_response_for_payload(br#"{"url":"https://a.example/"}"#, "down"));
    assert_eq!(url["action"], "allow");
    assert_eq!(url["error"], "down");

    let unknown = parse(&fallback_response_for_payload(br#"{"x":1}"#, "down"));
    assert_eq!(unknown["action"], "allow");
    assert_eq!(unknown["error"], "down");
}

#[test]
fn legacy_answers_follow_the_daemon_response() {
    let invalid = parse(&prepare_browser_response(&BrowserMessageKind::LegacyUrl, b"nope"));
    assert_eq!(invalid["action"], "allow");
    assert_eq!(invalid["error"], "daemon returned invalid JSON");

    let error = parse(&prepare_browser_response(
        &BrowserMessageKind::LegacyUrl,
        br#"{"error":{"code":1}}"#,
    ));
    assert_eq!(error["action"], "allow");
    assert_eq!(error["error"]["code"], 1);

    let missing = parse(&prepare_browser_response(&BrowserMessageKind::LegacyUrl, br#"{}"#));
    assert_eq!(missing["error"], "daemon response missing result");

    let allowed = parse(&prepare_browser_response(
        &BrowserMessageKind::LegacyUrl,
        br#"{"result":{"decision":"allow"}}"#,
    ));
    assert_eq!(allowed, serde_json::from_str::<Value>(r#"{"action":"allow"}"#).unwrap());

    let ok = parse(&prepare_browser_response(
        &BrowserMessageKind::LegacyHeartbeat,
        br#"{"result":{}}"#,
    ));
    assert_eq!(ok["type"], "extension_heartbeat");
    assert_eq!(ok["status"], "ok");

    let failed = parse(&prepare_browser_response(
        &BrowserMessageKind::LegacyHeartbeat,
        br#"{"error":"x"}"#,
    ));
    assert_eq!(failed["status"], "error");
    assert_eq!(failed["error"], "x");
}

#[test]
fn extracts_rpc_metadata_without_logging_params() {
    let (method, id) = request_metadata(
        br#"{"jsonrpc":"2.0","id":17,"method":"evaluate_url","params":{"url":"https://private.example/"}}"#,
    );
    assert_eq!(method, "evaluate_url");
    assert_eq!(id, "17");
}

#[test]
fn metadata_of_legacy_and_invalid_messages() {
    assert_eq!(
        request_metadata(b"oops"),
        ("invalid_json".to_string(), "null".to_string())
    );
    assert_eq!(
        request_metadata(br#"{"url":"https://a.example/"}"#),
        ("legacy_evaluate_url".to_string(), "null".to_string())
    );
    assert_eq!(
        request_metadata(br#"{"type":"extension_heartbeat","id":"a"}"#),
        ("extension_heartbeat".to_string(), "\"a\"".to_string())
    );
    assert_eq!(
        request_metadata(br#"{"x":1}"#),
        ("unknown".to_string(), "null".to_string())
    );
}

#[test]
fn connection_failures_are_revival_candidates() {
    assert!(should_attempt_revival(&NativeHostError::Io(IoErrorKind::NotFound)));
    assert!(should_attempt_revival(&NativeHostError::Io(
        IoErrorKind::ConnectionRefused
    )));
    assert!(!should_attempt_revival(&NativeHostError::Io(IoErrorKind::TimedOut)));
}

#[test]
fn revival_launches_are_spaced_by_the_minimum_interval() {
    assert!(revival_due(None, 10, 5000));
    assert!(!revival_due(Some(1000), 3000, 5000));
    assert!(revival_due(Some(1000), 6000, 5000));
    assert!(!revival_due(Some(9000), 3000, 1));
}

#[test]
fn an_unreachable_daemon_is_revived_and_retried_until_the_deadline() {
    let client = DaemonClient::new("/run/missing.sock".to_string(), 20).with_revival(
        DaemonRevivalConfig::new("/usr/bin/revive".to_string(), 1500, 100, 5000),
    );
    let missing = NativeHostError::Io(IoErrorKind::NotFound);
    let (state, action) = client.next_send_step(SendState::First, Err(missing.clone()), 1000, None);
    assert!(matches!(action, SendAction::Revive { launch: true }));
    let deadline = match &state {
        SendState::Retrying { deadline_ms, .. } => *deadline_ms,
        SendState::First => panic!("a revival should be under way"),
    };
    assert_eq!(deadline, 2500);

    let (state, action) = client.next_send_step(
        state,
        Err(NativeHostError::Io(IoErrorKind::ConnectionRefused)),
        2000,
        Some(1000),
    );
    assert!(matches!(action, SendAction::Retry));

    let (_, action) = client.next_send_step(
        state,
        Err(NativeHostError::Io(IoErrorKind::ConnectionRefused)),
        2600,
        Some(1000),
    );
    match action {
        SendAction::Finish(Err(e)) => assert_eq!(e, missing),
        other => panic!("the first error should be returned, got {other:?}"),
    }

    let plain = DaemonClient::new("/run/missing.sock".to_string(), 20);
    let (_, action) = plain.next_send_step(SendState::First, Err(missing.clone()), 0, None);
    assert!(matches!(action, SendAction::Finish(Err(_))));
    let (_, action) = plain.next_send_step(SendState::First, Ok(b"{}".to_vec()), 0, None);
    match action {
        SendAction::Finish(Ok(v)) => assert_eq!(v, b"{}".to_vec()),
        other => panic!("the response should be returned, got {other:?}"),
    }
}

struct FakeDaemon {
    requests: RefCell<Vec<Value>>,
    response: Vec<u8>,
}

impl DaemonTransport for FakeDaemon {
    fn send(&self, payload: &[u8]) -> Result<Vec<u8>, NativeHostError> {
        let value = serde_json::from_slice(payload)
            .map_err(|err| NativeHostError::Json(err.to_string()))?;
        self.requests.borrow_mut().push(value);
        Ok(self.response.clone())
    }
}

struct DownDaemon;

impl DaemonTransport for DownDaemon {
    fn send(&self, _payload: &[u8]) -> Result<Vec<u8>, NativeHostError> {
        Err(NativeHostError::Io(IoErrorKind::ConnectionRefused))
    }
}

#[test]
fn bridges_legacy_native_message_to_daemon_jsonrpc_and_back() {
    let daemon = FakeDaemon {
        requests: RefCell::new(Vec::new()),
        response: to_bytes(
            r#"{"jsonrpc":"2.0","id":null,"result":{"decision":"block","reason":{"kind":"hard_block","rule_id":"hard"}}}"#,
        ),
    };

    let mut input = Vec::new();
    write_native_message(&mut input, br#"{"url":"https://blocked.example/","tabId":1}"#)
        .expect("input should frame");
    let mut output = Vec::new();

    run_bridge(&input, &mut output, &daemon).expect("bridge should run");

    let requests = daemon.requests.borrow();
    assert_eq!(requests.len(), 1);
    assert_eq!(requests[0]["method"], "evaluate_url");
    assert_eq!(requests[0]["params"]["url"], "https://blocked.example/");

    let response = read_native_message(&output)
        .expect("response should parse")
        .expect("response should exist");
    let response = parse(&response);

    assert_eq!(response["action"], "block");
    assert_eq!(response["reason"]["kind"], "hard_block");
}

#[test]
fn an_unavailable_daemon_gets_the_fallback_answer() {
    let answer = bridge_response(&DownDaemon, br#"{"type":"extension_heartbeat"}"#);
    let answer = parse(&answer);
    assert_eq!(answer["status"], "error");
    assert_eq!(answer["error"], "backend unavailable");
    assert_eq!(
        process_browser_payload(&DownDaemon, br#"{"method":"status"}"#),
        Err(NativeHostError::Io(IoErrorKind::ConnectionRefused))
    );
}

#[test]
fn the_bridge_answers_every_frame_and_stops_on_a_cut_frame() {
    let daemon = FakeDaemon {
        requests: RefCell::new(Vec::new()),
        response: to_bytes(r#"{"jsonrpc":"2.0","id":1,"result":{}}"#),
    };
    let mut input = Vec::new();
    write_native_message(&mut input, br#"{"method":"a"}"#).unwrap();
    write_native_message(&mut input, br#"{"method":"b"}"#).unwrap();
    let mut output = Vec::new();
    run_bridge(&input, &mut output, &daemon).expect("bridge should run");
    assert_eq!(daemon.requests.borrow().len(), 2);
    let first = read_native_message(&output).unwrap().unwrap();
    let rest = &output[4 + first.len()..];
    let second = read_native_message(rest).unwrap().unwrap();
    assert_eq!(parse(&first)["id"], 1);
    assert_eq!(parse(&second)["id"], 1);

    let mut cut = Vec::new();
    write_native_message(&mut cut, br#"{"method":"a"}"#).unwrap();
    cut.extend_from_slice(&[9, 0]);
    let mut output = Vec::new();
    assert_eq!(
        run_bridge(&cut, &mut output, &daemon),
        Err(NativeHostError::Io(IoErrorKind::UnexpectedEof))
    );
}

#[test]
fn rpc_diagnostics_extract_method_and_id_without_params() {
    let (method, id) = request_metadata(
        br#"{"jsonrpc":"2.0","id":23,"method":"evaluate_url","params":{"url":"https://private.example/"}}"#,
    );
    assert_eq!(method, "evaluate_url");
    assert_eq!(id, "23");
}

#[test]
fn native_frames_use_the_machine_byte_order_both_ways() {
    let payload = br#"{"action":"allow"}"#;
    let mut framed = Vec::new();
    write_native_message(&mut framed, payload).expect("frame fits");
    assert_eq!(&framed[..4], &(18u32).to_ne_bytes());
    assert_eq!(&framed[4..], payload);
    assert_eq!(read_native_message(&framed), Ok(Some(payload.to_vec())));
    let mut input = (29u32).to_ne_bytes().to_vec();
    input.extend_from_slice(br#"{"url":"https://example.com"}"#);
    assert_eq!(read_native_message(&input), Ok(Some(br#"{"url":"https://example.com"}"#.to_vec())));
    assert_eq!(announced_length(&(29u32).to_ne_bytes()), Ok(Some(29)));
    assert_eq!(
        announced_length(&(2_000_000u32).to_ne_bytes()),
        Err(NativeHostError::MessageTooLarge { length: 2_000_000, limit: 1_048_576 })
    );
}
