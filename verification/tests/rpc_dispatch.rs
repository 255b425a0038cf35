use blockuntu::daemon_error::DaemonError;
use blockuntu::host_error::IoErrorKind;
use blockuntu::policy_recovery::{load_startup_policy, StartupPolicySource};
use blockuntu::rpc_messages::{
    daemon_error_message, parse_rpc_request, rpc_missing_method_response, rpc_parse_error_response,
    rpc_response, RpcRequest,
};
use blockuntu::rpc_methods::{rpc_method, rpc_methods, RpcMethod};
use serde_json::Value;

fn parse(bytes: &[u8]) -> Value {
    serde_json::from_slice(bytes).expect("response should parse")
}

#[test]
fn enforcement_start_and_stop_methods_are_not_available() {
    for method in ["start_enforcement", "stop_enforcement"] {
        let error = rpc_method(method).unwrap_err();
        assert_eq!(error, DaemonError::UnsupportedMethod(method.to_string()));
        let response = parse(&rpc_response(Some(b"711"), Err(error)));
        assert_eq!(response["error"]["code"], -32601);
        assert_eq!(response["error"]["message"], "method not found");
        assert_eq!(response["error"]["data"], method);
        assert_eq!(response["id"], 711);
    }
}

#[test]
fn every_method_name_routes_to_its_method() {
    let methods = rpc_methods();
    assert_eq!(methods.len(), 43);
    for method in methods {
        assert_eq!(rpc_method(method.name()), Ok(method));
    }
    assert_eq!(rpc_method("start_detox"), Ok(RpcMethod::StartDetox));
    assert_eq!(rpc_method("extension_status"), Ok(RpcMethod::ExtensionStatus));
    assert!(rpc_method("Start_Detox").is_err());
    assert!(rpc_method("").is_err());
}

#[test]
fn rpc_responses_carry_results_and_map_errors_to_codes() {
    let ok = parse(&rpc_response(Some(b"\"abc\""), Ok(br#"{"status":"ok"}"#.to_vec())));
    assert_eq!(ok["jsonrpc"], "2.0");
    assert_eq!(ok["id"], "abc");
    assert_eq!(ok["result"]["status"], "ok");
    assert!(ok.get("error").is_none());

    let invalid = parse(&rpc_response(
        None,
        Err(DaemonError::InvalidRequest("detox duration must be at least one minute".to_string())),
    ));
    assert_eq!(invalid["id"], Value::Null);
    assert_eq!(invalid["error"]["code"], -32602);
    assert_eq!(invalid["error"]["message"], "invalid params");
    assert_eq!(invalid["error"]["data"], "detox duration must be at least one minute");

    let internal = parse(&rpc_response(Some(b"9"), Err(DaemonError::LockPoisoned)));
    assert_eq!(internal["error"]["code"], -32603);
    assert_eq!(internal["error"]["message"], "internal error");
    assert_eq!(internal["error"]["data"], "daemon state lock was poisoned");
}

#[test]
fn daemon_errors_read_as_their_messages() {
    assert_eq!(
        daemon_error_message(&DaemonError::InvalidRequest("bad".to_string())),
        "invalid request: bad"
    );
    assert_eq!(
        daemon_error_message(&DaemonError::UnsupportedMethod("nope".to_string())),
        "unsupported method: nope"
    );
    assert_eq!(
        daemon_error_message(&DaemonError::InvalidSocketActivation { fds: 2 }),
        "systemd passed 2 socket file descriptors; expected exactly one"
    );
    assert_eq!(
        daemon_error_message(&DaemonError::KillFailed { pid: 42, errno: -3 }),
        "process 42 could not be killed: errno -3"
    );
    assert_eq!(
        daemon_error_message(&DaemonError::SocketActivationUnavailable("/run/focusd.sock".to_string())),
        "socket activation is unavailable and development bind was not enabled for /run/focusd.sock"
    );
    assert_eq!(
        daemon_error_message(&DaemonError::Io {
            kind: IoErrorKind::NotFound,
            message: "No such file or directory (os error 2)".to_string(),
        }),
        "No such file or directory (os error 2)"
    );
}

#[test]
fn raw_requests_are_sorted_into_parse_errors_legacy_messages_and_calls() {
    match parse_rpc_request(b"{not json") {
        RpcRequest::Unparsable(message) => {
            let response = parse(&rpc_parse_error_response(&message));
            assert_eq!(response["error"]["code"], -32700);
            assert_eq!(response["error"]["message"], "parse error");
            assert_eq!(response["id"], Value::Null);
            assert!(response["error"]["data"].as_str().is_some());
        }
        other => panic!("unexpected {other:?}"),
    }
    assert_eq!(parse_rpc_request(br#"{"url":"https://example.com"}"#), RpcRequest::Legacy);
    assert_eq!(parse_rpc_request(br#"{"type":"extension_heartbeat"}"#), RpcRequest::Legacy);
    assert_eq!(
        parse_rpc_request(br#"{"jsonrpc":"2.0","id":7,"method":"status","params":{"now":null}}"#),
        RpcRequest::Call {
            id: Some(b"7".to_vec()),
            method: Some("status".to_string()),
            params: Some(br#"{"now":null}"#.to_vec()),
        }
    );
    assert_eq!(
        parse_rpc_request(br#"{"method":"status","url":"x"}"#),
        RpcRequest::Call { id: None, method: Some("status".to_string()), params: None }
    );
    match parse_rpc_request(br#"{"jsonrpc":"2.0","id":3}"#) {
        RpcRequest::Call { id, method: None, .. } => {
            let response = parse(&rpc_missing_method_response(id.as_deref()));
            assert_eq!(response["error"]["code"], -32600);
            assert_eq!(response["error"]["message"], "missing method");
            assert_eq!(response["id"], 3);
        }
        other => panic!("unexpected {other:?}"),
    }
}

#[test]
fn startup_policy_comes_from_the_database_then_the_snapshot_and_fails_closed() {
    let path = "/var/lib/blockuntu/policy-recovery.toml";
    assert_eq!(load_startup_policy(true, true, true, path), Ok(StartupPolicySource::Database));
    assert_eq!(load_startup_policy(false, true, true, path), Ok(StartupPolicySource::RecoverySnapshot));
    assert_eq!(
        load_startup_policy(false, false, true, path),
        Err(DaemonError::MissingPolicyRecovery { recovery_path: path.to_string() })
    );
    assert_eq!(load_startup_policy(false, false, false, path), Ok(StartupPolicySource::ConfigFile));
}
