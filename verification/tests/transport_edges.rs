use blockuntu::daemon_client::{accept_daemon_response, check_daemon_response_size};
use blockuntu::host_error::{IoErrorKind, NativeHostError};
use blockuntu::native_messaging::{announced_length, MAX_MESSAGE_BYTES};
use blockuntu::policy_recovery::temporary_path;
use blockuntu::process_scan::process_info_from_procfs;
use blockuntu::snap_bridge::{snap_bridge_request, snap_native_bridge_payload};

#[test]
fn a_header_announces_the_payload_length_in_native_order() {
    assert_eq!(announced_length(&[]), Ok(None));
    assert_eq!(announced_length(&[1, 0]), Err(NativeHostError::Io(IoErrorKind::UnexpectedEof)));
    assert_eq!(announced_length(&7u32.to_ne_bytes()), Ok(Some(7)));
    let too_large = (MAX_MESSAGE_BYTES as u32 + 1).to_ne_bytes();
    assert_eq!(
        announced_length(&too_large),
        Err(NativeHostError::MessageTooLarge { length: MAX_MESSAGE_BYTES + 1, limit: MAX_MESSAGE_BYTES })
    );
}

#[test]
fn daemon_replies_must_be_non_empty_json_within_the_limit() {
    assert_eq!(
        accept_daemon_response("/run/blockuntu/blockuntud.sock", Vec::new()),
        Err(NativeHostError::EmptyDaemonResponse { socket: "/run/blockuntu/blockuntud.sock".to_string() })
    );
    assert!(matches!(
        accept_daemon_response("s", b"{oops".to_vec()),
        Err(NativeHostError::InvalidDaemonResponse(_))
    ));
    assert_eq!(accept_daemon_response("s", b"{\"ok\":1}".to_vec()), Ok(b"{\"ok\":1}".to_vec()));
    assert_eq!(check_daemon_response_size(MAX_MESSAGE_BYTES - 10, 10), Ok(()));
    assert_eq!(
        check_daemon_response_size(MAX_MESSAGE_BYTES - 10, 11),
        Err(NativeHostError::DaemonResponseTooLarge { limit: MAX_MESSAGE_BYTES })
    );
}

#[test]
fn the_snap_bridge_accepts_what_the_native_host_frames() {
    let payload = br#"{"jsonrpc":"2.0","id":1,"method":"status"}"#;
    let request = snap_bridge_request("secret-token", payload);
    assert!(request.starts_with(b"BLOCKUNTU-SNAP-BRIDGE secret-token\n"));
    assert_eq!(snap_native_bridge_payload(&request, "secret-token"), Ok(payload.to_vec()));
    assert!(snap_native_bridge_payload(&request, "other-token").is_err());
}

#[test]
fn new_files_are_written_beside_the_old_one_first() {
    assert_eq!(temporary_path("/etc/hosts", "hosts", 4242), "/etc/.hosts.blockuntu.4242.tmp");
    assert_eq!(
        temporary_path("/etc/opt/chrome/policies/managed/blockuntu.json", "blockuntu-chrome-policy", 7),
        "/etc/opt/chrome/policies/managed/.blockuntu.json.blockuntu.7.tmp"
    );
    assert_eq!(temporary_path("/", "hosts", 1), "/.hosts.blockuntu.1.tmp");
}

#[test]
fn procfs_entries_become_processes() {
    let process = process_info_from_procfs(
        "1234",
        Some("/usr/lib/firefox/firefox".to_string()),
        Some("firefox\n".to_string()),
        Some(b"HOME=/home/a\0GIO_LAUNCHED_DESKTOP_FILE=/usr/share/applications/firefox.desktop\0".to_vec()),
        None,
    )
    .expect("a numeric entry is a process");
    assert_eq!(process.pid, 1234);
    assert_eq!(process.executable_basename.as_deref(), Some("firefox"));
    assert_eq!(process.command_name.as_deref(), Some("firefox"));
    assert_eq!(process.desktop_id.as_deref(), Some("firefox.desktop"));
    assert!(process.window_titles.is_empty());
    assert!(process_info_from_procfs("self", None, None, None, None).is_none());
    let quiet = process_info_from_procfs("+7", None, Some("  \n".to_string()), None, None)
        .expect("a signed pid parses as u32 does");
    assert_eq!(quiet.pid, 7);
    assert_eq!(quiet.command_name, None);
}
