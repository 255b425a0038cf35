//! Verified core of a local focus blocker: the native-messaging frame
//! format, the Snap bridge header, hosts-file block management, process
//! identification and the access and browser-identity rules of the daemon.

pub mod daemon_error;
pub mod host_error;
pub mod native_messaging;
pub mod platform;
pub mod text;
pub mod snap_bridge;
pub mod strings;
pub mod process_scan;
pub mod desktop_id;
pub mod extension_identity;
pub mod ordering;
pub mod policy;
pub mod hosts;
pub mod json;
pub mod protocol;
pub mod access;
pub mod chrome_policy;
pub mod firefox_policy;
pub mod policy_recovery;
pub mod bindings;
pub mod incognito;
pub mod options;
pub mod ids;
pub mod event_log;
pub mod strict_mode;
pub mod service;
pub mod daemon_client;
pub mod extension_status;
pub mod notifications;
pub mod credentials;
pub mod rule_edits;
pub mod status_reports;
pub mod deadlines;
pub mod rpc_messages;
pub mod policy_import;
pub mod detox;
pub mod schedule_targets;
pub mod kill_plan;
pub mod rpc_methods;
pub mod lifecycle;
pub mod allowance_warnings;
pub mod rule_upserts;
pub mod clock_integrity;
