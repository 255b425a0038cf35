use vstd::prelude::*;

use crate::daemon_error::DaemonError;
use crate::json::{
    json_member, json_member_str, json_object_text, json_parse_error, member_json, member_str,
    member_views, object_json, parse_error_text, JsonPiece, PieceView,
};
use crate::process_scan::{opt_bytes, opt_text};
use crate::strings::{concat3, owned};
use crate::text::{decimal, signed_decimal, i64_to_decimal, u64_to_decimal};

verus! {

/// Why a Tier 3 target is blocked.
#[derive(Debug, Clone, Copy, PartialEq, Eq, Structural)]
pub enum ControlledBlockReason {
    /// No allowance is configured, so only an unlock lets it through.
    NoAllowance,
    /// The daily allowance is used up.
    AllowanceExhausted,
    /// An unlock is required.
    UnlockRequired,
}

/// What a Detox session blocks.
#[derive(Debug, Clone, Copy, PartialEq, Eq, Structural)]
pub enum DetoxTargetKind {
    SiteRule,
    AppRule,
}

/// The name under which a controlled-block reason is reported.
pub fn controlled_reason_to_str(reason: ControlledBlockReason) -> (r: &'static str)
    ensures
        r@ == match reason {
            ControlledBlockReason::NoAllowance => "no_allowance"@,
            ControlledBlockReason::AllowanceExhausted => "allowance_exhausted"@,
            ControlledBlockReason::UnlockRequired => "unlock_required"@,
        },
{
    match reason {
        ControlledBlockReason::NoAllowance => "no_allowance",
        ControlledBlockReason::AllowanceExhausted => "allowance_exhausted",
        ControlledBlockReason::UnlockRequired => "unlock_required",
    }
}

/// The one-line summary of a controlled-block reason.
pub fn controlled_reason_summary(reason: ControlledBlockReason) -> (r: &'static str)
    ensures
        r@ == match reason {
            ControlledBlockReason::NoAllowance => "This Tier 3 target needs an explicit unlock."@,
            ControlledBlockReason::AllowanceExhausted => "This Tier 3 target used up its daily allowance."@,
            ControlledBlockReason::UnlockRequired => "This Tier 3 target requires an unlock."@,
        },
{
    match reason {
        ControlledBlockReason::NoAllowance => "This Tier 3 target needs an explicit unlock.",
        ControlledBlockReason::AllowanceExhausted => "This Tier 3 target used up its daily allowance.",
        ControlledBlockReason::UnlockRequired => "This Tier 3 target requires an unlock.",
    }
}

/// The explanation of a controlled-block reason.
pub fn controlled_reason_detail(reason: ControlledBlockReason) -> (r: &'static str)
    ensures
        r@ == match reason {
            ControlledBlockReason::NoAllowance =>
                "No allowance is configured for this list, so access is blocked unless an unlock is active."@,
            ControlledBlockReason::AllowanceExhausted =>
                "The configured allowance has already been consumed for the current accounting day."@,
            ControlledBlockReason::UnlockRequired =>
                "Use the BlocKuntu GUI to request a temporary unlock if policy allows it."@,
        },
{
    match reason {
        ControlledBlockReason::NoAllowance =>
            "No allowance is configured for this list, so access is blocked unless an unlock is active.",
        ControlledBlockReason::AllowanceExhausted =>
            "The configured allowance has already been consumed for the current accounting day.",
        ControlledBlockReason::UnlockRequired =>
            "Use the BlocKuntu GUI to request a temporary unlock if policy allows it.",
    }
}

/// The name under which a Detox target kind is reported.
pub fn detox_target_kind_to_str(kind: DetoxTargetKind) -> (r: &'static str)
    ensures
        r@ == match kind {
            DetoxTargetKind::SiteRule => "site_rule"@,
            DetoxTargetKind::AppRule => "app_rule"@,
        },
{
    match kind {
        DetoxTargetKind::SiteRule => "site_rule",
        DetoxTargetKind::AppRule => "app_rule",
    }
}

/// The members of a JSON-RPC error response: the protocol version, the
/// request's id (`null` when it has none) and the error's code, message and
/// data (`null` when there is none).
pub open spec fn jsonrpc_error_members(
    id: Option<Seq<u8>>,
    code: i64,
    message: Seq<char>,
    data: Option<Seq<char>>,
) -> Seq<(Seq<char>, PieceView)> {
    seq![
        ("jsonrpc"@, PieceView::Text("2.0"@)),
        ("id"@, match id {
            Some(b) => PieceView::Raw(b),
            None => PieceView::Null,
        }),
        ("error"@, PieceView::Raw(json_object_text(seq![
            ("code"@, PieceView::Integer(code as int)),
            ("message"@, PieceView::Text(message)),
            ("data"@, match data {
                Some(d) => PieceView::Text(d),
                None => PieceView::Null,
            }),
        ]))),
    ]
}

/// A JSON-RPC error response for the request with id `id` (its JSON text).
pub fn jsonrpc_error(id: Option<&[u8]>, code: i64, message: &str, data: Option<String>) -> (r: Vec<u8>)
    ensures
        r@ == json_object_text(
            jsonrpc_error_members(
                match id {
                    Some(b) => Some(b@),
                    None => None,
                },
                code,
                message@,
                match data {
                    Some(d) => Some(d@),
                    None => None,
                },
            ),
        ),
{
    let ghost data_view = match &data {
        Some(d) => Some(d@),
        None => None,
    };
    let data_piece = match data {
        Some(d) => JsonPiece::Text(d),
        None => JsonPiece::Null,
    };
    let mut error: Vec<(String, JsonPiece)> = Vec::new();
    error.push((owned("code"), JsonPiece::Integer(code)));
    error.push((owned("message"), JsonPiece::Text(owned(message))));
    error.push((owned("data"), data_piece));
    assert(member_views(error@) =~= seq![
        ("code"@, PieceView::Integer(code as int)),
        ("message"@, PieceView::Text(message@)),
        ("data"@, match data_view {
            Some(d) => PieceView::Text(d),
            None => PieceView::Null,
        }),
    ]);
    let error_bytes = object_json(&error);
    let id_piece = match id {
        Some(b) => {
            let copy = crate::snap_bridge::byte_range(b, 0, b.len());
            assert(copy@ =~= b@);
            JsonPiece::Raw(copy)
        },
        None => JsonPiece::Null,
    };
    assert(id_piece@ == match id {
        Some(b) => PieceView::Raw(b@),
        None => PieceView::Null,
    });
    let mut members: Vec<(String, JsonPiece)> = Vec::new();
    members.push((owned("jsonrpc"), JsonPiece::Text(owned("2.0"))));
    members.push((owned("id"), id_piece));
    members.push((owned("error"), JsonPiece::Raw(error_bytes)));
    assert(member_views(members@) =~= jsonrpc_error_members(
        match id {
            Some(b) => Some(b@),
            None => None,
        },
        code,
        message@,
        data_view,
    ));
    object_json(&members)
}

/// How a daemon error reads: the message of the error it wraps for
/// input/output, JSON, core and configuration errors, and its own sentence
/// otherwise.
pub open spec fn daemon_error_text(e: DaemonError) -> Seq<char> {
    match e {
        DaemonError::Io { message, .. } => message@,
        DaemonError::Json(m) => m@,
        DaemonError::Core(m) => m@,
        DaemonError::Config(m) => m@,
        DaemonError::LockPoisoned => "daemon state lock was poisoned"@,
        DaemonError::InvalidRequest(m) => "invalid request: "@ + m@,
        DaemonError::UnsupportedMethod(m) => "unsupported method: "@ + m@,
        DaemonError::InvalidSocketActivation { fds } => "systemd passed "@ + decimal(fds as nat)
            + " socket file descriptors; expected exactly one"@,
        DaemonError::SocketActivationUnavailable(path) =>
            "socket activation is unavailable and development bind was not enabled for "@ + path@,
        DaemonError::KillFailed { pid, errno } => "process "@ + decimal(pid as nat)
            + " could not be killed: errno "@ + signed_decimal(errno as int),
        DaemonError::MissingPolicyRecovery { recovery_path } => "policy recovery snapshot "@
            + recovery_path@ + " is missing for an existing database"@,
    }
}

/// How a daemon error reads.
pub fn daemon_error_message(e: &DaemonError) -> (r: String)
    ensures
        r@ == daemon_error_text(*e),
{
    proof {
        reveal_strlit("");
    }
    match e {
        DaemonError::Io { message, .. } => message.clone(),
        DaemonError::Json(m) => m.clone(),
        DaemonError::Core(m) => m.clone(),
        DaemonError::Config(m) => m.clone(),
        DaemonError::LockPoisoned => owned("daemon state lock was poisoned"),
        DaemonError::InvalidRequest(m) => concat3("invalid request: ", m.as_str(), ""),
        DaemonError::UnsupportedMethod(m) => concat3("unsupported method: ", m.as_str(), ""),
        DaemonError::InvalidSocketActivation { fds } => concat3(
            "systemd passed ",
            u64_to_decimal(*fds as u64).as_str(),
            " socket file descriptors; expected exactly one",
        ),
        DaemonError::SocketActivationUnavailable(path) => concat3(
            "socket activation is unavailable and development bind was not enabled for ",
            path.as_str(),
            "",
        ),
        DaemonError::KillFailed { pid, errno } => {
            let head = concat3("process ", u64_to_decimal(*pid as u64).as_str(), " could not be killed: errno ");
            concat3(head.as_str(), i64_to_decimal(*errno as i64).as_str(), "")
        },
        DaemonError::MissingPolicyRecovery { recovery_path } => concat3(
            "policy recovery snapshot ",
            recovery_path.as_str(),
            " is missing for an existing database",
        ),
    }
}

/// The error code, message and data with which a failed method is
/// answered: an unknown method is "method not found" with its name, a
/// refused request is "invalid params" with its reason, and anything else
/// is an "internal error" with how the error reads.
pub open spec fn rpc_error_parts(e: DaemonError) -> (i64, Seq<char>, Seq<char>) {
    match e {
        DaemonError::UnsupportedMethod(m) => (-32601i64, "method not found"@, m@),
        DaemonError::InvalidRequest(m) => (-32602i64, "invalid params"@, m@),
        _ => (-32603i64, "internal error"@, daemon_error_text(e)),
    }
}

/// The members of a JSON-RPC result response.
pub open spec fn jsonrpc_result_members(id: Option<Seq<u8>>, result: Seq<u8>) -> Seq<(Seq<char>, PieceView)> {
    seq![
        ("jsonrpc"@, PieceView::Text("2.0"@)),
        ("id"@, match id {
            Some(b) => PieceView::Raw(b),
            None => PieceView::Null,
        }),
        ("result"@, PieceView::Raw(result)),
    ]
}

/// The JSON-RPC response to a request with id `id` (its JSON text) whose
/// method gave `outcome`: the result (its JSON text), or the error.
pub fn rpc_response(id: Option<&[u8]>, outcome: Result<Vec<u8>, DaemonError>) -> (r: Vec<u8>)
    ensures
        r@ == match outcome {
            Ok(result) => json_object_text(
                jsonrpc_result_members(
                    match id {
                        Some(b) => Some(b@),
                        None => None,
                    },
                    result@,
                ),
            ),
            Err(e) => json_object_text(
                jsonrpc_error_members(
                    match id {
                        Some(b) => Some(b@),
                        None => None,
                    },
                    rpc_error_parts(e).0,
                    rpc_error_parts(e).1,
                    Some(rpc_error_parts(e).2),
                ),
            ),
        },
{
    match outcome {
        Ok(result) => {
            let id_piece = match id {
                Some(b) => {
                    let copy = crate::snap_bridge::byte_range(b, 0, b.len());
                    assert(copy@ =~= b@);
                    JsonPiece::Raw(copy)
                },
                None => JsonPiece::Null,
            };
            let ghost id_view = id_piece@;
            let ghost result_view = result@;
            let mut members: Vec<(String, JsonPiece)> = Vec::new();
            members.push((owned("jsonrpc"), JsonPiece::Text(owned("2.0"))));
            members.push((owned("id"), id_piece));
            members.push((owned("result"), JsonPiece::Raw(result)));
            assert(member_views(members@) =~= jsonrpc_result_members(
                match id {
                    Some(b) => Some(b@),
                    None => None,
                },
                result_view,
            ));
            object_json(&members)
        },
        Err(DaemonError::UnsupportedMethod(m)) => jsonrpc_error(id, -32601, "method not found", Some(m)),
        Err(DaemonError::InvalidRequest(m)) => jsonrpc_error(id, -32602, "invalid params", Some(m)),
        Err(e) => {
            let text = daemon_error_message(&e);
            jsonrpc_error(id, -32603, "internal error", Some(text))
        },
    }
}

/// What the daemon makes of the raw bytes of a request: bytes that are not
/// JSON; a message of the browser extensions' older protocol; or a JSON-RPC
/// call, with its id, its method and its parameters (each as serde_json
/// writes it), where present. A call whose members lack the request's shape
/// (a method that is not a string, say) is refused further on, when its
/// members are read into the request type.
#[derive(Debug, Clone, PartialEq, Eq)]
pub enum RpcRequest {
    /// Not JSON: how serde_json describes why.
    Unparsable(String),
    /// A URL check or an extension heartbeat of the older protocol.
    Legacy,
    /// A JSON-RPC call.
    Call { id: Option<Vec<u8>>, method: Option<String>, params: Option<Vec<u8>> },
}

/// Whether a JSON request belongs to the older protocol: it names no
/// method, and it carries a URL or is an extension heartbeat.
pub open spec fn spec_is_legacy_request(payload: Seq<u8>) -> bool {
    json_member(payload, "method"@) is None && (json_member(payload, "url"@) is Some || json_member_str(
        payload,
        "type"@,
    ) == Some("extension_heartbeat"@))
}

/// Reads the raw bytes of a request to the daemon.
pub fn parse_rpc_request(payload: &[u8]) -> (r: RpcRequest)
    ensures
        match json_parse_error(payload@) {
            Some(e) => r matches RpcRequest::Unparsable(m) && m@ == e,
            None => {
                &&& (r is Legacy) == spec_is_legacy_request(payload@)
                &&& !spec_is_legacy_request(payload@) ==> (r matches RpcRequest::Call { id, method, params }
                    && opt_bytes(id) == json_member(payload@, "id"@) && opt_text(method) == json_member_str(
                    payload@,
                    "method"@,
                ) && opt_bytes(params) == json_member(payload@, "params"@))
            },
        },
{
    if let Some(message) = parse_error_text(payload) {
        return RpcRequest::Unparsable(message);
    }
    let has_method = member_json(payload, "method").is_some();
    let has_url = member_json(payload, "url").is_some();
    let heartbeat = match member_str(payload, "type") {
        Some(kind) => crate::strings::str_equal(kind.as_str(), "extension_heartbeat"),
        None => false,
    };
    if !has_method && (has_url || heartbeat) {
        return RpcRequest::Legacy;
    }
    RpcRequest::Call {
        id: member_json(payload, "id"),
        method: member_str(payload, "method"),
        params: member_json(payload, "params"),
    }
}

/// The answer to bytes that are not JSON: a parse error (code -32700) with
/// no id, carrying serde_json's description.
pub fn rpc_parse_error_response(message: &str) -> (r: Vec<u8>)
    ensures
        r@ == json_object_text(jsonrpc_error_members(None, -32700i64, "parse error"@, Some(message@))),
{
    jsonrpc_error(None, -32700, "parse error", Some(owned(message)))
}

/// The answer to a JSON-RPC call without a method: an invalid-request error
/// (code -32600) for the call's id, with no data.
pub fn rpc_missing_method_response(id: Option<&[u8]>) -> (r: Vec<u8>)
    ensures
        r@ == json_object_text(
            jsonrpc_error_members(
                match id {
                    Some(b) => Some(b@),
                    None => None,
                },
                -32600i64,
                "missing method"@,
                None,
            ),
        ),
{
    jsonrpc_error(id, -32600, "missing method", None)
}

} // verus!
