use vstd::prelude::*;

use crate::host_error::{IoErrorKind, NativeHostError};
use crate::json::{
    canonical_json, json_canonical, json_member, json_member_display, json_member_str,
    json_object_text, member_display, member_json, member_str, member_views, object_json,
    JsonPiece, PieceView,
};
use crate::strings::owned;

verus! {

/// The kind of message that a browser extension sent.
#[derive(Debug, Clone, Copy, PartialEq, Eq, Structural)]
pub enum BrowserMessageKind {
    /// `{"url": ...}` from an older extension.
    LegacyUrl,
    /// `{"type": "extension_heartbeat", ...}` from an older extension.
    LegacyHeartbeat,
    /// A JSON-RPC request, or anything that is not JSON.
    JsonRpc,
    /// JSON of another shape.
    Unknown,
}

/// A browser message made ready for the daemon.
#[derive(Debug, Clone)]
pub struct PreparedRequest {
    pub daemon_payload: Vec<u8>,
    pub browser_kind: BrowserMessageKind,
}

/// A string member.
pub open spec fn text(s: Seq<char>) -> PieceView {
    PieceView::Text(s)
}

/// A member that is a string when there is one and `null` otherwise.
pub open spec fn optional_text(s: Option<Seq<char>>) -> PieceView {
    match s {
        Some(v) => PieceView::Text(v),
        None => PieceView::Null,
    }
}

/// The kind of a browser message: anything that is not JSON, or that has a
/// `method`, is JSON-RPC; then a `type` of "extension_heartbeat" is a
/// heartbeat; then any `url` is a URL check; the rest is unknown.
pub open spec fn spec_classify(payload: Seq<u8>) -> BrowserMessageKind {
    if json_canonical(payload) is None {
        BrowserMessageKind::JsonRpc
    } else if json_member(payload, "method"@) is Some {
        BrowserMessageKind::JsonRpc
    } else if json_member_str(payload, "type"@) == Some("extension_heartbeat"@) {
        BrowserMessageKind::LegacyHeartbeat
    } else if json_member(payload, "url"@) is Some {
        BrowserMessageKind::LegacyUrl
    } else {
        BrowserMessageKind::Unknown
    }
}

/// The JSON-RPC request that asks the daemon about `url`.
pub open spec fn evaluate_url_request(url: Seq<char>) -> Seq<u8> {
    json_object_text(
        seq![
            ("jsonrpc"@, text("2.0"@)),
            ("id"@, PieceView::Null),
            ("method"@, text("evaluate_url"@)),
            ("params"@, PieceView::Raw(json_object_text(seq![("url"@, text(url))]))),
        ],
    )
}

/// The JSON-RPC request that reports an extension heartbeat.
pub open spec fn heartbeat_request(id: Option<Seq<char>>, version: Option<Seq<char>>) -> Seq<u8> {
    json_object_text(
        seq![
            ("jsonrpc"@, text("2.0"@)),
            ("id"@, PieceView::Null),
            ("method"@, text("extension_heartbeat"@)),
            (
                "params"@,
                PieceView::Raw(
                    json_object_text(
                        seq![
                            ("extension_id"@, optional_text(id)),
                            ("extension_version"@, optional_text(version)),
                        ],
                    ),
                ),
            ),
        ],
    )
}

/// What goes to the daemon for a browser message, and its kind: JSON-RPC
/// unchanged; a heartbeat as an `extension_heartbeat` request with the
/// extension's id and version; a message with a string `url` as an
/// `evaluate_url` request; anything else unchanged, of unknown kind.
pub open spec fn spec_prepared(payload: Seq<u8>) -> (Seq<u8>, BrowserMessageKind) {
    if json_canonical(payload) is None || json_member(payload, "method"@) is Some {
        (payload, BrowserMessageKind::JsonRpc)
    } else if json_member_str(payload, "type"@) == Some("extension_heartbeat"@) {
        (
            heartbeat_request(
                json_member_str(payload, "extensionId"@),
                json_member_str(payload, "extensionVersion"@),
            ),
            BrowserMessageKind::LegacyHeartbeat,
        )
    } else if json_member_str(payload, "url"@) is Some {
        (
            evaluate_url_request(json_member_str(payload, "url"@)->Some_0),
            BrowserMessageKind::LegacyUrl,
        )
    } else {
        (payload, BrowserMessageKind::Unknown)
    }
}

/// The answer for a browser message of `kind` when the daemon gives none
/// that can be used, carrying `reason`.
pub open spec fn spec_fallback(kind: BrowserMessageKind, reason: Seq<char>) -> Seq<u8> {
    match kind {
        BrowserMessageKind::LegacyHeartbeat => json_object_text(
            seq![
                ("type"@, text("extension_heartbeat"@)),
                ("status"@, text("error"@)),
                ("error"@, text(reason)),
            ],
        ),
        BrowserMessageKind::JsonRpc => json_object_text(
            seq![
                ("jsonrpc"@, text("2.0"@)),
                ("id"@, PieceView::Null),
                (
                    "error"@,
                    PieceView::Raw(
                        json_object_text(
                            seq![
                                ("code"@, PieceView::Integer(-32000)),
                                ("message"@, text("native host error"@)),
                                ("data"@, text(reason)),
                            ],
                        ),
                    ),
                ),
            ],
        ),
        _ => json_object_text(seq![("action"@, text("allow"@)), ("error"@, text(reason))]),
    }
}

/// The block reason that a daemon result carries, as a member.
pub open spec fn reason_piece(result: Seq<u8>) -> PieceView {
    match json_member(result, "reason"@) {
        Some(reason) => PieceView::Raw(reason),
        None => PieceView::Null,
    }
}

/// The answer to a URL check for a daemon response: its error, if any, with
/// `allow`; `allow` with an error when it has no result; `block` with the
/// reason when the result's decision is "block"; else `allow`.
pub open spec fn spec_legacy_url_response(response: Seq<u8>) -> Seq<u8> {
    match json_member(response, "error"@) {
        Some(error) => json_object_text(
            seq![("action"@, text("allow"@)), ("error"@, PieceView::Raw(error))],
        ),
        None => match json_member(response, "result"@) {
            None => json_object_text(
                seq![
                    ("action"@, text("allow"@)),
                    ("error"@, text("daemon response missing result"@)),
                ],
            ),
            Some(result) => if json_member_str(result, "decision"@) == Some("block"@) {
                json_object_text(
                    seq![
                        ("action"@, text("block"@)),
                        ("reason"@, reason_piece(result)),
                    ],
                )
            } else {
                json_object_text(seq![("action"@, text("allow"@))])
            },
        },
    }
}

/// The answer to a heartbeat for a daemon response: `error` with the
/// daemon's error, if it has one, else `ok`.
pub open spec fn spec_legacy_heartbeat_response(response: Seq<u8>) -> Seq<u8> {
    match json_member(response, "error"@) {
        Some(error) => json_object_text(
            seq![
                ("type"@, text("extension_heartbeat"@)),
                ("status"@, text("error"@)),
                ("error"@, PieceView::Raw(error)),
            ],
        ),
        None => json_object_text(
            seq![("type"@, text("extension_heartbeat"@)), ("status"@, text("ok"@))],
        ),
    }
}

/// The answer to the browser for a daemon response to a message of `kind`:
/// a fallback when the response is not JSON; else the legacy shape for
/// legacy messages and the response itself, rewritten by serde_json, for
/// the others.
pub open spec fn spec_browser_response(kind: BrowserMessageKind, response: Seq<u8>) -> Seq<u8> {
    match json_canonical(response) {
        None => spec_fallback(kind, "daemon returned invalid JSON"@),
        Some(canonical) => match kind {
            BrowserMessageKind::LegacyUrl => spec_legacy_url_response(response),
            BrowserMessageKind::LegacyHeartbeat => spec_legacy_heartbeat_response(response),
            _ => canonical,
        },
    }
}

fn member(key: &str, piece: JsonPiece) -> (r: (String, JsonPiece))
    ensures
        r.0@ == key@,
        r.1 == piece,
{
    (owned(key), piece)
}

fn text_piece(s: &str) -> (r: JsonPiece)
    ensures
        r@ == text(s@),
{
    JsonPiece::Text(owned(s))
}

fn optional_piece(s: Option<String>) -> (r: JsonPiece)
    ensures
        r@ == optional_text(
            match s {
                Some(v) => Some(v@),
                None => None,
            },
        ),
{
    match s {
        Some(v) => JsonPiece::Text(v),
        None => JsonPiece::Null,
    }
}

/// The kind of a browser message.
pub fn classify_browser_payload(browser_payload: &[u8]) -> (r: BrowserMessageKind)
    ensures
        r == spec_classify(browser_payload@),
{
    if canonical_json(browser_payload).is_none() {
        BrowserMessageKind::JsonRpc
    } else if member_json(browser_payload, "method").is_some() {
        BrowserMessageKind::JsonRpc
    } else if is_heartbeat(browser_payload) {
        BrowserMessageKind::LegacyHeartbeat
    } else if member_json(browser_payload, "url").is_some() {
        BrowserMessageKind::LegacyUrl
    } else {
        BrowserMessageKind::Unknown
    }
}

fn is_heartbeat(payload: &[u8]) -> (r: bool)
    ensures
        r == (json_member_str(payload@, "type"@) == Some("extension_heartbeat"@)),
{
    match member_str(payload, "type") {
        Some(t) => crate::strings::str_equal(t.as_str(), "extension_heartbeat"),
        None => false,
    }
}

/// The request for the daemon that a browser message becomes, with its kind.
/// The kind is the one that classifies the message, except for a message
/// whose `url` is not a string: classified as a URL check, it goes to the
/// daemon unchanged, as unknown.
pub fn prepare_daemon_request(browser_payload: &[u8]) -> (r: PreparedRequest)
    ensures
        r.daemon_payload@ == spec_prepared(browser_payload@).0,
        r.browser_kind == spec_prepared(browser_payload@).1,
        !(spec_classify(browser_payload@) == BrowserMessageKind::LegacyUrl && json_member_str(
            browser_payload@,
            "url"@,
        ) is None) ==> r.browser_kind == spec_classify(browser_payload@),
{
    if canonical_json(browser_payload).is_none() || member_json(browser_payload, "method").is_some() {
        return PreparedRequest {
            daemon_payload: vstd::slice::slice_to_vec(browser_payload),
            browser_kind: BrowserMessageKind::JsonRpc,
        };
    }
    if is_heartbeat(browser_payload) {
        let id = member_str(browser_payload, "extensionId");
        let version = member_str(browser_payload, "extensionVersion");
        let mut params: Vec<(String, JsonPiece)> = Vec::new();
        params.push(member("extension_id", optional_piece(id)));
        params.push(member("extension_version", optional_piece(version)));
        let params_bytes = object_json(&params);
        let mut rpc: Vec<(String, JsonPiece)> = Vec::new();
        rpc.push(member("jsonrpc", text_piece("2.0")));
        rpc.push(member("id", JsonPiece::Null));
        rpc.push(member("method", text_piece("extension_heartbeat")));
        rpc.push(member("params", JsonPiece::Raw(params_bytes)));
        let payload = object_json(&rpc);
        proof {
            let idv = json_member_str(browser_payload@, "extensionId"@);
            let versionv = json_member_str(browser_payload@, "extensionVersion"@);
            assert(member_views(params@) =~= seq![
                ("extension_id"@, optional_text(idv)),
                ("extension_version"@, optional_text(versionv)),
            ]);
            assert(member_views(rpc@) =~= seq![
                ("jsonrpc"@, text("2.0"@)),
                ("id"@, PieceView::Null),
                ("method"@, text("extension_heartbeat"@)),
                ("params"@, PieceView::Raw(params_bytes@)),
            ]);
        }
        return PreparedRequest { daemon_payload: payload, browser_kind: BrowserMessageKind::LegacyHeartbeat };
    }
    match member_str(browser_payload, "url") {
        Some(url) => {
            let ghost urlv = url@;
            let mut params: Vec<(String, JsonPiece)> = Vec::new();
            params.push(member("url", JsonPiece::Text(url)));
            let params_bytes = object_json(&params);
            let mut rpc: Vec<(String, JsonPiece)> = Vec::new();
            rpc.push(member("jsonrpc", text_piece("2.0")));
            rpc.push(member("id", JsonPiece::Null));
            rpc.push(member("method", text_piece("evaluate_url")));
            rpc.push(member("params", JsonPiece::Raw(params_bytes)));
            let payload = object_json(&rpc);
            proof {
                assert(member_views(params@) =~= seq![("url"@, text(urlv))]);
                assert(member_views(rpc@) =~= seq![
                    ("jsonrpc"@, text("2.0"@)),
                    ("id"@, PieceView::Null),
                    ("method"@, text("evaluate_url"@)),
                    ("params"@, PieceView::Raw(params_bytes@)),
                ]);
            }
            PreparedRequest { daemon_payload: payload, browser_kind: BrowserMessageKind::LegacyUrl }
        },
        None => PreparedRequest {
            daemon_payload: vstd::slice::slice_to_vec(browser_payload),
            browser_kind: BrowserMessageKind::Unknown,
        },
    }
}

/// The answer for a browser message of `kind` carrying `reason`.
pub fn fallback_response_for_kind(kind: &BrowserMessageKind, reason: &str) -> (r: Vec<u8>)
    ensures
        r@ == spec_fallback(*kind, reason@),
{
    match kind {
        BrowserMessageKind::LegacyHeartbeat => {
            let mut m: Vec<(String, JsonPiece)> = Vec::new();
            m.push(member("type", text_piece("extension_heartbeat")));
            m.push(member("status", text_piece("error")));
            m.push(member("error", text_piece(reason)));
            assert(member_views(m@) =~= seq![
                ("type"@, text("extension_heartbeat"@)),
                ("status"@, text("error"@)),
                ("error"@, text(reason@)),
            ]);
            object_json(&m)
        },
        BrowserMessageKind::JsonRpc => {
            let mut e: Vec<(String, JsonPiece)> = Vec::new();
            e.push(member("code", JsonPiece::Integer(-32000)));
            e.push(member("message", text_piece("native host error")));
            e.push(member("data", text_piece(reason)));
            let error_bytes = object_json(&e);
            let mut m: Vec<(String, JsonPiece)> = Vec::new();
            m.push(member("jsonrpc", text_piece("2.0")));
            m.push(member("id", JsonPiece::Null));
            m.push(member("error", JsonPiece::Raw(error_bytes)));
            assert(member_views(e@) =~= seq![
                ("code"@, PieceView::Integer(-32000)),
                ("message"@, text("native host error"@)),
                ("data"@, text(reason@)),
            ]);
            assert(member_views(m@) =~= seq![
                ("jsonrpc"@, text("2.0"@)),
                ("id"@, PieceView::Null),
                ("error"@, PieceView::Raw(error_bytes@)),
            ]);
            object_json(&m)
        },
        _ => {
            let mut m: Vec<(String, JsonPiece)> = Vec::new();
            m.push(member("action", text_piece("allow")));
            m.push(member("error", text_piece(reason)));
            assert(member_views(m@) =~= seq![("action"@, text("allow"@)), ("error"@, text(reason@))]);
            object_json(&m)
        },
    }
}

/// The answer for a browser message when the daemon cannot be used, in the
/// shape that the message's kind expects, carrying `reason`.
pub fn fallback_response_for_payload(browser_payload: &[u8], reason: &str) -> (r: Vec<u8>)
    ensures
        r@ == spec_fallback(spec_classify(browser_payload@), reason@),
{
    let kind = classify_browser_payload(browser_payload);
    fallback_response_for_kind(&kind, reason)
}

fn legacy_url_response(response: &[u8]) -> (r: Vec<u8>)
    ensures
        r@ == spec_legacy_url_response(response@),
{
    if let Some(error) = member_json(response, "error") {
        let ghost ev = error@;
        let mut m: Vec<(String, JsonPiece)> = Vec::new();
        m.push(member("action", text_piece("allow")));
        m.push(member("error", JsonPiece::Raw(error)));
        assert(member_views(m@) =~= seq![("action"@, text("allow"@)), ("error"@, PieceView::Raw(ev))]);
        return object_json(&m);
    }
    let result = match member_json(response, "result") {
        Some(result) => result,
        None => {
            let mut m: Vec<(String, JsonPiece)> = Vec::new();
            m.push(member("action", text_piece("allow")));
            m.push(member("error", text_piece("daemon response missing result")));
            assert(member_views(m@) =~= seq![
                ("action"@, text("allow"@)),
                ("error"@, text("daemon response missing result"@)),
            ]);
            return object_json(&m);
        },
    };
    assert(json_member(response@, "error"@) is None);
    assert(json_member(response@, "result"@) == Some(result@));
    let blocked = match member_str(result.as_slice(), "decision") {
        Some(d) => crate::strings::str_equal(d.as_str(), "block"),
        None => false,
    };
    assert(blocked == (json_member_str(result@, "decision"@) == Some("block"@)));
    if blocked {
        let reason = match member_json(result.as_slice(), "reason") {
            Some(r) => JsonPiece::Raw(r),
            None => JsonPiece::Null,
        };
        assert(reason@ == reason_piece(result@));
        let ghost rv = reason@;
        let mut m: Vec<(String, JsonPiece)> = Vec::new();
        m.push(member("action", text_piece("block")));
        m.push(member("reason", reason));
        assert(member_views(m@) =~= seq![("action"@, text("block"@)), ("reason"@, rv)]);
        object_json(&m)
    } else {
        let mut m: Vec<(String, JsonPiece)> = Vec::new();
        m.push(member("action", text_piece("allow")));
        assert(member_views(m@) =~= seq![("action"@, text("allow"@))]);
        object_json(&m)
    }
}

fn legacy_heartbeat_response(response: &[u8]) -> (r: Vec<u8>)
    ensures
        r@ == spec_legacy_heartbeat_response(response@),
{
    match member_json(response, "error") {
        Some(error) => {
            let ghost ev = error@;
            let mut m: Vec<(String, JsonPiece)> = Vec::new();
            m.push(member("type", text_piece("extension_heartbeat")));
            m.push(member("status", text_piece("error")));
            m.push(member("error", JsonPiece::Raw(error)));
            assert(member_views(m@) =~= seq![
                ("type"@, text("extension_heartbeat"@)),
                ("status"@, text("error"@)),
                ("error"@, PieceView::Raw(ev)),
            ]);
            object_json(&m)
        },
        None => {
            let mut m: Vec<(String, JsonPiece)> = Vec::new();
            m.push(member("type", text_piece("extension_heartbeat")));
            m.push(member("status", text_piece("ok")));
            assert(member_views(m@) =~= seq![
                ("type"@, text("extension_heartbeat"@)),
                ("status"@, text("ok"@)),
            ]);
            object_json(&m)
        },
    }
}

/// The answer to the browser for the daemon's response to a message of
/// `browser_kind`.
pub fn prepare_browser_response(browser_kind: &BrowserMessageKind, daemon_response: &[u8]) -> (r:
    Vec<u8>)
    ensures
        r@ == spec_browser_response(*browser_kind, daemon_response@),
{
    match canonical_json(daemon_response) {
        None => fallback_response_for_kind(browser_kind, "daemon returned invalid JSON"),
        Some(canonical) => match browser_kind {
            BrowserMessageKind::LegacyUrl => legacy_url_response(daemon_response),
            BrowserMessageKind::LegacyHeartbeat => legacy_heartbeat_response(daemon_response),
            _ => canonical,
        },
    }
}

/// The method and the id of a browser message, for diagnostics: the
/// `method`, else the `type`, else "legacy_evaluate_url" when it has a
/// `url`, else "unknown"; and the id as JSON text, or "null". A message that
/// is not JSON gives "invalid_json" and "null". Parameters are never read.
pub open spec fn spec_request_metadata(payload: Seq<u8>) -> (Seq<char>, Seq<char>) {
    if json_canonical(payload) is None {
        ("invalid_json"@, "null"@)
    } else {
        (
            if json_member_str(payload, "method"@) is Some {
                json_member_str(payload, "method"@)->Some_0
            } else if json_member_str(payload, "type"@) is Some {
                json_member_str(payload, "type"@)->Some_0
            } else if json_member(payload, "url"@) is Some {
                "legacy_evaluate_url"@
            } else {
                "unknown"@
            },
            match json_member_display(payload, "id"@) {
                Some(id) => id,
                None => "null"@,
            },
        )
    }
}

/// The method and the id of a browser message, for diagnostics.
pub fn request_metadata(payload: &[u8]) -> (r: (String, String))
    ensures
        r.0@ == spec_request_metadata(payload@).0,
        r.1@ == spec_request_metadata(payload@).1,
{
    if canonical_json(payload).is_none() {
        return (owned("invalid_json"), owned("null"));
    }
    let method = match member_str(payload, "method") {
        Some(m) => m,
        None => match member_str(payload, "type") {
            Some(t) => t,
            None => if member_json(payload, "url").is_some() {
                owned("legacy_evaluate_url")
            } else {
                owned("unknown")
            },
        },
    };
    let id = match member_display(payload, "id") {
        Some(id) => id,
        None => owned("null"),
    };
    (method, id)
}

/// A reply of the daemon by its bytes.
pub open spec fn reply_view(r: Result<Vec<u8>, NativeHostError>) -> Result<Seq<u8>, NativeHostError> {
    match r {
        Ok(v) => Ok(v@),
        Err(e) => Err(e),
    }
}

/// Sends a prepared request to the daemon.
pub trait DaemonTransport {
    /// Whether `reply` is a reply that this transport may give to `payload`.
    /// What the daemon answers, or whether it can be reached at all, is up
    /// to the daemon, so by default any reply may come; a transport may say
    /// more.
    open spec fn may_reply(&self, payload: Seq<u8>, reply: Result<Seq<u8>, NativeHostError>) -> bool {
        true
    }

    /// The daemon's response to `payload`.
    fn send(&self, payload: &[u8]) -> (r: Result<Vec<u8>, NativeHostError>)
        ensures
            self.may_reply(payload@, reply_view(r)),
    ;
}

/// What the browser gets once the daemon has given `reply` to a message of
/// `kind`: the converted response, or the daemon's error.
pub open spec fn spec_daemon_outcome(kind: BrowserMessageKind, reply: Result<Seq<u8>, NativeHostError>) -> Result<
    Seq<u8>,
    NativeHostError,
> {
    match reply {
        Ok(d) => Ok(spec_browser_response(kind, d)),
        Err(e) => Err(e),
    }
}

/// The answer a browser gets to `message` when the daemon gives `reply`:
/// the converted response, or the fallback for an unavailable backend.
pub open spec fn spec_bridge_answer(message: Seq<u8>, reply: Result<Seq<u8>, NativeHostError>) -> Seq<u8> {
    match reply {
        Ok(d) => spec_browser_response(spec_prepared(message).1, d),
        Err(_) => spec_fallback(spec_classify(message), "backend unavailable"@),
    }
}

/// What the browser gets once the daemon has answered (or failed to) a
/// message of `kind`: the converted response, or the daemon's error.
pub fn respond_to_daemon_result(kind: &BrowserMessageKind, result: Result<Vec<u8>, NativeHostError>) -> (r:
    Result<Vec<u8>, NativeHostError>)
    ensures
        match result {
            Ok(response) => r matches Ok(v) && v@ == spec_browser_response(*kind, response@),
            Err(e) => r == Err::<Vec<u8>, NativeHostError>(e),
        },
{
    match result {
        Ok(response) => Ok(prepare_browser_response(kind, response.as_slice())),
        Err(e) => Err(e),
    }
}

/// Sends a browser message to the daemon, prepared, and converts the
/// response back; a daemon error is passed on.
pub fn process_browser_payload<T: DaemonTransport>(daemon_client: &T, browser_payload: &[u8]) -> (r:
    Result<Vec<u8>, NativeHostError>)
    ensures
        exists|reply: Result<Seq<u8>, NativeHostError>|
            daemon_client.may_reply(spec_prepared(browser_payload@).0, reply) && reply_view(r)
                == spec_daemon_outcome(spec_prepared(browser_payload@).1, reply),
{
    let prepared = prepare_daemon_request(browser_payload);
    let result = daemon_client.send(prepared.daemon_payload.as_slice());
    let ghost sent = reply_view(result);
    let r = respond_to_daemon_result(&prepared.browser_kind, result);
    assert(reply_view(r) == spec_daemon_outcome(spec_prepared(browser_payload@).1, sent));
    r
}

/// The answer to a browser message once the daemon's outcome is known: the
/// converted response, or, when the daemon failed, the fallback for the
/// message with "backend unavailable".
pub fn bridge_answer(browser_payload: &[u8], outcome: Result<Vec<u8>, NativeHostError>) -> (r: Vec<u8>)
    ensures
        r@ == match outcome {
            Ok(v) => v@,
            Err(_) => spec_fallback(spec_classify(browser_payload@), "backend unavailable"@),
        },
{
    match outcome {
        Ok(response) => response,
        Err(_) => fallback_response_for_payload(browser_payload, "backend unavailable"),
    }
}

/// The answer to a browser message: the daemon's converted response, or,
/// when the daemon fails, the fallback for the message with "backend
/// unavailable".
pub fn bridge_response<T: DaemonTransport>(daemon_client: &T, browser_payload: &[u8]) -> (r: Vec<u8>)
    ensures
        exists|reply: Result<Seq<u8>, NativeHostError>|
            daemon_client.may_reply(spec_prepared(browser_payload@).0, reply) && r@
                == spec_bridge_answer(browser_payload@, reply),
{
    let result = process_browser_payload(daemon_client, browser_payload);
    let ghost reply = choose|reply: Result<Seq<u8>, NativeHostError>|
        daemon_client.may_reply(spec_prepared(browser_payload@).0, reply) && reply_view(result)
            == spec_daemon_outcome(spec_prepared(browser_payload@).1, reply);
    let r = bridge_answer(browser_payload, result);
    assert(r@ == spec_bridge_answer(browser_payload@, reply));
    r
}

/// Law: JSON-RPC requests, and bytes that are not JSON, reach the daemon
/// unchanged.
pub proof fn law_jsonrpc_passes_through(payload: Seq<u8>)
    requires
        spec_classify(payload) == BrowserMessageKind::JsonRpc,
    ensures
        spec_prepared(payload).0 == payload,
{
}

} // verus!

verus! {

/// A reply of the daemon.
pub type Reply = Result<Seq<u8>, NativeHostError>;

/// What the bridge writes for `input`, lengths in the given byte order, and
/// how it ends, when the daemon's replies to the messages are `replies`, in
/// order: each message gets the framed answer for its reply; the bridge
/// stops with success at the end of the input, with an end-of-input error at
/// a frame cut short, with a size error at a frame announced over the limit,
/// and with a size error at an answer too long to frame.
pub open spec fn bridge_run(input: Seq<u8>, little: bool, replies: Seq<Reply>) -> (Seq<u8>, Result<
    (),
    NativeHostError,
>)
    decreases input.len(),
{
    match crate::native_messaging::spec_read_message(input, little) {
        crate::native_messaging::ReadOutcome::Empty => (Seq::empty(), Ok(())),
        crate::native_messaging::ReadOutcome::PartialHeader => (
            Seq::empty(),
            Err(NativeHostError::Io(IoErrorKind::UnexpectedEof)),
        ),
        crate::native_messaging::ReadOutcome::TruncatedPayload => (
            Seq::empty(),
            Err(NativeHostError::Io(IoErrorKind::UnexpectedEof)),
        ),
        crate::native_messaging::ReadOutcome::TooLarge(length) => (
            Seq::empty(),
            Err(
                NativeHostError::MessageTooLarge {
                    length: length as usize,
                    limit: crate::native_messaging::MAX_MESSAGE_BYTES,
                },
            ),
        ),
        crate::native_messaging::ReadOutcome::Message(m) => if replies.len() == 0 || input.len() < 4
            + m.len() {
            (Seq::empty(), Ok(()))
        } else {
            let answer = spec_bridge_answer(m, replies[0]);
            if answer.len() > u32::MAX {
                (Seq::empty(), Err(NativeHostError::ResponseTooLarge))
            } else {
                let rest = bridge_run(input.skip(4 + m.len() as int), little, replies.drop_first());
                (crate::native_messaging::spec_frame(answer, little) + rest.0, rest.1)
            }
        },
    }
}

/// Whether `replies` are the replies the bridge gets for the messages of
/// `input` that it answers: one per message it reads, up to where it stops,
/// each one that `client` may give to the message's prepared request.
pub open spec fn replies_fit<T: DaemonTransport>(client: T, input: Seq<u8>, little: bool, replies: Seq<Reply>) -> bool
    decreases input.len(),
{
    match crate::native_messaging::spec_read_message(input, little) {
        crate::native_messaging::ReadOutcome::Message(m) => {
            &&& input.len() >= 4 + m.len()
            &&& replies.len() > 0
            &&& client.may_reply(spec_prepared(m).0, replies[0])
            &&& if spec_bridge_answer(m, replies[0]).len() > u32::MAX {
                replies.len() == 1
            } else {
                replies_fit(client, input.skip(4 + m.len() as int), little, replies.drop_first())
            }
        },
        _ => replies.len() == 0,
    }
}

/// Answers every message framed in `input`, in order, appending the framed
/// answers to `output`, lengths in the given byte order: what is written,
/// and how it ends, are those of `bridge_run` for the replies the daemon
/// gave.
pub fn run_bridge_in_order<T: DaemonTransport>(
    input: &[u8],
    output: &mut Vec<u8>,
    daemon_client: &T,
    little: bool,
) -> (r: Result<(), NativeHostError>)
    ensures
        exists|replies: Seq<Reply>|
            replies_fit(*daemon_client, input@, little, replies) && final(output)@ == old(output)@
                + bridge_run(input@, little, replies).0 && r == bridge_run(input@, little, replies).1,
{
    let ghost start = output@;
    let ghost mut replies: Seq<Reply> = Seq::empty();
    let mut pos: usize = 0;
    assert forall|rest: Seq<Reply>| replies_fit(*daemon_client, input@.skip(0), little, rest) implies (
    replies_fit(*daemon_client, input@, little, replies + rest) && bridge_run(input@, little, replies
        + rest) == (output@.skip(start.len() as int) + bridge_run(input@.skip(0), little, rest).0,
    bridge_run(input@.skip(0), little, rest).1)) by {
        assert(input@.skip(0) =~= input@);
        assert(replies + rest =~= rest);
        assert(output@.skip(start.len() as int) =~= Seq::<u8>::empty());
        assert(Seq::<u8>::empty() + bridge_run(input@, little, rest).0 =~= bridge_run(input@, little, rest).0);
    }
    loop
        invariant
            start == old(output)@,
            pos <= input@.len(),
            output@.len() >= start.len(),
            output@.subrange(0, start.len() as int) == start,
            forall|rest: Seq<Reply>|
                #[trigger] replies_fit(*daemon_client, input@.skip(pos as int), little, rest) ==> (replies_fit(
                    *daemon_client,
                    input@,
                    little,
                    replies + rest,
                ) && bridge_run(input@, little, replies + rest) == (output@.skip(start.len() as int)
                    + bridge_run(input@.skip(pos as int), little, rest).0, bridge_run(
                    input@.skip(pos as int),
                    little,
                    rest,
                ).1)),
        decreases input@.len() - pos,
    {
        let rest = vstd::slice::slice_subrange(input, pos, input.len());
        assert(rest@ =~= input@.skip(pos as int));
        let read = crate::native_messaging::read_native_message_in_order(rest, little);
        match read {
            Err(e) => {
                proof {
                    let none = Seq::<Reply>::empty();
                    assert(replies_fit(*daemon_client, input@.skip(pos as int), little, none));
                    assert(replies + none =~= replies);
                    assert(output@ =~= start + output@.skip(start.len() as int));
                    assert(bridge_run(input@.skip(pos as int), little, none).0 =~= Seq::<u8>::empty());
                    assert(output@.skip(start.len() as int) + Seq::<u8>::empty() =~= output@.skip(
                        start.len() as int,
                    ));
                }
                return Err(e);
            },
            Ok(None) => {
                proof {
                    let none = Seq::<Reply>::empty();
                    assert(replies_fit(*daemon_client, input@.skip(pos as int), little, none));
                    assert(replies + none =~= replies);
                    assert(output@ =~= start + output@.skip(start.len() as int));
                    assert(output@.skip(start.len() as int) + Seq::<u8>::empty() =~= output@.skip(
                        start.len() as int,
                    ));
                }
                return Ok(());
            },
            Ok(Some(payload)) => {
                let response = bridge_response(daemon_client, payload.as_slice());
                let ghost reply = choose|reply: Reply|
                    daemon_client.may_reply(spec_prepared(payload@).0, reply) && response@
                        == spec_bridge_answer(payload@, reply);
                let ghost before = output@;
                let ghost here = input@.skip(pos as int);
                let ghost m = payload@;
                assert(4 + m.len() <= here.len());
                match crate::native_messaging::write_native_message_in_order(output, response.as_slice(), little) {
                    Err(e) => {
                        proof {
                            let one = seq![reply];
                            assert(one[0] == reply);
                            assert(replies_fit(*daemon_client, here, little, one));
                            assert(bridge_run(here, little, one) == (
                                Seq::<u8>::empty(),
                                Err::<(), NativeHostError>(NativeHostError::ResponseTooLarge),
                            ));
                            assert(output@ =~= start + output@.skip(start.len() as int));
                            assert(output@.skip(start.len() as int) + Seq::<u8>::empty() =~= output@.skip(
                                start.len() as int,
                            ));
                            replies = replies + one;
                        }
                        return Err(e);
                    },
                    Ok(()) => {},
                }
                proof {
                    let next = pos + 4 + m.len();
                    let there = input@.skip(next as int);
                    assert(here.skip(4 + m.len() as int) =~= there);
                    let frame = crate::native_messaging::spec_frame(response@, little);
                    assert(output@ == before + frame);
                    assert forall|rest2: Seq<Reply>|
                        #[trigger] replies_fit(*daemon_client, there, little, rest2) implies (replies_fit(
                            *daemon_client,
                            input@,
                            little,
                            replies.push(reply) + rest2,
                        ) && bridge_run(input@, little, replies.push(reply) + rest2) == (output@.skip(
                            start.len() as int,
                        ) + bridge_run(there, little, rest2).0, bridge_run(there, little, rest2).1)) by {
                        let longer = seq![reply] + rest2;
                        assert(longer[0] == reply);
                        assert(longer.drop_first() =~= rest2);
                        assert(replies_fit(*daemon_client, here, little, longer));
                        assert(replies.push(reply) + rest2 =~= replies + longer);
                        assert(bridge_run(here, little, longer) == (frame + bridge_run(there, little, rest2).0,
                            bridge_run(there, little, rest2).1));
                        assert(output@.skip(start.len() as int) =~= before.skip(start.len() as int) + frame);
                        assert(before.skip(start.len() as int) + (frame + bridge_run(there, little, rest2).0)
                            =~= output@.skip(start.len() as int) + bridge_run(there, little, rest2).0);
                    }
                    replies = replies.push(reply);
                    assert(output@.subrange(0, start.len() as int) =~= before.subrange(0, start.len() as int));
                }
                pos = pos + 4 + payload.len();
            },
        }
    }
}

/// Answers every message framed in `input`, lengths in the machine's byte
/// order, appending the framed answers to `output`.
pub fn run_bridge<T: DaemonTransport>(input: &[u8], output: &mut Vec<u8>, daemon_client: &T) -> (r:
    Result<(), NativeHostError>)
    ensures
        exists|replies: Seq<Reply>|
            replies_fit(*daemon_client, input@, crate::platform::native_little(), replies)
                && final(output)@ == old(output)@ + bridge_run(
                input@,
                crate::platform::native_little(),
                replies,
            ).0 && r == bridge_run(input@, crate::platform::native_little(), replies).1,
{
    let little = crate::platform::native_order_is_little();
    run_bridge_in_order(input, output, daemon_client, little)
}

} // verus!
