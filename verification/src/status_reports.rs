use vstd::prelude::*;

use crate::chrome_policy::{chromium_incognito_mode_name, spec_incognito_mode_name, ChromePolicyStatus};
use crate::extension_identity::{browser_display_name, spec_display_name};
use crate::firefox_policy::FirefoxPolicyStatus;
use crate::incognito::{ChromiumIncognitoPolicySettings, INCOGNITO_URL_BLOCK_LIMIT};
use crate::json::{json_object_text, member_views, object_json, JsonPiece, PieceView};
use crate::process_scan::SupportedBrowser;
use crate::strings::{concat3, owned};
use crate::text::{decimal, u64_to_decimal};

verus! {

/// The sentence for a browser whose policy is not managed.
pub open spec fn unmanaged_detail(label: Seq<char>) -> Seq<char> {
    label + " policy management is disabled; install and enable the extension manually"@
}

/// The sentence for a browser whose policy repair waits for a heartbeat.
pub open spec fn deferred_detail(label: Seq<char>) -> Seq<char> {
    label + " policy repair is deferred until the first extension heartbeat"@
}

/// The sentence for a private URL blocklist that is too long.
pub open spec fn too_many_patterns_detail(label: Seq<char>, count: nat) -> Seq<char> {
    label + " private URL policy has "@ + decimal(count)
        + " active patterns, but browsers apply at most 1000"@
}

/// The members of the report on a Chromium-family policy: the file's
/// status, with the policy counted compliant (and the extension counted
/// installed) when it is not managed or its repair waits for a heartbeat,
/// and counted not compliant when its private URL blocklist is too long.
pub open spec fn chromium_status_members(
    status: ChromePolicyStatus,
    settings: ChromiumIncognitoPolicySettings,
    browser: SupportedBrowser,
    managed: bool,
    defer_until_heartbeat: bool,
    heartbeat_seen: bool,
) -> Seq<(Seq<char>, PieceView)> {
    let label = spec_display_name(browser);
    let exceeded = settings.url_blocklist@.len() > INCOGNITO_URL_BLOCK_LIMIT;
    let waiting = !managed || (defer_until_heartbeat && !heartbeat_seen);
    let detail = if !managed {
        unmanaged_detail(label)
    } else if defer_until_heartbeat && !heartbeat_seen {
        deferred_detail(label)
    } else if exceeded {
        too_many_patterns_detail(label, settings.url_blocklist@.len())
    } else {
        status.detail@
    };
    seq![
        ("browser"@, PieceView::Text(status.browser@)),
        ("path"@, PieceView::Text(status.path@)),
        ("extension_id"@, PieceView::Text(status.extension_id@)),
        ("update_url"@, PieceView::Text(status.update_url@)),
        ("policy_exists"@, PieceView::Bool(status.policy_exists)),
        ("valid_json"@, PieceView::Bool(status.valid_json)),
        ("compliant"@, PieceView::Bool(waiting || (!exceeded && status.compliant))),
        ("force_install_configured"@, PieceView::Bool(waiting || status.force_install_configured)),
        ("incognito_mode"@, PieceView::Text(spec_incognito_mode_name(status.incognito_mode))),
        ("incognito_mode_configured"@, PieceView::Bool(status.incognito_mode_configured)),
        ("incognito_url_block_count"@, PieceView::Integer(status.incognito_url_block_count as int)),
        ("detail"@, PieceView::Text(detail)),
        ("managed"@, PieceView::Bool(managed)),
        ("deferred_until_heartbeat"@, PieceView::Bool(defer_until_heartbeat)),
        ("active_after_heartbeat"@, PieceView::Bool(heartbeat_seen)),
        ("incognito_unsupported_pattern_count"@, PieceView::Integer(
            settings.unsupported_pattern_count as int,
        )),
        ("incognito_url_block_limit_exceeded"@, PieceView::Bool(exceeded)),
    ]
}

/// The report on the policy of a Chromium-family browser, as a JSON object.
pub fn chromium_policy_status_json(
    status: &ChromePolicyStatus,
    settings: &ChromiumIncognitoPolicySettings,
    browser: SupportedBrowser,
    managed: bool,
    defer_until_heartbeat: bool,
    heartbeat_seen: bool,
) -> (r: Vec<u8>)
    ensures
        r@ == json_object_text(
            chromium_status_members(
                *status,
                *settings,
                browser,
                managed,
                defer_until_heartbeat,
                heartbeat_seen,
            ),
        ),
{
    let label = browser_display_name(browser);
    let exceeded = settings.url_block_limit_exceeded();
    let waiting = !managed || (defer_until_heartbeat && !heartbeat_seen);
    proof {
        reveal_strlit("");
    }
    let detail = if !managed {
        concat3(label, " policy management is disabled; install and enable the extension manually", "")
    } else if defer_until_heartbeat && !heartbeat_seen {
        concat3(label, " policy repair is deferred until the first extension heartbeat", "")
    } else if exceeded {
        let count = u64_to_decimal(settings.url_blocklist.len() as u64);
        let head = concat3(label, " private URL policy has ", count.as_str());
        concat3(head.as_str(), " active patterns, but browsers apply at most 1000", "")
    } else {
        status.detail.clone()
    };
    let mut members: Vec<(String, JsonPiece)> = Vec::new();
    members.push((owned("browser"), JsonPiece::Text(status.browser.clone())));
    members.push((owned("path"), JsonPiece::Text(status.path.clone())));
    members.push((owned("extension_id"), JsonPiece::Text(status.extension_id.clone())));
    members.push((owned("update_url"), JsonPiece::Text(status.update_url.clone())));
    members.push((owned("policy_exists"), JsonPiece::Bool(status.policy_exists)));
    members.push((owned("valid_json"), JsonPiece::Bool(status.valid_json)));
    members.push((owned("compliant"), JsonPiece::Bool(waiting || (!exceeded && status.compliant))));
    members.push((
        owned("force_install_configured"),
        JsonPiece::Bool(waiting || status.force_install_configured),
    ));
    members.push((
        owned("incognito_mode"),
        JsonPiece::Text(owned(chromium_incognito_mode_name(status.incognito_mode))),
    ));
    members.push((owned("incognito_mode_configured"), JsonPiece::Bool(status.incognito_mode_configured)));
    members.push((
        owned("incognito_url_block_count"),
        JsonPiece::Unsigned(status.incognito_url_block_count as u64),
    ));
    members.push((owned("detail"), JsonPiece::Text(detail)));
    members.push((owned("managed"), JsonPiece::Bool(managed)));
    members.push((owned("deferred_until_heartbeat"), JsonPiece::Bool(defer_until_heartbeat)));
    members.push((owned("active_after_heartbeat"), JsonPiece::Bool(heartbeat_seen)));
    members.push((
        owned("incognito_unsupported_pattern_count"),
        JsonPiece::Unsigned(settings.unsupported_pattern_count as u64),
    ));
    members.push((owned("incognito_url_block_limit_exceeded"), JsonPiece::Bool(exceeded)));
    assert(member_views(members@) =~= chromium_status_members(
        *status,
        *settings,
        browser,
        managed,
        defer_until_heartbeat,
        heartbeat_seen,
    ));
    object_json(&members)
}

/// The members of the report on a Gecko-family policy: the file's status,
/// counted compliant when the policy is not managed or its repair waits for
/// a heartbeat.
pub open spec fn gecko_status_members(
    status: FirefoxPolicyStatus,
    browser: SupportedBrowser,
    managed: bool,
    defer_until_heartbeat: bool,
    heartbeat_seen: bool,
) -> Seq<(Seq<char>, PieceView)> {
    let label = spec_display_name(browser);
    let waiting = !managed || (defer_until_heartbeat && !heartbeat_seen);
    seq![
        ("path"@, PieceView::Text(status.path@)),
        ("extension_id"@, PieceView::Text(status.extension_id@)),
        ("policy_exists"@, PieceView::Bool(status.policy_exists)),
        ("valid_json"@, PieceView::Bool(status.valid_json)),
        ("compliant"@, PieceView::Bool(waiting || status.compliant)),
        ("private_browsing_enabled"@, PieceView::Bool(status.private_browsing_enabled)),
        ("private_browsing_available"@, PieceView::Bool(status.private_browsing_available)),
        ("install_url"@, match status.install_url {
            Some(u) => PieceView::Text(u@),
            None => PieceView::Null,
        }),
        ("detail"@, PieceView::Text(if !managed {
            unmanaged_detail(label)
        } else if defer_until_heartbeat && !heartbeat_seen {
            deferred_detail(label)
        } else {
            status.detail@
        })),
        ("managed"@, PieceView::Bool(managed)),
        ("deferred_until_heartbeat"@, PieceView::Bool(defer_until_heartbeat)),
        ("active_after_heartbeat"@, PieceView::Bool(heartbeat_seen)),
    ]
}

/// The report on the policy of a Gecko-family browser, as a JSON object.
pub fn gecko_policy_status_json(
    status: &FirefoxPolicyStatus,
    browser: SupportedBrowser,
    managed: bool,
    defer_until_heartbeat: bool,
    heartbeat_seen: bool,
) -> (r: Vec<u8>)
    ensures
        r@ == json_object_text(
            gecko_status_members(*status, browser, managed, defer_until_heartbeat, heartbeat_seen),
        ),
{
    let label = browser_display_name(browser);
    let waiting = !managed || (defer_until_heartbeat && !heartbeat_seen);
    proof {
        reveal_strlit("");
    }
    let detail = if !managed {
        concat3(label, " policy management is disabled; install and enable the extension manually", "")
    } else if defer_until_heartbeat && !heartbeat_seen {
        concat3(label, " policy repair is deferred until the first extension heartbeat", "")
    } else {
        status.detail.clone()
    };
    let install_url = match &status.install_url {
        Some(u) => JsonPiece::Text(u.clone()),
        None => JsonPiece::Null,
    };
    let mut members: Vec<(String, JsonPiece)> = Vec::new();
    members.push((owned("path"), JsonPiece::Text(status.path.clone())));
    members.push((owned("extension_id"), JsonPiece::Text(status.extension_id.clone())));
    members.push((owned("policy_exists"), JsonPiece::Bool(status.policy_exists)));
    members.push((owned("valid_json"), JsonPiece::Bool(status.valid_json)));
    members.push((owned("compliant"), JsonPiece::Bool(waiting || status.compliant)));
    members.push((owned("private_browsing_enabled"), JsonPiece::Bool(status.private_browsing_enabled)));
    members.push((owned("private_browsing_available"), JsonPiece::Bool(status.private_browsing_available)));
    members.push((owned("install_url"), install_url));
    members.push((owned("detail"), JsonPiece::Text(detail)));
    members.push((owned("managed"), JsonPiece::Bool(managed)));
    members.push((owned("deferred_until_heartbeat"), JsonPiece::Bool(defer_until_heartbeat)));
    members.push((owned("active_after_heartbeat"), JsonPiece::Bool(heartbeat_seen)));
    assert(member_views(members@) =~= gecko_status_members(
        *status,
        browser,
        managed,
        defer_until_heartbeat,
        heartbeat_seen,
    ));
    object_json(&members)
}

} // verus!
