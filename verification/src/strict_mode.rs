use vstd::prelude::*;

use crate::desktop_id::{file_name, file_name_of};
use crate::policy::StrictModeConfig;
use crate::process_scan::{ProcessInfo, SupportedBrowser};
use crate::strings::concat3;
use crate::text::{
    chars_of, decimal, has_prefix, lowercase_chars, strip_prefix_chars, to_ascii_lowercase, trim,
    trim_chars, u64_to_decimal,
};

verus! {

/// The shortest time, in seconds, that a newly seen browser gets to start
/// its extension before strict mode acts.
pub const MIN_BROWSER_STARTUP_HEARTBEAT_GRACE_SECONDS: i64 = 60;

/// Whether strict mode may close supported browsers whose extension is
/// stale: it is asked to, and it requires at least one extension.
pub fn strict_supported_browser_enforcement_enabled(strict_mode: &StrictModeConfig) -> (r: bool)
    ensures
        r == (strict_mode.kill_supported_browser_if_extension_stale && (
        strict_mode.require_firefox_extension || strict_mode.require_chrome_extension)),
{
    strict_mode.kill_supported_browser_if_extension_stale && (strict_mode.require_firefox_extension
        || strict_mode.require_chrome_extension)
}

/// Whether strict mode requires the extension in `browser`: the Firefox
/// extension in the Firefox family, the Chrome extension in the others.
pub fn browser_required_by_strict_mode(browser: SupportedBrowser, strict_mode: &StrictModeConfig) -> (r: bool)
    ensures
        r == if browser.spec_is_firefox_based() {
            strict_mode.require_firefox_extension
        } else {
            strict_mode.require_chrome_extension
        },
{
    if browser.is_firefox_based() {
        strict_mode.require_firefox_extension
    } else {
        strict_mode.require_chrome_extension
    }
}

/// How long a newly seen browser may run without a heartbeat: the grace
/// period, but never less than the minimum.
pub fn browser_startup_grace_seconds(strict_mode: &StrictModeConfig) -> (r: i64)
    ensures
        r == if strict_mode.grace_seconds >= MIN_BROWSER_STARTUP_HEARTBEAT_GRACE_SECONDS {
            strict_mode.grace_seconds as i64
        } else {
            MIN_BROWSER_STARTUP_HEARTBEAT_GRACE_SECONDS
        },
{
    let grace = strict_mode.grace_seconds as i64;
    if grace >= MIN_BROWSER_STARTUP_HEARTBEAT_GRACE_SECONDS {
        grace
    } else {
        MIN_BROWSER_STARTUP_HEARTBEAT_GRACE_SECONDS
    }
}

/// What strict mode records of a browser's extension.
#[derive(Debug, Clone, Copy, PartialEq, Eq, Structural)]
pub enum ExtensionPresence {
    /// No heartbeat of the current browser session: missing since the
    /// session started.
    MissingSinceSessionStart,
    /// A heartbeat of the current session was seen.
    Healthy,
}

/// What strict mode concludes about one running browser.
#[derive(Debug, Clone)]
pub struct StrictBrowserHealth {
    /// What to record of the extension.
    pub presence: ExtensionPresence,
    /// Why the browser must be closed, when it must.
    pub unhealthy_reason: Option<String>,
}

/// The seconds from `from` to `to`, and 0 when `to` is earlier.
pub open spec fn elapsed_seconds(from: i64, to: i64) -> nat {
    if to >= from {
        (to - from) as nat
    } else {
        0
    }
}

fn elapsed(from: i64, to: i64) -> (r: u64)
    ensures
        r == elapsed_seconds(from, to),
{
    if to >= from {
        ((to as i128) - (from as i128)) as u64
    } else {
        0
    }
}

/// Whether the extension of `browser` is healthy under strict mode, given
/// when the browser's session started, the time now and the last heartbeat
/// of its extension (all in seconds). A heartbeat from before the session
/// does not count: the browser then gets the startup grace to start its
/// extension, and is unhealthy once it has run longer. With a heartbeat of
/// this session, the browser is unhealthy once the heartbeat is older than
/// the grace period.
pub fn strict_browser_health(
    browser: SupportedBrowser,
    strict_mode: &StrictModeConfig,
    session_started_at: i64,
    now: i64,
    heartbeat_last_seen: Option<i64>,
) -> (r: StrictBrowserHealth)
    ensures
        ({
            let current = heartbeat_last_seen matches Some(t) && t >= session_started_at;
            let startup_grace = if strict_mode.grace_seconds >= MIN_BROWSER_STARTUP_HEARTBEAT_GRACE_SECONDS {
                strict_mode.grace_seconds as int
            } else {
                MIN_BROWSER_STARTUP_HEARTBEAT_GRACE_SECONDS as int
            };
            if !current {
                let e = elapsed_seconds(session_started_at, now);
                &&& r.presence == ExtensionPresence::MissingSinceSessionStart
                &&& if e <= startup_grace {
                    r.unhealthy_reason is None
                } else {
                    r.unhealthy_reason matches Some(s) && s@ == "browser="@ + browser.spec_label()
                        + ";component="@ + browser.spec_extension_component()
                        + ";heartbeat_missing_since_launch_seconds="@ + decimal(e)
                        + ";startup_grace_seconds="@ + decimal(startup_grace as nat)
                }
            } else {
                let age = elapsed_seconds(heartbeat_last_seen->Some_0, now);
                &&& r.presence == ExtensionPresence::Healthy
                &&& if age <= strict_mode.grace_seconds {
                    r.unhealthy_reason is None
                } else {
                    r.unhealthy_reason matches Some(s) && s@ == "browser="@ + browser.spec_label()
                        + ";component="@ + browser.spec_extension_component()
                        + ";heartbeat_age_seconds="@ + decimal(age) + ";grace_seconds="@
                        + decimal(strict_mode.grace_seconds as nat)
                }
            }
        }),
{
    let startup_grace = browser_startup_grace_seconds(strict_mode);
    let current = match heartbeat_last_seen {
        Some(t) => t >= session_started_at,
        None => false,
    };
    let head = concat3("browser=", browser.label(), ";component=");
    let head = concat3(head.as_str(), browser.extension_component(), "");
    proof {
        reveal_strlit("");
    }
    if !current {
        let e = elapsed(session_started_at, now);
        if (e as i128) <= (startup_grace as i128) {
            return StrictBrowserHealth {
                presence: ExtensionPresence::MissingSinceSessionStart,
                unhealthy_reason: None,
            };
        }
        let a = concat3(head.as_str(), ";heartbeat_missing_since_launch_seconds=", u64_to_decimal(e).as_str());
        let reason = concat3(
            a.as_str(),
            ";startup_grace_seconds=",
            u64_to_decimal(startup_grace as u64).as_str(),
        );
        return StrictBrowserHealth {
            presence: ExtensionPresence::MissingSinceSessionStart,
            unhealthy_reason: Some(reason),
        };
    }
    let last = match heartbeat_last_seen {
        Some(t) => t,
        None => now,
    };
    let age = elapsed(last, now);
    if age <= strict_mode.grace_seconds as u64 {
        return StrictBrowserHealth { presence: ExtensionPresence::Healthy, unhealthy_reason: None };
    }
    let a = concat3(head.as_str(), ";heartbeat_age_seconds=", u64_to_decimal(age).as_str());
    let reason = concat3(
        a.as_str(),
        ";grace_seconds=",
        u64_to_decimal(strict_mode.grace_seconds as u64).as_str(),
    );
    StrictBrowserHealth { presence: ExtensionPresence::Healthy, unhealthy_reason: Some(reason) }
}

/// Whether a name stands for this program: trimmed and in ASCII lower case,
/// it starts with "blockuntu".
pub open spec fn spec_is_blockuntu_name(value: Seq<char>) -> bool {
    has_prefix(to_ascii_lowercase(trim(value)), "blockuntu"@)
}

/// Whether a name stands for this program.
pub fn is_blockuntu_name(value: &str) -> (r: bool)
    ensures
        r == spec_is_blockuntu_name(value@),
{
    let raw = chars_of(value);
    let trimmed = trim_chars(raw.as_slice());
    let lower = lowercase_chars(trimmed.as_slice());
    let prefix: Vec<char> = vec!['b', 'l', 'o', 'c', 'k', 'u', 'n', 't', 'u'];
    proof {
        reveal_strlit("blockuntu");
    }
    assert(prefix@ =~= "blockuntu"@);
    strip_prefix_chars(lower.as_slice(), prefix.as_slice()).is_some()
}

/// Whether an optional name stands for this program.
pub open spec fn opt_blockuntu_name(value: Option<String>) -> bool {
    value matches Some(v) && spec_is_blockuntu_name(v@)
}

/// Whether a process is one of this program's own, which are never blocked
/// as applications: the file name of its executable, its executable's base
/// name, its command name or its desktop id stands for this program.
pub open spec fn spec_is_blockuntu_process(p: ProcessInfo) -> bool {
    ||| (p.executable_path matches Some(path) && file_name(path@) matches Some(n)
        && spec_is_blockuntu_name(n))
    ||| opt_blockuntu_name(p.executable_basename)
    ||| opt_blockuntu_name(p.command_name)
    ||| opt_blockuntu_name(p.desktop_id)
}

fn opt_is_blockuntu_name(value: &Option<String>) -> (r: bool)
    ensures
        r == opt_blockuntu_name(*value),
{
    match value {
        Some(v) => is_blockuntu_name(v.as_str()),
        None => false,
    }
}

/// Whether a process is one of this program's own.
pub fn is_blockuntu_process(process: &ProcessInfo) -> (r: bool)
    ensures
        r == spec_is_blockuntu_process(*process),
{
    let by_path = match &process.executable_path {
        Some(path) => match file_name_of(chars_of(path.as_str())) {
            Some(n) => is_blockuntu_name(crate::text::string_from_chars(n.as_slice()).as_str()),
            None => false,
        },
        None => false,
    };
    by_path || opt_is_blockuntu_name(&process.executable_basename) || opt_is_blockuntu_name(
        &process.command_name,
    ) || opt_is_blockuntu_name(&process.desktop_id)
}

} // verus!
