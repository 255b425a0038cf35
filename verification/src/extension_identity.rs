use vstd::prelude::*;

use crate::process_scan::{
    spec_supported_browser_for_process, supported_browser_for_process, ProcessInfo,
    SupportedBrowser,
};
use crate::strings::{chars_equal, str_equal};
use crate::text::{chars_of, lowercase_chars, to_ascii_lowercase, trim, trim_chars};

verus! {

/// The browser whose extension reports under a heartbeat component.
pub open spec fn spec_browser_for_component(c: Seq<char>) -> Option<SupportedBrowser> {
    if c == "firefox_extension"@ {
        Some(SupportedBrowser::Firefox)
    } else if c == "librewolf_extension"@ {
        Some(SupportedBrowser::LibreWolf)
    } else if c == "waterfox_extension"@ {
        Some(SupportedBrowser::Waterfox)
    } else if c == "chrome_extension"@ {
        Some(SupportedBrowser::Chrome)
    } else if c == "chromium_extension"@ {
        Some(SupportedBrowser::Chromium)
    } else if c == "brave_extension"@ {
        Some(SupportedBrowser::Brave)
    } else if c == "opera_extension"@ {
        Some(SupportedBrowser::Opera)
    } else if c == "edge_extension"@ {
        Some(SupportedBrowser::Edge)
    } else if c == "vivaldi_extension"@ {
        Some(SupportedBrowser::Vivaldi)
    } else {
        None
    }
}

/// The browser whose extension reports under a heartbeat component.
pub fn supported_browser_for_extension_component(component: &str) -> (r: Option<
    SupportedBrowser,
>)
    ensures
        r == spec_browser_for_component(component@),
{
    if str_equal(component, "firefox_extension") {
        Some(SupportedBrowser::Firefox)
    } else if str_equal(component, "librewolf_extension") {
        Some(SupportedBrowser::LibreWolf)
    } else if str_equal(component, "waterfox_extension") {
        Some(SupportedBrowser::Waterfox)
    } else if str_equal(component, "chrome_extension") {
        Some(SupportedBrowser::Chrome)
    } else if str_equal(component, "chromium_extension") {
        Some(SupportedBrowser::Chromium)
    } else if str_equal(component, "brave_extension") {
        Some(SupportedBrowser::Brave)
    } else if str_equal(component, "opera_extension") {
        Some(SupportedBrowser::Opera)
    } else if str_equal(component, "edge_extension") {
        Some(SupportedBrowser::Edge)
    } else if str_equal(component, "vivaldi_extension") {
        Some(SupportedBrowser::Vivaldi)
    } else {
        None
    }
}

/// The heartbeat component for a browser name that an extension reports,
/// compared after trimming and lower-casing.
pub open spec fn spec_component_for_browser_name(name: Seq<char>) -> Option<Seq<char>> {
    let n = to_ascii_lowercase(trim(name));
    if n == "firefox"@ {
        Some("firefox_extension"@)
    } else if n == "librewolf"@ {
        Some("librewolf_extension"@)
    } else if n == "waterfox"@ {
        Some("waterfox_extension"@)
    } else if n == "chrome"@ {
        Some("chrome_extension"@)
    } else if n == "chromium"@ {
        Some("chromium_extension"@)
    } else if n == "brave"@ {
        Some("brave_extension"@)
    } else if n == "opera"@ {
        Some("opera_extension"@)
    } else if n == "edge"@ {
        Some("edge_extension"@)
    } else if n == "vivaldi"@ {
        Some("vivaldi_extension"@)
    } else {
        None
    }
}

fn component_for_browser_name(name: &str) -> (r: Option<&'static str>)
    ensures
        match spec_component_for_browser_name(name@) {
            Some(c) => r matches Some(s) && s@ == c,
            None => r is None,
        },
{
    let chars = chars_of(name);
    let trimmed = trim_chars(chars.as_slice());
    let n = lowercase_chars(trimmed.as_slice());
    let names: [&str; 9] = [
        "firefox",
        "librewolf",
        "waterfox",
        "chrome",
        "chromium",
        "brave",
        "opera",
        "edge",
        "vivaldi",
    ];
    let components: [&str; 9] = [
        "firefox_extension",
        "librewolf_extension",
        "waterfox_extension",
        "chrome_extension",
        "chromium_extension",
        "brave_extension",
        "opera_extension",
        "edge_extension",
        "vivaldi_extension",
    ];
    let mut i: usize = 0;
    while i < 9
        invariant
            i <= 9,
            n@ == to_ascii_lowercase(trim(name@)),
            names@ == seq![
                "firefox",
                "librewolf",
                "waterfox",
                "chrome",
                "chromium",
                "brave",
                "opera",
                "edge",
                "vivaldi",
            ],
            components@ == seq![
                "firefox_extension",
                "librewolf_extension",
                "waterfox_extension",
                "chrome_extension",
                "chromium_extension",
                "brave_extension",
                "opera_extension",
                "edge_extension",
                "vivaldi_extension",
            ],
            forall|j: int| 0 <= j < i ==> n@ != (#[trigger] names@[j])@,
        decreases 9 - i,
    {
        let candidate = chars_of(names[i]);
        if chars_equal(n.as_slice(), candidate.as_slice()) {
            return Some(components[i]);
        }
        i = i + 1;
    }
    assert(n@ != names@[0]@);
    assert(n@ != names@[1]@);
    assert(n@ != names@[2]@);
    assert(n@ != names@[3]@);
    assert(n@ != names@[4]@);
    assert(n@ != names@[5]@);
    assert(n@ != names@[6]@);
    assert(n@ != names@[7]@);
    assert(n@ != names@[8]@);
    None
}

/// The heartbeat component under which a report is recorded: the reported
/// component when it is known, else the component of the reported browser
/// name, else Chrome's for the Chrome Web Store extension id, else Firefox's.
pub open spec fn spec_extension_component(
    component: Option<Seq<char>>,
    browser: Option<Seq<char>>,
    extension_id: Option<Seq<char>>,
) -> Seq<char> {
    if component matches Some(c) && spec_browser_for_component(c) is Some {
        component->0
    } else if browser matches Some(b) && spec_component_for_browser_name(b) is Some {
        spec_component_for_browser_name(browser->0)->0
    } else if extension_id == Some("opfljaancedgklbpnbpjfhdbbhbfpnoc"@) {
        "chrome_extension"@
    } else {
        "firefox_extension"@
    }
}

/// The view of an optional string slice.
pub open spec fn opt_view(o: Option<&str>) -> Option<Seq<char>> {
    match o {
        Some(s) => Some(s@),
        None => None,
    }
}

/// The heartbeat component under which an extension report is recorded.
pub fn extension_component(
    component: Option<&str>,
    browser: Option<&str>,
    extension_id: Option<&str>,
) -> (r: String)
    ensures
        r@ == spec_extension_component(opt_view(component), opt_view(browser), opt_view(extension_id)),
{
    if let Some(c) = component {
        if supported_browser_for_extension_component(c).is_some() {
            return c.to_string();
        }
    }
    if let Some(b) = browser {
        if let Some(c) = component_for_browser_name(b) {
            return c.to_string();
        }
    }
    if let Some(id) = extension_id {
        if str_equal(id, "opfljaancedgklbpnbpjfhdbbhbfpnoc") {
            return "chrome_extension".to_string();
        }
    }
    "firefox_extension".to_string()
}

/// Whether `b` is a browser of the same family as `reported` that is running.
pub open spec fn is_family_candidate(
    reported: SupportedBrowser,
    running: Seq<SupportedBrowser>,
    b: SupportedBrowser,
) -> bool {
    running.contains(b) && b.spec_is_firefox_based() == reported.spec_is_firefox_based()
}

/// The browser that a generic Chrome or Firefox report stands for: the only
/// running browser of the same family when there is exactly one, and the
/// reported browser otherwise; a report of another browser is taken as it is.
pub open spec fn spec_infer_browser(
    reported: SupportedBrowser,
    running: Seq<SupportedBrowser>,
) -> SupportedBrowser {
    if !(reported is Chrome || reported is Firefox) {
        reported
    } else if exists|b: SupportedBrowser|
        is_family_candidate(reported, running, b) && forall|c: SupportedBrowser|
            is_family_candidate(reported, running, c) ==> c == b {
        choose|b: SupportedBrowser|
            is_family_candidate(reported, running, b) && forall|c: SupportedBrowser|
                is_family_candidate(reported, running, c) ==> c == b
    } else {
        reported
    }
}

/// Every browser is one of the managed browsers.
pub proof fn lemma_managed_covers(b: SupportedBrowser)
    ensures
        exists|k: int| 0 <= k < 9 && SupportedBrowser::spec_managed()[k] == b,
{
    let m = SupportedBrowser::spec_managed();
    match b {
        SupportedBrowser::Firefox => assert(m[0] == b),
        SupportedBrowser::LibreWolf => assert(m[1] == b),
        SupportedBrowser::Waterfox => assert(m[2] == b),
        SupportedBrowser::Chrome => assert(m[3] == b),
        SupportedBrowser::Chromium => assert(m[4] == b),
        SupportedBrowser::Brave => assert(m[5] == b),
        SupportedBrowser::Opera => assert(m[6] == b),
        SupportedBrowser::Edge => assert(m[7] == b),
        SupportedBrowser::Vivaldi => assert(m[8] == b),
    }
}

/// The managed browsers are listed once each.
pub proof fn lemma_managed_distinct(x: int, y: int)
    requires
        0 <= x < y < 9,
    ensures
        SupportedBrowser::spec_managed()[x] != SupportedBrowser::spec_managed()[y],
{
    let m = SupportedBrowser::spec_managed();
    assert(m[0] == SupportedBrowser::Firefox);
    assert(m[1] == SupportedBrowser::LibreWolf);
    assert(m[2] == SupportedBrowser::Waterfox);
    assert(m[3] == SupportedBrowser::Chrome);
    assert(m[4] == SupportedBrowser::Chromium);
    assert(m[5] == SupportedBrowser::Brave);
    assert(m[6] == SupportedBrowser::Opera);
    assert(m[7] == SupportedBrowser::Edge);
    assert(m[8] == SupportedBrowser::Vivaldi);
}

/// Whether `browser` occurs in `browsers`.
pub fn contains_browser(browsers: &[SupportedBrowser], browser: SupportedBrowser) -> (r: bool)
    ensures
        r == browsers@.contains(browser),
{
    let mut i: usize = 0;
    while i < browsers.len()
        invariant
            i <= browsers@.len(),
            forall|j: int| 0 <= j < i ==> browsers@[j] != browser,
        decreases browsers@.len() - i,
    {
        if browsers[i] == browser {
            assert(browsers@[i as int] == browser);
            return true;
        }
        i = i + 1;
    }
    false
}

/// The browser that a generic Chrome or Firefox report stands for, given the
/// browsers that are running.
pub fn infer_browser_from_running_browsers(
    reported_browser: SupportedBrowser,
    running_browsers: &[SupportedBrowser],
) -> (r: SupportedBrowser)
    ensures
        r == spec_infer_browser(reported_browser, running_browsers@),
{
    if !(reported_browser == SupportedBrowser::Chrome || reported_browser
        == SupportedBrowser::Firefox) {
        return reported_browser;
    }
    let managed = SupportedBrowser::managed();
    let ghost running = running_browsers@;
    let mut count: usize = 0;
    let mut first = reported_browser;
    let mut second = reported_browser;
    let mut first_index: usize = 0;
    let mut i: usize = 0;
    while i < managed.len()
        invariant
            managed@ == SupportedBrowser::spec_managed(),
            running == running_browsers@,
            i <= 9,
            count <= i,
            count == 0 ==> forall|k: int|
                0 <= k < i ==> !is_family_candidate(reported_browser, running, managed@[k]),
            count >= 1 ==> is_family_candidate(reported_browser, running, first),
            count >= 1 ==> first_index < i && managed@[first_index as int] == first,
            count == 1 ==> forall|k: int|
                0 <= k < i && is_family_candidate(reported_browser, running, #[trigger] managed@[k])
                    ==> managed@[k] == first,
            count >= 2 ==> is_family_candidate(reported_browser, running, second) && second
                != first,
        decreases 9 - i,
    {
        let b = managed[i];
        let candidate = b.is_chromium_based() == reported_browser.is_chromium_based()
            && contains_browser(running_browsers, b);
        if candidate {
            if count == 0 {
                first = b;
                first_index = i;
            } else if count == 1 {
                second = b;
                proof {
                    lemma_managed_distinct(first_index as int, i as int);
                }
            }
            count = count + 1;
        }
        i = i + 1;
    }
    proof {
        assert forall|c: SupportedBrowser| is_family_candidate(reported_browser, running, c) implies (count >= 1 && (count == 1 ==> c == first)) by {
            lemma_managed_covers(c);
            let k = choose|k: int| 0 <= k < 9 && SupportedBrowser::spec_managed()[k] == c;
            assert(managed@[k] == c);
        }
    }
    if count == 1 {
        first
    } else {
        reported_browser
    }
}

/// The name under which a browser is shown.
pub open spec fn spec_display_name(browser: SupportedBrowser) -> Seq<char> {
    match browser {
        SupportedBrowser::Firefox => "Firefox"@,
        SupportedBrowser::LibreWolf => "LibreWolf"@,
        SupportedBrowser::Waterfox => "Waterfox"@,
        SupportedBrowser::Chrome => "Chrome"@,
        SupportedBrowser::Chromium => "Chromium"@,
        SupportedBrowser::Brave => "Brave"@,
        SupportedBrowser::Opera => "Opera"@,
        SupportedBrowser::Edge => "Microsoft Edge"@,
        SupportedBrowser::Vivaldi => "Vivaldi"@,
    }
}

/// The name under which a browser is shown.
pub fn browser_display_name(browser: SupportedBrowser) -> (r: &'static str)
    ensures
        r@ == spec_display_name(browser),
{
    match browser {
        SupportedBrowser::Firefox => "Firefox",
        SupportedBrowser::LibreWolf => "LibreWolf",
        SupportedBrowser::Waterfox => "Waterfox",
        SupportedBrowser::Chrome => "Chrome",
        SupportedBrowser::Chromium => "Chromium",
        SupportedBrowser::Brave => "Brave",
        SupportedBrowser::Opera => "Opera",
        SupportedBrowser::Edge => "Microsoft Edge",
        SupportedBrowser::Vivaldi => "Vivaldi",
    }
}

/// The name of the browser whose extension reports under a component.
pub fn browser_name_for_component(component: &str) -> (r: &'static str)
    ensures
        match spec_browser_for_component(component@) {
            Some(b) => r@ == spec_display_name(b),
            None => r@ == "Unknown browser"@,
        },
{
    match supported_browser_for_extension_component(component) {
        Some(browser) => browser_display_name(browser),
        None => "Unknown browser",
    }
}

/// How long, in seconds, a heartbeat of a component stays fresh: the
/// configured timeout, and at least 75 seconds for the Chromium family,
/// whose extensions report less often.
pub fn extension_heartbeat_timeout_for(configured_seconds: u64, component: &str) -> (r: u64)
    ensures
        r == if spec_browser_for_component(component@) matches Some(b)
            && !b.spec_is_firefox_based() {
            if configured_seconds < 75 {
                75
            } else {
                configured_seconds
            }
        } else {
            configured_seconds
        },
{
    match supported_browser_for_extension_component(component) {
        Some(browser) => {
            if browser.is_chromium_based() {
                if configured_seconds < 75 {
                    75
                } else {
                    configured_seconds
                }
            } else {
                configured_seconds
            }
        },
        None => configured_seconds,
    }
}

/// The supported browsers of the given processes, in order.
pub open spec fn running_browsers(processes: Seq<ProcessInfo>) -> Seq<SupportedBrowser>
    decreases processes.len(),
{
    if processes.len() == 0 {
        seq![]
    } else {
        running_browsers(processes.drop_last()) + match spec_supported_browser_for_process(
            processes.last(),
        ) {
            Some(b) => seq![b],
            None => seq![],
        }
    }
}

/// The supported browsers of the given processes, in order.
pub fn browsers_of_processes(processes: &[ProcessInfo]) -> (r: Vec<SupportedBrowser>)
    ensures
        r@ == running_browsers(processes@),
{
    let mut r: Vec<SupportedBrowser> = Vec::new();
    let mut i: usize = 0;
    while i < processes.len()
        invariant
            i <= processes@.len(),
            r@ == running_browsers(processes@.subrange(0, i as int)),
        decreases processes@.len() - i,
    {
        let ghost prefix = processes@.subrange(0, i + 1);
        assert(prefix.drop_last() =~= processes@.subrange(0, i as int));
        match supported_browser_for_process(&processes[i]) {
            Some(b) => {
                r.push(b);
                assert(r@ =~= running_browsers(prefix));
            },
            None => {
                assert(r@ =~= running_browsers(prefix));
            },
        }
        i = i + 1;
    }
    assert(processes@.subrange(0, processes@.len() as int) =~= processes@);
    r
}

/// Whether the browser of a heartbeat component is among the running
/// processes; an unknown component has no browser and is not running.
pub fn extension_browser_running(component: &str, processes: &[ProcessInfo]) -> (r: bool)
    ensures
        r == match spec_browser_for_component(component@) {
            Some(b) => running_browsers(processes@).contains(b),
            None => false,
        },
{
    match supported_browser_for_extension_component(component) {
        None => false,
        Some(browser) => {
            let running = browsers_of_processes(processes);
            let mut i: usize = 0;
            while i < running.len()
                invariant
                    i <= running@.len(),
                    running@ == running_browsers(processes@),
                    spec_browser_for_component(component@) == Some(browser),
                    forall|j: int| 0 <= j < i ==> running@[j] != browser,
                decreases running@.len() - i,
            {
                if running[i] == browser {
                    assert(running@[i as int] == browser);
                    return true;
                }
                i = i + 1;
            }
            false
        },
    }
}

/// The component under which a heartbeat is recorded, given the running
/// processes: a generic Chrome or Firefox report is attributed to the only
/// running browser of its family when there is exactly one.
pub open spec fn spec_resolve_component(
    reported: Seq<char>,
    processes: Seq<ProcessInfo>,
) -> Seq<char> {
    match spec_browser_for_component(reported) {
        Some(b) => if b is Chrome || b is Firefox {
            spec_infer_browser(b, running_browsers(processes)).spec_extension_component()
        } else {
            reported
        },
        None => reported,
    }
}

/// The component under which a heartbeat is recorded, given the running
/// processes.
pub fn resolve_extension_heartbeat_component(
    reported_component: &str,
    processes: &[ProcessInfo],
) -> (r: String)
    ensures
        r@ == spec_resolve_component(reported_component@, processes@),
{
    match supported_browser_for_extension_component(reported_component) {
        None => reported_component.to_string(),
        Some(reported) => {
            if !(reported == SupportedBrowser::Chrome || reported == SupportedBrowser::Firefox) {
                return reported_component.to_string();
            }
            let running = browsers_of_processes(processes);
            infer_browser_from_running_browsers(reported, running.as_slice())
                .extension_component()
                .to_string()
        },
    }
}

} // verus!
