use std::collections::HashMap;

use vstd::prelude::*;

use crate::daemon_error::DaemonError;
use crate::strings::{clone_opt_string, clone_strings};
use crate::text::{
    chars_of, join, join_chars, lines, lowercase_chars, parse_u32, parse_u32_chars, split_lines, string_views,
    split_whitespace, string_from_chars, to_ascii_lowercase, trim, trim_chars, views, words,
};

verus! {

/// What the daemon knows of a running process.
#[derive(Debug, Clone, PartialEq, Eq)]
pub struct ProcessInfo {
    pub pid: u32,
    pub executable_path: Option<String>,
    pub executable_basename: Option<String>,
    pub command_name: Option<String>,
    pub desktop_id: Option<String>,
    pub window_titles: Vec<String>,
}

/// A browser whose extension and policies the daemon manages.
#[derive(Debug, Clone, Copy, PartialEq, Eq, Hash, Structural)]
pub enum SupportedBrowser {
    Firefox,
    LibreWolf,
    Waterfox,
    Chrome,
    Chromium,
    Brave,
    Opera,
    Edge,
    Vivaldi,
}

/// A process that was signalled, with what was known of it.
#[derive(Debug, Clone, PartialEq, Eq)]
pub struct ProcessKillEvent {
    pub pid: u32,
    pub executable_path: Option<String>,
    pub executable_basename: Option<String>,
    pub command_name: Option<String>,
    pub desktop_id: Option<String>,
    pub window_titles: Vec<String>,
}

/// Stops a process. Implemented by callers: the daemon sends a signal, tests
/// record the call.
pub trait ProcessKiller {
    /// Whether `result` is a result this killer may give when asked to stop
    /// process `pid`. Whether a signal reaches a process is up to the
    /// system, so by default any result may come; a killer may say more.
    open spec fn may_return(&self, pid: u32, result: Result<(), DaemonError>) -> bool {
        true
    }

    fn kill(&self, pid: u32) -> (r: Result<(), DaemonError>)
        ensures
            self.may_return(pid, r),
    ;
}

/// Lists the titles of open windows by the process that owns them.
/// Implemented by callers.
pub trait WindowTitleProvider {
    /// Whether `listing` is a listing of window titles that this provider may
    /// give. What windows are open is up to the desktop, so by default any
    /// listing may come; a provider may say more.
    open spec fn may_list(&self, listing: Result<Map<u32, Vec<String>>, DaemonError>) -> bool {
        true
    }

    fn titles_by_pid(&self) -> (r: Result<HashMap<u32, Vec<String>>, DaemonError>)
        ensures
            self.may_list(
                match r {
                    Ok(m) => Ok(m@),
                    Err(e) => Err(e),
                },
            ),
    ;
}

/// Whether window titles can be read in the current session, and how.
#[derive(Debug, Clone, PartialEq, Eq)]
pub struct WindowTitleSupport {
    pub available: bool,
    pub provider: Option<String>,
    pub session_type: Option<String>,
    pub detail: String,
}

/// The window titles found in one pass, with what was known of the support.
#[derive(Debug, Clone)]
pub struct WindowTitleSnapshot {
    pub titles_by_pid: HashMap<u32, Vec<String>>,
    pub support: WindowTitleSupport,
}

impl SupportedBrowser {
    /// Whether the browser belongs to the Firefox family.
    pub open spec fn spec_is_firefox_based(self) -> bool {
        self is Firefox || self is LibreWolf || self is Waterfox
    }

    /// Whether the browser belongs to the Firefox family.
    pub fn is_firefox_based(self) -> (r: bool)
        ensures
            r == self.spec_is_firefox_based(),
    {
        match self {
            SupportedBrowser::Firefox | SupportedBrowser::LibreWolf | SupportedBrowser::Waterfox => {
                true
            },
            _ => false,
        }
    }

    /// Whether the browser belongs to the Chromium family.
    pub fn is_chromium_based(self) -> (r: bool)
        ensures
            r == !self.spec_is_firefox_based(),
    {
        !self.is_firefox_based()
    }

    /// The heartbeat component of the browser's extension.
    pub open spec fn spec_extension_component(self) -> Seq<char> {
        match self {
            SupportedBrowser::Firefox => "firefox_extension"@,
            SupportedBrowser::LibreWolf => "librewolf_extension"@,
            SupportedBrowser::Waterfox => "waterfox_extension"@,
            SupportedBrowser::Chrome => "chrome_extension"@,
            SupportedBrowser::Chromium => "chromium_extension"@,
            SupportedBrowser::Brave => "brave_extension"@,
            SupportedBrowser::Opera => "opera_extension"@,
            SupportedBrowser::Edge => "edge_extension"@,
            SupportedBrowser::Vivaldi => "vivaldi_extension"@,
        }
    }

    /// The heartbeat component of the browser's extension.
    pub fn extension_component(self) -> (r: &'static str)
        ensures
            r@ == self.spec_extension_component(),
    {
        match self {
            SupportedBrowser::Firefox => "firefox_extension",
            SupportedBrowser::LibreWolf => "librewolf_extension",
            SupportedBrowser::Waterfox => "waterfox_extension",
            SupportedBrowser::Chrome => "chrome_extension",
            SupportedBrowser::Chromium => "chromium_extension",
            SupportedBrowser::Brave => "brave_extension",
            SupportedBrowser::Opera => "opera_extension",
            SupportedBrowser::Edge => "edge_extension",
            SupportedBrowser::Vivaldi => "vivaldi_extension",
        }
    }

    /// The browser's key in reports and diagnostics.
    pub open spec fn spec_label(self) -> Seq<char> {
        match self {
            SupportedBrowser::Firefox => "firefox"@,
            SupportedBrowser::LibreWolf => "librewolf"@,
            SupportedBrowser::Waterfox => "waterfox"@,
            SupportedBrowser::Chrome => "chrome"@,
            SupportedBrowser::Chromium => "chromium"@,
            SupportedBrowser::Brave => "brave"@,
            SupportedBrowser::Opera => "opera"@,
            SupportedBrowser::Edge => "edge"@,
            SupportedBrowser::Vivaldi => "vivaldi"@,
        }
    }

    /// The browser's key in reports and diagnostics.
    pub fn label(self) -> (r: &'static str)
        ensures
            r@ == self.spec_label(),
    {
        match self {
            SupportedBrowser::Firefox => "firefox",
            SupportedBrowser::LibreWolf => "librewolf",
            SupportedBrowser::Waterfox => "waterfox",
            SupportedBrowser::Chrome => "chrome",
            SupportedBrowser::Chromium => "chromium",
            SupportedBrowser::Brave => "brave",
            SupportedBrowser::Opera => "opera",
            SupportedBrowser::Edge => "edge",
            SupportedBrowser::Vivaldi => "vivaldi",
        }
    }

    /// Every managed browser, Firefox family first.
    pub open spec fn spec_managed() -> Seq<SupportedBrowser> {
        seq![
            SupportedBrowser::Firefox,
            SupportedBrowser::LibreWolf,
            SupportedBrowser::Waterfox,
            SupportedBrowser::Chrome,
            SupportedBrowser::Chromium,
            SupportedBrowser::Brave,
            SupportedBrowser::Opera,
            SupportedBrowser::Edge,
            SupportedBrowser::Vivaldi,
        ]
    }

    /// Every managed browser, Firefox family first.
    pub fn managed() -> (r: Vec<SupportedBrowser>)
        ensures
            r@ == Self::spec_managed(),
    {
        let mut r: Vec<SupportedBrowser> = Vec::new();
        r.push(SupportedBrowser::Firefox);
        r.push(SupportedBrowser::LibreWolf);
        r.push(SupportedBrowser::Waterfox);
        r.push(SupportedBrowser::Chrome);
        r.push(SupportedBrowser::Chromium);
        r.push(SupportedBrowser::Brave);
        r.push(SupportedBrowser::Opera);
        r.push(SupportedBrowser::Edge);
        r.push(SupportedBrowser::Vivaldi);
        assert(r@ =~= Self::spec_managed());
        r
    }

    /// The service-state key that records since when the browser's extension
    /// has been missing.
    pub open spec fn spec_missing_since_key(self) -> Seq<char> {
        match self {
            SupportedBrowser::Firefox => "strict_mode.firefox_missing_since"@,
            SupportedBrowser::LibreWolf => "strict_mode.librewolf_missing_since"@,
            SupportedBrowser::Waterfox => "strict_mode.waterfox_missing_since"@,
            SupportedBrowser::Chrome => "strict_mode.chrome_missing_since"@,
            SupportedBrowser::Chromium => "strict_mode.chromium_missing_since"@,
            SupportedBrowser::Brave => "strict_mode.brave_missing_since"@,
            SupportedBrowser::Opera => "strict_mode.opera_missing_since"@,
            SupportedBrowser::Edge => "strict_mode.edge_missing_since"@,
            SupportedBrowser::Vivaldi => "strict_mode.vivaldi_missing_since"@,
        }
    }

    /// The service-state key that records since when the browser's extension
    /// has been missing.
    pub fn missing_since_key(self) -> (r: &'static str)
        ensures
            r@ == self.spec_missing_since_key(),
    {
        match self {
            SupportedBrowser::Firefox => "strict_mode.firefox_missing_since",
            SupportedBrowser::LibreWolf => "strict_mode.librewolf_missing_since",
            SupportedBrowser::Waterfox => "strict_mode.waterfox_missing_since",
            SupportedBrowser::Chrome => "strict_mode.chrome_missing_since",
            SupportedBrowser::Chromium => "strict_mode.chromium_missing_since",
            SupportedBrowser::Brave => "strict_mode.brave_missing_since",
            SupportedBrowser::Opera => "strict_mode.opera_missing_since",
            SupportedBrowser::Edge => "strict_mode.edge_missing_since",
            SupportedBrowser::Vivaldi => "strict_mode.vivaldi_missing_since",
        }
    }

    /// The service-state key that records when the current browser session
    /// started.
    pub open spec fn spec_session_started_at_key(self) -> Seq<char> {
        match self {
            SupportedBrowser::Firefox => "strict_mode.firefox_browser_session_started_at"@,
            SupportedBrowser::LibreWolf => "strict_mode.librewolf_browser_session_started_at"@,
            SupportedBrowser::Waterfox => "strict_mode.waterfox_browser_session_started_at"@,
            SupportedBrowser::Chrome => "strict_mode.chrome_browser_session_started_at"@,
            SupportedBrowser::Chromium => "strict_mode.chromium_browser_session_started_at"@,
            SupportedBrowser::Brave => "strict_mode.brave_browser_session_started_at"@,
            SupportedBrowser::Opera => "strict_mode.opera_browser_session_started_at"@,
            SupportedBrowser::Edge => "strict_mode.edge_browser_session_started_at"@,
            SupportedBrowser::Vivaldi => "strict_mode.vivaldi_browser_session_started_at"@,
        }
    }

    /// The service-state key that records when the current browser session
    /// started.
    pub fn session_started_at_key(self) -> (r: &'static str)
        ensures
            r@ == self.spec_session_started_at_key(),
    {
        match self {
            SupportedBrowser::Firefox => "strict_mode.firefox_browser_session_started_at",
            SupportedBrowser::LibreWolf => "strict_mode.librewolf_browser_session_started_at",
            SupportedBrowser::Waterfox => "strict_mode.waterfox_browser_session_started_at",
            SupportedBrowser::Chrome => "strict_mode.chrome_browser_session_started_at",
            SupportedBrowser::Chromium => "strict_mode.chromium_browser_session_started_at",
            SupportedBrowser::Brave => "strict_mode.brave_browser_session_started_at",
            SupportedBrowser::Opera => "strict_mode.opera_browser_session_started_at",
            SupportedBrowser::Edge => "strict_mode.edge_browser_session_started_at",
            SupportedBrowser::Vivaldi => "strict_mode.vivaldi_browser_session_started_at",
        }
    }
}

} // verus!

verus! {

/// The event recorded when process `p` is stopped.
pub open spec fn kill_event_of(p: ProcessInfo) -> ProcessKillEvent {
    ProcessKillEvent {
        pid: p.pid,
        executable_path: p.executable_path,
        executable_basename: p.executable_basename,
        command_name: p.command_name,
        desktop_id: p.desktop_id,
        window_titles: p.window_titles,
    }
}

/// The events for the processes whose pid is blocked, in process order.
pub open spec fn spec_kill_events(processes: Seq<ProcessInfo>, blocked: Seq<u32>) -> Seq<
    ProcessKillEvent,
>
    decreases processes.len(),
{
    if processes.len() == 0 {
        seq![]
    } else {
        spec_kill_events(processes.drop_last(), blocked) + if blocked.contains(
            processes.last().pid,
        ) {
            seq![kill_event_of(processes.last())]
        } else {
            seq![]
        }
    }
}

/// Whether two events agree field by field, the titles by their contents.
pub open spec fn same_event(a: ProcessKillEvent, b: ProcessKillEvent) -> bool {
    a.pid == b.pid && a.executable_path == b.executable_path && a.executable_basename
        == b.executable_basename && a.command_name == b.command_name && a.desktop_id
        == b.desktop_id && a.window_titles@ == b.window_titles@
}

/// Whether two lists of events agree element by element.
pub open spec fn same_events(a: Seq<ProcessKillEvent>, b: Seq<ProcessKillEvent>) -> bool {
    a.len() == b.len() && forall|i: int| 0 <= i < a.len() ==> same_event(#[trigger] a[i], b[i])
}

/// Whether `pid` occurs in `pids`.
pub fn contains_pid(pids: &[u32], pid: u32) -> (r: bool)
    ensures
        r == pids@.contains(pid),
{
    let mut i: usize = 0;
    while i < pids.len()
        invariant
            i <= pids@.len(),
            forall|j: int| 0 <= j < i ==> pids@[j] != pid,
        decreases pids@.len() - i,
    {
        if pids[i] == pid {
            assert(pids@[i as int] == pid);
            return true;
        }
        i = i + 1;
    }
    false
}

/// The events of the first processes are the first events of all of them.
proof fn lemma_kill_events_prefix(processes: Seq<ProcessInfo>, blocked: Seq<u32>, j: int)
    requires
        0 <= j <= processes.len(),
    ensures
        spec_kill_events(processes.subrange(0, j), blocked).len() <= spec_kill_events(
            processes,
            blocked,
        ).len(),
        forall|k: int|
            0 <= k < spec_kill_events(processes.subrange(0, j), blocked).len() ==> spec_kill_events(
                processes,
                blocked,
            )[k] == #[trigger] spec_kill_events(processes.subrange(0, j), blocked)[k],
    decreases processes.len() - j,
{
    if j < processes.len() {
        lemma_kill_events_prefix(processes, blocked, j + 1);
        let shorter = processes.subrange(0, j);
        let longer = processes.subrange(0, j + 1);
        assert(longer.drop_last() =~= shorter);
        let a = spec_kill_events(shorter, blocked);
        let b = spec_kill_events(longer, blocked);
        assert(b == a + if blocked.contains(longer.last().pid) {
            seq![kill_event_of(longer.last())]
        } else {
            seq![]
        });
        assert forall|k: int| 0 <= k < a.len() implies spec_kill_events(processes, blocked)[k]
            == #[trigger] a[k] by {
            assert(b[k] == a[k]);
        }
    } else {
        assert(processes.subrange(0, j) =~= processes);
    }
}

/// Whether `results` are the results the killer gave, in order, for the
/// first blocked processes: each one a result it may give for that pid, all
/// but the last a success.
pub open spec fn kill_results_fit<K: ProcessKiller>(
    killer: K,
    processes: Seq<ProcessInfo>,
    blocked: Seq<u32>,
    results: Seq<Result<(), DaemonError>>,
) -> bool {
    &&& results.len() <= spec_kill_events(processes, blocked).len()
    &&& forall|k: int|
        0 <= k < results.len() ==> killer.may_return(
            spec_kill_events(processes, blocked)[k].pid,
            #[trigger] results[k],
        )
    &&& forall|k: int| 0 <= k < results.len() - 1 ==> (#[trigger] results[k]) is Ok
}

/// Stops every listed process whose pid is blocked, in the order of the list,
/// and returns one event for each; stops at the first failure of the killer
/// and returns it. The killer is asked to stop each blocked pid in order, up
/// to the first failure; the result is `Ok` exactly when every one of those
/// requests succeeded.
pub fn kill_processes<K: ProcessKiller>(
    processes: &[ProcessInfo],
    blocked_pids: &[u32],
    killer: &K,
) -> (r: Result<Vec<ProcessKillEvent>, DaemonError>)
    ensures
        exists|results: Seq<Result<(), DaemonError>>|
            kill_results_fit(*killer, processes@, blocked_pids@, results) && match r {
                Ok(events) => results.len() == spec_kill_events(processes@, blocked_pids@).len()
                    && (forall|k: int| 0 <= k < results.len() ==> (#[trigger] results[k]) is Ok)
                    && same_events(events@, spec_kill_events(processes@, blocked_pids@)),
                Err(e) => results.len() > 0 && results.last() == Err::<(), DaemonError>(e),
            },
        (forall|i: int|
            0 <= i < processes@.len() ==> !blocked_pids@.contains(#[trigger] processes@[i].pid))
            ==> (r matches Ok(events) && events@.len() == 0),
{
    let mut events: Vec<ProcessKillEvent> = Vec::new();
    let ghost mut results: Seq<Result<(), DaemonError>> = Seq::empty();
    let mut i: usize = 0;
    while i < processes.len()
        invariant
            i <= processes@.len(),
            same_events(events@, spec_kill_events(processes@.subrange(0, i as int), blocked_pids@)),
            results.len() == events@.len(),
            forall|k: int| 0 <= k < results.len() ==> (#[trigger] results[k]) is Ok,
            forall|k: int|
                0 <= k < results.len() ==> killer.may_return(
                    spec_kill_events(processes@.subrange(0, i as int), blocked_pids@)[k].pid,
                    #[trigger] results[k],
                ),
            (forall|k: int|
                0 <= k < processes@.len() ==> !blocked_pids@.contains(
                    #[trigger] processes@[k].pid,
                )) ==> events@.len() == 0,
        decreases processes@.len() - i,
    {
        let process = &processes[i];
        let ghost prefix = processes@.subrange(0, i + 1);
        let ghost earlier = processes@.subrange(0, i as int);
        assert(prefix.drop_last() =~= earlier);
        assert(prefix.last() == processes@[i as int]);
        if !contains_pid(blocked_pids, process.pid) {
            assert(spec_kill_events(prefix, blocked_pids@) =~= spec_kill_events(earlier, blocked_pids@));
            i = i + 1;
            continue;
        }
        assert(spec_kill_events(prefix, blocked_pids@) =~= spec_kill_events(earlier, blocked_pids@)
            + seq![kill_event_of(processes@[i as int])]);
        let outcome = killer.kill(process.pid);
        let ghost got = outcome;
        let ghost n = results.len();
        assert(spec_kill_events(prefix, blocked_pids@)[n as int].pid == process.pid);
        match outcome {
            Err(e) => {
                proof {
                    let all = spec_kill_events(processes@, blocked_pids@);
                    lemma_kill_events_prefix(processes@, blocked_pids@, i + 1);
                    assert(spec_kill_events(prefix, blocked_pids@).len() == n + 1);
                    assert(all[n as int] == spec_kill_events(prefix, blocked_pids@)[n as int]);
                    let old_results = results;
                    assert(got == Err::<(), DaemonError>(e));
                    results = results.push(Err(e));
                    assert forall|k: int| 0 <= k < results.len() implies killer.may_return(
                        all[k].pid,
                        #[trigger] results[k],
                    ) by {
                        if k < n {
                            assert(results[k] == old_results[k]);
                            assert(spec_kill_events(prefix, blocked_pids@)[k] == spec_kill_events(
                                earlier,
                                blocked_pids@,
                            )[k]);
                            assert(all[k] == spec_kill_events(prefix, blocked_pids@)[k]);
                        }
                    }
                    assert forall|k: int| 0 <= k < results.len() - 1 implies (#[trigger] results[k]) is Ok by {
                        assert(results[k] == old_results[k]);
                    }
                    assert(kill_results_fit(*killer, processes@, blocked_pids@, results));
                }
                return Err(e);
            },
            Ok(()) => {
                assert(got is Ok);
            },
        }
        let event = ProcessKillEvent {
            pid: process.pid,
            executable_path: clone_opt_string(&process.executable_path),
            executable_basename: clone_opt_string(&process.executable_basename),
            command_name: clone_opt_string(&process.command_name),
            desktop_id: clone_opt_string(&process.desktop_id),
            window_titles: clone_strings(&process.window_titles),
        };
        let ghost before = events@;
        let ghost old_results = results;
        events.push(event);
        proof {
            results = results.push(got);
            assert forall|k: int| 0 <= k < results.len() implies killer.may_return(
                spec_kill_events(prefix, blocked_pids@)[k].pid,
                #[trigger] results[k],
            ) by {
                if k < n {
                    assert(results[k] == old_results[k]);
                    assert(spec_kill_events(prefix, blocked_pids@)[k] == spec_kill_events(
                        earlier,
                        blocked_pids@,
                    )[k]);
                }
            }
            assert forall|k: int| 0 <= k < results.len() implies (#[trigger] results[k]) is Ok by {
                if k < n {
                    assert(results[k] == old_results[k]);
                }
            }
        }
        assert(same_events(events@, spec_kill_events(prefix, blocked_pids@))) by {
            assert forall|k: int| 0 <= k < events@.len() implies same_event(
                #[trigger] events@[k],
                spec_kill_events(prefix, blocked_pids@)[k],
            ) by {
                if k < before.len() {
                    assert(events@[k] == before[k]);
                }
            }
        }
        i = i + 1;
    }
    assert(processes@.subrange(0, processes@.len() as int) =~= processes@);
    proof {
        assert(kill_results_fit(*killer, processes@, blocked_pids@, results));
    }
    Ok(events)
}

/// Whether `new` is `old` with its window titles replaced by those that
/// `titles` holds for its pid, if it holds any.
pub open spec fn titles_merged(
    old: ProcessInfo,
    new: ProcessInfo,
    titles: Map<u32, Vec<String>>,
) -> bool {
    &&& new.pid == old.pid
    &&& new.executable_path == old.executable_path
    &&& new.executable_basename == old.executable_basename
    &&& new.command_name == old.command_name
    &&& new.desktop_id == old.desktop_id
    &&& new.window_titles@ == if titles.contains_key(old.pid) {
        titles[old.pid]@
    } else {
        old.window_titles@
    }
}

/// Whether each process of `new` is the process of `old` at the same place
/// with the titles of `titles` merged in.
pub open spec fn all_titles_merged(
    old: Seq<ProcessInfo>,
    new: Seq<ProcessInfo>,
    titles: Map<u32, Vec<String>>,
) -> bool {
    old.len() == new.len() && forall|i: int|
        0 <= i < old.len() ==> titles_merged(#[trigger] old[i], new[i], titles)
}

/// Gives each process the window titles that `titles_by_pid` lists for its
/// pid, leaving the others as they are.
pub fn merge_titles_into_processes(
    processes: &mut Vec<ProcessInfo>,
    titles_by_pid: &HashMap<u32, Vec<String>>,
)
    ensures
        all_titles_merged(old(processes)@, final(processes)@, titles_by_pid@),
{
    broadcast use vstd::std_specs::hash::group_hash_axioms;

    let ghost start = processes@;
    let mut i: usize = 0;
    while i < processes.len()
        invariant
            i <= processes@.len(),
            processes@.len() == start.len(),
            forall|k: int| 0 <= k < i ==> titles_merged(#[trigger] start[k], processes@[k], titles_by_pid@),
            forall|k: int| i <= k < start.len() ==> #[trigger] processes@[k] == start[k],
        decreases start.len() - i,
    {
        let pid = processes[i].pid;
        match titles_by_pid.get(&pid) {
            Some(found) => {
                let titles = clone_strings(found);
                let mut process = ProcessInfo {
                    pid: 0,
                    executable_path: None,
                    executable_basename: None,
                    command_name: None,
                    desktop_id: None,
                    window_titles: Vec::new(),
                };
                processes.set_and_swap(i, &mut process);
                process.window_titles = titles;
                processes.set(i, process);
            },
            None => {},
        }
        i = i + 1;
    }
}

/// Asks `provider` for the window titles and gives each process those of its
/// pid. When the provider fails, the processes are left unchanged and the
/// failure is returned.
pub fn attach_window_titles<P: WindowTitleProvider>(
    processes: &mut Vec<ProcessInfo>,
    provider: &P,
) -> (r: Result<(), DaemonError>)
    ensures
        exists|listing: Result<Map<u32, Vec<String>>, DaemonError>|
            provider.may_list(listing) && match listing {
                Ok(titles) => r is Ok && all_titles_merged(old(processes)@, final(processes)@, titles),
                Err(e) => r == Err::<(), DaemonError>(e) && final(processes)@ == old(processes)@,
            },
{
    let titles = provider.titles_by_pid()?;
    merge_titles_into_processes(processes, &titles);
    Ok(())
}

} // verus!

verus! {


/// The views of a sequence of string slices.
pub open spec fn str_views(v: Seq<&str>) -> Seq<Seq<char>> {
    v.map_values(|s: &str| s@)
}

/// Whether `value`, trimmed and made ASCII lower-case, is one of `expected`.
pub open spec fn spec_matches_normalized(value: Seq<char>, expected: Seq<Seq<char>>) -> bool {
    expected.contains(to_ascii_lowercase(trim(value)))
}

/// Whether `value`, trimmed and made ASCII lower-case, is one of the expected
/// values.
pub fn matches_normalized(value: &str, expected_values: &[&str]) -> (r: bool)
    ensures
        r == spec_matches_normalized(value@, str_views(expected_values@)),
{
    let chars = chars_of(value);
    let trimmed = trim_chars(chars.as_slice());
    let normalized = lowercase_chars(trimmed.as_slice());
    let mut i: usize = 0;
    while i < expected_values.len()
        invariant
            i <= expected_values@.len(),
            normalized@ == to_ascii_lowercase(trim(value@)),
            forall|j: int| 0 <= j < i ==> expected_values@[j]@ != normalized@,
        decreases expected_values@.len() - i,
    {
        let expected = chars_of(expected_values[i]);
        if crate::strings::chars_equal(normalized.as_slice(), expected.as_slice()) {
            assert(str_views(expected_values@)[i as int] == normalized@);
            return true;
        }
        i = i + 1;
    }
    assert forall|j: int| 0 <= j < str_views(expected_values@).len() implies str_views(
        expected_values@,
    )[j] != normalized@ by {
        assert(str_views(expected_values@)[j] == expected_values@[j]@);
    }
    false
}

/// Whether an optional name, normalized, is one of `expected`.
pub open spec fn opt_name_matches(name: Option<String>, expected: Seq<Seq<char>>) -> bool {
    name matches Some(s) && spec_matches_normalized(s@, expected)
}

/// Whether one of the names of the process, normalized, is one of `expected`.
pub open spec fn process_name_matches(p: ProcessInfo, expected: Seq<Seq<char>>) -> bool {
    opt_name_matches(p.executable_basename, expected) || opt_name_matches(
        p.command_name,
        expected,
    ) || opt_name_matches(p.desktop_id, expected)
}

/// The names under which Firefox runs.
pub open spec fn firefox_names() -> Seq<Seq<char>> {
    seq![
        "firefox"@,
        "firefox-esr"@,
        "firefox-bin"@,
        "firefox.desktop"@,
        "org.mozilla.firefox.desktop"@,
    ]
}

/// The names under which Chrome runs.
pub open spec fn chrome_names() -> Seq<Seq<char>> {
    seq![
        "chrome"@,
        "google-chrome"@,
        "google-chrome-stable"@,
        "google-chrome-beta"@,
        "google-chrome-unstable"@,
        "google-chrome.desktop"@,
        "com.google.chrome.desktop"@,
    ]
}

/// The names under which LibreWolf runs.
pub open spec fn librewolf_names() -> Seq<Seq<char>> {
    seq![
        "librewolf"@,
        "librewolf.desktop"@,
        "io.gitlab.librewolf-community.desktop"@,
    ]
}

/// The names under which Waterfox runs.
pub open spec fn waterfox_names() -> Seq<Seq<char>> {
    seq![
        "waterfox"@,
        "waterfox.desktop"@,
        "net.waterfox.waterfox.desktop"@,
    ]
}

/// The names under which Chromium runs.
pub open spec fn chromium_names() -> Seq<Seq<char>> {
    seq![
        "chromium"@,
        "chromium-browser"@,
        "chromium.desktop"@,
        "chromium-browser.desktop"@,
        "chromium_chromium.desktop"@,
        "org.chromium.chromium.desktop"@,
    ]
}

/// The names under which Brave runs.
pub open spec fn brave_names() -> Seq<Seq<char>> {
    seq![
        "brave"@,
        "brave-browser"@,
        "brave-browser.desktop"@,
        "com.brave.browser.desktop"@,
    ]
}

/// The names under which Opera runs.
pub open spec fn opera_names() -> Seq<Seq<char>> {
    seq![
        "opera"@,
        "opera.desktop"@,
        "com.opera.opera.desktop"@,
    ]
}

/// The names under which Edge runs.
pub open spec fn edge_names() -> Seq<Seq<char>> {
    seq![
        "microsoft-edge"@,
        "microsoft-edge-stable"@,
        "msedge"@,
        "microsoft-edge.desktop"@,
        "com.microsoft.edge.desktop"@,
    ]
}

/// The names under which Vivaldi runs.
pub open spec fn vivaldi_names() -> Seq<Seq<char>> {
    seq![
        "vivaldi"@,
        "vivaldi-bin"@,
        "vivaldi-stable"@,
        "vivaldi-stable.desktop"@,
        "com.vivaldi.vivaldi.desktop"@,
    ]
}

/// Whether a process runs from the Chromium snap, whatever its names say.
pub open spec fn from_chromium_snap(p: ProcessInfo) -> bool {
    p.executable_path matches Some(path) && crate::text::has_prefix(path@, "/snap/chromium/"@)
}

/// The supported browser that a process is, recognised by its executable,
/// command or desktop name (the Chromium snap also by its executable's
/// path): the Firefox family first, then Chromium's snap, then the other
/// Chromium-family browsers, Chrome last.
pub open spec fn spec_supported_browser_for_process(p: ProcessInfo) -> Option<SupportedBrowser> {
    if process_name_matches(p, firefox_names()) {
        Some(SupportedBrowser::Firefox)
    } else if process_name_matches(p, librewolf_names()) {
        Some(SupportedBrowser::LibreWolf)
    } else if process_name_matches(p, waterfox_names()) {
        Some(SupportedBrowser::Waterfox)
    } else if from_chromium_snap(p) || process_name_matches(p, chromium_names()) {
        Some(SupportedBrowser::Chromium)
    } else if process_name_matches(p, brave_names()) {
        Some(SupportedBrowser::Brave)
    } else if process_name_matches(p, opera_names()) {
        Some(SupportedBrowser::Opera)
    } else if process_name_matches(p, edge_names()) {
        Some(SupportedBrowser::Edge)
    } else if process_name_matches(p, vivaldi_names()) {
        Some(SupportedBrowser::Vivaldi)
    } else if process_name_matches(p, chrome_names()) {
        Some(SupportedBrowser::Chrome)
    } else {
        None
    }
}

fn opt_matches(name: &Option<String>, expected_values: &[&str]) -> (r: bool)
    ensures
        r == opt_name_matches(*name, str_views(expected_values@)),
{
    match name {
        Some(s) => matches_normalized(s.as_str(), expected_values),
        None => false,
    }
}

fn any_name_matches(process: &ProcessInfo, expected_values: &[&str]) -> (r: bool)
    ensures
        r == process_name_matches(*process, str_views(expected_values@)),
{
    opt_matches(&process.executable_basename, expected_values) || opt_matches(
        &process.command_name,
        expected_values,
    ) || opt_matches(&process.desktop_id, expected_values)
}

/// The supported browser that a process is, if any.
pub fn supported_browser_for_process(process: &ProcessInfo) -> (r: Option<SupportedBrowser>)
    ensures
        r == spec_supported_browser_for_process(*process),
{
    let firefox: [&str; 5] = [
        "firefox",
        "firefox-esr",
        "firefox-bin",
        "firefox.desktop",
        "org.mozilla.firefox.desktop",
    ];
    assert(str_views(firefox@) =~= firefox_names());
    if any_name_matches(process, &firefox) {
        return Some(SupportedBrowser::Firefox);
    }
    let librewolf: [&str; 3] = [
        "librewolf",
        "librewolf.desktop",
        "io.gitlab.librewolf-community.desktop",
    ];
    assert(str_views(librewolf@) =~= librewolf_names());
    if any_name_matches(process, &librewolf) {
        return Some(SupportedBrowser::LibreWolf);
    }
    let waterfox: [&str; 3] = [
        "waterfox",
        "waterfox.desktop",
        "net.waterfox.waterfox.desktop",
    ];
    assert(str_views(waterfox@) =~= waterfox_names());
    if any_name_matches(process, &waterfox) {
        return Some(SupportedBrowser::Waterfox);
    }
    let snap = match &process.executable_path {
        Some(path) => {
            let prefix = chars_of("/snap/chromium/");
            crate::text::strip_prefix_chars(chars_of(path.as_str()).as_slice(), prefix.as_slice()).is_some()
        },
        None => false,
    };
    let chromium: [&str; 6] = [
        "chromium",
        "chromium-browser",
        "chromium.desktop",
        "chromium-browser.desktop",
        "chromium_chromium.desktop",
        "org.chromium.chromium.desktop",
    ];
    assert(str_views(chromium@) =~= chromium_names());
    if snap || any_name_matches(process, &chromium) {
        return Some(SupportedBrowser::Chromium);
    }
    let brave: [&str; 4] = [
        "brave",
        "brave-browser",
        "brave-browser.desktop",
        "com.brave.browser.desktop",
    ];
    assert(str_views(brave@) =~= brave_names());
    if any_name_matches(process, &brave) {
        return Some(SupportedBrowser::Brave);
    }
    let opera: [&str; 3] = [
        "opera",
        "opera.desktop",
        "com.opera.opera.desktop",
    ];
    assert(str_views(opera@) =~= opera_names());
    if any_name_matches(process, &opera) {
        return Some(SupportedBrowser::Opera);
    }
    let edge: [&str; 5] = [
        "microsoft-edge",
        "microsoft-edge-stable",
        "msedge",
        "microsoft-edge.desktop",
        "com.microsoft.edge.desktop",
    ];
    assert(str_views(edge@) =~= edge_names());
    if any_name_matches(process, &edge) {
        return Some(SupportedBrowser::Edge);
    }
    let vivaldi: [&str; 5] = [
        "vivaldi",
        "vivaldi-bin",
        "vivaldi-stable",
        "vivaldi-stable.desktop",
        "com.vivaldi.vivaldi.desktop",
    ];
    assert(str_views(vivaldi@) =~= vivaldi_names());
    if any_name_matches(process, &vivaldi) {
        return Some(SupportedBrowser::Vivaldi);
    }
    let chrome: [&str; 7] = [
        "chrome",
        "google-chrome",
        "google-chrome-stable",
        "google-chrome-beta",
        "google-chrome-unstable",
        "google-chrome.desktop",
        "com.google.chrome.desktop",
    ];
    assert(str_views(chrome@) =~= chrome_names());
    if any_name_matches(process, &chrome) {
        return Some(SupportedBrowser::Chrome);
    }
    None
}

} // verus!

verus! {

/// What one line of `wmctrl -lp` contributes: the pid in its third column and
/// the title from its fifth column on, when there are at least five columns,
/// the pid is a nonzero number and the title is not blank.
pub open spec fn wmctrl_entry(line: Seq<char>) -> Option<(u32, Seq<char>)> {
    let parts = words(line);
    if parts.len() < 5 {
        None
    } else {
        match parse_u32(parts[2]) {
            None => None,
            Some(pid) => {
                let title = join(parts.skip(4), " "@);
                if pid == 0 || trim(title).len() == 0 {
                    None
                } else {
                    Some((pid, title))
                }
            },
        }
    }
}

/// The titles of the given lines, listed by pid in the order of the lines.
pub open spec fn wmctrl_titles(ls: Seq<Seq<char>>) -> Map<u32, Seq<Seq<char>>>
    decreases ls.len(),
{
    if ls.len() == 0 {
        Map::empty()
    } else {
        let m = wmctrl_titles(ls.drop_last());
        match wmctrl_entry(ls.last()) {
            None => m,
            Some((pid, title)) => m.insert(
                pid,
                (if m.contains_key(pid) {
                    m[pid]
                } else {
                    seq![]
                }).push(title),
            ),
        }
    }
}

/// Whether a map of title lists holds exactly the titles of `s`.
pub open spec fn same_titles(m: Map<u32, Vec<String>>, s: Map<u32, Seq<Seq<char>>>) -> bool {
    m.dom() == s.dom() && forall|pid: u32| #[trigger]
        m.contains_key(pid) ==> string_views(m[pid]@) == s[pid]
}

fn wmctrl_entry_of(line: &[char]) -> (r: Option<(u32, Vec<char>)>)
    ensures
        match wmctrl_entry(line@) {
            None => r is None,
            Some((pid, title)) => r matches Some((p, t)) && p == pid && t@ == title,
        },
{
    let parts = split_whitespace(line);
    if parts.len() < 5 {
        return None;
    }
    let pid = match parse_u32_chars(parts[2].as_slice()) {
        Some(pid) => pid,
        None => return None,
    };
    let mut rest: Vec<Vec<char>> = Vec::new();
    let mut i: usize = 4;
    while i < parts.len()
        invariant
            4 <= i <= parts@.len(),
            views(rest@) =~= views(parts@).subrange(4, i as int),
        decreases parts@.len() - i,
    {
        let ghost before = views(rest@);
        rest.push(parts[i].clone());
        assert(views(rest@) =~= before.push(parts@[i as int]@));
        i = i + 1;
    }
    assert(views(parts@).skip(4) =~= views(rest@));
    let mut space: Vec<char> = Vec::new();
    space.push(' ');
    proof {
        reveal_strlit(" ");
    }
    assert(space@ =~= " "@);
    let title = join_chars(rest.as_slice(), space.as_slice());
    if pid == 0 {
        return None;
    }
    let trimmed = trim_chars(title.as_slice());
    if trimmed.len() == 0 {
        return None;
    }
    Some((pid, title))
}

/// Reads the output of `wmctrl -lp` into the window titles of each pid.
pub fn parse_wmctrl_titles(output: &str) -> (r: HashMap<u32, Vec<String>>)
    ensures
        same_titles(r@, wmctrl_titles(lines(output@))),
{
    broadcast use vstd::std_specs::hash::group_hash_axioms;

    let chars = chars_of(output);
    let ls = split_lines(chars.as_slice());
    let ghost all = views(ls@);
    let mut titles: HashMap<u32, Vec<String>> = HashMap::new();
    let mut i: usize = 0;
    assert(all.subrange(0, 0) =~= Seq::<Seq<char>>::empty());
    while i < ls.len()
        invariant
            i <= ls@.len(),
            all == views(ls@),
            same_titles(titles@, wmctrl_titles(all.subrange(0, i as int))),
        decreases ls@.len() - i,
    {
        let ghost prefix = all.subrange(0, i + 1);
        assert(prefix.drop_last() =~= all.subrange(0, i as int));
        assert(prefix.last() == ls@[i as int]@);
        match wmctrl_entry_of(ls[i].as_slice()) {
            None => {},
            Some((pid, title)) => {
                let ghost m = wmctrl_titles(all.subrange(0, i as int));
                let title = string_from_chars(title.as_slice());
                match titles.remove(&pid) {
                    Some(mut list) => {
                        let ghost old_list = list@;
                        list.push(title);
                        assert(string_views(list@) =~= string_views(old_list).push(title@));
                        titles.insert(pid, list);
                    },
                    None => {
                        let mut list: Vec<String> = Vec::new();
                        list.push(title);
                        assert(string_views(list@) =~= seq![title@]);
                        titles.insert(pid, list);
                    },
                }
                assert(titles@.dom() =~= wmctrl_titles(prefix).dom());
            },
        }
        i = i + 1;
    }
    assert(all.subrange(0, ls@.len() as int) =~= all);
    titles
}

/// How window titles can be read, given the session type that the
/// environment reports: only on X11, through wmctrl.
pub open spec fn spec_window_title_support_available(session_type: Option<String>) -> bool {
    session_type matches Some(s) && s@ == "x11"@
}

/// The session type, kept only when it is not blank.
pub open spec fn spec_session_type(raw: Option<String>) -> Option<String> {
    match raw {
        Some(s) => if trim(s@).len() == 0 {
            None
        } else {
            Some(s)
        },
        None => None,
    }
}

/// What the daemon reports of window-title support for a session type taken
/// from the environment.
pub fn window_title_support(raw_session_type: Option<String>) -> (r: WindowTitleSupport)
    ensures
        r.session_type == spec_session_type(raw_session_type),
        r.available == spec_window_title_support_available(r.session_type),
        r.available ==> (r.provider matches Some(p) && p@ == "wmctrl"@),
        !r.available ==> r.provider is None,
        r.available ==> r.detail@ == "Open windows uses wmctrl and is only supported on X11."@,
        !r.available ==> r.detail@
            == "Open windows is unavailable in this session. BlocKuntu only supports window-based filtering on X11 via wmctrl."@,
{
    let session_type = match raw_session_type {
        Some(s) => {
            let chars = chars_of(s.as_str());
            if trim_chars(chars.as_slice()).len() == 0 {
                None
            } else {
                Some(s)
            }
        },
        None => None,
    };
    let available = match &session_type {
        Some(s) => crate::strings::str_equal(s.as_str(), "x11"),
        None => false,
    };
    if available {
        WindowTitleSupport {
            available,
            provider: Some("wmctrl".to_string()),
            session_type,
            detail: "Open windows uses wmctrl and is only supported on X11.".to_string(),
        }
    } else {
        WindowTitleSupport {
            available,
            provider: None,
            session_type,
            detail: "Open windows is unavailable in this session. BlocKuntu only supports window-based filtering on X11 via wmctrl.".to_string(),
        }
    }
}

/// Reads window titles through `provider` when the session supports it (a
/// failure of the provider counts as no titles), gives each process the
/// titles of its pid, and returns what was found.
pub fn attach_detected_window_titles<P: WindowTitleProvider>(
    processes: &mut Vec<ProcessInfo>,
    raw_session_type: Option<String>,
    provider: &P,
) -> (r: WindowTitleSnapshot)
    ensures
        r.support.session_type == spec_session_type(raw_session_type),
        r.support.available == spec_window_title_support_available(r.support.session_type),
        !r.support.available ==> r.titles_by_pid@.len() == 0,
        all_titles_merged(old(processes)@, final(processes)@, r.titles_by_pid@),
{
    let support = window_title_support(raw_session_type);
    let titles_by_pid = if support.available {
        match provider.titles_by_pid() {
            Ok(titles) => titles,
            Err(_) => HashMap::new(),
        }
    } else {
        HashMap::new()
    };
    merge_titles_into_processes(processes, &titles_by_pid);
    WindowTitleSnapshot { titles_by_pid, support }
}

/// The desktop id of a process: from its environment, else from its
/// command line.
pub open spec fn spec_process_desktop_id(environ: Option<Seq<u8>>, cmdline: Option<Seq<u8>>) -> Option<
    Seq<char>,
> {
    let from_environ = match environ {
        Some(e) => crate::desktop_id::environ_desktop_id(crate::desktop_id::split_bytes(e, 0)),
        None => None,
    };
    match from_environ {
        Some(n) => Some(n),
        None => match cmdline {
            Some(c) => crate::desktop_id::cmdline_desktop_id_from(
                crate::desktop_id::cmdline_parts(crate::desktop_id::split_bytes(c, 0)),
                0,
            ),
            None => None,
        },
    }
}

/// An optional string as optional text.
pub open spec fn opt_text(o: Option<String>) -> Option<Seq<char>> {
    match o {
        Some(s) => Some(s@),
        None => None,
    }
}

/// An optional byte vector as optional bytes.
pub open spec fn opt_bytes(o: Option<Vec<u8>>) -> Option<Seq<u8>> {
    match o {
        Some(b) => Some(b@),
        None => None,
    }
}

/// What a directory entry of `/proc` tells of a process, given what could be
/// read of it: the entry's name must be a pid; the executable's base name
/// is the last component of its path; the command name is the trimmed
/// `comm`, when not blank; the desktop id comes from `environ`, else from
/// `cmdline`. Window titles are attached later.
pub fn process_info_from_procfs(
    entry_name: &str,
    executable_path: Option<String>,
    comm: Option<String>,
    environ: Option<Vec<u8>>,
    cmdline: Option<Vec<u8>>,
) -> (r: Option<ProcessInfo>)
    ensures
        match crate::text::parse_u32(entry_name@) {
            None => r is None,
            Some(pid) => r matches Some(p) && {
                &&& p.pid == pid
                &&& opt_text(p.executable_path) == opt_text(executable_path)
                &&& opt_text(p.executable_basename) == match executable_path {
                    Some(path) => crate::desktop_id::file_name(path@),
                    None => None,
                }
                &&& opt_text(p.command_name) == match comm {
                    Some(c) => if crate::text::trim(c@).len() > 0 {
                        Some(crate::text::trim(c@))
                    } else {
                        None
                    },
                    None => None,
                }
                &&& opt_text(p.desktop_id) == spec_process_desktop_id(opt_bytes(environ), opt_bytes(cmdline))
                &&& p.window_titles@.len() == 0
            },
        },
{
    let pid = match crate::text::parse_u32_chars(chars_of(entry_name).as_slice()) {
        Some(pid) => pid,
        None => return None,
    };
    let executable_basename = match &executable_path {
        Some(path) => match crate::desktop_id::file_name_of(chars_of(path.as_str())) {
            Some(name) => Some(string_from_chars(name.as_slice())),
            None => None,
        },
        None => None,
    };
    let command_name = match &comm {
        Some(c) => {
            let trimmed = crate::text::trim_chars(chars_of(c.as_str()).as_slice());
            if trimmed.len() > 0 {
                Some(string_from_chars(trimmed.as_slice()))
            } else {
                None
            }
        },
        None => None,
    };
    let from_environ = match &environ {
        Some(e) => crate::desktop_id::desktop_id_from_environ(e.as_slice()),
        None => None,
    };
    let desktop_id = match from_environ {
        Some(n) => Some(n),
        None => match &cmdline {
            Some(c) => crate::desktop_id::desktop_id_from_cmdline(c.as_slice()),
            None => None,
        },
    };
    Some(ProcessInfo {
        pid,
        executable_path,
        executable_basename,
        command_name,
        desktop_id,
        window_titles: Vec::new(),
    })
}

} // verus!
