use std::collections::HashMap;

use vstd::prelude::*;

use crate::process_scan::{contains_pid, ProcessInfo, ProcessKillEvent};
use crate::rule_edits::UNSUPPORTED_BROWSER_RULE_ID;
use crate::strict_mode::{is_blockuntu_process, spec_is_blockuntu_process};
use crate::strings::{clone_opt_string, concat3, owned};
use crate::text::{
    append_chars, chars_of, decimal, join, join_chars, string_from_chars, string_views,
    u64_to_decimal, views,
};

verus! {

/// Why a scan stops a process, as its event log records it.
#[derive(Debug, Clone, Copy, PartialEq, Eq, Structural)]
pub enum KillKind {
    /// An application rule blocks it.
    AppKilled,
    /// It is a browser installation that cannot load the managed policy.
    BrowserKilledUnsupportedInstallation,
    /// It is a managed browser whose extension stopped reporting.
    BrowserKilledExtensionStale,
}

impl KillKind {
    /// The event kind of the log.
    pub open spec fn spec_name(self) -> Seq<char> {
        match self {
            KillKind::AppKilled => "app_killed"@,
            KillKind::BrowserKilledUnsupportedInstallation => "browser_killed_unsupported_installation"@,
            KillKind::BrowserKilledExtensionStale => "browser_killed_extension_stale"@,
        }
    }

    /// The event kind of the log.
    pub fn name(self) -> (r: &'static str)
        ensures
            r@ == self.spec_name(),
    {
        match self {
            KillKind::AppKilled => "app_killed",
            KillKind::BrowserKilledUnsupportedInstallation => "browser_killed_unsupported_installation",
            KillKind::BrowserKilledExtensionStale => "browser_killed_extension_stale",
        }
    }
}

/// What the application rules decided for one running process.
#[derive(Debug, Clone, PartialEq, Eq)]
pub enum AppVerdict {
    Allowed,
    /// Blocked, by the rule with this id when a rule is named.
    Blocked { rule_id: Option<String> },
}

/// Why one process is stopped: the detail that the event log records, the
/// event kind, and the rule that blocked it, if one did.
#[derive(Debug, Clone, PartialEq, Eq)]
pub struct KillReason {
    pub detail: String,
    pub kind: KillKind,
    pub rule_id: Option<String>,
}

/// Which processes a scan stops, in order, and why.
#[derive(Debug, Clone)]
pub struct KillPlan {
    pub blocked_pids: Vec<u32>,
    pub reasons: HashMap<u32, KillReason>,
}

/// A reason by its texts.
pub type ReasonView = (Seq<char>, KillKind, Option<Seq<char>>);

/// A reason by its texts.
pub open spec fn reason_view(r: KillReason) -> ReasonView {
    (
        r.detail@,
        r.kind,
        match r.rule_id {
            Some(id) => Some(id@),
            None => None,
        },
    )
}

/// Whether a map of reasons holds exactly the reasons of `s`.
pub open spec fn same_reasons(m: Map<u32, KillReason>, s: Map<u32, ReasonView>) -> bool {
    m.dom() == s.dom() && forall|pid: u32| #[trigger] m.contains_key(pid) ==> reason_view(m[pid]) == s[pid]
}

/// Whether a scan leaves a process alone whatever the rules say: pid 0 or
/// 1, the daemon itself, or one of this program's own processes.
pub open spec fn spared(p: ProcessInfo, own_pid: u32) -> bool {
    p.pid <= 1 || p.pid == own_pid || spec_is_blockuntu_process(p)
}

/// The pids that the application rules block, in the order of the
/// processes, and the reasons of those blocked by a named rule.
pub open spec fn rule_kills(processes: Seq<ProcessInfo>, verdicts: Seq<AppVerdict>, own_pid: u32) -> (
    Seq<u32>,
    Map<u32, ReasonView>,
)
    decreases processes.len(),
{
    if processes.len() == 0 || verdicts.len() == 0 {
        (Seq::empty(), Map::empty())
    } else {
        let (pids, reasons) = rule_kills(processes.drop_last(), verdicts.drop_last(), own_pid);
        let p = processes.last();
        if spared(p, own_pid) {
            (pids, reasons)
        } else {
            match verdicts.last() {
                AppVerdict::Allowed => (pids, reasons),
                AppVerdict::Blocked { rule_id: None } => (pids.push(p.pid), reasons),
                AppVerdict::Blocked { rule_id: Some(id) } => (
                    pids.push(p.pid),
                    reasons.insert(p.pid, ("rule_id="@ + id@, KillKind::AppKilled, Some(id@))),
                ),
            }
        }
    }
}

/// The plan once the browser installations that cannot load the managed
/// policy are added: each such process (by the installation named for it)
/// is blocked, once, and its reason becomes that of the unsupported-browser
/// rule.
pub open spec fn unsupported_kills(
    start: (Seq<u32>, Map<u32, ReasonView>),
    processes: Seq<ProcessInfo>,
    installations: Seq<Option<String>>,
    own_pid: u32,
) -> (Seq<u32>, Map<u32, ReasonView>)
    decreases processes.len(),
{
    if processes.len() == 0 || installations.len() == 0 {
        start
    } else {
        let (pids, reasons) = unsupported_kills(
            start,
            processes.drop_last(),
            installations.drop_last(),
            own_pid,
        );
        let p = processes.last();
        if spared(p, own_pid) {
            (pids, reasons)
        } else {
            match installations.last() {
                None => (pids, reasons),
                Some(installation) => (
                    if pids.contains(p.pid) {
                        pids
                    } else {
                        pids.push(p.pid)
                    },
                    reasons.insert(
                        p.pid,
                        (
                            "rule_id="@ + UNSUPPORTED_BROWSER_RULE_ID@ + ";browser_installation="@
                                + installation@,
                            KillKind::BrowserKilledUnsupportedInstallation,
                            Some(UNSUPPORTED_BROWSER_RULE_ID@),
                        ),
                    ),
                ),
            }
        }
    }
}

/// The plan once the managed browsers with a stale extension are added:
/// each pid not yet blocked is blocked with its detail.
pub open spec fn stale_browser_kills(
    start: (Seq<u32>, Map<u32, ReasonView>),
    details: Seq<(u32, String)>,
) -> (Seq<u32>, Map<u32, ReasonView>)
    decreases details.len(),
{
    if details.len() == 0 {
        start
    } else {
        let (pids, reasons) = stale_browser_kills(start, details.drop_last());
        let (pid, detail) = details.last();
        if pids.contains(pid) {
            (pids, reasons)
        } else {
            (
                pids.push(pid),
                reasons.insert(pid, (detail@, KillKind::BrowserKilledExtensionStale, None)),
            )
        }
    }
}

/// The whole plan of a scan.
pub open spec fn spec_kill_plan(
    processes: Seq<ProcessInfo>,
    own_pid: u32,
    verdicts: Seq<AppVerdict>,
    unsupported_block_active: bool,
    installations: Seq<Option<String>>,
    stale_details: Seq<(u32, String)>,
) -> (Seq<u32>, Map<u32, ReasonView>) {
    let by_rules = rule_kills(processes, verdicts, own_pid);
    let with_unsupported = if unsupported_block_active {
        unsupported_kills(by_rules, processes, installations, own_pid)
    } else {
        by_rules
    };
    stale_browser_kills(with_unsupported, stale_details)
}

/// Records `reason` for `pid`, in place of any earlier one.
fn set_reason(reasons: &mut HashMap<u32, KillReason>, pid: u32, reason: KillReason, Ghost(
    target,
): Ghost<Map<u32, ReasonView>>)
    requires
        same_reasons(old(reasons)@, target),
    ensures
        same_reasons(final(reasons)@, target.insert(pid, reason_view(reason))),
{
    broadcast use vstd::std_specs::hash::group_hash_axioms;

    reasons.insert(pid, reason);
    assert(reasons@.dom() =~= target.insert(pid, reason_view(reason)).dom());
}

/// Which processes a scan stops, and why: first those that the application
/// rules block (in the order of `processes`, each with its verdict in
/// `verdicts`), then, when the unsupported-browser block is active, the
/// browser installations that cannot load the managed policy (named in
/// `installations`, one per process), then the managed browsers whose
/// extension went stale (`stale_details`). Processes with pid 0 or 1, the
/// daemon itself (`own_pid`) and this program's own processes are spared by
/// the first two.
pub fn plan_process_kills(
    processes: &[ProcessInfo],
    own_pid: u32,
    verdicts: &[AppVerdict],
    unsupported_block_active: bool,
    installations: &[Option<String>],
    stale_details: &[(u32, String)],
) -> (r: KillPlan)
    requires
        verdicts@.len() == processes@.len(),
        installations@.len() == processes@.len(),
    ensures
        r.blocked_pids@ == spec_kill_plan(
            processes@,
            own_pid,
            verdicts@,
            unsupported_block_active,
            installations@,
            stale_details@,
        ).0,
        same_reasons(
            r.reasons@,
            spec_kill_plan(
                processes@,
                own_pid,
                verdicts@,
                unsupported_block_active,
                installations@,
                stale_details@,
            ).1,
        ),
{
    let mut pids: Vec<u32> = Vec::new();
    let mut reasons: HashMap<u32, KillReason> = HashMap::new();
    proof {
        assert(reasons@.dom() =~= Map::<u32, ReasonView>::empty().dom());
    }
    let mut i: usize = 0;
    while i < processes.len()
        invariant
            i <= processes@.len(),
            verdicts@.len() == processes@.len(),
            pids@ == rule_kills(processes@.take(i as int), verdicts@.take(i as int), own_pid).0,
            same_reasons(
                reasons@,
                rule_kills(processes@.take(i as int), verdicts@.take(i as int), own_pid).1,
            ),
        decreases processes@.len() - i,
    {
        let ghost target = rule_kills(processes@.take(i as int), verdicts@.take(i as int), own_pid);
        proof {
            assert(processes@.take(i + 1).drop_last() =~= processes@.take(i as int));
            assert(verdicts@.take(i + 1).drop_last() =~= verdicts@.take(i as int));
            assert(processes@.take(i + 1).last() == processes@[i as int]);
            assert(verdicts@.take(i + 1).last() == verdicts@[i as int]);
        }
        let p = &processes[i];
        if !(p.pid <= 1 || p.pid == own_pid || is_blockuntu_process(p)) {
            match &verdicts[i] {
                AppVerdict::Allowed => {},
                AppVerdict::Blocked { rule_id: None } => {
                    pids.push(p.pid);
                },
                AppVerdict::Blocked { rule_id: Some(id) } => {
                    pids.push(p.pid);
                    let detail = concat3("rule_id=", id.as_str(), "");
                    proof {
                        reveal_strlit("");
                        assert(detail@ =~= "rule_id="@ + id@);
                    }
                    set_reason(
                        &mut reasons,
                        p.pid,
                        KillReason {
                            detail,
                            kind: KillKind::AppKilled,
                            rule_id: Some(id.clone()),
                        },
                        Ghost(target.1),
                    );
                },
            }
        }
        i = i + 1;
    }
    proof {
        assert(processes@.take(processes@.len() as int) =~= processes@);
        assert(verdicts@.take(verdicts@.len() as int) =~= verdicts@);
    }
    let ghost by_rules = rule_kills(processes@, verdicts@, own_pid);
    if unsupported_block_active {
        let mut i: usize = 0;
        while i < processes.len()
            invariant
                i <= processes@.len(),
                installations@.len() == processes@.len(),
                pids@ == unsupported_kills(
                    by_rules,
                    processes@.take(i as int),
                    installations@.take(i as int),
                    own_pid,
                ).0,
                same_reasons(
                    reasons@,
                    unsupported_kills(
                        by_rules,
                        processes@.take(i as int),
                        installations@.take(i as int),
                        own_pid,
                    ).1,
                ),
            decreases processes@.len() - i,
        {
            let ghost target = unsupported_kills(
                by_rules,
                processes@.take(i as int),
                installations@.take(i as int),
                own_pid,
            );
            proof {
                assert(processes@.take(i + 1).drop_last() =~= processes@.take(i as int));
                assert(installations@.take(i + 1).drop_last() =~= installations@.take(i as int));
                assert(processes@.take(i + 1).last() == processes@[i as int]);
                assert(installations@.take(i + 1).last() == installations@[i as int]);
            }
            let p = &processes[i];
            if !(p.pid <= 1 || p.pid == own_pid || is_blockuntu_process(p)) {
                match &installations[i] {
                    None => {},
                    Some(installation) => {
                        if !contains_pid(pids.as_slice(), p.pid) {
                            pids.push(p.pid);
                        }
                        let head = concat3("rule_id=", UNSUPPORTED_BROWSER_RULE_ID, ";browser_installation=");
                        let detail = concat3(head.as_str(), installation.as_str(), "");
                        proof {
                            reveal_strlit("");
                            assert(detail@ =~= "rule_id="@ + UNSUPPORTED_BROWSER_RULE_ID@
                                + ";browser_installation="@ + installation@);
                        }
                        let rule = concat3(UNSUPPORTED_BROWSER_RULE_ID, "", "");
                        proof {
                            assert(rule@ =~= UNSUPPORTED_BROWSER_RULE_ID@);
                        }
                        set_reason(
                            &mut reasons,
                            p.pid,
                            KillReason {
                                detail,
                                kind: KillKind::BrowserKilledUnsupportedInstallation,
                                rule_id: Some(rule),
                            },
                            Ghost(target.1),
                        );
                    },
                }
            }
            i = i + 1;
        }
        proof {
            assert(processes@.take(processes@.len() as int) =~= processes@);
            assert(installations@.take(installations@.len() as int) =~= installations@);
        }
    }
    let ghost with_unsupported = if unsupported_block_active {
        unsupported_kills(by_rules, processes@, installations@, own_pid)
    } else {
        by_rules
    };
    let mut k: usize = 0;
    while k < stale_details.len()
        invariant
            k <= stale_details@.len(),
            pids@ == stale_browser_kills(with_unsupported, stale_details@.take(k as int)).0,
            same_reasons(
                reasons@,
                stale_browser_kills(with_unsupported, stale_details@.take(k as int)).1,
            ),
        decreases stale_details@.len() - k,
    {
        let ghost target = stale_browser_kills(with_unsupported, stale_details@.take(k as int));
        proof {
            assert(stale_details@.take(k + 1).drop_last() =~= stale_details@.take(k as int));
            assert(stale_details@.take(k + 1).last() == stale_details@[k as int]);
        }
        let (pid, detail) = &stale_details[k];
        if !contains_pid(pids.as_slice(), *pid) {
            pids.push(*pid);
            set_reason(
                &mut reasons,
                *pid,
                KillReason {
                    detail: detail.clone(),
                    kind: KillKind::BrowserKilledExtensionStale,
                    rule_id: None,
                },
                Ghost(target.1),
            );
        }
        k = k + 1;
    }
    proof {
        assert(stale_details@.take(stale_details@.len() as int) =~= stale_details@);
    }
    KillPlan { blocked_pids: pids, reasons }
}

/// What the event log records of one stopped process: the event kind, the
/// application's name, the detail, and the rule that blocked it, if one did.
#[derive(Debug, Clone, PartialEq, Eq)]
pub struct KillRecord {
    pub kind: KillKind,
    pub application_name: String,
    pub detail: String,
    pub rule_id: Option<String>,
}

/// An optional text, or `<unknown>`.
pub open spec fn or_unknown(o: Option<String>) -> Seq<char> {
    match o {
        Some(s) => s@,
        None => "<unknown>"@,
    }
}

/// The window titles, joined by ` | `, or `<none>`.
pub open spec fn titles_text(titles: Seq<String>) -> Seq<char> {
    if titles.len() == 0 {
        "<none>"@
    } else {
        join(string_views(titles), " | "@)
    }
}

/// The name under which a stopped process is reported: its command name,
/// else its executable's base name, else its desktop id, else
/// `Application`.
pub open spec fn spec_application_name(event: ProcessKillEvent) -> Seq<char> {
    match event.command_name {
        Some(c) => c@,
        None => match event.executable_basename {
            Some(b) => b@,
            None => match event.desktop_id {
                Some(d) => d@,
                None => "Application"@,
            },
        },
    }
}

/// The detail recorded for a stopped process, after the reason `prefix`.
pub open spec fn spec_kill_detail(event: ProcessKillEvent, prefix: Seq<char>) -> Seq<char> {
    "pid="@ + decimal(event.pid as nat) + ";"@ + prefix + ";exe="@ + or_unknown(
        event.executable_path,
    ) + ";basename="@ + or_unknown(event.executable_basename) + ";command="@ + or_unknown(
        event.command_name,
    ) + ";desktop_id="@ + or_unknown(event.desktop_id) + ";window_titles="@ + titles_text(
        event.window_titles@,
    )
}

/// The record of a stopped process given the reasons of the plan: a
/// process without a reason is recorded as an application kill with the
/// detail `reason=<unknown>`.
pub open spec fn spec_kill_record(event: ProcessKillEvent, reasons: Map<u32, KillReason>) -> (
    KillKind,
    Seq<char>,
    Seq<char>,
    Option<Seq<char>>,
) {
    if reasons.contains_key(event.pid) {
        let reason = reason_view(reasons[event.pid]);
        (reason.1, spec_application_name(event), spec_kill_detail(event, reason.0), reason.2)
    } else {
        (
            KillKind::AppKilled,
            spec_application_name(event),
            spec_kill_detail(event, "reason=<unknown>"@),
            None,
        )
    }
}

/// Appends the characters of `s`.
fn push_text(out: &mut Vec<char>, s: &str)
    ensures
        final(out)@ == old(out)@ + s@,
{
    let c = chars_of(s);
    append_chars(out, c.as_slice());
}

/// Appends an optional text, or `<unknown>`.
fn push_or_unknown(out: &mut Vec<char>, o: &Option<String>)
    ensures
        final(out)@ == old(out)@ + or_unknown(*o),
{
    match o {
        Some(s) => push_text(out, s.as_str()),
        None => push_text(out, "<unknown>"),
    }
}

/// The window titles, joined by ` | `, or `<none>`.
fn titles_of(titles: &Vec<String>) -> (r: Vec<char>)
    ensures
        r@ == titles_text(titles@),
{
    if titles.len() == 0 {
        return chars_of("<none>");
    }
    let mut parts: Vec<Vec<char>> = Vec::new();
    let mut i: usize = 0;
    while i < titles.len()
        invariant
            i <= titles@.len(),
            views(parts@) == string_views(titles@).take(i as int),
        decreases titles@.len() - i,
    {
        let ghost before = parts@;
        parts.push(chars_of(titles[i].as_str()));
        assert(views(parts@) =~= string_views(titles@).take(i + 1)) by {
            assert(views(parts@) =~= views(before).push(titles@[i as int]@));
        }
        i = i + 1;
    }
    assert(string_views(titles@).take(titles@.len() as int) =~= string_views(titles@));
    let sep = chars_of(" | ");
    join_chars(parts.as_slice(), sep.as_slice())
}

/// What the event log records of a stopped process.
pub fn kill_event_record(event: &ProcessKillEvent, reasons: &HashMap<u32, KillReason>) -> (r:
    KillRecord)
    ensures
        (r.kind, r.application_name@, r.detail@, match r.rule_id {
            Some(id) => Some(id@),
            None => None,
        }) == spec_kill_record(*event, reasons@),
{
    broadcast use vstd::std_specs::hash::group_hash_axioms;

    let reason = reasons.get(&event.pid);
    let application_name = match &event.command_name {
        Some(c) => c.clone(),
        None => match &event.executable_basename {
            Some(b) => b.clone(),
            None => match &event.desktop_id {
                Some(d) => d.clone(),
                None => owned("Application"),
            },
        },
    };
    proof {
        reveal_strlit("");
    }
    let mut out = chars_of("pid=");
    push_text(&mut out, u64_to_decimal(event.pid as u64).as_str());
    push_text(&mut out, ";");
    match reason {
        Some(reason) => push_text(&mut out, reason.detail.as_str()),
        None => push_text(&mut out, "reason=<unknown>"),
    }
    push_text(&mut out, ";exe=");
    push_or_unknown(&mut out, &event.executable_path);
    push_text(&mut out, ";basename=");
    push_or_unknown(&mut out, &event.executable_basename);
    push_text(&mut out, ";command=");
    push_or_unknown(&mut out, &event.command_name);
    push_text(&mut out, ";desktop_id=");
    push_or_unknown(&mut out, &event.desktop_id);
    push_text(&mut out, ";window_titles=");
    let titles = titles_of(&event.window_titles);
    append_chars(&mut out, titles.as_slice());
    let detail = string_from_chars(out.as_slice());
    match reason {
        Some(reason) => {
            let r = KillRecord {
                kind: reason.kind,
                application_name,
                detail,
                rule_id: clone_opt_string(&reason.rule_id),
            };
            assert(r.detail@ =~= spec_kill_detail(*event, reason.detail@));
            r
        },
        None => {
            let r = KillRecord { kind: KillKind::AppKilled, application_name, detail, rule_id: None };
            assert(r.detail@ =~= spec_kill_detail(*event, "reason=<unknown>"@));
            r
        },
    }
}

/// Whether the processes have distinct pids, as the process table gives
/// them.
pub open spec fn distinct_pids(processes: Seq<ProcessInfo>) -> bool {
    forall|a: int, b: int|
        0 <= a < b < processes.len() ==> #[trigger] processes[a].pid != #[trigger] processes[b].pid
}

/// The pids that the rules block are pids of the processes, each once when
/// the processes have distinct pids.
proof fn lemma_rule_kills_pids(processes: Seq<ProcessInfo>, verdicts: Seq<AppVerdict>, own_pid: u32)
    requires
        verdicts.len() == processes.len(),
    ensures
        forall|k: int| 0 <= k < rule_kills(processes, verdicts, own_pid).0.len() ==> exists|j: int|
            0 <= j < processes.len() && processes[j].pid == #[trigger] rule_kills(
                processes,
                verdicts,
                own_pid,
            ).0[k],
        distinct_pids(processes) ==> rule_kills(processes, verdicts, own_pid).0.no_duplicates(),
    decreases processes.len(),
{
    if processes.len() > 0 {
        let rest = processes.drop_last();
        lemma_rule_kills_pids(rest, verdicts.drop_last(), own_pid);
        let before = rule_kills(rest, verdicts.drop_last(), own_pid).0;
        let after = rule_kills(processes, verdicts, own_pid).0;
        let p = processes.last();
        assert forall|k: int| 0 <= k < after.len() implies exists|j: int|
            0 <= j < processes.len() && processes[j].pid == #[trigger] after[k] by {
            if k < before.len() {
                assert(after[k] == before[k]);
                let j = choose|j: int| 0 <= j < rest.len() && rest[j].pid == before[k];
                assert(processes[j] == rest[j]);
            } else {
                assert(after[k] == p.pid);
                assert(processes[processes.len() - 1] == p);
            }
        }
        if distinct_pids(processes) {
            assert(distinct_pids(rest)) by {
                assert forall|a: int, b: int| 0 <= a < b < rest.len() implies #[trigger] rest[a].pid
                    != #[trigger] rest[b].pid by {
                    assert(rest[a] == processes[a]);
                    assert(rest[b] == processes[b]);
                }
            }
            if after.len() > before.len() {
                assert forall|k: int| 0 <= k < before.len() implies before[k] != p.pid by {
                    let j = choose|j: int| 0 <= j < rest.len() && rest[j].pid == before[k];
                    assert(processes[j] == rest[j]);
                    assert(processes[j].pid != processes[processes.len() - 1].pid);
                }
                assert forall|a: int, b: int| 0 <= a < b < after.len() implies after[a] != after[b] by {
                    if b < before.len() {
                        assert(after[a] == before[a]);
                        assert(after[b] == before[b]);
                    } else {
                        assert(after[a] == before[a]);
                        assert(after[b] == p.pid);
                    }
                }
            }
        }
    }
}

/// Adding the unsupported browsers blocks no pid twice.
proof fn lemma_unsupported_kills_distinct(
    start: (Seq<u32>, Map<u32, ReasonView>),
    processes: Seq<ProcessInfo>,
    installations: Seq<Option<String>>,
    own_pid: u32,
)
    requires
        start.0.no_duplicates(),
    ensures
        unsupported_kills(start, processes, installations, own_pid).0.no_duplicates(),
    decreases processes.len(),
{
    if processes.len() > 0 && installations.len() > 0 {
        lemma_unsupported_kills_distinct(start, processes.drop_last(), installations.drop_last(), own_pid);
        let before = unsupported_kills(start, processes.drop_last(), installations.drop_last(), own_pid).0;
        let pid = processes.last().pid;
        if !before.contains(pid) {
            assert forall|a: int, b: int| 0 <= a < b < before.push(pid).len() implies before.push(pid)[a]
                != before.push(pid)[b] by {
                if b == before.len() {
                    assert(before.push(pid)[a] == before[a]);
                }
            }
        }
    }
}

/// Adding the browsers with a stale extension blocks no pid twice.
proof fn lemma_stale_kills_distinct(start: (Seq<u32>, Map<u32, ReasonView>), details: Seq<(u32, String)>)
    requires
        start.0.no_duplicates(),
    ensures
        stale_browser_kills(start, details).0.no_duplicates(),
    decreases details.len(),
{
    if details.len() > 0 {
        lemma_stale_kills_distinct(start, details.drop_last());
        let before = stale_browser_kills(start, details.drop_last()).0;
        let pid = details.last().0;
        if !before.contains(pid) {
            assert forall|a: int, b: int| 0 <= a < b < before.push(pid).len() implies before.push(pid)[a]
                != before.push(pid)[b] by {
                if b == before.len() {
                    assert(before.push(pid)[a] == before[a]);
                }
            }
        }
    }
}

/// A scan of processes with distinct pids stops each process at most once.
pub proof fn law_each_process_is_stopped_at_most_once(
    processes: Seq<ProcessInfo>,
    own_pid: u32,
    verdicts: Seq<AppVerdict>,
    unsupported_block_active: bool,
    installations: Seq<Option<String>>,
    stale_details: Seq<(u32, String)>,
)
    requires
        verdicts.len() == processes.len(),
        distinct_pids(processes),
    ensures
        spec_kill_plan(
            processes,
            own_pid,
            verdicts,
            unsupported_block_active,
            installations,
            stale_details,
        ).0.no_duplicates(),
{
    lemma_rule_kills_pids(processes, verdicts, own_pid);
    let by_rules = rule_kills(processes, verdicts, own_pid);
    if unsupported_block_active {
        lemma_unsupported_kills_distinct(by_rules, processes, installations, own_pid);
        lemma_stale_kills_distinct(unsupported_kills(by_rules, processes, installations, own_pid), stale_details);
    } else {
        lemma_stale_kills_distinct(by_rules, stale_details);
    }
}

/// Whether `pid` is the pid of a process that is not spared.
pub open spec fn unspared_pid(processes: Seq<ProcessInfo>, own_pid: u32, pid: u32) -> bool {
    exists|j: int| 0 <= j < processes.len() && processes[j].pid == pid && !spared(#[trigger] processes[j], own_pid)
}

/// The rules block only processes that are not spared.
proof fn lemma_rule_kills_unspared(processes: Seq<ProcessInfo>, verdicts: Seq<AppVerdict>, own_pid: u32)
    ensures
        forall|k: int| 0 <= k < rule_kills(processes, verdicts, own_pid).0.len() ==> unspared_pid(
            processes,
            own_pid,
            #[trigger] rule_kills(processes, verdicts, own_pid).0[k],
        ),
    decreases processes.len(),
{
    if processes.len() > 0 && verdicts.len() > 0 {
        let rest = processes.drop_last();
        lemma_rule_kills_unspared(rest, verdicts.drop_last(), own_pid);
        let before = rule_kills(rest, verdicts.drop_last(), own_pid).0;
        let after = rule_kills(processes, verdicts, own_pid).0;
        assert forall|k: int| 0 <= k < after.len() implies unspared_pid(processes, own_pid, #[trigger] after[k]) by {
            if k < before.len() {
                assert(after[k] == before[k]);
                assert(unspared_pid(rest, own_pid, before[k]));
                let j = choose|j: int| 0 <= j < rest.len() && rest[j].pid == before[k] && !spared(#[trigger] rest[j], own_pid);
                assert(processes[j] == rest[j]);
            } else {
                assert(processes[processes.len() - 1] == processes.last());
            }
        }
    }
}

/// Adding the unsupported browsers blocks only processes that are not
/// spared.
proof fn lemma_unsupported_kills_unspared(
    start: (Seq<u32>, Map<u32, ReasonView>),
    processes: Seq<ProcessInfo>,
    installations: Seq<Option<String>>,
    own_pid: u32,
    all: Seq<ProcessInfo>,
)
    requires
        forall|k: int| 0 <= k < start.0.len() ==> unspared_pid(all, own_pid, #[trigger] start.0[k]),
        processes.len() <= all.len(),
        forall|j: int| 0 <= j < processes.len() ==> #[trigger] processes[j] == all[j],
    ensures
        forall|k: int|
            0 <= k < unsupported_kills(start, processes, installations, own_pid).0.len() ==> unspared_pid(
                all,
                own_pid,
                #[trigger] unsupported_kills(start, processes, installations, own_pid).0[k],
            ),
    decreases processes.len(),
{
    if processes.len() > 0 && installations.len() > 0 {
        let rest = processes.drop_last();
        lemma_unsupported_kills_unspared(start, rest, installations.drop_last(), own_pid, all);
        let before = unsupported_kills(start, rest, installations.drop_last(), own_pid).0;
        let after = unsupported_kills(start, processes, installations, own_pid).0;
        let last = processes.len() - 1;
        assert(processes[last] == all[last]);
        assert forall|k: int| 0 <= k < after.len() implies unspared_pid(all, own_pid, #[trigger] after[k]) by {
            if k < before.len() {
                assert(after[k] == before[k]);
            } else {
                assert(after[k] == processes.last().pid);
                assert(!spared(all[last], own_pid));
            }
        }
    }
}

/// Adding the browsers with a stale extension blocks only the pids that
/// they name.
proof fn lemma_stale_kills_named(start: (Seq<u32>, Map<u32, ReasonView>), details: Seq<(u32, String)>, pid: u32)
    requires
        !start.0.contains(pid),
        forall|k: int| 0 <= k < details.len() ==> (#[trigger] details[k]).0 != pid,
    ensures
        !stale_browser_kills(start, details).0.contains(pid),
    decreases details.len(),
{
    if details.len() > 0 {
        lemma_stale_kills_named(start, details.drop_last(), pid);
        let before = stale_browser_kills(start, details.drop_last()).0;
        assert(details.last() == details[details.len() - 1]);
        if !before.contains(details.last().0) {
            if before.push(details.last().0).contains(pid) {
                let k = choose|k: int| 0 <= k < before.push(details.last().0).len() && before.push(details.last().0)[k] == pid;
                assert(k < before.len() ==> before[k] == pid);
            }
        }
    }
}

/// A scan never stops one of this program's own processes, the daemon
/// itself or pid 0 or 1, unless a stale managed browser is reported under
/// that pid.
pub proof fn law_spared_processes_are_not_stopped(
    processes: Seq<ProcessInfo>,
    own_pid: u32,
    verdicts: Seq<AppVerdict>,
    unsupported_block_active: bool,
    installations: Seq<Option<String>>,
    stale_details: Seq<(u32, String)>,
    i: int,
)
    requires
        verdicts.len() == processes.len(),
        distinct_pids(processes),
        0 <= i < processes.len(),
        spared(processes[i], own_pid),
        forall|k: int| 0 <= k < stale_details.len() ==> (#[trigger] stale_details[k]).0 != processes[i].pid,
    ensures
        !spec_kill_plan(
            processes,
            own_pid,
            verdicts,
            unsupported_block_active,
            installations,
            stale_details,
        ).0.contains(processes[i].pid),
{
    let pid = processes[i].pid;
    lemma_rule_kills_unspared(processes, verdicts, own_pid);
    let by_rules = rule_kills(processes, verdicts, own_pid);
    let middle = if unsupported_block_active {
        lemma_unsupported_kills_unspared(by_rules, processes, installations, own_pid, processes);
        unsupported_kills(by_rules, processes, installations, own_pid)
    } else {
        by_rules
    };
    assert(forall|k: int| 0 <= k < middle.0.len() ==> unspared_pid(processes, own_pid, #[trigger] middle.0[k]));
    if middle.0.contains(pid) {
        let k = choose|k: int| 0 <= k < middle.0.len() && middle.0[k] == pid;
        assert(unspared_pid(processes, own_pid, middle.0[k]));
        let j = choose|j: int| 0 <= j < processes.len() && processes[j].pid == pid && !spared(#[trigger] processes[j], own_pid);
        assert(j != i);
        if j < i {
            assert(processes[j].pid != processes[i].pid);
        } else {
            assert(processes[i].pid != processes[j].pid);
        }
    }
    lemma_stale_kills_named(middle, stale_details, pid);
}

/// Whether one of the stale-browser details names `pid`.
pub open spec fn stale_pid(details: Seq<(u32, String)>, pid: u32) -> bool {
    exists|k: int| 0 <= k < details.len() && (#[trigger] details[k]).0 == pid
}

/// A scan stops only what it was handed: each pid that it stops is that of
/// a scanned process that is not spared, or one that a stale-browser detail
/// names.
pub proof fn law_stopped_pids_come_from_the_scan(
    processes: Seq<ProcessInfo>,
    own_pid: u32,
    verdicts: Seq<AppVerdict>,
    unsupported_block_active: bool,
    installations: Seq<Option<String>>,
    stale_details: Seq<(u32, String)>,
)
    ensures
        ({
            let stopped = spec_kill_plan(
                processes,
                own_pid,
                verdicts,
                unsupported_block_active,
                installations,
                stale_details,
            ).0;
            forall|k: int|
                0 <= k < stopped.len() ==> unspared_pid(processes, own_pid, #[trigger] stopped[k]) || stale_pid(
                    stale_details,
                    stopped[k],
                )
        }),
{
    lemma_rule_kills_unspared(processes, verdicts, own_pid);
    let by_rules = rule_kills(processes, verdicts, own_pid);
    let middle = if unsupported_block_active {
        lemma_unsupported_kills_unspared(by_rules, processes, installations, own_pid, processes);
        unsupported_kills(by_rules, processes, installations, own_pid)
    } else {
        by_rules
    };
    assert(forall|k: int| 0 <= k < middle.0.len() ==> unspared_pid(processes, own_pid, #[trigger] middle.0[k]));
    let stopped = stale_browser_kills(middle, stale_details).0;
    assert forall|k: int| 0 <= k < stopped.len() implies unspared_pid(processes, own_pid, #[trigger] stopped[k])
        || stale_pid(stale_details, stopped[k]) by {
        let pid = stopped[k];
        if middle.0.contains(pid) {
            let m = choose|m: int| 0 <= m < middle.0.len() && middle.0[m] == pid;
            assert(unspared_pid(processes, own_pid, middle.0[m]));
        } else if !stale_pid(stale_details, pid) {
            assert forall|j: int| 0 <= j < stale_details.len() implies (#[trigger] stale_details[j]).0 != pid by {
                if stale_details[j].0 == pid {
                    assert(stale_pid(stale_details, pid));
                }
            }
            lemma_stale_kills_named(middle, stale_details, pid);
            assert(stopped.contains(pid));
        }
    }
}

} // verus!
