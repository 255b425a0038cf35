use vstd::prelude::*;

use crate::access::{protected_access_closed_error, protected_access_is_open, ProtectedAccessMode};
use crate::chrome_policy::ChromiumIncognitoMode;
use crate::daemon_error::DaemonError;
use crate::hosts::lemma_sorted_unique;
use crate::ordering::{insert_sorted, strictly_sorted, vec_views};
use crate::policy::{RuleConfig, RulePattern, RulePatternKind, RuleTier};
use crate::strings::{concat3, str_equal};
use crate::text::{
    chars_of, decimal, string_from_chars, string_views, trim_start_char, trim_start_char_chars,
    u64_to_decimal,
};

verus! {

/// When private windows are turned off under the "disabled" mode.
#[derive(Debug, Clone, Copy, PartialEq, Eq, Structural)]
pub enum ChromiumIncognitoDisableScope {
    /// Always.
    AllTime,
    /// Only while a schedule or Detox is active.
    ActiveScheduleOrDetox,
}

/// The stored name of a disable scope.
pub open spec fn spec_disable_scope_name(scope: ChromiumIncognitoDisableScope) -> Seq<char> {
    match scope {
        ChromiumIncognitoDisableScope::AllTime => "all_time"@,
        ChromiumIncognitoDisableScope::ActiveScheduleOrDetox => "active_schedule_or_detox"@,
    }
}

/// The stored name of a disable scope.
pub fn chromium_incognito_disable_scope_name(scope: ChromiumIncognitoDisableScope) -> (r: &'static str)
    ensures
        r@ == spec_disable_scope_name(scope),
{
    match scope {
        ChromiumIncognitoDisableScope::AllTime => "all_time",
        ChromiumIncognitoDisableScope::ActiveScheduleOrDetox => "active_schedule_or_detox",
    }
}

/// When a disable scope turns private windows off, as a phrase.
pub fn chromium_incognito_disable_scope_description(scope: ChromiumIncognitoDisableScope) -> (r:
    &'static str)
    ensures
        r@ == match scope {
            ChromiumIncognitoDisableScope::AllTime => "at all times"@,
            ChromiumIncognitoDisableScope::ActiveScheduleOrDetox =>
                "only while a schedule or Detox is active"@,
        },
{
    match scope {
        ChromiumIncognitoDisableScope::AllTime => "at all times",
        ChromiumIncognitoDisableScope::ActiveScheduleOrDetox => "only while a schedule or Detox is active",
    }
}

/// The disable scope that the service state records: always, unless
/// "active_schedule_or_detox" is stored; another name is an invalid request.
pub open spec fn spec_disable_scope(stored: Option<Seq<char>>) -> Result<ChromiumIncognitoDisableScope, Seq<char>> {
    match stored {
        None => Ok(ChromiumIncognitoDisableScope::AllTime),
        Some(s) => if s == "all_time"@ {
            Ok(ChromiumIncognitoDisableScope::AllTime)
        } else if s == "active_schedule_or_detox"@ {
            Ok(ChromiumIncognitoDisableScope::ActiveScheduleOrDetox)
        } else {
            Err("invalid Chromium private browsing disable scope '"@ + s + "'"@)
        },
    }
}

/// The disable scope that the service state records.
pub fn chromium_incognito_disable_scope(stored: Option<&str>) -> (r: Result<ChromiumIncognitoDisableScope, DaemonError>)
    ensures
        match spec_disable_scope(
            match stored {
                Some(s) => Some(s@),
                None => None,
            },
        ) {
            Ok(scope) => r == Ok::<ChromiumIncognitoDisableScope, DaemonError>(scope),
            Err(message) => r matches Err(DaemonError::InvalidRequest(m)) && m@ == message,
        },
{
    match stored {
        None => Ok(ChromiumIncognitoDisableScope::AllTime),
        Some(s) => {
            if str_equal(s, "all_time") {
                Ok(ChromiumIncognitoDisableScope::AllTime)
            } else if str_equal(s, "active_schedule_or_detox") {
                Ok(ChromiumIncognitoDisableScope::ActiveScheduleOrDetox)
            } else {
                Err(
                    DaemonError::InvalidRequest(
                        concat3("invalid Chromium private browsing disable scope '", s, "'"),
                    ),
                )
            }
        },
    }
}

/// Law: a disable scope read back from its stored name is itself.
pub proof fn law_disable_scope_name_roundtrip(scope: ChromiumIncognitoDisableScope)
    ensures
        spec_disable_scope(Some(spec_disable_scope_name(scope))) == Ok::<
            ChromiumIncognitoDisableScope,
            Seq<char>,
        >(scope),
{
    reveal_strlit("all_time");
    reveal_strlit("active_schedule_or_detox");
    assert("all_time"@.len() == 8);
    assert("active_schedule_or_detox"@.len() == 24);
}

/// Whether the scope turns private windows off now: always while the clock
/// is tampered with, always under `AllTime`, else while a schedule or Detox
/// is active.
pub fn chromium_incognito_private_browsing_disabled(
    scope: ChromiumIncognitoDisableScope,
    clock_tampered: bool,
    no_active_schedule_or_detox: bool,
) -> (r: bool)
    ensures
        r == (clock_tampered || scope == ChromiumIncognitoDisableScope::AllTime
            || !no_active_schedule_or_detox),
{
    if clock_tampered {
        return true;
    }
    match scope {
        ChromiumIncognitoDisableScope::AllTime => true,
        ChromiumIncognitoDisableScope::ActiveScheduleOrDetox => !no_active_schedule_or_detox,
    }
}

/// Whether the private-window settings may be changed now: as protected
/// settings may, under the access mode that governs them.
pub fn chromium_incognito_settings_change_allowed(
    access_mode: ProtectedAccessMode,
    clock_tampered: bool,
    operator_window_is_open: bool,
    no_active_schedule_or_detox: bool,
) -> (r: bool)
    ensures
        r == (!clock_tampered && match access_mode {
            ProtectedAccessMode::Sunday => operator_window_is_open,
            ProtectedAccessMode::NoActiveScheduleOrDetox => no_active_schedule_or_detox,
            ProtectedAccessMode::AllTime => true,
        }),
{
    protected_access_is_open(access_mode, clock_tampered, operator_window_is_open, no_active_schedule_or_detox)
}

/// Refuses a change of the private-window settings outside the times that
/// `access_mode` allows.
pub fn ensure_chromium_incognito_settings_change_allowed(
    access_mode: ProtectedAccessMode,
    clock_tampered: bool,
    operator_window_is_open: bool,
    no_active_schedule_or_detox: bool,
) -> (r: Result<(), DaemonError>)
    ensures
        r is Ok <==> (!clock_tampered && match access_mode {
            ProtectedAccessMode::Sunday => operator_window_is_open,
            ProtectedAccessMode::NoActiveScheduleOrDetox => no_active_schedule_or_detox,
            ProtectedAccessMode::AllTime => true,
        }),
        r matches Err(e) ==> e matches DaemonError::InvalidRequest(m) && m@
            == "Chromium private browsing settings"@ + " are only available "@
            + crate::access::spec_protected_access_mode_description(access_mode),
{
    if chromium_incognito_settings_change_allowed(
        access_mode,
        clock_tampered,
        operator_window_is_open,
        no_active_schedule_or_detox,
    ) {
        return Ok(());
    }
    Err(protected_access_closed_error("Chromium private browsing settings", access_mode))
}

/// The private-window policy in force for Chromium-family browsers.
#[derive(Debug, Clone, PartialEq, Eq)]
pub struct ChromiumIncognitoPolicySettings {
    /// The mode chosen in the settings; `mode` is the one in force.
    pub configured_mode: ChromiumIncognitoMode,
    pub mode: ChromiumIncognitoMode,
    pub disable_scope: ChromiumIncognitoDisableScope,
    pub private_browsing_disabled: bool,
    pub url_blocklist: Vec<String>,
    pub unsupported_pattern_count: usize,
}

/// The largest URL blocklist that the private-window policy supports.
pub const INCOGNITO_URL_BLOCK_LIMIT: usize = 1000;

impl ChromiumIncognitoPolicySettings {
    /// Whether the blocklist is longer than the policy supports.
    pub fn url_block_limit_exceeded(&self) -> (r: bool)
        ensures
            r == (self.url_blocklist@.len() > INCOGNITO_URL_BLOCK_LIMIT),
    {
        self.url_blocklist.len() > INCOGNITO_URL_BLOCK_LIMIT
    }
}

/// Refuses a policy URL blocklist longer than the policy supports.
pub fn ensure_chromium_incognito_url_blocklist_within_limit(settings: &ChromiumIncognitoPolicySettings) -> (r:
    Result<(), DaemonError>)
    ensures
        r is Err <==> (settings.mode == ChromiumIncognitoMode::PolicyUrlBlocking
            && settings.url_blocklist@.len() > INCOGNITO_URL_BLOCK_LIMIT),
        r matches Err(e) ==> e matches DaemonError::InvalidRequest(m) && m@
            == "Chromium private URL policy supports at most 1000 active patterns; this configuration has "@
            + decimal(settings.url_blocklist@.len()),
{
    if settings.mode == ChromiumIncognitoMode::PolicyUrlBlocking && settings.url_block_limit_exceeded() {
        let count = u64_to_decimal(settings.url_blocklist.len() as u64);
        proof {
            reveal_strlit("");
        }
        return Err(
            DaemonError::InvalidRequest(
                concat3(
                    "Chromium private URL policy supports at most 1000 active patterns; this configuration has ",
                    count.as_str(),
                    "",
                ),
            ),
        );
    }
    Ok(())
}

/// The entry that a website pattern becomes in the private-window URL
/// blocklist: a domain that covers subdomains as it is, one that does not
/// with a single leading dot (the URL-filter form of an exact host), an
/// exact URL or URL prefix as it is; `None` for patterns that the URL-filter
/// grammar cannot express (URL fragments, path prefixes).
pub open spec fn pattern_entry(p: RulePattern) -> Option<Seq<char>> {
    match p.kind {
        RulePatternKind::Domain => Some(
            if p.match_subdomains {
                p.value@
            } else {
                seq!['.'] + trim_start_char(p.value@, '.')
            },
        ),
        RulePatternKind::ExactUrl | RulePatternKind::UrlPrefix => Some(p.value@),
        _ => None,
    }
}

/// The blocklist entries of a list of patterns.
pub open spec fn patterns_entries(ps: Seq<RulePattern>) -> Set<Seq<char>>
    decreases ps.len(),
{
    if ps.len() == 0 {
        Set::empty()
    } else {
        match pattern_entry(ps.last()) {
            Some(e) => patterns_entries(ps.drop_last()).insert(e),
            None => patterns_entries(ps.drop_last()),
        }
    }
}

/// How many of a list of patterns the blocklist cannot express.
pub open spec fn patterns_unsupported(ps: Seq<RulePattern>) -> nat
    decreases ps.len(),
{
    if ps.len() == 0 {
        0
    } else {
        patterns_unsupported(ps.drop_last()) + if pattern_entry(ps.last()) is None {
            1nat
        } else {
            0nat
        }
    }
}

/// Whether a site list blocks now: it is enabled, and it is Tier 1, or one
/// of the active Detox sessions selects it, or one of its schedules is active.
pub open spec fn rule_in_force(rule: RuleConfig, detox_rule_ids: Seq<Seq<char>>, schedule_active: bool) -> bool {
    rule.enabled && (rule.tier == RuleTier::Hard || detox_rule_ids.contains(rule.id@)
        || schedule_active)
}

/// The blocklist entries of the site lists in force.
pub open spec fn rules_entries(
    rules: Seq<RuleConfig>,
    detox_rule_ids: Seq<Seq<char>>,
    schedule_active: Seq<bool>,
) -> Set<Seq<char>>
    decreases rules.len(),
{
    if rules.len() == 0 {
        Set::empty()
    } else {
        let rest = rules_entries(rules.drop_last(), detox_rule_ids, schedule_active);
        if rule_in_force(rules.last(), detox_rule_ids, schedule_active[rules.len() - 1]) {
            rest.union(patterns_entries(rules.last().patterns@))
        } else {
            rest
        }
    }
}

/// How many patterns of the site lists in force the blocklist cannot express.
pub open spec fn rules_unsupported(
    rules: Seq<RuleConfig>,
    detox_rule_ids: Seq<Seq<char>>,
    schedule_active: Seq<bool>,
) -> nat
    decreases rules.len(),
{
    if rules.len() == 0 {
        0
    } else {
        let rest = rules_unsupported(rules.drop_last(), detox_rule_ids, schedule_active);
        if rule_in_force(rules.last(), detox_rule_ids, schedule_active[rules.len() - 1]) {
            rest + patterns_unsupported(rules.last().patterns@)
        } else {
            rest
        }
    }
}

/// How many patterns the site lists hold in all.
pub open spec fn total_patterns(rules: Seq<RuleConfig>) -> nat
    decreases rules.len(),
{
    if rules.len() == 0 {
        0
    } else {
        total_patterns(rules.drop_last()) + rules.last().patterns@.len()
    }
}

/// How many patterns the enabled site lists hold.
pub open spec fn enabled_patterns(rules: Seq<RuleConfig>) -> nat
    decreases rules.len(),
{
    if rules.len() == 0 {
        0
    } else {
        enabled_patterns(rules.drop_last()) + if rules.last().enabled {
            rules.last().patterns@.len()
        } else {
            0
        }
    }
}

/// Each blocklist entry of a list of patterns is the entry of one of them.
proof fn lemma_patterns_entries_source(ps: Seq<RulePattern>, e: Seq<char>)
    requires
        patterns_entries(ps).contains(e),
    ensures
        exists|j: int| 0 <= j < ps.len() && pattern_entry(#[trigger] ps[j]) == Some(e),
    decreases ps.len(),
{
    let rest = ps.drop_last();
    if pattern_entry(ps.last()) == Some(e) {
        assert(pattern_entry(ps[ps.len() - 1]) == Some(e));
    } else {
        lemma_patterns_entries_source(rest, e);
        let j = choose|j: int| 0 <= j < rest.len() && pattern_entry(#[trigger] rest[j]) == Some(e);
        assert(ps[j] == rest[j]);
    }
}

/// Whether the `i`-th site list is enabled and in force: Tier 1, selected by
/// an active Detox, or with an active schedule.
pub open spec fn enabled_and_in_force(
    rules: Seq<RuleConfig>,
    detox_rule_ids: Seq<Seq<char>>,
    schedule_active: Seq<bool>,
    i: int,
) -> bool {
    &&& rules[i].enabled
    &&& (rules[i].tier == RuleTier::Hard || detox_rule_ids.contains(rules[i].id@) || schedule_active[i])
}

/// The private-window URL blocklist comes from the enabled site lists in
/// force alone: each entry is the entry of a pattern of an enabled list
/// that is Tier 1, selected by an active Detox or scheduled now, and the
/// patterns it cannot express are counted among those of enabled lists
/// only. A disabled list adds nothing, whatever its tier, schedules or Detox
/// selection.
pub proof fn law_private_blocklist_comes_from_enabled_lists_in_force(
    rules: Seq<RuleConfig>,
    detox_rule_ids: Seq<Seq<char>>,
    schedule_active: Seq<bool>,
)
    requires
        schedule_active.len() == rules.len(),
    ensures
        forall|e: Seq<char>|
            #[trigger] rules_entries(rules, detox_rule_ids, schedule_active).contains(e) ==> exists|i: int, j: int|
                0 <= i < rules.len() && enabled_and_in_force(rules, detox_rule_ids, schedule_active, i) && 0 <= j
                    < rules[i].patterns@.len() && pattern_entry(#[trigger] rules[i].patterns@[j]) == Some(e),
        rules_unsupported(rules, detox_rule_ids, schedule_active) <= enabled_patterns(rules),
    decreases rules.len(),
{
    if rules.len() > 0 {
        let n = rules.len() - 1;
        let front = rules.drop_last();
        let fa = schedule_active.drop_last();
        law_private_blocklist_comes_from_enabled_lists_in_force(front, detox_rule_ids, fa);
        lemma_patterns_unsupported_bound(rules.last().patterns@);
        lemma_rules_same_front(front, detox_rule_ids, fa, schedule_active);
        assert forall|e: Seq<char>| #[trigger] rules_entries(rules, detox_rule_ids, schedule_active).contains(e) implies exists|
            i: int,
            j: int,
        |
            0 <= i < rules.len() && enabled_and_in_force(rules, detox_rule_ids, schedule_active, i) && 0 <= j
                < rules[i].patterns@.len() && pattern_entry(#[trigger] rules[i].patterns@[j]) == Some(e) by {
            if rules_entries(front, detox_rule_ids, fa).contains(e) {
                let (i, j) = choose|i: int, j: int|
                    0 <= i < front.len() && enabled_and_in_force(front, detox_rule_ids, fa, i) && 0 <= j
                        < front[i].patterns@.len() && pattern_entry(#[trigger] front[i].patterns@[j]) == Some(e);
                assert(rules[i] == front[i]);
                assert(schedule_active[i] == fa[i]);
                assert(enabled_and_in_force(rules, detox_rule_ids, schedule_active, i));
                assert(pattern_entry(rules[i].patterns@[j]) == Some(e));
            } else {
                assert(rule_in_force(rules.last(), detox_rule_ids, schedule_active[n]));
                lemma_patterns_entries_source(rules.last().patterns@, e);
                let j = choose|j: int|
                    0 <= j < rules.last().patterns@.len() && pattern_entry(#[trigger] rules.last().patterns@[j]) == Some(e);
                assert(rules[n] == rules.last());
                assert(enabled_and_in_force(rules, detox_rule_ids, schedule_active, n));
                assert(pattern_entry(rules[n].patterns@[j]) == Some(e));
            }
        }
    }
}

/// The entries and unsupported count of the first lists do not depend on
/// the schedule flags of later ones.
proof fn lemma_rules_same_front(
    front: Seq<RuleConfig>,
    detox_rule_ids: Seq<Seq<char>>,
    fa: Seq<bool>,
    all: Seq<bool>,
)
    requires
        fa.len() == front.len(),
        all.len() >= front.len(),
        forall|k: int| 0 <= k < front.len() ==> #[trigger] fa[k] == all[k],
    ensures
        rules_entries(front, detox_rule_ids, fa) == rules_entries(front, detox_rule_ids, all),
        rules_unsupported(front, detox_rule_ids, fa) == rules_unsupported(front, detox_rule_ids, all),
    decreases front.len(),
{
    if front.len() > 0 {
        lemma_rules_same_front(front.drop_last(), detox_rule_ids, fa.drop_last(), all);
        lemma_rules_same_front(front.drop_last(), detox_rule_ids, fa.drop_last(), fa);
        assert(fa[front.len() - 1] == all[front.len() - 1]);
    }
}

proof fn lemma_patterns_unsupported_bound(ps: Seq<RulePattern>)
    ensures
        patterns_unsupported(ps) <= ps.len(),
    decreases ps.len(),
{
    if ps.len() > 0 {
        lemma_patterns_unsupported_bound(ps.drop_last());
    }
}

proof fn lemma_rules_unsupported_bound(rules: Seq<RuleConfig>, detox: Seq<Seq<char>>, active: Seq<bool>)
    ensures
        rules_unsupported(rules, detox, active) <= total_patterns(rules),
    decreases rules.len(),
{
    if rules.len() > 0 {
        lemma_rules_unsupported_bound(rules.drop_last(), detox, active);
        lemma_patterns_unsupported_bound(rules.last().patterns@);
    }
}

proof fn lemma_total_patterns_prefix(rules: Seq<RuleConfig>, i: int)
    requires
        0 <= i <= rules.len(),
    ensures
        total_patterns(rules.take(i)) <= total_patterns(rules),
    decreases rules.len() - i,
{
    if i < rules.len() {
        lemma_total_patterns_prefix(rules, i + 1);
        assert(rules.take(i + 1).drop_last() =~= rules.take(i));
    } else {
        assert(rules.take(i) =~= rules);
    }
}

/// The blocklist entry of one pattern.
fn pattern_entry_chars(p: &RulePattern) -> (r: Option<Vec<char>>)
    ensures
        match pattern_entry(*p) {
            Some(e) => r matches Some(v) && v@ == e,
            None => r is None,
        },
{
    match p.kind {
        RulePatternKind::Domain => {
            let value = chars_of(p.value.as_str());
            if p.match_subdomains {
                Some(value)
            } else {
                let rest = trim_start_char_chars(value.as_slice(), '.');
                let mut entry: Vec<char> = Vec::new();
                entry.push('.');
                crate::text::append_chars(&mut entry, rest.as_slice());
                assert(entry@ =~= seq!['.'] + trim_start_char(p.value@, '.'));
                Some(entry)
            }
        },
        RulePatternKind::ExactUrl | RulePatternKind::UrlPrefix => Some(chars_of(p.value.as_str())),
        _ => None,
    }
}

/// Whether `id` is one of `ids`.
fn contains_id(ids: &[String], id: &str) -> (r: bool)
    ensures
        r == string_views(ids@).contains(id@),
{
    let mut i: usize = 0;
    while i < ids.len()
        invariant
            i <= ids@.len(),
            forall|j: int| 0 <= j < i ==> string_views(ids@)[j] != id@,
        decreases ids@.len() - i,
    {
        if str_equal(ids[i].as_str(), id) {
            assert(string_views(ids@)[i as int] == id@);
            return true;
        }
        i = i + 1;
    }
    false
}

/// The private-window URL blocklist of the site lists in force, in
/// increasing order and each entry once, with how many of their patterns it
/// cannot express. `schedule_active[i]` tells whether a schedule of the
/// `i`-th site list is active; `detox_rule_ids` are the site lists that the
/// active Detox sessions select.
pub fn chromium_incognito_url_blocklist(
    rules: &[RuleConfig],
    detox_rule_ids: &[String],
    schedule_active: &[bool],
) -> (r: (Vec<String>, usize))
    requires
        schedule_active@.len() == rules@.len(),
        total_patterns(rules@) <= usize::MAX,
    ensures
        strictly_sorted(string_views(r.0@)),
        string_views(r.0@).to_set() == rules_entries(rules@, string_views(detox_rule_ids@), schedule_active@),
        r.1 == rules_unsupported(rules@, string_views(detox_rule_ids@), schedule_active@),
{
    let ghost detox = string_views(detox_rule_ids@);
    let mut list: Vec<Vec<char>> = Vec::new();
    let mut unsupported: usize = 0;
    let mut i: usize = 0;
    assert(vec_views(list@).to_set() =~= Set::<Seq<char>>::empty());
    while i < rules.len()
        invariant
            i <= rules@.len(),
            schedule_active@.len() == rules@.len(),
            total_patterns(rules@) <= usize::MAX,
            detox == string_views(detox_rule_ids@),
            strictly_sorted(vec_views(list@)),
            vec_views(list@).to_set() == rules_entries(rules@.take(i as int), detox, schedule_active@),
            unsupported == rules_unsupported(rules@.take(i as int), detox, schedule_active@),
        decreases rules@.len() - i,
    {
        let rule = &rules[i];
        proof {
            assert(rules@.take(i + 1).drop_last() =~= rules@.take(i as int));
            assert(rules@.take(i + 1).last() == rules@[i as int]);
            lemma_total_patterns_prefix(rules@, i + 1);
            lemma_rules_unsupported_bound(rules@.take(i + 1), detox, schedule_active@);
        }
        let in_force = rule.enabled && (rule.tier == RuleTier::Hard || contains_id(detox_rule_ids, rule.id.as_str())
            || schedule_active[i]);
        assert(in_force == rule_in_force(rules@[i as int], detox, schedule_active@[i as int]));
        if in_force {
            let patterns = &rule.patterns;
            let ghost base_set = vec_views(list@).to_set();
            let ghost base_count = unsupported as nat;
            let mut j: usize = 0;
            assert(patterns@.take(0) =~= Seq::<RulePattern>::empty());
            assert(base_set.union(patterns_entries(patterns@.take(0))) =~= base_set);
            while j < patterns.len()
                invariant
                    j <= patterns@.len(),
                    patterns@ == rules@[i as int].patterns@,
                    strictly_sorted(vec_views(list@)),
                    vec_views(list@).to_set() == base_set.union(patterns_entries(patterns@.take(j as int))),
                    unsupported == base_count + patterns_unsupported(patterns@.take(j as int)),
                    base_count + patterns_unsupported(patterns@) <= usize::MAX,
                decreases patterns@.len() - j,
            {
                proof {
                    assert(patterns@.take(j + 1).drop_last() =~= patterns@.take(j as int));
                    assert(patterns@.take(j + 1).last() == patterns@[j as int]);
                    lemma_patterns_unsupported_bound(patterns@.take(j + 1));
                    lemma_patterns_prefix_unsupported(patterns@, j + 1);
                }
                match pattern_entry_chars(&patterns[j]) {
                    Some(entry) => {
                        let ghost ev = entry@;
                        let ghost before = vec_views(list@).to_set();
                        insert_sorted(&mut list, entry);
                        assert(base_set.union(patterns_entries(patterns@.take(j + 1))) =~= before.insert(ev));
                    },
                    None => {
                        unsupported = unsupported + 1;
                    },
                }
                j = j + 1;
            }
            assert(patterns@.take(patterns@.len() as int) =~= patterns@);
        }
        i = i + 1;
    }
    assert(rules@.take(rules@.len() as int) =~= rules@);
    let mut out: Vec<String> = Vec::new();
    let mut k: usize = 0;
    while k < list.len()
        invariant
            k <= list@.len(),
            string_views(out@) =~= vec_views(list@).take(k as int),
        decreases list@.len() - k,
    {
        out.push(string_from_chars(list[k].as_slice()));
        assert(vec_views(list@).take(k + 1) =~= vec_views(list@).take(k as int).push(list@[k as int]@));
        k = k + 1;
    }
    assert(vec_views(list@).take(list@.len() as int) =~= vec_views(list@));
    (out, unsupported)
}

proof fn lemma_patterns_prefix_unsupported(ps: Seq<RulePattern>, j: int)
    requires
        0 <= j <= ps.len(),
    ensures
        patterns_unsupported(ps.take(j)) <= patterns_unsupported(ps),
    decreases ps.len() - j,
{
    if j < ps.len() {
        lemma_patterns_prefix_unsupported(ps, j + 1);
        assert(ps.take(j + 1).drop_last() =~= ps.take(j));
    } else {
        assert(ps.take(j) =~= ps);
    }
}

/// The private-window policy in force: the disabled mode holds only while
/// its scope turns private windows off, and falls back to manual consent
/// otherwise; under policy URL blocking the blocklist is that of the site
/// lists in force.
pub fn chromium_incognito_policy_settings(
    configured_mode: ChromiumIncognitoMode,
    disable_scope: ChromiumIncognitoDisableScope,
    clock_tampered: bool,
    no_active_schedule_or_detox: bool,
    rules: &[RuleConfig],
    detox_rule_ids: &[String],
    schedule_active: &[bool],
) -> (r: ChromiumIncognitoPolicySettings)
    requires
        schedule_active@.len() == rules@.len(),
        total_patterns(rules@) <= usize::MAX,
    ensures
        r.configured_mode == configured_mode,
        r.disable_scope == disable_scope,
        r.private_browsing_disabled == (configured_mode == ChromiumIncognitoMode::Disabled && (
        clock_tampered || disable_scope == ChromiumIncognitoDisableScope::AllTime
            || !no_active_schedule_or_detox)),
        r.mode == (if configured_mode == ChromiumIncognitoMode::Disabled
            && !r.private_browsing_disabled {
            ChromiumIncognitoMode::ManualConsent
        } else {
            configured_mode
        }),
        r.mode == ChromiumIncognitoMode::PolicyUrlBlocking ==> {
            &&& strictly_sorted(string_views(r.url_blocklist@))
            &&& string_views(r.url_blocklist@).to_set() == rules_entries(
                rules@,
                string_views(detox_rule_ids@),
                schedule_active@,
            )
            &&& r.unsupported_pattern_count == rules_unsupported(
                rules@,
                string_views(detox_rule_ids@),
                schedule_active@,
            )
        },
        r.mode != ChromiumIncognitoMode::PolicyUrlBlocking ==> r.url_blocklist@.len() == 0
            && r.unsupported_pattern_count == 0,
{
    let private_browsing_disabled = configured_mode == ChromiumIncognitoMode::Disabled
        && chromium_incognito_private_browsing_disabled(
        disable_scope,
        clock_tampered,
        no_active_schedule_or_detox,
    );
    let mode = if configured_mode == ChromiumIncognitoMode::Disabled && !private_browsing_disabled {
        ChromiumIncognitoMode::ManualConsent
    } else {
        configured_mode
    };
    let (url_blocklist, unsupported_pattern_count) = if mode == ChromiumIncognitoMode::PolicyUrlBlocking {
        chromium_incognito_url_blocklist(rules, detox_rule_ids, schedule_active)
    } else {
        (Vec::new(), 0)
    };
    ChromiumIncognitoPolicySettings {
        configured_mode,
        mode,
        disable_scope,
        private_browsing_disabled,
        url_blocklist,
        unsupported_pattern_count,
    }
}

} // verus!
