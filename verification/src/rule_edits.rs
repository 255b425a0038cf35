use vstd::prelude::*;

use crate::policy::{
    AppMatcherConfig, AppMatcherKind, AppRuleConfig, PolicyConfig, RuleConfig, RulePattern,
    RulePatternKind, RuleTier,
};
use crate::strings::{owned, str_equal};
use crate::text::string_views;

verus! {

/// An optional string by its text.
pub open spec fn opt_string_view(o: Option<String>) -> Option<Seq<char>> {
    match o {
        Some(s) => Some(s@),
        None => None,
    }
}

/// A website pattern by its parts.
pub open spec fn pattern_view(p: RulePattern) -> (RulePatternKind, Seq<char>, bool) {
    (p.kind, p.value@, p.match_subdomains)
}

/// An application matcher by its parts.
pub open spec fn matcher_view(m: AppMatcherConfig) -> (AppMatcherKind, Seq<char>) {
    (m.kind, m.value@)
}

/// The matchers of an application rule by their parts.
pub open spec fn matcher_views(ms: Seq<AppMatcherConfig>) -> Seq<(AppMatcherKind, Seq<char>)> {
    ms.map_values(|m: AppMatcherConfig| matcher_view(m))
}

/// The patterns of a site list by their parts.
pub open spec fn pattern_views(ps: Seq<RulePattern>) -> Seq<(RulePatternKind, Seq<char>, bool)> {
    ps.map_values(|p: RulePattern| pattern_view(p))
}

/// Whether a proposed site list only adds patterns to the current one: the
/// same id, name, tier, enabled flag, schedules and allowance, and the
/// current patterns as its first ones.
pub open spec fn spec_site_list_edit_is_additive(current: RuleConfig, proposed: RuleConfig) -> bool {
    &&& current.id@ == proposed.id@
    &&& current.name@ == proposed.name@
    &&& current.tier == proposed.tier
    &&& current.enabled == proposed.enabled
    &&& string_views(current.schedule_ids@) == string_views(proposed.schedule_ids@)
    &&& opt_string_view(current.allowance_id) == opt_string_view(proposed.allowance_id)
    &&& pattern_views(current.patterns@) == pattern_views(proposed.patterns@).take(
        current.patterns@.len() as int,
    )
    &&& proposed.patterns@.len() >= current.patterns@.len()
}

/// Whether a proposed application rule only adds matchers to the current
/// one, in the same sense.
pub open spec fn spec_app_rule_edit_is_additive(current: AppRuleConfig, proposed: AppRuleConfig) -> bool {
    &&& current.id@ == proposed.id@
    &&& current.name@ == proposed.name@
    &&& current.tier == proposed.tier
    &&& current.enabled == proposed.enabled
    &&& string_views(current.schedule_ids@) == string_views(proposed.schedule_ids@)
    &&& opt_string_view(current.allowance_id) == opt_string_view(proposed.allowance_id)
    &&& matcher_views(current.matchers@) == matcher_views(proposed.matchers@).take(
        current.matchers@.len() as int,
    )
    &&& proposed.matchers@.len() >= current.matchers@.len()
}

/// Whether two lists of strings are equal.
pub fn string_lists_equal(a: &Vec<String>, b: &Vec<String>) -> (r: bool)
    ensures
        r == (string_views(a@) == string_views(b@)),
{
    if a.len() != b.len() {
        assert(string_views(a@).len() != string_views(b@).len());
        return false;
    }
    let mut i: usize = 0;
    while i < a.len()
        invariant
            i <= a@.len(),
            a@.len() == b@.len(),
            forall|j: int| 0 <= j < i ==> a@[j]@ == b@[j]@,
        decreases a@.len() - i,
    {
        if !str_equal(a[i].as_str(), b[i].as_str()) {
            assert(string_views(a@)[i as int] != string_views(b@)[i as int]);
            return false;
        }
        i = i + 1;
    }
    assert(string_views(a@) =~= string_views(b@));
    true
}

/// Whether two optional strings are equal.
pub fn optional_strings_equal(a: &Option<String>, b: &Option<String>) -> (r: bool)
    ensures
        r == (opt_string_view(*a) == opt_string_view(*b)),
{
    match (a, b) {
        (Some(x), Some(y)) => str_equal(x.as_str(), y.as_str()),
        (None, None) => true,
        _ => false,
    }
}

/// Whether the first `current.len()` patterns of `proposed` are `current`.
pub(crate) fn patterns_start_with(current: &Vec<RulePattern>, proposed: &Vec<RulePattern>) -> (r: bool)
    requires
        proposed@.len() >= current@.len(),
    ensures
        r == (pattern_views(current@) == pattern_views(proposed@).take(current@.len() as int)),
{
    let mut i: usize = 0;
    while i < current.len()
        invariant
            i <= current@.len(),
            proposed@.len() >= current@.len(),
            forall|j: int| 0 <= j < i ==> pattern_view(current@[j]) == pattern_view(proposed@[j]),
        decreases current@.len() - i,
    {
        let c = &current[i];
        let p = &proposed[i];
        if !(c.kind == p.kind && str_equal(c.value.as_str(), p.value.as_str())
            && c.match_subdomains == p.match_subdomains) {
            assert(pattern_views(current@)[i as int] != pattern_views(proposed@).take(
                current@.len() as int,
            )[i as int]);
            return false;
        }
        i = i + 1;
    }
    assert(pattern_views(current@) =~= pattern_views(proposed@).take(current@.len() as int));
    true
}

/// Whether the first `current.len()` matchers of `proposed` are `current`.
pub(crate) fn matchers_start_with(current: &Vec<AppMatcherConfig>, proposed: &Vec<AppMatcherConfig>) -> (r: bool)
    requires
        proposed@.len() >= current@.len(),
    ensures
        r == (matcher_views(current@) == matcher_views(proposed@).take(current@.len() as int)),
{
    let mut i: usize = 0;
    while i < current.len()
        invariant
            i <= current@.len(),
            proposed@.len() >= current@.len(),
            forall|j: int| 0 <= j < i ==> matcher_view(current@[j]) == matcher_view(proposed@[j]),
        decreases current@.len() - i,
    {
        let c = &current[i];
        let p = &proposed[i];
        if !(c.kind == p.kind && str_equal(c.value.as_str(), p.value.as_str())) {
            assert(matcher_views(current@)[i as int] != matcher_views(proposed@).take(
                current@.len() as int,
            )[i as int]);
            return false;
        }
        i = i + 1;
    }
    assert(matcher_views(current@) =~= matcher_views(proposed@).take(current@.len() as int));
    true
}

/// Whether a proposed site list only adds patterns to the current one.
pub fn site_list_edit_is_additive(current: &RuleConfig, proposed: &RuleConfig) -> (r: bool)
    ensures
        r == spec_site_list_edit_is_additive(*current, *proposed),
{
    str_equal(current.id.as_str(), proposed.id.as_str()) && str_equal(
        current.name.as_str(),
        proposed.name.as_str(),
    ) && current.tier == proposed.tier && current.enabled == proposed.enabled
        && string_lists_equal(&current.schedule_ids, &proposed.schedule_ids)
        && optional_strings_equal(&current.allowance_id, &proposed.allowance_id)
        && proposed.patterns.len() >= current.patterns.len() && patterns_start_with(
        &current.patterns,
        &proposed.patterns,
    )
}

/// Whether a proposed application rule only adds matchers to the current
/// one.
pub fn app_rule_edit_is_additive(current: &AppRuleConfig, proposed: &AppRuleConfig) -> (r: bool)
    ensures
        r == spec_app_rule_edit_is_additive(*current, *proposed),
{
    str_equal(current.id.as_str(), proposed.id.as_str()) && str_equal(
        current.name.as_str(),
        proposed.name.as_str(),
    ) && current.tier == proposed.tier && current.enabled == proposed.enabled
        && string_lists_equal(&current.schedule_ids, &proposed.schedule_ids)
        && optional_strings_equal(&current.allowance_id, &proposed.allowance_id)
        && proposed.matchers.len() >= current.matchers.len() && matchers_start_with(
        &current.matchers,
        &proposed.matchers,
    )
}

/// An edit that adds nothing is additive, and so is one that only appends
/// patterns: what additivity allows is exactly keeping the site list and
/// extending its pattern list.
pub proof fn law_appending_patterns_is_additive(
    current: RuleConfig,
    proposed: RuleConfig,
    extra: Seq<RulePattern>,
)
    requires
        current.id@ == proposed.id@,
        current.name@ == proposed.name@,
        current.tier == proposed.tier,
        current.enabled == proposed.enabled,
        string_views(current.schedule_ids@) == string_views(proposed.schedule_ids@),
        opt_string_view(current.allowance_id) == opt_string_view(proposed.allowance_id),
        pattern_views(proposed.patterns@) == pattern_views(current.patterns@ + extra),
    ensures
        spec_site_list_edit_is_additive(current, proposed),
{
    let all = current.patterns@ + extra;
    assert(pattern_views(all).len() == all.len());
    assert(pattern_views(proposed.patterns@).len() == proposed.patterns@.len());
    assert forall|j: int| 0 <= j < current.patterns@.len() implies pattern_views(current.patterns@)[j]
        == pattern_views(proposed.patterns@)[j] by {
        assert(all[j] == current.patterns@[j]);
        assert(pattern_views(all)[j] == pattern_view(all[j]));
    }
    assert(pattern_views(current.patterns@) =~= pattern_views(proposed.patterns@).take(
        current.patterns@.len() as int,
    ));
}

/// The id of the application rule that blocks browsers which cannot load
/// the managed policy.
pub const UNSUPPORTED_BROWSER_RULE_ID: &'static str = "unsupported-browsers-hard";

/// How the browsers that cannot load the managed policy are recognised:
/// their executables, command names and desktop ids, the Tor Browser window
/// title, and the package identities of Chromium-family builds that cannot
/// load it.
pub open spec fn spec_unsupported_browser_matchers() -> Seq<(AppMatcherKind, Seq<char>)> {
    seq![
        (AppMatcherKind::ExecutableBasename, "epiphany"@),
        (AppMatcherKind::CommandName, "epiphany"@),
        (AppMatcherKind::DesktopId, "org.gnome.Epiphany.desktop"@),
        (AppMatcherKind::ExecutableBasename, "falkon"@),
        (AppMatcherKind::CommandName, "falkon"@),
        (AppMatcherKind::DesktopId, "org.kde.falkon.desktop"@),
        (AppMatcherKind::ExecutableBasename, "qutebrowser"@),
        (AppMatcherKind::CommandName, "qutebrowser"@),
        (AppMatcherKind::DesktopId, "org.qutebrowser.qutebrowser.desktop"@),
        (AppMatcherKind::ExecutableBasename, "midori"@),
        (AppMatcherKind::CommandName, "midori"@),
        (AppMatcherKind::DesktopId, "midori.desktop"@),
        (AppMatcherKind::ExecutableBasename, "min"@),
        (AppMatcherKind::CommandName, "min"@),
        (AppMatcherKind::DesktopId, "min.desktop"@),
        (AppMatcherKind::ExecutableBasename, "nyxt"@),
        (AppMatcherKind::CommandName, "nyxt"@),
        (AppMatcherKind::DesktopId, "nyxt.desktop"@),
        (AppMatcherKind::ExecutableBasename, "torbrowser"@),
        (AppMatcherKind::CommandName, "torbrowser"@),
        (AppMatcherKind::ExecutableBasename, "start-tor-browser"@),
        (AppMatcherKind::CommandName, "start-tor-browser"@),
        (AppMatcherKind::DesktopId, "torbrowser.desktop"@),
        (AppMatcherKind::WindowTitleContains, "Tor Browser"@),
        (AppMatcherKind::DesktopId, "org.chromium.Chromium.desktop"@),
        (AppMatcherKind::DesktopId, "brave_brave.desktop"@),
        (AppMatcherKind::DesktopId, "opera_opera.desktop"@),
        (AppMatcherKind::DesktopId, "vivaldi_vivaldi-stable.desktop"@),
    ]
}

/// The matchers of the unsupported-browser rule.
pub fn unsupported_browser_matchers() -> (r: Vec<(AppMatcherKind, &'static str)>)
    ensures
        r@.map_values(|m: (AppMatcherKind, &'static str)| (m.0, m.1@))
            == spec_unsupported_browser_matchers(),
{
    let r = vec![
        (AppMatcherKind::ExecutableBasename, "epiphany"),
        (AppMatcherKind::CommandName, "epiphany"),
        (AppMatcherKind::DesktopId, "org.gnome.Epiphany.desktop"),
        (AppMatcherKind::ExecutableBasename, "falkon"),
        (AppMatcherKind::CommandName, "falkon"),
        (AppMatcherKind::DesktopId, "org.kde.falkon.desktop"),
        (AppMatcherKind::ExecutableBasename, "qutebrowser"),
        (AppMatcherKind::CommandName, "qutebrowser"),
        (AppMatcherKind::DesktopId, "org.qutebrowser.qutebrowser.desktop"),
        (AppMatcherKind::ExecutableBasename, "midori"),
        (AppMatcherKind::CommandName, "midori"),
        (AppMatcherKind::DesktopId, "midori.desktop"),
        (AppMatcherKind::ExecutableBasename, "min"),
        (AppMatcherKind::CommandName, "min"),
        (AppMatcherKind::DesktopId, "min.desktop"),
        (AppMatcherKind::ExecutableBasename, "nyxt"),
        (AppMatcherKind::CommandName, "nyxt"),
        (AppMatcherKind::DesktopId, "nyxt.desktop"),
        (AppMatcherKind::ExecutableBasename, "torbrowser"),
        (AppMatcherKind::CommandName, "torbrowser"),
        (AppMatcherKind::ExecutableBasename, "start-tor-browser"),
        (AppMatcherKind::CommandName, "start-tor-browser"),
        (AppMatcherKind::DesktopId, "torbrowser.desktop"),
        (AppMatcherKind::WindowTitleContains, "Tor Browser"),
        (AppMatcherKind::DesktopId, "org.chromium.Chromium.desktop"),
        (AppMatcherKind::DesktopId, "brave_brave.desktop"),
        (AppMatcherKind::DesktopId, "opera_opera.desktop"),
        (AppMatcherKind::DesktopId, "vivaldi_vivaldi-stable.desktop"),
    ];
    assert(r@.map_values(|m: (AppMatcherKind, &'static str)| (m.0, m.1@))
        =~= spec_unsupported_browser_matchers());
    r
}

/// Whether a rule is the unsupported-browser rule exactly: its id, its
/// name, Tier 1, enabled, its matchers, no schedule and no allowance.
pub open spec fn is_unsupported_browser_rule(rule: AppRuleConfig) -> bool {
    &&& rule.id@ == UNSUPPORTED_BROWSER_RULE_ID@
    &&& rule.name@ == "Unsupported browsers hard block"@
    &&& rule.tier == RuleTier::Hard
    &&& rule.enabled
    &&& matcher_views(rule.matchers@) == spec_unsupported_browser_matchers()
    &&& rule.schedule_ids@.len() == 0
    &&& rule.allowance_id is None
}

/// The Tier 1 rule that blocks browsers which cannot load the managed
/// policy.
pub fn unsupported_browser_rule() -> (r: AppRuleConfig)
    ensures
        is_unsupported_browser_rule(r),
{
    let kinds = unsupported_browser_matchers();
    let mut matchers: Vec<AppMatcherConfig> = Vec::new();
    let mut i: usize = 0;
    while i < kinds.len()
        invariant
            i <= kinds@.len(),
            kinds@.map_values(|m: (AppMatcherKind, &'static str)| (m.0, m.1@))
                == spec_unsupported_browser_matchers(),
            matchers@.len() == i,
            matcher_views(matchers@) == spec_unsupported_browser_matchers().take(i as int),
        decreases kinds@.len() - i,
    {
        let (kind, value) = kinds[i];
        let ghost prev = matchers@;
        matchers.push(AppMatcherConfig { kind, value: owned(value) });
        assert(kinds@.map_values(|m: (AppMatcherKind, &'static str)| (m.0, m.1@))[i as int] == (
        kind, value@));
        assert forall|j: int| 0 <= j < i + 1 implies matcher_views(matchers@)[j]
            == spec_unsupported_browser_matchers().take(i + 1)[j] by {
            if j < i {
                assert(matchers@[j] == prev[j]);
                assert(matcher_views(prev)[j] == spec_unsupported_browser_matchers().take(i as int)[j]);
            } else {
                assert(matcher_view(matchers@[j]) == (kind, value@));
            }
        }
        assert(matcher_views(matchers@) =~= spec_unsupported_browser_matchers().take(i + 1));
        i = i + 1;
    }
    assert(spec_unsupported_browser_matchers().take(kinds@.len() as int)
        =~= spec_unsupported_browser_matchers());
    AppRuleConfig {
        id: owned(UNSUPPORTED_BROWSER_RULE_ID),
        name: owned("Unsupported browsers hard block"),
        tier: RuleTier::Hard,
        enabled: true,
        matchers,
        schedule_ids: Vec::new(),
        allowance_id: None,
    }
}

/// Whether two application rules are equal.
fn app_rules_equal_to_unsupported(rule: &AppRuleConfig, canonical: &AppRuleConfig) -> (r: bool)
    requires
        is_unsupported_browser_rule(*canonical),
    ensures
        r == is_unsupported_browser_rule(*rule),
{
    if !(str_equal(rule.id.as_str(), canonical.id.as_str()) && str_equal(
        rule.name.as_str(),
        canonical.name.as_str(),
    ) && rule.tier == canonical.tier && rule.enabled == canonical.enabled
        && string_lists_equal(&rule.schedule_ids, &canonical.schedule_ids)
        && optional_strings_equal(&rule.allowance_id, &canonical.allowance_id)
        && rule.matchers.len() == canonical.matchers.len()) {
        proof {
            if is_unsupported_browser_rule(*rule) {
                assert(string_views(rule.schedule_ids@) =~= string_views(canonical.schedule_ids@));
                assert(matcher_views(rule.matchers@).len() == rule.matchers@.len());
                assert(matcher_views(canonical.matchers@).len() == canonical.matchers@.len());
            }
        }
        return false;
    }
    let same = matchers_start_with(&canonical.matchers, &rule.matchers);
    proof {
        assert(matcher_views(rule.matchers@).take(canonical.matchers@.len() as int) =~= matcher_views(
            rule.matchers@,
        ));
        assert(string_views(rule.schedule_ids@).len() == 0);
    }
    same
}

/// The first position of a rule with id `id`.
pub open spec fn rule_position(rules: Seq<AppRuleConfig>, id: Seq<char>) -> Option<int>
    decreases rules.len(),
{
    if rules.len() == 0 {
        None
    } else if rules[0].id@ == id {
        Some(0)
    } else {
        match rule_position(rules.drop_first(), id) {
            Some(i) => Some(i + 1),
            None => None,
        }
    }
}

/// What `rule_position` is: the first index whose rule has the id, or
/// `None` when no rule has it.
pub proof fn lemma_rule_position(rules: Seq<AppRuleConfig>, id: Seq<char>)
    ensures
        match rule_position(rules, id) {
            Some(i) => 0 <= i < rules.len() && rules[i].id@ == id && forall|j: int|
                0 <= j < i ==> #[trigger] rules[j].id@ != id,
            None => forall|j: int| 0 <= j < rules.len() ==> #[trigger] rules[j].id@ != id,
        },
    decreases rules.len(),
{
    if rules.len() > 0 {
        lemma_rule_position(rules.drop_first(), id);
        assert forall|j: int| 1 <= j < rules.len() implies rules[j] == rules.drop_first()[j - 1] by {}
    }
}

/// The position of the first rule with id `id`.
fn position_of(rules: &Vec<AppRuleConfig>, id: &str) -> (r: Option<usize>)
    ensures
        match rule_position(rules@, id@) {
            Some(i) => r matches Some(k) && k as int == i,
            None => r is None,
        },
{
    let mut i: usize = 0;
    while i < rules.len()
        invariant
            i <= rules@.len(),
            forall|j: int| 0 <= j < i ==> #[trigger] rules@[j].id@ != id@,
        decreases rules@.len() - i,
    {
        if str_equal(rules[i].id.as_str(), id) {
            proof {
                lemma_rule_position(rules@, id@);
                match rule_position(rules@, id@) {
                    Some(p) => {
                        if p < i {
                            assert(rules@[p].id@ != id@);
                        }
                        if p > i {
                            assert(rules@[i as int].id@ != id@);
                        }
                    },
                    None => {
                        assert(rules@[i as int].id@ != id@);
                    },
                }
            }
            return Some(i);
        }
        i = i + 1;
    }
    proof {
        lemma_rule_position(rules@, id@);
        match rule_position(rules@, id@) {
            Some(p) => {
                assert(rules@[p].id@ != id@);
            },
            None => {},
        }
    }
    None
}

/// What ensuring the mandatory application rules does to a policy: with
/// unsupported browsers blocked, the first rule with the unsupported-browser
/// id becomes that rule exactly (or it is appended when there is none);
/// otherwise the first rule with that id is removed. `changed` tells whether
/// the list of application rules changed; nothing else changes.
pub open spec fn mandatory_app_rules_ensured(before: PolicyConfig, after: PolicyConfig, changed: bool) -> bool {
    let old_rules = before.app_rules@;
    let new_rules = after.app_rules@;
    &&& after.rules == before.rules
    &&& after.strict_mode == before.strict_mode
    &&& if !before.strict_mode.block_unsupported_browsers {
        match rule_position(old_rules, UNSUPPORTED_BROWSER_RULE_ID@) {
            Some(i) => changed && new_rules == old_rules.remove(i),
            None => !changed && new_rules == old_rules,
        }
    } else {
        match rule_position(old_rules, UNSUPPORTED_BROWSER_RULE_ID@) {
            Some(i) => if is_unsupported_browser_rule(old_rules[i]) {
                !changed && new_rules == old_rules
            } else {
                &&& changed
                &&& new_rules.len() == old_rules.len()
                &&& is_unsupported_browser_rule(new_rules[i])
                &&& forall|j: int| 0 <= j < old_rules.len() && j != i ==> new_rules[j] == old_rules[j]
            },
            None => {
                &&& changed
                &&& new_rules.len() == old_rules.len() + 1
                &&& new_rules.drop_last() == old_rules
                &&& is_unsupported_browser_rule(new_rules.last())
            },
        }
    }
}

/// Puts the unsupported-browser rule in place when unsupported browsers are
/// blocked, and takes it out when they are not; tells whether the
/// application rules changed.
pub fn ensure_mandatory_app_rules(config: &mut PolicyConfig) -> (r: bool)
    ensures
        mandatory_app_rules_ensured(*old(config), *final(config), r),
{
    let position = position_of(&config.app_rules, UNSUPPORTED_BROWSER_RULE_ID);
    proof {
        lemma_rule_position(config.app_rules@, UNSUPPORTED_BROWSER_RULE_ID@);
    }
    if !config.strict_mode.block_unsupported_browsers {
        return match position {
            Some(index) => {
                config.app_rules.remove(index);
                true
            },
            None => false,
        };
    }
    let rule = unsupported_browser_rule();
    match position {
        Some(index) => {
            assert(rule_position(config.app_rules@, UNSUPPORTED_BROWSER_RULE_ID@) == Some(index as int));
            if app_rules_equal_to_unsupported(&config.app_rules[index], &rule) {
                return false;
            }
            config.app_rules.set(index, rule);
            true
        },
        None => {
            config.app_rules.push(rule);
            assert(config.app_rules@.drop_last() =~= old(config).app_rules@);
            true
        },
    }
}

/// Ensuring the mandatory rules a second time changes nothing. When
/// unsupported browsers are allowed, this holds when at most one rule
/// carries the unsupported-browser id (each call removes only the first).
pub proof fn law_ensuring_mandatory_rules_twice_changes_nothing(
    first: PolicyConfig,
    second: PolicyConfig,
    third: PolicyConfig,
    changed_first: bool,
    changed_second: bool,
)
    requires
        mandatory_app_rules_ensured(first, second, changed_first),
        mandatory_app_rules_ensured(second, third, changed_second),
        !first.strict_mode.block_unsupported_browsers ==> forall|a: int, b: int|
            0 <= a < b < first.app_rules@.len() ==> !(#[trigger] first.app_rules@[a].id@
                == UNSUPPORTED_BROWSER_RULE_ID@ && #[trigger] first.app_rules@[b].id@
                == UNSUPPORTED_BROWSER_RULE_ID@),
    ensures
        !changed_second,
        third.app_rules@ == second.app_rules@,
{
    let id = UNSUPPORTED_BROWSER_RULE_ID@;
    let old_rules = first.app_rules@;
    let new_rules = second.app_rules@;
    lemma_rule_position(old_rules, id);
    lemma_rule_position(new_rules, id);
    if !first.strict_mode.block_unsupported_browsers {
        match rule_position(old_rules, id) {
            Some(i) => {
                assert forall|j: int| 0 <= j < new_rules.len() implies #[trigger] new_rules[j].id@
                    != id by {
                    if j < i {
                        assert(new_rules[j] == old_rules[j]);
                    } else {
                        assert(new_rules[j] == old_rules[j + 1]);
                    }
                }
            },
            None => {},
        }
        assert(rule_position(new_rules, id) is None);
    } else {
        match rule_position(old_rules, id) {
            Some(i) => {
                if !is_unsupported_browser_rule(old_rules[i]) {
                    assert(forall|j: int| 0 <= j < i ==> new_rules[j] == old_rules[j]);
                    assert(rule_position(new_rules, id) == Some(i));
                }
            },
            None => {
                let last = new_rules.len() - 1;
                assert(forall|j: int| 0 <= j < last ==> new_rules[j] == new_rules.drop_last()[j]);
                assert(rule_position(new_rules, id) == Some(last));
            },
        }
    }
}

} // verus!
