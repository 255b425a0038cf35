use vstd::prelude::*;

use crate::daemon_error::DaemonError;
use crate::detox::TieredItem;
use crate::policy::{AppRuleConfig, PolicyConfig, RuleConfig, RuleTier};
use crate::policy_import::{find_by_id, item_views, key_position, lemma_key_position, ImportItem};
use crate::rule_edits::{
    app_rule_edit_is_additive, matcher_views, opt_string_view, pattern_views, site_list_edit_is_additive,
    spec_app_rule_edit_is_additive, spec_site_list_edit_is_additive,
};
use crate::schedule_targets::{contains_id, RuleActivity};
use crate::strings::{clone_opt_string, concat3, str_equal};
use crate::text::string_views;

verus! {

/// A rule that the GUI edits in place.
pub trait EditableRule: TieredItem {
    /// Whether a proposed rule only adds to the current one (by their views).
    spec fn additive(current: Self::V, proposed: Self::V) -> bool;

    /// The allowance of a rule, by its view.
    spec fn allowance_of(v: Self::V) -> Option<Seq<char>>;

    /// Whether `proposed` only adds to this rule.
    fn edit_is_additive(&self, proposed: &Self) -> (r: bool)
        ensures
            r == Self::additive(self@, proposed@),
    ;

    /// The allowance of this rule.
    fn item_allowance_id(&self) -> (r: &Option<String>)
        ensures
            opt_string_view(*r) == Self::allowance_of(self@),
    ;
}

impl EditableRule for RuleConfig {
    open spec fn additive(current: Self::V, proposed: Self::V) -> bool {
        &&& current.0 == proposed.0
        &&& current.1 == proposed.1
        &&& current.2 == proposed.2
        &&& current.3 == proposed.3
        &&& current.5 == proposed.5
        &&& current.6 == proposed.6
        &&& proposed.4.len() >= current.4.len()
        &&& current.4 == proposed.4.take(current.4.len() as int)
    }

    open spec fn allowance_of(v: Self::V) -> Option<Seq<char>> {
        v.6
    }

    fn edit_is_additive(&self, proposed: &Self) -> (r: bool) {
        let r = site_list_edit_is_additive(self, proposed);
        assert(pattern_views(self.patterns@).len() == self.patterns@.len());
        assert(pattern_views(proposed.patterns@).len() == proposed.patterns@.len());
        r
    }

    fn item_allowance_id(&self) -> (r: &Option<String>) {
        &self.allowance_id
    }
}

/// An edit that counts as additive keeps everything of a site list but its
/// patterns, which it only extends: the same id, name, tier, enabled flag,
/// schedules and allowance, and the current patterns, unchanged and in
/// order, at the front of the proposed ones. So neither disabling a list nor
/// changing its tier, its schedules or one of its patterns gets past the
/// protection of active lists.
pub proof fn law_additive_site_list_edits_only_append_patterns(current: RuleConfig, proposed: RuleConfig)
    ensures
        (spec_site_list_edit_is_additive(current, proposed) || RuleConfig::additive(current@, proposed@)) ==> {
            &&& current.id@ == proposed.id@
            &&& current.name@ == proposed.name@
            &&& current.tier == proposed.tier
            &&& current.enabled == proposed.enabled
            &&& string_views(current.schedule_ids@) == string_views(proposed.schedule_ids@)
            &&& opt_string_view(current.allowance_id) == opt_string_view(proposed.allowance_id)
            &&& current.patterns@.len() <= proposed.patterns@.len()
            &&& forall|i: int|
                0 <= i < current.patterns@.len() ==> {
                    &&& (#[trigger] current.patterns@[i]).kind == proposed.patterns@[i].kind
                    &&& current.patterns@[i].value@ == proposed.patterns@[i].value@
                    &&& current.patterns@[i].match_subdomains == proposed.patterns@[i].match_subdomains
                }
        },
{
    if spec_site_list_edit_is_additive(current, proposed) || RuleConfig::additive(current@, proposed@) {
        let cv = pattern_views(current.patterns@);
        let pv = pattern_views(proposed.patterns@);
        assert(cv.len() == current.patterns@.len());
        assert(pv.len() == proposed.patterns@.len());
        assert forall|i: int| 0 <= i < current.patterns@.len() implies {
            &&& (#[trigger] current.patterns@[i]).kind == proposed.patterns@[i].kind
            &&& current.patterns@[i].value@ == proposed.patterns@[i].value@
            &&& current.patterns@[i].match_subdomains == proposed.patterns@[i].match_subdomains
        } by {
            assert(cv[i] == pv.take(current.patterns@.len() as int)[i]);
        }
    }
}

/// An edit that counts as additive keeps everything of an application rule
/// but its matchers, which it only extends: the same id, name, tier,
/// enabled flag, schedules and allowance, and the current matchers,
/// unchanged and in order, at the front of the proposed ones.
pub proof fn law_additive_app_rule_edits_only_append_matchers(current: AppRuleConfig, proposed: AppRuleConfig)
    ensures
        (spec_app_rule_edit_is_additive(current, proposed) || AppRuleConfig::additive(current@, proposed@)) ==> {
            &&& current.id@ == proposed.id@
            &&& current.name@ == proposed.name@
            &&& current.tier == proposed.tier
            &&& current.enabled == proposed.enabled
            &&& string_views(current.schedule_ids@) == string_views(proposed.schedule_ids@)
            &&& opt_string_view(current.allowance_id) == opt_string_view(proposed.allowance_id)
            &&& current.matchers@.len() <= proposed.matchers@.len()
            &&& forall|i: int|
                0 <= i < current.matchers@.len() ==> {
                    &&& (#[trigger] current.matchers@[i]).kind == proposed.matchers@[i].kind
                    &&& current.matchers@[i].value@ == proposed.matchers@[i].value@
                }
        },
{
    if spec_app_rule_edit_is_additive(current, proposed) || AppRuleConfig::additive(current@, proposed@) {
        let cv = matcher_views(current.matchers@);
        let pv = matcher_views(proposed.matchers@);
        assert(cv.len() == current.matchers@.len());
        assert(pv.len() == proposed.matchers@.len());
        assert forall|i: int| 0 <= i < current.matchers@.len() implies {
            &&& (#[trigger] current.matchers@[i]).kind == proposed.matchers@[i].kind
            &&& current.matchers@[i].value@ == proposed.matchers@[i].value@
        } by {
            assert(cv[i] == pv.take(current.matchers@.len() as int)[i]);
        }
    }
}

impl EditableRule for AppRuleConfig {
    open spec fn additive(current: Self::V, proposed: Self::V) -> bool {
        &&& current.0 == proposed.0
        &&& current.1 == proposed.1
        &&& current.2 == proposed.2
        &&& current.3 == proposed.3
        &&& current.5 == proposed.5
        &&& current.6 == proposed.6
        &&& proposed.4.len() >= current.4.len()
        &&& current.4 == proposed.4.take(current.4.len() as int)
    }

    open spec fn allowance_of(v: Self::V) -> Option<Seq<char>> {
        v.6
    }

    fn edit_is_additive(&self, proposed: &Self) -> (r: bool) {
        let r = app_rule_edit_is_additive(self, proposed);
        assert(matcher_views(self.matchers@).len() == self.matchers@.len());
        assert(matcher_views(proposed.matchers@).len() == proposed.matchers@.len());
        r
    }

    fn item_allowance_id(&self) -> (r: &Option<String>) {
        &self.allowance_id
    }
}

/// The refusal to edit a rule covered by an active Detox.
pub open spec fn detox_edit_message(kind: Seq<char>, id: Seq<char>) -> Seq<char> {
    kind + " '"@ + id + "' is covered by an active detox session and cannot be edited"@
}

/// The refusal to edit an active rule.
pub open spec fn active_edit_message(kind: Seq<char>, id: Seq<char>) -> Seq<char> {
    kind + " '"@ + id + "' is currently active and cannot be edited"@
}

/// What saving `rule` does to `rules`: a rule with a new id is appended; the
/// first rule with its id is replaced, unless the save changes it and, not
/// only adding to it, would edit a rule covered by an active Detox (that is
/// refused first) or an active rule (refused unless `tier1_override` holds
/// and the rule is Tier 1).
pub open spec fn upsert_outcome<T: EditableRule>(
    rules: Seq<T::V>,
    rule: T::V,
    in_detox: Seq<Seq<char>>,
    active: Seq<Seq<char>>,
    tier1_override: bool,
    kind: Seq<char>,
) -> Result<Seq<T::V>, Seq<char>> {
    match key_position::<T>(rules, T::key_of(rule)) {
        Some(i) => {
            let current = rules[i];
            let id = T::key_of(current);
            if current != rule && in_detox.contains(id) && !T::additive(current, rule) {
                Err(detox_edit_message(kind, id))
            } else if current != rule && active.contains(id) && !T::additive(current, rule) && !(
            tier1_override && T::tier_of(current) == RuleTier::Hard) {
                Err(active_edit_message(kind, id))
            } else {
                Ok(rules.update(i, rule))
            }
        },
        None => Ok(rules.push(rule)),
    }
}

/// The allowance that a save may leave unused: the one the first rule with
/// the saved id had, when the saved rule names another.
pub open spec fn released_allowance<T: EditableRule>(rules: Seq<T::V>, rule: T::V) -> Option<Seq<char>> {
    match key_position::<T>(rules, T::key_of(rule)) {
        Some(i) => if T::allowance_of(rules[i]) != T::allowance_of(rule) {
            T::allowance_of(rules[i])
        } else {
            None
        },
        None => None,
    }
}

/// The view of an optional string.
pub open spec fn opt_view(o: Option<String>) -> Option<Seq<char>> {
    opt_string_view(o)
}

/// Saves `rule` into `rules`, with the checks of `upsert_outcome`; gives the
/// allowance that the save may leave unused.
fn upsert_rule<T: EditableRule>(
    rules: &mut Vec<T>,
    rule: T,
    in_detox: &[String],
    active: &[String],
    tier1_override: bool,
    kind: &str,
) -> (r: Result<Option<String>, DaemonError>)
    ensures
        match upsert_outcome::<T>(
            item_views(old(rules)@),
            rule@,
            string_views(in_detox@),
            string_views(active@),
            tier1_override,
            kind@,
        ) {
            Ok(after) => item_views(final(rules)@) == after && (r matches Ok(released) && opt_view(released)
                == released_allowance::<T>(item_views(old(rules)@), rule@)),
            Err(m) => r matches Err(DaemonError::InvalidRequest(e)) && e@ == m && final(rules)@ == old(
                rules,
            )@,
        },
{
    let ghost views = item_views(rules@);
    proof {
        lemma_key_position::<T>(views, T::key_of(rule@));
    }
    match find_by_id(rules, rule.item_id()) {
        Some(index) => {
            assert(views[index as int] == rules@[index as int]@);
            let current = &rules[index];
            let id = current.item_id();
            let same = current.same_item(&rule);
            let additive = current.edit_is_additive(&rule);
            if !same && contains_id(in_detox, id) && !additive {
                let message = concat3(kind, " '", id);
                let message = concat3(
                    message.as_str(),
                    "' is covered by an active detox session and cannot be edited",
                    "",
                );
                proof {
                    reveal_strlit("");
                }
                assert(message@ =~= detox_edit_message(kind@, id@));
                return Err(DaemonError::InvalidRequest(message));
            }
            if !same && contains_id(active, id) && !additive && !(tier1_override && current.item_tier()
                == RuleTier::Hard) {
                let message = concat3(kind, " '", id);
                let message = concat3(message.as_str(), "' is currently active and cannot be edited", "");
                proof {
                    reveal_strlit("");
                }
                assert(message@ =~= active_edit_message(kind@, id@));
                return Err(DaemonError::InvalidRequest(message));
            }
            let old_allowance = clone_opt_string(current.item_allowance_id());
            let changed = match (&old_allowance, rule.item_allowance_id()) {
                (Some(a), Some(b)) => !str_equal(a.as_str(), b.as_str()),
                (None, None) => false,
                _ => true,
            };
            let ghost rule_view = rule@;
            rules.set(index, rule);
            assert(item_views(rules@) =~= views.update(index as int, rule_view));
            if changed {
                Ok(old_allowance)
            } else {
                Ok(None)
            }
        },
        None => {
            let ghost rule_view = rule@;
            rules.push(rule);
            assert(item_views(rules@) =~= views.push(rule_view));
            Ok(None)
        },
    }
}

/// What deleting the rule with id `id` does to `rules`: the first rule with
/// that id is removed, unless there is none, it is covered by an active
/// Detox (refused first) or it is active.
pub open spec fn delete_outcome<T: EditableRule>(
    rules: Seq<T::V>,
    id: Seq<char>,
    in_detox: Seq<Seq<char>>,
    active: Seq<Seq<char>>,
    kind: Seq<char>,
) -> Result<(Seq<T::V>, T::V), Seq<char>> {
    match key_position::<T>(rules, id) {
        None => Err(kind + " '"@ + id + "' does not exist"@),
        Some(i) => if in_detox.contains(id) {
            Err(detox_edit_message(kind, id))
        } else if active.contains(id) {
            Err(active_edit_message(kind, id))
        } else {
            Ok((rules.remove(i), rules[i]))
        },
    }
}

/// Deletes the rule with id `id` from `rules`, with the checks of
/// `delete_outcome`; gives the allowance of the removed rule.
fn delete_rule<T: EditableRule>(
    rules: &mut Vec<T>,
    id: &str,
    in_detox: &[String],
    active: &[String],
    kind: &str,
) -> (r: Result<Option<String>, DaemonError>)
    ensures
        match delete_outcome::<T>(
            item_views(old(rules)@),
            id@,
            string_views(in_detox@),
            string_views(active@),
            kind@,
        ) {
            Ok((after, removed)) => item_views(final(rules)@) == after && (r matches Ok(allowance)
                && opt_view(allowance) == T::allowance_of(removed)),
            Err(m) => r matches Err(DaemonError::InvalidRequest(e)) && e@ == m && final(rules)@ == old(
                rules,
            )@,
        },
{
    let ghost views = item_views(rules@);
    proof {
        lemma_key_position::<T>(views, id@);
    }
    match find_by_id(rules, id) {
        None => {
            let message = concat3(kind, " '", id);
            let message = concat3(message.as_str(), "' does not exist", "");
            proof {
                reveal_strlit("");
            }
            assert(message@ =~= kind@ + " '"@ + id@ + "' does not exist"@);
            Err(DaemonError::InvalidRequest(message))
        },
        Some(index) => {
            if contains_id(in_detox, id) {
                let message = concat3(kind, " '", id);
                let message = concat3(
                    message.as_str(),
                    "' is covered by an active detox session and cannot be edited",
                    "",
                );
                proof {
                    reveal_strlit("");
                }
                assert(message@ =~= detox_edit_message(kind@, id@));
                return Err(DaemonError::InvalidRequest(message));
            }
            if contains_id(active, id) {
                let message = concat3(kind, " '", id);
                let message = concat3(message.as_str(), "' is currently active and cannot be edited", "");
                proof {
                    reveal_strlit("");
                }
                assert(message@ =~= active_edit_message(kind@, id@));
                return Err(DaemonError::InvalidRequest(message));
            }
            let removed = rules.remove(index);
            assert(item_views(rules@) =~= views.remove(index as int));
            assert(views[index as int] == removed@);
            Ok(clone_opt_string(removed.item_allowance_id()))
        },
    }
}

/// Saves a site list into the policy: a new id is appended, an existing one
/// is replaced, unless the save changes it and, not only adding to it,
/// touches a site list covered by an active Detox or an active one (an
/// active Tier 1 site list may still change while the Tier 1 edit window is
/// open). Gives the allowance the save may leave unused: the caller removes
/// it when no rule names it any more.
pub fn upsert_site_list(
    config: &mut PolicyConfig,
    rule: RuleConfig,
    activity: &RuleActivity,
    tier1_edit_window_open: bool,
) -> (r: Result<Option<String>, DaemonError>)
    ensures
        final(config).app_rules@ == old(config).app_rules@,
        final(config).strict_mode == old(config).strict_mode,
        match upsert_outcome::<RuleConfig>(
            item_views(old(config).rules@),
            rule@,
            string_views(activity.site_rules_in_detox@),
            string_views(activity.active_site_rules@),
            tier1_edit_window_open,
            "site list"@,
        ) {
            Ok(after) => item_views(final(config).rules@) == after && (r matches Ok(released) && opt_view(
                released,
            ) == released_allowance::<RuleConfig>(item_views(old(config).rules@), rule@)),
            Err(m) => r matches Err(DaemonError::InvalidRequest(e)) && e@ == m && final(config).rules@ == old(
                config,
            ).rules@,
        },
{
    upsert_rule(
        &mut config.rules,
        rule,
        activity.site_rules_in_detox.as_slice(),
        activity.active_site_rules.as_slice(),
        tier1_edit_window_open,
        "site list",
    )
}

/// Saves an application rule into the policy, as a site list is saved but
/// with no Tier 1 exception.
pub fn upsert_app_rule(config: &mut PolicyConfig, rule: AppRuleConfig, activity: &RuleActivity) -> (r: Result<
    Option<String>,
    DaemonError,
>)
    ensures
        final(config).rules@ == old(config).rules@,
        final(config).strict_mode == old(config).strict_mode,
        match upsert_outcome::<AppRuleConfig>(
            item_views(old(config).app_rules@),
            rule@,
            string_views(activity.app_rules_in_detox@),
            string_views(activity.active_app_rules@),
            false,
            "app rule"@,
        ) {
            Ok(after) => item_views(final(config).app_rules@) == after && (r matches Ok(released)
                && opt_view(released) == released_allowance::<AppRuleConfig>(
                item_views(old(config).app_rules@),
                rule@,
            )),
            Err(m) => r matches Err(DaemonError::InvalidRequest(e)) && e@ == m && final(config).app_rules@
                == old(config).app_rules@,
        },
{
    upsert_rule(
        &mut config.app_rules,
        rule,
        activity.app_rules_in_detox.as_slice(),
        activity.active_app_rules.as_slice(),
        false,
        "app rule",
    )
}

/// Deletes a site list from the policy, unless it does not exist, is
/// covered by an active Detox or is active. Gives the allowance of the
/// removed site list: the caller removes it when no rule names it any more.
pub fn delete_site_list(config: &mut PolicyConfig, id: &str, activity: &RuleActivity) -> (r: Result<
    Option<String>,
    DaemonError,
>)
    ensures
        final(config).app_rules@ == old(config).app_rules@,
        final(config).strict_mode == old(config).strict_mode,
        match delete_outcome::<RuleConfig>(
            item_views(old(config).rules@),
            id@,
            string_views(activity.site_rules_in_detox@),
            string_views(activity.active_site_rules@),
            "site list"@,
        ) {
            Ok((after, removed)) => item_views(final(config).rules@) == after && (r matches Ok(allowance)
                && opt_view(allowance) == removed.6),
            Err(m) => r matches Err(DaemonError::InvalidRequest(e)) && e@ == m && final(config).rules@ == old(
                config,
            ).rules@,
        },
{
    delete_rule(
        &mut config.rules,
        id,
        activity.site_rules_in_detox.as_slice(),
        activity.active_site_rules.as_slice(),
        "site list",
    )
}

/// Deletes an application rule from the policy, as a site list is deleted.
pub fn delete_app_rule(config: &mut PolicyConfig, id: &str, activity: &RuleActivity) -> (r: Result<
    Option<String>,
    DaemonError,
>)
    ensures
        final(config).rules@ == old(config).rules@,
        final(config).strict_mode == old(config).strict_mode,
        match delete_outcome::<AppRuleConfig>(
            item_views(old(config).app_rules@),
            id@,
            string_views(activity.app_rules_in_detox@),
            string_views(activity.active_app_rules@),
            "app rule"@,
        ) {
            Ok((after, removed)) => item_views(final(config).app_rules@) == after && (r matches Ok(
                allowance,
            ) && opt_view(allowance) == removed.6),
            Err(m) => r matches Err(DaemonError::InvalidRequest(e)) && e@ == m && final(config).app_rules@
                == old(config).app_rules@,
        },
{
    delete_rule(
        &mut config.app_rules,
        id,
        activity.app_rules_in_detox.as_slice(),
        activity.active_app_rules.as_slice(),
        "app rule",
    )
}

/// Whether some site list or application rule of the policy names the
/// allowance `allowance_id`.
pub open spec fn spec_allowance_referenced(config: PolicyConfig, allowance_id: Seq<char>) -> bool {
    (exists|j: int| 0 <= j < config.rules@.len() && opt_string_view(
        (#[trigger] config.rules@[j]).allowance_id,
    ) == Some(allowance_id)) || (exists|j: int| 0 <= j < config.app_rules@.len() && opt_string_view(
        (#[trigger] config.app_rules@[j]).allowance_id,
    ) == Some(allowance_id))
}

/// Whether some rule of `rules` names the allowance.
fn names_allowance<T: EditableRule>(rules: &Vec<T>, allowance_id: &str) -> (r: bool)
    ensures
        r == exists|j: int| 0 <= j < rules@.len() && T::allowance_of((#[trigger] rules@[j])@) == Some(
            allowance_id@,
        ),
{
    let mut i: usize = 0;
    while i < rules.len()
        invariant
            i <= rules@.len(),
            forall|j: int| 0 <= j < i ==> T::allowance_of((#[trigger] rules@[j])@) != Some(allowance_id@),
        decreases rules@.len() - i,
    {
        let named = match rules[i].item_allowance_id() {
            Some(a) => str_equal(a.as_str(), allowance_id),
            None => false,
        };
        if named {
            return true;
        }
        i = i + 1;
    }
    false
}

/// Whether some site list or application rule of the policy still names an
/// allowance; one that none names is removed from the policy.
pub fn allowance_referenced(config: &PolicyConfig, allowance_id: &str) -> (r: bool)
    ensures
        r == spec_allowance_referenced(*config, allowance_id@),
{
    let by_site_list = names_allowance(&config.rules, allowance_id);
    let by_app_rule = names_allowance(&config.app_rules, allowance_id);
    proof {
        if by_site_list {
            let j = choose|j: int| 0 <= j < config.rules@.len() && RuleConfig::allowance_of(
                (#[trigger] config.rules@[j])@,
            ) == Some(allowance_id@);
            assert(opt_string_view(config.rules@[j].allowance_id) == Some(allowance_id@));
        }
        if by_app_rule {
            let j = choose|j: int| 0 <= j < config.app_rules@.len() && AppRuleConfig::allowance_of(
                (#[trigger] config.app_rules@[j])@,
            ) == Some(allowance_id@);
            assert(opt_string_view(config.app_rules@[j].allowance_id) == Some(allowance_id@));
        }
    }
    by_site_list || by_app_rule
}

/// A save that changes nothing, or only adds to the stored rule, is never
/// refused, whatever is active or covered by a Detox.
pub proof fn law_additive_or_unchanged_saves_are_allowed<T: EditableRule>(
    rules: Seq<T::V>,
    rule: T::V,
    in_detox: Seq<Seq<char>>,
    active: Seq<Seq<char>>,
    tier1_override: bool,
    kind: Seq<char>,
)
    requires
        match key_position::<T>(rules, T::key_of(rule)) {
            Some(i) => rules[i] == rule || T::additive(rules[i], rule),
            None => true,
        },
    ensures
        upsert_outcome::<T>(rules, rule, in_detox, active, tier1_override, kind) is Ok,
{
}

/// After a save goes through, looking the rule up by its id gives back the
/// saved rule.
pub proof fn law_saved_rule_is_found_by_its_id<T: EditableRule>(
    rules: Seq<T::V>,
    rule: T::V,
    in_detox: Seq<Seq<char>>,
    active: Seq<Seq<char>>,
    tier1_override: bool,
    kind: Seq<char>,
)
    requires
        upsert_outcome::<T>(rules, rule, in_detox, active, tier1_override, kind) is Ok,
    ensures
        match upsert_outcome::<T>(rules, rule, in_detox, active, tier1_override, kind) {
            Ok(after) => match key_position::<T>(after, T::key_of(rule)) {
                Some(i) => after[i] == rule,
                None => false,
            },
            Err(_) => false,
        },
{
    let key = T::key_of(rule);
    lemma_key_position::<T>(rules, key);
    let after = upsert_outcome::<T>(rules, rule, in_detox, active, tier1_override, kind)->Ok_0;
    lemma_key_position::<T>(after, key);
    match key_position::<T>(rules, key) {
        Some(i) => {
            assert(after == rules.update(i, rule));
            assert(after[i] == rule);
            match key_position::<T>(after, key) {
                Some(p) => {
                    if p < i {
                        assert(after[p] == rules[p]);
                    }
                    if p > i {
                        assert(T::key_of(after[i]) != key);
                    }
                },
                None => {
                    assert(T::key_of(after[i]) != key);
                },
            }
        },
        None => {
            assert(after == rules.push(rule));
            let last = rules.len() as int;
            assert(after[last] == rule);
            match key_position::<T>(after, key) {
                Some(p) => {
                    if p < last {
                        assert(after[p] == rules[p]);
                    }
                },
                None => {
                    assert(T::key_of(after[last]) != key);
                },
            }
        },
    }
}

} // verus!
