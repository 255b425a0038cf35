use vstd::prelude::*;

use crate::daemon_error::DaemonError;
use crate::detox::TieredItem;
use crate::ids::same_id_membership;
use crate::policy::{AppRuleConfig, PolicyConfig, RuleConfig, RuleTier};
use crate::policy_import::item_views;
use crate::strings::{concat3, owned, str_equal};
use crate::text::string_views;

verus! {

/// A rule that can be attached to schedules.
pub trait ScheduledItem: TieredItem {
    /// The schedules of a rule, by its view.
    spec fn schedules_of(v: Self::V) -> Seq<Seq<char>>;

    /// A rule with its schedules replaced.
    spec fn with_schedules(v: Self::V, schedules: Seq<Seq<char>>) -> Self::V;

    /// The schedules of this rule.
    fn item_schedule_ids(&self) -> (r: &Vec<String>)
        ensures
            string_views(r@) == Self::schedules_of(self@),
    ;

    /// Replaces the schedules of this rule.
    fn set_schedule_ids(&mut self, ids: Vec<String>)
        ensures
            final(self)@ == Self::with_schedules(old(self)@, string_views(ids@)),
    ;
}

impl ScheduledItem for RuleConfig {
    open spec fn schedules_of(v: Self::V) -> Seq<Seq<char>> {
        v.5
    }

    open spec fn with_schedules(v: Self::V, schedules: Seq<Seq<char>>) -> Self::V {
        (v.0, v.1, v.2, v.3, v.4, schedules, v.6)
    }

    fn item_schedule_ids(&self) -> (r: &Vec<String>) {
        &self.schedule_ids
    }

    fn set_schedule_ids(&mut self, ids: Vec<String>) {
        self.schedule_ids = ids;
    }
}

impl ScheduledItem for AppRuleConfig {
    open spec fn schedules_of(v: Self::V) -> Seq<Seq<char>> {
        v.5
    }

    open spec fn with_schedules(v: Self::V, schedules: Seq<Seq<char>>) -> Self::V {
        (v.0, v.1, v.2, v.3, v.4, schedules, v.6)
    }

    fn item_schedule_ids(&self) -> (r: &Vec<String>) {
        &self.schedule_ids
    }

    fn set_schedule_ids(&mut self, ids: Vec<String>) {
        self.schedule_ids = ids;
    }
}

/// Whether `id` is one of `ids`.
pub fn contains_id(ids: &[String], id: &str) -> (r: bool)
    ensures
        r == string_views(ids@).contains(id@),
{
    let mut i: usize = 0;
    while i < ids.len()
        invariant
            i <= ids@.len(),
            forall|j: int| 0 <= j < i ==> string_views(ids@)[j] != id@,
        decreases ids@.len() - i,
    {
        if str_equal(ids[i].as_str(), id) {
            assert(string_views(ids@)[i as int] == id@);
            return true;
        }
        i = i + 1;
    }
    false
}

/// `ids` without any occurrence of `id`.
pub open spec fn without_id(ids: Seq<Seq<char>>, id: Seq<char>) -> Seq<Seq<char>>
    decreases ids.len(),
{
    if ids.len() == 0 {
        ids
    } else if ids.last() == id {
        without_id(ids.drop_last(), id)
    } else {
        without_id(ids.drop_last(), id).push(ids.last())
    }
}

/// A copy of `ids` without any occurrence of `id`.
fn remove_id(ids: &Vec<String>, id: &str) -> (r: Vec<String>)
    ensures
        string_views(r@) == without_id(string_views(ids@), id@),
{
    let ghost all = string_views(ids@);
    let mut r: Vec<String> = Vec::new();
    let mut i: usize = 0;
    while i < ids.len()
        invariant
            i <= ids@.len(),
            all == string_views(ids@),
            string_views(r@) == without_id(all.take(i as int), id@),
        decreases ids@.len() - i,
    {
        proof {
            assert(all.take(i + 1).drop_last() =~= all.take(i as int));
            assert(all.take(i + 1).last() == ids@[i as int]@);
        }
        if !str_equal(ids[i].as_str(), id) {
            let ghost before = r@;
            r.push(ids[i].clone());
            assert(string_views(r@) =~= string_views(before).push(ids@[i as int]@));
        }
        i = i + 1;
    }
    assert(all.take(ids@.len() as int) =~= all);
    r
}

/// Whether moving the targets of schedule `schedule_id` to `requested`
/// changes rule `v`: it is not Tier 1, and it is attached to the schedule
/// but not requested, or requested but not attached.
pub open spec fn target_changes<T: ScheduledItem>(
    v: T::V,
    schedule_id: Seq<char>,
    requested: Seq<Seq<char>>,
) -> bool {
    T::tier_of(v) != RuleTier::Hard && (T::schedules_of(v).contains(schedule_id)
        != requested.contains(T::key_of(v)))
}

/// Rule `v` once the targets of schedule `schedule_id` are `requested`: a
/// rule that changes loses every attachment to the schedule and, when
/// requested, gets one at the end.
pub open spec fn retargeted<T: ScheduledItem>(
    v: T::V,
    schedule_id: Seq<char>,
    requested: Seq<Seq<char>>,
) -> T::V {
    if !target_changes::<T>(v, schedule_id, requested) {
        v
    } else if requested.contains(T::key_of(v)) {
        T::with_schedules(v, without_id(T::schedules_of(v), schedule_id).push(schedule_id))
    } else {
        T::with_schedules(v, without_id(T::schedules_of(v), schedule_id))
    }
}

/// The rules once the targets of schedule `schedule_id` are `requested`.
pub open spec fn all_retargeted<T: ScheduledItem>(
    rules: Seq<T::V>,
    schedule_id: Seq<char>,
    requested: Seq<Seq<char>>,
) -> Seq<T::V> {
    rules.map_values(|v: T::V| retargeted::<T>(v, schedule_id, requested))
}

/// Moves the targets of schedule `schedule_id` to `requested` in `rules`.
fn retarget_rules<T: ScheduledItem>(rules: &mut Vec<T>, schedule_id: &str, requested: &[String])
    ensures
        item_views(final(rules)@) == all_retargeted::<T>(
            item_views(old(rules)@),
            schedule_id@,
            string_views(requested@),
        ),
{
    let ghost start = item_views(rules@);
    let ghost wanted = string_views(requested@);
    let mut i: usize = 0;
    while i < rules.len()
        invariant
            i <= rules@.len(),
            start.len() == rules@.len(),
            start == item_views(old(rules)@),
            wanted == string_views(requested@),
            forall|j: int| 0 <= j < i ==> #[trigger] rules@[j]@ == retargeted::<T>(start[j], schedule_id@, wanted),
            forall|j: int| i <= j < rules@.len() ==> #[trigger] rules@[j]@ == start[j],
        decreases rules@.len() - i,
    {
        let ghost v = rules@[i as int]@;
        assert(v == start[i as int]);
        if rules[i].item_tier() != RuleTier::Hard {
            let has = contains_id(rules[i].item_schedule_ids().as_slice(), schedule_id);
            let want = contains_id(requested, rules[i].item_id());
            if has != want {
                let mut ids = remove_id(rules[i].item_schedule_ids(), schedule_id);
                if want {
                    let ghost before = ids@;
                    ids.push(owned(schedule_id));
                    assert(string_views(ids@) =~= string_views(before).push(schedule_id@));
                }
                let mut copy = rules[i].copy_item();
                copy.set_schedule_ids(ids);
                rules.set(i, copy);
            }
        }
        assert(rules@[i as int]@ == retargeted::<T>(start[i as int], schedule_id@, wanted));
        i = i + 1;
    }
    assert(item_views(rules@) =~= all_retargeted::<T>(start, schedule_id@, wanted));
}

/// The first rule, in order, whose targets would change and which may not
/// change now: covered by an active Detox (that is reported first), or
/// active. Gives the error message. `kind` names the rules.
pub open spec fn first_target_edit_error<T: ScheduledItem>(
    rules: Seq<T::V>,
    schedule_id: Seq<char>,
    requested: Seq<Seq<char>>,
    in_detox: Seq<Seq<char>>,
    active: Seq<Seq<char>>,
    kind: Seq<char>,
) -> Option<Seq<char>>
    decreases rules.len(),
{
    if rules.len() == 0 {
        None
    } else {
        let v = rules[0];
        let id = T::key_of(v);
        if target_changes::<T>(v, schedule_id, requested) && in_detox.contains(id) {
            Some(kind + " '"@ + id + "' is covered by an active detox session and cannot be edited"@)
        } else if target_changes::<T>(v, schedule_id, requested) && active.contains(id) {
            Some(kind + " '"@ + id + "' is currently active and cannot be edited"@)
        } else {
            first_target_edit_error::<T>(rules.drop_first(), schedule_id, requested, in_detox, active, kind)
        }
    }
}

/// Checks that no rule whose targets would change is covered by an active
/// Detox or active.
fn check_target_edits<T: ScheduledItem>(
    rules: &Vec<T>,
    schedule_id: &str,
    requested: &[String],
    in_detox: &[String],
    active: &[String],
    kind: &str,
) -> (r: Result<(), DaemonError>)
    ensures
        match first_target_edit_error::<T>(
            item_views(rules@),
            schedule_id@,
            string_views(requested@),
            string_views(in_detox@),
            string_views(active@),
            kind@,
        ) {
            Some(m) => r matches Err(DaemonError::InvalidRequest(e)) && e@ == m,
            None => r is Ok,
        },
{
    let ghost views = item_views(rules@);
    let ghost wanted = string_views(requested@);
    let ghost detox = string_views(in_detox@);
    let ghost busy = string_views(active@);
    assert(views.subrange(0, views.len() as int) =~= views);
    let mut i: usize = 0;
    while i < rules.len()
        invariant
            i <= rules@.len(),
            views == item_views(rules@),
            views.len() == rules@.len(),
            wanted == string_views(requested@),
            detox == string_views(in_detox@),
            busy == string_views(active@),
            first_target_edit_error::<T>(views, schedule_id@, wanted, detox, busy, kind@)
                == first_target_edit_error::<T>(
                views.subrange(i as int, views.len() as int),
                schedule_id@,
                wanted,
                detox,
                busy,
                kind@,
            ),
        decreases rules@.len() - i,
    {
        let ghost rest = views.subrange(i as int, views.len() as int);
        proof {
            assert(rest[0] == rules@[i as int]@);
            assert(rest.drop_first() =~= views.subrange(i + 1, views.len() as int));
        }
        let rule = &rules[i];
        let id = rule.item_id();
        let changes = rule.item_tier() != RuleTier::Hard && contains_id(
            rule.item_schedule_ids().as_slice(),
            schedule_id,
        ) != contains_id(requested, id);
        if changes && contains_id(in_detox, id) {
            let head = concat3(kind, " '", id);
            let message = concat3(
                head.as_str(),
                "' is covered by an active detox session and cannot be edited",
                "",
            );
            proof {
                reveal_strlit("");
                assert(message@ =~= kind@ + " '"@ + id@
                    + "' is covered by an active detox session and cannot be edited"@);
            }
            return Err(DaemonError::InvalidRequest(message));
        }
        if changes && contains_id(active, id) {
            let head = concat3(kind, " '", id);
            let message = concat3(head.as_str(), "' is currently active and cannot be edited", "");
            proof {
                reveal_strlit("");
                assert(message@ =~= kind@ + " '"@ + id@ + "' is currently active and cannot be edited"@);
            }
            return Err(DaemonError::InvalidRequest(message));
        }
        i = i + 1;
    }
    proof {
        assert(views.subrange(rules@.len() as int, views.len() as int).len() == 0);
    }
    Ok(())
}

/// Which rules may not change now: the ids of the site lists and of the
/// application rules covered by an active Detox, and of those that are
/// active.
#[derive(Debug, Clone, PartialEq, Eq)]
pub struct RuleActivity {
    pub site_rules_in_detox: Vec<String>,
    pub active_site_rules: Vec<String>,
    pub app_rules_in_detox: Vec<String>,
    pub active_app_rules: Vec<String>,
}

/// The optional list of ids by its text.
pub open spec fn opt_ids(o: Option<&[String]>) -> Option<Seq<Seq<char>>> {
    match o {
        Some(ids) => Some(string_views(ids@)),
        None => None,
    }
}

/// The error that moving the site-list targets gives, if any.
pub open spec fn site_target_error(
    current: PolicyConfig,
    schedule_id: Seq<char>,
    site_rule_ids: Option<Seq<Seq<char>>>,
    activity: RuleActivity,
) -> Option<Seq<char>> {
    match site_rule_ids {
        Some(requested) => first_target_edit_error::<RuleConfig>(
            item_views(current.rules@),
            schedule_id,
            requested,
            string_views(activity.site_rules_in_detox@),
            string_views(activity.active_site_rules@),
            "site list"@,
        ),
        None => None,
    }
}

/// The error that moving the application-rule targets gives, if any.
pub open spec fn app_target_error(
    current: PolicyConfig,
    schedule_id: Seq<char>,
    app_rule_ids: Option<Seq<Seq<char>>>,
    activity: RuleActivity,
) -> Option<Seq<char>> {
    match app_rule_ids {
        Some(requested) => first_target_edit_error::<AppRuleConfig>(
            item_views(current.app_rules@),
            schedule_id,
            requested,
            string_views(activity.app_rules_in_detox@),
            string_views(activity.active_app_rules@),
            "app rule"@,
        ),
        None => None,
    }
}

/// What moving the targets of a schedule does to the next policy. When site
/// lists are requested, the site lists of `current` whose targets change
/// are checked first (none may be covered by an active Detox or be
/// active); then the site lists of `next` are moved. Application rules
/// follow in the same way. The first failed check stops the update with its
/// error, after what came before it. Nothing else of `next` changes.
pub open spec fn schedule_targets_applied(
    current: PolicyConfig,
    before: PolicyConfig,
    after: PolicyConfig,
    schedule_id: Seq<char>,
    site_rule_ids: Option<Seq<Seq<char>>>,
    app_rule_ids: Option<Seq<Seq<char>>>,
    activity: RuleActivity,
    r: Result<(), DaemonError>,
) -> bool {
    let site_error = site_target_error(current, schedule_id, site_rule_ids, activity);
    let app_error = app_target_error(current, schedule_id, app_rule_ids, activity);
    let rules_moved = match site_rule_ids {
        Some(requested) => all_retargeted::<RuleConfig>(
            item_views(before.rules@),
            schedule_id,
            requested,
        ),
        None => item_views(before.rules@),
    };
    let app_rules_moved = match app_rule_ids {
        Some(requested) => all_retargeted::<AppRuleConfig>(
            item_views(before.app_rules@),
            schedule_id,
            requested,
        ),
        None => item_views(before.app_rules@),
    };
    &&& after.strict_mode == before.strict_mode
    &&& match site_error {
        Some(m) => {
            &&& r matches Err(DaemonError::InvalidRequest(e)) && e@ == m
            &&& item_views(after.rules@) == item_views(before.rules@)
            &&& item_views(after.app_rules@) == item_views(before.app_rules@)
        },
        None => {
            &&& item_views(after.rules@) == rules_moved
            &&& match app_error {
                Some(m) => {
                    &&& r matches Err(DaemonError::InvalidRequest(e)) && e@ == m
                    &&& item_views(after.app_rules@) == item_views(before.app_rules@)
                },
                None => {
                    &&& r is Ok
                    &&& item_views(after.app_rules@) == app_rules_moved
                },
            }
        },
    }
}

/// Moves the targets of schedule `schedule_id` in `next` to the requested
/// site lists and application rules, after checking against `current` and
/// `activity` that no rule whose targets change is covered by an active
/// Detox or active. Tier 1 rules never change.
pub fn apply_schedule_target_updates(
    current: &PolicyConfig,
    next: &mut PolicyConfig,
    schedule_id: &str,
    site_rule_ids: Option<&[String]>,
    app_rule_ids: Option<&[String]>,
    activity: &RuleActivity,
) -> (r: Result<(), DaemonError>)
    ensures
        schedule_targets_applied(
            *current,
            *old(next),
            *final(next),
            schedule_id@,
            opt_ids(site_rule_ids),
            opt_ids(app_rule_ids),
            *activity,
            r,
        ),
{
    if let Some(rule_ids) = site_rule_ids {
        check_target_edits(
            &current.rules,
            schedule_id,
            rule_ids,
            activity.site_rules_in_detox.as_slice(),
            activity.active_site_rules.as_slice(),
            "site list",
        )?;
        retarget_rules(&mut next.rules, schedule_id, rule_ids);
    }
    if let Some(rule_ids) = app_rule_ids {
        check_target_edits(
            &current.app_rules,
            schedule_id,
            rule_ids,
            activity.app_rules_in_detox.as_slice(),
            activity.active_app_rules.as_slice(),
            "app rule",
        )?;
        retarget_rules(&mut next.app_rules, schedule_id, rule_ids);
    }
    Ok(())
}

/// The ids of the rules other than Tier 1 that are attached to schedule
/// `schedule_id`, in order.
pub open spec fn scheduled_ids<T: ScheduledItem>(rules: Seq<T::V>, schedule_id: Seq<char>) -> Seq<
    Seq<char>,
>
    decreases rules.len(),
{
    if rules.len() == 0 {
        Seq::empty()
    } else {
        let rest = scheduled_ids::<T>(rules.drop_last(), schedule_id);
        let v = rules.last();
        if T::tier_of(v) != RuleTier::Hard && T::schedules_of(v).contains(schedule_id) {
            rest.push(T::key_of(v))
        } else {
            rest
        }
    }
}

/// The ids of the rules other than Tier 1 attached to the schedule.
fn scheduled_rule_ids<T: ScheduledItem>(rules: &Vec<T>, schedule_id: &str) -> (r: Vec<String>)
    ensures
        string_views(r@) == scheduled_ids::<T>(item_views(rules@), schedule_id@),
{
    let ghost views = item_views(rules@);
    let mut r: Vec<String> = Vec::new();
    let mut i: usize = 0;
    while i < rules.len()
        invariant
            i <= rules@.len(),
            views == item_views(rules@),
            views.len() == rules@.len(),
            string_views(r@) == scheduled_ids::<T>(views.take(i as int), schedule_id@),
        decreases rules@.len() - i,
    {
        proof {
            assert(views.take(i + 1).drop_last() =~= views.take(i as int));
            assert(views.take(i + 1).last() == rules@[i as int]@);
        }
        let rule = &rules[i];
        if rule.item_tier() != RuleTier::Hard && contains_id(
            rule.item_schedule_ids().as_slice(),
            schedule_id,
        ) {
            let ghost before = r@;
            r.push(owned(rule.item_id()));
            assert(string_views(r@) =~= string_views(before).push(T::key_of(rule@)));
        }
        i = i + 1;
    }
    assert(views.take(rules@.len() as int) =~= views);
    r
}

/// Whether two lists of ids have the same members: as many, and each of
/// the first in the second.
pub open spec fn same_members(left: Seq<Seq<char>>, right: Seq<Seq<char>>) -> bool {
    left.len() == right.len() && forall|i: int| 0 <= i < left.len() ==> right.contains(#[trigger] left[i])
}

/// What `same_id_membership` tells, over the texts of the ids.
proof fn lemma_same_id_membership(left: Seq<String>, right: Seq<String>, same: bool)
    requires
        same == (left.len() == right.len() && forall|i: int|
            0 <= i < left.len() ==> string_views(right).contains(#[trigger] left[i]@)),
    ensures
        same == same_members(string_views(left), string_views(right)),
{
    assert(string_views(left).len() == left.len());
    assert(string_views(right).len() == right.len());
    assert forall|i: int| 0 <= i < left.len() implies string_views(left)[i] == left[i]@ by {}
    if same {
        assert forall|i: int| 0 <= i < string_views(left).len() implies string_views(
            right,
        ).contains(#[trigger] string_views(left)[i]) by {
            assert(string_views(left)[i] == left[i]@);
            assert(string_views(right).contains(left[i]@));
        }
    } else if left.len() == right.len() {
        let i = choose|i: int| 0 <= i < left.len() && !string_views(right).contains(#[trigger] left[i]@);
        assert(string_views(left)[i] == left[i]@);
    }
}

/// Whether a schedule edit would change which site lists or application
/// rules (other than Tier 1) the schedule targets.
pub fn schedule_target_updates_change(
    config: &PolicyConfig,
    schedule_id: &str,
    site_rule_ids: Option<&[String]>,
    app_rule_ids: Option<&[String]>,
) -> (r: bool)
    ensures
        r == ((opt_ids(site_rule_ids) matches Some(requested) && !same_members(
            requested,
            scheduled_ids::<RuleConfig>(item_views(config.rules@), schedule_id@),
        )) || (opt_ids(app_rule_ids) matches Some(requested) && !same_members(
            requested,
            scheduled_ids::<AppRuleConfig>(item_views(config.app_rules@), schedule_id@),
        ))),
{
    let site_changes = match site_rule_ids {
        Some(requested) => {
            let attached = scheduled_rule_ids(&config.rules, schedule_id);
            let same = same_id_membership(requested, attached.as_slice());
            proof {
                lemma_same_id_membership(requested@, attached@, same);
            }
            !same
        },
        None => false,
    };
    if site_changes {
        return true;
    }
    match app_rule_ids {
        Some(requested) => {
            let attached = scheduled_rule_ids(&config.app_rules, schedule_id);
            let same = same_id_membership(requested, attached.as_slice());
            proof {
                lemma_same_id_membership(requested@, attached@, same);
            }
            !same
        },
        None => false,
    }
}

/// What removing an id keeps: every other id, and nothing of the removed
/// one.
proof fn lemma_without_id(ids: Seq<Seq<char>>, id: Seq<char>, other: Seq<char>)
    ensures
        !without_id(ids, id).contains(id),
        other != id ==> (without_id(ids, id).contains(other) == ids.contains(other)),
    decreases ids.len(),
{
    if ids.len() > 0 {
        lemma_without_id(ids.drop_last(), id, other);
        let rest = without_id(ids.drop_last(), id);
        if ids.last() != id {
            assert(rest.push(ids.last()).last() == ids.last());
            if rest.push(ids.last()).contains(id) {
                let k = choose|k: int| 0 <= k < rest.push(ids.last()).len() && rest.push(ids.last())[k] == id;
                assert(k < rest.len() ==> rest[k] == id);
            }
            if other != id {
                if ids.contains(other) {
                    let k = choose|k: int| 0 <= k < ids.len() && ids[k] == other;
                    if k < ids.len() - 1 {
                        assert(ids.drop_last()[k] == other);
                        assert(rest.contains(other));
                        let q = choose|q: int| 0 <= q < rest.len() && rest[q] == other;
                        assert(rest.push(ids.last())[q] == other);
                    } else {
                        assert(rest.push(ids.last())[rest.len() as int] == other);
                    }
                }
                if rest.push(ids.last()).contains(other) {
                    let k = choose|k: int| 0 <= k < rest.push(ids.last()).len() && rest.push(ids.last())[k] == other;
                    if k < rest.len() {
                        assert(rest[k] == other);
                        let q = choose|q: int| 0 <= q < ids.drop_last().len() && ids.drop_last()[q] == other;
                        assert(ids[q] == other);
                    } else {
                        assert(ids[ids.len() - 1] == other);
                    }
                }
            }
        } else if other != id {
            if ids.contains(other) {
                let k = choose|k: int| 0 <= k < ids.len() && ids[k] == other;
                assert(k < ids.len() - 1);
                assert(ids.drop_last()[k] == other);
            }
            if rest.contains(other) {
                let q = choose|q: int| 0 <= q < ids.drop_last().len() && ids.drop_last()[q] == other;
                assert(ids[q] == other);
            }
        }
    }
}

/// Once the targets of a schedule are set to `requested`, a rule other
/// than Tier 1 is attached to the schedule exactly when it is requested,
/// keeps its other schedules, its id and its tier; a Tier 1 rule does not
/// change.
pub proof fn law_retargeting_attaches_exactly_the_requested_rules(
    v: <RuleConfig as View>::V,
    schedule_id: Seq<char>,
    requested: Seq<Seq<char>>,
    other: Seq<char>,
)
    ensures
        v.2 == RuleTier::Hard ==> retargeted::<RuleConfig>(v, schedule_id, requested) == v,
        v.2 != RuleTier::Hard ==> retargeted::<RuleConfig>(v, schedule_id, requested).5.contains(
            schedule_id,
        ) == requested.contains(v.0),
        other != schedule_id ==> (retargeted::<RuleConfig>(v, schedule_id, requested).5.contains(
            other,
        ) == v.5.contains(other)),
        retargeted::<RuleConfig>(v, schedule_id, requested).0 == v.0,
        retargeted::<RuleConfig>(v, schedule_id, requested).2 == v.2,
{
    lemma_without_id(v.5, schedule_id, other);
    let kept = without_id(v.5, schedule_id);
    assert(kept.push(schedule_id)[kept.len() as int] == schedule_id);
    if other != schedule_id {
        if kept.push(schedule_id).contains(other) {
            let k = choose|k: int| 0 <= k < kept.push(schedule_id).len() && kept.push(schedule_id)[k] == other;
            assert(kept[k] == other);
        }
        if kept.contains(other) {
            let k = choose|k: int| 0 <= k < kept.len() && kept[k] == other;
            assert(kept.push(schedule_id)[k] == other);
        }
    }
}

} // verus!
