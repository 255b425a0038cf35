use vstd::prelude::*;

use crate::daemon_error::DaemonError;
use crate::policy::{AppRuleConfig, PolicyConfig, RuleConfig, RuleTier};
use crate::policy_import::{find_by_id, item_views, key_position, lemma_key_position, ImportItem};
use crate::deadlines::{is_later, later};
use crate::ids::{normalized_unique_ids, spec_normalized_unique_ids};
use crate::strings::{concat3, owned};
use crate::text::{
    chars_of, decimal, join, join_chars, string_from_chars, string_views, trim, trim_chars,
    u64_to_decimal, views,
};

verus! {

/// A rule that has a tier.
pub trait TieredItem: ImportItem {
    /// The tier of a rule, by its view.
    spec fn tier_of(v: Self::V) -> RuleTier;

    /// The tier of this rule.
    fn item_tier(&self) -> (r: RuleTier)
        ensures
            r == Self::tier_of(self@),
    ;
}

impl TieredItem for RuleConfig {
    open spec fn tier_of(v: Self::V) -> RuleTier {
        v.2
    }

    fn item_tier(&self) -> (r: RuleTier) {
        self.tier
    }
}

impl TieredItem for AppRuleConfig {
    open spec fn tier_of(v: Self::V) -> RuleTier {
        v.2
    }

    fn item_tier(&self) -> (r: RuleTier) {
        self.tier
    }
}

/// Why the rule with id `id` cannot be a Detox target, if it cannot: no rule
/// has that id, or the first that has it is Tier 1. `kind` names the rules.
pub open spec fn target_error<T: TieredItem>(rules: Seq<T::V>, kind: Seq<char>, id: Seq<char>) -> Option<
    Seq<char>,
> {
    match key_position::<T>(rules, id) {
        None => Some(kind + " '"@ + id + "' does not exist"@),
        Some(i) => if T::tier_of(rules[i]) == RuleTier::Hard {
            Some(kind + " '"@ + id + "' is Tier 1 and cannot be used for detox"@)
        } else {
            None
        },
    }
}

/// The error of the first of `ids` that cannot be a Detox target, if any.
pub open spec fn first_target_error<T: TieredItem>(
    rules: Seq<T::V>,
    kind: Seq<char>,
    ids: Seq<Seq<char>>,
) -> Option<Seq<char>>
    decreases ids.len(),
{
    if ids.len() == 0 {
        None
    } else {
        match target_error::<T>(rules, kind, ids[0]) {
            Some(m) => Some(m),
            None => first_target_error::<T>(rules, kind, ids.drop_first()),
        }
    }
}

/// Checks that each of `ids` names a rule of `rules` that is not Tier 1;
/// the first that does not gives an invalid-request error.
fn check_targets<T: TieredItem>(rules: &Vec<T>, ids: &[String], kind: &str) -> (r: Result<
    (),
    DaemonError,
>)
    ensures
        match first_target_error::<T>(item_views(rules@), kind@, string_views(ids@)) {
            Some(m) => r matches Err(DaemonError::InvalidRequest(e)) && e@ == m,
            None => r is Ok,
        },
{
    let ghost views = item_views(rules@);
    let ghost all = string_views(ids@);
    assert(all.subrange(0, all.len() as int) =~= all);
    let mut i: usize = 0;
    while i < ids.len()
        invariant
            i <= ids@.len(),
            views == item_views(rules@),
            views.len() == rules@.len(),
            all == string_views(ids@),
            first_target_error::<T>(views, kind@, all) == first_target_error::<T>(
                views,
                kind@,
                all.subrange(i as int, all.len() as int),
            ),
        decreases ids@.len() - i,
    {
        let id = ids[i].as_str();
        let ghost rest = all.subrange(i as int, all.len() as int);
        proof {
            assert(rest[0] == id@);
            assert(rest.drop_first() =~= all.subrange(i + 1, all.len() as int));
            lemma_key_position::<T>(views, id@);
        }
        match find_by_id(rules, id) {
            None => {
                let head = concat3(kind, " '", id);
                let message = concat3(head.as_str(), "' does not exist", "");
                proof {
                    reveal_strlit("");
                    assert(message@ =~= kind@ + " '"@ + id@ + "' does not exist"@);
                }
                return Err(DaemonError::InvalidRequest(message));
            },
            Some(k) => {
                let tier = rules[k].item_tier();
                assert(views[k as int] == rules@[k as int]@);
                if tier == RuleTier::Hard {
                    let head = concat3(kind, " '", id);
                    let message = concat3(
                        head.as_str(),
                        "' is Tier 1 and cannot be used for detox",
                        "",
                    );
                    proof {
                        reveal_strlit("");
                        assert(message@ =~= kind@ + " '"@ + id@
                            + "' is Tier 1 and cannot be used for detox"@);
                    }
                    return Err(DaemonError::InvalidRequest(message));
                }
            },
        }
        i = i + 1;
    }
    proof {
        assert(all.subrange(ids@.len() as int, all.len() as int).len() == 0);
    }
    Ok(())
}

/// Why a Detox on the given site lists and application rules cannot start,
/// if it cannot: the site lists are checked first, in order, then the
/// application rules.
pub open spec fn detox_targets_error(
    config: PolicyConfig,
    site_rule_ids: Seq<Seq<char>>,
    app_rule_ids: Seq<Seq<char>>,
) -> Option<Seq<char>> {
    match first_target_error::<RuleConfig>(item_views(config.rules@), "site list"@, site_rule_ids) {
        Some(m) => Some(m),
        None => first_target_error::<AppRuleConfig>(
            item_views(config.app_rules@),
            "app rule"@,
            app_rule_ids,
        ),
    }
}

/// Checks that a Detox can target the given site lists and application
/// rules: each must exist and none may be Tier 1.
pub fn validate_detox_targets(
    config: &PolicyConfig,
    site_rule_ids: &[String],
    app_rule_ids: &[String],
) -> (r: Result<(), DaemonError>)
    ensures
        match detox_targets_error(*config, string_views(site_rule_ids@), string_views(app_rule_ids@)) {
            Some(m) => r matches Err(DaemonError::InvalidRequest(e)) && e@ == m,
            None => r is Ok,
        },
{
    check_targets(&config.rules, site_rule_ids, "site list")?;
    check_targets(&config.app_rules, app_rule_ids, "app rule")
}

/// The longest Detox, in minutes: twelve weeks.
pub const MAX_DETOX_DURATION_MINUTES: u32 = 12 * 7 * 24 * 60;

/// A Detox that may start: its name, its length, when it starts and ends
/// (seconds and nanoseconds since the Unix epoch) and its targets.
#[derive(Debug, PartialEq, Eq)]
pub struct DetoxRequest {
    pub name: Option<String>,
    pub duration_minutes: u32,
    pub starts_at: (i64, u32),
    pub ends_at: (i64, u32),
    pub site_rule_ids: Vec<String>,
    pub app_rule_ids: Vec<String>,
}

/// The name a Detox is given: the requested one trimmed, or none when it is
/// empty once trimmed.
pub open spec fn detox_name(name: Option<Seq<char>>) -> Option<Seq<char>> {
    match name {
        Some(n) => if trim(n).len() > 0 {
            Some(trim(n))
        } else {
            None
        },
        None => None,
    }
}

/// Why a Detox cannot start, if it cannot: a length of zero or over twelve
/// weeks; no target once the ids are normalized; a target that does not
/// exist or is Tier 1.
pub open spec fn detox_start_error(
    config: PolicyConfig,
    duration_minutes: u32,
    site_rule_ids: Seq<Seq<char>>,
    app_rule_ids: Seq<Seq<char>>,
) -> Option<Seq<char>> {
    let sites = spec_normalized_unique_ids(site_rule_ids);
    let apps = spec_normalized_unique_ids(app_rule_ids);
    if duration_minutes == 0 {
        Some("detox duration must be at least one minute"@)
    } else if duration_minutes > MAX_DETOX_DURATION_MINUTES {
        Some("detox duration cannot exceed "@ + decimal(MAX_DETOX_DURATION_MINUTES as nat) + " minutes"@)
    } else if sites.len() == 0 && apps.len() == 0 {
        Some("detox needs at least one site list or app rule"@)
    } else {
        detox_targets_error(config, sites, apps)
    }
}

/// Checks a request, made at `now`, to start a Detox and gives what it
/// starts with: the trimmed name, the session running from `now` for the
/// requested minutes, and the normalized targets.
pub fn prepare_detox(
    config: &PolicyConfig,
    duration_minutes: u32,
    name: Option<String>,
    site_rule_ids: Vec<String>,
    app_rule_ids: Vec<String>,
    now: (i64, u32),
) -> (r: Result<DetoxRequest, DaemonError>)
    requires
        now.0 <= i64::MAX - 60 * MAX_DETOX_DURATION_MINUTES,
    ensures
        r matches Ok(request) ==> request.starts_at == now && request.ends_at.0 == now.0 + 60 * duration_minutes
            && request.ends_at.1 == now.1,
        match detox_start_error(*config, duration_minutes, string_views(site_rule_ids@), string_views(app_rule_ids@)) {
            Some(m) => r matches Err(DaemonError::InvalidRequest(e)) && e@ == m,
            None => r matches Ok(request) && request.duration_minutes == duration_minutes
                && string_views(request.site_rule_ids@) == spec_normalized_unique_ids(
                string_views(site_rule_ids@),
            ) && string_views(request.app_rule_ids@) == spec_normalized_unique_ids(
                string_views(app_rule_ids@),
            ) && match request.name {
                Some(n) => detox_name(match name {
                    Some(x) => Some(x@),
                    None => None,
                }) == Some(n@),
                None => detox_name(match name {
                    Some(x) => Some(x@),
                    None => None,
                }) is None,
            },
        },
{
    if duration_minutes == 0 {
        return Err(DaemonError::InvalidRequest(owned("detox duration must be at least one minute")));
    }
    if duration_minutes > MAX_DETOX_DURATION_MINUTES {
        let message = concat3(
            "detox duration cannot exceed ",
            u64_to_decimal(MAX_DETOX_DURATION_MINUTES as u64).as_str(),
            " minutes",
        );
        return Err(DaemonError::InvalidRequest(message));
    }
    let sites = normalized_unique_ids(site_rule_ids);
    let apps = normalized_unique_ids(app_rule_ids);
    if sites.len() == 0 && apps.len() == 0 {
        return Err(DaemonError::InvalidRequest(owned("detox needs at least one site list or app rule")));
    }
    let name = match name {
        Some(n) => {
            let raw = chars_of(n.as_str());
            let trimmed = trim_chars(raw.as_slice());
            if trimmed.len() > 0 {
                Some(string_from_chars(trimmed.as_slice()))
            } else {
                None
            }
        },
        None => None,
    };
    validate_detox_targets(config, sites.as_slice(), apps.as_slice())?;
    let ends_at = (now.0 + 60 * duration_minutes as i64, now.1);
    Ok(DetoxRequest { name, duration_minutes, starts_at: now, ends_at, site_rule_ids: sites, app_rule_ids: apps })
}

/// The ids joined by commas.
fn comma_joined(ids: &Vec<String>) -> (r: Vec<char>)
    ensures
        r@ == join(string_views(ids@), ","@),
{
    let mut parts: Vec<Vec<char>> = Vec::new();
    let mut i: usize = 0;
    while i < ids.len()
        invariant
            i <= ids@.len(),
            views(parts@) == string_views(ids@).take(i as int),
        decreases ids@.len() - i,
    {
        let ghost before = parts@;
        parts.push(chars_of(ids[i].as_str()));
        assert(views(parts@) =~= string_views(ids@).take(i + 1)) by {
            assert(views(parts@) =~= views(before).push(ids@[i as int]@));
        }
        i = i + 1;
    }
    assert(string_views(ids@).take(ids@.len() as int) =~= string_views(ids@));
    let sep = chars_of(",");
    join_chars(parts.as_slice(), sep.as_slice())
}

/// What the event log records when a Detox starts: its length and its
/// targets, each list joined by commas.
pub fn detox_started_detail(request: &DetoxRequest) -> (r: String)
    ensures
        r@ == "duration_minutes="@ + decimal(request.duration_minutes as nat) + ";site_rules="@ + join(
            string_views(request.site_rule_ids@),
            ","@,
        ) + ";app_rules="@ + join(string_views(request.app_rule_ids@), ","@),
{
    let sites = string_from_chars(comma_joined(&request.site_rule_ids).as_slice());
    let apps = string_from_chars(comma_joined(&request.app_rule_ids).as_slice());
    let a = concat3("duration_minutes=", u64_to_decimal(request.duration_minutes as u64).as_str(), ";site_rules=");
    let b = concat3(a.as_str(), sites.as_str(), ";app_rules=");
    let r = concat3(b.as_str(), apps.as_str(), "");
    proof {
        reveal_strlit("");
    }
    assert(r@ =~= "duration_minutes="@ + decimal(request.duration_minutes as nat) + ";site_rules="@ + join(
        string_views(request.site_rule_ids@),
        ","@,
    ) + ";app_rules="@ + join(string_views(request.app_rule_ids@), ","@));
    r
}

/// What the daemon knows of a stored Detox session when asked to cancel
/// it: whether it was cancelled, and when it ends (seconds and nanoseconds
/// of Unix time).
#[derive(Debug, Clone, Copy, PartialEq, Eq)]
pub struct DetoxSessionState {
    pub cancelled: bool,
    pub ends_at: (i64, u32),
}

/// Why the Detox session `id` cannot be cancelled at `now`, if it cannot:
/// it does not exist, it was cancelled, it ended, or the Tier 1 edit window
/// is closed.
pub open spec fn detox_cancel_error(
    id: Seq<char>,
    session: Option<DetoxSessionState>,
    now: (i64, u32),
    tier1_edit_active: bool,
) -> Option<Seq<char>> {
    match session {
        None => Some("detox session '"@ + id + "' does not exist"@),
        Some(s) => if s.cancelled {
            Some("detox session '"@ + id + "' is already cancelled"@)
        } else if !later(s.ends_at, now) {
            Some("detox session '"@ + id + "' has already ended"@)
        } else if !tier1_edit_active {
            Some("Tier 1 edit unlock is required to cancel detox"@)
        } else {
            None
        },
    }
}

/// Checks that the Detox session `id` may be cancelled at `now`.
pub fn check_detox_cancellable(
    id: &str,
    session: Option<DetoxSessionState>,
    now: (i64, u32),
    tier1_edit_active: bool,
) -> (r: Result<(), DaemonError>)
    ensures
        match detox_cancel_error(id@, session, now, tier1_edit_active) {
            Some(m) => r matches Err(DaemonError::InvalidRequest(e)) && e@ == m,
            None => r is Ok,
        },
{
    match session {
        None => Err(DaemonError::InvalidRequest(concat3("detox session '", id, "' does not exist"))),
        Some(s) => {
            if s.cancelled {
                return Err(DaemonError::InvalidRequest(concat3("detox session '", id, "' is already cancelled")));
            }
            if !is_later(s.ends_at, now) {
                return Err(DaemonError::InvalidRequest(concat3("detox session '", id, "' has already ended")));
            }
            if !tier1_edit_active {
                return Err(DaemonError::InvalidRequest(owned("Tier 1 edit unlock is required to cancel detox")));
            }
            Ok(())
        },
    }
}

} // verus!
