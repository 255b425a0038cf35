use vstd::prelude::*;

use crate::notifications::NotificationPreferences;
use crate::strings::{clone_opt_string, concat3, owned, str_equal};
use crate::text::string_views;

verus! {

/// What has a start and an end that the daemon announces.
#[derive(Debug, Clone, Copy, PartialEq, Eq, Structural)]
pub enum LifecycleKind {
    Schedule,
    Detox,
}

/// A schedule or Detox session as the daemon sees it now: its id, the name
/// it is announced by (the id when it has none), whether it is active, and,
/// for a Detox, whether it was cancelled.
#[derive(Debug, Clone, PartialEq, Eq)]
pub struct LifecycleTarget {
    pub id: String,
    pub name: Option<String>,
    pub active: bool,
    pub cancelled: bool,
}

/// A desktop notification to queue: its kind, title, body and the key under
/// which repeats are merged.
#[derive(Debug, Clone, PartialEq, Eq)]
pub struct NotificationDraft {
    pub kind: String,
    pub title: String,
    pub body: String,
    pub dedupe_key: String,
}

/// An announced start or end: the target, the event logged (kind and
/// detail), and the notification queued when the preferences allow it.
#[derive(Debug, Clone, PartialEq, Eq)]
pub struct LifecycleNotice {
    pub target_id: String,
    pub event_kind: String,
    pub event_detail: String,
    pub notification: Option<NotificationDraft>,
}

/// What one pass over the schedules or Detox sessions does: the starts and
/// ends it announces, the states it stores (each target's id and whether it
/// is active), and the stored ids it forgets because their target is gone.
#[derive(Debug, Clone, PartialEq, Eq)]
pub struct LifecyclePlan {
    pub notices: Vec<LifecycleNotice>,
    pub states: Vec<(String, bool)>,
    pub forgotten: Vec<String>,
}

/// The state stored for `id`: the last entry with that id.
pub open spec fn stored_state(previous: Seq<(String, bool)>, id: Seq<char>) -> Option<bool>
    decreases previous.len(),
{
    if previous.len() == 0 {
        None
    } else if previous.last().0@ == id {
        Some(previous.last().1)
    } else {
        stored_state(previous.drop_last(), id)
    }
}

/// The name a target is announced by.
pub open spec fn announced_name(t: LifecycleTarget) -> Seq<char> {
    match t.name {
        Some(n) => n@,
        None => t.id@,
    }
}

/// The event kind of a start or an end.
pub open spec fn notice_kind(kind: LifecycleKind, active: bool) -> Seq<char> {
    match kind {
        LifecycleKind::Schedule => if active { "schedule_started"@ } else { "schedule_ended"@ },
        LifecycleKind::Detox => if active { "detox_started"@ } else { "detox_ended"@ },
    }
}

/// The title of the notification of a start or an end.
pub open spec fn notice_title(kind: LifecycleKind, active: bool) -> Seq<char> {
    match kind {
        LifecycleKind::Schedule => if active { "Schedule started"@ } else { "Schedule ended"@ },
        LifecycleKind::Detox => if active { "Detox started"@ } else { "Detox ended"@ },
    }
}

/// The body of the notification of a start or an end.
pub open spec fn notice_body(kind: LifecycleKind, t: LifecycleTarget) -> Seq<char> {
    let name = "\""@ + announced_name(t);
    if t.active {
        name + "\" is now active."@
    } else {
        match kind {
            LifecycleKind::Schedule => name + "\" is no longer active."@,
            LifecycleKind::Detox => if t.cancelled {
                name + "\" was ended early."@
            } else {
                name + "\" has finished."@
            },
        }
    }
}

/// The detail of the logged event: the notification body for a schedule,
/// a fixed sentence for a Detox.
pub open spec fn notice_detail(kind: LifecycleKind, t: LifecycleTarget) -> Seq<char> {
    match kind {
        LifecycleKind::Schedule => notice_body(kind, t),
        LifecycleKind::Detox => if t.active {
            "Detox became active"@
        } else {
            "Detox reached its end time"@
        },
    }
}

/// Whether the preferences let a start or an end be notified.
pub open spec fn notice_wanted(kind: LifecycleKind, active: bool, p: NotificationPreferences) -> bool {
    p.enabled && match kind {
        LifecycleKind::Schedule => if active { p.schedule_started } else { p.schedule_ended },
        LifecycleKind::Detox => if active { p.detox_started } else { p.detox_ended },
    }
}

/// A notice by its texts.
pub type NoticeView = (Seq<char>, Seq<char>, Seq<char>, Option<(Seq<char>, Seq<char>, Seq<char>, Seq<char>)>);

/// A notice by its texts.
pub open spec fn notice_view(n: LifecycleNotice) -> NoticeView {
    (
        n.target_id@,
        n.event_kind@,
        n.event_detail@,
        match n.notification {
            Some(d) => Some((d.kind@, d.title@, d.body@, d.dedupe_key@)),
            None => None,
        },
    )
}

/// The notice of a target that started or ended.
pub open spec fn spec_notice(kind: LifecycleKind, t: LifecycleTarget, p: NotificationPreferences) -> NoticeView {
    (
        t.id@,
        notice_kind(kind, t.active),
        notice_detail(kind, t),
        if notice_wanted(kind, t.active, p) {
            Some(
                (
                    notice_kind(kind, t.active),
                    notice_title(kind, t.active),
                    notice_body(kind, t),
                    notice_kind(kind, t.active) + ":"@ + t.id@,
                ),
            )
        } else {
            None
        },
    )
}

/// The notices of a pass: one for each target, in order, whose stored state
/// is known and differs from whether it is active now.
pub open spec fn spec_notices(
    kind: LifecycleKind,
    previous: Seq<(String, bool)>,
    targets: Seq<LifecycleTarget>,
    p: NotificationPreferences,
) -> Seq<NoticeView>
    decreases targets.len(),
{
    if targets.len() == 0 {
        Seq::empty()
    } else {
        let before = spec_notices(kind, previous, targets.drop_last(), p);
        let t = targets.last();
        if stored_state(previous, t.id@) == Some(!t.active) {
            before.push(spec_notice(kind, t, p))
        } else {
            before
        }
    }
}

/// The state stored for `id`.
fn stored_state_of(previous: &Vec<(String, bool)>, id: &str) -> (r: Option<bool>)
    ensures
        r == stored_state(previous@, id@),
{
    let mut r: Option<bool> = None;
    let mut i: usize = 0;
    while i < previous.len()
        invariant
            i <= previous@.len(),
            r == stored_state(previous@.take(i as int), id@),
        decreases previous@.len() - i,
    {
        assert(previous@.take(i + 1).drop_last() =~= previous@.take(i as int));
        assert(previous@.take(i + 1).last() == previous@[i as int]);
        if str_equal(previous[i].0.as_str(), id) {
            r = Some(previous[i].1);
        }
        i = i + 1;
    }
    assert(previous@.take(previous@.len() as int) =~= previous@);
    r
}

/// The event kind of a start or an end.
fn kind_text(kind: LifecycleKind, active: bool) -> (r: &'static str)
    ensures
        r@ == notice_kind(kind, active),
{
    match kind {
        LifecycleKind::Schedule => if active { "schedule_started" } else { "schedule_ended" },
        LifecycleKind::Detox => if active { "detox_started" } else { "detox_ended" },
    }
}

/// The title of the notification of a start or an end.
fn title_text(kind: LifecycleKind, active: bool) -> (r: &'static str)
    ensures
        r@ == notice_title(kind, active),
{
    match kind {
        LifecycleKind::Schedule => if active { "Schedule started" } else { "Schedule ended" },
        LifecycleKind::Detox => if active { "Detox started" } else { "Detox ended" },
    }
}

/// The body of the notification of a start or an end.
fn body_text(kind: LifecycleKind, t: &LifecycleTarget) -> (r: String)
    ensures
        r@ == notice_body(kind, *t),
{
    let name = match &t.name {
        Some(n) => n.as_str(),
        None => t.id.as_str(),
    };
    let tail = if t.active {
        "\" is now active."
    } else {
        match kind {
            LifecycleKind::Schedule => "\" is no longer active.",
            LifecycleKind::Detox => if t.cancelled { "\" was ended early." } else { "\" has finished." },
        }
    };
    concat3("\"", name, tail)
}

/// The notice of a target that started or ended.
fn make_notice(kind: LifecycleKind, t: &LifecycleTarget, p: &NotificationPreferences) -> (r: LifecycleNotice)
    ensures
        notice_view(r) == spec_notice(kind, *t, *p),
{
    let event_kind = kind_text(kind, t.active);
    let body = body_text(kind, t);
    let detail = match kind {
        LifecycleKind::Schedule => body.clone(),
        LifecycleKind::Detox => if t.active {
            owned("Detox became active")
        } else {
            owned("Detox reached its end time")
        },
    };
    let wanted = p.enabled && match kind {
        LifecycleKind::Schedule => if t.active { p.schedule_started } else { p.schedule_ended },
        LifecycleKind::Detox => if t.active { p.detox_started } else { p.detox_ended },
    };
    let notification = if wanted {
        Some(NotificationDraft {
            kind: owned(event_kind),
            title: owned(title_text(kind, t.active)),
            body,
            dedupe_key: concat3(event_kind, ":", t.id.as_str()),
        })
    } else {
        None
    };
    LifecycleNotice {
        target_id: t.id.clone(),
        event_kind: owned(event_kind),
        event_detail: detail,
        notification,
    }
}

/// The notices of a pass by their texts.
pub open spec fn notice_views(notices: Seq<LifecycleNotice>) -> Seq<NoticeView> {
    notices.map_values(|n: LifecycleNotice| notice_view(n))
}

/// The states a pass stores.
pub open spec fn spec_states(targets: Seq<LifecycleTarget>) -> Seq<(Seq<char>, bool)> {
    targets.map_values(|t: LifecycleTarget| (t.id@, t.active))
}

/// The stored states by their texts.
pub open spec fn state_views(states: Seq<(String, bool)>) -> Seq<(Seq<char>, bool)> {
    states.map_values(|s: (String, bool)| (s.0@, s.1))
}

/// Whether some target has id `id`.
pub open spec fn has_target(targets: Seq<LifecycleTarget>, id: Seq<char>) -> bool {
    exists|j: int| 0 <= j < targets.len() && (#[trigger] targets[j]).id@ == id
}

/// Whether some stored state has id `id`.
pub open spec fn has_state(previous: Seq<(String, bool)>, id: Seq<char>) -> bool {
    exists|j: int| 0 <= j < previous.len() && (#[trigger] previous[j]).0@ == id
}

/// Whether some target has id `id`.
fn target_listed(targets: &[LifecycleTarget], id: &str) -> (r: bool)
    ensures
        r == has_target(targets@, id@),
{
    let mut i: usize = 0;
    while i < targets.len()
        invariant
            i <= targets@.len(),
            forall|j: int| 0 <= j < i ==> (#[trigger] targets@[j]).id@ != id@,
        decreases targets@.len() - i,
    {
        if str_equal(targets[i].id.as_str(), id) {
            return true;
        }
        i = i + 1;
    }
    false
}

/// Whether `id` is one of `ids`.
fn listed(ids: &Vec<String>, id: &str) -> (r: bool)
    ensures
        r == string_views(ids@).contains(id@),
{
    let mut i: usize = 0;
    while i < ids.len()
        invariant
            i <= ids@.len(),
            forall|j: int| 0 <= j < i ==> string_views(ids@)[j] != id@,
        decreases ids@.len() - i,
    {
        if str_equal(ids[i].as_str(), id) {
            assert(string_views(ids@)[i as int] == id@);
            return true;
        }
        i = i + 1;
    }
    false
}

/// One pass over the schedules or the Detox sessions: announces each
/// target whose stored state is known and differs from whether it is
/// active now, stores the state of every target, and forgets the stored
/// states of targets that are gone.
pub fn plan_lifecycle(
    kind: LifecycleKind,
    previous: &Vec<(String, bool)>,
    targets: &[LifecycleTarget],
    preferences: &NotificationPreferences,
) -> (r: LifecyclePlan)
    ensures
        notice_views(r.notices@) == spec_notices(kind, previous@, targets@, *preferences),
        state_views(r.states@) == spec_states(targets@),
        string_views(r.forgotten@).no_duplicates(),
        forall|id: Seq<char>|
            #[trigger] string_views(r.forgotten@).contains(id) <==> (has_state(previous@, id)
                && !has_target(targets@, id)),
{
    let mut notices: Vec<LifecycleNotice> = Vec::new();
    let mut states: Vec<(String, bool)> = Vec::new();
    let mut i: usize = 0;
    while i < targets.len()
        invariant
            i <= targets@.len(),
            notice_views(notices@) == spec_notices(kind, previous@, targets@.take(i as int), *preferences),
            state_views(states@) == spec_states(targets@.take(i as int)),
        decreases targets@.len() - i,
    {
        let t = &targets[i];
        proof {
            assert(targets@.take(i + 1).drop_last() =~= targets@.take(i as int));
            assert(targets@.take(i + 1).last() == targets@[i as int]);
        }
        let stored = stored_state_of(previous, t.id.as_str());
        if stored == Some(!t.active) {
            let ghost before = notices@;
            let notice = make_notice(kind, t, preferences);
            notices.push(notice);
            assert(notice_views(notices@) =~= notice_views(before).push(notice_view(notices@.last())));
        }
        let ghost before_states = states@;
        states.push((t.id.clone(), t.active));
        assert(state_views(states@) =~= spec_states(targets@.take(i + 1))) by {
            assert(state_views(states@) =~= state_views(before_states).push((t.id@, t.active)));
        }
        i = i + 1;
    }
    assert(targets@.take(targets@.len() as int) =~= targets@);
    let mut forgotten: Vec<String> = Vec::new();
    let mut k: usize = 0;
    while k < previous.len()
        invariant
            k <= previous@.len(),
            string_views(forgotten@).no_duplicates(),
            forall|id: Seq<char>|
                #[trigger] string_views(forgotten@).contains(id) <==> (has_state(previous@.take(k as int), id)
                    && !has_target(targets@, id)),
        decreases previous@.len() - k,
    {
        let id = previous[k].0.as_str();
        let ghost before = string_views(forgotten@);
        assert forall|x: Seq<char>| has_state(previous@.take(k + 1), x) <==> (has_state(previous@.take(k as int), x)
            || x == id@) by {
            if has_state(previous@.take(k + 1), x) {
                let j = choose|j: int| 0 <= j < previous@.take(k + 1).len() && (#[trigger] previous@.take(k + 1)[j]).0@ == x;
                if j < k {
                    assert(previous@.take(k as int)[j] == previous@.take(k + 1)[j]);
                }
            }
            if has_state(previous@.take(k as int), x) {
                let j = choose|j: int| 0 <= j < previous@.take(k as int).len() && (#[trigger] previous@.take(k as int)[j]).0@ == x;
                assert(previous@.take(k + 1)[j] == previous@.take(k as int)[j]);
            }
            if x == id@ {
                assert(previous@.take(k + 1)[k as int] == previous@[k as int]);
            }
        }
        let is_target = target_listed(targets, id);
        let already = listed(&forgotten, id);
        if !is_target && !already {
            forgotten.push(owned(id));
            assert(string_views(forgotten@) =~= before.push(id@));
            assert forall|x: Seq<char>| #[trigger] before.push(id@).contains(x) <==> (before.contains(x)
                || x == id@) by {
                if before.push(id@).contains(x) {
                    let j = choose|j: int| 0 <= j < before.push(id@).len() && before.push(id@)[j] == x;
                    if j < before.len() {
                        assert(before[j] == x);
                    }
                }
                if before.contains(x) {
                    let j = choose|j: int| 0 <= j < before.len() && before[j] == x;
                    assert(before.push(id@)[j] == x);
                }
                if x == id@ {
                    assert(before.push(id@)[before.len() as int] == x);
                }
            }
        }
        k = k + 1;
    }
    assert(previous@.take(previous@.len() as int) =~= previous@);
    LifecyclePlan { notices, states, forgotten }
}

/// Whether the targets have distinct ids.
pub open spec fn distinct_targets(targets: Seq<LifecycleTarget>) -> bool {
    forall|a: int, b: int| 0 <= a < b < targets.len() ==> (#[trigger] targets[a]).id@ != (#[trigger] targets[b]).id@
}

/// Once the states of distinct targets are stored, each target's stored
/// state is whether it was active.
proof fn lemma_stored_states(stored: Seq<(String, bool)>, targets: Seq<LifecycleTarget>, j: int)
    requires
        state_views(stored) == spec_states(targets),
        distinct_targets(targets),
        0 <= j < targets.len(),
    ensures
        stored_state(stored, targets[j].id@) == Some(targets[j].active),
    decreases stored.len(),
{
    assert(stored.len() == state_views(stored).len());
    assert(state_views(stored)[j] == spec_states(targets)[j]);
    let last = stored.len() - 1;
    assert(state_views(stored)[last] == spec_states(targets)[last]);
    if j < last {
        assert(targets[j].id@ != targets[last].id@);
        let rest = stored.drop_last();
        let fewer = targets.drop_last();
        assert(state_views(rest) =~= spec_states(fewer)) by {
            assert forall|k: int| 0 <= k < rest.len() implies state_views(rest)[k] == spec_states(fewer)[k] by {
                assert(rest[k] == stored[k]);
                assert(fewer[k] == targets[k]);
                assert(state_views(stored)[k] == spec_states(targets)[k]);
            }
        }
        assert(distinct_targets(fewer)) by {
            assert forall|a: int, b: int| 0 <= a < b < fewer.len() implies (#[trigger] fewer[a]).id@
                != (#[trigger] fewer[b]).id@ by {
                assert(fewer[a] == targets[a]);
                assert(fewer[b] == targets[b]);
            }
        }
        assert(fewer[j] == targets[j]);
        lemma_stored_states(rest, fewer, j);
    }
}

/// No target announces anything when its stored state matches it.
proof fn lemma_no_notices(
    kind: LifecycleKind,
    stored: Seq<(String, bool)>,
    targets: Seq<LifecycleTarget>,
    p: NotificationPreferences,
)
    requires
        forall|j: int| 0 <= j < targets.len() ==> stored_state(stored, (#[trigger] targets[j]).id@) == Some(
            targets[j].active,
        ),
    ensures
        spec_notices(kind, stored, targets, p).len() == 0,
    decreases targets.len(),
{
    if targets.len() > 0 {
        let fewer = targets.drop_last();
        assert forall|j: int| 0 <= j < fewer.len() implies stored_state(stored, (#[trigger] fewer[j]).id@) == Some(
            fewer[j].active,
        ) by {
            assert(fewer[j] == targets[j]);
        }
        lemma_no_notices(kind, stored, fewer, p);
        assert(targets.last() == targets[targets.len() - 1]);
    }
}

/// Each start and end is announced once: after a pass has stored its
/// states, a pass over the same targets in the same states (distinct ids)
/// announces nothing.
pub proof fn law_each_boundary_is_announced_once(
    kind: LifecycleKind,
    stored: Seq<(String, bool)>,
    targets: Seq<LifecycleTarget>,
    p: NotificationPreferences,
)
    requires
        state_views(stored) == spec_states(targets),
        distinct_targets(targets),
    ensures
        spec_notices(kind, stored, targets, p).len() == 0,
{
    assert forall|j: int| 0 <= j < targets.len() implies stored_state(stored, (#[trigger] targets[j]).id@) == Some(
        targets[j].active,
    ) by {
        lemma_stored_states(stored, targets, j);
    }
    lemma_no_notices(kind, stored, targets, p);
}

} // verus!
