use vstd::prelude::*;

use crate::notifications::NotificationPreferences;
use crate::service::allowance_notification_body;
use crate::strings::{concat3, str_equal};
use crate::text::{decimal, i64_to_decimal, signed_decimal, u64_to_decimal};

verus! {

/// Whether the allowance left went from above `minutes` to at most
/// `minutes` (both in seconds) between two passes.
pub open spec fn crossed(previous_remaining: i64, remaining: i64, minutes: u32) -> bool {
    previous_remaining > minutes * 60 && remaining <= minutes * 60
}

/// The smallest of the thresholds that the allowance crossed, if any.
pub open spec fn least_crossed(previous_remaining: i64, remaining: i64, thresholds: Seq<u32>) -> Option<u32>
    decreases thresholds.len(),
{
    if thresholds.len() == 0 {
        None
    } else {
        let rest = least_crossed(previous_remaining, remaining, thresholds.drop_last());
        let t = thresholds.last();
        if crossed(previous_remaining, remaining, t) {
            match rest {
                Some(m) => Some(if t < m { t } else { m }),
                None => Some(t),
            }
        } else {
            rest
        }
    }
}

/// The threshold a pass warns about: the smallest one crossed since the
/// stored state, when that state is from the same local day.
pub open spec fn spec_crossed_threshold(
    previous: Option<(Seq<char>, i64)>,
    local_day: Seq<char>,
    thresholds: Seq<u32>,
    remaining: i64,
) -> Option<u32> {
    match previous {
        Some((day, previous_remaining)) => if day == local_day {
            least_crossed(previous_remaining, remaining, thresholds)
        } else {
            None
        },
        None => None,
    }
}

/// The threshold that an allowance crossed since the state stored for it
/// (its local day and the seconds then left), if any.
pub fn crossed_allowance_threshold(
    previous: Option<(&str, i64)>,
    local_day: &str,
    thresholds: &[u32],
    remaining: i64,
) -> (r: Option<u32>)
    ensures
        r == spec_crossed_threshold(
            match previous {
                Some((d, p)) => Some((d@, p)),
                None => None,
            },
            local_day@,
            thresholds@,
            remaining,
        ),
{
    let (day, previous_remaining) = match previous {
        Some(p) => p,
        None => return None,
    };
    if !str_equal(day, local_day) {
        return None;
    }
    let mut least: Option<u32> = None;
    let mut i: usize = 0;
    while i < thresholds.len()
        invariant
            i <= thresholds@.len(),
            least == least_crossed(previous_remaining, remaining, thresholds@.take(i as int)),
        decreases thresholds@.len() - i,
    {
        proof {
            assert(thresholds@.take(i + 1).drop_last() =~= thresholds@.take(i as int));
            assert(thresholds@.take(i + 1).last() == thresholds@[i as int]);
        }
        let t = thresholds[i];
        let seconds = (t as i64) * 60;
        if previous_remaining > seconds && remaining <= seconds {
            least = match least {
                Some(m) => Some(if t < m { t } else { m }),
                None => Some(t),
            };
        }
        i = i + 1;
    }
    assert(thresholds@.take(thresholds@.len() as int) =~= thresholds@);
    least
}

/// What `least_crossed` is: a crossed threshold no larger than any other
/// crossed one, or none when no threshold was crossed.
pub proof fn law_warning_is_for_the_smallest_crossed_threshold(
    previous_remaining: i64,
    remaining: i64,
    thresholds: Seq<u32>,
)
    ensures
        match least_crossed(previous_remaining, remaining, thresholds) {
            Some(t) => thresholds.contains(t) && crossed(previous_remaining, remaining, t) && forall|u: u32|
                thresholds.contains(u) && crossed(previous_remaining, remaining, u) ==> t <= u,
            None => forall|u: u32| thresholds.contains(u) ==> !crossed(previous_remaining, remaining, u),
        },
    decreases thresholds.len(),
{
    if thresholds.len() > 0 {
        let rest = thresholds.drop_last();
        law_warning_is_for_the_smallest_crossed_threshold(previous_remaining, remaining, rest);
        let t = thresholds.last();
        assert(thresholds[thresholds.len() - 1] == t);
        assert forall|u: u32| thresholds.contains(u) implies (rest.contains(u) || u == t) by {
            let j = choose|j: int| 0 <= j < thresholds.len() && thresholds[j] == u;
            if j < rest.len() {
                assert(rest[j] == u);
            }
        }
        assert forall|u: u32| rest.contains(u) implies thresholds.contains(u) by {
            let j = choose|j: int| 0 <= j < rest.len() && rest[j] == u;
            assert(thresholds[j] == u);
        }
    }
}

/// No warning comes without the allowance dropping: a pass that finds as
/// much left as before, or more, crosses no threshold.
pub proof fn law_no_warning_without_a_drop(previous_remaining: i64, remaining: i64, thresholds: Seq<u32>)
    requires
        remaining >= previous_remaining,
    ensures
        least_crossed(previous_remaining, remaining, thresholds) is None,
{
    law_warning_is_for_the_smallest_crossed_threshold(previous_remaining, remaining, thresholds);
    if least_crossed(previous_remaining, remaining, thresholds) is Some {
        let t = least_crossed(previous_remaining, remaining, thresholds)->0;
        assert(crossed(previous_remaining, remaining, t));
    }
}

/// A warning that an allowance runs low: the threshold crossed, the
/// notification body, the key under which repeats are merged, and the
/// detail of the logged event.
#[derive(Debug, Clone, PartialEq, Eq)]
pub struct AllowanceWarning {
    pub threshold_minutes: u32,
    pub body: String,
    pub dedupe_key: String,
    pub event_detail: String,
}

/// The warning a pass gives for an allowance, if any: when warnings are
/// wanted and a threshold was crossed since the stored state of the same
/// day. The event is logged only when the notification was queued.
pub fn allowance_warning(
    rule_id: &str,
    rule_name: &str,
    local_day: &str,
    previous: Option<(&str, i64)>,
    remaining: i64,
    preferences: &NotificationPreferences,
) -> (r: Option<AllowanceWarning>)
    requires
        remaining <= i64::MAX - 59,
    ensures
        match r {
            Some(w) => {
                &&& preferences.enabled && preferences.allowance_warnings
                &&& spec_crossed_threshold(
                    match previous {
                        Some((d, p)) => Some((d@, p)),
                        None => None,
                    },
                    local_day@,
                    preferences.allowance_warning_minutes@,
                    remaining,
                ) == Some(w.threshold_minutes)
                &&& (remaining < 60 ==> w.body@ == "Less than 1 minute remains for \""@ + rule_name@
                    + "\"."@)
                &&& (remaining >= 60 ==> w.body@ == decimal(((remaining + 59) / 60) as nat)
                    + " minutes remain for \""@ + rule_name@ + "\"."@)
                &&& w.dedupe_key@ == "allowance_warning:"@ + rule_id@ + ":"@ + local_day@ + ":"@
                    + decimal(w.threshold_minutes as nat)
                &&& w.event_detail@ == "threshold_minutes="@ + decimal(w.threshold_minutes as nat)
                    + ";remaining_seconds="@ + signed_decimal(remaining as int)
            },
            None => !(preferences.enabled && preferences.allowance_warnings) || spec_crossed_threshold(
                match previous {
                    Some((d, p)) => Some((d@, p)),
                    None => None,
                },
                local_day@,
                preferences.allowance_warning_minutes@,
                remaining,
            ) is None,
        },
{
    if !(preferences.enabled && preferences.allowance_warnings) {
        return None;
    }
    let threshold = match crossed_allowance_threshold(
        previous,
        local_day,
        preferences.allowance_warning_minutes.as_slice(),
        remaining,
    ) {
        Some(t) => t,
        None => return None,
    };
    let body = allowance_notification_body(rule_name, remaining);
    let minutes = u64_to_decimal(threshold as u64);
    let head = concat3("allowance_warning:", rule_id, ":");
    let middle = concat3(head.as_str(), local_day, ":");
    let dedupe_key = concat3(middle.as_str(), minutes.as_str(), "");
    let detail_head = concat3("threshold_minutes=", minutes.as_str(), ";remaining_seconds=");
    let event_detail = concat3(detail_head.as_str(), i64_to_decimal(remaining).as_str(), "");
    proof {
        reveal_strlit("");
    }
    assert(dedupe_key@ =~= "allowance_warning:"@ + rule_id@ + ":"@ + local_day@ + ":"@ + decimal(
        threshold as nat,
    ));
    assert(event_detail@ =~= "threshold_minutes="@ + decimal(threshold as nat) + ";remaining_seconds="@
        + signed_decimal(remaining as int));
    Some(AllowanceWarning { threshold_minutes: threshold, body, dedupe_key, event_detail })
}

} // verus!
