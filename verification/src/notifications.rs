use vstd::prelude::*;

use crate::daemon_error::DaemonError;
use crate::strings::owned;

verus! {

/// The most allowance warning thresholds that may be configured.
pub const MAX_NOTIFICATION_THRESHOLDS: usize = 10;

/// The largest allowance warning threshold, in minutes: one day.
pub const MAX_NOTIFICATION_THRESHOLD_MINUTES: u32 = 1440;

/// Which desktop notifications the user wants.
#[derive(Debug, Clone, PartialEq, Eq)]
pub struct NotificationPreferences {
    pub enabled: bool,
    pub website_blocked: bool,
    pub application_blocked: bool,
    pub allowance_warnings: bool,
    /// Minutes of allowance left at which a warning is shown.
    pub allowance_warning_minutes: Vec<u32>,
    pub schedule_started: bool,
    pub schedule_ended: bool,
    pub detox_started: bool,
    pub detox_ended: bool,
}

/// Whether each threshold is larger than the next.
pub open spec fn strictly_decreasing(s: Seq<u32>) -> bool {
    forall|i: int, j: int| 0 <= i < j < s.len() ==> s[i] > s[j]
}

/// Whether a threshold is out of range: zero, or more than a day.
pub open spec fn threshold_out_of_range(minutes: u32) -> bool {
    minutes == 0 || minutes > MAX_NOTIFICATION_THRESHOLD_MINUTES
}

/// The thresholds in decreasing order, each once.
fn sorted_thresholds(minutes: &Vec<u32>) -> (r: Vec<u32>)
    ensures
        strictly_decreasing(r@),
        r@.to_set() == minutes@.to_set(),
{
    let mut out: Vec<u32> = Vec::new();
    let mut i: usize = 0;
    while i < minutes.len()
        invariant
            i <= minutes@.len(),
            strictly_decreasing(out@),
            forall|x: u32| out@.contains(x) <==> minutes@.take(i as int).contains(x),
        decreases minutes@.len() - i,
    {
        let m = minutes[i];
        let ghost before = out@;
        let ghost seen = minutes@.take(i as int);
        let ghost t = minutes@.take(i + 1);
        assert(t =~= seen.push(m));
        let mut k: usize = 0;
        while k < out.len() && out[k] > m
            invariant
                k <= out@.len(),
                out@ == before,
                forall|j: int| 0 <= j < k ==> out@[j] > m,
            decreases out@.len() - k,
        {
            k = k + 1;
        }
        if k < out.len() && out[k] == m {
            assert forall|x: u32| out@.contains(x) <==> t.contains(x) by {
                if t.contains(x) {
                    let q = choose|q: int| 0 <= q < t.len() && t[q] == x;
                    if q == i {
                        assert(out@[k as int] == x);
                    } else {
                        assert(seen[q] == x);
                        assert(seen.contains(x));
                    }
                }
                if out@.contains(x) {
                    assert(seen.contains(x));
                    let q = choose|q: int| 0 <= q < seen.len() && seen[q] == x;
                    assert(t[q] == x);
                }
            }
        } else {
            out.insert(k, m);
            proof {
                assert forall|a: int, b: int| 0 <= a < b < out@.len() implies out@[a] > out@[b] by {
                    if b < k {
                        assert(out@[a] == before[a] && out@[b] == before[b]);
                    } else if b == k {
                        assert(out@[a] == before[a]);
                    } else if a == k {
                        assert(out@[b] == before[b - 1]);
                        assert(before[k as int] <= m);
                        assert(before[k as int] != m);
                        if b - 1 > k {
                            assert(before[k as int] > before[b - 1]);
                        }
                    } else if a < k {
                        assert(out@[a] == before[a] && out@[b] == before[b - 1]);
                    } else {
                        assert(out@[a] == before[a - 1] && out@[b] == before[b - 1]);
                    }
                }
                assert forall|x: u32| out@.contains(x) <==> t.contains(x) by {
                    if out@.contains(x) {
                        let j = choose|j: int| 0 <= j < out@.len() && out@[j] == x;
                        if j == k {
                            assert(t[i as int] == x);
                        } else {
                            if j < k {
                                assert(before[j] == x);
                            } else {
                                assert(before[j - 1] == x);
                            }
                            assert(before.contains(x));
                            assert(seen.contains(x));
                            let q = choose|q: int| 0 <= q < seen.len() && seen[q] == x;
                            assert(t[q] == x);
                        }
                    }
                    if t.contains(x) {
                        let q = choose|q: int| 0 <= q < t.len() && t[q] == x;
                        if q == i {
                            assert(out@[k as int] == x);
                        } else {
                            assert(seen[q] == x);
                            assert(seen.contains(x));
                            assert(before.contains(x));
                            let j = choose|j: int| 0 <= j < before.len() && before[j] == x;
                            if j < k {
                                assert(out@[j] == x);
                            } else {
                                assert(out@[j + 1] == x);
                            }
                        }
                    }
                }
            }
        }
        i = i + 1;
    }
    assert(minutes@.take(minutes@.len() as int) =~= minutes@);
    assert(out@.to_set() =~= minutes@.to_set());
    out
}

/// Normalized thresholds depend only on which thresholds were given: two
/// decreasing lists of the same thresholds are the same list. So the order
/// and the repeats of the input do not matter, and normalizing the result of
/// a normalization gives it back unchanged.
pub proof fn law_normalized_thresholds_are_determined_by_their_set(a: Seq<u32>, b: Seq<u32>)
    requires
        strictly_decreasing(a),
        strictly_decreasing(b),
        a.to_set() == b.to_set(),
    ensures
        a == b,
    decreases a.len(),
{
    if a.len() == 0 {
        if b.len() > 0 {
            assert(b.to_set().contains(b[0]));
            assert(a.to_set().contains(b[0]));
        }
        assert(a =~= b);
    } else {
        assert(a.to_set().contains(a[0]));
        assert(b.to_set().contains(a[0]));
        let j = choose|j: int| 0 <= j < b.len() && b[j] == a[0];
        assert(b.to_set().contains(b[0]));
        assert(a.to_set().contains(b[0]));
        let i = choose|i: int| 0 <= i < a.len() && a[i] == b[0];
        assert(a[0] == b[0]) by {
            if j > 0 {
                assert(b[0] > b[j]);
            }
            if i > 0 {
                assert(a[0] > a[i]);
            }
        }
        let ta = a.drop_first();
        let tb = b.drop_first();
        assert forall|x: u32| ta.contains(x) <==> tb.contains(x) by {
            if ta.contains(x) {
                let p = choose|p: int| 0 <= p < ta.len() && ta[p] == x;
                assert(a[p + 1] == x && a[0] > x);
                assert(a.to_set().contains(x));
                assert(b.to_set().contains(x));
                let q = choose|q: int| 0 <= q < b.len() && b[q] == x;
                assert(q != 0);
                assert(tb[q - 1] == x);
            }
            if tb.contains(x) {
                let p = choose|p: int| 0 <= p < tb.len() && tb[p] == x;
                assert(b[p + 1] == x && b[0] > x);
                assert(b.to_set().contains(x));
                assert(a.to_set().contains(x));
                let q = choose|q: int| 0 <= q < a.len() && a[q] == x;
                assert(q != 0);
                assert(ta[q - 1] == x);
            }
        }
        assert(ta.to_set() =~= tb.to_set());
        law_normalized_thresholds_are_determined_by_their_set(ta, tb);
        assert(a =~= seq![a[0]] + ta);
        assert(b =~= seq![b[0]] + tb);
    }
}

/// Checks the allowance warning thresholds and puts them in decreasing
/// order, each once; the other preferences are kept as they are. More than
/// `MAX_NOTIFICATION_THRESHOLDS` thresholds, or one out of range, is an
/// invalid request.
pub fn normalize_notification_preferences(preferences: NotificationPreferences) -> (r: Result<
    NotificationPreferences,
    DaemonError,
>)
    ensures
        preferences.allowance_warning_minutes@.len() > MAX_NOTIFICATION_THRESHOLDS ==> (r matches Err(
            DaemonError::InvalidRequest(m),
        ) && m@ == "no more than 10 allowance warning thresholds are allowed"@),
        preferences.allowance_warning_minutes@.len() <= MAX_NOTIFICATION_THRESHOLDS && (exists|i: int|
            0 <= i < preferences.allowance_warning_minutes@.len() && threshold_out_of_range(
                #[trigger] preferences.allowance_warning_minutes@[i],
            )) ==> (r matches Err(DaemonError::InvalidRequest(m)) && m@
            == "allowance warning thresholds must be between 1 and 1440 minutes"@),
        r is Ok <==> (preferences.allowance_warning_minutes@.len() <= MAX_NOTIFICATION_THRESHOLDS
            && forall|i: int|
            0 <= i < preferences.allowance_warning_minutes@.len() ==> !threshold_out_of_range(
                #[trigger] preferences.allowance_warning_minutes@[i],
            )),
        r matches Ok(p) ==> {
            &&& strictly_decreasing(p.allowance_warning_minutes@)
            &&& p.allowance_warning_minutes@.to_set() == preferences.allowance_warning_minutes@.to_set()
            &&& p.enabled == preferences.enabled
            &&& p.website_blocked == preferences.website_blocked
            &&& p.application_blocked == preferences.application_blocked
            &&& p.allowance_warnings == preferences.allowance_warnings
            &&& p.schedule_started == preferences.schedule_started
            &&& p.schedule_ended == preferences.schedule_ended
            &&& p.detox_started == preferences.detox_started
            &&& p.detox_ended == preferences.detox_ended
        },
{
    if preferences.allowance_warning_minutes.len() > MAX_NOTIFICATION_THRESHOLDS {
        return Err(DaemonError::InvalidRequest(
            owned("no more than 10 allowance warning thresholds are allowed"),
        ));
    }
    let mut i: usize = 0;
    while i < preferences.allowance_warning_minutes.len()
        invariant
            i <= preferences.allowance_warning_minutes@.len(),
            preferences.allowance_warning_minutes@.len() <= MAX_NOTIFICATION_THRESHOLDS,
            forall|j: int| 0 <= j < i ==> !threshold_out_of_range(
                #[trigger] preferences.allowance_warning_minutes@[j],
            ),
        decreases preferences.allowance_warning_minutes@.len() - i,
    {
        let minutes = preferences.allowance_warning_minutes[i];
        if minutes == 0 || minutes > MAX_NOTIFICATION_THRESHOLD_MINUTES {
            return Err(DaemonError::InvalidRequest(
                owned("allowance warning thresholds must be between 1 and 1440 minutes"),
            ));
        }
        i = i + 1;
    }
    let sorted = sorted_thresholds(&preferences.allowance_warning_minutes);
    Ok(NotificationPreferences { allowance_warning_minutes: sorted, ..preferences })
}

} // verus!
