use vstd::prelude::*;

use crate::strings::str_equal;
use crate::text::{chars_of, string_from_chars, string_views, trim, trim_chars};

verus! {

/// The ids, each trimmed, without empty ones and without repeats, in the
/// order of their first appearance.
pub open spec fn spec_normalized_unique_ids(ids: Seq<Seq<char>>) -> Seq<Seq<char>>
    decreases ids.len(),
{
    if ids.len() == 0 {
        Seq::empty()
    } else {
        let before = spec_normalized_unique_ids(ids.drop_last());
        let id = trim(ids.last());
        if id.len() > 0 && !before.contains(id) {
            before.push(id)
        } else {
            before
        }
    }
}

/// Whether `v` holds `s`.
fn holds_string(v: &Vec<String>, s: &str) -> (r: bool)
    ensures
        r == string_views(v@).contains(s@),
{
    let mut i: usize = 0;
    while i < v.len()
        invariant
            i <= v@.len(),
            forall|j: int| 0 <= j < i ==> string_views(v@)[j] != s@,
        decreases v@.len() - i,
    {
        if str_equal(v[i].as_str(), s) {
            assert(string_views(v@)[i as int] == s@);
            return true;
        }
        i = i + 1;
    }
    false
}

/// The ids, each trimmed, without empty ones and without repeats.
pub fn normalized_unique_ids(ids: Vec<String>) -> (r: Vec<String>)
    ensures
        string_views(r@) == spec_normalized_unique_ids(string_views(ids@)),
{
    let mut unique: Vec<String> = Vec::new();
    let mut i: usize = 0;
    while i < ids.len()
        invariant
            i <= ids@.len(),
            string_views(unique@) == spec_normalized_unique_ids(string_views(ids@).take(i as int)),
        decreases ids@.len() - i,
    {
        let raw = chars_of(ids[i].as_str());
        let trimmed = trim_chars(raw.as_slice());
        let id = string_from_chars(trimmed.as_slice());
        assert(string_views(ids@).take(i + 1).drop_last() =~= string_views(ids@).take(i as int));
        assert(string_views(ids@).take(i + 1).last() == ids@[i as int]@);
        if trimmed.len() > 0 && !holds_string(&unique, id.as_str()) {
            let ghost before = string_views(unique@);
            let ghost iv = id@;
            unique.push(id);
            assert(string_views(unique@) =~= before.push(iv));
        }
        i = i + 1;
    }
    assert(string_views(ids@).take(ids@.len() as int) =~= string_views(ids@));
    unique
}

/// Whether two lists hold the same ids: as many, and each of the first in
/// the second.
pub fn same_id_membership(left: &[String], right: &[String]) -> (r: bool)
    ensures
        r == (left@.len() == right@.len() && forall|i: int|
            0 <= i < left@.len() ==> string_views(right@).contains(#[trigger] left@[i]@)),
{
    if left.len() != right.len() {
        return false;
    }
    let mut i: usize = 0;
    while i < left.len()
        invariant
            i <= left@.len(),
            left@.len() == right@.len(),
            forall|j: int| 0 <= j < i ==> string_views(right@).contains(#[trigger] left@[j]@),
        decreases left@.len() - i,
    {
        let mut found = false;
        let mut k: usize = 0;
        while k < right.len()
            invariant
                k <= right@.len(),
                i < left@.len(),
                !found ==> forall|m: int| 0 <= m < k ==> string_views(right@)[m] != left@[i as int]@,
                found ==> string_views(right@).contains(left@[i as int]@),
            decreases right@.len() - k,
        {
            if !found && str_equal(right[k].as_str(), left[i].as_str()) {
                assert(string_views(right@)[k as int] == left@[i as int]@);
                found = true;
            }
            k = k + 1;
        }
        if !found {
            assert(!string_views(right@).contains(left@[i as int]@));
            return false;
        }
        i = i + 1;
    }
    true
}

/// How many items of each kind a policy import appended.
#[derive(Debug, Default, Clone, Copy, PartialEq, Eq, Structural)]
pub struct PolicyAppendSummary {
    pub allowances: usize,
    pub schedules: usize,
    pub rules: usize,
    pub app_rules: usize,
}

impl PolicyAppendSummary {
    /// How many items the import appended in all.
    pub fn total(&self) -> (r: usize)
        requires
            self.allowances + self.schedules + self.rules + self.app_rules <= usize::MAX,
        ensures
            r == self.allowances + self.schedules + self.rules + self.app_rules,
    {
        self.allowances + self.schedules + self.rules + self.app_rules
    }
}

} // verus!
