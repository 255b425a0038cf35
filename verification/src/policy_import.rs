use vstd::prelude::*;

use crate::daemon_error::DaemonError;
use crate::policy::{
    AppMatcherConfig, AppMatcherKind, AppRuleConfig, RuleConfig, RulePattern, RulePatternKind,
    RuleTier,
};
use crate::rule_edits::{
    matcher_view, matcher_views, matchers_start_with, opt_string_view, optional_strings_equal,
    pattern_view, pattern_views, patterns_start_with, string_lists_equal,
};
use crate::strings::{clone_opt_string, clone_strings, concat3, str_equal};
use crate::text::string_views;

verus! {

impl View for RuleConfig {
    /// A site list by its id, name, tier, enabled flag, patterns, schedules
    /// and allowance.
    type V = (
        Seq<char>,
        Seq<char>,
        RuleTier,
        bool,
        Seq<(RulePatternKind, Seq<char>, bool)>,
        Seq<Seq<char>>,
        Option<Seq<char>>,
    );

    open spec fn view(&self) -> Self::V {
        (
            self.id@,
            self.name@,
            self.tier,
            self.enabled,
            pattern_views(self.patterns@),
            string_views(self.schedule_ids@),
            opt_string_view(self.allowance_id),
        )
    }
}

impl View for AppRuleConfig {
    /// An application rule by its id, name, tier, enabled flag, matchers,
    /// schedules and allowance.
    type V = (
        Seq<char>,
        Seq<char>,
        RuleTier,
        bool,
        Seq<(AppMatcherKind, Seq<char>)>,
        Seq<Seq<char>>,
        Option<Seq<char>>,
    );

    open spec fn view(&self) -> Self::V {
        (
            self.id@,
            self.name@,
            self.tier,
            self.enabled,
            matcher_views(self.matchers@),
            string_views(self.schedule_ids@),
            opt_string_view(self.allowance_id),
        )
    }
}

/// A policy item that an import can append: it has an id, can be compared
/// with another item, and can be copied.
pub trait ImportItem: View + Sized {
    /// The id of an item, by its view.
    spec fn key_of(v: Self::V) -> Seq<char>;

    /// The id of this item.
    fn item_id(&self) -> (r: &str)
        ensures
            r@ == Self::key_of(self@),
    ;

    /// Whether two items are the same.
    fn same_item(&self, other: &Self) -> (r: bool)
        ensures
            r == (self@ == other@),
    ;

    /// A copy of this item.
    fn copy_item(&self) -> (r: Self)
        ensures
            r@ == self@,
    ;
}

/// A copy of a list of website patterns.
fn copy_patterns(v: &Vec<RulePattern>) -> (r: Vec<RulePattern>)
    ensures
        pattern_views(r@) == pattern_views(v@),
{
    let mut r: Vec<RulePattern> = Vec::new();
    let mut i: usize = 0;
    while i < v.len()
        invariant
            i <= v@.len(),
            r@.len() == i,
            forall|j: int| 0 <= j < i ==> pattern_view(#[trigger] r@[j]) == pattern_view(v@[j]),
        decreases v@.len() - i,
    {
        let p = &v[i];
        r.push(RulePattern { kind: p.kind, value: p.value.clone(), match_subdomains: p.match_subdomains });
        i = i + 1;
    }
    assert(pattern_views(r@) =~= pattern_views(v@));
    r
}

/// A copy of a list of application matchers.
fn copy_matchers(v: &Vec<AppMatcherConfig>) -> (r: Vec<AppMatcherConfig>)
    ensures
        matcher_views(r@) == matcher_views(v@),
{
    let mut r: Vec<AppMatcherConfig> = Vec::new();
    let mut i: usize = 0;
    while i < v.len()
        invariant
            i <= v@.len(),
            r@.len() == i,
            forall|j: int| 0 <= j < i ==> matcher_view(#[trigger] r@[j]) == matcher_view(v@[j]),
        decreases v@.len() - i,
    {
        let m = &v[i];
        r.push(AppMatcherConfig { kind: m.kind, value: m.value.clone() });
        i = i + 1;
    }
    assert(matcher_views(r@) =~= matcher_views(v@));
    r
}

impl ImportItem for RuleConfig {
    open spec fn key_of(v: Self::V) -> Seq<char> {
        v.0
    }

    fn item_id(&self) -> (r: &str) {
        self.id.as_str()
    }

    fn same_item(&self, other: &Self) -> (r: bool) {
        let same = str_equal(self.id.as_str(), other.id.as_str()) && str_equal(
            self.name.as_str(),
            other.name.as_str(),
        ) && self.tier == other.tier && self.enabled == other.enabled && string_lists_equal(
            &self.schedule_ids,
            &other.schedule_ids,
        ) && optional_strings_equal(&self.allowance_id, &other.allowance_id)
            && self.patterns.len() == other.patterns.len() && patterns_start_with(
            &self.patterns,
            &other.patterns,
        );
        proof {
            assert(pattern_views(self.patterns@).len() == self.patterns@.len());
            assert(pattern_views(other.patterns@).len() == other.patterns@.len());
            if self.patterns@.len() == other.patterns@.len() {
                assert(pattern_views(other.patterns@).take(self.patterns@.len() as int)
                    =~= pattern_views(other.patterns@));
            }
        }
        same
    }

    fn copy_item(&self) -> (r: Self) {
        RuleConfig {
            id: self.id.clone(),
            name: self.name.clone(),
            tier: self.tier,
            enabled: self.enabled,
            patterns: copy_patterns(&self.patterns),
            schedule_ids: clone_strings(&self.schedule_ids),
            allowance_id: clone_opt_string(&self.allowance_id),
        }
    }
}

impl ImportItem for AppRuleConfig {
    open spec fn key_of(v: Self::V) -> Seq<char> {
        v.0
    }

    fn item_id(&self) -> (r: &str) {
        self.id.as_str()
    }

    fn same_item(&self, other: &Self) -> (r: bool) {
        let same = str_equal(self.id.as_str(), other.id.as_str()) && str_equal(
            self.name.as_str(),
            other.name.as_str(),
        ) && self.tier == other.tier && self.enabled == other.enabled && string_lists_equal(
            &self.schedule_ids,
            &other.schedule_ids,
        ) && optional_strings_equal(&self.allowance_id, &other.allowance_id)
            && self.matchers.len() == other.matchers.len() && matchers_start_with(
            &self.matchers,
            &other.matchers,
        );
        proof {
            assert(matcher_views(self.matchers@).len() == self.matchers@.len());
            assert(matcher_views(other.matchers@).len() == other.matchers@.len());
            if self.matchers@.len() == other.matchers@.len() {
                assert(matcher_views(other.matchers@).take(self.matchers@.len() as int)
                    =~= matcher_views(other.matchers@));
            }
        }
        same
    }

    fn copy_item(&self) -> (r: Self) {
        AppRuleConfig {
            id: self.id.clone(),
            name: self.name.clone(),
            tier: self.tier,
            enabled: self.enabled,
            matchers: copy_matchers(&self.matchers),
            schedule_ids: clone_strings(&self.schedule_ids),
            allowance_id: clone_opt_string(&self.allowance_id),
        }
    }
}

/// The views of a sequence of items.
pub open spec fn item_views<T: View>(items: Seq<T>) -> Seq<T::V> {
    items.map_values(|t: T| t@)
}

/// The first position in `items` whose id is `key`.
pub open spec fn key_position<T: ImportItem>(items: Seq<T::V>, key: Seq<char>) -> Option<int>
    decreases items.len(),
{
    if items.len() == 0 {
        None
    } else if T::key_of(items[0]) == key {
        Some(0)
    } else {
        match key_position::<T>(items.drop_first(), key) {
            Some(i) => Some(i + 1),
            None => None,
        }
    }
}

/// What `key_position` is: the first index whose item has the id, or
/// `None` when no item has it.
pub proof fn lemma_key_position<T: ImportItem>(items: Seq<T::V>, key: Seq<char>)
    ensures
        match key_position::<T>(items, key) {
            Some(i) => 0 <= i < items.len() && T::key_of(items[i]) == key && forall|j: int|
                0 <= j < i ==> T::key_of(#[trigger] items[j]) != key,
            None => forall|j: int| 0 <= j < items.len() ==> T::key_of(#[trigger] items[j]) != key,
        },
    decreases items.len(),
{
    if items.len() > 0 {
        lemma_key_position::<T>(items.drop_first(), key);
        assert forall|j: int| 1 <= j < items.len() implies items[j] == items.drop_first()[j - 1] by {}
    }
}

/// Importing `imported` into `current`, one item after the other: an item
/// whose id is new is appended; one whose id is taken by an equal item is
/// skipped; one whose id is taken by a different item (the first with that
/// id) stops the import with that id. The result is the items then, how
/// many were appended, and the conflicting id, if any.
pub open spec fn import_into<T: ImportItem>(current: Seq<T::V>, imported: Seq<T::V>) -> (
    Seq<T::V>,
    nat,
    Option<Seq<char>>,
)
    decreases imported.len(),
{
    if imported.len() == 0 {
        (current, 0, None)
    } else {
        let before = import_into::<T>(current, imported.drop_last());
        if before.2 is Some {
            before
        } else {
            let item = imported.last();
            match key_position::<T>(before.0, T::key_of(item)) {
                Some(i) => if before.0[i] == item {
                    before
                } else {
                    (before.0, before.1, Some(T::key_of(item)))
                },
                None => (before.0.push(item), before.1 + 1, None),
            }
        }
    }
}

/// The message of an import that conflicts with an existing item.
pub open spec fn conflict_message(kind: Seq<char>, id: Seq<char>) -> Seq<char> {
    "imported "@ + kind + " '"@ + id + "' conflicts with an existing "@ + kind
}

/// The number of items appended never exceeds the number imported.
proof fn lemma_import_count<T: ImportItem>(current: Seq<T::V>, imported: Seq<T::V>)
    ensures
        import_into::<T>(current, imported).1 <= imported.len(),
    decreases imported.len(),
{
    if imported.len() > 0 {
        lemma_import_count::<T>(current, imported.drop_last());
    }
}

/// The position of the first item of `items` whose id is `key`.
pub(crate) fn find_by_id<T: ImportItem>(items: &Vec<T>, key: &str) -> (r: Option<usize>)
    ensures
        match key_position::<T>(item_views(items@), key@) {
            Some(i) => r matches Some(k) && k as int == i,
            None => r is None,
        },
{
    let ghost vs = item_views(items@);
    proof {
        lemma_key_position::<T>(vs, key@);
    }
    let mut i: usize = 0;
    while i < items.len()
        invariant
            i <= items@.len(),
            vs == item_views(items@),
            vs.len() == items@.len(),
            forall|j: int| 0 <= j < i ==> T::key_of(#[trigger] vs[j]) != key@,
        decreases items@.len() - i,
    {
        let id = items[i].item_id();
        assert(vs[i as int] == items@[i as int]@);
        if str_equal(id, key) {
            proof {
                lemma_key_position::<T>(vs, key@);
                match key_position::<T>(vs, key@) {
                    Some(p) => {
                        if p < i {
                            assert(T::key_of(vs[p]) != key@);
                        }
                        if p > i {
                            assert(T::key_of(vs[i as int]) != key@);
                        }
                    },
                    None => {
                        assert(T::key_of(vs[i as int]) != key@);
                    },
                }
            }
            return Some(i);
        }
        i = i + 1;
    }
    proof {
        lemma_key_position::<T>(vs, key@);
        match key_position::<T>(vs, key@) {
            Some(p) => {
                assert(T::key_of(vs[p]) != key@);
            },
            None => {},
        }
    }
    None
}

/// Appends to `current` the items of `imported` whose ids are new, in
/// order, skipping those already present as equal items; stops with an
/// invalid-request error at the first item whose id belongs to a different
/// item. `kind` names the items in that error. Gives how many were
/// appended.
pub fn append_unique_by_id<T: ImportItem>(current: &mut Vec<T>, imported: &[T], kind: &str) -> (r:
    Result<usize, DaemonError>)
    ensures
        item_views(final(current)@) == import_into::<T>(
            item_views(old(current)@),
            item_views(imported@),
        ).0,
        match r {
            Ok(n) => import_into::<T>(item_views(old(current)@), item_views(imported@)).2 is None
                && n == import_into::<T>(item_views(old(current)@), item_views(imported@)).1,
            Err(e) => import_into::<T>(
                item_views(old(current)@),
                item_views(imported@),
            ).2 matches Some(id) && e matches DaemonError::InvalidRequest(m) && m@
                == conflict_message(kind@, id),
        },
{
    let ghost start = item_views(current@);
    let ghost all = item_views(imported@);
    let mut added: usize = 0;
    let mut i: usize = 0;
    while i < imported.len()
        invariant
            i <= imported@.len(),
            all == item_views(imported@),
            start == item_views(old(current)@),
            added <= i,
            import_into::<T>(start, all.take(i as int)) == (
                item_views(current@),
                added as nat,
                None::<Seq<char>>,
            ),
        decreases imported@.len() - i,
    {
        let item = &imported[i];
        proof {
            assert(all.take(i + 1).drop_last() =~= all.take(i as int));
            assert(all.take(i + 1).last() == item@);
        }
        let id = item.item_id();
        let found = find_by_id(current, id);
        proof {
            lemma_key_position::<T>(item_views(current@), id@);
        }
        match found {
            Some(k) => {
                if !current[k].same_item(item) {
                    let head = concat3("imported ", kind, " '");
                    let middle = concat3(head.as_str(), id, "' conflicts with an existing ");
                    let message = concat3(middle.as_str(), kind, "");
                    proof {
                        assert(item_views(current@)[k as int] == current@[k as int]@);
                        assert(import_into::<T>(start, all.take(i + 1)) == (
                            item_views(current@),
                            added as nat,
                            Some(id@),
                        ));
                        lemma_import_stops::<T>(start, all, i as int);
                        reveal_strlit("");
                        assert(message@ =~= conflict_message(kind@, id@));
                    }
                    return Err(DaemonError::InvalidRequest(message));
                }
                proof {
                    assert(item_views(current@)[k as int] == current@[k as int]@);
                }
            },
            None => {
                let ghost before = current@;
                current.push(item.copy_item());
                added = added + 1;
                proof {
                    assert(item_views(current@) =~= item_views(before).push(item@));
                }
            },
        }
        i = i + 1;
    }
    proof {
        assert(all.take(imported@.len() as int) =~= all);
    }
    Ok(added)
}

/// Once the import of the first `i` items stopped or went on, the import
/// of all items ends with the outcome the `i + 1`-th item gave when it
/// conflicts.
proof fn lemma_import_stops<T: ImportItem>(current: Seq<T::V>, imported: Seq<T::V>, i: int)
    requires
        0 <= i < imported.len(),
        import_into::<T>(current, imported.take(i + 1)).2 is Some,
    ensures
        import_into::<T>(current, imported) == import_into::<T>(current, imported.take(i + 1)),
    decreases imported.len() - i,
{
    if i + 1 < imported.len() {
        assert(imported.drop_last().take(i + 1) =~= imported.take(i + 1));
        lemma_import_stops::<T>(current, imported.drop_last(), i);
    } else {
        assert(imported.take(i + 1) =~= imported);
    }
}

/// Where an id first occurs once an item is appended: where it did before,
/// or at the new item when it did not occur and the item carries it.
proof fn lemma_key_position_push<T: ImportItem>(items: Seq<T::V>, item: T::V, key: Seq<char>)
    ensures
        key_position::<T>(items.push(item), key) == match key_position::<T>(items, key) {
            Some(p) => Some(p),
            None => if T::key_of(item) == key {
                Some(items.len() as int)
            } else {
                None
            },
        },
    decreases items.len(),
{
    if items.len() == 0 {
        assert(items.push(item).drop_first() =~= Seq::<T::V>::empty());
        assert(key_position::<T>(Seq::<T::V>::empty(), key) is None);
        assert(items.push(item)[0] == item);
    } else {
        assert(items.push(item).drop_first() =~= items.drop_first().push(item));
        assert(items.push(item)[0] == items[0]);
        lemma_key_position_push::<T>(items.drop_first(), item, key);
    }
}

/// Whether every item of `imported` is, in `items`, the first item with its
/// id.
pub open spec fn all_in_place<T: ImportItem>(items: Seq<T::V>, imported: Seq<T::V>) -> bool {
    forall|k: int|
        0 <= k < imported.len() ==> match #[trigger] key_position::<T>(items, T::key_of(imported[k])) {
            Some(p) => items[p] == imported[k],
            None => false,
        }
}

/// An import keeps the items that were there, in place, and appends after
/// them as many items as it counts.
pub proof fn law_import_keeps_existing_items<T: ImportItem>(current: Seq<T::V>, imported: Seq<T::V>)
    ensures
        import_into::<T>(current, imported).0.len() == current.len() + import_into::<T>(
            current,
            imported,
        ).1,
        import_into::<T>(current, imported).0.take(current.len() as int) == current,
    decreases imported.len(),
{
    if imported.len() > 0 {
        law_import_keeps_existing_items::<T>(current, imported.drop_last());
        let before = import_into::<T>(current, imported.drop_last());
        assert(before.0.push(imported.last()).take(current.len() as int) =~= before.0.take(
            current.len() as int,
        ));
    }
}

/// After an import that meets no conflict, each imported item is the first
/// item with its id.
pub proof fn law_imported_items_are_in_place<T: ImportItem>(current: Seq<T::V>, imported: Seq<T::V>)
    requires
        import_into::<T>(current, imported).2 is None,
    ensures
        all_in_place::<T>(import_into::<T>(current, imported).0, imported),
    decreases imported.len(),
{
    if imported.len() > 0 {
        let rest = imported.drop_last();
        let before = import_into::<T>(current, rest);
        let item = imported.last();
        let after = import_into::<T>(current, imported).0;
        law_imported_items_are_in_place::<T>(current, rest);
        lemma_key_position::<T>(before.0, T::key_of(item));
        assert forall|k: int| 0 <= k < imported.len() implies match #[trigger] key_position::<T>(
            after,
            T::key_of(imported[k]),
        ) {
            Some(p) => after[p] == imported[k],
            None => false,
        } by {
            if k < imported.len() - 1 {
                assert(imported[k] == rest[k]);
                assert(match key_position::<T>(before.0, T::key_of(rest[k])) {
                    Some(p) => before.0[p] == rest[k],
                    None => false,
                });
                if key_position::<T>(before.0, T::key_of(item)) is None {
                    lemma_key_position_push::<T>(before.0, item, T::key_of(imported[k]));
                    assert(after == before.0.push(item));
                    match key_position::<T>(before.0, T::key_of(rest[k])) {
                        Some(p) => {
                            lemma_key_position::<T>(before.0, T::key_of(rest[k]));
                            assert(after[p] == before.0[p]);
                        },
                        None => {},
                    }
                }
            } else {
                if key_position::<T>(before.0, T::key_of(item)) is None {
                    lemma_key_position_push::<T>(before.0, item, T::key_of(item));
                }
            }
        }
    }
}

/// Importing items that are all already in place changes nothing and
/// appends nothing.
proof fn lemma_import_in_place_is_identity<T: ImportItem>(items: Seq<T::V>, imported: Seq<T::V>)
    requires
        all_in_place::<T>(items, imported),
    ensures
        import_into::<T>(items, imported) == (items, 0nat, None::<Seq<char>>),
    decreases imported.len(),
{
    if imported.len() > 0 {
        let rest = imported.drop_last();
        assert forall|k: int| 0 <= k < rest.len() implies match #[trigger] key_position::<T>(
            items,
            T::key_of(rest[k]),
        ) {
            Some(p) => items[p] == rest[k],
            None => false,
        } by {
            assert(rest[k] == imported[k]);
            assert(match key_position::<T>(items, T::key_of(imported[k])) {
                Some(p) => items[p] == imported[k],
                None => false,
            });
        }
        lemma_import_in_place_is_identity::<T>(items, rest);
        let last = imported.len() - 1;
        assert(match key_position::<T>(items, T::key_of(imported[last])) {
            Some(p) => items[p] == imported[last],
            None => false,
        });
    }
}

/// Importing the same items a second time, after an import without
/// conflict, appends nothing and changes nothing.
pub proof fn law_import_twice_adds_nothing<T: ImportItem>(current: Seq<T::V>, imported: Seq<T::V>)
    requires
        import_into::<T>(current, imported).2 is None,
    ensures
        import_into::<T>(import_into::<T>(current, imported).0, imported) == (
            import_into::<T>(current, imported).0,
            0nat,
            None::<Seq<char>>,
        ),
{
    law_imported_items_are_in_place::<T>(current, imported);
    lemma_import_in_place_is_identity::<T>(import_into::<T>(current, imported).0, imported);
}

} // verus!
