use vstd::prelude::*;

use crate::json::{json_object_text, member_views, object_json, JsonPiece, PieceView};
use crate::ordering::{insert_sorted, strictly_sorted, vec_views};
use crate::strings::owned;
use crate::text::{
    chars_of, has_prefix, lines, split_lines, split_whitespace, string_from_chars,
    strip_prefix_chars, views, words,
};

verus! {

/// The rest of the first word that starts with `p`, after `p`.
pub open spec fn first_with_prefix(ws: Seq<Seq<char>>, p: Seq<char>) -> Option<Seq<char>>
    decreases ws.len(),
{
    if ws.len() == 0 {
        None
    } else if has_prefix(ws[0], p) {
        Some(ws[0].skip(p.len() as int))
    } else {
        first_with_prefix(ws.drop_first(), p)
    }
}

/// The kind of an event-log line: the quoted, non-empty value of its first
/// `kind=` field; `None` when the first such field is not quoted or is empty,
/// or when there is none.
pub open spec fn spec_event_kind(line: Seq<char>) -> Option<Seq<char>> {
    match first_with_prefix(words(line), "kind="@) {
        None => None,
        Some(rest) => if rest.len() >= 3 && rest[0] == '"' && rest.last() == '"' {
            Some(rest.subrange(1, rest.len() - 1))
        } else {
            None
        },
    }
}

/// The kind of an event-log line.
pub fn event_kind_from_log_line(line: &str) -> (r: Option<String>)
    ensures
        match spec_event_kind(line@) {
            Some(k) => r matches Some(s) && s@ == k,
            None => r is None,
        },
{
    let text = chars_of(line);
    let fields = split_whitespace(text.as_slice());
    let key: Vec<char> = vec!['k', 'i', 'n', 'd', '='];
    proof {
        reveal_strlit("kind=");
    }
    assert(key@ =~= "kind="@);
    let ghost ws = views(fields@);
    let mut i: usize = 0;
    assert(ws.skip(0) =~= ws);
    while i < fields.len()
        invariant
            i <= fields@.len(),
            ws == views(fields@),
            ws == words(line@),
            key@ == "kind="@,
            first_with_prefix(ws.skip(i as int), key@) == first_with_prefix(ws, key@),
        decreases fields@.len() - i,
    {
        assert(ws.skip(i as int)[0] == fields@[i as int]@);
        assert(ws.skip(i as int).drop_first() =~= ws.skip(i + 1));
        match strip_prefix_chars(fields[i].as_slice(), key.as_slice()) {
            Some(rest) => {
                let n = rest.len();
                if n >= 3 && rest[0] == '"' && rest[n - 1] == '"' {
                    let inner = vstd::slice::slice_subrange(rest.as_slice(), 1, n - 1);
                    return Some(string_from_chars(inner));
                }
                return None;
            },
            None => {},
        }
        i = i + 1;
    }
    assert(ws.skip(i as int) =~= Seq::<Seq<char>>::empty());
    None
}

/// The kind of each line, `None` for a line without one.
pub open spec fn line_kinds(ls: Seq<Seq<char>>) -> Seq<Option<Seq<char>>> {
    ls.map_values(|l: Seq<char>| spec_event_kind(l))
}

/// How many lines are of kind `k`.
pub open spec fn kind_count(ks: Seq<Option<Seq<char>>>, k: Seq<char>) -> nat
    decreases ks.len(),
{
    if ks.len() == 0 {
        0
    } else {
        kind_count(ks.drop_last(), k) + if ks.last() == Some(k) {
            1nat
        } else {
            0nat
        }
    }
}

/// How many lines have a kind.
pub open spec fn event_total(ks: Seq<Option<Seq<char>>>) -> nat
    decreases ks.len(),
{
    if ks.len() == 0 {
        0
    } else {
        event_total(ks.drop_last()) + if ks.last() is Some {
            1nat
        } else {
            0nat
        }
    }
}

/// The kinds that occur.
pub open spec fn kinds_set(ks: Seq<Option<Seq<char>>>) -> Set<Seq<char>> {
    Set::new(|k: Seq<char>| ks.contains(Some(k)))
}

/// The keys of a list of counts.
pub open spec fn count_keys(counts: Seq<(String, u64)>) -> Seq<Seq<char>> {
    counts.map_values(|c: (String, u64)| c.0@)
}

/// Whether `counts` holds each kind of the event log `contents` once, in
/// increasing order, with the number of its lines.
pub open spec fn event_counts_hold(contents: Seq<char>, counts: Seq<(String, u64)>) -> bool {
    let ks = line_kinds(lines(contents));
    &&& strictly_sorted(count_keys(counts))
    &&& count_keys(counts).to_set() == kinds_set(ks)
    &&& forall|j: int| 0 <= j < counts.len() ==> #[trigger] counts[j].1 == kind_count(ks, counts[j].0@)
}

/// The counts of the event kinds in the event log `contents`, kinds in
/// increasing order, each with the number of its lines.
/// Whether `kinds` are the kinds of the lines whose kinds are `ks`.
pub open spec fn kinds_match(kinds: Seq<Option<String>>, ks: Seq<Option<Seq<char>>>) -> bool {
    &&& kinds.len() == ks.len()
    &&& forall|j: int| 0 <= j < kinds.len() ==> match #[trigger] kinds[j] {
        Some(k) => ks[j] == Some(k@),
        None => ks[j] is None,
    }
}

/// The kind of each line of the event log `contents`.
fn event_kinds(contents: &str) -> (r: Vec<Option<String>>)
    ensures
        kinds_match(r@, line_kinds(lines(contents@))),
{
    let text = chars_of(contents);
    let ls = split_lines(text.as_slice());
    let ghost ks = line_kinds(lines(contents@));
    let mut kinds: Vec<Option<String>> = Vec::new();
    let mut i: usize = 0;
    while i < ls.len()
        invariant
            i <= ls@.len(),
            views(ls@) == lines(contents@),
            ks == line_kinds(lines(contents@)),
            kinds@.len() == i,
            forall|j: int| 0 <= j < i ==> match #[trigger] kinds@[j] {
                Some(k) => ks[j] == Some(k@),
                None => ks[j] is None,
            },
        decreases ls@.len() - i,
    {
        let line = string_from_chars(ls[i].as_slice());
        assert(views(ls@)[i as int] == ls@[i as int]@);
        kinds.push(event_kind_from_log_line(line.as_str()));
        i = i + 1;
    }
    kinds
}

pub fn event_counts(contents: &str) -> (r: Vec<(String, u64)>)
    ensures
        event_counts_hold(contents@, r@),
{
    let ghost ks = line_kinds(lines(contents@));
    let kinds = event_kinds(contents);
    let mut keys: Vec<Vec<char>> = Vec::new();
    let mut a: usize = 0;
    assert(vec_views(keys@).to_set() =~= kinds_set(ks.take(0)));
    while a < kinds.len()
        invariant
            a <= kinds@.len(),
            kinds@.len() == ks.len(),
            forall|j: int| 0 <= j < kinds@.len() ==> match #[trigger] kinds@[j] {
                Some(k) => ks[j] == Some(k@),
                None => ks[j] is None,
            },
            strictly_sorted(vec_views(keys@)),
            vec_views(keys@).to_set() == kinds_set(ks.take(a as int)),
        decreases kinds@.len() - a,
    {
        let ghost before = vec_views(keys@).to_set();
        let ghost t0 = ks.take(a as int);
        let ghost t1 = ks.take(a + 1);
        assert(t1 =~= t0.push(ks[a as int]));
        match &kinds[a] {
            Some(k) => {
                insert_sorted(&mut keys, chars_of(k.as_str()));
                assert(kinds_set(t1) =~= before.insert(k@)) by {
                    assert forall|x: Seq<char>| kinds_set(t1).contains(x) <==> before.insert(
                        k@,
                    ).contains(x) by {
                        if t1.contains(Some(x)) {
                            let q = choose|q: int| 0 <= q < t1.len() && t1[q] == Some(x);
                            if q < a {
                                assert(t0[q] == Some(x));
                            }
                        }
                        if before.contains(x) {
                            let q = choose|q: int| 0 <= q < t0.len() && t0[q] == Some(x);
                            assert(t1[q] == Some(x));
                        }
                        if x == k@ {
                            assert(t1[a as int] == Some(x));
                        }
                    }
                }
            },
            None => {
                assert(kinds_set(t1) =~= before) by {
                    assert forall|x: Seq<char>| kinds_set(t1).contains(x) <==> before.contains(x) by {
                        if t1.contains(Some(x)) {
                            let q = choose|q: int| 0 <= q < t1.len() && t1[q] == Some(x);
                            assert(q < a);
                            assert(t0[q] == Some(x));
                        }
                        if before.contains(x) {
                            let q = choose|q: int| 0 <= q < t0.len() && t0[q] == Some(x);
                            assert(t1[q] == Some(x));
                        }
                    }
                }
            },
        }
        a = a + 1;
    }
    assert(ks.take(ks.len() as int) =~= ks);
    let mut counts: Vec<(String, u64)> = Vec::new();
    let mut b: usize = 0;
    while b < keys.len()
        invariant
            b <= keys@.len(),
            kinds@.len() == ks.len(),
            kinds@.len() <= usize::MAX,
            forall|j: int| 0 <= j < kinds@.len() ==> match #[trigger] kinds@[j] {
                Some(k) => ks[j] == Some(k@),
                None => ks[j] is None,
            },
            counts@.len() == b,
            count_keys(counts@) == vec_views(keys@).take(b as int),
            forall|j: int| 0 <= j < b ==> #[trigger] counts@[j].1 == kind_count(ks, counts@[j].0@),
        decreases keys@.len() - b,
    {
        let key = string_from_chars(keys[b].as_slice());
        let mut n: usize = 0;
        let mut c: usize = 0;
        while c < kinds.len()
            invariant
                c <= kinds@.len(),
                kinds@.len() == ks.len(),
                forall|j: int| 0 <= j < kinds@.len() ==> match #[trigger] kinds@[j] {
                    Some(k) => ks[j] == Some(k@),
                    None => ks[j] is None,
                },
                n <= c,
                n == kind_count(ks.take(c as int), key@),
            decreases kinds@.len() - c,
        {
            assert(ks.take(c + 1).drop_last() =~= ks.take(c as int));
            let hit = match &kinds[c] {
                Some(k) => crate::strings::str_equal(k.as_str(), key.as_str()),
                None => false,
            };
            if hit {
                n = n + 1;
            }
            c = c + 1;
        }
        assert(ks.take(kinds@.len() as int) =~= ks);
        let ghost prev = count_keys(counts@);
        counts.push((key, n as u64));
        assert(count_keys(counts@) =~= vec_views(keys@).take(b + 1)) by {
            assert(count_keys(counts@) =~= prev.push(keys@[b as int]@));
            assert(vec_views(keys@).take(b + 1) =~= vec_views(keys@).take(b as int).push(
                vec_views(keys@)[b as int],
            ));
        }
        b = b + 1;
    }
    assert(vec_views(keys@).take(keys@.len() as int) =~= vec_views(keys@));
    counts
}

/// The members of the object of counts.
pub open spec fn count_members(counts: Seq<(String, u64)>) -> Seq<(Seq<char>, PieceView)> {
    counts.map_values(|c: (String, u64)| (c.0@, PieceView::Integer(c.1 as int)))
}

/// The members of the summary of an event log: its path, the number of its
/// events and their counts by kind.
pub open spec fn summary_members(path: Seq<char>, total: nat, counts: Seq<(String, u64)>) -> Seq<
    (Seq<char>, PieceView),
> {
    seq![
        ("path"@, PieceView::Text(path)),
        ("total_events"@, PieceView::Integer(total as int)),
        ("event_counts"@, PieceView::Raw(json_object_text(count_members(counts)))),
    ]
}

/// The summary of the event log at `path` that reads `contents`, as a JSON
/// object: the path, the number of lines with a kind, and the number of
/// lines of each kind.
pub fn log_summary_json(path: &str, contents: &str) -> (r: Vec<u8>)
    ensures
        exists|counts: Seq<(String, u64)>| {
            &&& event_counts_hold(contents@, counts)
            &&& r@ == json_object_text(
                summary_members(path@, event_total(line_kinds(lines(contents@))), counts),
            )
        },
{
    let ghost ks = line_kinds(lines(contents@));
    let kinds = event_kinds(contents);
    let mut total: usize = 0;
    let mut i: usize = 0;
    while i < kinds.len()
        invariant
            i <= kinds@.len(),
            kinds_match(kinds@, ks),
            total <= i,
            total == event_total(ks.take(i as int)),
        decreases kinds@.len() - i,
    {
        assert(ks.take(i + 1).drop_last() =~= ks.take(i as int));
        if kinds[i].is_some() {
            total = total + 1;
        }
        i = i + 1;
    }
    assert(ks.take(kinds@.len() as int) =~= ks);
    let counts = event_counts(contents);
    let mut count_pieces: Vec<(String, JsonPiece)> = Vec::new();
    let mut j: usize = 0;
    while j < counts.len()
        invariant
            j <= counts@.len(),
            count_pieces@.len() == j,
            member_views(count_pieces@) == count_members(counts@).take(j as int),
        decreases counts@.len() - j,
    {
        let (kind, n) = &counts[j];
        let ghost prev = count_pieces@;
        count_pieces.push((kind.clone(), JsonPiece::Unsigned(*n)));
        assert(member_views(count_pieces@)[j as int] == count_members(counts@)[j as int]);
        assert(forall|q: int| 0 <= q < j ==> count_pieces@[q] == prev[q]);
        assert(member_views(count_pieces@) =~= count_members(counts@).take(j + 1));
        j = j + 1;
    }
    assert(count_members(counts@).take(counts@.len() as int) =~= count_members(counts@));
    let counts_bytes = object_json(&count_pieces);
    let mut members: Vec<(String, JsonPiece)> = Vec::new();
    members.push((owned("path"), JsonPiece::Text(owned(path))));
    members.push((owned("total_events"), JsonPiece::Unsigned(total as u64)));
    members.push((owned("event_counts"), JsonPiece::Raw(counts_bytes)));
    assert(member_views(members@) =~= summary_members(path@, event_total(ks), counts@));
    object_json(&members)
}

} // verus!
