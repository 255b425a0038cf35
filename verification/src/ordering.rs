use vstd::prelude::*;

verus! {

/// Lexicographic order on character sequences by code point, which is the
/// order of `String` (UTF-8 byte order agrees with code-point order).
pub open spec fn seq_lt(a: Seq<char>, b: Seq<char>) -> bool
    decreases a.len(),
{
    if b.len() == 0 {
        false
    } else if a.len() == 0 {
        true
    } else if a[0] != b[0] {
        a[0] < b[0]
    } else {
        seq_lt(a.drop_first(), b.drop_first())
    }
}

/// No sequence is below itself.
pub proof fn lemma_lt_irreflexive(a: Seq<char>)
    ensures
        !seq_lt(a, a),
    decreases a.len(),
{
    if a.len() > 0 {
        lemma_lt_irreflexive(a.drop_first());
    }
}

/// The order is transitive.
pub proof fn lemma_lt_transitive(a: Seq<char>, b: Seq<char>, c: Seq<char>)
    requires
        seq_lt(a, b),
        seq_lt(b, c),
    ensures
        seq_lt(a, c),
    decreases a.len(),
{
    if a.len() > 0 && b.len() > 0 && c.len() > 0 {
        if a[0] == b[0] && b[0] == c[0] {
            lemma_lt_transitive(a.drop_first(), b.drop_first(), c.drop_first());
        }
    }
}

/// Two different sequences are ordered one way or the other.
pub proof fn lemma_lt_total(a: Seq<char>, b: Seq<char>)
    requires
        a != b,
    ensures
        seq_lt(a, b) || seq_lt(b, a),
    decreases a.len(),
{
    if a.len() > 0 && b.len() > 0 && a[0] == b[0] {
        if a.drop_first() == b.drop_first() {
            assert(a =~= seq![a[0]] + a.drop_first());
            assert(b =~= seq![b[0]] + b.drop_first());
        }
        lemma_lt_total(a.drop_first(), b.drop_first());
    } else if a.len() == 0 && b.len() == 0 {
        assert(a =~= b);
    }
}

/// The order is asymmetric.
pub proof fn lemma_lt_asymmetric(a: Seq<char>, b: Seq<char>)
    requires
        seq_lt(a, b),
    ensures
        !seq_lt(b, a),
{
    if seq_lt(b, a) {
        lemma_lt_transitive(a, b, a);
        lemma_lt_irreflexive(a);
    }
}

/// Whether the sequences are in strictly increasing order.
pub open spec fn strictly_sorted(s: Seq<Seq<char>>) -> bool {
    forall|i: int, j: int| 0 <= i < j < s.len() ==> seq_lt(#[trigger] s[i], #[trigger] s[j])
}

/// Whether `a` comes before `b`.
pub fn chars_less(a: &[char], b: &[char]) -> (r: bool)
    ensures
        r == seq_lt(a@, b@),
{
    let mut i: usize = 0;
    assert(a@.skip(0) =~= a@);
    assert(b@.skip(0) =~= b@);
    while i < a.len() && i < b.len() && a[i] == b[i]
        invariant
            i <= a@.len(),
            i <= b@.len(),
            seq_lt(a@, b@) == seq_lt(a@.skip(i as int), b@.skip(i as int)),
        decreases a@.len() - i,
    {
        assert(a@.skip(i as int).drop_first() =~= a@.skip(i + 1));
        assert(b@.skip(i as int).drop_first() =~= b@.skip(i + 1));
        i = i + 1;
    }
    if i == b.len() {
        false
    } else if i == a.len() {
        true
    } else {
        assert(a@.skip(i as int)[0] == a@[i as int]);
        assert(b@.skip(i as int)[0] == b@[i as int]);
        a[i] < b[i]
    }
}

/// The char views of a sequence of char vectors.
pub open spec fn vec_views(v: Seq<Vec<char>>) -> Seq<Seq<char>> {
    v.map_values(|w: Vec<char>| w@)
}

/// Adds `x` to a strictly sorted list, keeping it strictly sorted; a list
/// that already holds `x` is left as it is.
pub fn insert_sorted(list: &mut Vec<Vec<char>>, x: Vec<char>)
    requires
        strictly_sorted(vec_views(old(list)@)),
    ensures
        strictly_sorted(vec_views(final(list)@)),
        vec_views(final(list)@).to_set() == vec_views(old(list)@).to_set().insert(x@),
{
    let ghost old_views = vec_views(list@);
    let mut i: usize = 0;
    while i < list.len() && chars_less(list[i].as_slice(), x.as_slice())
        invariant
            i <= list@.len(),
            vec_views(list@) == old_views,
            strictly_sorted(old_views),
            forall|j: int| 0 <= j < i ==> seq_lt(#[trigger] old_views[j], x@),
        decreases list@.len() - i,
    {
        i = i + 1;
    }
    if i < list.len() && !chars_less(x.as_slice(), list[i].as_slice()) {
        proof {
            if old_views[i as int] != x@ {
                lemma_lt_total(old_views[i as int], x@);
            }
        }
        assert(old_views[i as int] == x@);
        assert(old_views.to_set() =~= old_views.to_set().insert(x@)) by {
            assert(old_views.contains(x@));
        }
        return;
    }
    proof {
        if i < list@.len() {
            if old_views[i as int] != x@ {
                lemma_lt_total(old_views[i as int], x@);
            } else {
                lemma_lt_irreflexive(x@);
            }
        }
    }
    let ghost xv = x@;
    list.insert(i, x);
    let ghost nv = vec_views(list@);
    assert(nv =~= old_views.insert(i as int, xv));
    assert forall|a: int, b: int| 0 <= a < b < nv.len() implies seq_lt(
        #[trigger] nv[a],
        #[trigger] nv[b],
    ) by {
        if a < i && b == i {
        } else if a < i && b > i {
            assert(nv[b] == old_views[b - 1]);
            if i < old_views.len() {
                lemma_lt_transitive(old_views[a], xv, old_views[i as int]);
                if b - 1 > i {
                    lemma_lt_transitive(old_views[a], old_views[i as int], old_views[b - 1]);
                }
            }
        } else if a == i && b > i {
            assert(nv[b] == old_views[b - 1]);
            if b - 1 > i {
                lemma_lt_transitive(xv, old_views[i as int], old_views[b - 1]);
            }
        } else if a > i {
            assert(nv[a] == old_views[a - 1]);
            assert(nv[b] == old_views[b - 1]);
        }
    }
    assert(nv.to_set() =~= old_views.to_set().insert(xv)) by {
        assert forall|y: Seq<char>| nv.to_set().contains(y) <==> old_views.to_set().insert(
            xv,
        ).contains(y) by {
            if nv.contains(y) {
                let k = choose|k: int| 0 <= k < nv.len() && nv[k] == y;
                if k < i {
                    assert(old_views[k] == y);
                } else if k > i {
                    assert(old_views[k - 1] == y);
                }
            }
            if old_views.contains(y) {
                let k = choose|k: int| 0 <= k < old_views.len() && old_views[k] == y;
                if k < i {
                    assert(nv[k] == y);
                } else {
                    assert(nv[k + 1] == y);
                }
            }
            if y == xv {
                assert(nv[i as int] == y);
            }
        }
    }
}

} // verus!
