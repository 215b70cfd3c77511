//! Ordering of names: lexicographic comparison of character sequences, a
//! stable sort of keyed items, and removal of adjacent items with equal keys.
//!
//! Keys are compared character by character by code point, which is the
//! order `String`'s `Ord` gives (UTF-8 preserves code-point order).

use vstd::prelude::*;

verus! {

/// `a` comes strictly before `b` in lexicographic code-point order.
pub open spec fn seq_lt(a: Seq<char>, b: Seq<char>) -> bool
    decreases a.len(),
{
    if b.len() == 0 {
        false
    } else if a.len() == 0 {
        true
    } else if a[0] != b[0] {
        a[0] < b[0]
    } else {
        seq_lt(a.drop_first(), b.drop_first())
    }
}

/// No sequence comes before itself.
pub proof fn lemma_lt_irreflexive(a: Seq<char>)
    ensures
        !seq_lt(a, a),
    decreases a.len(),
{
    if a.len() > 0 {
        lemma_lt_irreflexive(a.drop_first());
    }
}

/// The order is transitive.
pub proof fn lemma_lt_transitive(a: Seq<char>, b: Seq<char>, c: Seq<char>)
    requires
        seq_lt(a, b),
        seq_lt(b, c),
    ensures
        seq_lt(a, c),
    decreases a.len(),
{
    if a.len() > 0 && a[0] == b[0] && b[0] == c[0] {
        lemma_lt_transitive(a.drop_first(), b.drop_first(), c.drop_first());
    }
}

/// Any two sequences are equal or ordered one way round.
pub proof fn lemma_lt_total(a: Seq<char>, b: Seq<char>)
    ensures
        a == b || seq_lt(a, b) || seq_lt(b, a),
    decreases a.len(),
{
    if a.len() == 0 && b.len() == 0 {
        assert(a =~= b);
    } else if a.len() > 0 && b.len() > 0 && a[0] == b[0] {
        lemma_lt_total(a.drop_first(), b.drop_first());
        if a.drop_first() == b.drop_first() {
            assert(a =~= seq![a[0]] + a.drop_first());
            assert(b =~= seq![b[0]] + b.drop_first());
        }
    }
}

/// The order is asymmetric.
pub proof fn lemma_lt_asymmetric(a: Seq<char>, b: Seq<char>)
    ensures
        !(seq_lt(a, b) && seq_lt(b, a)),
{
    if seq_lt(a, b) && seq_lt(b, a) {
        lemma_lt_transitive(a, b, a);
        lemma_lt_irreflexive(a);
    }
}

/// Executable `seq_lt` on character vectors.
pub fn seq_less(a: &Vec<char>, b: &Vec<char>) -> (r: bool)
    ensures
        r == seq_lt(a@, b@),
{
    let mut i: usize = 0;
    assert(a@.skip(0) =~= a@);
    assert(b@.skip(0) =~= b@);
    while i < a.len() && i < b.len()
        invariant
            i <= a.len(),
            i <= b.len(),
            seq_lt(a@, b@) == seq_lt(a@.skip(i as int), b@.skip(i as int)),
        decreases a.len() - i,
    {
        if a[i] != b[i] {
            return a[i] < b[i];
        }
        assert(a@.skip(i as int).drop_first() =~= a@.skip(i + 1));
        assert(b@.skip(i as int).drop_first() =~= b@.skip(i + 1));
        i = i + 1;
    }
    i < b.len()
}

/// Executable equality of character vectors.
pub fn seq_equal(a: &Vec<char>, b: &Vec<char>) -> (r: bool)
    ensures
        r == (a@ == b@),
{
    if a.len() != b.len() {
        return false;
    }
    let mut i: usize = 0;
    while i < a.len()
        invariant
            a.len() == b.len(),
            i <= a.len(),
            forall|m: int| 0 <= m < i ==> a@[m] == b@[m],
        decreases a.len() - i,
    {
        if a[i] != b[i] {
            return false;
        }
        i = i + 1;
    }
    assert(a@ =~= b@);
    true
}

// ---------------------------------------------------------------------------
// Keyed sequences
// ---------------------------------------------------------------------------

/// Inserts `x` after every element whose key is not greater than `x`'s.
pub open spec fn insert_sorted<V>(s: Seq<(Seq<char>, V)>, x: (Seq<char>, V)) -> Seq<(Seq<char>, V)>
    decreases s.len(),
{
    if s.len() == 0 || !seq_lt(x.0, s.last().0) {
        s.push(x)
    } else {
        insert_sorted(s.drop_last(), x).push(s.last())
    }
}

/// The stable sort by key: elements with equal keys keep their relative order.
pub open spec fn stable_sort<V>(s: Seq<(Seq<char>, V)>) -> Seq<(Seq<char>, V)>
    decreases s.len(),
{
    if s.len() == 0 {
        s
    } else {
        insert_sorted(stable_sort(s.drop_last()), s.last())
    }
}

/// Keeps the first element of every run of adjacent elements with equal keys.
pub open spec fn dedup_keys<V>(s: Seq<(Seq<char>, V)>) -> Seq<(Seq<char>, V)>
    decreases s.len(),
{
    if s.len() <= 1 {
        s
    } else if s[s.len() - 2].0 == s.last().0 {
        dedup_keys(s.drop_last())
    } else {
        dedup_keys(s.drop_last()).push(s.last())
    }
}

/// The values of a keyed sequence, keys dropped.
pub open spec fn values_of<V>(s: Seq<(Seq<char>, V)>) -> Seq<V> {
    s.map_values(|p: (Seq<char>, V)| p.1)
}

/// Keys are in non-decreasing order.
pub open spec fn keys_sorted<V>(s: Seq<(Seq<char>, V)>) -> bool {
    forall|i: int, j: int| 0 <= i < j < s.len() ==> !seq_lt(#[trigger] s[j].0, #[trigger] s[i].0)
}

/// Keys are in strictly increasing order.
pub open spec fn keys_strictly_sorted<V>(s: Seq<(Seq<char>, V)>) -> bool {
    forall|i: int, j: int| 0 <= i < j < s.len() ==> seq_lt(#[trigger] s[i].0, #[trigger] s[j].0)
}

/// Inserting into a keyed sequence adds exactly the inserted element.
proof fn lemma_insert_sorted_multiset<V>(s: Seq<(Seq<char>, V)>, x: (Seq<char>, V))
    ensures
        insert_sorted(s, x).to_multiset() =~= s.to_multiset().insert(x),
        insert_sorted(s, x).len() == s.len() + 1,
    decreases s.len(),
{
    broadcast use vstd::seq_lib::to_multiset_build;

    if s.len() == 0 || !seq_lt(x.0, s.last().0) {
    } else {
        let t = s.drop_last();
        lemma_insert_sorted_multiset(t, x);
        assert(t.push(s.last()) =~= s);
    }
}

/// Sorting only rearranges: the result holds the same elements, as often.
pub proof fn lemma_stable_sort_permutes<V>(s: Seq<(Seq<char>, V)>)
    ensures
        stable_sort(s).to_multiset() =~= s.to_multiset(),
        stable_sort(s).len() == s.len(),
    decreases s.len(),
{
    broadcast use vstd::seq_lib::to_multiset_build, vstd::seq_lib::to_multiset_len;

    if s.len() > 0 {
        let t = s.drop_last();
        lemma_stable_sort_permutes(t);
        lemma_insert_sorted_multiset(stable_sort(t), s.last());
        assert(t.push(s.last()) =~= s);
    }
}

/// An element of `insert_sorted(s, x)` is `x` or an element of `s`.
proof fn lemma_insert_sorted_member<V>(s: Seq<(Seq<char>, V)>, x: (Seq<char>, V), i: int)
    requires
        0 <= i < insert_sorted(s, x).len(),
    ensures
        insert_sorted(s, x)[i] == x || s.contains(insert_sorted(s, x)[i]),
{
    broadcast use vstd::seq_lib::to_multiset_contains;

    let r = insert_sorted(s, x);
    lemma_insert_sorted_multiset(s, x);
    assert(r.contains(r[i]));
    assert(r.to_multiset().count(r[i]) > 0);
}

/// Inserting into a sorted sequence keeps it sorted.
proof fn lemma_insert_sorted_sorted<V>(s: Seq<(Seq<char>, V)>, x: (Seq<char>, V))
    requires
        keys_sorted(s),
    ensures
        keys_sorted(insert_sorted(s, x)),
    decreases s.len(),
{
    broadcast use vstd::seq_lib::to_multiset_build, vstd::seq_lib::to_multiset_len;

    let r = insert_sorted(s, x);
    if s.len() == 0 || !seq_lt(x.0, s.last().0) {
        assert forall|i: int, j: int| 0 <= i < j < r.len() implies !seq_lt(#[trigger] r[j].0, #[trigger] r[i].0) by {
            if j == s.len() && seq_lt(x.0, s[i].0) {
                lemma_lt_total(s[i].0, s.last().0);
                if s[i].0 != s.last().0 {
                    if i < s.len() - 1 {
                        assert(!seq_lt(s[s.len() - 1].0, s[i].0));
                    }
                    lemma_lt_transitive(x.0, s[i].0, s.last().0);
                }
            }
        }
    } else {
        let t = s.drop_last();
        let last = s.last();
        lemma_insert_sorted_sorted(t, x);
        lemma_insert_sorted_multiset(t, x);
        let u = insert_sorted(t, x);
        assert forall|i: int, j: int| 0 <= i < j < r.len() implies !seq_lt(#[trigger] r[j].0, #[trigger] r[i].0) by {
            if j == r.len() - 1 {
                assert(r[j] == last);
                lemma_insert_sorted_member(t, x, i);
                if u[i] == x {
                    lemma_lt_asymmetric(x.0, last.0);
                } else {
                    let k = choose|k: int| 0 <= k < t.len() && t[k] == u[i];
                    assert(s[k] == t[k]);
                    assert(!seq_lt(s[s.len() - 1].0, s[k].0));
                }
            } else {
                assert(r[i] == u[i] && r[j] == u[j]);
            }
        }
    }
}

/// The stable sort orders keys non-decreasingly.
pub proof fn lemma_stable_sort_sorted<V>(s: Seq<(Seq<char>, V)>)
    ensures
        keys_sorted(stable_sort(s)),
    decreases s.len(),
{
    if s.len() > 0 {
        lemma_stable_sort_sorted(s.drop_last());
        lemma_insert_sorted_sorted(stable_sort(s.drop_last()), s.last());
    }
}

/// Every element that survives deduplication comes from the input.
pub proof fn lemma_dedup_from_input<V>(s: Seq<(Seq<char>, V)>, i: int)
    requires
        0 <= i < dedup_keys(s).len(),
    ensures
        s.contains(dedup_keys(s)[i]),
    decreases s.len(),
{
    if s.len() > 1 {
        let t = s.drop_last();
        if i < dedup_keys(t).len() {
            lemma_dedup_from_input(t, i);
            let k = choose|k: int| 0 <= k < t.len() && t[k] == dedup_keys(t)[i];
            assert(s[k] == t[k]);
        } else {
            assert(s[s.len() - 1] == s.last());
        }
    } else {
        assert(s[i] == dedup_keys(s)[i]);
    }
}

/// Every key of the input is still the key of some element after deduplication.
pub proof fn lemma_dedup_keeps_keys<V>(s: Seq<(Seq<char>, V)>, k: int)
    requires
        0 <= k < s.len(),
    ensures
        exists|i: int| 0 <= i < dedup_keys(s).len() && #[trigger] dedup_keys(s)[i].0 == s[k].0,
    decreases s.len(),
{
    if s.len() > 1 {
        let t = s.drop_last();
        let d = dedup_keys(s);
        if k < s.len() - 1 {
            lemma_dedup_keeps_keys(t, k);
            let i = choose|i: int| 0 <= i < dedup_keys(t).len() && #[trigger] dedup_keys(t)[i].0 == t[k].0;
            assert(d[i].0 == s[k].0);
        } else if s[s.len() - 2].0 == s.last().0 {
            lemma_dedup_keeps_keys(t, s.len() - 2);
            let i = choose|i: int| 0 <= i < dedup_keys(t).len() && #[trigger] dedup_keys(t)[i].0 == t[s.len() - 2].0;
            assert(d[i].0 == s[k].0);
        } else {
            assert(d[d.len() - 1].0 == s[k].0);
        }
    } else {
        assert(dedup_keys(s)[k].0 == s[k].0);
    }
}

/// Deduplicating a sorted sequence leaves its keys strictly increasing.
pub proof fn lemma_dedup_strictly_sorted<V>(s: Seq<(Seq<char>, V)>)
    requires
        keys_sorted(s),
    ensures
        keys_strictly_sorted(dedup_keys(s)),
    decreases s.len(),
{
    if s.len() > 1 {
        let t = s.drop_last();
        let n = s.len();
        assert(keys_sorted(t)) by {
            assert forall|i: int, j: int| 0 <= i < j < t.len() implies !seq_lt(#[trigger] t[j].0, #[trigger] t[i].0) by {
                assert(t[i] == s[i] && t[j] == s[j]);
            }
        }
        lemma_dedup_strictly_sorted(t);
        if s[n - 2].0 != s.last().0 {
            let d = dedup_keys(s);
            let dt = dedup_keys(t);
            assert forall|i: int, j: int| 0 <= i < j < d.len() implies seq_lt(#[trigger] d[i].0, #[trigger] d[j].0) by {
                if j == d.len() - 1 {
                    lemma_dedup_from_input(t, i);
                    let k = choose|k: int| 0 <= k < t.len() && t[k] == dt[i];
                    let (ek, ep, el) = (s[k].0, s[n - 2].0, s[n - 1].0);
                    assert(!seq_lt(el, ek));
                    assert(!seq_lt(el, ep));
                    assert(!seq_lt(ep, ek)) by {
                        if k < n - 2 {
                            assert(!seq_lt(s[n - 2].0, s[k].0));
                        } else {
                            lemma_lt_irreflexive(ek);
                        }
                    }
                    lemma_lt_total(ek, el);
                    if ek == el {
                        lemma_lt_total(ep, el);
                    }
                } else {
                    assert(d[i] == dt[i] && d[j] == dt[j]);
                }
            }
        }
    }
}

/// Sorting and then de-duplicating a keyed sequence gives strictly increasing
/// keys, only elements of the input, and every key of the input.
pub proof fn lemma_sort_dedup<V>(s: Seq<(Seq<char>, V)>)
    ensures
        keys_strictly_sorted(dedup_keys(stable_sort(s))),
        forall|i: int| 0 <= i < dedup_keys(stable_sort(s)).len() ==> s.contains(#[trigger] dedup_keys(stable_sort(s))[i]),
        forall|k: int| 0 <= k < s.len() ==> exists|i: int| 0 <= i < dedup_keys(stable_sort(s)).len()
            && #[trigger] dedup_keys(stable_sort(s))[i].0 == #[trigger] s[k].0,
{
    broadcast use vstd::seq_lib::to_multiset_contains;

    let ss = stable_sort(s);
    let d = dedup_keys(ss);
    lemma_stable_sort_sorted(s);
    lemma_stable_sort_permutes(s);
    lemma_dedup_strictly_sorted(ss);
    assert forall|i: int| 0 <= i < d.len() implies s.contains(#[trigger] d[i]) by {
        lemma_dedup_from_input(ss, i);
        assert(ss.to_multiset().count(d[i]) > 0);
    }
    assert forall|k: int| 0 <= k < s.len() implies exists|i: int| 0 <= i < d.len() && #[trigger] d[i].0
        == #[trigger] s[k].0 by {
        assert(s.contains(s[k]));
        assert(ss.to_multiset().count(s[k]) > 0);
        assert(ss.contains(s[k]));
        let k2 = choose|k2: int| 0 <= k2 < ss.len() && ss[k2] == s[k];
        lemma_dedup_keeps_keys(ss, k2);
    }
}

/// The view of a vector of keyed items.
pub open spec fn keyed_view<T: View>(s: Seq<(Vec<char>, T)>) -> Seq<(Seq<char>, T::V)> {
    s.map_values(|p: (Vec<char>, T)| (p.0@, p.1@))
}

/// Where `insert_sorted` puts `x`: after the last element not greater than it.
proof fn lemma_insert_sorted_at<V>(s: Seq<(Seq<char>, V)>, x: (Seq<char>, V), j: int)
    requires
        0 <= j <= s.len(),
        forall|m: int| j <= m < s.len() ==> seq_lt(x.0, #[trigger] s[m].0),
        j == 0 || !seq_lt(x.0, s[j - 1].0),
    ensures
        insert_sorted(s, x) == s.take(j).push(x) + s.skip(j),
    decreases s.len(),
{
    if j == s.len() {
        assert(s.skip(j) =~= Seq::<(Seq<char>, V)>::empty());
        assert(s.take(j) =~= s);
        assert(s.take(j).push(x) + s.skip(j) =~= s.push(x));
    } else {
        let t = s.drop_last();
        assert(seq_lt(x.0, s[s.len() - 1].0));
        lemma_insert_sorted_at(t, x, j);
        assert(t.take(j) =~= s.take(j));
        assert((t.take(j).push(x) + t.skip(j)).push(s.last()) =~= s.take(j).push(x) + s.skip(j));
    }
}

/// Sorts keyed items by key, stably, in place.
pub fn stable_sort_by_key<T: View>(v: &mut Vec<(Vec<char>, T)>)
    ensures
        keyed_view(final(v)@) == stable_sort(keyed_view(old(v)@)),
{
    let n = v.len();
    let ghost s0 = keyed_view(v@);
    let mut i: usize = 0;
    assert(s0.take(0) =~= Seq::<(Seq<char>, T::V)>::empty());
    assert(keyed_view(v@).take(0) =~= Seq::<(Seq<char>, T::V)>::empty());
    while i < n
        invariant
            n == v.len(),
            i <= n,
            s0.len() == n,
            keyed_view(v@).take(i as int) == stable_sort(s0.take(i as int)),
            keyed_view(v@).skip(i as int) == s0.skip(i as int),
        decreases n - i,
    {
        let ghost before = keyed_view(v@);
        let ghost sorted = before.take(i as int);
        let x = v.remove(i);
        let ghost xv = (x.0@, x.1@);
        assert(xv == s0[i as int]) by {
            assert(before.skip(i as int)[0] == before[i as int]);
        }
        assert(keyed_view(v@) =~= before.remove(i as int));
        let mut j: usize = i;
        loop
            invariant
                j <= i,
                i < n,
                v.len() == n - 1,
                before.len() == n,
                xv == (x.0@, x.1@),
                keyed_view(v@) == before.remove(i as int),
                sorted == before.take(i as int),
                forall|m: int| j <= m < i ==> seq_lt(xv.0, #[trigger] sorted[m].0),
            ensures
                j <= i,
                forall|m: int| j <= m < i ==> seq_lt(xv.0, #[trigger] sorted[m].0),
                j == 0 || !seq_lt(xv.0, sorted[j - 1].0),
            decreases j,
        {
            if j == 0 {
                break;
            }
            assert(before.remove(i as int)[j - 1] == before[j - 1]);
            assert(sorted[j - 1] == before[j - 1]);
            assert(keyed_view(v@)[j - 1] == (v@[j - 1].0@, v@[j - 1].1@));
            if !seq_less(&x.0, &v[j - 1].0) {
                break;
            }
            j = j - 1;
        }
        proof {
            lemma_insert_sorted_at(sorted, xv, j as int);
        }
        v.insert(j, x);
        proof {
            let now = keyed_view(v@);
            assert(now =~= before.remove(i as int).insert(j as int, xv));
            assert(s0.take(i + 1).drop_last() =~= s0.take(i as int));
            assert(s0.take(i + 1).last() == s0[i as int]);
            assert(now.take(i + 1) =~= sorted.take(j as int).push(xv) + sorted.skip(j as int));
            assert forall|m: int| i + 1 <= m < n implies now[m] == s0[m] by {
                assert(now[m] == before.remove(i as int)[m - 1]);
                assert(before.remove(i as int)[m - 1] == before[m]);
                assert(before.skip(i as int)[m - i] == s0.skip(i as int)[m - i]);
            }
            assert(now.skip(i + 1) =~= s0.skip(i + 1));
        }
        i = i + 1;
    }
    assert(keyed_view(v@).take(n as int) =~= keyed_view(v@));
    assert(s0.take(n as int) =~= s0);
}

/// The elements of `v` in reverse order.
pub fn reverse_vec<T>(v: Vec<T>) -> (r: Vec<T>)
    ensures
        r@ == v@.reverse(),
{
    let ghost s0 = v@;
    let mut rest = v;
    let mut out: Vec<T> = Vec::new();
    while rest.len() > 0
        invariant
            out.len() + rest.len() == s0.len(),
            rest@ == s0.take(rest.len() as int),
            forall|m: int| 0 <= m < out.len() ==> out@[m] == s0[s0.len() - 1 - m],
        decreases rest.len(),
    {
        let x = rest.pop().unwrap();
        out.push(x);
        assert(rest@ =~= s0.take(rest.len() as int));
    }
    assert(out@ =~= s0.reverse());
    out
}

/// Drops adjacent items whose keys equal their predecessor's, then the keys.
pub fn dedup_by_key<T: View>(v: Vec<(Vec<char>, T)>) -> (r: Vec<T>)
    ensures
        r@.map_values(|t: T| t@) == values_of(dedup_keys(keyed_view(v@))),
{
    let ghost s0 = keyed_view(v@);
    let n = v.len();
    let mut rest = reverse_vec(v);
    let mut out: Vec<T> = Vec::new();
    let mut prev: Option<Vec<char>> = None;
    let mut k: usize = 0;
    while rest.len() > 0
        invariant
            s0.len() == n,
            k + rest.len() == n,
            forall|m: int| 0 <= m < rest.len() ==> (#[trigger] rest@[m]).0@ == s0[n - 1 - m].0 && rest@[m].1@ == s0[n - 1 - m].1,
            out@.map_values(|t: T| t@) == values_of(dedup_keys(s0.take(k as int))),
            k == 0 <==> prev is None,
            k > 0 ==> (prev matches Some(p) && p@ == s0[k - 1].0),
        decreases rest.len(),
    {
        let ghost before = rest@;
        let p = rest.pop().unwrap();
        assert(before[before.len() - 1] == p);
        assert(p.0@ == s0[k as int].0 && p.1@ == s0[k as int].1);
        let ghost t = s0.take(k + 1);
        assert(t.drop_last() =~= s0.take(k as int));
        let keep = match &prev {
            None => true,
            Some(q) => !seq_equal(q, &p.0),
        };
        let ghost old_out = out@;
        let (key, item) = p;
        if keep {
            out.push(item);
            proof {
                if k == 0 {
                    assert(dedup_keys(t) == t);
                    assert(dedup_keys(s0.take(0)) =~= Seq::<(Seq<char>, T::V)>::empty());
                }
                assert(out@.map_values(|t: T| t@) =~= old_out.map_values(|t: T| t@).push(s0[k as int].1));
                assert(values_of(dedup_keys(t)) =~= values_of(dedup_keys(s0.take(k as int))).push(s0[k as int].1));
            }
        } else {
            assert(t[t.len() - 2] == s0[k - 1]);
        }
        prev = Some(key);
        k = k + 1;
        assert(forall|m: int| 0 <= m < rest.len() ==> rest@[m] == before[m]);
    }
    assert(s0.take(n as int) =~= s0);
    out
}


// ---------------------------------------------------------------------------
// Filtering by key
// ---------------------------------------------------------------------------

/// The predicate on keyed items that tests the key with `p`.
pub open spec fn by_key<V>(p: spec_fn(Seq<char>) -> bool) -> spec_fn((Seq<char>, V)) -> bool {
    |e: (Seq<char>, V)| p(e.0)
}

/// `a <= b` and `b <= c` give `a <= c`.
proof fn lemma_le_transitive(a: Seq<char>, b: Seq<char>, c: Seq<char>)
    requires
        !seq_lt(b, a),
        !seq_lt(c, b),
    ensures
        !seq_lt(c, a),
{
    lemma_lt_total(a, b);
    lemma_lt_total(b, c);
    if seq_lt(c, a) {
        if seq_lt(a, b) {
            lemma_lt_transitive(c, a, b);
            if seq_lt(b, c) {
                lemma_lt_asymmetric(b, c);
            }
        }
    }
}

/// Filtering by key commutes with inserting into a sorted sequence.
proof fn lemma_filter_insert_sorted<V>(s: Seq<(Seq<char>, V)>, x: (Seq<char>, V), p: spec_fn(Seq<char>) -> bool)
    requires
        keys_sorted(s),
    ensures
        insert_sorted(s, x).filter(by_key(p)) == if p(x.0) {
            insert_sorted(s.filter(by_key(p)), x)
        } else {
            s.filter(by_key(p))
        },
    decreases s.len(),
{
    reveal(Seq::filter);
    let f = by_key::<V>(p);
    if s.len() == 0 || !seq_lt(x.0, s.last().0) {
        let t = s.push(x);
        assert(t.drop_last() =~= s);
        assert(t.last() == x);
        let sf = s.filter(f);
        if p(x.0) && sf.len() > 0 {
            let e = sf.last();
            assert(sf.contains(e)) by {
                assert(sf[sf.len() - 1] == e);
            }
            s.lemma_filter_contains_rev(f, e);
            let k = choose|k: int| 0 <= k < s.len() && s[k] == e;
            if k < s.len() - 1 {
                assert(!seq_lt(s[s.len() - 1].0, s[k].0));
            } else {
                lemma_lt_irreflexive(e.0);
            }
            lemma_le_transitive(e.0, s.last().0, x.0);
        }
    } else {
        let d = s.drop_last();
        let l = s.last();
        assert(keys_sorted(d)) by {
            assert forall|i: int, j: int| 0 <= i < j < d.len() implies !seq_lt(#[trigger] d[j].0, #[trigger] d[i].0) by {
                assert(d[i] == s[i] && d[j] == s[j]);
            }
        }
        lemma_filter_insert_sorted(d, x, p);
        let ins = insert_sorted(d, x);
        assert(insert_sorted(s, x) == ins.push(l));
        assert(ins.push(l).drop_last() =~= ins);
        assert(ins.push(l).last() == l);
        let df = d.filter(f);
        assert(s.filter(f) == if p(l.0) { df.push(l) } else { df });
        if p(l.0) {
            assert(df.push(l).drop_last() =~= df);
            assert(df.push(l).last() == l);
        }
    }
}

/// Filtering by key commutes with the stable sort.
pub proof fn lemma_filter_stable_sort<V>(s: Seq<(Seq<char>, V)>, p: spec_fn(Seq<char>) -> bool)
    ensures
        stable_sort(s).filter(by_key(p)) == stable_sort(s.filter(by_key(p))),
    decreases s.len(),
{
    reveal(Seq::filter);
    let f = by_key::<V>(p);
    if s.len() > 0 {
        let d = s.drop_last();
        let l = s.last();
        lemma_filter_stable_sort(d, p);
        lemma_stable_sort_sorted(d);
        lemma_filter_insert_sorted(stable_sort(d), l, p);
        let df = d.filter(f);
        assert(s.filter(f) == if p(l.0) { df.push(l) } else { df });
        if p(l.0) {
            assert(df.push(l).drop_last() =~= df);
            assert(df.push(l).last() == l);
        }
    }
}

/// Filtering a sorted sequence by key commutes with removing adjacent items
/// with equal keys.
pub proof fn lemma_filter_dedup<V>(s: Seq<(Seq<char>, V)>, p: spec_fn(Seq<char>) -> bool)
    requires
        keys_sorted(s),
    ensures
        dedup_keys(s.filter(by_key(p))) == dedup_keys(s).filter(by_key(p)),
    decreases s.len(),
{
    reveal(Seq::filter);
    let f = by_key::<V>(p);
    if s.len() <= 1 {
        if s.len() == 1 {
            assert(s.drop_last().filter(f) =~= Seq::<(Seq<char>, V)>::empty());
        }
    } else {
        let d = s.drop_last();
        let l = s.last();
        let n = s.len();
        assert(keys_sorted(d)) by {
            assert forall|i: int, j: int| 0 <= i < j < d.len() implies !seq_lt(#[trigger] d[j].0, #[trigger] d[i].0) by {
                assert(d[i] == s[i] && d[j] == s[j]);
            }
        }
        lemma_filter_dedup(d, p);
        let df = d.filter(f);
        let dd = dedup_keys(d);
        assert(s.filter(f) == if p(l.0) { df.push(l) } else { df });
        assert(d.last() == s[n - 2]);
        if !p(l.0) {
            if s[n - 2].0 != l.0 {
                assert(dd.push(l).drop_last() =~= dd);
                assert(dd.push(l).last() == l);
            }
        } else {
            let fs = df.push(l);
            assert(fs.drop_last() =~= df);
            assert(fs.last() == l);
            if s[n - 2].0 == l.0 {
                assert(p(d.last().0));
                assert(df.len() > 0 && df.last() == d.last()) by {
                    assert(d.drop_last().filter(f).push(d.last()) == df);
                }
                assert(fs[fs.len() - 2] == df.last());
            } else {
                assert(dd.push(l).drop_last() =~= dd);
                assert(dd.push(l).last() == l);
                if df.len() > 0 {
                    let e = df.last();
                    assert(df.contains(e)) by {
                        assert(df[df.len() - 1] == e);
                    }
                    d.lemma_filter_contains_rev(f, e);
                    let k = choose|k: int| 0 <= k < d.len() && d[k] == e;
                    assert(fs[fs.len() - 2] == e);
                    if e.0 == l.0 {
                        assert(s[k] == e);
                        if k < n - 2 {
                            assert(!seq_lt(s[n - 2].0, s[k].0));
                        }
                        assert(!seq_lt(s[n - 1].0, s[n - 2].0));
                        lemma_lt_total(s[n - 2].0, l.0);
                        if k < n - 2 {
                            lemma_lt_asymmetric(s[n - 2].0, l.0);
                        }
                    }
                }
            }
        }
    }
}

/// The values of a filtered keyed sequence are the values filtered, when
/// the key test and the value test agree on every item.
pub proof fn lemma_filter_values<V>(s: Seq<(Seq<char>, V)>, p: spec_fn(Seq<char>) -> bool, q: spec_fn(V) -> bool)
    requires
        forall|i: int| 0 <= i < s.len() ==> p(#[trigger] s[i].0) == q(s[i].1),
    ensures
        values_of(s.filter(by_key(p))) == values_of(s).filter(q),
    decreases s.len(),
{
    reveal(Seq::filter);
    let f = by_key::<V>(p);
    if s.len() > 0 {
        let d = s.drop_last();
        let l = s.last();
        assert forall|i: int| 0 <= i < d.len() implies p(#[trigger] d[i].0) == q(d[i].1) by {
            assert(d[i] == s[i]);
        }
        lemma_filter_values(d, p, q);
        assert(values_of(s).drop_last() =~= values_of(d));
        assert(values_of(s).last() == l.1);
        assert(p(s[s.len() - 1].0) == q(s[s.len() - 1].1));
        let df = d.filter(f);
        assert(s.filter(f) == if p(l.0) { df.push(l) } else { df });
        assert(values_of(df.push(l)) =~= values_of(df).push(l.1));
    }
}

} // verus!
