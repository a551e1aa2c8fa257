//! A stable sort of card ids by a two-part integer key.
use vstd::prelude::*;
use crate::model::CardInstanceId;

verus! {

broadcast use vstd::seq_lib::group_seq_properties;

/// A card id with the key it is ranked by; the rank is lexicographic on
/// the first two components, smaller first.
pub type Keyed = (i64, i64, CardInstanceId);

pub open spec fn key_le(a: Keyed, b: Keyed) -> bool {
    a.0 < b.0 || (a.0 == b.0 && a.1 <= b.1)
}

/// `x` put into `s` after every element whose key is not greater than its own.
pub open spec fn insert_sorted(s: Seq<Keyed>, x: Keyed) -> Seq<Keyed>
    decreases s.len(),
{
    if s.len() == 0 {
        seq![x]
    } else if key_le(s.last(), x) {
        s.push(x)
    } else {
        insert_sorted(s.drop_last(), x).push(s.last())
    }
}

/// The stable sort of `s` by key: equal keys keep their order.
pub open spec fn sort_keyed(s: Seq<Keyed>) -> Seq<Keyed>
    decreases s.len(),
{
    if s.len() == 0 {
        s
    } else {
        insert_sorted(sort_keyed(s.drop_last()), s.last())
    }
}

/// The ids of a keyed sequence.
pub open spec fn ids_of(s: Seq<Keyed>) -> Seq<CardInstanceId> {
    s.map_values(|k: Keyed| k.2)
}

proof fn lemma_insert_at(s: Seq<Keyed>, x: Keyed, j: int)
    requires
        0 <= j <= s.len(),
        forall|i: int| j <= i < s.len() ==> !key_le(#[trigger] s[i], x),
        j == 0 || key_le(s[j - 1], x),
    ensures
        insert_sorted(s, x) == s.insert(j, x),
    decreases s.len(),
{
    if s.len() == 0 {
        assert(s.insert(j, x) =~= seq![x]);
    } else if j == s.len() {
        assert(key_le(s.last(), x));
        assert(s.insert(j, x) =~= s.push(x));
    } else {
        assert(!key_le(s[s.len() - 1], x));
        lemma_insert_at(s.drop_last(), x, j);
        assert(s.drop_last().insert(j, x).push(s.last()) =~= s.insert(j, x));
    }
}

/// Inserting into sorted position adds exactly that element.
pub proof fn lemma_insert_sorted_multiset(s: Seq<Keyed>, x: Keyed)
    ensures
        insert_sorted(s, x).to_multiset() == s.to_multiset().insert(x),
        insert_sorted(s, x).len() == s.len() + 1,
    decreases s.len(),
{
    broadcast use vstd::multiset::group_multiset_axioms;
    if s.len() == 0 {
        assert(s.push(x) =~= seq![x]);
    } else if key_le(s.last(), x) {
    } else {
        lemma_insert_sorted_multiset(s.drop_last(), x);
        assert(s.drop_last().push(s.last()) =~= s);
        assert(insert_sorted(s, x).to_multiset() =~= s.to_multiset().insert(x));
    }
}

/// The sort keeps the elements and their number.
pub proof fn lemma_sort_keyed_multiset(s: Seq<Keyed>)
    ensures
        sort_keyed(s).to_multiset() == s.to_multiset(),
        sort_keyed(s).len() == s.len(),
    decreases s.len(),
{
    broadcast use vstd::multiset::group_multiset_axioms;
    if s.len() > 0 {
        lemma_sort_keyed_multiset(s.drop_last());
        lemma_insert_sorted_multiset(sort_keyed(s.drop_last()), s.last());
        assert(s.drop_last().push(s.last()) =~= s);
    }
}

/// Inserting into a sorted sequence keeps it sorted.
pub proof fn lemma_insert_sorted_is_sorted(s: Seq<Keyed>, x: Keyed)
    requires
        forall|i: int, j: int| 0 <= i < j < s.len() ==> key_le(#[trigger] s[i], #[trigger] s[j]),
    ensures
        forall|i: int, j: int|
            0 <= i < j < insert_sorted(s, x).len() ==> key_le(
                #[trigger] insert_sorted(s, x)[i],
                #[trigger] insert_sorted(s, x)[j],
            ),
    decreases s.len(),
{
    lemma_insert_sorted_multiset(s, x);
    if s.len() == 0 {
    } else if key_le(s.last(), x) {
    } else {
        let t = s.drop_last();
        lemma_insert_sorted_is_sorted(t, x);
        lemma_insert_sorted_multiset(t, x);
        let r = insert_sorted(t, x);
        // every element of r is x or an element of t, all of which are key_le s.last()
        assert forall|i: int| 0 <= i < r.len() implies key_le(#[trigger] r[i], s.last()) by {
            vstd::seq_lib::to_multiset_contains(r, r[i]);
            assert(r.contains(r[i]));
            vstd::seq_lib::to_multiset_contains(t, r[i]);
            if r[i] != x {
                assert(t.to_multiset().insert(x).count(r[i]) == t.to_multiset().count(r[i]));
                assert(t.contains(r[i]));
                let k = choose|k: int| 0 <= k < t.len() && t[k] == r[i];
                assert(key_le(s[k], s[s.len() - 1]));
            }
        }
    }
}

/// The sort orders by key.
pub proof fn lemma_sort_keyed_sorted(s: Seq<Keyed>)
    ensures
        forall|i: int, j: int|
            0 <= i < j < sort_keyed(s).len() ==> key_le(
                #[trigger] sort_keyed(s)[i],
                #[trigger] sort_keyed(s)[j],
            ),
    decreases s.len(),
{
    if s.len() > 0 {
        lemma_sort_keyed_sorted(s.drop_last());
        lemma_insert_sorted_is_sorted(sort_keyed(s.drop_last()), s.last());
    }
}

/// Sorts `v` stably by key, smaller keys first.
pub fn sort_by_key(v: &Vec<Keyed>) -> (r: Vec<Keyed>)
    ensures
        r@ == sort_keyed(v@),
{
    let mut r: Vec<Keyed> = Vec::new();
    let mut i: usize = 0;
    while i < v.len()
        invariant
            i <= v.len(),
            r@ == sort_keyed(v@.take(i as int)),
        decreases v.len() - i,
    {
        let x = v[i];
        proof {
            lemma_sort_keyed_multiset(v@.take(i as int));
        }
        let mut j: usize = r.len();
        while j > 0 && !(r[j - 1].0 < x.0 || (r[j - 1].0 == x.0 && r[j - 1].1 <= x.1))
            invariant
                j <= r.len(),
                forall|k: int| j <= k < r.len() ==> !key_le(#[trigger] r@[k], x),
            decreases j,
        {
            j = j - 1;
        }
        proof {
            lemma_insert_at(r@, x, j as int);
            assert(v@.take(i + 1).drop_last() =~= v@.take(i as int));
            assert(v@.take(i + 1).last() == x);
        }
        r.insert(j, x);
        i = i + 1;
    }
    assert(v@.take(i as int) =~= v@);
    r
}

/// The first `n` ids of a keyed vector.
pub fn take_ids(v: &Vec<Keyed>, n: usize) -> (r: Vec<CardInstanceId>)
    ensures
        r@ == ids_of(v@).take(if n <= v@.len() { n as int } else { v@.len() as int }),
{
    let mut r: Vec<CardInstanceId> = Vec::new();
    let mut i: usize = 0;
    while i < n && i < v.len()
        invariant
            i <= v.len(),
            i <= n,
            r@ == ids_of(v@).take(i as int),
        decreases v.len() - i,
    {
        r.push(v[i].2);
        i = i + 1;
        assert(r@ =~= ids_of(v@).take(i as int));
    }
    r
}

/// The keyed ids of `ids`, in order: `f` gives each id its key, or `None` to
/// leave the id out.
pub open spec fn keyed_by(ids: Seq<CardInstanceId>, f: spec_fn(CardInstanceId) -> Option<(i64, i64)>) -> Seq<Keyed>
    decreases ids.len(),
{
    if ids.len() == 0 {
        seq![]
    } else {
        let rest = keyed_by(ids.drop_last(), f);
        match f(ids.last()) {
            Some(k) => rest.push((k.0, k.1, ids.last())),
            None => rest,
        }
    }
}

/// Keying one more id appends its key, when it has one.
pub proof fn lemma_keyed_by_push(ids: Seq<CardInstanceId>, f: spec_fn(CardInstanceId) -> Option<(i64, i64)>, x: CardInstanceId)
    ensures
        keyed_by(ids.push(x), f) == match f(x) {
            Some(k) => keyed_by(ids, f).push((k.0, k.1, x)),
            None => keyed_by(ids, f),
        },
{
    assert(ids.push(x).drop_last() =~= ids);
}

/// Some id with a key makes the keyed sequence non-empty.
pub proof fn lemma_keyed_by_nonempty(ids: Seq<CardInstanceId>, f: spec_fn(CardInstanceId) -> Option<(i64, i64)>, k: int)
    requires
        0 <= k < ids.len(),
        f(ids[k]) is Some,
    ensures
        keyed_by(ids, f).len() > 0,
    decreases ids.len(),
{
    if k < ids.len() - 1 {
        lemma_keyed_by_nonempty(ids.drop_last(), f, k);
        lemma_keyed_by_len_grows(ids, f);
    }
}

/// Keying one more id never shortens the keyed sequence.
pub proof fn lemma_keyed_by_len_grows(ids: Seq<CardInstanceId>, f: spec_fn(CardInstanceId) -> Option<(i64, i64)>)
    requires
        ids.len() > 0,
    ensures
        keyed_by(ids, f).len() >= keyed_by(ids.drop_last(), f).len(),
{
}

/// Every entry of `keyed_by(ids, f)` is an id of `ids` with its key, and
/// every id of `ids` that has a key has its entry.
pub proof fn lemma_keyed_by_entries(ids: Seq<CardInstanceId>, f: spec_fn(CardInstanceId) -> Option<(i64, i64)>)
    ensures
        forall|i: int| 0 <= i < keyed_by(ids, f).len() ==> ids.contains(#[trigger] keyed_by(ids, f)[i].2)
            && f(keyed_by(ids, f)[i].2) == Some((keyed_by(ids, f)[i].0, keyed_by(ids, f)[i].1)),
        forall|k: int| 0 <= k < ids.len() && #[trigger] f(ids[k]) is Some ==> keyed_by(ids, f).contains(
            (f(ids[k]).unwrap().0, f(ids[k]).unwrap().1, ids[k]),
        ),
    decreases ids.len(),
{
    if ids.len() > 0 {
        let rest = ids.drop_last();
        lemma_keyed_by_entries(rest, f);
        let kr = keyed_by(rest, f);
        let kb = keyed_by(ids, f);
        assert forall|i: int| 0 <= i < kb.len() implies ids.contains(#[trigger] kb[i].2) && f(kb[i].2) == Some((kb[i].0, kb[i].1)) by {
            if i < kr.len() {
                assert(kb[i] == kr[i]);
                let x = kr[i].2;
                let k = choose|k: int| 0 <= k < rest.len() && rest[k] == x;
                assert(ids[k] == x);
            } else {
                assert(kb[i].2 == ids.last());
                assert(ids[ids.len() - 1] == ids.last());
            }
        }
        assert forall|k: int| 0 <= k < ids.len() && #[trigger] f(ids[k]) is Some implies kb.contains(
            (f(ids[k]).unwrap().0, f(ids[k]).unwrap().1, ids[k]),
        ) by {
            let e = (f(ids[k]).unwrap().0, f(ids[k]).unwrap().1, ids[k]);
            if k < ids.len() - 1 {
                assert(rest[k] == ids[k]);
                assert(kr.contains(e));
                let j = choose|j: int| 0 <= j < kr.len() && kr[j] == e;
                assert(kb[j] == e);
            } else {
                assert(kb[kb.len() - 1] == e);
            }
        }
    }
}

/// The sorted entries of `keyed_by(ids, f)`: each is an id of `ids` with its
/// key, every id with a key appears, and keys never decrease.
pub proof fn lemma_sorted_entries(ids: Seq<CardInstanceId>, f: spec_fn(CardInstanceId) -> Option<(i64, i64)>)
    ensures
        forall|i: int| 0 <= i < sort_keyed(keyed_by(ids, f)).len() ==> ids.contains(#[trigger] sort_keyed(keyed_by(ids, f))[i].2)
            && f(sort_keyed(keyed_by(ids, f))[i].2) == Some((sort_keyed(keyed_by(ids, f))[i].0, sort_keyed(keyed_by(ids, f))[i].1)),
        forall|k: int| 0 <= k < ids.len() && #[trigger] f(ids[k]) is Some ==> sort_keyed(keyed_by(ids, f)).contains(
            (f(ids[k]).unwrap().0, f(ids[k]).unwrap().1, ids[k]),
        ),
        forall|i: int, j: int|
            0 <= i < j < sort_keyed(keyed_by(ids, f)).len() ==> key_le(
                #[trigger] sort_keyed(keyed_by(ids, f))[i],
                #[trigger] sort_keyed(keyed_by(ids, f))[j],
            ),
        sort_keyed(keyed_by(ids, f)).len() == keyed_by(ids, f).len(),
{
    let kb = keyed_by(ids, f);
    let s = sort_keyed(kb);
    lemma_keyed_by_entries(ids, f);
    lemma_sort_keyed_multiset(kb);
    lemma_sort_keyed_sorted(kb);
    assert forall|i: int| 0 <= i < s.len() implies ids.contains(#[trigger] s[i].2) && f(s[i].2) == Some((s[i].0, s[i].1)) by {
        vstd::seq_lib::to_multiset_contains(s, s[i]);
        assert(s.contains(s[i]));
        vstd::seq_lib::to_multiset_contains(kb, s[i]);
        let j = choose|j: int| 0 <= j < kb.len() && kb[j] == s[i];
        assert(ids.contains(kb[j].2));
    }
    assert forall|k: int| 0 <= k < ids.len() && #[trigger] f(ids[k]) is Some implies s.contains(
        (f(ids[k]).unwrap().0, f(ids[k]).unwrap().1, ids[k]),
    ) by {
        let e = (f(ids[k]).unwrap().0, f(ids[k]).unwrap().1, ids[k]);
        assert(kb.contains(e));
        vstd::seq_lib::to_multiset_contains(kb, e);
        vstd::seq_lib::to_multiset_contains(s, e);
    }
}

/// Every id of `keyed_by(ids, f)` is one of `ids`.
pub proof fn lemma_keyed_by_ids(ids: Seq<CardInstanceId>, f: spec_fn(CardInstanceId) -> Option<(i64, i64)>)
    ensures
        forall|i: int| 0 <= i < keyed_by(ids, f).len() ==> ids.contains(#[trigger] keyed_by(ids, f)[i].2),
        keyed_by(ids, f).len() <= ids.len(),
    decreases ids.len(),
{
    if ids.len() > 0 {
        lemma_keyed_by_ids(ids.drop_last(), f);
        assert forall|i: int| 0 <= i < keyed_by(ids, f).len() implies ids.contains(#[trigger] keyed_by(ids, f)[i].2) by {
            if i < keyed_by(ids.drop_last(), f).len() {
                let x = keyed_by(ids.drop_last(), f)[i].2;
                assert(ids.drop_last().contains(x));
                let k = choose|k: int| 0 <= k < ids.drop_last().len() && ids.drop_last()[k] == x;
                assert(ids[k] == x);
            } else {
                assert(ids[ids.len() - 1] == ids.last());
            }
        }
    }
}

/// Every element of the sorted sequence is an element of the input.
pub proof fn lemma_sort_keyed_contains(s: Seq<Keyed>, i: int)
    requires
        0 <= i < sort_keyed(s).len(),
    ensures
        s.contains(sort_keyed(s)[i]),
{
    broadcast use vstd::multiset::group_multiset_axioms;
    lemma_sort_keyed_multiset(s);
    let x = sort_keyed(s)[i];
    vstd::seq_lib::to_multiset_contains(sort_keyed(s), x);
    assert(sort_keyed(s).contains(x));
    vstd::seq_lib::to_multiset_contains(s, x);
}

/// The best-scored targets, in the order of the stable descending sort.
pub open spec fn top_keyed(keys: Seq<Keyed>) -> Seq<CardInstanceId> {
    let sorted = sort_keyed(keys);
    ids_of(sorted.filter(|k: Keyed| k.0 == sorted[0].0))
}

/// Picks, among the sorted keys, the ids whose key equals the first one.
pub fn top_ids(sorted: &Vec<Keyed>) -> (r: Vec<CardInstanceId>)
    requires
        sorted@.len() > 0,
    ensures
        r@ == ids_of(sorted@.filter(|k: Keyed| k.0 == sorted@[0].0)),
{
    let best = sorted[0].0;
    let ghost f = |k: Keyed| k.0 == sorted@[0].0;
    let mut r: Vec<CardInstanceId> = Vec::new();
    let mut i: usize = 0;
    while i < sorted.len()
        invariant
            i <= sorted@.len(),
            best == sorted@[0].0,
            f == (|k: Keyed| k.0 == sorted@[0].0),
            r@ == ids_of(sorted@.take(i as int).filter(f)),
        decreases sorted@.len() - i,
    {
        proof {
            assert(sorted@.take(i + 1) =~= sorted@.take(i as int).push(sorted@[i as int]));
            sorted@.take(i as int).lemma_filter_push(sorted@[i as int], f);
        }
        if sorted[i].0 == best {
            r.push(sorted[i].2);
        }
        i = i + 1;
        assert(r@ =~= ids_of(sorted@.take(i as int).filter(f)));
    }
    assert(sorted@.take(i as int) =~= sorted@);
    r
}

/// `a` ranks strictly above `b`: a greater first component, or an equal
/// first and a greater second.
pub open spec fn pair_gt(a: (i64, i64), b: (i64, i64)) -> bool {
    a.0 > b.0 || (a.0 == b.0 && a.1 > b.1)
}

/// The index of the first of the top-ranked among the first `n` scores.
pub open spec fn first_max_index(s: Seq<(i64, i64)>, n: int) -> int
    decreases n,
{
    if n <= 1 {
        0
    } else {
        let b = first_max_index(s, n - 1);
        if pair_gt(s[n - 1], s[b]) { n - 1 } else { b }
    }
}

/// The first top-ranked index is in range, nothing ranks above it, and
/// everything before it ranks below it.
pub proof fn lemma_first_max_index(s: Seq<(i64, i64)>, n: int)
    requires
        1 <= n <= s.len(),
    ensures
        0 <= first_max_index(s, n) < n,
        forall|j: int| 0 <= j < n ==> !pair_gt(#[trigger] s[j], s[first_max_index(s, n)]),
        forall|j: int| 0 <= j < first_max_index(s, n) ==> pair_gt(s[first_max_index(s, n)], #[trigger] s[j]),
    decreases n,
{
    if n > 1 {
        lemma_first_max_index(s, n - 1);
    }
}

pub fn first_max(v: &Vec<(i64, i64)>) -> (r: usize)
    requires
        v@.len() > 0,
    ensures
        r == first_max_index(v@, v@.len() as int),
        r < v@.len(),
{
    let mut best: usize = 0;
    let mut i: usize = 1;
    while i < v.len()
        invariant
            1 <= i <= v@.len(),
            best == first_max_index(v@, i as int),
            best < i,
        decreases v@.len() - i,
    {
        if v[i].0 > v[best].0 || (v[i].0 == v[best].0 && v[i].1 > v[best].1) {
            best = i;
        }
        i = i + 1;
    }
    best
}

/// The index of the last of the top-ranked among the first `n` scores.
pub open spec fn last_max_index(s: Seq<(i64, i64)>, n: int) -> int
    decreases n,
{
    if n <= 1 {
        0
    } else {
        let b = last_max_index(s, n - 1);
        if pair_gt(s[b], s[n - 1]) { b } else { n - 1 }
    }
}

/// The last top-ranked index is in range, nothing ranks above it, and
/// everything after it ranks below it.
pub proof fn lemma_last_max_index(s: Seq<(i64, i64)>, n: int)
    requires
        1 <= n <= s.len(),
    ensures
        0 <= last_max_index(s, n) < n,
        forall|j: int| 0 <= j < n ==> !pair_gt(#[trigger] s[j], s[last_max_index(s, n)]),
        forall|j: int| last_max_index(s, n) < j < n ==> pair_gt(s[last_max_index(s, n)], #[trigger] s[j]),
    decreases n,
{
    if n > 1 {
        lemma_last_max_index(s, n - 1);
    }
}

pub fn last_max(v: &Vec<(i64, i64)>) -> (r: usize)
    requires
        v@.len() > 0,
    ensures
        r == last_max_index(v@, v@.len() as int),
        r < v@.len(),
{
    let mut best: usize = 0;
    let mut i: usize = 1;
    while i < v.len()
        invariant
            1 <= i <= v@.len(),
            best == last_max_index(v@, i as int),
            best < i,
        decreases v@.len() - i,
    {
        if !(v[best].0 > v[i].0 || (v[best].0 == v[i].0 && v[best].1 > v[i].1)) {
            best = i;
        }
        i = i + 1;
    }
    best
}

} // verus!
