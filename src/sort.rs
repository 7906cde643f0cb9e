//! A stable sort of items by integer keys.

use vstd::prelude::*;

verus! {

/// Inserts `e` into `s` after every element whose key is at most that of `e`,
/// counting from the end.
pub open spec fn insert_by_key<T>(s: Seq<(T, i64)>, e: (T, i64)) -> Seq<(T, i64)>
    decreases s.len(),
{
    if s.len() == 0 || s.last().1 <= e.1 {
        s.push(e)
    } else {
        insert_by_key(s.drop_last(), e).push(s.last())
    }
}

/// The stable sort of `s` by key: insertion of each element in turn.
pub open spec fn sort_by_key<T>(s: Seq<(T, i64)>) -> Seq<(T, i64)>
    decreases s.len(),
{
    if s.len() == 0 {
        s
    } else {
        insert_by_key(sort_by_key(s.drop_last()), s.last())
    }
}

/// Each item paired with its key.
pub open spec fn keyed<T>(items: Seq<T>, keys: Seq<i64>) -> Seq<(T, i64)> {
    Seq::new(items.len(), |i: int| (items[i], keys[i]))
}

/// `items` in the stable order of `keys`.
pub open spec fn stable_sorted<T>(items: Seq<T>, keys: Seq<i64>) -> Seq<T> {
    sort_by_key(keyed(items, keys)).map_values(|p: (T, i64)| p.0)
}

pub open spec fn keys_sorted<T>(s: Seq<(T, i64)>) -> bool {
    forall|i: int, j: int| 0 <= i < j < s.len() ==> s[i].1 <= s[j].1
}

proof fn lemma_insert_bounded<T>(s: Seq<(T, i64)>, e: (T, i64), b: i64)
    requires
        forall|k: int| 0 <= k < s.len() ==> s[k].1 <= b,
        e.1 <= b,
    ensures
        forall|k: int| 0 <= k < insert_by_key(s, e).len() ==> insert_by_key(s, e)[k].1 <= b,
    decreases s.len(),
{
    if s.len() > 0 && s.last().1 > e.1 {
        assert(s.last().1 <= b);
        assert(forall|k: int| 0 <= k < s.len() - 1 ==> s.drop_last()[k] == s[k]);
        lemma_insert_bounded(s.drop_last(), e, b);
        let r = insert_by_key(s.drop_last(), e);
        assert(insert_by_key(s, e) == r.push(s.last()));
        assert forall|k: int| 0 <= k < r.len() + 1 implies r.push(s.last())[k].1 <= b by {
            if k < r.len() {
                assert(r.push(s.last())[k] == r[k]);
            }
        }
    } else {
        assert forall|k: int| 0 <= k < s.len() + 1 implies s.push(e)[k].1 <= b by {
            if k < s.len() {
                assert(s.push(e)[k] == s[k]);
            }
        }
    }
}

proof fn lemma_insert_sorted<T>(s: Seq<(T, i64)>, e: (T, i64))
    requires
        keys_sorted(s),
    ensures
        keys_sorted(insert_by_key(s, e)),
    decreases s.len(),
{
    if s.len() > 0 && s.last().1 > e.1 {
        let rest = s.drop_last();
        lemma_insert_sorted(rest, e);
        lemma_insert_bounded(rest, e, s.last().1);
    }
}

/// The stable sort orders the items by key.
pub proof fn lemma_sorted<T>(s: Seq<(T, i64)>)
    ensures
        keys_sorted(sort_by_key(s)),
    decreases s.len(),
{
    if s.len() > 0 {
        lemma_sorted(s.drop_last());
        lemma_insert_sorted(sort_by_key(s.drop_last()), s.last());
    }
}

/// Each pair's key is `f` of its item.
pub open spec fn keyed_by<T>(s: Seq<(T, i64)>, f: spec_fn(T) -> i64) -> bool {
    forall|k: int| 0 <= k < s.len() ==> (#[trigger] s[k]).1 == f(s[k].0)
}

proof fn lemma_insert_keyed_by<T>(s: Seq<(T, i64)>, e: (T, i64), f: spec_fn(T) -> i64)
    requires
        keyed_by(s, f),
        e.1 == f(e.0),
    ensures
        keyed_by(insert_by_key(s, e), f),
    decreases s.len(),
{
    if s.len() > 0 && s.last().1 > e.1 {
        let rest = s.drop_last();
        assert(forall|k: int| 0 <= k < rest.len() ==> rest[k] == s[k]);
        lemma_insert_keyed_by(rest, e, f);
        let r = insert_by_key(rest, e);
        assert(s.last() == s[s.len() - 1]);
        assert forall|k: int| 0 <= k < r.len() + 1 implies (#[trigger] r.push(s.last())[k]).1 == f(
            r.push(s.last())[k].0,
        ) by {
            if k < r.len() {
                assert(r.push(s.last())[k] == r[k]);
            }
        }
    } else {
        assert forall|k: int| 0 <= k < s.len() + 1 implies (#[trigger] s.push(e)[k]).1 == f(
            s.push(e)[k].0,
        ) by {
            if k < s.len() {
                assert(s.push(e)[k] == s[k]);
            }
        }
    }
}

proof fn lemma_sort_keyed_by<T>(s: Seq<(T, i64)>, f: spec_fn(T) -> i64)
    requires
        keyed_by(s, f),
    ensures
        keyed_by(sort_by_key(s), f),
    decreases s.len(),
{
    if s.len() > 0 {
        let rest = s.drop_last();
        assert(forall|k: int| 0 <= k < rest.len() ==> rest[k] == s[k]);
        lemma_sort_keyed_by(rest, f);
        assert(s.last() == s[s.len() - 1]);
        lemma_insert_keyed_by(sort_by_key(rest), s.last(), f);
    }
}

/// Sorting items by keys computed from them orders them by those keys.
pub proof fn lemma_stable_sorted_by<T>(items: Seq<T>, f: spec_fn(T) -> i64)
    ensures
        forall|i: int, j: int|
            0 <= i < j < items.len() ==> f(stable_sorted(items, items.map_values(f))[i]) <= f(
                stable_sorted(items, items.map_values(f))[j],
            ),
{
    let s = keyed(items, items.map_values(f));
    lemma_sort_keyed_by(s, f);
    lemma_sorted(s);
    lemma_sort_len(s);
    let r = sort_by_key(s);
    assert forall|i: int, j: int| 0 <= i < j < items.len() implies f(
        stable_sorted(items, items.map_values(f))[i],
    ) <= f(stable_sorted(items, items.map_values(f))[j]) by {
        assert(stable_sorted(items, items.map_values(f))[i] == r[i].0);
        assert(stable_sorted(items, items.map_values(f))[j] == r[j].0);
        assert(r[i].1 == f(r[i].0));
        assert(r[j].1 == f(r[j].0));
    }
}

proof fn lemma_sort_sorted_identity<T>(s: Seq<(T, i64)>)
    requires
        keys_sorted(s),
    ensures
        sort_by_key(s) == s,
    decreases s.len(),
{
    if s.len() > 0 {
        let rest = s.drop_last();
        assert(keys_sorted(rest));
        lemma_sort_sorted_identity(rest);
        if rest.len() > 0 {
            assert(rest.last() == s[s.len() - 2]);
        }
        assert(rest.push(s.last()) =~= s);
    }
}

/// Items already in key order stay as they are.
pub proof fn lemma_stable_sorted_identity<T>(items: Seq<T>, keys: Seq<i64>)
    requires
        items.len() == keys.len(),
        forall|i: int, j: int| 0 <= i < j < keys.len() ==> keys[i] <= keys[j],
    ensures
        stable_sorted(items, keys) == items,
{
    let s = keyed(items, keys);
    lemma_sort_sorted_identity(s);
    assert(s.map_values(|p: (T, i64)| p.0) =~= items);
}

proof fn lemma_insert_split<T>(s: Seq<(T, i64)>, e: (T, i64), j: int)
    requires
        0 <= j <= s.len(),
        forall|k: int| j <= k < s.len() ==> s[k].1 > e.1,
    ensures
        insert_by_key(s, e) == insert_by_key(s.subrange(0, j), e) + s.subrange(j, s.len() as int),
    decreases s.len() - j,
{
    if j < s.len() {
        lemma_insert_split(s, e, j + 1);
        let p = s.subrange(0, j + 1);
        assert(p.drop_last() =~= s.subrange(0, j));
        assert(p.last() == s[j]);
        assert(insert_by_key(p, e) == insert_by_key(s.subrange(0, j), e).push(s[j]));
        assert(insert_by_key(s.subrange(0, j), e).push(s[j]) + s.subrange(j + 1, s.len() as int)
            =~= insert_by_key(s.subrange(0, j), e) + s.subrange(j, s.len() as int));
    } else {
        assert(s.subrange(0, j) =~= s);
        assert(s.subrange(j, s.len() as int) =~= Seq::<(T, i64)>::empty());
        assert(insert_by_key(s, e) + Seq::<(T, i64)>::empty() =~= insert_by_key(s, e));
    }
}

proof fn lemma_insert_len<T>(s: Seq<(T, i64)>, e: (T, i64))
    ensures
        insert_by_key(s, e).len() == s.len() + 1,
    decreases s.len(),
{
    if s.len() > 0 && s.last().1 > e.1 {
        lemma_insert_len(s.drop_last(), e);
    }
}

proof fn lemma_sort_len<T>(s: Seq<(T, i64)>)
    ensures
        sort_by_key(s).len() == s.len(),
    decreases s.len(),
{
    if s.len() > 0 {
        lemma_sort_len(s.drop_last());
        lemma_insert_len(sort_by_key(s.drop_last()), s.last());
    }
}

/// Sorting keeps the number of items.
pub proof fn lemma_stable_sorted_len<T>(items: Seq<T>, keys: Seq<i64>)
    requires
        items.len() == keys.len(),
    ensures
        stable_sorted(items, keys).len() == items.len(),
{
    lemma_sort_len(keyed(items, keys));
}

/// Applies `f` to each item, keeping the keys.
pub open spec fn map_items<T, U>(s: Seq<(T, i64)>, f: spec_fn(T) -> U) -> Seq<(U, i64)> {
    s.map_values(|p: (T, i64)| (f(p.0), p.1))
}

proof fn lemma_insert_map<T, U>(s: Seq<(T, i64)>, e: (T, i64), f: spec_fn(T) -> U)
    ensures
        insert_by_key(map_items(s, f), (f(e.0), e.1)) == map_items(insert_by_key(s, e), f),
    decreases s.len(),
{
    let ms = map_items(s, f);
    if s.len() == 0 || s.last().1 <= e.1 {
        assert(map_items(s.push(e), f) =~= ms.push((f(e.0), e.1)));
    } else {
        assert(ms.drop_last() =~= map_items(s.drop_last(), f));
        lemma_insert_map(s.drop_last(), e, f);
        assert(map_items(insert_by_key(s.drop_last(), e).push(s.last()), f) =~= map_items(
            insert_by_key(s.drop_last(), e),
            f,
        ).push(ms.last()));
    }
}

proof fn lemma_sort_map<T, U>(s: Seq<(T, i64)>, f: spec_fn(T) -> U)
    ensures
        sort_by_key(map_items(s, f)) == map_items(sort_by_key(s), f),
    decreases s.len(),
{
    let ms = map_items(s, f);
    if s.len() == 0 {
        assert(ms =~= map_items(s, f));
    } else {
        assert(ms.drop_last() =~= map_items(s.drop_last(), f));
        lemma_sort_map(s.drop_last(), f);
        lemma_insert_map(sort_by_key(s.drop_last()), s.last(), f);
    }
}

/// Sorting commutes with a map of the items.
pub proof fn lemma_stable_sorted_map<T, U>(items: Seq<T>, keys: Seq<i64>, f: spec_fn(T) -> U)
    requires
        items.len() == keys.len(),
    ensures
        stable_sorted(items.map_values(f), keys) == stable_sorted(items, keys).map_values(f),
{
    assert(keyed(items.map_values(f), keys) =~= map_items(keyed(items, keys), f));
    lemma_sort_map(keyed(items, keys), f);
    assert(map_items(sort_by_key(keyed(items, keys)), f).map_values(|p: (U, i64)| p.0)
        =~= sort_by_key(keyed(items, keys)).map_values(|p: (T, i64)| p.0).map_values(f));
}

/// Sorts `items` stably by `keys`, the key of `items[i]` being `keys[i]`.
pub fn stable_sort_by_keys<T>(items: Vec<T>, keys: Vec<i64>) -> (r: Vec<T>)
    requires
        items.len() == keys.len(),
    ensures
        r@ == stable_sorted(items@, keys@),
{
    let ghost whole = keyed(items@, keys@);
    let n = keys.len();
    let mut rest = items;
    let mut sorted: Vec<(T, i64)> = Vec::new();
    let mut i: usize = 0;
    while i < n
        invariant
            n == keys.len(),
            whole == keyed(items@, keys@),
            whole.len() == n,
            i <= n,
            rest@ == items@.subrange(i as int, n as int),
            sorted@ == sort_by_key(whole.subrange(0, i as int)),
            sorted@.len() == i,
        decreases n - i,
    {
        let x = rest.remove(0);
        let key = keys[i];
        let ghost e = (x, key);
        assert(e == whole[i as int]);
        let mut j: usize = sorted.len();
        while j > 0 && sorted[j - 1].1 > key
            invariant
                j <= sorted@.len(),
                forall|k: int| j <= k < sorted@.len() ==> sorted@[k].1 > key,
            decreases j,
        {
            j = j - 1;
        }
        proof {
            let s = sorted@;
            lemma_insert_split(s, e, j as int);
            assert(insert_by_key(s.subrange(0, j as int), e) == s.subrange(0, j as int).push(e));
            assert(whole.subrange(0, i + 1).drop_last() =~= whole.subrange(0, i as int));
            assert(s.subrange(0, j as int).push(e) + s.subrange(j as int, s.len() as int)
                =~= s.insert(j as int, e));
            lemma_insert_len(s, e);
        }
        sorted.insert(j, (x, key));
        assert(rest@ =~= items@.subrange(i + 1, n as int));
        i = i + 1;
    }
    assert(whole.subrange(0, n as int) =~= whole);
    let ghost full = sorted@;
    let mut out: Vec<T> = Vec::new();
    let mut k: usize = 0;
    while k < n
        invariant
            full.len() == n,
            k <= n,
            sorted@ == full.subrange(k as int, n as int),
            out@ == full.subrange(0, k as int).map_values(|p: (T, i64)| p.0),
        decreases n - k,
    {
        let (x, _key) = sorted.remove(0);
        out.push(x);
        assert(sorted@ =~= full.subrange(k + 1, n as int));
        assert(out@ =~= full.subrange(0, k + 1).map_values(|p: (T, i64)| p.0));
        k = k + 1;
    }
    assert(full.subrange(0, n as int) =~= full);
    out
}

} // verus!
