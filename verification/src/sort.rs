//! A stable sort of keyed items, ascending by key: items with equal keys
//! keep their order.

use vstd::prelude::*;

verus! {

/// `x` inserted into `s` after every item whose key is at most `x`'s.
pub open spec fn insert_by_key<T>(s: Seq<(u128, T)>, x: (u128, T)) -> Seq<(u128, T)>
    decreases s.len(),
{
    if s.len() == 0 {
        seq![x]
    } else if s.last().0 <= x.0 {
        s.push(x)
    } else {
        insert_by_key(s.drop_last(), x).push(s.last())
    }
}

/// The items in ascending order of key, those with equal keys in their
/// original order: each item in turn inserted after the items before it
/// whose key is at most its own.
pub open spec fn sort_by_key<T>(s: Seq<(u128, T)>) -> Seq<(u128, T)>
    decreases s.len(),
{
    if s.len() == 0 {
        s
    } else {
        insert_by_key(sort_by_key(s.drop_last()), s.last())
    }
}

/// The keys ascend.
pub open spec fn keys_ascending<T>(s: Seq<(u128, T)>) -> bool {
    forall|i: int, j: int| 0 <= i <= j < s.len() ==> #[trigger] s[i].0 <= #[trigger] s[j].0
}

/// In sorted `s`, inserting `x` puts it before the first item with a
/// greater key.
proof fn lemma_insert_at<T>(s: Seq<(u128, T)>, x: (u128, T), j: int)
    requires
        keys_ascending(s),
        0 <= j <= s.len(),
        forall|k: int| 0 <= k < j ==> s[k].0 <= x.0,
        forall|k: int| j <= k < s.len() ==> s[k].0 > x.0,
    ensures
        insert_by_key(s, x) == s.subrange(0, j).push(x) + s.subrange(j, s.len() as int),
    decreases s.len(),
{
    if s.len() == 0 {
        assert(s.subrange(0, j).push(x) + s.subrange(j, s.len() as int) =~= seq![x]);
    } else if j == s.len() {
        assert(s.subrange(0, j) =~= s);
        assert(s.subrange(0, j).push(x) + s.subrange(j, s.len() as int) =~= s.push(x));
    } else {
        assert(s.last().0 > x.0);
        lemma_insert_at(s.drop_last(), x, j);
        assert(s.drop_last().subrange(0, j) =~= s.subrange(0, j));
        assert((s.subrange(0, j).push(x) + s.drop_last().subrange(j, s.len() - 1)).push(s.last())
            =~= s.subrange(0, j).push(x) + s.subrange(j, s.len() as int));
    }
}

/// Inserting keeps the keys ascending.
proof fn lemma_insert_sorted<T>(s: Seq<(u128, T)>, x: (u128, T), j: int)
    requires
        keys_ascending(s),
        0 <= j <= s.len(),
        forall|k: int| 0 <= k < j ==> s[k].0 <= x.0,
        forall|k: int| j <= k < s.len() ==> s[k].0 > x.0,
    ensures
        keys_ascending(s.subrange(0, j).push(x) + s.subrange(j, s.len() as int)),
{
    let r = s.subrange(0, j).push(x) + s.subrange(j, s.len() as int);
    assert forall|a: int, b: int| 0 <= a <= b < r.len() implies #[trigger] r[a].0 <= #[trigger] r[b].0 by {
        if a < j && b < j {
            assert(r[a] == s[a] && r[b] == s[b]);
        } else if a < j && b == j {
            assert(r[a] == s[a] && r[b] == x);
        } else if a < j {
            assert(r[a] == s[a] && r[b] == s[b - 1]);
        } else if a == j && b == j {
        } else if a == j {
            assert(r[a] == x && r[b] == s[b - 1]);
        } else {
            assert(r[a] == s[a - 1] && r[b] == s[b - 1]);
        }
    }
}

/// The items sorted by key, stably.
pub fn stable_sort_by_key<T>(items: Vec<(u128, T)>) -> (r: Vec<(u128, T)>)
    ensures
        r@ == sort_by_key(items@),
        keys_ascending(r@),
{
    let ghost all = items@;
    let mut items = items;
    let mut out: Vec<(u128, T)> = Vec::new();
    let ghost mut n: int = 0;
    assert(all.subrange(0, all.len() as int) =~= all);
    assert(sort_by_key(all.subrange(0, 0)) =~= Seq::<(u128, T)>::empty());
    while items.len() > 0
        invariant
            0 <= n <= all.len(),
            items@ == all.subrange(n, all.len() as int),
            out@ == sort_by_key(all.subrange(0, n)),
            keys_ascending(out@),
        decreases items.len(),
    {
        let x = items.remove(0);
        assert(x == all[n]);
        let mut j: usize = 0;
        while j < out.len() && out[j].0 <= x.0
            invariant
                j <= out.len(),
                forall|k: int| 0 <= k < j ==> out@[k].0 <= x.0,
            decreases out.len() - j,
        {
            j += 1;
        }
        proof {
            assert forall|k: int| j <= k < out@.len() implies out@[k].0 > x.0 by {
                assert(out@[j as int].0 > x.0);
                assert(out@[j as int].0 <= out@[k].0);
            }
            lemma_insert_at(out@, x, j as int);
            lemma_insert_sorted(out@, x, j as int);
            assert(all.subrange(0, n + 1).drop_last() =~= all.subrange(0, n));
            assert(all.subrange(0, n + 1).last() == x);
        }
        let ghost before = out@;
        out.insert(j, x);
        assert(out@ =~= before.subrange(0, j as int).push(x) + before.subrange(j as int, before.len() as int));
        proof {
            n = n + 1;
            assert(items@ =~= all.subrange(n, all.len() as int));
        }
    }
    assert(all.subrange(0, n) =~= all);
    out
}

/// Sorting keeps every item: the sorted sequence holds the same items, as
/// many times each.
pub proof fn lemma_sort_permutes<T>(s: Seq<(u128, T)>)
    ensures
        sort_by_key(s).to_multiset() == s.to_multiset(),
    decreases s.len(),
{
    broadcast use vstd::seq_lib::group_to_multiset_ensures;

    if s.len() > 0 {
        lemma_sort_permutes(s.drop_last());
        lemma_insert_permutes(sort_by_key(s.drop_last()), s.last());
        assert(s =~= s.drop_last().push(s.last()));
    }
}

/// Inserting adds exactly the inserted item.
pub proof fn lemma_insert_permutes<T>(s: Seq<(u128, T)>, x: (u128, T))
    ensures
        insert_by_key(s, x).to_multiset() == s.to_multiset().insert(x),
    decreases s.len(),
{
    broadcast use vstd::seq_lib::group_to_multiset_ensures;

    if s.len() == 0 {
        assert(seq![x] =~= Seq::<(u128, T)>::empty().push(x));
    } else if s.last().0 <= x.0 {
    } else {
        lemma_insert_permutes(s.drop_last(), x);
        assert(s =~= s.drop_last().push(s.last()));
        assert(s.to_multiset() == s.drop_last().to_multiset().insert(s.last()));
        assert(insert_by_key(s, x).to_multiset() =~= s.to_multiset().insert(x));
    }
}

/// Sorting puts the keys in ascending order.
pub proof fn lemma_sort_ascending<T>(s: Seq<(u128, T)>)
    ensures
        keys_ascending(sort_by_key(s)),
    decreases s.len(),
{
    if s.len() > 0 {
        lemma_sort_ascending(s.drop_last());
        let t = sort_by_key(s.drop_last());
        let x = s.last();
        let j = first_greater(t, x.0, 0);
        lemma_first_greater(t, x.0, 0);
        lemma_insert_at(t, x, j);
        lemma_insert_sorted(t, x, j);
    }
}

/// The index of the first item from `i` on whose key exceeds `key`.
pub open spec fn first_greater<T>(s: Seq<(u128, T)>, key: u128, i: int) -> int
    decreases s.len() - i,
{
    if i >= s.len() {
        s.len() as int
    } else if s[i].0 > key {
        i
    } else {
        first_greater(s, key, i + 1)
    }
}

proof fn lemma_first_greater<T>(s: Seq<(u128, T)>, key: u128, i: int)
    requires
        keys_ascending(s),
        0 <= i <= s.len(),
        forall|k: int| 0 <= k < i ==> s[k].0 <= key,
    ensures
        i <= first_greater(s, key, i) <= s.len(),
        forall|k: int| 0 <= k < first_greater(s, key, i) ==> s[k].0 <= key,
        forall|k: int| first_greater(s, key, i) <= k < s.len() ==> s[k].0 > key,
    decreases s.len() - i,
{
    if i < s.len() {
        if s[i].0 > key {
            assert forall|k: int| i <= k < s.len() implies s[k].0 > key by {
                assert(s[i].0 <= s[k].0);
            }
        } else {
            lemma_first_greater(s, key, i + 1);
        }
    }
}

/// The items with `f` applied, keys kept.
pub open spec fn map_items<T, V>(s: Seq<(u128, T)>, f: spec_fn(T) -> V) -> Seq<(u128, V)> {
    s.map_values(|p: (u128, T)| (p.0, f(p.1)))
}

proof fn lemma_insert_map<T, V>(s: Seq<(u128, T)>, x: (u128, T), f: spec_fn(T) -> V)
    ensures
        insert_by_key(map_items(s, f), (x.0, f(x.1))) == map_items(insert_by_key(s, x), f),
    decreases s.len(),
{
    let m = map_items(s, f);
    if s.len() == 0 {
        assert(map_items(seq![x], f) =~= seq![(x.0, f(x.1))]);
    } else {
        assert(m.last() == (s.last().0, f(s.last().1)));
        assert(m.drop_last() =~= map_items(s.drop_last(), f));
        if s.last().0 <= x.0 {
            assert(map_items(s.push(x), f) =~= m.push((x.0, f(x.1))));
        } else {
            lemma_insert_map(s.drop_last(), x, f);
            assert(map_items(insert_by_key(s.drop_last(), x).push(s.last()), f) =~= map_items(
                insert_by_key(s.drop_last(), x),
                f,
            ).push((s.last().0, f(s.last().1))));
        }
    }
}

/// Sorting commutes with changing the items but not their keys.
pub proof fn lemma_sort_map<T, V>(s: Seq<(u128, T)>, f: spec_fn(T) -> V)
    ensures
        sort_by_key(map_items(s, f)) == map_items(sort_by_key(s), f),
    decreases s.len(),
{
    let m = map_items(s, f);
    if s.len() == 0 {
        assert(m =~= Seq::<(u128, V)>::empty());
        assert(map_items(s, f) =~= Seq::<(u128, V)>::empty());
    } else {
        assert(m.drop_last() =~= map_items(s.drop_last(), f));
        assert(m.last() == (s.last().0, f(s.last().1)));
        lemma_sort_map(s.drop_last(), f);
        lemma_insert_map(sort_by_key(s.drop_last()), s.last(), f);
    }
}

} // verus!
