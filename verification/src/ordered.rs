//! Ordered maps with integer keys, kept as vectors of pairs sorted by key.
use vstd::prelude::*;

verus! {

/// Keys strictly increasing: sorted, each key once.
pub open spec fn sorted_keys<V>(l: Seq<(u64, V)>) -> bool {
    forall|i: int, j: int| 0 <= i < j < l.len() ==> l[i].0 < l[j].0
}

/// The number of leading entries whose key is below `k`: where `k` belongs.
pub open spec fn lower_bound<V>(l: Seq<(u64, V)>, k: u64) -> nat
    decreases l.len(),
{
    if l.len() == 0 || l[0].0 >= k {
        0
    } else {
        1 + lower_bound(l.drop_first(), k)
    }
}

/// The map with `k` bound to `v` (replacing an earlier binding of `k`).
pub open spec fn map_insert<V>(l: Seq<(u64, V)>, k: u64, v: V) -> Seq<(u64, V)> {
    let i = lower_bound(l, k) as int;
    if i < l.len() && l[i].0 == k {
        l.update(i, (k, v))
    } else {
        l.insert(i, (k, v))
    }
}

/// The value bound to `k`, if any.
pub open spec fn map_get<V>(l: Seq<(u64, V)>, k: u64) -> Option<V>
    decreases l.len(),
{
    if l.len() == 0 {
        None
    } else if l[0].0 == k {
        Some(l[0].1)
    } else {
        map_get(l.drop_first(), k)
    }
}

pub proof fn lemma_lower_bound<V>(l: Seq<(u64, V)>, k: u64)
    ensures
        lower_bound(l, k) <= l.len(),
        forall|j: int| 0 <= j < lower_bound(l, k) ==> l[j].0 < k,
        lower_bound(l, k) < l.len() ==> l[lower_bound(l, k) as int].0 >= k,
    decreases l.len(),
{
    if l.len() > 0 && l[0].0 < k {
        lemma_lower_bound(l.drop_first(), k);
        assert forall|j: int| 0 <= j < lower_bound(l, k) implies l[j].0 < k by {
            if j > 0 {
                assert(l[j] == l.drop_first()[j - 1]);
            }
        }
    }
}

proof fn lemma_map_get_first<V>(l: Seq<(u64, V)>, i: int, k: u64)
    requires
        0 <= i < l.len(),
        l[i].0 == k,
        forall|j: int| 0 <= j < i ==> l[j].0 != k,
    ensures
        map_get(l, k) == Some(l[i].1),
    decreases i,
{
    if i > 0 {
        assert(l[0].0 != k);
        assert forall|j: int| 0 <= j < i - 1 implies l.drop_first()[j].0 != k by {
            assert(l.drop_first()[j] == l[j + 1]);
        }
        lemma_map_get_first(l.drop_first(), i - 1, k);
    }
}

/// After an insertion, `k` is bound to `v`, whatever order the keys were in.
pub proof fn lemma_map_insert_binds<V>(l: Seq<(u64, V)>, k: u64, v: V)
    ensures
        map_get(map_insert(l, k, v), k) == Some(v),
{
    lemma_lower_bound(l, k);
    let r = map_insert(l, k, v);
    let i = lower_bound(l, k) as int;
    assert(r[i] == (k, v));
    assert forall|j: int| 0 <= j < i implies r[j].0 != k by {
        assert(r[j] == l[j]);
    }
    lemma_map_get_first(r, i, k);
}

/// Inserting keeps the keys sorted, binds `k` to `v`, and keeps every other binding.
pub proof fn lemma_map_insert<V>(l: Seq<(u64, V)>, k: u64, v: V)
    requires
        sorted_keys(l),
    ensures
        sorted_keys(map_insert(l, k, v)),
        map_get(map_insert(l, k, v), k) == Some(v),
        forall|k2: u64| k2 != k ==> map_get(map_insert(l, k, v), k2) == map_get(l, k2),
{
    lemma_lower_bound(l, k);
    let r = map_insert(l, k, v);
    let i = lower_bound(l, k) as int;
    let upd = i < l.len() && l[i].0 == k;
    assert(sorted_keys(r));
    lemma_map_get_index(r, k);
    lemma_map_get_index(l, k);
    assert(r[i] == (k, v));
    let ci = choose|j: int| 0 <= j < r.len() && r[j].0 == k;
    assert(ci == i);
    assert forall|k2: u64| k2 != k implies map_get(r, k2) == map_get(l, k2) by {
        lemma_map_get_index(r, k2);
        lemma_map_get_index(l, k2);
        if exists|j: int| 0 <= j < l.len() && l[j].0 == k2 {
            let j = choose|j: int| 0 <= j < l.len() && l[j].0 == k2;
            let jr = if upd || j < i {
                j
            } else {
                j + 1
            };
            assert(r[jr] == l[j]);
            let cj = choose|j: int| 0 <= j < r.len() && r[j].0 == k2;
            assert(cj == jr);
        } else {
            if exists|j: int| 0 <= j < r.len() && r[j].0 == k2 {
                let jr = choose|j: int| 0 <= j < r.len() && r[j].0 == k2;
                if jr < i {
                    assert(l[jr].0 == k2);
                } else if upd {
                    assert(l[jr].0 == k2);
                } else {
                    assert(jr != i);
                    assert(l[jr - 1].0 == k2);
                }
            }
        }
    }
}

/// The binding of `k` in a sorted map, read by position.
pub open spec fn lookup_index<V>(l: Seq<(u64, V)>, k: u64) -> Option<V> {
    if exists|i: int| 0 <= i < l.len() && l[i].0 == k {
        Some(l[choose|i: int| 0 <= i < l.len() && l[i].0 == k].1)
    } else {
        None
    }
}

proof fn lemma_map_get_index<V>(l: Seq<(u64, V)>, k: u64)
    requires
        sorted_keys(l) || forall|i: int, j: int| 0 <= i < j < l.len() ==> l[i].0 != l[j].0,
    ensures
        map_get(l, k) == lookup_index(l, k),
    decreases l.len(),
{
    if l.len() > 0 {
        if l[0].0 != k {
            lemma_map_get_index(l.drop_first(), k);
            if exists|i: int| 0 <= i < l.len() && l[i].0 == k {
                let i = choose|i: int| 0 <= i < l.len() && l[i].0 == k;
                assert(l.drop_first()[i - 1].0 == k);
                let i2 = choose|i: int| 0 <= i < l.len() - 1 && l.drop_first()[i].0 == k;
                assert(l[i2 + 1].0 == k);
                assert(i == i2 + 1);
            } else {
                assert forall|i: int| 0 <= i < l.len() - 1 implies l.drop_first()[i].0 != k by {
                    assert(l.drop_first()[i] == l[i + 1]);
                }
            }
        } else {
            let i = choose|i: int| 0 <= i < l.len() && l[i].0 == k;
            assert(l[0].0 == k);
            assert(i == 0);
        }
    }
}

/// Binds `k` to `v` in a sorted map.
pub fn insert_sorted<V>(l: &mut Vec<(u64, V)>, k: u64, v: V)
    ensures
        final(l)@ == map_insert(old(l)@, k, v),
{
    let mut i: usize = 0;
    proof {
        lemma_lower_bound(l@, k);
    }
    assert(l@.skip(0) =~= l@);
    while i < l.len() && l[i].0 < k
        invariant
            i <= l@.len(),
            l@ == old(l)@,
            lower_bound(l@, k) == i + lower_bound(l@.skip(i as int), k),
        decreases l.len() - i,
    {
        assert(l@.skip(i as int).drop_first() =~= l@.skip(i + 1));
        i = i + 1;
    }
    assert(lower_bound(l@, k) == i);
    if i < l.len() && l[i].0 == k {
        l.set(i, (k, v));
    } else {
        l.insert(i, (k, v));
    }
}

/// The value bound to `k`, if any.
pub fn get_sorted<V>(l: &Vec<(u64, V)>, k: u64) -> (r: Option<&V>)
    ensures
        r matches Some(x) ==> map_get(l@, k) == Some(*x),
        r is None ==> map_get(l@, k) is None,
{
    let mut i: usize = 0;
    assert(l@.skip(0) =~= l@);
    while i < l.len()
        invariant
            i <= l@.len(),
            map_get(l@, k) == map_get(l@.skip(i as int), k),
        decreases l.len() - i,
    {
        if l[i].0 == k {
            return Some(&l[i].1);
        }
        assert(l@.skip(i as int).drop_first() =~= l@.skip(i + 1));
        i = i + 1;
    }
    None
}

/// The map with each value replaced by its deep view.
pub open spec fn dv<V: DeepView>(l: Seq<(u64, V)>) -> Seq<(u64, V::V)> {
    l.map_values(|e: (u64, V)| (e.0, e.1.deep_view()))
}

proof fn lemma_dv_lower_bound<V: DeepView>(l: Seq<(u64, V)>, k: u64)
    ensures
        lower_bound(dv(l), k) == lower_bound(l, k),
    decreases l.len(),
{
    if l.len() > 0 {
        assert(dv(l).drop_first() =~= dv(l.drop_first()));
        lemma_dv_lower_bound(l.drop_first(), k);
    }
}

/// Taking deep views commutes with inserting.
pub proof fn lemma_dv_insert<V: DeepView>(l: Seq<(u64, V)>, k: u64, v: V)
    ensures
        dv(map_insert(l, k, v)) == map_insert(dv(l), k, v.deep_view()),
{
    lemma_dv_lower_bound(l, k);
    lemma_lower_bound(l, k);
    let i = lower_bound(l, k) as int;
    if i < l.len() && l[i].0 == k {
        assert(dv(l)[i].0 == k);
        assert(dv(l.update(i, (k, v))) =~= dv(l).update(i, (k, v.deep_view())));
    } else {
        assert(!(i < dv(l).len() && dv(l)[i].0 == k));
        assert(dv(l.insert(i, (k, v))) =~= dv(l).insert(i, (k, v.deep_view())));
    }
}

/// Taking deep views commutes with looking up.
pub proof fn lemma_dv_get<V: DeepView>(l: Seq<(u64, V)>, k: u64)
    ensures
        map_get(dv(l), k) == match map_get(l, k) {
            Some(x) => Some(x.deep_view()),
            None => None,
        },
    decreases l.len(),
{
    if l.len() > 0 {
        assert(dv(l).drop_first() =~= dv(l.drop_first()));
        lemma_dv_get(l.drop_first(), k);
    }
}

} // verus!
