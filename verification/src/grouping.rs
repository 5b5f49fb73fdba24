//! Grouping of labelled rows by key, keeping the order in which keys first appear.
use vstd::prelude::*;
use crate::md::{clone_lines, lines_eq, push_line};
use crate::text::views;

verus! {

/// A group: its key (a list of cells) and the labels gathered under it.
pub type Group = (Seq<Seq<char>>, Seq<Seq<char>>);

/// `gs` with the label `v` added to the group of `k`, or a new group for `k` at the end.
pub open spec fn group_add(gs: Seq<Group>, k: Seq<Seq<char>>, v: Seq<char>) -> Seq<Group>
    decreases gs.len(),
{
    if gs.len() == 0 {
        seq![(k, seq![v])]
    } else if gs[0].0 == k {
        gs.update(0, (k, gs[0].1.push(v)))
    } else {
        seq![gs[0]] + group_add(gs.drop_first(), k, v)
    }
}

/// The groups of the rows `keys[i]` labelled `labels[i]`, in order of first appearance.
pub open spec fn grouped(keys: Seq<Seq<Seq<char>>>, labels: Seq<Seq<char>>) -> Seq<Group>
    decreases keys.len(),
{
    if keys.len() == 0 {
        Seq::empty()
    } else {
        group_add(grouped(keys.drop_last(), labels), keys.last(), labels[keys.len() - 1])
    }
}

/// Each key occurs in at most one group.
pub open spec fn keys_distinct(gs: Seq<Group>) -> bool {
    forall|i: int, j: int| 0 <= i < j < gs.len() ==> gs[i].0 != gs[j].0
}

proof fn lemma_group_add_skip(gs: Seq<Group>, k: Seq<Seq<char>>, v: Seq<char>, p: int)
    requires
        0 <= p <= gs.len(),
        forall|j: int| 0 <= j < p ==> gs[j].0 != k,
    ensures
        group_add(gs, k, v) == gs.take(p) + group_add(gs.skip(p), k, v),
    decreases p,
{
    if p > 0 {
        lemma_group_add_skip(gs.drop_first(), k, v, p - 1);
        assert(gs.drop_first().take(p - 1) =~= gs.take(p).drop_first());
        assert(gs.drop_first().skip(p - 1) =~= gs.skip(p));
        assert(gs.take(p) + group_add(gs.skip(p), k, v) =~= seq![gs[0]] + (gs.drop_first().take(
            p - 1,
        ) + group_add(gs.drop_first().skip(p - 1), k, v)));
    } else {
        assert(gs.skip(0) =~= gs);
        assert(gs.take(0) + group_add(gs, k, v) =~= group_add(gs, k, v));
    }
}

/// Adding a label keeps the keys distinct.
proof fn lemma_group_add_distinct(gs: Seq<Group>, k: Seq<Seq<char>>, v: Seq<char>)
    requires
        keys_distinct(gs),
    ensures
        keys_distinct(group_add(gs, k, v)),
        forall|i: int|
            0 <= i < group_add(gs, k, v).len() ==> (#[trigger] group_add(gs, k, v)[i].0 == k
                || exists|j: int| 0 <= j < gs.len() && gs[j].0 == group_add(gs, k, v)[i].0),
    decreases gs.len(),
{
    if gs.len() > 0 && gs[0].0 != k {
        lemma_group_add_distinct(gs.drop_first(), k, v);
        let r = group_add(gs.drop_first(), k, v);
        assert forall|i: int| 0 <= i < r.len() implies r[i].0 != gs[0].0 by {
            if r[i].0 != k {
                let j = choose|j: int| 0 <= j < gs.drop_first().len() && gs.drop_first()[j].0 == r[i].0;
                assert(gs[j + 1].0 == r[i].0);
            }
        }
        let g = group_add(gs, k, v);
        assert(g =~= seq![gs[0]] + r);
        assert forall|i: int| 0 <= i < g.len() implies (#[trigger] g[i].0 == k || exists|j: int|
            0 <= j < gs.len() && gs[j].0 == g[i].0) by {
            if i == 0 {
                assert(gs[0].0 == g[0].0);
            } else if r[i - 1].0 != k {
                let j = choose|j: int| 0 <= j < gs.drop_first().len() && gs.drop_first()[j].0 == r[i - 1].0;
                assert(gs[j + 1].0 == g[i].0);
            }
        }
    } else if gs.len() > 0 {
        let g = group_add(gs, k, v);
        assert forall|i: int| 0 <= i < g.len() implies (#[trigger] g[i].0 == k || exists|j: int|
            0 <= j < gs.len() && gs[j].0 == g[i].0) by {
            assert(gs[i].0 == g[i].0);
        }
    }
}

/// The groups of rows never hold one key twice.
pub proof fn law_groups_have_distinct_keys(keys: Seq<Seq<Seq<char>>>, labels: Seq<Seq<char>>)
    ensures
        keys_distinct(grouped(keys, labels)),
    decreases keys.len(),
{
    if keys.len() > 0 {
        law_groups_have_distinct_keys(keys.drop_last(), labels);
        lemma_group_add_distinct(grouped(keys.drop_last(), labels), keys.last(), labels[keys.len() - 1]);
    }
}

/// The view of a list of groups.
pub open spec fn group_views(gs: Seq<(Vec<Vec<char>>, Vec<Vec<char>>)>) -> Seq<Group> {
    gs.map_values(|g: (Vec<Vec<char>>, Vec<Vec<char>>)| (views(g.0@), views(g.1@)))
}

/// Adds the label `v` to the group of `k` (see `group_add`).
pub fn group_add_exec(gs: &mut Vec<(Vec<Vec<char>>, Vec<Vec<char>>)>, k: Vec<Vec<char>>, v: Vec<char>)
    ensures
        group_views(final(gs)@) == group_add(group_views(old(gs)@), views(k@), v@),
{
    let ghost g0 = group_views(gs@);
    let mut i: usize = 0;
    while i < gs.len()
        invariant
            i <= gs@.len(),
            g0 == group_views(gs@),
            g0 == group_views(old(gs)@),
            forall|j: int| 0 <= j < i ==> g0[j].0 != views(k@),
        decreases gs.len() - i,
    {
        if lines_eq(&gs[i].0, &k) {
            proof {
                lemma_group_add_skip(g0, views(k@), v@, i as int);
            }
            let mut labels = clone_lines(&gs[i].1);
            assert(views(labels@) == g0[i as int].1);
            push_line(&mut labels, v);
            let key = clone_lines(&gs[i].0);
            assert(views(key@) == views(k@));
            let ghost nl = views(labels@);
            gs.set(i, (key, labels));
            let ghost sk = g0.skip(i as int);
            assert(sk[0].0 == views(k@));
            assert(group_add(sk, views(k@), v@) == sk.update(0, (views(k@), sk[0].1.push(v@))));
            assert(nl == g0[i as int].1.push(v@));
            assert(group_views(gs@) =~= g0.update(i as int, (views(k@), nl)));
            assert(g0.take(i as int) + sk.update(0, (views(k@), sk[0].1.push(v@))) =~= g0.update(
                i as int,
                (views(k@), nl),
            ));
            assert(group_views(gs@) == group_add(g0, views(k@), v@));
            return;
        }
        i = i + 1;
    }
    proof {
        lemma_group_add_skip(g0, views(k@), v@, gs@.len() as int);
    }
    let mut labels: Vec<Vec<char>> = Vec::new();
    assert(views(labels@) =~= Seq::<Seq<char>>::empty());
    push_line(&mut labels, v);
    assert(views(labels@) =~= seq![v@]);
    let ghost kv = views(k@);
    gs.push((k, labels));
    assert(g0.skip(g0.len() as int) =~= Seq::<Group>::empty());
    assert(group_views(gs@) =~= g0.take(g0.len() as int) + seq![(kv, seq![v@])]);
}

/// The groups of the rows `keys[i]` labelled `labels[i]` (see `grouped`).
pub fn grouped_exec(keys: &Vec<Vec<Vec<char>>>, labels: &Vec<Vec<char>>) -> (r: Vec<
    (Vec<Vec<char>>, Vec<Vec<char>>),
>)
    requires
        keys@.len() <= labels@.len(),
    ensures
        group_views(r@) == grouped(keys@.map_values(|k: Vec<Vec<char>>| views(k@)), views(labels@)),
{
    let ghost kv = keys@.map_values(|k: Vec<Vec<char>>| views(k@));
    let mut gs: Vec<(Vec<Vec<char>>, Vec<Vec<char>>)> = Vec::new();
    assert(group_views(gs@) =~= Seq::<Group>::empty());
    let mut i: usize = 0;
    while i < keys.len()
        invariant
            i <= keys@.len(),
            keys@.len() <= labels@.len(),
            kv == keys@.map_values(|k: Vec<Vec<char>>| views(k@)),
            group_views(gs@) == grouped(kv.take(i as int), views(labels@)),
        decreases keys.len() - i,
    {
        assert(kv.take(i + 1).drop_last() =~= kv.take(i as int));
        assert(kv.take(i + 1).last() == views(keys@[i as int]@));
        group_add_exec(&mut gs, clone_lines(&keys[i]), labels[i].clone());
        i = i + 1;
    }
    assert(kv.take(keys@.len() as int) =~= kv);
    gs
}

/// Every group's key is one of the rows' keys.
pub proof fn lemma_grouped_keys(keys: Seq<Seq<Seq<char>>>, labels: Seq<Seq<char>>)
    ensures
        forall|i: int|
            0 <= i < grouped(keys, labels).len() ==> exists|j: int|
                0 <= j < keys.len() && keys[j] == #[trigger] grouped(keys, labels)[i].0,
    decreases keys.len(),
{
    if keys.len() > 0 {
        let ks = keys.drop_last();
        lemma_grouped_keys(ks, labels);
        let g0 = grouped(ks, labels);
        lemma_group_add_keys(g0, keys.last(), labels[keys.len() - 1]);
        let g = grouped(keys, labels);
        assert forall|i: int| 0 <= i < g.len() implies exists|j: int|
            0 <= j < keys.len() && keys[j] == #[trigger] g[i].0 by {
            if g[i].0 == keys.last() {
                assert(keys[keys.len() - 1] == g[i].0);
            } else {
                let m = choose|m: int| 0 <= m < g0.len() && g0[m].0 == g[i].0;
                let j = choose|j: int| 0 <= j < ks.len() && ks[j] == #[trigger] g0[m].0;
                assert(keys[j] == g[i].0);
            }
        }
    }
}

proof fn lemma_group_add_keys(gs: Seq<Group>, k: Seq<Seq<char>>, v: Seq<char>)
    ensures
        forall|i: int|
            0 <= i < group_add(gs, k, v).len() ==> (#[trigger] group_add(gs, k, v)[i].0 == k
                || exists|j: int| 0 <= j < gs.len() && gs[j].0 == group_add(gs, k, v)[i].0),
    decreases gs.len(),
{
    if gs.len() > 0 && gs[0].0 != k {
        lemma_group_add_keys(gs.drop_first(), k, v);
        let r = group_add(gs.drop_first(), k, v);
        let g = group_add(gs, k, v);
        assert(g =~= seq![gs[0]] + r);
        assert forall|i: int| 0 <= i < g.len() implies (#[trigger] g[i].0 == k || exists|j: int|
            0 <= j < gs.len() && gs[j].0 == g[i].0) by {
            if i == 0 {
                assert(gs[0].0 == g[0].0);
            } else if r[i - 1].0 != k {
                let j = choose|j: int| 0 <= j < gs.drop_first().len() && gs.drop_first()[j].0 == r[i - 1].0;
                assert(gs[j + 1].0 == g[i].0);
            }
        }
    } else if gs.len() > 0 {
        let g = group_add(gs, k, v);
        assert forall|i: int| 0 <= i < g.len() implies (#[trigger] g[i].0 == k || exists|j: int|
            0 <= j < gs.len() && gs[j].0 == g[i].0) by {
            assert(gs[i].0 == g[i].0);
        }
    }
}

} // verus!
