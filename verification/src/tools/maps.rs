//! Ordered traversal of maps keyed by integers.
use std::collections::BTreeMap;
use vstd::prelude::*;
use vstd::std_specs::cmp::OrdSpec;
use vstd::std_specs::iter::IteratorSpec;

use crate::tools::text::{lemma_seq_less_irreflexive, lemma_seq_less_transitive, seq_less};

verus! {

broadcast use {vstd::std_specs::btree::group_btree_axioms, vstd::laws_cmp::group_laws_cmp};

/// The sequence is strictly increasing.
pub open spec fn strictly_increasing(q: Seq<u32>) -> bool {
    forall|i: int, j: int| 0 <= i < j < q.len() ==> q[i] < q[j]
}

/// The keys of a finite set of integers in increasing order.
pub open spec fn sorted_keys_of(s: Set<u32>) -> Seq<u32> {
    choose|q: Seq<u32>| q.to_set() == s && strictly_increasing(q)
}

/// Two increasing sequences with the same elements are equal.
pub proof fn lemma_sorted_unique(a: Seq<u32>, b: Seq<u32>)
    requires
        a.to_set() == b.to_set(),
        strictly_increasing(a),
        strictly_increasing(b),
    ensures
        a == b,
    decreases a.len(),
{
    if a.len() == 0 {
        if b.len() > 0 {
            assert(b.to_set().contains(b[0]));
            assert(!a.to_set().contains(b[0]));
        }
        assert(a =~= b);
    } else if b.len() == 0 {
        assert(a.to_set().contains(a[0]));
        assert(!b.to_set().contains(a[0]));
    } else {
        // both first elements are the least element of the set
        assert(a.to_set().contains(a[0]));
        assert(b.to_set().contains(b[0]));
        assert(b.contains(a[0]));
        assert(a.contains(b[0]));
        let ia = choose|i: int| 0 <= i < a.len() && a[i] == b[0];
        let ib = choose|i: int| 0 <= i < b.len() && b[i] == a[0];
        assert(a[0] <= a[ia]);
        assert(b[0] <= b[ib]);
        assert(a[0] == b[0]);
        let ar = a.drop_first();
        let br = b.drop_first();
        assert forall|x: u32| ar.to_set().contains(x) <==> br.to_set().contains(x) by {
            if ar.to_set().contains(x) {
                assert(ar.contains(x));
                let i = choose|i: int| 0 <= i < ar.len() && ar[i] == x;
                assert(a[i + 1] == x);
                assert(a.to_set().contains(x));
                assert(b.contains(x));
                let j = choose|j: int| 0 <= j < b.len() && b[j] == x;
                assert(x > a[0]);
                assert(j > 0);
                assert(br[j - 1] == x);
                assert(br.contains(x));
            }
            if br.to_set().contains(x) {
                assert(br.contains(x));
                let i = choose|i: int| 0 <= i < br.len() && br[i] == x;
                assert(b[i + 1] == x);
                assert(b.to_set().contains(x));
                assert(a.contains(x));
                let j = choose|j: int| 0 <= j < a.len() && a[j] == x;
                assert(x > b[0]);
                assert(j > 0);
                assert(ar[j - 1] == x);
                assert(ar.contains(x));
            }
        }
        assert(ar.to_set() =~= br.to_set());
        lemma_sorted_unique(ar, br);
        assert(a =~= seq![a[0]] + ar);
        assert(b =~= seq![b[0]] + br);
    }
}

proof fn lemma_increasing_refs(all: Seq<&u32>)
    requires
        vstd::std_specs::btree::increasing_seq(all),
    ensures
        forall|i: int, j: int| 0 <= i < j < all.len() ==> *all[i] < *all[j],
{
    broadcast use vstd::laws_cmp::lemma_ref_obeys_cmp_spec;
    vstd::std_specs::btree::axiom_increasing_seq_meaning(all);
    assert forall|i: int, j: int| 0 <= i < j < all.len() implies *all[i] < *all[j] by {
        let a: &u32 = all[i];
        let b: &u32 = all[j];
        assert(OrdSpec::cmp_spec(&a, &b) is Less);
    }
}

/// The keys of a map in increasing order.
pub fn sorted_keys<V>(m: &BTreeMap<u32, V>) -> (res: Vec<u32>)
    ensures
        res@ == sorted_keys_of(m@.dom()),
        strictly_increasing(res@),
        res@.to_set() == m@.dom(),
{
    let mut res: Vec<u32> = Vec::new();
    let ghost all = m.keys().remaining();
    for k in it: m.keys()
        invariant
            it.seq() == all,
            res@ == all.take(it.index() as int).unref(),
    {
        res.push(*k);
        assert(res@ =~= all.take(it.index() + 1).unref());
    }
    proof {
        assert(all.take(all.len() as int) =~= all);
        lemma_increasing_refs(all);
        assert(res@.to_set() == m@.dom());
        lemma_sorted_unique(res@, sorted_keys_of(m@.dom()));
    }
    res
}


/// The distinct values of `v` in increasing order (a sort followed by a dedup).
pub fn sorted_unique(v: &Vec<u32>) -> (res: Vec<u32>)
    ensures
        res@ == sorted_keys_of(v@.to_set()),
        strictly_increasing(res@),
        res@.to_set() == v@.to_set(),
{
    let mut res: Vec<u32> = Vec::new();
    assert(res@.to_set() =~= v@.take(0).to_set());
    for i in 0..v.len()
        invariant
            strictly_increasing(res@),
            res@.to_set() == v@.take(i as int).to_set(),
    {
        let x = v[i];
        proof {
            crate::tools::seqs::lemma_take_to_set(v@, i as int);
        }
        // the first position whose value is not below x
        let mut pos: usize = 0;
        while pos < res.len() && res[pos] < x
            invariant
                pos <= res@.len(),
                forall|l: int| 0 <= l < pos ==> res@[l] < x,
            decreases res@.len() - pos,
        {
            pos = pos + 1;
        }
        if pos < res.len() && res[pos] == x {
            assert(res@.to_set().contains(x)) by {
                assert(res@[pos as int] == x);
            }
            assert(res@.to_set().insert(x) =~= res@.to_set());
        } else {
            let ghost before = res@;
            res.insert(pos, x);
            assert(res@ =~= before.take(pos as int).push(x) + before.skip(pos as int));
            assert forall|a: int, b: int| 0 <= a < b < res@.len() implies res@[a] < res@[b] by {
                if b == pos {
                } else if a == pos {
                    assert(before[b - 1] >= x);
                    if b - 1 > pos as int {
                        assert(before[pos as int] < before[b - 1]);
                    }
                }
            }
            assert(res@.to_set() =~= before.to_set().insert(x)) by {
                assert forall|y: u32| res@.to_set().contains(y) implies before.to_set().insert(x).contains(y) by {
                    let j = choose|j: int| 0 <= j < res@.len() && res@[j] == y;
                    if j < pos {
                        assert(before[j] == y);
                    } else if j > pos {
                        assert(before[j - 1] == y);
                    }
                }
                assert forall|y: u32| before.to_set().insert(x).contains(y) implies res@.to_set().contains(y) by {
                    if y == x {
                        assert(res@[pos as int] == y);
                    } else {
                        let j = choose|j: int| 0 <= j < before.len() && before[j] == y;
                        if j < pos {
                            assert(res@[j] == y);
                        } else {
                            assert(res@[j + 1] == y);
                        }
                    }
                }
            }
        }
    }
    assert(v@.take(v@.len() as int) =~= v@);
    proof {
        lemma_sorted_unique(res@, sorted_keys_of(v@.to_set()));
    }
    res
}


/// The entries are in strictly increasing order of their names.
pub open spec fn names_sorted<V>(v: Seq<(Seq<char>, V)>) -> bool {
    forall|i: int, j: int| 0 <= i < j < v.len() ==> seq_less(#[trigger] v[i].0, #[trigger] v[j].0)
}

/// The map from each name to its entry.
pub open spec fn named_map<V>(v: Seq<(Seq<char>, V)>) -> Map<Seq<char>, V>
    decreases v.len(),
{
    if v.len() == 0 {
        Map::empty()
    } else {
        named_map(v.drop_last()).insert(v.last().0, v.last().1)
    }
}

/// In a sorted list, the map holds exactly the names of the entries, each
/// with its entry.
pub proof fn lemma_named_map<V>(v: Seq<(Seq<char>, V)>)
    requires
        names_sorted(v),
    ensures
        forall|i: int| 0 <= i < v.len() ==> #[trigger] named_map(v).contains_key(v[i].0) && named_map(v)[v[i].0] == v[i].1,
        forall|k: Seq<char>| #[trigger] named_map(v).contains_key(k) ==> exists|i: int| 0 <= i < v.len() && v[i].0 == k,
    decreases v.len(),
{
    if v.len() > 0 {
        let w = v.drop_last();
        assert(names_sorted(w));
        lemma_named_map(w);
        assert(named_map(v) == named_map(w).insert(v.last().0, v.last().1));
        assert forall|i: int| 0 <= i < v.len() implies #[trigger] named_map(v).contains_key(v[i].0) && named_map(v)[v[i].0] == v[i].1 by {
            if i < v.len() - 1 {
                assert(w[i] == v[i]);
                assert(seq_less(v[i].0, v[v.len() - 1].0));
                lemma_seq_less_irreflexive(v[i].0);
                assert(v[i].0 != v.last().0);
                assert(named_map(w).contains_key(w[i].0));
                assert(named_map(w)[w[i].0] == w[i].1);
            }
        }
        assert forall|k: Seq<char>| #[trigger] named_map(v).contains_key(k) implies exists|i: int| 0 <= i < v.len() && v[i].0 == k by {
            if k != v.last().0 {
                assert(named_map(w).contains_key(k));
                let i = choose|i: int| 0 <= i < w.len() && w[i].0 == k;
                assert(v[i] == w[i]);
            } else {
                assert(v[v.len() - 1].0 == k);
            }
        }
    }
}

/// Replacing the entry at `j` keeps its name and maps it to the new entry.
pub proof fn lemma_named_map_update<V>(v: Seq<(Seq<char>, V)>, j: int, val: V)
    requires
        names_sorted(v),
        0 <= j < v.len(),
    ensures
        names_sorted(v.update(j, (v[j].0, val))),
        named_map(v.update(j, (v[j].0, val))) == named_map(v).insert(v[j].0, val),
{
    let u = v.update(j, (v[j].0, val));
    assert forall|a: int, b: int| 0 <= a < b < u.len() implies seq_less(#[trigger] u[a].0, #[trigger] u[b].0) by {
        assert(seq_less(v[a].0, v[b].0));
    }
    lemma_named_map(v);
    lemma_named_map(u);
    assert forall|k: Seq<char>| named_map(u).contains_key(k) <==> named_map(v).insert(v[j].0, val).contains_key(k) by {
        if named_map(u).contains_key(k) {
            let i = choose|i: int| 0 <= i < u.len() && u[i].0 == k;
            assert(v[i].0 == k);
        }
        if named_map(v).contains_key(k) {
            let i = choose|i: int| 0 <= i < v.len() && v[i].0 == k;
            assert(u[i].0 == k);
        }
        if k == v[j].0 {
            assert(u[j].0 == k);
        }
    }
    assert forall|k: Seq<char>| #[trigger] named_map(u).contains_key(k) implies named_map(u)[k] == named_map(v).insert(v[j].0, val)[k] by {
        let i = choose|i: int| 0 <= i < u.len() && u[i].0 == k;
        if i != j {
            assert(v[i] == u[i]);
            if k == v[j].0 {
                if i < j {
                    assert(seq_less(v[i].0, v[j].0));
                } else {
                    assert(seq_less(v[j].0, v[i].0));
                }
                lemma_seq_less_irreflexive(k);
            }
        }
    }
    assert(named_map(u) =~= named_map(v).insert(v[j].0, val));
}

/// Inserting a new name at its place keeps the list sorted and adds it to the map.
pub proof fn lemma_named_map_insert<V>(v: Seq<(Seq<char>, V)>, pos: int, k: Seq<char>, val: V)
    requires
        names_sorted(v),
        0 <= pos <= v.len(),
        forall|i: int| 0 <= i < pos ==> seq_less(#[trigger] v[i].0, k),
        pos < v.len() ==> seq_less(k, v[pos].0),
    ensures
        names_sorted(v.insert(pos, (k, val))),
        named_map(v.insert(pos, (k, val))) == named_map(v).insert(k, val),
{
    let u = v.insert(pos, (k, val));
    assert forall|a: int, b: int| 0 <= a < b < u.len() implies seq_less(#[trigger] u[a].0, #[trigger] u[b].0) by {
        if b < pos {
            assert(seq_less(v[a].0, v[b].0));
        } else if b == pos {
        } else if a < pos {
            assert(u[b] == v[b - 1]);
            assert(seq_less(v[a].0, k));
            if b - 1 > pos {
                assert(seq_less(v[pos].0, v[b - 1].0));
                lemma_seq_less_transitive(k, v[pos].0, v[b - 1].0);
            }
            lemma_seq_less_transitive(v[a].0, k, v[b - 1].0);
        } else if a == pos {
            assert(u[b] == v[b - 1]);
            if b - 1 > pos {
                assert(seq_less(v[pos].0, v[b - 1].0));
                lemma_seq_less_transitive(k, v[pos].0, v[b - 1].0);
            }
        } else {
            assert(seq_less(v[a - 1].0, v[b - 1].0));
        }
    }
    lemma_named_map(v);
    lemma_named_map(u);
    assert forall|x: Seq<char>| named_map(u).contains_key(x) <==> named_map(v).insert(k, val).contains_key(x) by {
        if named_map(u).contains_key(x) {
            let i = choose|i: int| 0 <= i < u.len() && u[i].0 == x;
            if i < pos {
                assert(v[i].0 == x);
            } else if i > pos {
                assert(v[i - 1].0 == x);
            }
        }
        if named_map(v).contains_key(x) {
            let i = choose|i: int| 0 <= i < v.len() && v[i].0 == x;
            if i < pos {
                assert(u[i].0 == x);
            } else {
                assert(u[i + 1].0 == x);
            }
        }
        if x == k {
            assert(u[pos].0 == x);
        }
    }
    assert forall|x: Seq<char>| #[trigger] named_map(u).contains_key(x) implies named_map(u)[x] == named_map(v).insert(k, val)[x] by {
        let i = choose|i: int| 0 <= i < u.len() && u[i].0 == x;
        assert(named_map(u).contains_key(u[i].0));
        if i < pos {
            assert(u[i] == v[i]);
            lemma_seq_less_irreflexive(k);
            assert(named_map(v).contains_key(v[i].0));
        } else if i > pos {
            assert(u[i] == v[i - 1]);
            lemma_seq_less_irreflexive(k);
            assert(named_map(v).contains_key(v[i - 1].0));
            if i - 1 > pos {
                assert(seq_less(v[pos].0, v[i - 1].0));
                lemma_seq_less_transitive(k, v[pos].0, v[i - 1].0);
            }
        }
    }
    assert(named_map(u) =~= named_map(v).insert(k, val));
}


/// `s` with `x` put before its first element that is not below `x`.
pub open spec fn insert_sorted(s: Seq<u32>, x: u32) -> Seq<u32>
    decreases s.len(),
{
    if s.len() == 0 {
        seq![x]
    } else if x <= s[0] {
        seq![x] + s
    } else {
        seq![s[0]] + insert_sorted(s.drop_first(), x)
    }
}

/// The values of `s` in increasing order, repeats kept.
pub open spec fn sort_seq(s: Seq<u32>) -> Seq<u32>
    decreases s.len(),
{
    if s.len() == 0 {
        Seq::empty()
    } else {
        insert_sorted(sort_seq(s.drop_last()), s.last())
    }
}

proof fn lemma_insert_sorted_at(s: Seq<u32>, x: u32, pos: int)
    requires
        0 <= pos <= s.len(),
        forall|i: int| 0 <= i < pos ==> s[i] < x,
        pos < s.len() ==> x <= s[pos],
    ensures
        insert_sorted(s, x) == s.insert(pos, x),
    decreases s.len(),
{
    if s.len() == 0 {
        assert(s.insert(pos, x) =~= seq![x]);
    } else if pos == 0 {
        assert(s.insert(0, x) =~= seq![x] + s);
    } else {
        let t = s.drop_first();
        assert forall|i: int| 0 <= i < pos - 1 implies t[i] < x by {
            assert(t[i] == s[i + 1]);
        }
        if pos - 1 < t.len() {
            assert(t[pos - 1] == s[pos]);
        }
        lemma_insert_sorted_at(t, x, pos - 1);
        assert(s.insert(pos, x) =~= seq![s[0]] + t.insert(pos - 1, x));
    }
}

/// The values of `v` in increasing order, repeats kept (a sort).
pub fn sort_ids(v: &Vec<u32>) -> (res: Vec<u32>)
    ensures
        res@ == sort_seq(v@),
{
    let mut res: Vec<u32> = Vec::new();
    assert(v@.take(0) =~= Seq::<u32>::empty());
    for i in 0..v.len()
        invariant
            res@ == sort_seq(v@.take(i as int)),
    {
        let x = v[i];
        let mut pos: usize = 0;
        while pos < res.len() && res[pos] < x
            invariant
                pos <= res@.len(),
                forall|l: int| 0 <= l < pos ==> res@[l] < x,
            decreases res@.len() - pos,
        {
            pos = pos + 1;
        }
        proof {
            lemma_insert_sorted_at(res@, x, pos as int);
            assert(v@.take(i + 1).drop_last() =~= v@.take(i as int));
        }
        res.insert(pos, x);
    }
    assert(v@.take(v@.len() as int) =~= v@);
    res
}


proof fn lemma_insert_sorted_members(t: Seq<u32>, x: u32)
    ensures
        insert_sorted(t, x).len() == t.len() + 1,
        forall|j: int|
            0 <= j < insert_sorted(t, x).len() ==> #[trigger] insert_sorted(t, x)[j] == x || t.contains(
                insert_sorted(t, x)[j],
            ),
    decreases t.len(),
{
    if t.len() > 0 && x > t[0] {
        let r = t.drop_first();
        lemma_insert_sorted_members(r, x);
        assert forall|j: int| 0 <= j < insert_sorted(t, x).len() implies #[trigger] insert_sorted(t, x)[j] == x
            || t.contains(insert_sorted(t, x)[j]) by {
            if j == 0 {
                assert(t[0] == insert_sorted(t, x)[0]);
            } else {
                assert(insert_sorted(t, x)[j] == insert_sorted(r, x)[j - 1]);
                if r.contains(insert_sorted(r, x)[j - 1]) {
                    let l = choose|l: int| 0 <= l < r.len() && r[l] == insert_sorted(r, x)[j - 1];
                    assert(t[l + 1] == r[l]);
                }
            }
        }
    } else if t.len() > 0 {
        assert forall|j: int| 0 <= j < insert_sorted(t, x).len() implies #[trigger] insert_sorted(t, x)[j] == x
            || t.contains(insert_sorted(t, x)[j]) by {
            if j > 0 {
                assert(insert_sorted(t, x)[j] == t[j - 1]);
            }
        }
    }
}

/// Sorting keeps the length, and every value of the result is one of the input.
pub proof fn lemma_sort_seq_members(s: Seq<u32>)
    ensures
        sort_seq(s).len() == s.len(),
        forall|j: int| 0 <= j < sort_seq(s).len() ==> s.contains(#[trigger] sort_seq(s)[j]),
    decreases s.len(),
{
    if s.len() > 0 {
        let w = s.drop_last();
        lemma_sort_seq_members(w);
        lemma_insert_sorted_members(sort_seq(w), s.last());
        assert forall|j: int| 0 <= j < sort_seq(s).len() implies s.contains(#[trigger] sort_seq(s)[j]) by {
            let v = sort_seq(s)[j];
            if v == s.last() {
                assert(s[s.len() - 1] == v);
            } else {
                assert(sort_seq(w).contains(v));
                let l = choose|l: int| 0 <= l < sort_seq(w).len() && sort_seq(w)[l] == v;
                assert(w.contains(sort_seq(w)[l]));
                let m = choose|m: int| 0 <= m < w.len() && w[m] == v;
                assert(s[m] == v);
            }
        }
    }
}


/// The first id of `ignored` that is not in the set left after removing the
/// ids before it, if any.
pub open spec fn first_missing(dom: Set<u32>, ignored: Seq<u32>) -> Option<u32>
    decreases ignored.len(),
{
    if ignored.len() == 0 {
        None
    } else if !dom.contains(ignored[0]) {
        Some(ignored[0])
    } else {
        first_missing(dom.remove(ignored[0]), ignored.drop_first())
    }
}

/// Adds the entries of `from`, which replace those of `into` with the same key.
pub fn merge_maps<V>(into: &mut BTreeMap<u32, V>, from: BTreeMap<u32, V>)
    ensures
        final(into)@ == old(into)@.union_prefer_right(from@),
{
    let ghost orig = into@;
    let ghost src = from@;
    let keys = sorted_keys(&from);
    let mut from = from;
    for i in 0..keys.len()
        invariant
            keys@.to_set() == src.dom(),
            strictly_increasing(keys@),
            forall|l: int| i <= l < keys@.len() ==> #[trigger] from@.contains_key(keys@[l]) && from@[keys@[l]] == src[keys@[l]],
            into@ == orig.union_prefer_right(src.restrict(keys@.take(i as int).to_set())),
    {
        let k = keys[i];
        let value = from.remove(&k).unwrap();
        into.insert(k, value);
        assert forall|l: int| i < l < keys@.len() implies keys@[l] != k by {
            assert(keys@[i as int] < keys@[l]);
        }
        proof {
            crate::tools::seqs::lemma_take_to_set(keys@, i as int);
        }
        assert(into@ =~= orig.union_prefer_right(src.restrict(keys@.take(i + 1).to_set())));
    }
    assert(keys@.take(keys@.len() as int) =~= keys@);
    assert(src.restrict(keys@.to_set()) =~= src);
}

/// Removes the ignored keys in order; the first key that is missing by then is
/// an error.
pub fn remove_ignored<V>(toys: &mut BTreeMap<u32, V>, ignored: &Vec<u32>) -> (res: Result<(), u32>)
    ensures
        match res {
            Ok(()) => first_missing(old(toys)@.dom(), ignored@) is None && final(toys)@
                == old(toys)@.remove_keys(ignored@.to_set()),
            Err(id) => first_missing(old(toys)@.dom(), ignored@) == Some(id),
        },
{
    let ghost orig = toys@;
    assert(ignored@.skip(0) =~= ignored@);
    assert(orig.remove_keys(ignored@.take(0).to_set()) =~= orig);
    for i in 0..ignored.len()
        invariant
            orig == old(toys)@,
            toys@ == orig.remove_keys(ignored@.take(i as int).to_set()),
            first_missing(orig.dom(), ignored@) == first_missing(toys@.dom(), ignored@.skip(i as int)),
    {
        let id = ignored[i];
        assert(ignored@.skip(i as int)[0] == id);
        assert(ignored@.skip(i as int).drop_first() =~= ignored@.skip(i + 1));
        let ghost before = toys@;
        let removed = toys.remove(&id);
        assert(toys@ == before.remove(id));
        if removed.is_none() {
            assert(!before.dom().contains(id));
            return Err(id);
        }
        assert(before.dom().contains(id));
        assert(toys@.dom() =~= before.dom().remove(id));
        proof {
            crate::tools::seqs::lemma_take_to_set(ignored@, i as int);
        }
        assert(toys@ =~= orig.remove_keys(ignored@.take(i + 1).to_set()));
    }
    assert(ignored@.take(ignored@.len() as int) =~= ignored@);
    assert(ignored@.skip(ignored@.len() as int) =~= Seq::<u32>::empty());
    Ok(())
}


proof fn lemma_max_exists(s: Set<u32>)
    requires
        s.finite(),
        s.len() > 0,
    ensures
        exists|x: u32| s.contains(x) && forall|y: u32| #[trigger] s.contains(y) ==> y <= x,
    decreases s.len(),
{
    let a = s.choose();
    let r = s.remove(a);
    if r.len() == 0 {
        assert forall|y: u32| #[trigger] s.contains(y) implies y <= a by {
            if y != a {
                assert(r.contains(y));
            }
        }
    } else {
        lemma_max_exists(r);
        let b = choose|x: u32| r.contains(x) && forall|y: u32| #[trigger] r.contains(y) ==> y <= x;
        let m = if a > b { a } else { b };
        assert forall|y: u32| #[trigger] s.contains(y) implies y <= m by {
            if y != a {
                assert(r.contains(y));
            }
        }
        assert(s.contains(m));
    }
}

/// A finite set of keys has its increasing sequence.
pub proof fn lemma_sorted_keys_of(s: Set<u32>)
    requires
        s.finite(),
    ensures
        sorted_keys_of(s).to_set() == s,
        strictly_increasing(sorted_keys_of(s)),
    decreases s.len(),
{
    lemma_sorted_exists(s);
}

proof fn lemma_sorted_exists(s: Set<u32>)
    requires
        s.finite(),
    ensures
        exists|q: Seq<u32>| q.to_set() == s && strictly_increasing(q),
    decreases s.len(),
{
    if s.len() == 0 {
        let q = Seq::<u32>::empty();
        assert(q.to_set() =~= s);
        assert(strictly_increasing(q));
    } else {
        lemma_max_exists(s);
        let x = choose|x: u32| s.contains(x) && forall|y: u32| #[trigger] s.contains(y) ==> y <= x;
        let r = s.remove(x);
        lemma_sorted_exists(r);
        let q0 = choose|q: Seq<u32>| q.to_set() == r && strictly_increasing(q);
        let q = q0.push(x);
        assert forall|i: int, j: int| 0 <= i < j < q.len() implies q[i] < q[j] by {
            if j == q.len() - 1 {
                assert(q0.to_set().contains(q0[i]));
                assert(s.contains(q0[i]));
            }
        }
        assert(q.to_set() =~= s) by {
            assert forall|y: u32| q.to_set().contains(y) implies s.contains(y) by {
                let j = choose|j: int| 0 <= j < q.len() && q[j] == y;
                if j < q0.len() {
                    assert(q0.to_set().contains(q0[j]));
                }
            }
            assert forall|y: u32| s.contains(y) implies q.to_set().contains(y) by {
                if y == x {
                    assert(q[q.len() - 1] == y);
                } else {
                    assert(r.contains(y));
                    assert(q0.to_set().contains(y));
                    let j = choose|j: int| 0 <= j < q0.len() && q0[j] == y;
                    assert(q[j] == y);
                }
            }
        }
    }
}


/// Removing ignored keys in order succeeds exactly when no key is listed twice
/// and every listed key is present.
pub proof fn law_first_missing(dom: Set<u32>, ignored: Seq<u32>)
    ensures
        first_missing(dom, ignored) is None <==> (ignored.no_duplicates() && forall|i: int|
            0 <= i < ignored.len() ==> dom.contains(#[trigger] ignored[i])),
    decreases ignored.len(),
{
    if ignored.len() > 0 {
        let x = ignored[0];
        let rest = ignored.drop_first();
        law_first_missing(dom.remove(x), rest);
        if dom.contains(x) {
            if first_missing(dom, ignored) is None {
                assert forall|i: int, j: int| 0 <= i < j < ignored.len() implies ignored[i] != ignored[j] by {
                    if i == 0 {
                        assert(dom.remove(x).contains(rest[j - 1]));
                    } else {
                        assert(rest[i - 1] != rest[j - 1]);
                    }
                }
                assert forall|i: int| 0 <= i < ignored.len() implies dom.contains(#[trigger] ignored[i]) by {
                    if i > 0 {
                        assert(dom.remove(x).contains(rest[i - 1]));
                    }
                }
            }
            if ignored.no_duplicates() && forall|i: int| 0 <= i < ignored.len() ==> dom.contains(#[trigger] ignored[i]) {
                assert forall|i: int, j: int| 0 <= i < j < rest.len() implies rest[i] != rest[j] by {
                    assert(ignored[i + 1] != ignored[j + 1]);
                }
                assert forall|i: int| 0 <= i < rest.len() implies dom.remove(x).contains(#[trigger] rest[i]) by {
                    assert(ignored[i + 1] != ignored[0]);
                    assert(dom.contains(ignored[i + 1]));
                }
            }
        }
    }
}

/// Sorting orders the values increasingly.
pub proof fn law_sort_seq_sorted(s: Seq<u32>)
    ensures
        forall|i: int, j: int| 0 <= i <= j < sort_seq(s).len() ==> sort_seq(s)[i] <= sort_seq(s)[j],
    decreases s.len(),
{
    if s.len() > 0 {
        law_sort_seq_sorted(s.drop_last());
        lemma_insert_sorted_keeps_order(sort_seq(s.drop_last()), s.last());
    }
}

proof fn lemma_insert_sorted_keeps_order(t: Seq<u32>, x: u32)
    requires
        forall|i: int, j: int| 0 <= i <= j < t.len() ==> t[i] <= t[j],
    ensures
        forall|i: int, j: int| 0 <= i <= j < insert_sorted(t, x).len() ==> insert_sorted(t, x)[i] <= insert_sorted(t, x)[j],
        insert_sorted(t, x).len() == t.len() + 1,
        insert_sorted(t, x)[0] == x || (t.len() > 0 && insert_sorted(t, x)[0] == t[0]),
    decreases t.len(),
{
    if t.len() > 0 && x > t[0] {
        let r = t.drop_first();
        lemma_insert_sorted_keeps_order(r, x);
        let u = insert_sorted(t, x);
        assert forall|i: int, j: int| 0 <= i <= j < u.len() implies u[i] <= u[j] by {
            if i == 0 && j > 0 {
                assert(u[j] == insert_sorted(r, x)[j - 1]);
                if j - 1 > 0 {
                    assert(insert_sorted(r, x)[0] <= insert_sorted(r, x)[j - 1]);
                }
                if r.len() > 0 {
                    assert(t[0] <= t[1]);
                }
            } else if i > 0 {
                assert(u[i] == insert_sorted(r, x)[i - 1]);
                assert(u[j] == insert_sorted(r, x)[j - 1]);
            }
        }
    } else if t.len() > 0 {
        let u = insert_sorted(t, x);
        assert forall|i: int, j: int| 0 <= i <= j < u.len() implies u[i] <= u[j] by {
            if i == 0 && j > 0 {
                assert(u[j] == t[j - 1]);
                assert(t[0] <= t[j - 1]);
            } else if i > 0 {
                assert(u[i] == t[i - 1]);
                assert(u[j] == t[j - 1]);
            }
        }
    }
}

} // verus!
