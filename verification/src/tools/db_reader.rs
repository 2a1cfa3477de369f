use std::collections::HashMap;
use vstd::prelude::*;

use crate::tools::dbs::{ItemEffect, ItemXItemEffect};

verus! {

broadcast use vstd::std_specs::hash::group_hash_axioms;

/// Picks the integer column by which the rows of a table are grouped.
pub trait RowKey<T> {
    spec fn key(&self, row: T) -> u32;

    fn key_of(&self, row: &T) -> (k: u32)
        ensures
            k == self.key(*row),
    ;
}

/// Rows of one table, grouped by an integer key.
pub struct LookupDB<T: Clone> {
    map: HashMap<u32, Vec<T>>,
}

/// The rows of `data` whose key is `k`, in the order of the table.
pub open spec fn rows_with_key<T, K: RowKey<T>>(data: Seq<T>, key: K, k: u32) -> Seq<T> {
    data.filter(has_key(key, k))
}

/// The rows of `data` under each key.
pub open spec fn grouped<T, K: RowKey<T>>(data: Seq<T>, key: K) -> spec_fn(u32) -> Seq<T> {
    |k: u32| rows_with_key(data, key, k)
}

/// Whether a row has key `k`.
pub open spec fn has_key<T, K: RowKey<T>>(key: K, k: u32) -> spec_fn(T) -> bool {
    |d: T| key.key(d) == k
}

proof fn lemma_filter_push<T>(s: Seq<T>, x: T, p: spec_fn(T) -> bool)
    ensures
        s.push(x).filter(p) == (if p(x) { s.filter(p).push(x) } else { s.filter(p) }),
{
    reveal_with_fuel(Seq::filter, 1);
    assert(s.push(x).drop_last() =~= s);
}

/// Grouping by a key is filtering by any predicate that tests that key.
pub proof fn lemma_rows_with_key_filter<T, K: RowKey<T>>(data: Seq<T>, key: K, k: u32, p: spec_fn(T) -> bool)
    requires
        forall|d: T| #[trigger] p(d) == (key.key(d) == k),
    ensures
        rows_with_key(data, key, k) == data.filter(p),
{
    assert(has_key(key, k) =~= p);
}

impl<T: Clone> LookupDB<T> {
    /// The rows stored under key `k`; an absent key stands for no rows.
    pub closed spec fn rows(&self, k: u32) -> Seq<T> {
        if self.map@.contains_key(k) {
            self.map@[k]@
        } else {
            Seq::empty()
        }
    }

    /// The rows under each key.
    pub open spec fn rows_fn(&self) -> spec_fn(u32) -> Seq<T> {
        |k: u32| self.rows(k)
    }

    /// Groups `data` by the key that `id_val` picks.
    pub fn new_from_data<K: RowKey<T>>(data: Vec<T>, id_val: K) -> (res: Self)
        ensures
            forall|k: u32| #[trigger] res.rows(k) == rows_with_key(data@, id_val, k),
            res.rows_fn() == grouped(data@, id_val),
    {
        let mut map: HashMap<u32, Vec<T>> = HashMap::new();
        let ghost all = data@;
        for datum in it: data
            invariant
                it.seq() == all,
                forall|k: u32|
                    #![trigger map@.contains_key(k)]
                    (if map@.contains_key(k) { map@[k]@ } else { Seq::<T>::empty() })
                        == rows_with_key(all.take(it.index() as int), id_val, k),
        {
            let ghost before = map@;
            let ghost idx = it.index() as int;
            let id = id_val.key_of(&datum);
            let mut group = match map.remove(&id) {
                Some(g) => g,
                None => Vec::new(),
            };
            group.push(datum);
            map.insert(id, group);
            proof {
                assert(all.take(idx + 1) =~= all.take(idx).push(all[idx]));
                assert forall|k: u32| #![trigger map@.contains_key(k)]
                    (if map@.contains_key(k) { map@[k]@ } else { Seq::<T>::empty() })
                        == rows_with_key(all.take(idx + 1), id_val, k) by {
                    lemma_filter_push(all.take(idx), all[idx], has_key(id_val, k));
                    assert(before.contains_key(k) ==> true);
                }
            }
        }
        proof {
            assert(all.take(all.len() as int) =~= all);
        }
        let res = Self { map };
        assert forall|k: u32| #[trigger] res.rows(k) == rows_with_key(all, id_val, k) by {
            assert(map@.contains_key(k) ==> true);
        }
        assert(res.rows_fn() =~= grouped(all, id_val));
        res
    }

    /// Wraps an already grouped map.
    pub fn new(map: HashMap<u32, Vec<T>>) -> (res: Self)
        ensures
            forall|k: u32|
                #[trigger] res.rows(k) == (if map@.contains_key(k) {
                    map@[k]@
                } else {
                    Seq::<T>::empty()
                }),
    {
        Self { map }
    }

    /// Clones of the rows stored under `id`, in order (none if the key is absent).
    pub fn lookup(&self, id: &u32) -> (res: Vec<T>)
        ensures
            res@.len() == self.rows(*id).len(),
            forall|i: int| 0 <= i < res@.len() ==> cloned(self.rows(*id)[i], #[trigger] res@[i]),
    {
        match self.map.get(id) {
            None => Vec::new(),
            Some(v) => {
                let mut out: Vec<T> = Vec::new();
                for j in 0..v.len()
                    invariant
                        out@.len() == j,
                        forall|i: int| 0 <= i < j ==> cloned(v@[i], #[trigger] out@[i]),
                {
                    out.push(v[j].clone());
                }
                out
            },
        }
    }
}

/// Looking a key up twice in a table gives equal rows, the rows stored under
/// the key in their order (none for an absent key), wherever cloning a row
/// keeps its value, as for the plain row types of the game tables.
pub proof fn law_lookup_repeatable<T: Clone>(db: LookupDB<T>, id: u32, first: Seq<T>, second: Seq<T>)
    requires
        forall|a: T, b: T| #[trigger] cloned(a, b) ==> a == b,
        first.len() == db.rows(id).len(),
        forall|i: int| 0 <= i < first.len() ==> cloned(db.rows(id)[i], #[trigger] first[i]),
        second.len() == db.rows(id).len(),
        forall|i: int| 0 <= i < second.len() ==> cloned(db.rows(id)[i], #[trigger] second[i]),
    ensures
        first == db.rows(id),
        second == db.rows(id),
        first == second,
{
    assert(first =~= db.rows(id));
    assert(second =~= db.rows(id));
}

/// Groups item effects by their own id.
pub struct EffectById;

impl RowKey<ItemEffect> for EffectById {
    open spec fn key(&self, row: ItemEffect) -> u32 {
        row.id
    }

    fn key_of(&self, row: &ItemEffect) -> (k: u32) {
        row.id
    }
}

/// Groups item effects by the spell they cast or by the item they belong to.
pub struct EffectIndex {
    pub by_spell: bool,
}

/// The index of an item effect: its spell (as `u32`) or its item.
pub open spec fn effect_index(e: ItemEffect, by_spell: bool) -> u32 {
    if by_spell {
        e.spell_id as u32
    } else {
        e.item_id
    }
}

impl RowKey<ItemEffect> for EffectIndex {
    open spec fn key(&self, row: ItemEffect) -> u32 {
        effect_index(row, self.by_spell)
    }

    fn key_of(&self, row: &ItemEffect) -> (k: u32) {
        if self.by_spell {
            row.spell_id as u32
        } else {
            row.item_id
        }
    }
}

/// The effect that an item-to-effect link points at: the first effect with the
/// linked id, moved onto the linking item.
pub open spec fn linked_effect(effects: Seq<ItemEffect>, x: ItemXItemEffect) -> Option<ItemEffect> {
    let found = effects.filter(|e: ItemEffect| e.id == x.item_effect_id);
    if found.len() > 0 {
        Some(ItemEffect { item_id: x.item_id, ..found[0] })
    } else {
        None
    }
}

/// The effects of all links that point at an existing effect, in link order.
pub open spec fn linked_effects(effects: Seq<ItemEffect>, links: Seq<ItemXItemEffect>) -> Seq<ItemEffect>
    decreases links.len(),
{
    if links.len() == 0 {
        Seq::empty()
    } else {
        let rest = linked_effects(effects, links.drop_last());
        match linked_effect(effects, links.last()) {
            Some(e) => rest.push(e),
            None => rest,
        }
    }
}

/// The item effects under index `k`: grouped straight from the effect table when
/// there is no link table, else from the effects that the links point at.
pub open spec fn spec_item_effects(
    links: Option<Seq<ItemXItemEffect>>,
    effects: Seq<ItemEffect>,
    by_spell: bool,
    k: u32,
) -> Seq<ItemEffect> {
    match links {
        None => effects.filter(|e: ItemEffect| effect_index(e, by_spell) == k),
        Some(l) => linked_effects(effects, l).filter(|e: ItemEffect| effect_index(e, by_spell) == k),
    }
}

/// Builds the item effect table, indexed by spell or by item; when the link table
/// `ItemXItemEffect` exists, each link contributes the first effect with its id,
/// moved onto the linking item.
pub fn load_item_effects(
    item_x_effect_db: Option<Vec<ItemXItemEffect>>,
    item_effect_db: Vec<ItemEffect>,
    use_spell_id_as_index: bool,
) -> (res: LookupDB<ItemEffect>)
    ensures
        forall|k: u32|
            #[trigger] res.rows(k) == spec_item_effects(
                match item_x_effect_db {
                    Some(v) => Some(v@),
                    None => None,
                },
                item_effect_db@,
                use_spell_id_as_index,
                k,
            ),
{
    let ghost effects = item_effect_db@;
    match item_x_effect_db {
        None => {
            let res = LookupDB::new_from_data(item_effect_db, EffectIndex { by_spell: use_spell_id_as_index });
            assert forall|k: u32| #[trigger] res.rows(k) == spec_item_effects(None, effects, use_spell_id_as_index, k) by {
                lemma_rows_with_key_filter(effects, EffectIndex { by_spell: use_spell_id_as_index }, k, |e: ItemEffect|
                    effect_index(e, use_spell_id_as_index) == k);
            }
            res
        },
        Some(links) => {
            let mut result: HashMap<u32, Vec<ItemEffect>> = HashMap::new();
            let by_id = LookupDB::new_from_data(item_effect_db, EffectById);
            let ghost all = links@;
            for x_effect in it: links
                invariant
                    it.seq() == all,
                    forall|k: u32| #[trigger] by_id.rows(k) == rows_with_key(effects, EffectById, k),
                    forall|k: u32|
                        #![trigger result@.contains_key(k)]
                        (if result@.contains_key(k) { result@[k]@ } else { Seq::<ItemEffect>::empty() })
                            == linked_effects(effects, all.take(it.index() as int)).filter(
                            |e: ItemEffect| effect_index(e, use_spell_id_as_index) == k,
                        ),
            {
                let ghost before = result@;
                let ghost idx = it.index() as int;
                let ghost prefix = all.take(idx);
                proof {
                    assert(all.take(idx + 1) =~= prefix.push(x_effect));
                    assert(all.take(idx + 1).drop_last() =~= prefix);
                    lemma_rows_with_key_filter(effects, EffectById, x_effect.item_effect_id, |e: ItemEffect|
                        e.id == x_effect.item_effect_id);
                }
                let effects_found = by_id.lookup(&x_effect.item_effect_id);
                if effects_found.len() > 0 {
                    let mut effect = effects_found[0];
                    effect.item_id = x_effect.item_id;
                    let index = if use_spell_id_as_index {
                        effect.spell_id as u32
                    } else {
                        effect.item_id
                    };
                    let mut group = match result.remove(&index) {
                        Some(g) => g,
                        None => Vec::new(),
                    };
                    group.push(effect);
                    result.insert(index, group);
                    proof {
                        assert(linked_effect(effects, x_effect) == Some(effect));
                        assert forall|k: u32| #![trigger result@.contains_key(k)]
                            (if result@.contains_key(k) { result@[k]@ } else { Seq::<ItemEffect>::empty() })
                                == linked_effects(effects, all.take(idx + 1)).filter(
                                |e: ItemEffect| effect_index(e, use_spell_id_as_index) == k,
                            ) by {
                            lemma_filter_push(
                                linked_effects(effects, prefix),
                                effect,
                                |e: ItemEffect| effect_index(e, use_spell_id_as_index) == k,
                            );
                            assert(before.contains_key(k) ==> true);
                        }
                    }
                } else {
                    proof {
                        assert(linked_effect(effects, x_effect) is None);
                        assert(linked_effects(effects, all.take(idx + 1)) == linked_effects(effects, prefix));
                    }
                }
            }
            proof {
                assert(all.take(all.len() as int) =~= all);
            }
            let res = LookupDB::new(result);
            res
        },
    }
}


/// Grouping a table by a key loses no row and invents none: the rows under a
/// key all have that key and come from the table, and every row of the table
/// is under its own key.
pub proof fn law_grouping_partitions<T, K: RowKey<T>>(data: Seq<T>, key: K)
    ensures
        forall|k: u32, i: int|
            0 <= i < rows_with_key(data, key, k).len() ==> key.key(#[trigger] rows_with_key(data, key, k)[i]) == k
                && data.contains(rows_with_key(data, key, k)[i]),
        forall|i: int| 0 <= i < data.len() ==> rows_with_key(data, key, key.key(data[i])).contains(#[trigger] data[i]),
{
    assert forall|k: u32, i: int| 0 <= i < rows_with_key(data, key, k).len() implies key.key(
        #[trigger] rows_with_key(data, key, k)[i],
    ) == k && data.contains(rows_with_key(data, key, k)[i]) by {
        broadcast use vstd::seq_lib::group_filter_ensures;
        assert(has_key(key, k)(data.filter(has_key(key, k))[i]));
        assert(data.filter(has_key(key, k)).contains(data.filter(has_key(key, k))[i]));
        data.lemma_filter_contains_rev(has_key(key, k), data.filter(has_key(key, k))[i]);
    }
    assert forall|i: int| 0 <= i < data.len() implies rows_with_key(data, key, key.key(data[i])).contains(
        #[trigger] data[i],
    ) by {
        broadcast use vstd::seq_lib::group_filter_ensures;
        assert(has_key(key, key.key(data[i]))(data[i]));
    }
}

} // verus!
