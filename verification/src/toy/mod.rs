use std::collections::BTreeMap;
use vstd::prelude::*;

use crate::tools::db_reader::{grouped, LookupDB, RowKey};
use crate::tools::lua_export::LuaFile;
use crate::tools::maps::{first_missing, merge_maps, remove_ignored};
use crate::tools::dbs::ItemEffect;
use crate::toy::dbs::ItemSparse;
use crate::toy::export::{effect_line_fn, table_text, toy_line_fn, tradable_line_fn, Exporter};
use crate::toy::effect::{collect_effects, toy_effects, toy_resolvable, toy_with_effects, Effect, SpellDbs};

pub mod dbs;
pub mod effect;
pub mod export;
pub mod factions;

verus! {

broadcast use {vstd::std_specs::btree::group_btree_axioms, vstd::laws_cmp::group_laws_cmp};

/// A toy: its item, the spell it casts, its name, whether it can be traded and
/// what it does to the player.
pub struct Toy {
    pub item_id: u32,
    pub spell_id: u32,
    pub name: String,
    pub item_is_tradable: bool,
    pub effects: Vec<Effect>,
}

/// A toy as plain values.
pub ghost struct ToyView {
    pub item_id: u32,
    pub spell_id: u32,
    pub name: Seq<char>,
    pub item_is_tradable: bool,
    pub effects: Seq<Effect>,
}

impl View for Toy {
    type V = ToyView;

    open spec fn view(&self) -> ToyView {
        ToyView {
            item_id: self.item_id,
            spell_id: self.spell_id,
            name: self.name@,
            item_is_tradable: self.item_is_tradable,
            effects: self.effects@,
        }
    }
}

/// The toys of a map as plain values.
pub open spec fn toys_view(m: Map<u32, Toy>) -> Map<u32, ToyView> {
    m.map_values(|t: Toy| t@)
}

/// Groups item rows by their item.
pub struct SparseByItem;

impl RowKey<ItemSparse> for SparseByItem {
    open spec fn key(&self, row: ItemSparse) -> u32 {
        row.item_id
    }

    fn key_of(&self, row: &ItemSparse) -> (k: u32) {
        row.item_id
    }
}

/// The spell an item casts on use: that of its first effect triggered on use.
pub open spec fn use_spell(effects: Seq<ItemEffect>) -> Option<u32>
    decreases effects.len(),
{
    if effects.len() == 0 {
        None
    } else if effects[0].trigger_type == 0 {
        Some(effects[0].spell_id as u32)
    } else {
        use_spell(effects.drop_first())
    }
}

/// The name of a toy: the display text of its item's first row, else empty.
pub open spec fn toy_name(sparse: Seq<ItemSparse>) -> Seq<char> {
    if sparse.len() > 0 {
        sparse[0].display_text@
    } else {
        Seq::empty()
    }
}

/// A toy can be traded when its item's first row binds on use.
pub open spec fn toy_tradable(sparse: Seq<ItemSparse>) -> bool {
    sparse.len() > 0 && sparse[0].bonding == 3
}

/// Whether some toy row names item `k`.
pub open spec fn lists_item(toy_db: Seq<dbs::Toy>, k: u32) -> bool {
    exists|i: int| 0 <= i < toy_db.len() && (#[trigger] toy_db[i]).item_id == k
}

/// Every spell that a listed toy casts can be resolved.
pub open spec fn toy_rows_resolvable(
    toy_db: Seq<dbs::Toy>,
    item_effects: spec_fn(u32) -> Seq<ItemEffect>,
    dbs: SpellDbs,
) -> bool {
    forall|i: int|
        0 <= i < toy_db.len() && (#[trigger] use_spell(item_effects(toy_db[i].item_id))) is Some
            ==> toy_resolvable(dbs.tables(), use_spell(item_effects(toy_db[i].item_id))->0)
}

/// The toy collected for item `k`, before its effects.
pub open spec fn collected_toy(
    toy: Toy,
    k: u32,
    item_effects: spec_fn(u32) -> Seq<ItemEffect>,
    sparse: spec_fn(u32) -> Seq<ItemSparse>,
) -> bool {
    &&& toy.item_id == k
    &&& use_spell(item_effects(k)) == Some(toy.spell_id)
    &&& toy.name@ == toy_name(sparse(k))
    &&& toy.item_is_tradable == toy_tradable(sparse(k))
}

/// The toys that the rows describe, keyed by item: each listed item with a
/// use spell, named by its first item row and with the effects of its spell.
pub open spec fn collected_toys(
    toy_db: Seq<dbs::Toy>,
    item_effects: spec_fn(u32) -> Seq<ItemEffect>,
    sparse: spec_fn(u32) -> Seq<ItemSparse>,
    dbs: SpellDbs,
) -> Map<u32, ToyView> {
    Map::new(
        |k: u32| lists_item(toy_db, k) && use_spell(item_effects(k)) is Some,
        |k: u32|
            ToyView {
                item_id: k,
                spell_id: use_spell(item_effects(k))->0,
                name: toy_name(sparse(k)),
                item_is_tradable: toy_tradable(sparse(k)),
                effects: toy_effects(dbs.tables(), use_spell(item_effects(k))->0),
            },
    )
}

/// The spell an item casts on use, if any.
pub fn first_use_spell(effects: &Vec<ItemEffect>) -> (res: Option<u32>)
    ensures
        res == use_spell(effects@),
{
    let ghost s = effects@;
    assert(s.skip(0) =~= s);
    for i in 0..effects.len()
        invariant
            s == effects@,
            use_spell(s) == use_spell(s.skip(i as int)),
    {
        assert(s.skip(i as int)[0] == s[i as int]);
        if effects[i].trigger_type == 0 {
            return Some(effects[i].spell_id as u32);
        }
        assert(s.skip(i as int).drop_first() =~= s.skip(i + 1));
    }
    assert(s.skip(s.len() as int) =~= Seq::<ItemEffect>::empty());
    None
}

/// Whether every spell that a listed toy casts can be resolved.
pub fn toy_rows_are_resolvable(
    toy_db: &Vec<dbs::Toy>,
    item_effects_db: &LookupDB<ItemEffect>,
    spell_dbs: &SpellDbs,
) -> (res: bool)
    ensures
        res == toy_rows_resolvable(toy_db@, item_effects_db.rows_fn(), *spell_dbs),
{
    let ghost fx = item_effects_db.rows_fn();
    for i in 0..toy_db.len()
        invariant
            fx == item_effects_db.rows_fn(),
            forall|l: int|
                0 <= l < i && (#[trigger] use_spell(fx(toy_db@[l].item_id))) is Some
                    ==> toy_resolvable(spell_dbs.tables(), use_spell(fx(toy_db@[l].item_id))->0),
    {
        let item_id = toy_db[i].item_id;
        let effects = item_effects_db.lookup(&item_id);
        assert(effects@ == fx(item_id));
        if let Some(spell_id) = first_use_spell(&effects) {
            if !spell_dbs.toy_is_resolvable(spell_id) {
                return false;
            }
        }
    }
    true
}

/// Collects the toys of one game version, keyed by item: each listed item
/// with a use spell, with its name, whether it trades and its effects.
pub fn collect_toys(
    toy_db: Vec<dbs::Toy>,
    item_sparse_rows: Vec<ItemSparse>,
    item_effects_db: &LookupDB<ItemEffect>,
    spell_dbs: &SpellDbs,
) -> (res: BTreeMap<u32, Toy>)
    requires
        toy_rows_resolvable(toy_db@, item_effects_db.rows_fn(), *spell_dbs),
    ensures
        toys_view(res@) == collected_toys(
            toy_db@,
            item_effects_db.rows_fn(),
            grouped(item_sparse_rows@, SparseByItem),
            *spell_dbs,
        ),
{
    let ghost fx = item_effects_db.rows_fn();
    let ghost rows = toy_db@;
    let ghost sparse = grouped(item_sparse_rows@, SparseByItem);
    let item_sparse_db = LookupDB::new_from_data(item_sparse_rows, SparseByItem);
    let mut toys: BTreeMap<u32, Toy> = BTreeMap::new();
    for i in 0..toy_db.len()
        invariant
            rows == toy_db@,
            fx == item_effects_db.rows_fn(),
            item_sparse_db.rows_fn() == sparse,
            toy_rows_resolvable(rows, fx, *spell_dbs),
            forall|k: u32|
                #[trigger] toys@.contains_key(k) <==> (lists_item(rows.take(i as int), k)
                    && use_spell(fx(k)) is Some),
            forall|k: u32|
                #[trigger] toys@.contains_key(k) ==> collected_toy(toys@[k], k, fx, sparse)
                    && toys@[k].effects@ == Seq::<Effect>::empty(),
    {
        let toy_row = toy_db[i];
        let item_id = toy_row.item_id;
        let effects = item_effects_db.lookup(&item_id);
        assert(effects@ == fx(item_id));
        let spell_id = first_use_spell(&effects);
        proof {
            assert forall|k: u32| lists_item(rows.take(i + 1), k) <==> (lists_item(
                rows.take(i as int),
                k,
            ) || k == item_id) by {
                if k == item_id {
                    assert(rows.take(i + 1)[i as int] == toy_row);
                }
                if lists_item(rows.take(i as int), k) {
                    let j = choose|j: int| 0 <= j < i && (#[trigger] rows.take(i as int)[j]).item_id == k;
                    assert(rows.take(i + 1)[j] == rows.take(i as int)[j]);
                }
                if lists_item(rows.take(i + 1), k) {
                    let j = choose|j: int| 0 <= j < i + 1 && (#[trigger] rows.take(i + 1)[j]).item_id == k;
                    if j < i {
                        assert(rows.take(i as int)[j] == rows.take(i + 1)[j]);
                    }
                }
            }
        }
        // items without use spell are just some dev armor pieces
        if let Some(spell_id) = spell_id {
            let item_sparses = item_sparse_db.lookup(&item_id);
            let name = if item_sparses.len() > 0 {
                item_sparses[0].display_text.clone()
            } else {
                String::new()
            };
            let bonding = if item_sparses.len() > 0 {
                item_sparses[0].bonding
            } else {
                0
            };
            toys.insert(
                item_id,
                Toy { item_id, spell_id, name, item_is_tradable: bonding == 3, effects: Vec::new() },
            );
        }
    }
    proof {
        assert(rows.take(rows.len() as int) =~= rows);
        assert forall|k: u32| #[trigger] toys@.contains_key(k) implies toy_resolvable(
            spell_dbs.tables(),
            toys@[k].spell_id,
        ) by {
            let j = choose|j: int| 0 <= j < rows.len() && (#[trigger] rows[j]).item_id == k;
            assert(use_spell(fx(rows[j].item_id)) is Some);
        }
    }
    let res = collect_effects(toys, spell_dbs);
    proof {
        assert forall|k: u32| #[trigger] res@.contains_key(k) implies collected_toy(
            res@[k],
            k,
            fx,
            sparse,
        ) && res@[k].effects@ == toy_effects(spell_dbs.tables(), res@[k].spell_id) by {
            assert(toys@.contains_key(k));
            assert(toy_with_effects(toys@[k], res@[k], toy_effects(spell_dbs.tables(), toys@[k].spell_id)));
            assert(res@[k].effects@ =~= toy_effects(spell_dbs.tables(), res@[k].spell_id));
        }
        let c = collected_toys(toy_db@, fx, sparse, *spell_dbs);
        assert forall|k: u32| #[trigger] toys_view(res@).contains_key(k) <==> c.contains_key(k) by {
            assert(toys@.contains_key(k) <==> res@.contains_key(k));
        }
        assert forall|k: u32| #[trigger] c.contains_key(k) implies toys_view(res@)[k] == c[k] by {
            assert(res@.contains_key(k));
            assert(collected_toy(res@[k], k, fx, sparse));
        }
        assert(toys_view(res@) =~= c);
    }
    res
}


/// The tables of one game version that toys are collected from.
pub struct ToySources {
    pub toy_db: Vec<dbs::Toy>,
    pub item_sparse_rows: Vec<ItemSparse>,
    pub item_effects_db: LookupDB<ItemEffect>,
    pub spell_dbs: SpellDbs,
}

impl ToySources {
    pub open spec fn resolvable(&self) -> bool {
        toy_rows_resolvable(self.toy_db@, self.item_effects_db.rows_fn(), self.spell_dbs)
    }

    /// The toys that these tables describe.
    pub open spec fn toys(&self) -> Map<u32, ToyView> {
        collected_toys(
            self.toy_db@,
            self.item_effects_db.rows_fn(),
            grouped(self.item_sparse_rows@, SparseByItem),
            self.spell_dbs,
        )
    }

    pub fn is_resolvable(&self) -> (res: bool)
        ensures
            res == self.resolvable(),
    {
        toy_rows_are_resolvable(&self.toy_db, &self.item_effects_db, &self.spell_dbs)
    }
}

/// The toys of both game versions, the second replacing the first where both
/// have an item.
pub open spec fn all_toys(classic: ToySources, retail: ToySources) -> Map<u32, ToyView> {
    classic.toys().union_prefer_right(retail.toys())
}

/// Collects the toys of the classic and the current game version, drops the
/// ignored ones and writes the tradable, toy and preview tables under
/// `export_path`; an ignored id that no toy has is an error.
pub fn handle_toys(classic: ToySources, retail: ToySources, ignored: Vec<u32>, export_path: &str) -> (res:
    Result<Vec<LuaFile>, u32>)
    requires
        classic.resolvable(),
        retail.resolvable(),
    ensures
        match res {
            Ok(files) => {
                let toys = all_toys(classic, retail).remove_keys(ignored@.to_set());
                &&& first_missing(all_toys(classic, retail).dom(), ignored@) is None
                &&& files@.len() == 3
                &&& files@[0].path@ == export_path@ + seq!['/'] + "tradable.db.lua"@
                &&& files@[0].text@ == table_text("db.Tradable"@, toys, tradable_line_fn(toys))
                &&& files@[1].path@ == export_path@ + seq!['/'] + "toys.db.lua"@
                &&& files@[1].text@ == table_text("db.ingameList"@, toys, toy_line_fn(toys))
                &&& files@[2].path@ == export_path@ + seq!['/'] + "preview.db.lua"@
                &&& files@[2].text@ == table_text("db.preview"@, toys, effect_line_fn(toys))
            },
            Err(id) => first_missing(all_toys(classic, retail).dom(), ignored@) == Some(id),
        },
{
    let ghost classic_view = classic.toys();
    let ghost retail_view = retail.toys();
    let mut toys = collect_toys(classic.toy_db, classic.item_sparse_rows, &classic.item_effects_db, &classic.spell_dbs);
    let retail_toys = collect_toys(retail.toy_db, retail.item_sparse_rows, &retail.item_effects_db, &retail.spell_dbs);
    let ghost before_merge = toys@;
    let ghost retail_map = retail_toys@;
    merge_maps(&mut toys, retail_toys);
    proof {
        assert(toys_view(toys@) =~= classic_view.union_prefer_right(retail_view)) by {
            assert(toys_view(before_merge) == classic_view);
            assert(toys_view(retail_map) == retail_view);
            assert forall|k: u32| #[trigger] toys_view(toys@).contains_key(k) implies toys_view(toys@)[k]
                == classic_view.union_prefer_right(retail_view)[k] by {
                if retail_map.contains_key(k) {
                    assert(retail_view.contains_key(k));
                } else {
                    assert(before_merge.contains_key(k));
                }
            }
        }
    }
    let ghost merged = toys@;
    match remove_ignored(&mut toys, &ignored) {
        Err(id) => {
            assert(merged.dom() =~= all_toys(classic, retail).dom());
            return Err(id);
        },
        Ok(()) => {},
    }
    assert(merged.dom() =~= all_toys(classic, retail).dom());
    assert(toys_view(toys@) =~= all_toys(classic, retail).remove_keys(ignored@.to_set()));
    let exporter = Exporter::new(export_path);
    let mut files: Vec<LuaFile> = Vec::new();
    files.push(exporter.export_tradable(&toys));
    files.push(exporter.export_toys(&toys));
    files.push(exporter.export_effects(&toys));
    Ok(files)
}

} // verus!
