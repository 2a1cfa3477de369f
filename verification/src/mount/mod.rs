use std::collections::{BTreeMap, HashMap};
use vstd::prelude::*;

use crate::mount::condition::{
    condition_groups_view, lemma_parse_conditions_nonempty, parse_conditions, spec_parse_conditions, Condition,
    ConditionGroup,
};
use crate::mount::customization::{
    collect_customization, customizations, manuscript_entries, SpellEffectBySpell,
};
use crate::mount::export::{
    colors_fn, conditions_fn, customization_fn, family_block_fn, file_text, groups_nonempty, tradable_fn, Exporter,
    Rgb,
};
use crate::mount::family::{
    categories_view, families_of, families_sorted, family_entries, group_by_families, lemma_families_known,
    lemma_families_of_in, FamilyCategory, FamilyNode,
};
use crate::tools::lua_export::LuaFile;
use crate::tools::maps::{first_missing, merge_maps, named_map, remove_ignored, sorted_keys_of};
use crate::tools::seqs::flat_map;
use crate::tools::text::string_pair_views;
use crate::tools::db_reader::{grouped, LookupDB, RowKey};
use crate::tools::dbs;
use crate::tools::dbs::{ItemEffect, ItemSparse, PlayerCondition, SpellEffect, SpellMisc};
use crate::tools::patterns::{capture_icon, icon_capture};

pub mod condition;
pub mod customization;
pub mod drops;
pub mod export;
pub mod family;
pub mod image;
pub mod rarity;
pub mod sources;
pub mod wcm;

verus! {

broadcast use {
    vstd::std_specs::btree::group_btree_axioms,
    vstd::laws_cmp::group_laws_cmp,
    vstd::std_specs::hash::group_hash_axioms,
};

/// A mount with what the exported tables need of it.
pub struct Mount {
    pub id: u32,
    pub spell_id: u32,
    pub type_id: u32,
    pub name: String,
    pub icon: String,
    pub item_id: Option<u32>,
    pub item_is_tradeable: bool,
    pub player_conditions: Vec<Vec<Condition>>,
    pub source_type: i8,
}

/// A mount as plain values.
pub ghost struct MountView {
    pub id: u32,
    pub spell_id: u32,
    pub type_id: u32,
    pub name: Seq<char>,
    pub icon: Seq<char>,
    pub item_id: Option<u32>,
    pub item_is_tradeable: bool,
    pub player_conditions: Seq<Seq<(ConditionGroup, Seq<char>)>>,
    pub source_type: i8,
}

impl View for Mount {
    type V = MountView;

    open spec fn view(&self) -> MountView {
        MountView {
            id: self.id,
            spell_id: self.spell_id,
            type_id: self.type_id,
            name: self.name@,
            icon: self.icon@,
            item_id: self.item_id,
            item_is_tradeable: self.item_is_tradeable,
            player_conditions: condition_groups_view(self.player_conditions@),
            source_type: self.source_type,
        }
    }
}

/// The mounts of a map as plain values.
pub open spec fn mounts_view(m: Map<u32, Mount>) -> Map<u32, MountView> {
    m.map_values(|t: Mount| t@)
}

/// Groups player conditions by their id.
pub struct ConditionById;

impl RowKey<PlayerCondition> for ConditionById {
    open spec fn key(&self, row: PlayerCondition) -> u32 {
        row.id
    }

    fn key_of(&self, row: &PlayerCondition) -> (k: u32) {
        row.id
    }
}

/// Groups spell icons by their spell.
pub struct MiscBySpell;

impl RowKey<SpellMisc> for MiscBySpell {
    open spec fn key(&self, row: SpellMisc) -> u32 {
        row.spell_id
    }

    fn key_of(&self, row: &SpellMisc) -> (k: u32) {
        row.spell_id
    }
}

/// Groups item rows by their item.
pub struct ItemRowById;

impl RowKey<ItemSparse> for ItemRowById {
    open spec fn key(&self, row: ItemSparse) -> u32 {
        row.item_id
    }

    fn key_of(&self, row: &ItemSparse) -> (k: u32) {
        row.item_id
    }
}

/// The tables that mounts are completed from.
pub struct MountTables {
    pub player_condition_db: LookupDB<PlayerCondition>,
    pub spell_misc_db: LookupDB<SpellMisc>,
    pub item_sparse_db: LookupDB<ItemSparse>,
    /// item effects indexed by spell
    pub item_effects_db: LookupDB<ItemEffect>,
}

impl MountTables {
    /// Groups the player conditions by id, the spell icons by spell and the
    /// item rows by item.
    pub fn new(
        player_conditions: Vec<PlayerCondition>,
        spell_misc: Vec<SpellMisc>,
        item_sparse: Vec<ItemSparse>,
        item_effects_db: LookupDB<ItemEffect>,
    ) -> (res: Self)
        ensures
            res.player_condition_db.rows_fn() == grouped(player_conditions@, ConditionById),
            res.spell_misc_db.rows_fn() == grouped(spell_misc@, MiscBySpell),
            res.item_sparse_db.rows_fn() == grouped(item_sparse@, ItemRowById),
            res.item_effects_db == item_effects_db,
    {
        MountTables {
            player_condition_db: LookupDB::new_from_data(player_conditions, ConditionById),
            spell_misc_db: LookupDB::new_from_data(spell_misc, MiscBySpell),
            item_sparse_db: LookupDB::new_from_data(item_sparse, ItemRowById),
            item_effects_db,
        }
    }
}

/// The item that teaches a mount: the first item row of the item of its last
/// effect that teaches on learning (trigger 6); none without such an effect
/// or where that item has no row.
pub open spec fn mount_item(effects: Seq<ItemEffect>, items: spec_fn(u32) -> Seq<ItemSparse>) -> Option<u32>
    decreases effects.len(),
{
    if effects.len() == 0 {
        None
    } else if effects.last().trigger_type == 6 {
        let rows = items(effects.last().item_id);
        if rows.len() > 0 {
            Some(rows[0].item_id)
        } else {
            None
        }
    } else {
        mount_item(effects.drop_last(), items)
    }
}

/// A mount can be traded when its item's first row does not bind.
pub open spec fn item_tradeable(item_id: Option<u32>, items: spec_fn(u32) -> Seq<ItemSparse>) -> bool {
    match item_id {
        Some(i) => items(i).len() > 0 && items(i)[0].bonding == 0,
        None => false,
    }
}

/// The path of a spell's icon file: its first icon row, looked up in the list file.
pub open spec fn icon_path(spell_id: u32, t: MountTables, list_file: Map<i64, String>) -> Option<Seq<char>> {
    let misc = t.spell_misc_db.rows(spell_id);
    if misc.len() > 0 && list_file.contains_key(misc[0].spell_icon_file_id) {
        Some(list_file[misc[0].spell_icon_file_id]@)
    } else {
        None
    }
}

/// The icon of a spell: the name in its icon file's path, or empty.
pub open spec fn icon_of(spell_id: u32, t: MountTables, list_file: Map<i64, String>) -> Seq<char> {
    match icon_path(spell_id, t, list_file) {
        Some(p) => icon_capture(p)->0,
        None => Seq::empty(),
    }
}

/// The restrictions of a player condition row, none without a row.
pub open spec fn conditions_of(rows: Seq<PlayerCondition>) -> Seq<Seq<(ConditionGroup, Seq<char>)>> {
    if rows.len() > 0 {
        spec_parse_conditions(rows[0].race_mask, rows[0].description@, rows[0].class_mask, rows[0].skill_id as i64)
    } else {
        Seq::empty()
    }
}

/// The mount that a mount row describes.
pub open spec fn mount_of(row: dbs::Mount, t: MountTables, list_file: Map<i64, String>) -> MountView {
    let items = t.item_sparse_db.rows_fn();
    let item_id = mount_item(t.item_effects_db.rows(row.spell_id), items);
    MountView {
        id: row.id,
        spell_id: row.spell_id,
        type_id: row.type_id,
        name: row.name@,
        icon: icon_of(row.spell_id, t, list_file),
        item_id,
        item_is_tradeable: item_tradeable(item_id, items),
        player_conditions: conditions_of(t.player_condition_db.rows(row.player_condition_id)),
        source_type: row.source_type,
    }
}

/// The mounts of the rows by id; a later row replaces an earlier one.
pub open spec fn collected_mounts(rows: Seq<dbs::Mount>, t: MountTables, list_file: Map<i64, String>) -> Map<u32, MountView>
    decreases rows.len(),
{
    if rows.len() == 0 {
        Map::empty()
    } else {
        collected_mounts(rows.drop_last(), t, list_file).insert(
            rows.last().id,
            mount_of(rows.last(), t, list_file),
        )
    }
}

/// A collected mount can be traded exactly when it has a teaching item whose
/// first item row does not bind (bonding 0); an item that binds, on pickup or
/// otherwise, makes it untradeable.
pub proof fn law_tradeable_unbound(rows: Seq<dbs::Mount>, t: MountTables, list_file: Map<i64, String>, k: u32)
    requires
        collected_mounts(rows, t, list_file).contains_key(k),
    ensures
        ({
            let m = collected_mounts(rows, t, list_file)[k];
            m.item_is_tradeable <==> (m.item_id matches Some(i) && t.item_sparse_db.rows(i).len() > 0
                && t.item_sparse_db.rows(i)[0].bonding == 0)
        }),
    decreases rows.len(),
{
    if rows.len() > 0 && rows.last().id != k {
        law_tradeable_unbound(rows.drop_last(), t, list_file, k);
    }
}

/// Every icon file path of a mount row names an icon.
pub open spec fn icons_resolvable(rows: Seq<dbs::Mount>, t: MountTables, list_file: Map<i64, String>) -> bool {
    forall|i: int|
        0 <= i < rows.len() && (#[trigger] icon_path(rows[i].spell_id, t, list_file)) is Some
            ==> icon_capture(icon_path(rows[i].spell_id, t, list_file)->0) is Some
}

/// The icon of a spell, none where its icon file path names no icon.
fn find_icon(spell_id: u32, t: &MountTables, list_file: &HashMap<i64, String>) -> (res: Option<String>)
    ensures
        match res {
            Some(s) => icon_path(spell_id, *t, list_file@) is None ==> s@ == Seq::<char>::empty(),
            None => true,
        },
        match icon_path(spell_id, *t, list_file@) {
            Some(p) => match res {
                Some(s) => icon_capture(p) == Some(s@),
                None => icon_capture(p) is None,
            },
            None => res is Some,
        },
{
    let misc = t.spell_misc_db.lookup(&spell_id);
    if misc.len() == 0 {
        return Some(String::new());
    }
    assert(misc@[0] == t.spell_misc_db.rows(spell_id)[0]);
    match list_file.get(&misc[0].spell_icon_file_id) {
        None => Some(String::new()),
        Some(file_path) => capture_icon(file_path.as_str()),
    }
}

/// Whether the icon file path of every mount row names an icon.
pub fn icons_found(mount_db: &Vec<dbs::Mount>, t: &MountTables, list_file: &HashMap<i64, String>) -> (res: bool)
    ensures
        res == icons_resolvable(mount_db@, *t, list_file@),
{
    for i in 0..mount_db.len()
        invariant
            forall|l: int|
                0 <= l < i && (#[trigger] icon_path(mount_db@[l].spell_id, *t, list_file@)) is Some
                    ==> icon_capture(icon_path(mount_db@[l].spell_id, *t, list_file@)->0) is Some,
    {
        if find_icon(mount_db[i].spell_id, t, list_file).is_none() {
            return false;
        }
    }
    true
}


fn find_mount_item(spell_id: u32, t: &MountTables) -> (res: Option<u32>)
    ensures
        res == mount_item(t.item_effects_db.rows(spell_id), t.item_sparse_db.rows_fn()),
{
    let effects = t.item_effects_db.lookup(&spell_id);
    let ghost rows = t.item_effects_db.rows(spell_id);
    let mut item_id: Option<u32> = None;
    for i in 0..effects.len()
        invariant
            effects@.len() == rows.len(),
            forall|l: int| 0 <= l < rows.len() ==> cloned(rows[l], #[trigger] effects@[l]),
            item_id == mount_item(rows.take(i as int), t.item_sparse_db.rows_fn()),
    {
        let effect = effects[i];
        assert(effect == rows[i as int]);
        assert(rows.take(i + 1).drop_last() =~= rows.take(i as int));
        if effect.trigger_type == 6 {
            let items = t.item_sparse_db.lookup(&effect.item_id);
            item_id = if items.len() > 0 {
                Some(items[0].item_id)
            } else {
                None
            };
        }
    }
    assert(rows.take(rows.len() as int) =~= rows);
    item_id
}

fn is_tradeable(item_id: Option<u32>, t: &MountTables) -> (res: bool)
    ensures
        res == item_tradeable(item_id, t.item_sparse_db.rows_fn()),
{
    match item_id {
        Some(i) => {
            let items = t.item_sparse_db.lookup(&i);
            items.len() > 0 && items[0].bonding == 0
        },
        None => false,
    }
}

/// The mounts of one game version, keyed by id: each row with its icon, its
/// teaching item, whether that trades and its player conditions.
pub fn collect_mounts(mount_db: Vec<dbs::Mount>, t: &MountTables, list_file: &HashMap<i64, String>) -> (res:
    BTreeMap<u32, Mount>)
    requires
        icons_resolvable(mount_db@, *t, list_file@),
    ensures
        mounts_view(res@) == collected_mounts(mount_db@, *t, list_file@),
{
    let mut collection: BTreeMap<u32, Mount> = BTreeMap::new();
    assert(mounts_view(collection@) =~= collected_mounts(mount_db@.take(0), *t, list_file@));
    for i in 0..mount_db.len()
        invariant
            icons_resolvable(mount_db@, *t, list_file@),
            mounts_view(collection@) == collected_mounts(mount_db@.take(i as int), *t, list_file@),
    {
        let mount = &mount_db[i];
        let conditions = t.player_condition_db.lookup(&mount.player_condition_id);
        let player_conditions = if conditions.len() == 0 {
            Vec::new()
        } else {
            assert(conditions@[0] == t.player_condition_db.rows(mount.player_condition_id)[0]);
            parse_conditions(
                conditions[0].race_mask,
                conditions[0].description.as_str(),
                conditions[0].class_mask,
                conditions[0].skill_id as i64,
            )
        };
        let item_id = find_mount_item(mount.spell_id, t);
        let item_is_tradeable = is_tradeable(item_id, t);
        assert(icon_path(mount_db@[i as int].spell_id, *t, list_file@) is Some ==> icon_capture(
            icon_path(mount_db@[i as int].spell_id, *t, list_file@)->0,
        ) is Some);
        let icon = find_icon(mount.spell_id, t, list_file).unwrap();
        let m = Mount {
            id: mount.id,
            spell_id: mount.spell_id,
            type_id: mount.type_id,
            name: mount.name.clone(),
            item_id,
            icon,
            item_is_tradeable,
            player_conditions,
            source_type: mount.source_type,
        };
        assert(conditions@.len() == 0 ==> condition_groups_view(m.player_conditions@) =~= Seq::<
            Seq<(ConditionGroup, Seq<char>)>,
        >::empty());
        assert(m@ == mount_of(mount_db@[i as int], *t, list_file@));
        let ghost before = collection@;
        collection.insert(mount.id, m);
        assert(mount_db@.take(i + 1).drop_last() =~= mount_db@.take(i as int));
        assert(mounts_view(collection@) =~= mounts_view(before).insert(mount_db@[i as int].id, mount_of(mount_db@[i as int], *t, list_file@)));
    }
    assert(mount_db@.take(mount_db@.len() as int) =~= mount_db@);
    collection
}


/// Every mount is stored under its own id.
pub open spec fn keyed_by_id(m: Map<u32, MountView>) -> bool {
    forall|k: u32| #[trigger] m.contains_key(k) ==> m[k].id == k
}

/// Collected mounts are stored under their ids and have no empty group of conditions.
pub proof fn lemma_collected_mounts_wf(rows: Seq<dbs::Mount>, t: MountTables, list_file: Map<i64, String>)
    ensures
        keyed_by_id(collected_mounts(rows, t, list_file)),
        groups_nonempty(collected_mounts(rows, t, list_file)),
    decreases rows.len(),
{
    if rows.len() > 0 {
        lemma_collected_mounts_wf(rows.drop_last(), t, list_file);
        let r = rows.last();
        let c = t.player_condition_db.rows(r.player_condition_id);
        if c.len() > 0 {
            lemma_parse_conditions_nonempty(c[0].race_mask, c[0].description@, c[0].class_mask, c[0].skill_id as i64);
        }
        let m = collected_mounts(rows, t, list_file);
        let prev = collected_mounts(rows.drop_last(), t, list_file);
        assert forall|k: u32, i: int|
            m.contains_key(k) && 0 <= i < m[k].player_conditions.len() implies #[trigger] m[k].player_conditions[i].len()
                > 0 by {
            if k != r.id {
                assert(prev[k] == m[k]);
            }
        }
    }
}

/// The tables of one game version that mounts are collected from.
pub struct MountSources {
    pub mount_db: Vec<dbs::Mount>,
    pub tables: MountTables,
}

/// The tables of the current game version that customizations are read from.
pub struct CustomizationSources {
    /// item effects indexed by item
    pub item_effects_db: LookupDB<ItemEffect>,
    pub item_sparse: Vec<ItemSparse>,
    pub spell_effects: Vec<SpellEffect>,
}

/// Why the mount tables could not be written.
#[derive(Debug, Clone, Copy, PartialEq, Eq, Structural)]
pub enum MountsError {
    /// the icon file path of some mount names no icon
    IconNotFound,
    /// an ignored id is not a mount (any more)
    MissingIgnored(u32),
}

/// The mounts of both game versions, the second replacing the first where
/// both have an id.
pub open spec fn all_mounts(classic: MountSources, retail: MountSources, list_file: Map<i64, String>) -> Map<u32, MountView> {
    collected_mounts(classic.mount_db@, classic.tables, list_file).union_prefer_right(
        collected_mounts(retail.mount_db@, retail.tables, list_file),
    )
}

/// Collects the mounts of the classic and the current game version, drops the
/// ignored ones and writes the tradable, restriction, family, customization
/// and color tables under `export_path`, in this order.
pub fn handle_mounts(
    classic: MountSources,
    retail: MountSources,
    list_file: &HashMap<i64, String>,
    ignored: Vec<u32>,
    family_config: &Vec<FamilyCategory>,
    wcm_families: &Vec<(String, String)>,
    customization: CustomizationSources,
    dominant_colors: &HashMap<u32, Vec<Rgb>>,
    export_path: &str,
) -> (res: Result<Vec<LuaFile>, MountsError>)
    ensures
        match res {
            Err(MountsError::IconNotFound) => !icons_resolvable(classic.mount_db@, classic.tables, list_file@)
                || !icons_resolvable(retail.mount_db@, retail.tables, list_file@),
            Err(MountsError::MissingIgnored(id)) => {
                &&& icons_resolvable(classic.mount_db@, classic.tables, list_file@)
                &&& icons_resolvable(retail.mount_db@, retail.tables, list_file@)
                &&& first_missing(all_mounts(classic, retail, list_file@).dom(), ignored@) == Some(id)
            },
            Ok(files) => {
                let m = all_mounts(classic, retail, list_file@).remove_keys(ignored@.to_set());
                let keys = sorted_keys_of(m.dom());
                &&& icons_resolvable(classic.mount_db@, classic.tables, list_file@)
                &&& icons_resolvable(retail.mount_db@, retail.tables, list_file@)
                &&& first_missing(all_mounts(classic, retail, list_file@).dom(), ignored@) is None
                &&& files@.len() == 5
                &&& files@[0].path@ == export_path@ + seq!['/'] + "tradable.db.lua"@
                &&& files@[0].text@ == file_text("DB.Tradable"@, flat_map(keys, tradable_fn(m)))
                &&& files@[1].path@ == export_path@ + seq!['/'] + "restrictions.db.lua"@
                &&& files@[1].text@ == file_text("DB.Restrictions"@, flat_map(keys, conditions_fn(m)))
                &&& files@[2].path@ == export_path@ + seq!['/'] + "families.db.lua"@
                &&& exists|fams: Seq<(String, FamilyNode)>|
                    {
                        &&& families_sorted(fams)
                        &&& named_map(family_entries(fams)) == families_of(
                            keys,
                            m,
                            categories_view(family_config@),
                            string_pair_views(wcm_families@),
                        )
                        &&& files@[2].text@ == file_text("DB.Family"@, flat_map(fams, family_block_fn(m)))
                    }
                &&& files@[3].path@ == export_path@ + seq!['/'] + "customization.db.lua"@
                &&& files@[3].text@ == file_text(
                    "DB.Customization"@,
                    flat_map(
                        keys,
                        customization_fn(
                            m,
                            customizations(
                                keys,
                                m,
                                manuscript_entries(
                                    customization.item_sparse@,
                                    customization.item_effects_db.rows_fn(),
                                    grouped(customization.spell_effects@, SpellEffectBySpell),
                                ),
                            ),
                        ),
                    ),
                )
                &&& files@[4].path@ == export_path@ + seq!['/'] + "colors.db.lua"@
                &&& files@[4].text@ == file_text("DB.Colors"@, flat_map(keys, colors_fn(m, dominant_colors@)))
            },
        },
{
    if !icons_found(&classic.mount_db, &classic.tables, list_file) || !icons_found(
        &retail.mount_db,
        &retail.tables,
        list_file,
    ) {
        return Err(MountsError::IconNotFound);
    }
    let ghost all = all_mounts(classic, retail, list_file@);
    let ghost classic_view = collected_mounts(classic.mount_db@, classic.tables, list_file@);
    let ghost retail_view = collected_mounts(retail.mount_db@, retail.tables, list_file@);
    proof {
        lemma_collected_mounts_wf(classic.mount_db@, classic.tables, list_file@);
        lemma_collected_mounts_wf(retail.mount_db@, retail.tables, list_file@);
    }
    let mut mounts = collect_mounts(classic.mount_db, &classic.tables, list_file);
    let retail_mounts = collect_mounts(retail.mount_db, &retail.tables, list_file);
    let ghost before_merge = mounts@;
    let ghost retail_map = retail_mounts@;
    merge_maps(&mut mounts, retail_mounts);
    proof {
        assert(mounts_view(mounts@) =~= all) by {
            assert forall|k: u32| #[trigger] mounts_view(mounts@).contains_key(k) implies mounts_view(mounts@)[k]
                == all[k] by {
                if retail_map.contains_key(k) {
                    assert(retail_view.contains_key(k));
                } else {
                    assert(before_merge.contains_key(k));
                }
            }
        }
    }
    let ghost merged = mounts@;
    match remove_ignored(&mut mounts, &ignored) {
        Err(id) => {
            assert(merged.dom() =~= all.dom());
            return Err(MountsError::MissingIgnored(id));
        },
        Ok(()) => {},
    }
    assert(merged.dom() =~= all.dom());
    let ghost m = all.remove_keys(ignored@.to_set());
    assert(mounts_view(mounts@) =~= m);
    assert(mounts@.dom() =~= m.dom());
    proof {
        assert forall|k: u32| #[trigger] m.contains_key(k) implies m[k].id == k by {
            if retail_view.contains_key(k) {
            } else {
                assert(classic_view.contains_key(k));
            }
        }
        assert forall|k: u32, i: int| m.contains_key(k) && 0 <= i < m[k].player_conditions.len() implies #[trigger] m[k].player_conditions[i].len()
            > 0 by {
            if retail_view.contains_key(k) {
                assert(retail_view[k] == m[k]);
            } else {
                assert(classic_view[k] == m[k]);
            }
        }
    }
    let exporter = Exporter::new(export_path);
    let mut files: Vec<LuaFile> = Vec::new();
    files.push(exporter.export_tradable(&mounts));
    files.push(exporter.export_conditions(&mounts));
    let families = group_by_families(&mounts, family_config, wcm_families);
    proof {
        let keys = sorted_keys_of(m.dom());
        crate::tools::maps::lemma_sorted_keys_of(m.dom());
        assert forall|i: int| 0 <= i < keys.len() implies #[trigger] m.contains_key(keys[i]) by {
            assert(keys.to_set().contains(keys[i]));
        }
        lemma_families_of_in(keys, m, categories_view(family_config@), string_pair_views(wcm_families@));
        lemma_families_known(families@, m);
    }
    files.push(exporter.export_families(&mounts, &families));
    let customs = collect_customization(
        &mounts,
        &customization.item_effects_db,
        customization.item_sparse,
        customization.spell_effects,
    );
    files.push(exporter.export_customization(&mounts, &customs));
    files.push(exporter.export_colors(&mounts, dominant_colors));
    Ok(files)
}

} // verus!
