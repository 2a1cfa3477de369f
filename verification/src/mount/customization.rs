//! How mounts are customized: the quests and achievements that unlock their looks.
use std::collections::{BTreeMap, HashMap};
use vstd::prelude::*;

use crate::mount::{mounts_view, Mount, MountView};
use crate::tools::db_reader::{grouped, LookupDB, RowKey};
use crate::tools::dbs::{ItemEffect, ItemSparse, SpellEffect};
use crate::tools::maps::{sorted_keys, sorted_keys_of, sorted_unique};
use crate::tools::seqs::{flat_map, lemma_flat_map_take, lemma_take_all};
use crate::tools::text::{chars_of, replace_all, replaced, string_of};

verus! {

broadcast use {
    vstd::std_specs::btree::group_btree_axioms,
    vstd::laws_cmp::group_laws_cmp,
    vstd::std_specs::hash::group_hash_axioms,
};

/// Where a customization is unlocked.
#[derive(PartialEq, Eq, Structural, Clone, Copy, Debug)]
pub enum CustomizationSource {
    Achievement,
    Quest,
}

impl CustomizationSource {
    pub open spec fn spec_to_str(self) -> Seq<char> {
        match self {
            CustomizationSource::Quest => "quest"@,
            CustomizationSource::Achievement => "achievement"@,
        }
    }

    pub fn to_str(&self) -> (res: &'static str)
        ensures
            res@ == self.spec_to_str(),
    {
        match self {
            CustomizationSource::Quest => "quest",
            CustomizationSource::Achievement => "achievement",
        }
    }
}

/// The ids that unlock a mount's customizations, per source, the
/// achievements before the quests.
pub struct Customization {
    pub achievement: Option<Vec<u32>>,
    pub quest: Option<Vec<u32>>,
}

pub ghost struct CustomizationView {
    pub achievement: Option<Seq<u32>>,
    pub quest: Option<Seq<u32>>,
}

pub open spec fn ids_view(v: Option<Vec<u32>>) -> Option<Seq<u32>> {
    match v {
        Some(ids) => Some(ids@),
        None => None,
    }
}

impl View for Customization {
    type V = CustomizationView;

    open spec fn view(&self) -> CustomizationView {
        CustomizationView { achievement: ids_view(self.achievement), quest: ids_view(self.quest) }
    }
}

/// The customizations of a map as plain values.
pub open spec fn customizations_view(m: Map<u32, Customization>) -> Map<u32, CustomizationView> {
    m.map_values(|c: Customization| c@)
}

/// Groups spell effects by their spell.
pub struct SpellEffectBySpell;

impl RowKey<SpellEffect> for SpellEffectBySpell {
    open spec fn key(&self, row: SpellEffect) -> u32 {
        row.spell_id
    }

    fn key_of(&self, row: &SpellEffect) -> (k: u32) {
        row.spell_id
    }
}

/// Item descriptions of the schematics that unlock a mount's looks:
/// Drakewatcher Manuscripts and the airship schematic of Delver's Dirigible.
pub open spec fn is_schematic_description(id: u32) -> bool {
    id == 13926 || id == 14163
}

/// The text before the first `c`, all of it without one.
pub open spec fn before_char(s: Seq<char>, c: char) -> Seq<char>
    decreases s.len(),
{
    if s.len() == 0 {
        s
    } else if s[0] == c {
        Seq::empty()
    } else {
        seq![s[0]] + before_char(s.drop_first(), c)
    }
}

/// The mount that a schematic item is named after: the name before the first
/// colon, without " Schematic".
pub open spec fn schematic_mount_name(item_name: Seq<char>) -> Seq<char> {
    replaced(before_char(item_name, ':'), " Schematic"@, Seq::empty())
}

/// The quest that a spell effect completes (effect 16), if it is one.
pub open spec fn quest_entry_fn(name: Seq<char>) -> spec_fn(SpellEffect) -> Seq<(Seq<char>, u32)> {
    |x: SpellEffect|
        if x.effect == 16 {
            seq![(name, x.effect_misc_value as u32)]
        } else {
            Seq::empty()
        }
}

pub open spec fn item_effect_entries_fn(
    name: Seq<char>,
    spell_effects: spec_fn(u32) -> Seq<SpellEffect>,
) -> spec_fn(ItemEffect) -> Seq<(Seq<char>, u32)> {
    |e: ItemEffect| flat_map(spell_effects(e.spell_id as u32), quest_entry_fn(name))
}

pub open spec fn schematic_entries_fn(
    item_effects: spec_fn(u32) -> Seq<ItemEffect>,
    spell_effects: spec_fn(u32) -> Seq<SpellEffect>,
) -> spec_fn(ItemSparse) -> Seq<(Seq<char>, u32)> {
    |s: ItemSparse|
        if is_schematic_description(s.description_id) {
            flat_map(
                item_effects(s.item_id),
                item_effect_entries_fn(schematic_mount_name(s.display_text@), spell_effects),
            )
        } else {
            Seq::empty()
        }
}

/// Every (mount name, quest) pair that a schematic item completes, in item order.
pub open spec fn manuscript_entries(
    items: Seq<ItemSparse>,
    item_effects: spec_fn(u32) -> Seq<ItemEffect>,
    spell_effects: spec_fn(u32) -> Seq<SpellEffect>,
) -> Seq<(Seq<char>, u32)> {
    flat_map(items, schematic_entries_fn(item_effects, spell_effects))
}

/// The quests of the schematics named after a mount.
pub open spec fn quests_for(entries: Seq<(Seq<char>, u32)>, name: Seq<char>) -> Seq<u32> {
    entries.filter(|p: (Seq<char>, u32)| p.0 == name).map_values(|p: (Seq<char>, u32)| p.1)
}

/// The customization of the X-995 Mechanocat.
pub open spec fn mechanocat() -> CustomizationView {
    CustomizationView {
        achievement: Some(seq![13513u32]),
        quest: Some(seq![55451u32, 55452, 55454, 55455, 55456, 55457, 55517]),
    }
}

/// One mount's step: dragonriding mounts named by schematics get their
/// quests, sorted and without duplicates; the Mechanocat gets its fixed list.
pub open spec fn customization_step(
    r: Map<u32, CustomizationView>,
    m: MountView,
    entries: Seq<(Seq<char>, u32)>,
) -> Map<u32, CustomizationView> {
    let quests = quests_for(entries, m.name);
    let r1 = if m.type_id == 402 && quests.len() > 0 {
        r.insert(
            m.id,
            CustomizationView {
                achievement: if r.contains_key(m.id) {
                    r[m.id].achievement
                } else {
                    None
                },
                quest: Some(sorted_keys_of(quests.to_set())),
            },
        )
    } else {
        r
    };
    if m.id == 1239 {
        r1.insert(m.id, mechanocat())
    } else {
        r1
    }
}

/// The customizations of the mounts under `keys`, taken in order.
pub open spec fn customizations(
    keys: Seq<u32>,
    mounts: Map<u32, MountView>,
    entries: Seq<(Seq<char>, u32)>,
) -> Map<u32, CustomizationView>
    decreases keys.len(),
{
    if keys.len() == 0 {
        Map::empty()
    } else {
        customization_step(customizations(keys.drop_last(), mounts, entries), mounts[keys.last()], entries)
    }
}

/// The plain values of (name, quest) entries.
pub open spec fn entry_views(v: Seq<(String, u32)>) -> Seq<(Seq<char>, u32)> {
    v.map_values(|p: (String, u32)| (p.0@, p.1))
}

proof fn lemma_entry_views_push(v: Seq<(String, u32)>, x: (String, u32))
    ensures
        entry_views(v.push(x)) == entry_views(v).push((x.0@, x.1)),
{
    assert(entry_views(v.push(x)) =~= entry_views(v).push((x.0@, x.1)));
}

fn before_colon(s: &str) -> (res: String)
    ensures
        res@ == before_char(s@, ':'),
{
    let cs = chars_of(s);
    let mut i: usize = 0;
    assert(cs@.skip(0) =~= cs@);
    assert(cs@.take(0) + before_char(cs@, ':') =~= before_char(cs@, ':'));
    while i < cs.len() && cs[i] != ':'
        invariant
            cs@ == s@,
            i <= cs@.len(),
            forall|l: int| 0 <= l < i ==> cs@[l] != ':',
            before_char(s@, ':') == cs@.take(i as int) + before_char(cs@.skip(i as int), ':'),
        decreases cs@.len() - i,
    {
        assert(cs@.skip(i as int).drop_first() =~= cs@.skip(i + 1));
        assert(cs@.take(i + 1) =~= cs@.take(i as int) + seq![cs@[i as int]]);
        i = i + 1;
    }
    assert(before_char(cs@.skip(i as int), ':') =~= Seq::<char>::empty());
    let mut prefix: Vec<char> = Vec::new();
    for j in 0..i
        invariant
            i <= cs@.len(),
            prefix@ == cs@.take(j as int),
    {
        prefix.push(cs[j]);
        assert(prefix@ =~= cs@.take(j + 1));
    }
    assert(cs@.take(i as int) + Seq::<char>::empty() =~= cs@.take(i as int));
    string_of(&prefix)
}

fn schematic_name(item_name: &str) -> (res: String)
    ensures
        res@ == schematic_mount_name(item_name@),
{
    let prefix = before_colon(item_name);
    proof {
        reveal_strlit(" Schematic");
        reveal_strlit("");
    }
    assert(""@ =~= Seq::<char>::empty());
    replace_all(prefix.as_str(), " Schematic", "")
}

fn collect_manuscripts(
    item_sparse_db: &Vec<ItemSparse>,
    item_effects_db: &LookupDB<ItemEffect>,
    spell_effect_db: &LookupDB<SpellEffect>,
) -> (res: Vec<(String, u32)>)
    ensures
        entry_views(res@) == manuscript_entries(
            item_sparse_db@,
            item_effects_db.rows_fn(),
            spell_effect_db.rows_fn(),
        ),
{
    let ghost fx = item_effects_db.rows_fn();
    let ghost se = spell_effect_db.rows_fn();
    let ghost f = schematic_entries_fn(fx, se);
    let mut result: Vec<(String, u32)> = Vec::new();
    for i in 0..item_sparse_db.len()
        invariant
            fx == item_effects_db.rows_fn(),
            se == spell_effect_db.rows_fn(),
            f == schematic_entries_fn(fx, se),
            entry_views(result@) == flat_map(item_sparse_db@.take(i as int), f),
    {
        let item_sparse = &item_sparse_db[i];
        proof {
            lemma_flat_map_take(item_sparse_db@, f, i as int);
        }
        let ghost before = entry_views(result@);
        if item_sparse.description_id == 13926 || item_sparse.description_id == 14163 {
            let mount_name = schematic_name(item_sparse.display_text.as_str());
            let ghost g = item_effect_entries_fn(mount_name@, se);
            let item_effects = item_effects_db.lookup(&item_sparse.item_id);
            let ghost fx_rows = fx(item_sparse.item_id);
            for j in 0..item_effects.len()
                invariant
                    item_effects@.len() == fx_rows.len(),
                    forall|l: int| 0 <= l < fx_rows.len() ==> cloned(fx_rows[l], #[trigger] item_effects@[l]),
                    se == spell_effect_db.rows_fn(),
                    g == item_effect_entries_fn(mount_name@, se),
                    entry_views(result@) == before + flat_map(fx_rows.take(j as int), g),
            {
                let item_effect = item_effects[j];
                assert(item_effect == fx_rows[j as int]);
                proof {
                    lemma_flat_map_take(fx_rows, g, j as int);
                }
                let ghost before_effect = entry_views(result@);
                let ghost h = quest_entry_fn(mount_name@);
                let spell_effects = spell_effect_db.lookup(&(item_effect.spell_id as u32));
                let ghost se_rows = se(item_effect.spell_id as u32);
                for l in 0..spell_effects.len()
                    invariant
                        spell_effects@.len() == se_rows.len(),
                        forall|m: int| 0 <= m < se_rows.len() ==> cloned(se_rows[m], #[trigger] spell_effects@[m]),
                        h == quest_entry_fn(mount_name@),
                        entry_views(result@) == before_effect + flat_map(se_rows.take(l as int), h),
                {
                    let spell_effect = spell_effects[l];
                    assert(spell_effect == se_rows[l as int]);
                    proof {
                        lemma_flat_map_take(se_rows, h, l as int);
                    }
                    let ghost prev = result@;
                    if spell_effect.effect == 16 {
                        // is Effect = QUEST_COMPLETE ?
                        let entry = (mount_name.clone(), spell_effect.effect_misc_value as u32);
                        proof {
                            lemma_entry_views_push(prev, entry);
                        }
                        result.push(entry);
                    }
                    assert(entry_views(result@) =~= before_effect + flat_map(
                        se_rows.take(l + 1),
                        h,
                    )) by {
                        assert(entry_views(prev) == before_effect + flat_map(se_rows.take(l as int), h));
                    }
                }
                proof {
                    lemma_take_all(se_rows);
                }
                assert(entry_views(result@) =~= before + flat_map(fx_rows.take(j + 1), g));
            }
            proof {
                lemma_take_all(fx_rows);
            }
        }
        assert(entry_views(result@) =~= flat_map(item_sparse_db@.take(i + 1), f));
    }
    proof {
        lemma_take_all(item_sparse_db@);
    }
    result
}


proof fn lemma_quests_push(entries: Seq<(Seq<char>, u32)>, e: (Seq<char>, u32), name: Seq<char>)
    ensures
        quests_for(entries.push(e), name) == (if e.0 == name {
            quests_for(entries, name).push(e.1)
        } else {
            quests_for(entries, name)
        }),
{
    reveal_with_fuel(Seq::filter, 1);
    assert(entries.push(e).drop_last() =~= entries);
    let f = |p: (Seq<char>, u32)| p.0 == name;
    if e.0 == name {
        assert(entries.push(e).filter(f) == entries.filter(f).push(e));
        assert(entries.filter(f).push(e).map_values(|p: (Seq<char>, u32)| p.1) =~= entries.filter(f).map_values(
            |p: (Seq<char>, u32)| p.1,
        ).push(e.1));
    }
}

fn quests_of(entries: &Vec<(String, u32)>, name: &String) -> (res: Vec<u32>)
    ensures
        res@ == quests_for(entry_views(entries@), name@),
{
    let mut res: Vec<u32> = Vec::new();
    assert(entry_views(entries@).take(0) =~= Seq::<(Seq<char>, u32)>::empty());
    assert(quests_for(Seq::<(Seq<char>, u32)>::empty(), name@) =~= Seq::<u32>::empty());
    for i in 0..entries.len()
        invariant
            res@ == quests_for(entry_views(entries@).take(i as int), name@),
    {
        let ghost ev = entry_views(entries@);
        assert(ev.take(i + 1) =~= ev.take(i as int).push(ev[i as int]));
        proof {
            lemma_quests_push(ev.take(i as int), ev[i as int], name@);
        }
        if entries[i].0 == *name {
            res.push(entries[i].1);
        }
    }
    assert(entry_views(entries@).take(entries@.len() as int) =~= entry_views(entries@));
    res
}

fn mechanocat_customization() -> (res: Customization)
    ensures
        res@ == mechanocat(),
{
    let mut achievement: Vec<u32> = Vec::new();
    achievement.push(13513);
    let mut quest: Vec<u32> = Vec::new();
    quest.push(55451);
    quest.push(55452);
    quest.push(55454);
    quest.push(55455);
    quest.push(55456);
    quest.push(55457);
    quest.push(55517);
    let res = Customization { achievement: Some(achievement), quest: Some(quest) };
    assert(res@.achievement->0 =~= seq![13513u32]);
    assert(res@.quest->0 =~= seq![55451u32, 55452, 55454, 55455, 55456, 55457, 55517]);
    res
}

/// The customizations of the mounts: the quests of the schematics named after
/// each dragonriding mount, and the fixed list of the X-995 Mechanocat.
pub fn collect_customization(
    mounts: &BTreeMap<u32, Mount>,
    item_effects_db: &LookupDB<ItemEffect>,
    item_sparse_db: Vec<ItemSparse>,
    spell_effects: Vec<SpellEffect>,
) -> (res: HashMap<u32, Customization>)
    ensures
        customizations_view(res@) == customizations(
            sorted_keys_of(mounts@.dom()),
            mounts_view(mounts@),
            manuscript_entries(item_sparse_db@, item_effects_db.rows_fn(), grouped(spell_effects@, SpellEffectBySpell)),
        ),
{
    let spell_effect_db = LookupDB::new_from_data(spell_effects, SpellEffectBySpell);
    let entries = collect_manuscripts(&item_sparse_db, item_effects_db, &spell_effect_db);
    let ghost ev = entry_views(entries@);
    let ghost mv = mounts_view(mounts@);
    let mut result: HashMap<u32, Customization> = HashMap::new();
    let keys = sorted_keys(mounts);
    assert(customizations_view(result@) =~= customizations(keys@.take(0), mv, ev));
    for i in 0..keys.len()
        invariant
            keys@.to_set() == mounts@.dom(),
            mv == mounts_view(mounts@),
            ev == entry_views(entries@),
            customizations_view(result@) == customizations(keys@.take(i as int), mv, ev),
    {
        let k = keys[i];
        assert(keys@.to_set().contains(k));
        assert(keys@.take(i + 1).drop_last() =~= keys@.take(i as int));
        let mount = mounts.get(&k).unwrap();
        assert(mv[k] == mount@);
        let ghost r = customizations_view(result@);
        let quests = quests_of(&entries, &mount.name);
        if mount.type_id == 402 && quests.len() > 0 {
            let existing = result.remove(&mount.id);
            let achievement = match existing {
                Some(c) => c.achievement,
                None => None,
            };
            let sorted = sorted_unique(&quests);
            result.insert(mount.id, Customization { achievement, quest: Some(sorted) });
        }
        let ghost r1 = customizations_view(result@);
        if mount.id == 1239 {
            // X-995 Mechanocat
            result.insert(mount.id, mechanocat_customization());
        }
        assert(customizations_view(result@) =~= customization_step(r, mv[k], ev));
    }
    assert(keys@.take(keys@.len() as int) =~= keys@);
    result
}

} // verus!
