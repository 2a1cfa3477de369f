//! The mount tables of the addon.
use std::collections::{BTreeMap, HashMap};
use vstd::prelude::*;

use crate::mount::condition::{Condition, ConditionGroup};
use crate::mount::customization::{Customization, CustomizationSource, CustomizationView};
use crate::mount::family::{sub_entries, FamilyNode};
use crate::mount::{mounts_view, Mount, MountView};
use crate::tools::lua_export::{
    category_line, entry_line, header_text, join, lemma_join_take, lemma_str_views_push, line, str_views, sublist, value_line,
    LuaFile,
};
use crate::tools::maps::{lemma_sort_seq_members, sort_ids, sort_seq, sorted_keys, sorted_keys_of};
use crate::tools::seqs::{flat_map, lemma_flat_map_take, lemma_take_all};
use crate::tools::text::{decimal, push_char, push_decimal, push_str, string_from, u64_to_string};

verus! {

broadcast use {
    vstd::std_specs::btree::group_btree_axioms,
    vstd::laws_cmp::group_laws_cmp,
    vstd::std_specs::hash::group_hash_axioms,
};

/// A color as red, green and blue bytes.
#[derive(Clone, Copy, Debug, PartialEq, Eq, Structural)]
pub struct Rgb {
    pub red: u8,
    pub green: u8,
    pub blue: u8,
}

/// Writes the mount tables under one directory.
pub struct Exporter {
    pub base_path: String,
}

/// A table file: its header, its body and the closing line.
pub open spec fn file_text(variable: Seq<char>, body: Seq<char>) -> Seq<char> {
    header_text(variable) + body + line("}"@)
}

pub open spec fn tradable_fn(mounts: Map<u32, MountView>) -> spec_fn(u32) -> Seq<char> {
    |k: u32|
        if mounts[k].item_is_tradeable {
            entry_line(k, mounts[k].name)
        } else {
            Seq::empty()
        }
}

/// The exported values of a group of conditions.
pub open spec fn condition_values(g: Seq<(ConditionGroup, Seq<char>)>) -> Seq<Seq<char>> {
    g.map_values(|c: (ConditionGroup, Seq<char>)| c.1)
}

pub open spec fn group_sublist_fn() -> spec_fn(Seq<(ConditionGroup, Seq<char>)>) -> Seq<char> {
    |g: Seq<(ConditionGroup, Seq<char>)>| sublist(g[0].0.spec_as_str(), condition_values(g))
}

/// The restrictions of a mount: one keyed list per group.
pub open spec fn conditions_value(groups: Seq<Seq<(ConditionGroup, Seq<char>)>>) -> Seq<char> {
    "{"@ + flat_map(groups, group_sublist_fn()) + " }"@
}

pub open spec fn conditions_fn(mounts: Map<u32, MountView>) -> spec_fn(u32) -> Seq<char> {
    |k: u32|
        if mounts[k].player_conditions.len() > 0 {
            value_line(k, mounts[k].name, conditions_value(mounts[k].player_conditions))
        } else {
            Seq::empty()
        }
}

/// No group of conditions is empty.
pub open spec fn groups_nonempty(mounts: Map<u32, MountView>) -> bool {
    forall|k: u32, i: int|
        mounts.contains_key(k) && 0 <= i < mounts[k].player_conditions.len()
            ==> #[trigger] mounts[k].player_conditions[i].len() > 0
}

/// A line per mount id, with the mount's name.
pub open spec fn id_line_fn(mounts: Map<u32, MountView>) -> spec_fn(u32) -> Seq<char> {
    |id: u32| entry_line(id, mounts[id].name)
}

pub open spec fn id_lines(ids: Seq<u32>, mounts: Map<u32, MountView>) -> Seq<char> {
    flat_map(sort_seq(ids), id_line_fn(mounts))
}

pub open spec fn sub_block_fn(mounts: Map<u32, MountView>) -> spec_fn((Seq<char>, Seq<u32>)) -> Seq<char> {
    |e: (Seq<char>, Seq<u32>)| category_line(e.0) + id_lines(e.1, mounts) + line("},"@)
}

/// A family: its name, its mounts in id order, its subfamilies the same way.
pub open spec fn family_block_fn(mounts: Map<u32, MountView>) -> spec_fn((String, FamilyNode)) -> Seq<char> {
    |e: (String, FamilyNode)|
        category_line(e.0@) + id_lines(e.1.mount_ids@, mounts) + flat_map(
            sub_entries(e.1.sub_nodes@),
            sub_block_fn(mounts),
        ) + line("},"@)
}

/// Every id is that of one of the mounts.
pub open spec fn ids_known(ids: Seq<u32>, mounts: Map<u32, MountView>) -> bool {
    forall|j: int| 0 <= j < ids.len() ==> mounts.contains_key(#[trigger] ids[j])
}

/// Every mount of a family and of its subfamilies is one of the mounts.
pub open spec fn node_known(node: FamilyNode, mounts: Map<u32, MountView>) -> bool {
    &&& ids_known(node.mount_ids@, mounts)
    &&& forall|j: int| 0 <= j < node.sub_nodes@.len() ==> ids_known(#[trigger] node.sub_nodes@[j].1@, mounts)
}

/// Every mount of the families is one of the mounts.
pub open spec fn families_known(families: Seq<(String, FamilyNode)>, mounts: Map<u32, MountView>) -> bool {
    forall|i: int| 0 <= i < families.len() ==> node_known(#[trigger] families[i].1, mounts)
}

pub open spec fn rgb_text(c: Rgb) -> Seq<char> {
    seq!['{'] + decimal(c.red as nat) + seq![','] + decimal(c.green as nat) + seq![','] + decimal(
        c.blue as nat,
    ) + seq!['}']
}

/// The dominant colors of a mount.
pub open spec fn colors_value(colors: Seq<Rgb>) -> Seq<char> {
    "{ "@ + join(colors.map_values(|c: Rgb| rgb_text(c)), ", "@) + ", }"@
}

pub open spec fn colors_fn(mounts: Map<u32, MountView>, colors: Map<u32, Vec<Rgb>>) -> spec_fn(u32) -> Seq<char> {
    |k: u32|
        if colors.contains_key(mounts[k].id) {
            value_line(mounts[k].id, mounts[k].name, colors_value(colors[mounts[k].id]@))
        } else {
            Seq::empty()
        }
}

pub open spec fn id_texts(ids: Seq<u32>) -> Seq<Seq<char>> {
    ids.map_values(|id: u32| decimal(id as nat))
}

/// The keyed list of one source, and a line break; nothing without the source.
pub open spec fn source_text(key: Seq<char>, ids: Option<Seq<u32>>) -> Seq<char> {
    match ids {
        Some(v) => sublist(key, id_texts(v)) + seq!['\n'],
        None => Seq::empty(),
    }
}

/// The customization of a mount: achievements, then quests.
pub open spec fn customization_value(c: CustomizationView) -> Seq<char> {
    "{\n"@ + source_text("achievement"@, c.achievement) + source_text("quest"@, c.quest) + " }"@
}

pub open spec fn customization_fn(
    mounts: Map<u32, MountView>,
    customs: Map<u32, CustomizationView>,
) -> spec_fn(u32) -> Seq<char> {
    |k: u32|
        if customs.contains_key(mounts[k].id) {
            value_line(mounts[k].id, mounts[k].name, customization_value(customs[mounts[k].id]))
        } else {
            Seq::empty()
        }
}

fn format_conditions(lua: &LuaFile, groups: &Vec<Vec<Condition>>) -> (res: String)
    requires
        forall|i: int| 0 <= i < groups@.len() ==> (#[trigger] groups@[i])@.len() > 0,
    ensures
        res@ == conditions_value(crate::mount::condition::condition_groups_view(groups@)),
{
    let ghost gv = crate::mount::condition::condition_groups_view(groups@);
    let mut values = string_from("{");
    let ghost start = values@;
    for i in 0..groups.len()
        invariant
            gv == crate::mount::condition::condition_groups_view(groups@),
            forall|i: int| 0 <= i < groups@.len() ==> (#[trigger] groups@[i])@.len() > 0,
            values@ == start + flat_map(gv.take(i as int), group_sublist_fn()),
    {
        proof {
            lemma_flat_map_take(gv, group_sublist_fn(), i as int);
        }
        let condition_group = &groups[i];
        let group = condition_group[0].group.as_str();
        let mut vals: Vec<&str> = Vec::new();
        for j in 0..condition_group.len()
            invariant
                str_views(vals@) == condition_values(gv[i as int]).take(j as int),
                gv == crate::mount::condition::condition_groups_view(groups@),
                condition_group == groups@[i as int],
                0 <= i < groups@.len(),
                j <= condition_group@.len(),
        {
            let v = condition_group[j].value.as_str();
            proof {
                lemma_str_views_push(vals@, v);
            }
            vals.push(v);
            assert(str_views(vals@) =~= condition_values(gv[i as int]).take(j + 1));
        }
        assert(condition_values(gv[i as int]).take(condition_group@.len() as int) =~= condition_values(gv[i as int]));
        let row = lua.format_sublist(group, vals);
        push_str(&mut values, row.as_str());
        assert(values@ =~= start + flat_map(gv.take(i + 1), group_sublist_fn()));
    }
    proof {
        lemma_take_all(gv);
    }
    push_str(&mut values, " }");
    values
}

fn format_colors(colors: &Vec<Rgb>) -> (res: String)
    ensures
        res@ == colors_value(colors@),
{
    let ghost texts = colors@.map_values(|c: Rgb| rgb_text(c));
    let mut joined = String::new();
    for i in 0..colors.len()
        invariant
            texts == colors@.map_values(|c: Rgb| rgb_text(c)),
            joined@ == join(texts.take(i as int), ", "@),
    {
        proof {
            lemma_join_take(texts, ", "@, i as int);
        }
        if i > 0 {
            push_str(&mut joined, ", ");
        }
        let c = colors[i];
        push_char(&mut joined, '{');
        push_decimal(&mut joined, c.red as u64);
        push_char(&mut joined, ',');
        push_decimal(&mut joined, c.green as u64);
        push_char(&mut joined, ',');
        push_decimal(&mut joined, c.blue as u64);
        push_char(&mut joined, '}');
        assert(joined@ =~= join(texts.take(i + 1), ", "@));
    }
    assert(texts.take(texts.len() as int) =~= texts);
    let mut res = string_from("{ ");
    push_str(&mut res, joined.as_str());
    push_str(&mut res, ", }");
    res
}

fn format_source(lua: &LuaFile, source: CustomizationSource, ids: &Vec<u32>) -> (res: String)
    ensures
        res@ == sublist(source.spec_to_str(), id_texts(ids@)) + seq!['\n'],
{
    let mut texts: Vec<String> = Vec::new();
    for i in 0..ids.len()
        invariant
            texts@.len() == i,
            forall|l: int| 0 <= l < i ==> #[trigger] texts@[l]@ == decimal(ids@[l] as nat),
    {
        texts.push(u64_to_string(ids[i] as u64));
    }
    let mut vals: Vec<&str> = Vec::new();
    for i in 0..texts.len()
        invariant
            str_views(vals@) == id_texts(ids@).take(i as int),
            texts@.len() == ids@.len(),
            forall|l: int| 0 <= l < texts@.len() ==> #[trigger] texts@[l]@ == decimal(ids@[l] as nat),
    {
        let v = texts[i].as_str();
        proof {
            lemma_str_views_push(vals@, v);
        }
        vals.push(v);
        assert(str_views(vals@) =~= id_texts(ids@).take(i + 1));
    }
    assert(id_texts(ids@).take(ids@.len() as int) =~= id_texts(ids@));
    let mut row = lua.format_sublist(source.to_str(), vals);
    push_char(&mut row, '\n');
    row
}

fn format_customization(lua: &LuaFile, c: &Customization) -> (res: String)
    ensures
        res@ == customization_value(c@),
{
    let mut values = string_from("{\n");
    match &c.achievement {
        Some(ids) => {
            let s = format_source(lua, CustomizationSource::Achievement, ids);
            push_str(&mut values, s.as_str());
        },
        None => {},
    }
    match &c.quest {
        Some(ids) => {
            let s = format_source(lua, CustomizationSource::Quest, ids);
            push_str(&mut values, s.as_str());
        },
        None => {},
    }
    push_str(&mut values, " }");
    proof {
        reveal_strlit("{\n");
    }
    assert(values@ =~= customization_value(c@));
    values
}

impl Exporter {
    pub fn new(file_path: &str) -> (res: Self)
        ensures
            res.base_path@ == file_path@,
    {
        Self { base_path: string_from(file_path) }
    }

    /// The path of a file of the table directory.
    pub open spec fn path_of(&self, file_name: Seq<char>) -> Seq<char> {
        self.base_path@ + seq!['/'] + file_name
    }

    fn open_file(&self, file_name: &str, variable: &str) -> (res: LuaFile)
        ensures
            res.path@ == self.path_of(file_name@),
            res.text@ == header_text(variable@),
    {
        let mut file_path = string_from(self.base_path.as_str());
        push_char(&mut file_path, '/');
        push_str(&mut file_path, file_name);
        LuaFile::new(file_path, variable)
    }

    /// The tradable mounts, `[id] = true`.
    pub fn export_tradable(&self, mounts: &BTreeMap<u32, Mount>) -> (res: LuaFile)
        ensures
            res.path@ == self.path_of("tradable.db.lua"@),
            res.text@ == file_text(
                "DB.Tradable"@,
                flat_map(sorted_keys_of(mounts@.dom()), tradable_fn(mounts_view(mounts@))),
            ),
    {
        let mut lua = self.open_file("tradable.db.lua", "DB.Tradable");
        let ghost start = lua.text@;
        let ghost mv = mounts_view(mounts@);
        let keys = sorted_keys(mounts);
        for i in 0..keys.len()
            invariant
                lua.path@ == self.path_of("tradable.db.lua"@),
                keys@.to_set() == mounts@.dom(),
                mv == mounts_view(mounts@),
                lua.text@ == start + flat_map(keys@.take(i as int), tradable_fn(mv)),
        {
            let k = keys[i];
            assert(keys@.to_set().contains(k));
            proof {
                lemma_flat_map_take(keys@, tradable_fn(mv), i as int);
            }
            let mount = mounts.get(&k).unwrap();
            assert(mv[k] == mount@);
            if mount.item_is_tradeable {
                lua.add_line(&k, &mount.name);
            }
            assert(lua.text@ =~= start + flat_map(keys@.take(i + 1), tradable_fn(mv)));
        }
        proof {
            lemma_take_all(keys@);
        }
        lua.close();
        lua
    }

    /// The restrictions of every mount that has some.
    pub fn export_conditions(&self, mounts: &BTreeMap<u32, Mount>) -> (res: LuaFile)
        requires
            groups_nonempty(mounts_view(mounts@)),
        ensures
            res.path@ == self.path_of("restrictions.db.lua"@),
            res.text@ == file_text(
                "DB.Restrictions"@,
                flat_map(sorted_keys_of(mounts@.dom()), conditions_fn(mounts_view(mounts@))),
            ),
    {
        let mut lua = self.open_file("restrictions.db.lua", "DB.Restrictions");
        let ghost start = lua.text@;
        let ghost mv = mounts_view(mounts@);
        let keys = sorted_keys(mounts);
        for i in 0..keys.len()
            invariant
                lua.path@ == self.path_of("restrictions.db.lua"@),
                keys@.to_set() == mounts@.dom(),
                mv == mounts_view(mounts@),
                groups_nonempty(mv),
                lua.text@ == start + flat_map(keys@.take(i as int), conditions_fn(mv)),
        {
            let k = keys[i];
            assert(keys@.to_set().contains(k));
            proof {
                lemma_flat_map_take(keys@, conditions_fn(mv), i as int);
            }
            let mount = mounts.get(&k).unwrap();
            assert(mv[k] == mount@);
            if mount.player_conditions.len() > 0 {
                assert forall|j: int| 0 <= j < mount.player_conditions@.len() implies (
                #[trigger] mount.player_conditions@[j])@.len() > 0 by {
                    assert(mv[k].player_conditions[j].len() > 0);
                }
                let values = format_conditions(&lua, &mount.player_conditions);
                lua.add_line_with_value(&k, &mount.name, values);
            }
            assert(lua.text@ =~= start + flat_map(keys@.take(i + 1), conditions_fn(mv)));
        }
        proof {
            lemma_take_all(keys@);
        }
        lua.close();
        lua
    }

    fn add_id_lines(&self, lua: &mut LuaFile, ids: &Vec<u32>, mounts: &BTreeMap<u32, Mount>)
        requires
            forall|j: int| 0 <= j < ids@.len() ==> mounts@.contains_key(#[trigger] ids@[j]),
        ensures
            final(lua).path == old(lua).path,
            final(lua).text@ == old(lua).text@ + id_lines(ids@, mounts_view(mounts@)),
    {
        let ghost mv = mounts_view(mounts@);
        let ghost start = lua.text@;
        let mount_ids = sort_ids(ids);
        proof {
            lemma_sort_seq_members(ids@);
            assert forall|j: int| 0 <= j < mount_ids@.len() implies mounts@.contains_key(#[trigger] mount_ids@[j]) by {
                assert(ids@.contains(mount_ids@[j]));
                let l = choose|l: int| 0 <= l < ids@.len() && ids@[l] == mount_ids@[j];
                assert(mounts@.contains_key(ids@[l]));
            }
        }
        for i in 0..mount_ids.len()
            invariant
                lua.path == old(lua).path,
                mv == mounts_view(mounts@),
                forall|j: int| 0 <= j < mount_ids@.len() ==> mounts@.contains_key(#[trigger] mount_ids@[j]),
                mount_ids@ == sort_seq(ids@),
                lua.text@ == start + flat_map(mount_ids@.take(i as int), id_line_fn(mv)),
        {
            proof {
                lemma_flat_map_take(mount_ids@, id_line_fn(mv), i as int);
            }
            let id = mount_ids[i];
            assert(mounts@.contains_key(mount_ids@[i as int]));
            let mount = mounts.get(&id).unwrap();
            assert(mv[id] == mount@);
            lua.add_line(&id, &mount.name);
            assert(lua.text@ =~= start + flat_map(mount_ids@.take(i + 1), id_line_fn(mv)));
        }
        proof {
            lemma_take_all(mount_ids@);
        }
    }

    /// The families in their order: each with its mounts in id order, then
    /// its subfamilies the same way.
    pub fn export_families(&self, mounts: &BTreeMap<u32, Mount>, family_map: &Vec<(String, FamilyNode)>) -> (res:
        LuaFile)
        requires
            families_known(family_map@, mounts_view(mounts@)),
        ensures
            res.path@ == self.path_of("families.db.lua"@),
            res.text@ == file_text("DB.Family"@, flat_map(family_map@, family_block_fn(mounts_view(mounts@)))),
    {
        let mut lua = self.open_file("families.db.lua", "DB.Family");
        let ghost start = lua.text@;
        let ghost mv = mounts_view(mounts@);
        assert(mv.dom() =~= mounts@.dom());
        for i in 0..family_map.len()
            invariant
                lua.path@ == self.path_of("families.db.lua"@),
                mv == mounts_view(mounts@),
                mv.dom() == mounts@.dom(),
                families_known(family_map@, mv),
                lua.text@ == start + flat_map(family_map@.take(i as int), family_block_fn(mv)),
        {
            proof {
                lemma_flat_map_take(family_map@, family_block_fn(mv), i as int);
            }
            let name = &family_map[i].0;
            let node = &family_map[i].1;
            assert(node_known(family_map@[i as int].1, mv));
            let ghost before = lua.text@;
            lua.start_category(name);
            self.add_id_lines(&mut lua, &node.mount_ids, mounts);
            let ghost after_ids = lua.text@;
            let ghost subs = sub_entries(node.sub_nodes@);
            for j in 0..node.sub_nodes.len()
                invariant
                    lua.path@ == self.path_of("families.db.lua"@),
                    mv == mounts_view(mounts@),
                    mv.dom() == mounts@.dom(),
                    node_known(*node, mv),
                    subs == sub_entries(node.sub_nodes@),
                    lua.text@ == after_ids + flat_map(subs.take(j as int), sub_block_fn(mv)),
            {
                proof {
                    lemma_flat_map_take(subs, sub_block_fn(mv), j as int);
                }
                assert(ids_known(node.sub_nodes@[j as int].1@, mv));
                lua.start_category(&node.sub_nodes[j].0);
                self.add_id_lines(&mut lua, &node.sub_nodes[j].1, mounts);
                lua.close_category();
                assert(lua.text@ =~= after_ids + flat_map(subs.take(j + 1), sub_block_fn(mv)));
            }
            proof {
                lemma_take_all(subs);
            }
            lua.close_category();
            assert(lua.text@ =~= start + flat_map(family_map@.take(i + 1), family_block_fn(mv)));
        }
        proof {
            lemma_take_all(family_map@);
        }
        lua.close();
        lua
    }

    /// The dominant colors of every mount that has some.
    pub fn export_colors(&self, mounts: &BTreeMap<u32, Mount>, dominant_colors: &HashMap<u32, Vec<Rgb>>) -> (res:
        LuaFile)
        ensures
            res.path@ == self.path_of("colors.db.lua"@),
            res.text@ == file_text(
                "DB.Colors"@,
                flat_map(sorted_keys_of(mounts@.dom()), colors_fn(mounts_view(mounts@), dominant_colors@)),
            ),
    {
        let mut lua = self.open_file("colors.db.lua", "DB.Colors");
        let ghost start = lua.text@;
        let ghost mv = mounts_view(mounts@);
        let ghost f = colors_fn(mv, dominant_colors@);
        let keys = sorted_keys(mounts);
        for i in 0..keys.len()
            invariant
                lua.path@ == self.path_of("colors.db.lua"@),
                keys@.to_set() == mounts@.dom(),
                mv == mounts_view(mounts@),
                f == colors_fn(mv, dominant_colors@),
                lua.text@ == start + flat_map(keys@.take(i as int), f),
        {
            let k = keys[i];
            assert(keys@.to_set().contains(k));
            proof {
                lemma_flat_map_take(keys@, f, i as int);
            }
            let mount = mounts.get(&k).unwrap();
            assert(mv[k] == mount@);
            match dominant_colors.get(&mount.id) {
                None => {},
                Some(colors) => {
                    let values = format_colors(colors);
                    lua.add_line_with_value(&mount.id, &mount.name, values);
                },
            }
            assert(lua.text@ =~= start + flat_map(keys@.take(i + 1), f));
        }
        proof {
            lemma_take_all(keys@);
        }
        lua.close();
        lua
    }

    /// The customizations of every mount that has some.
    pub fn export_customization(
        &self,
        mounts: &BTreeMap<u32, Mount>,
        collected_customization: &HashMap<u32, Customization>,
    ) -> (res: LuaFile)
        ensures
            res.path@ == self.path_of("customization.db.lua"@),
            res.text@ == file_text(
                "DB.Customization"@,
                flat_map(
                    sorted_keys_of(mounts@.dom()),
                    customization_fn(
                        mounts_view(mounts@),
                        crate::mount::customization::customizations_view(collected_customization@),
                    ),
                ),
            ),
    {
        let mut lua = self.open_file("customization.db.lua", "DB.Customization");
        let ghost start = lua.text@;
        let ghost mv = mounts_view(mounts@);
        let ghost cv = crate::mount::customization::customizations_view(collected_customization@);
        let ghost f = customization_fn(mv, cv);
        let keys = sorted_keys(mounts);
        for i in 0..keys.len()
            invariant
                lua.path@ == self.path_of("customization.db.lua"@),
                keys@.to_set() == mounts@.dom(),
                mv == mounts_view(mounts@),
                cv == crate::mount::customization::customizations_view(collected_customization@),
                f == customization_fn(mv, cv),
                lua.text@ == start + flat_map(keys@.take(i as int), f),
        {
            let k = keys[i];
            assert(keys@.to_set().contains(k));
            proof {
                lemma_flat_map_take(keys@, f, i as int);
            }
            let mount = mounts.get(&k).unwrap();
            assert(mv[k] == mount@);
            match collected_customization.get(&mount.id) {
                None => {},
                Some(customs) => {
                    let values = format_customization(&lua, customs);
                    lua.add_line_with_value(&mount.id, &mount.name, values);
                },
            }
            assert(lua.text@ =~= start + flat_map(keys@.take(i + 1), f));
        }
        proof {
            lemma_take_all(keys@);
        }
        lua.close();
        lua
    }
}

} // verus!
