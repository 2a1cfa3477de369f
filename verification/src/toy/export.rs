//! The toy tables of the addon.
use std::collections::BTreeMap;
use vstd::prelude::*;

use crate::tools::lua_export::{entry_line, header_text, line, value_line, LuaFile};
use crate::tools::maps::{sorted_keys, sorted_keys_of};
use crate::tools::seqs::{flat_map, lemma_flat_map_take, lemma_take_all};
use crate::tools::text::{decimal, push_char, push_decimal, push_str, string_from};
use crate::toy::effect::Effect;
use crate::toy::{toys_view, Toy, ToyView};

verus! {

broadcast use {vstd::std_specs::btree::group_btree_axioms, vstd::laws_cmp::group_laws_cmp};

/// Writes the toy tables under one directory.
pub struct Exporter {
    pub base_path: String,
}

/// `[id] = true` for every tradable toy.
pub open spec fn tradable_line_fn(toys: Map<u32, ToyView>) -> spec_fn(u32) -> Seq<char> {
    |k: u32|
        if toys[k].item_is_tradable {
            entry_line(toys[k].item_id, toys[k].name)
        } else {
            Seq::empty()
        }
}

/// `[id] = false` for every toy.
pub open spec fn toy_line_fn(toys: Map<u32, ToyView>) -> spec_fn(u32) -> Seq<char> {
    |k: u32| value_line(toys[k].item_id, toys[k].name, "false"@)
}

/// The effects of one kind, in order.
pub open spec fn effects_of_kind(effects: Seq<Effect>, kind: u8) -> Seq<Effect> {
    effects.filter(|e: Effect| e.spec_kind() == kind)
}

/// A number and a comma.
pub open spec fn value_item_fn() -> spec_fn(Effect) -> Seq<char> {
    |e: Effect| decimal(e.spec_value() as nat) + seq![',']
}

/// `["key"] = {v1,v2,},` for the effects of one kind, or nothing.
pub open spec fn group_text(effects: Seq<Effect>, kind: u8) -> Seq<char> {
    let g = effects_of_kind(effects, kind);
    if g.len() > 0 {
        "[\""@ + g[0].spec_as_str() + "\"] = {"@ + flat_map(g, value_item_fn()) + "},"@
    } else {
        Seq::empty()
    }
}

pub open spec fn group_text_fn(effects: Seq<Effect>) -> spec_fn(u8) -> Seq<char> {
    |kind: u8| group_text(effects, kind)
}

/// The kinds of effects in their declaration order.
pub open spec fn all_kinds() -> Seq<u8> {
    Seq::new(11, |i: int| i as u8)
}

/// The preview value of a toy: its effects grouped by key, one group per
/// kind in declaration order, each with its values in order.
pub open spec fn effects_value(effects: Seq<Effect>) -> Seq<char> {
    "{"@ + flat_map(all_kinds(), group_text_fn(effects)) + " }"@
}

/// The preview entry of every toy that has effects.
pub open spec fn effect_line_fn(toys: Map<u32, ToyView>) -> spec_fn(u32) -> Seq<char> {
    |k: u32|
        if toys[k].effects.len() > 0 {
            value_line(toys[k].item_id, toys[k].name, effects_value(toys[k].effects))
        } else {
            Seq::empty()
        }
}

/// The text of a table file: its header, one part per toy in key order, and the closing line.
pub open spec fn table_text(
    variable: Seq<char>,
    toys: Map<u32, ToyView>,
    part: spec_fn(u32) -> Seq<char>,
) -> Seq<char> {
    header_text(variable) + flat_map(sorted_keys_of(toys.dom()), part) + line("}"@)
}

proof fn lemma_filter_push_effect(s: Seq<Effect>, x: Effect, kind: u8)
    ensures
        effects_of_kind(s.push(x), kind) == (if x.spec_kind() == kind {
            effects_of_kind(s, kind).push(x)
        } else {
            effects_of_kind(s, kind)
        }),
{
    reveal_with_fuel(Seq::filter, 1);
    assert(s.push(x).drop_last() =~= s);
}

/// The group of effects of one kind, as exported.
fn group_of_kind(effects: &Vec<Effect>, kind: u8) -> (res: String)
    ensures
        res@ == group_text(effects@, kind),
{
    let mut values = String::new();
    let mut first: Option<Effect> = None;
    for i in 0..effects.len()
        invariant
            values@ == flat_map(effects_of_kind(effects@.take(i as int), kind), value_item_fn()),
            match first {
                None => effects_of_kind(effects@.take(i as int), kind).len() == 0,
                Some(f) => effects_of_kind(effects@.take(i as int), kind).len() > 0 && f
                    == effects_of_kind(effects@.take(i as int), kind)[0],
            },
    {
        let e = effects[i];
        proof {
            assert(effects@.take(i + 1) =~= effects@.take(i as int).push(e));
            lemma_filter_push_effect(effects@.take(i as int), e, kind);
        }
        if e.kind() == kind {
            let ghost g = effects_of_kind(effects@.take(i as int), kind);
            proof {
                assert(g.push(e).drop_last() =~= g);
            }
            push_decimal(&mut values, e.value() as u64);
            push_char(&mut values, ',');
            if first.is_none() {
                first = Some(e);
            }
        }
    }
    proof {
        lemma_take_all(effects@);
    }
    match first {
        None => String::new(),
        Some(f) => {
            let mut res = string_from("[\"");
            push_str(&mut res, f.as_str());
            push_str(&mut res, "\"] = {");
            push_str(&mut res, values.as_str());
            push_str(&mut res, "},");
            res
        },
    }
}

/// The preview value of a list of effects.
pub fn format_effects(effects: &Vec<Effect>) -> (res: String)
    ensures
        res@ == effects_value(effects@),
{
    let mut values = string_from("{");
    let ghost start = values@;
    let mut kind: u8 = 0;
    while kind < 11
        invariant
            kind <= 11,
            values@ == start + flat_map(all_kinds().take(kind as int), group_text_fn(effects@)),
        decreases 11 - kind,
    {
        proof {
            lemma_flat_map_take(all_kinds(), group_text_fn(effects@), kind as int);
        }
        let group = group_of_kind(effects, kind);
        push_str(&mut values, group.as_str());
        kind = kind + 1;
    }
    proof {
        lemma_take_all(all_kinds());
    }
    push_str(&mut values, " }");
    values
}

impl Exporter {
    pub fn new(file_path: &str) -> (res: Self)
        ensures
            res.base_path@ == file_path@,
    {
        Self { base_path: string_from(file_path) }
    }

    /// The path of a file of the table directory.
    pub open spec fn path_of(&self, file_name: Seq<char>) -> Seq<char> {
        self.base_path@ + seq!['/'] + file_name
    }

    /// A new table file `file_name` for `variable`.
    fn open_file(&self, file_name: &str, variable: &str) -> (res: LuaFile)
        ensures
            res.path@ == self.path_of(file_name@),
            res.text@ == header_text(variable@),
    {
        let mut file_path = string_from(self.base_path.as_str());
        push_char(&mut file_path, '/');
        push_str(&mut file_path, file_name);
        LuaFile::new(file_path, variable)
    }

    /// The tradable toys, `[item] = true`.
    pub fn export_tradable(&self, toys: &BTreeMap<u32, Toy>) -> (res: LuaFile)
        ensures
            res.path@ == self.path_of("tradable.db.lua"@),
            res.text@ == table_text("db.Tradable"@, toys_view(toys@), tradable_line_fn(toys_view(toys@))),
    {
        let mut lua = self.open_file("tradable.db.lua", "db.Tradable");
        let ghost start = lua.text@;
        let keys = sorted_keys(toys);
        assert(toys_view(toys@).dom() =~= toys@.dom());
        for i in 0..keys.len()
            invariant
                lua.path@ == self.path_of("tradable.db.lua"@),
                keys@.to_set() == toys@.dom(),
                toys_view(toys@).dom() == toys@.dom(),
                lua.text@ == start + flat_map(keys@.take(i as int), tradable_line_fn(toys_view(toys@))),
        {
            let k = keys[i];
            assert(keys@.to_set().contains(k));
            proof {
                lemma_flat_map_take(keys@, tradable_line_fn(toys_view(toys@)), i as int);
            }
            let toy = toys.get(&k).unwrap();
            if toy.item_is_tradable {
                lua.add_line(&toy.item_id, &toy.name);
            }
            assert(lua.text@ =~= start + flat_map(keys@.take(i + 1), tradable_line_fn(toys_view(toys@))));
        }
        proof {
            lemma_take_all(keys@);
        }
        lua.close();
        lua
    }

    /// Every toy, `[item] = false`.
    pub fn export_toys(&self, toys: &BTreeMap<u32, Toy>) -> (res: LuaFile)
        ensures
            res.path@ == self.path_of("toys.db.lua"@),
            res.text@ == table_text("db.ingameList"@, toys_view(toys@), toy_line_fn(toys_view(toys@))),
    {
        let mut lua = self.open_file("toys.db.lua", "db.ingameList");
        let ghost start = lua.text@;
        let keys = sorted_keys(toys);
        assert(toys_view(toys@).dom() =~= toys@.dom());
        for i in 0..keys.len()
            invariant
                lua.path@ == self.path_of("toys.db.lua"@),
                keys@.to_set() == toys@.dom(),
                toys_view(toys@).dom() == toys@.dom(),
                lua.text@ == start + flat_map(keys@.take(i as int), toy_line_fn(toys_view(toys@))),
        {
            let k = keys[i];
            assert(keys@.to_set().contains(k));
            proof {
                lemma_flat_map_take(keys@, toy_line_fn(toys_view(toys@)), i as int);
            }
            let toy = toys.get(&k).unwrap();
            lua.add_line_with_value(&toy.item_id, &toy.name, string_from("false"));
            assert(lua.text@ =~= start + flat_map(keys@.take(i + 1), toy_line_fn(toys_view(toys@))));
        }
        proof {
            lemma_take_all(keys@);
        }
        lua.close();
        lua
    }

    /// The preview of every toy with effects: its effects grouped by key.
    pub fn export_effects(&self, toys: &BTreeMap<u32, Toy>) -> (res: LuaFile)
        ensures
            res.path@ == self.path_of("preview.db.lua"@),
            res.text@ == table_text("db.preview"@, toys_view(toys@), effect_line_fn(toys_view(toys@))),
    {
        let mut lua = self.open_file("preview.db.lua", "db.preview");
        let ghost start = lua.text@;
        let keys = sorted_keys(toys);
        assert(toys_view(toys@).dom() =~= toys@.dom());
        for i in 0..keys.len()
            invariant
                lua.path@ == self.path_of("preview.db.lua"@),
                keys@.to_set() == toys@.dom(),
                toys_view(toys@).dom() == toys@.dom(),
                lua.text@ == start + flat_map(keys@.take(i as int), effect_line_fn(toys_view(toys@))),
        {
            let k = keys[i];
            assert(keys@.to_set().contains(k));
            proof {
                lemma_flat_map_take(keys@, effect_line_fn(toys_view(toys@)), i as int);
            }
            let toy = toys.get(&k).unwrap();
            if toy.effects.len() > 0 {
                let values = format_effects(&toy.effects);
                lua.add_line_with_value(&toy.item_id, &toy.name, values);
            }
            assert(lua.text@ =~= start + flat_map(keys@.take(i + 1), effect_line_fn(toys_view(toys@))));
        }
        proof {
            lemma_take_all(keys@);
        }
        lua.close();
        lua
    }
}

} // verus!
