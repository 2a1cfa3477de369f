use std::collections::BTreeMap;
use vstd::prelude::*;

use crate::tools::db_reader::{grouped, LookupDB, RowKey};
use crate::tools::float32::{bits_eq, bits_is_positive, bits_negate, bits_to_u32, float_eq, is_positive, negated, to_u32};
use crate::tools::maps::{sorted_keys, strictly_increasing};
use crate::tools::seqs::{lemma_flat_map_contains, flat_map, lemma_flat_map_take, lemma_take_all};
use crate::toy::dbs::{
    Item, SpellCategories, SpellEffect, SpellProceduralEffect, SpellVisualEvent, SpellVisualKitEffect,
    SpellXSpellVisual,
};
use crate::toy::Toy;

verus! {

broadcast use {vstd::std_specs::btree::group_btree_axioms, vstd::laws_cmp::group_laws_cmp};

const SPELL_CATEGORY_HEARTHSTONE: u32 = 1176;

const SPELL_CATEGORY_GARRISON_HEARTHSTONE: u32 = 1524;

const SPELL_CATEGORY_MAIL: u32 = 2066;

/// Item ids that stand for an empty slot rather than an item.
pub open spec fn is_blank_item(id: u32) -> bool {
    id == 81324 || id == 81325 || id == 60620 || id == 60618 || id == 60617 || id == 62814 || id
        == 81326 || id == 64311 || id == 60619 || id == 62816 || id == 64310
}

fn blank_item(id: u32) -> (res: bool)
    ensures
        res == is_blank_item(id),
{
    id == 81324 || id == 81325 || id == 60620 || id == 60618 || id == 60617 || id == 62814 || id
        == 81326 || id == 64311 || id == 60619 || id == 62816 || id == 64310
}

/// What using a toy does to the player. `Bigger` and `Smaller` hold the bit
/// pattern of the `f32` scale.
#[derive(Debug, Clone, Copy)]
pub enum Effect {
    Hearthstone,
    Bigger(u32),
    Smaller(u32),
    FullBody(u32, u32),
    Mail,
    ArmorItem(u32),
    ArmorSetItem(u32),
    ArmorWeapon(u32),
    ArmorHead(u32),
    Cloak(u32),
    Color(u32),
}

/// Equality of effects; scales compare as floats.
pub open spec fn effect_eq(a: Effect, b: Effect) -> bool {
    match (a, b) {
        (Effect::Hearthstone, Effect::Hearthstone) => true,
        (Effect::Bigger(x), Effect::Bigger(y)) => float_eq(x, y),
        (Effect::Smaller(x), Effect::Smaller(y)) => float_eq(x, y),
        (Effect::FullBody(x1, x2), Effect::FullBody(y1, y2)) => x1 == y1 && x2 == y2,
        (Effect::Mail, Effect::Mail) => true,
        (Effect::ArmorItem(x), Effect::ArmorItem(y)) => x == y,
        (Effect::ArmorSetItem(x), Effect::ArmorSetItem(y)) => x == y,
        (Effect::ArmorWeapon(x), Effect::ArmorWeapon(y)) => x == y,
        (Effect::ArmorHead(x), Effect::ArmorHead(y)) => x == y,
        (Effect::Cloak(x), Effect::Cloak(y)) => x == y,
        (Effect::Color(x), Effect::Color(y)) => x == y,
        _ => false,
    }
}

impl PartialEq for Effect {
    fn eq(&self, other: &Self) -> (res: bool) {
        match (self, other) {
            (Effect::Hearthstone, Effect::Hearthstone) => true,
            (Effect::Bigger(x), Effect::Bigger(y)) => bits_eq(*x, *y),
            (Effect::Smaller(x), Effect::Smaller(y)) => bits_eq(*x, *y),
            (Effect::FullBody(x1, x2), Effect::FullBody(y1, y2)) => *x1 == *y1 && *x2 == *y2,
            (Effect::Mail, Effect::Mail) => true,
            (Effect::ArmorItem(x), Effect::ArmorItem(y)) => *x == *y,
            (Effect::ArmorSetItem(x), Effect::ArmorSetItem(y)) => *x == *y,
            (Effect::ArmorWeapon(x), Effect::ArmorWeapon(y)) => *x == *y,
            (Effect::ArmorHead(x), Effect::ArmorHead(y)) => *x == *y,
            (Effect::Cloak(x), Effect::Cloak(y)) => *x == *y,
            (Effect::Color(x), Effect::Color(y)) => *x == *y,
            _ => false,
        }
    }
}

impl vstd::std_specs::cmp::PartialEqSpecImpl for Effect {
    open spec fn obeys_eq_spec() -> bool {
        true
    }

    open spec fn eq_spec(&self, other: &Self) -> bool {
        effect_eq(*self, *other)
    }
}

impl Effect {
    /// The variant of an effect as a number, in declaration order; effects of
    /// one variant share their exported key.
    pub open spec fn spec_kind(self) -> u8 {
        match self {
            Effect::Hearthstone => 0,
            Effect::Bigger(_) => 1,
            Effect::Smaller(_) => 2,
            Effect::FullBody(_, _) => 3,
            Effect::Mail => 4,
            Effect::ArmorItem(_) => 5,
            Effect::ArmorSetItem(_) => 6,
            Effect::ArmorWeapon(_) => 7,
            Effect::ArmorHead(_) => 8,
            Effect::Cloak(_) => 9,
            Effect::Color(_) => 10,
        }
    }

    pub fn kind(&self) -> (res: u8)
        ensures
            res == self.spec_kind(),
    {
        match self {
            Effect::Hearthstone => 0,
            Effect::Bigger(_) => 1,
            Effect::Smaller(_) => 2,
            Effect::FullBody(_, _) => 3,
            Effect::Mail => 4,
            Effect::ArmorItem(_) => 5,
            Effect::ArmorSetItem(_) => 6,
            Effect::ArmorWeapon(_) => 7,
            Effect::ArmorHead(_) => 8,
            Effect::Cloak(_) => 9,
            Effect::Color(_) => 10,
        }
    }

    /// The key under which an effect is exported.
    pub open spec fn spec_as_str(self) -> Seq<char> {
        match self {
            Effect::Bigger(_) => "bigger"@,
            Effect::Smaller(_) => "smaller"@,
            Effect::FullBody(_, _) => "full_body"@,
            Effect::Hearthstone => "hearthstone"@,
            Effect::Mail => "mail"@,
            Effect::ArmorItem(_) => "armor"@,
            Effect::ArmorSetItem(_) => "armor_set"@,
            Effect::ArmorHead(_) => "head"@,
            Effect::Cloak(_) => "cloak"@,
            Effect::ArmorWeapon(_) => "weapon"@,
            Effect::Color(_) => "color"@,
        }
    }

    pub fn as_str(&self) -> (res: &'static str)
        ensures
            res@ == self.spec_as_str(),
    {
        match self {
            Effect::Bigger(_) => "bigger",
            Effect::Smaller(_) => "smaller",
            Effect::FullBody(_, _) => "full_body",
            Effect::Hearthstone => "hearthstone",
            Effect::Mail => "mail",
            Effect::ArmorItem(_) => "armor",
            Effect::ArmorSetItem(_) => "armor_set",
            Effect::ArmorHead(_) => "head",
            Effect::Cloak(_) => "cloak",
            Effect::ArmorWeapon(_) => "weapon",
            Effect::Color(_) => "color",
        }
    }

    /// The number exported for an effect: the scale rounded toward zero, the item
    /// or kit id, or 1.
    pub open spec fn spec_value(self) -> u32 {
        match self {
            Effect::Bigger(scale) => to_u32(scale),
            Effect::Smaller(scale) => to_u32(scale),
            Effect::ArmorItem(item_id) => item_id,
            Effect::ArmorSetItem(item_id) => item_id,
            Effect::ArmorHead(item_id) => item_id,
            Effect::Cloak(item_id) => item_id,
            Effect::ArmorWeapon(item_id) => item_id,
            Effect::Color(kit_id) => kit_id,
            _ => 1,
        }
    }

    pub fn value(&self) -> (res: u32)
        ensures
            res == self.spec_value(),
    {
        match self {
            Effect::Bigger(scale) => bits_to_u32(*scale),
            Effect::Smaller(scale) => bits_to_u32(*scale),
            Effect::ArmorItem(item_id) => *item_id,
            Effect::ArmorSetItem(item_id) => *item_id,
            Effect::ArmorHead(item_id) => *item_id,
            Effect::Cloak(item_id) => *item_id,
            Effect::ArmorWeapon(item_id) => *item_id,
            Effect::Color(kit_id) => *kit_id,
            _ => 1,
        }
    }
}

pub struct CategoriesBySpell;

impl RowKey<SpellCategories> for CategoriesBySpell {
    open spec fn key(&self, row: SpellCategories) -> u32 {
        row.spell_id
    }

    fn key_of(&self, row: &SpellCategories) -> (k: u32) {
        row.spell_id
    }
}

pub struct EffectsBySpell;

impl RowKey<SpellEffect> for EffectsBySpell {
    open spec fn key(&self, row: SpellEffect) -> u32 {
        row.spell_id
    }

    fn key_of(&self, row: &SpellEffect) -> (k: u32) {
        row.spell_id
    }
}

pub struct KitEffectsByKit;

impl RowKey<SpellVisualKitEffect> for KitEffectsByKit {
    open spec fn key(&self, row: SpellVisualKitEffect) -> u32 {
        row.visual_kit_id
    }

    fn key_of(&self, row: &SpellVisualKitEffect) -> (k: u32) {
        row.visual_kit_id
    }
}

pub struct ProceduralById;

impl RowKey<SpellProceduralEffect> for ProceduralById {
    open spec fn key(&self, row: SpellProceduralEffect) -> u32 {
        row.id
    }

    fn key_of(&self, row: &SpellProceduralEffect) -> (k: u32) {
        row.id
    }
}

pub struct XVisualBySpell;

impl RowKey<SpellXSpellVisual> for XVisualBySpell {
    open spec fn key(&self, row: SpellXSpellVisual) -> u32 {
        row.spell_id
    }

    fn key_of(&self, row: &SpellXSpellVisual) -> (k: u32) {
        row.spell_id
    }
}

pub struct EventsByVisual;

impl RowKey<SpellVisualEvent> for EventsByVisual {
    open spec fn key(&self, row: SpellVisualEvent) -> u32 {
        row.visual_id
    }

    fn key_of(&self, row: &SpellVisualEvent) -> (k: u32) {
        row.visual_id
    }
}

pub struct ItemsById;

impl RowKey<Item> for ItemsById {
    open spec fn key(&self, row: Item) -> u32 {
        row.item_id
    }

    fn key_of(&self, row: &Item) -> (k: u32) {
        row.item_id
    }
}

/// The spell tables, each as the rows under every key.
pub ghost struct SpellTables {
    pub categories: spec_fn(u32) -> Seq<SpellCategories>,
    pub effects: spec_fn(u32) -> Seq<SpellEffect>,
    pub x_visuals: spec_fn(u32) -> Seq<SpellXSpellVisual>,
    pub events: spec_fn(u32) -> Seq<SpellVisualEvent>,
    pub kit_effects: spec_fn(u32) -> Seq<SpellVisualKitEffect>,
    pub procedural: spec_fn(u32) -> Seq<SpellProceduralEffect>,
}

/// The export key of every effect kind is its own name, whatever the effect
/// holds, and effects of different kinds have different keys.
pub proof fn law_effect_keys(x: u32, y: u32)
    ensures
        Effect::Bigger(x).spec_as_str() == "bigger"@,
        Effect::Smaller(x).spec_as_str() == "smaller"@,
        Effect::FullBody(x, y).spec_as_str() == "full_body"@,
        Effect::Hearthstone.spec_as_str() == "hearthstone"@,
        Effect::Mail.spec_as_str() == "mail"@,
        Effect::ArmorItem(x).spec_as_str() == "armor"@,
        Effect::ArmorSetItem(x).spec_as_str() == "armor_set"@,
        Effect::ArmorHead(x).spec_as_str() == "head"@,
        Effect::Cloak(x).spec_as_str() == "cloak"@,
        Effect::ArmorWeapon(x).spec_as_str() == "weapon"@,
        Effect::Color(x).spec_as_str() == "color"@,
        forall|a: Effect, b: Effect| #[trigger] a.spec_kind() != #[trigger] b.spec_kind() ==> a.spec_as_str()
            != b.spec_as_str(),
{
    reveal_strlit("bigger");
    reveal_strlit("smaller");
    reveal_strlit("full_body");
    reveal_strlit("hearthstone");
    reveal_strlit("mail");
    reveal_strlit("armor");
    reveal_strlit("armor_set");
    reveal_strlit("head");
    reveal_strlit("cloak");
    reveal_strlit("weapon");
    reveal_strlit("color");
    assert forall|a: Effect, b: Effect| #[trigger] a.spec_kind() != #[trigger] b.spec_kind() implies a.spec_as_str()
        != b.spec_as_str() by {
        let sa = a.spec_as_str();
        let sb = b.spec_as_str();
        if sa.len() == sb.len() {
            assert(sa[0] != sb[0] || sa[1] != sb[1]);
        }
    }
}

/// Hearthstone and mail spells, by their category.
pub open spec fn category_effect(c: SpellCategories) -> Seq<Effect> {
    if c.category == 1176 || c.category == 1524 {
        seq![Effect::Hearthstone]
    } else if c.category == 2066 {
        seq![Effect::Mail]
    } else {
        Seq::empty()
    }
}

pub open spec fn category_effect_fn() -> spec_fn(SpellCategories) -> Seq<Effect> {
    |c: SpellCategories| category_effect(c)
}

/// A scale aura on the caster makes the player bigger or smaller.
pub open spec fn scale_effect(e: SpellEffect) -> Seq<Effect> {
    if e.effect_aura == 61 && e.effect == 6 && e.implicit_target == 1 {
        if is_positive(e.effect_points_bits) {
            seq![Effect::Bigger(e.effect_points_bits)]
        } else {
            seq![Effect::Smaller(negated(e.effect_points_bits))]
        }
    } else {
        Seq::empty()
    }
}

pub open spec fn scale_effect_fn() -> spec_fn(SpellEffect) -> Seq<Effect> {
    |e: SpellEffect| scale_effect(e)
}

/// The effect of one visual kit entry; `procedural` holds the procedural
/// effects under the entry's effect id.
pub open spec fn kit_effect(ke: SpellVisualKitEffect, kit_id: u32, procedural: Seq<SpellProceduralEffect>) -> Seq<Effect> {
    if ke.effect_type == 1 {
        let p = procedural[0];
        if p.effect_type == 1 || p.effect_type == 21 || p.effect_type == 22 {
            seq![Effect::Color(kit_id)]
        } else if p.effect_type == 17 {
            let item = to_u32(p.value_1_bits);
            if item > 0 && !is_blank_item(item) {
                seq![Effect::ArmorItem(item)]
            } else {
                Seq::empty()
            }
        } else {
            Seq::empty()
        }
    } else if ke.effect_type == 7 || ke.effect_type == 16 {
        seq![Effect::Color(kit_id)]
    } else {
        Seq::empty()
    }
}

pub open spec fn kit_effect_fn(t: SpellTables, kit_id: u32) -> spec_fn(SpellVisualKitEffect) -> Seq<Effect> {
    |ke: SpellVisualKitEffect| kit_effect(ke, kit_id, (t.procedural)(ke.effect_id))
}

pub open spec fn event_effect_fn(t: SpellTables) -> spec_fn(SpellVisualEvent) -> Seq<Effect> {
    |ev: SpellVisualEvent| flat_map((t.kit_effects)(ev.visual_kit_id), kit_effect_fn(t, ev.visual_kit_id))
}

pub open spec fn x_visual_effect_fn(t: SpellTables) -> spec_fn(SpellXSpellVisual) -> Seq<Effect> {
    |x: SpellXSpellVisual| flat_map((t.events)(x.visual_id), event_effect_fn(t))
}

/// The effects of a spell: its categories, its scale auras, then its visual kits.
pub open spec fn spell_visual_effects(t: SpellTables, spell_id: u32) -> Seq<Effect> {
    flat_map((t.categories)(spell_id), category_effect_fn()) + flat_map(
        (t.effects)(spell_id),
        scale_effect_fn(),
    ) + flat_map((t.x_visuals)(spell_id), x_visual_effect_fn(t))
}

/// A spell with a hearthstone category row (1176, or 1524 for the garrison
/// hearthstone) takes the player home: its effects hold `Hearthstone`, and so
/// do those of a toy casting it; a spell with a mail category row (2066) holds
/// `Mail`.
pub proof fn law_category_effects(t: SpellTables, spell_id: u32, l: int)
    requires
        0 <= l < (t.categories)(spell_id).len(),
    ensures
        (t.categories)(spell_id)[l].category == 1176 ==> spell_visual_effects(t, spell_id).contains(
            Effect::Hearthstone,
        ),
        (t.categories)(spell_id)[l].category == 1524 ==> spell_visual_effects(t, spell_id).contains(
            Effect::Hearthstone,
        ),
        (t.categories)(spell_id)[l].category == 1176 ==> toy_effects(t, spell_id).contains(Effect::Hearthstone),
        (t.categories)(spell_id)[l].category == 1524 ==> toy_effects(t, spell_id).contains(Effect::Hearthstone),
        (t.categories)(spell_id)[l].category == 2066 ==> spell_visual_effects(t, spell_id).contains(Effect::Mail),
{
    let rows = (t.categories)(spell_id);
    let c = rows[l].category;
    if c == 1176 || c == 1524 || c == 2066 {
        let e = if c == 2066 { Effect::Mail } else { Effect::Hearthstone };
        assert(category_effect_fn()(rows[l]) == seq![e]);
        assert(category_effect_fn()(rows[l])[0] == e);
        lemma_flat_map_contains(rows, category_effect_fn(), l, e);
        let cats = flat_map(rows, category_effect_fn());
        let k = choose|k: int| 0 <= k < cats.len() && cats[k] == e;
        let rest = flat_map((t.effects)(spell_id), scale_effect_fn());
        let visuals = flat_map((t.x_visuals)(spell_id), x_visual_effect_fn(t));
        assert((cats + rest + visuals)[k] == e);
        assert(spell_visual_effects(t, spell_id)[k] == e);
        let triggered = flat_map((t.effects)(spell_id), trigger_effect_fn(t));
        assert((spell_visual_effects(t, spell_id) + triggered)[k] == e);
        assert(toy_effects(t, spell_id)[k] == e);
    }
}

/// The spell tables as grouped lookups.
pub open spec fn tables_of(
    spell_categories_db: LookupDB<SpellCategories>,
    spell_effect_db: LookupDB<SpellEffect>,
    spell_x_spell_visual_db: LookupDB<SpellXSpellVisual>,
    spell_visual_event_db: LookupDB<SpellVisualEvent>,
    spell_visual_kit_effect_db: LookupDB<SpellVisualKitEffect>,
    spell_procedural_effect_db: LookupDB<SpellProceduralEffect>,
) -> SpellTables {
    SpellTables {
        categories: spell_categories_db.rows_fn(),
        effects: spell_effect_db.rows_fn(),
        x_visuals: spell_x_spell_visual_db.rows_fn(),
        events: spell_visual_event_db.rows_fn(),
        kit_effects: spell_visual_kit_effect_db.rows_fn(),
        procedural: spell_procedural_effect_db.rows_fn(),
    }
}

fn kit_visual_effects(
    kit_id: u32,
    spell_visual_kit_effect_db: &LookupDB<SpellVisualKitEffect>,
    spell_procedural_effect_db: &LookupDB<SpellProceduralEffect>,
    Ghost(t): Ghost<SpellTables>,
) -> (res: Vec<Effect>)
    requires
        t.kit_effects == spell_visual_kit_effect_db.rows_fn(),
        t.procedural == spell_procedural_effect_db.rows_fn(),
        forall|l: int|
            0 <= l < (t.kit_effects)(kit_id).len() && #[trigger] (t.kit_effects)(kit_id)[l].effect_type
                == 1 ==> (t.procedural)((t.kit_effects)(kit_id)[l].effect_id).len() > 0,
    ensures
        res@ == flat_map((t.kit_effects)(kit_id), kit_effect_fn(t, kit_id)),
{
    let mut result: Vec<Effect> = Vec::new();
    let kit_effects = spell_visual_kit_effect_db.lookup(&kit_id);
    let ghost rows = (t.kit_effects)(kit_id);
    assert(rows == spell_visual_kit_effect_db.rows(kit_id));
    for i in 0..kit_effects.len()
        invariant
            kit_effects@.len() == rows.len(),
            forall|l: int| 0 <= l < rows.len() ==> cloned(rows[l], #[trigger] kit_effects@[l]),
            t.procedural == spell_procedural_effect_db.rows_fn(),
            rows == (t.kit_effects)(kit_id),
            forall|l: int|
                0 <= l < (t.kit_effects)(kit_id).len() && #[trigger] (t.kit_effects)(kit_id)[l].effect_type
                    == 1 ==> (t.procedural)((t.kit_effects)(kit_id)[l].effect_id).len() > 0,
            result@ == flat_map(rows.take(i as int), kit_effect_fn(t, kit_id)),
    {
        let visual_kit_effect = kit_effects[i];
        assert(visual_kit_effect == rows[i as int]);
        proof {
            lemma_flat_map_take(rows, kit_effect_fn(t, kit_id), i as int);
        }
        if visual_kit_effect.effect_type == 1 {
            let procedural_effects = spell_procedural_effect_db.lookup(&visual_kit_effect.effect_id);
            let procedural_effect = procedural_effects[0];
            assert(procedural_effect == (t.procedural)(visual_kit_effect.effect_id)[0]);
            if procedural_effect.effect_type == 1 || procedural_effect.effect_type == 21
                || procedural_effect.effect_type == 22 {
                // some color effect
                result.push(Effect::Color(kit_id));
            } else if procedural_effect.effect_type == 17 {
                // some armor item
                let val_1 = bits_to_u32(procedural_effect.value_1_bits);
                if val_1 > 0 && !blank_item(val_1) {
                    result.push(Effect::ArmorItem(val_1));
                }
            }
        } else if visual_kit_effect.effect_type == 7 || visual_kit_effect.effect_type == 16 {
            // ShadowyEffectID || GradientEffect
            result.push(Effect::Color(kit_id));
        }
        assert(result@ =~= flat_map(rows.take(i + 1), kit_effect_fn(t, kit_id)));
    }
    proof {
        lemma_take_all(rows);
    }
    result
}

/// Every procedural kit entry under a visual kit has a procedural effect row.
pub open spec fn kit_resolvable(t: SpellTables, kit_id: u32) -> bool {
    forall|l: int|
        0 <= l < (t.kit_effects)(kit_id).len() && #[trigger] (t.kit_effects)(kit_id)[l].effect_type
            == 1 ==> (t.procedural)((t.kit_effects)(kit_id)[l].effect_id).len() > 0
}

/// Every visual kit that a visual reaches is resolvable.
pub open spec fn visual_resolvable(t: SpellTables, visual_id: u32) -> bool {
    forall|j: int|
        0 <= j < (t.events)(visual_id).len() ==> kit_resolvable(
            t,
            #[trigger] (t.events)(visual_id)[j].visual_kit_id,
        )
}

/// Every visual that a spell reaches is resolvable.
pub open spec fn spell_resolvable(t: SpellTables, spell_id: u32) -> bool {
    forall|i: int|
        0 <= i < (t.x_visuals)(spell_id).len() ==> visual_resolvable(
            t,
            #[trigger] (t.x_visuals)(spell_id)[i].visual_id,
        )
}

fn event_visual_effects(
    visual_id: u32,
    spell_visual_event_db: &LookupDB<SpellVisualEvent>,
    spell_visual_kit_effect_db: &LookupDB<SpellVisualKitEffect>,
    spell_procedural_effect_db: &LookupDB<SpellProceduralEffect>,
    Ghost(t): Ghost<SpellTables>,
) -> (res: Vec<Effect>)
    requires
        t.events == spell_visual_event_db.rows_fn(),
        t.kit_effects == spell_visual_kit_effect_db.rows_fn(),
        t.procedural == spell_procedural_effect_db.rows_fn(),
        visual_resolvable(t, visual_id),
    ensures
        res@ == flat_map((t.events)(visual_id), event_effect_fn(t)),
{
    let mut result: Vec<Effect> = Vec::new();
    let events = spell_visual_event_db.lookup(&visual_id);
    let ghost rows = (t.events)(visual_id);
    assert(rows == spell_visual_event_db.rows(visual_id));
    for i in 0..events.len()
        invariant
            events@.len() == rows.len(),
            forall|l: int| 0 <= l < rows.len() ==> cloned(rows[l], #[trigger] events@[l]),
            t.kit_effects == spell_visual_kit_effect_db.rows_fn(),
            t.procedural == spell_procedural_effect_db.rows_fn(),
            rows == (t.events)(visual_id),
            visual_resolvable(t, visual_id),
            result@ == flat_map(rows.take(i as int), event_effect_fn(t)),
    {
        let visual_event = events[i];
        assert(visual_event == rows[i as int]);
        assert(kit_resolvable(t, rows[i as int].visual_kit_id));
        proof {
            lemma_flat_map_take(rows, event_effect_fn(t), i as int);
        }
        let mut kit_result = kit_visual_effects(
            visual_event.visual_kit_id,
            spell_visual_kit_effect_db,
            spell_procedural_effect_db,
            Ghost(t),
        );
        result.append(&mut kit_result);
    }
    proof {
        lemma_take_all(rows);
    }
    result
}

fn x_visual_effects(
    spell_id: u32,
    spell_x_spell_visual_db: &LookupDB<SpellXSpellVisual>,
    spell_visual_event_db: &LookupDB<SpellVisualEvent>,
    spell_visual_kit_effect_db: &LookupDB<SpellVisualKitEffect>,
    spell_procedural_effect_db: &LookupDB<SpellProceduralEffect>,
    Ghost(t): Ghost<SpellTables>,
) -> (res: Vec<Effect>)
    requires
        t.x_visuals == spell_x_spell_visual_db.rows_fn(),
        t.events == spell_visual_event_db.rows_fn(),
        t.kit_effects == spell_visual_kit_effect_db.rows_fn(),
        t.procedural == spell_procedural_effect_db.rows_fn(),
        spell_resolvable(t, spell_id),
    ensures
        res@ == flat_map((t.x_visuals)(spell_id), x_visual_effect_fn(t)),
{
    let mut result: Vec<Effect> = Vec::new();
    let xvisuals = spell_x_spell_visual_db.lookup(&spell_id);
    let ghost rows = (t.x_visuals)(spell_id);
    assert(rows == spell_x_spell_visual_db.rows(spell_id));
    for i in 0..xvisuals.len()
        invariant
            xvisuals@.len() == rows.len(),
            forall|l: int| 0 <= l < rows.len() ==> cloned(rows[l], #[trigger] xvisuals@[l]),
            t.events == spell_visual_event_db.rows_fn(),
            t.kit_effects == spell_visual_kit_effect_db.rows_fn(),
            t.procedural == spell_procedural_effect_db.rows_fn(),
            rows == (t.x_visuals)(spell_id),
            spell_resolvable(t, spell_id),
            result@ == flat_map(rows.take(i as int), x_visual_effect_fn(t)),
    {
        let xvisual = xvisuals[i];
        assert(xvisual == rows[i as int]);
        assert(visual_resolvable(t, rows[i as int].visual_id));
        proof {
            lemma_flat_map_take(rows, x_visual_effect_fn(t), i as int);
        }
        let mut event_result = event_visual_effects(
            xvisual.visual_id,
            spell_visual_event_db,
            spell_visual_kit_effect_db,
            spell_procedural_effect_db,
            Ghost(t),
        );
        result.append(&mut event_result);
    }
    proof {
        lemma_take_all(rows);
    }
    result
}

/// The effects of a spell that toys preview: hearthstone and mail categories,
/// scale auras on the caster, and the colors and armor items of its visual kits.
pub fn find_spell_visuals(
    spell_id: &u32,
    spell_categories_db: &LookupDB<SpellCategories>,
    spell_effect_db: &LookupDB<SpellEffect>,
    spell_x_spell_visual_db: &LookupDB<SpellXSpellVisual>,
    spell_visual_event_db: &LookupDB<SpellVisualEvent>,
    spell_visual_kit_effect_db: &LookupDB<SpellVisualKitEffect>,
    spell_procedural_effect_db: &LookupDB<SpellProceduralEffect>,
) -> (res: Vec<Effect>)
    requires
        spell_resolvable(
            tables_of(
                *spell_categories_db,
                *spell_effect_db,
                *spell_x_spell_visual_db,
                *spell_visual_event_db,
                *spell_visual_kit_effect_db,
                *spell_procedural_effect_db,
            ),
            *spell_id,
        ),
    ensures
        res@ == spell_visual_effects(
            tables_of(
                *spell_categories_db,
                *spell_effect_db,
                *spell_x_spell_visual_db,
                *spell_visual_event_db,
                *spell_visual_kit_effect_db,
                *spell_procedural_effect_db,
            ),
            *spell_id,
        ),
{
    let ghost t = tables_of(
        *spell_categories_db,
        *spell_effect_db,
        *spell_x_spell_visual_db,
        *spell_visual_event_db,
        *spell_visual_kit_effect_db,
        *spell_procedural_effect_db,
    );
    let mut result: Vec<Effect> = Vec::new();

    let categories = spell_categories_db.lookup(spell_id);
    let ghost cat_rows = (t.categories)(*spell_id);
    assert(cat_rows == spell_categories_db.rows(*spell_id));
    for i in 0..categories.len()
        invariant
            categories@.len() == cat_rows.len(),
            forall|l: int| 0 <= l < cat_rows.len() ==> cloned(cat_rows[l], #[trigger] categories@[l]),
            result@ == flat_map(cat_rows.take(i as int), category_effect_fn()),
    {
        let spell_categories = categories[i];
        assert(spell_categories == cat_rows[i as int]);
        proof {
            lemma_flat_map_take(cat_rows, category_effect_fn(), i as int);
        }
        if spell_categories.category == SPELL_CATEGORY_HEARTHSTONE || spell_categories.category
            == SPELL_CATEGORY_GARRISON_HEARTHSTONE {
            result.push(Effect::Hearthstone);
        } else if spell_categories.category == SPELL_CATEGORY_MAIL {
            result.push(Effect::Mail);
        }
        assert(result@ =~= flat_map(cat_rows.take(i + 1), category_effect_fn()));
    }
    proof {
        lemma_take_all(cat_rows);
    }
    let ghost after_categories = result@;

    let spell_effects = spell_effect_db.lookup(spell_id);
    let ghost effect_rows = (t.effects)(*spell_id);
    assert(effect_rows == spell_effect_db.rows(*spell_id));
    for i in 0..spell_effects.len()
        invariant
            spell_effects@.len() == effect_rows.len(),
            forall|l: int| 0 <= l < effect_rows.len() ==> cloned(effect_rows[l], #[trigger] spell_effects@[l]),
            result@ == after_categories + flat_map(effect_rows.take(i as int), scale_effect_fn()),
    {
        let spell_effect = spell_effects[i];
        assert(spell_effect == effect_rows[i as int]);
        proof {
            lemma_flat_map_take(effect_rows, scale_effect_fn(), i as int);
        }
        // aura=scale and target=caster
        if spell_effect.effect_aura == 61 && spell_effect.effect == 6 && spell_effect.implicit_target == 1 {
            if bits_is_positive(spell_effect.effect_points_bits) {
                result.push(Effect::Bigger(spell_effect.effect_points_bits));
            } else {
                result.push(Effect::Smaller(bits_negate(spell_effect.effect_points_bits)));
            }
        }
        assert(result@ =~= after_categories + flat_map(effect_rows.take(i + 1), scale_effect_fn()));
    }
    proof {
        lemma_take_all(effect_rows);
    }

    let mut visual_result = x_visual_effects(
        *spell_id,
        spell_x_spell_visual_db,
        spell_visual_event_db,
        spell_visual_kit_effect_db,
        spell_procedural_effect_db,
        Ghost(t),
    );
    result.append(&mut visual_result);
    result
}


/// What a toy's spell and the spells it fires as missiles do.
pub open spec fn trigger_effect_fn(t: SpellTables) -> spec_fn(SpellEffect) -> Seq<Effect> {
    |e: SpellEffect|
        if e.effect == 32 && e.trigger_spell_id > 0 {
            spell_visual_effects(t, e.trigger_spell_id as u32)
        } else {
            Seq::empty()
        }
}

/// The effects of a toy's spell followed by those of every missile spell it
/// triggers, in the order of the spell's effect rows.
pub open spec fn toy_effects(t: SpellTables, spell_id: u32) -> Seq<Effect> {
    spell_visual_effects(t, spell_id) + flat_map((t.effects)(spell_id), trigger_effect_fn(t))
}

/// A toy's spell and every missile spell it triggers are resolvable.
pub open spec fn toy_resolvable(t: SpellTables, spell_id: u32) -> bool {
    &&& spell_resolvable(t, spell_id)
    &&& forall|i: int|
        0 <= i < (t.effects)(spell_id).len() && (#[trigger] (t.effects)(spell_id)[i]).effect == 32
            && (t.effects)(spell_id)[i].trigger_spell_id > 0 ==> spell_resolvable(
            t,
            (t.effects)(spell_id)[i].trigger_spell_id as u32,
        )
}

/// The spell tables grouped from their rows.
pub open spec fn tables_from_rows(
    spell_categories: Seq<SpellCategories>,
    spell_effects: Seq<SpellEffect>,
    x_visuals: Seq<SpellXSpellVisual>,
    visual_events: Seq<SpellVisualEvent>,
    kit_effects: Seq<SpellVisualKitEffect>,
    procedural_effects: Seq<SpellProceduralEffect>,
) -> SpellTables {
    SpellTables {
        categories: grouped(spell_categories, CategoriesBySpell),
        effects: grouped(spell_effects, EffectsBySpell),
        x_visuals: grouped(x_visuals, XVisualBySpell),
        events: grouped(visual_events, EventsByVisual),
        kit_effects: grouped(kit_effects, KitEffectsByKit),
        procedural: grouped(procedural_effects, ProceduralById),
    }
}

/// The spell tables that effects are looked up in.
pub struct SpellDbs {
    pub spell_categories_db: LookupDB<SpellCategories>,
    pub spell_effect_db: LookupDB<SpellEffect>,
    pub spell_x_spell_visual_db: LookupDB<SpellXSpellVisual>,
    pub spell_visual_event_db: LookupDB<SpellVisualEvent>,
    pub spell_visual_kit_effect_db: LookupDB<SpellVisualKitEffect>,
    pub spell_procedural_effect_db: LookupDB<SpellProceduralEffect>,
}

impl SpellDbs {
    /// The tables as functions from key to rows.
    pub open spec fn tables(&self) -> SpellTables {
        tables_of(
            self.spell_categories_db,
            self.spell_effect_db,
            self.spell_x_spell_visual_db,
            self.spell_visual_event_db,
            self.spell_visual_kit_effect_db,
            self.spell_procedural_effect_db,
        )
    }

    /// Groups each table by the column it is looked up by.
    pub fn new(
        spell_categories: Vec<SpellCategories>,
        spell_effects: Vec<SpellEffect>,
        x_visuals: Vec<SpellXSpellVisual>,
        visual_events: Vec<SpellVisualEvent>,
        kit_effects: Vec<SpellVisualKitEffect>,
        procedural_effects: Vec<SpellProceduralEffect>,
    ) -> (res: Self)
        ensures
            res.tables() == tables_from_rows(
                spell_categories@,
                spell_effects@,
                x_visuals@,
                visual_events@,
                kit_effects@,
                procedural_effects@,
            ),
    {
        let res = SpellDbs {
            spell_categories_db: LookupDB::new_from_data(spell_categories, CategoriesBySpell),
            spell_effect_db: LookupDB::new_from_data(spell_effects, EffectsBySpell),
            spell_x_spell_visual_db: LookupDB::new_from_data(x_visuals, XVisualBySpell),
            spell_visual_event_db: LookupDB::new_from_data(visual_events, EventsByVisual),
            spell_visual_kit_effect_db: LookupDB::new_from_data(kit_effects, KitEffectsByKit),
            spell_procedural_effect_db: LookupDB::new_from_data(procedural_effects, ProceduralById),
        };
        res
    }

    /// Whether every procedural entry of a visual kit has its procedural row.
    pub fn kit_is_resolvable(&self, kit_id: u32) -> (res: bool)
        ensures
            res == kit_resolvable(self.tables(), kit_id),
    {
        let ghost t = self.tables();
        let rows = self.spell_visual_kit_effect_db.lookup(&kit_id);
        let ghost kit_rows = (t.kit_effects)(kit_id);
        for i in 0..rows.len()
            invariant
                rows@.len() == kit_rows.len(),
                kit_rows == (t.kit_effects)(kit_id),
                t == self.tables(),
                forall|l: int| 0 <= l < kit_rows.len() ==> cloned(kit_rows[l], #[trigger] rows@[l]),
                forall|l: int|
                    0 <= l < i && #[trigger] kit_rows[l].effect_type == 1 ==> (t.procedural)(
                        kit_rows[l].effect_id,
                    ).len() > 0,
        {
            let row = rows[i];
            assert(row == kit_rows[i as int]);
            if row.effect_type == 1 {
                let found = self.spell_procedural_effect_db.lookup(&row.effect_id);
                if found.len() == 0 {
                    return false;
                }
            }
        }
        true
    }

    /// Whether every visual kit that a visual reaches is resolvable.
    pub fn visual_is_resolvable(&self, visual_id: u32) -> (res: bool)
        ensures
            res == visual_resolvable(self.tables(), visual_id),
    {
        let ghost t = self.tables();
        let rows = self.spell_visual_event_db.lookup(&visual_id);
        let ghost event_rows = (t.events)(visual_id);
        for i in 0..rows.len()
            invariant
                rows@.len() == event_rows.len(),
                event_rows == (t.events)(visual_id),
                t == self.tables(),
                forall|l: int| 0 <= l < event_rows.len() ==> cloned(event_rows[l], #[trigger] rows@[l]),
                forall|l: int| 0 <= l < i ==> kit_resolvable(t, #[trigger] event_rows[l].visual_kit_id),
        {
            let row = rows[i];
            assert(row == event_rows[i as int]);
            if !self.kit_is_resolvable(row.visual_kit_id) {
                return false;
            }
        }
        true
    }

    /// Whether every visual that a spell reaches is resolvable.
    pub fn spell_is_resolvable(&self, spell_id: u32) -> (res: bool)
        ensures
            res == spell_resolvable(self.tables(), spell_id),
    {
        let ghost t = self.tables();
        let rows = self.spell_x_spell_visual_db.lookup(&spell_id);
        let ghost x_rows = (t.x_visuals)(spell_id);
        for i in 0..rows.len()
            invariant
                rows@.len() == x_rows.len(),
                x_rows == (t.x_visuals)(spell_id),
                t == self.tables(),
                forall|l: int| 0 <= l < x_rows.len() ==> cloned(x_rows[l], #[trigger] rows@[l]),
                forall|l: int| 0 <= l < i ==> visual_resolvable(t, #[trigger] x_rows[l].visual_id),
        {
            let row = rows[i];
            assert(row == x_rows[i as int]);
            if !self.visual_is_resolvable(row.visual_id) {
                return false;
            }
        }
        true
    }

    /// Whether a toy's spell and the missile spells it triggers are resolvable.
    pub fn toy_is_resolvable(&self, spell_id: u32) -> (res: bool)
        ensures
            res == toy_resolvable(self.tables(), spell_id),
    {
        let ghost t = self.tables();
        if !self.spell_is_resolvable(spell_id) {
            return false;
        }
        let rows = self.spell_effect_db.lookup(&spell_id);
        let ghost effect_rows = (t.effects)(spell_id);
        for i in 0..rows.len()
            invariant
                rows@.len() == effect_rows.len(),
                effect_rows == (t.effects)(spell_id),
                t == self.tables(),
                forall|l: int| 0 <= l < effect_rows.len() ==> cloned(effect_rows[l], #[trigger] rows@[l]),
                forall|l: int|
                    0 <= l < i && (#[trigger] effect_rows[l]).effect == 32
                        && effect_rows[l].trigger_spell_id > 0 ==> spell_resolvable(
                        t,
                        effect_rows[l].trigger_spell_id as u32,
                    ),
        {
            let row = rows[i];
            assert(row == effect_rows[i as int]);
            if row.effect == 32 && row.trigger_spell_id > 0 {
                if !self.spell_is_resolvable(row.trigger_spell_id as u32) {
                    return false;
                }
            }
        }
        true
    }

    /// The effects of one toy's spell and of the missile spells it triggers.
    pub fn toy_spell_effects(&self, spell_id: u32) -> (res: Vec<Effect>)
        requires
            toy_resolvable(self.tables(), spell_id),
        ensures
            res@ == toy_effects(self.tables(), spell_id),
    {
        let ghost t = self.tables();
        let mut result = find_spell_visuals(
            &spell_id,
            &self.spell_categories_db,
            &self.spell_effect_db,
            &self.spell_x_spell_visual_db,
            &self.spell_visual_event_db,
            &self.spell_visual_kit_effect_db,
            &self.spell_procedural_effect_db,
        );
        let ghost base = result@;
        let rows = self.spell_effect_db.lookup(&spell_id);
        let ghost effect_rows = (t.effects)(spell_id);
        for i in 0..rows.len()
            invariant
                rows@.len() == effect_rows.len(),
                effect_rows == (t.effects)(spell_id),
                t == self.tables(),
                toy_resolvable(t, spell_id),
                forall|l: int| 0 <= l < effect_rows.len() ==> cloned(effect_rows[l], #[trigger] rows@[l]),
                result@ == base + flat_map(effect_rows.take(i as int), trigger_effect_fn(t)),
        {
            let row = rows[i];
            assert(row == effect_rows[i as int]);
            proof {
                lemma_flat_map_take(effect_rows, trigger_effect_fn(t), i as int);
            }
            if row.effect == 32 && row.trigger_spell_id > 0 {
                // TRIGGER_MISSILE
                let mut more = find_spell_visuals(
                    &(row.trigger_spell_id as u32),
                    &self.spell_categories_db,
                    &self.spell_effect_db,
                    &self.spell_x_spell_visual_db,
                    &self.spell_visual_event_db,
                    &self.spell_visual_kit_effect_db,
                    &self.spell_procedural_effect_db,
                );
                result.append(&mut more);
            }
            assert(result@ =~= base + flat_map(effect_rows.take(i + 1), trigger_effect_fn(t)));
        }
        proof {
            lemma_take_all(effect_rows);
        }
        result
    }
}


/// `after` is `before` with `added` appended to its effects.
pub open spec fn toy_with_effects(before: Toy, after: Toy, added: Seq<Effect>) -> bool {
    &&& after.item_id == before.item_id
    &&& after.spell_id == before.spell_id
    &&& after.name == before.name
    &&& after.item_is_tradable == before.item_is_tradable
    &&& after.effects@ == before.effects@ + added
}

/// Whether every toy's spell can be resolved in the tables.
pub fn toys_resolvable(toys: &BTreeMap<u32, Toy>, dbs: &SpellDbs) -> (res: bool)
    ensures
        res == (forall|k: u32|
            #[trigger] toys@.contains_key(k) ==> toy_resolvable(dbs.tables(), toys@[k].spell_id)),
{
    let keys = sorted_keys(toys);
    for i in 0..keys.len()
        invariant
            keys@.to_set() == toys@.dom(),
            forall|l: int|
                0 <= l < i ==> toy_resolvable(dbs.tables(), toys@[#[trigger] keys@[l]].spell_id),
    {
        let k = keys[i];
        let toy = toys.get(&k).unwrap();
        if !dbs.toy_is_resolvable(toy.spell_id) {
            return false;
        }
    }
    proof {
        assert forall|k: u32| #[trigger] toys@.contains_key(k) implies toy_resolvable(
            dbs.tables(),
            toys@[k].spell_id,
        ) by {
            assert(keys@.to_set().contains(k));
            let l = choose|l: int| 0 <= l < keys@.len() && keys@[l] == k;
            assert(toy_resolvable(dbs.tables(), toys@[keys@[l]].spell_id));
        }
    }
    true
}

/// Appends to every toy the effects of its spell and of the missile spells
/// that the spell triggers.
pub fn collect_effects(toys: BTreeMap<u32, Toy>, dbs: &SpellDbs) -> (res: BTreeMap<u32, Toy>)
    requires
        forall|k: u32|
            #[trigger] toys@.contains_key(k) ==> toy_resolvable(dbs.tables(), toys@[k].spell_id),
    ensures
        res@.dom() == toys@.dom(),
        forall|k: u32|
            #[trigger] toys@.contains_key(k) ==> toy_with_effects(
                toys@[k],
                res@[k],
                toy_effects(dbs.tables(), toys@[k].spell_id),
            ),
{
    let ghost orig = toys@;
    let keys = sorted_keys(&toys);
    let mut toys = toys;
    for i in 0..keys.len()
        invariant
            keys@.to_set() == orig.dom(),
            strictly_increasing(keys@),
            toys@.dom() == orig.dom(),
            forall|k: u32|
                #[trigger] orig.contains_key(k) ==> toy_resolvable(dbs.tables(), orig[k].spell_id),
            forall|l: int|
                0 <= l < i ==> toy_with_effects(
                    orig[#[trigger] keys@[l]],
                    toys@[keys@[l]],
                    toy_effects(dbs.tables(), orig[keys@[l]].spell_id),
                ),
            forall|l: int| i <= l < keys@.len() ==> toys@[#[trigger] keys@[l]] == orig[keys@[l]],
    {
        let k = keys[i];
        assert(keys@.to_set().contains(k));
        let mut toy = toys.remove(&k).unwrap();
        let mut added = dbs.toy_spell_effects(toy.spell_id);
        toy.effects.append(&mut added);
        toys.insert(k, toy);
        assert forall|l: int| 0 <= l < keys@.len() && l != i implies keys@[l] != k by {
            if l < i {
                assert(keys@[l] < keys@[i as int]);
            } else {
                assert(keys@[i as int] < keys@[l]);
            }
        }
    }
    proof {
        assert forall|k: u32| #[trigger] orig.contains_key(k) implies toy_with_effects(
            orig[k],
            toys@[k],
            toy_effects(dbs.tables(), orig[k].spell_id),
        ) by {
            assert(keys@.to_set().contains(k));
            let l = choose|l: int| 0 <= l < keys@.len() && keys@[l] == k;
            assert(toy_with_effects(
                orig[keys@[l]],
                toys@[keys@[l]],
                toy_effects(dbs.tables(), orig[keys@[l]].spell_id),
            ));
        }
    }
    toys
}


/// Consecutive equal effects collapsed into the first of them.
pub open spec fn dedup_effects(s: Seq<Effect>) -> Seq<Effect>
    decreases s.len(),
{
    if s.len() == 0 {
        Seq::empty()
    } else {
        let r = dedup_effects(s.drop_last());
        if r.len() > 0 && effect_eq(r.last(), s.last()) {
            r
        } else {
            r.push(s.last())
        }
    }
}

pub open spec fn is_armor_item(e: Effect) -> bool {
    e is ArmorItem
}

/// The armor item effects, in order.
pub open spec fn armor_items(s: Seq<Effect>) -> Seq<Effect> {
    s.filter(|e: Effect| is_armor_item(e))
}

/// Three or more armor items form a set: they are listed last one first.
pub open spec fn armor_set(s: Seq<Effect>) -> Seq<Effect> {
    let a = armor_items(s);
    Seq::new(a.len(), |i: int| Effect::ArmorSetItem(a[a.len() - 1 - i]->ArmorItem_0))
}

/// An armor item placed by the inventory slot of its item.
pub open spec fn slot_effect(item_id: u32, inventory_type: u32) -> Effect {
    if inventory_type == 1 {
        Effect::ArmorHead(item_id)
    } else if inventory_type == 13 || inventory_type == 14 || inventory_type == 15 || inventory_type
        == 17 || inventory_type == 21 || inventory_type == 22 || inventory_type == 23
        || inventory_type == 26 {
        Effect::ArmorWeapon(item_id)
    } else if inventory_type == 16 {
        Effect::Cloak(item_id)
    } else {
        Effect::ArmorItem(item_id)
    }
}

/// An effect with its armor item placed by the item's first row.
pub open spec fn placed_effect(e: Effect, items: spec_fn(u32) -> Seq<Item>) -> Effect {
    match e {
        Effect::ArmorItem(id) => slot_effect(id, items(id)[0].inventory_type),
        _ => e,
    }
}

/// The effect list as the preview shows it: duplicates in a row dropped; a
/// hearthstone alone; a set of three or more armor items; else one or two
/// armor items placed by slot.
pub open spec fn cleaned_effects(s: Seq<Effect>, items: spec_fn(u32) -> Seq<Item>) -> Seq<Effect> {
    let d = dedup_effects(s);
    if d.contains(Effect::Hearthstone) {
        seq![Effect::Hearthstone]
    } else if armor_items(d).len() > 2 {
        armor_set(d)
    } else if armor_items(d).len() > 0 {
        d.map_values(|e: Effect| placed_effect(e, items))
    } else {
        d
    }
}

/// Every armor item that would be placed by slot has an item row.
pub open spec fn cleanup_resolvable(s: Seq<Effect>, items: spec_fn(u32) -> Seq<Item>) -> bool {
    let d = dedup_effects(s);
    !d.contains(Effect::Hearthstone) && 0 < armor_items(d).len() <= 2 ==> forall|i: int|
        0 <= i < d.len() && (#[trigger] d[i]) is ArmorItem ==> items(d[i]->ArmorItem_0).len() > 0
}

proof fn lemma_armor_items_push(s: Seq<Effect>, e: Effect)
    ensures
        armor_items(s.push(e)) == (if is_armor_item(e) {
            armor_items(s).push(e)
        } else {
            armor_items(s)
        }),
{
    reveal_with_fuel(Seq::filter, 1);
    assert(s.push(e).drop_last() =~= s);
}

fn dedup_vec(effects: &Vec<Effect>) -> (res: Vec<Effect>)
    ensures
        res@ == dedup_effects(effects@),
{
    let mut res: Vec<Effect> = Vec::new();
    for i in 0..effects.len()
        invariant
            res@ == dedup_effects(effects@.take(i as int)),
    {
        let e = effects[i];
        assert(effects@.take(i + 1).drop_last() =~= effects@.take(i as int));
        if res.len() > 0 && res[res.len() - 1] == e {
        } else {
            res.push(e);
        }
    }
    proof {
        lemma_take_all(effects@);
    }
    res
}

/// Collapses repeated effects, keeps a hearthstone alone, turns three or more
/// armor items into an armor set and places one or two by their item's slot.
pub fn cleanup_effect_list(effects: &mut Vec<Effect>, item_db: &LookupDB<Item>)
    requires
        cleanup_resolvable(old(effects)@, item_db.rows_fn()),
    ensures
        final(effects)@ == cleaned_effects(old(effects)@, item_db.rows_fn()),
{
    let d = dedup_vec(effects);
    let ghost items = item_db.rows_fn();

    // Hearthstones are only that
    let mut has_hearthstone = false;
    let mut armor_count: usize = 0;
    for i in 0..d.len()
        invariant
            has_hearthstone == d@.take(i as int).contains(Effect::Hearthstone),
            armor_count == armor_items(d@.take(i as int)).len(),
            armor_count <= i,
    {
        proof {
            assert(d@.take(i + 1) =~= d@.take(i as int).push(d@[i as int]));
            lemma_armor_items_push(d@.take(i as int), d@[i as int]);
        }
        match d[i] {
            Effect::Hearthstone => {
                has_hearthstone = true;
            },
            Effect::ArmorItem(_) => {
                armor_count = armor_count + 1;
            },
            _ => {},
        }
        proof {
            lemma_contains_push(d@.take(i as int), d@[i as int], Effect::Hearthstone);
        }
    }
    proof {
        lemma_take_all(d@);
    }
    if has_hearthstone {
        let mut only: Vec<Effect> = Vec::new();
        only.push(Effect::Hearthstone);
        assert(only@ =~= seq![Effect::Hearthstone]);
        *effects = only;
        return;
    }
    // 3 or more armor pieces are a set

    if armor_count > 2 {
        let mut collector: Vec<Effect> = Vec::new();
        let mut j: usize = d.len();
        while j > 0
            invariant
                j <= d@.len(),
                collector@.len() == armor_items(d@).len() - armor_items(d@.take(j as int)).len(),
                forall|m: int|
                    0 <= m < collector@.len() ==> collector@[m] == armor_set(d@)[m],
            decreases j,
        {
            j = j - 1;
            proof {
                assert(d@.take(j + 1) =~= d@.take(j as int).push(d@[j as int]));
                lemma_armor_items_push(d@.take(j as int), d@[j as int]);
                lemma_armor_items_prefix(d@, j as int + 1);
            }
            if let Effect::ArmorItem(item_id) = d[j] {
                proof {
                    let n = armor_items(d@.take(j + 1)).len();
                    assert(armor_items(d@.take(j + 1))[n - 1] == d@[j as int]);
                    assert(armor_items(d@)[n - 1] == d@[j as int]);
                }
                collector.push(Effect::ArmorSetItem(item_id));
            }
        }
        assert(collector@ =~= armor_set(d@));
        *effects = collector;
        return;
    }
    if armor_count > 0 {
        let mut placed: Vec<Effect> = Vec::new();
        for i in 0..d.len()
            invariant
                d@ == dedup_effects(old(effects)@),
                items == item_db.rows_fn(),
                cleanup_resolvable(old(effects)@, items),
                !d@.contains(Effect::Hearthstone),
                0 < armor_items(d@).len() <= 2,
                placed@ == d@.take(i as int).map_values(|e: Effect| placed_effect(e, items)),
        {
            let e = d[i];
            let next = match e {
                Effect::ArmorItem(item_id) => {
                    assert(d@[i as int] is ArmorItem);
                    let rows = item_db.lookup(&item_id);
                    let inventory_slot = rows[0].inventory_type;
                    if inventory_slot == 1 {
                        Effect::ArmorHead(item_id)
                    } else if inventory_slot == 13 || inventory_slot == 14 || inventory_slot == 15
                        || inventory_slot == 17 || inventory_slot == 21 || inventory_slot == 22
                        || inventory_slot == 23 || inventory_slot == 26 {
                        Effect::ArmorWeapon(item_id)
                    } else if inventory_slot == 16 {
                        Effect::Cloak(item_id)
                    } else {
                        Effect::ArmorItem(item_id)
                    }
                },
                _ => e,
            };
            placed.push(next);
            assert(placed@ =~= d@.take(i + 1).map_values(|e: Effect| placed_effect(e, items)));
        }
        proof {
            lemma_take_all(d@);
        }
        *effects = placed;
        return;
    }
    *effects = d;
}

proof fn lemma_contains_push(s: Seq<Effect>, e: Effect, x: Effect)
    ensures
        s.push(e).contains(x) <==> (s.contains(x) || e == x),
{
    if e == x {
        assert(s.push(e)[s.len() as int] == x);
    }
    if s.contains(x) {
        let j = choose|j: int| 0 <= j < s.len() && s[j] == x;
        assert(s.push(e)[j] == x);
    }
    if s.push(e).contains(x) {
        let j = choose|j: int| 0 <= j < s.push(e).len() && s.push(e)[j] == x;
        if j < s.len() {
            assert(s[j] == x);
        }
    }
}

proof fn lemma_armor_items_prefix(s: Seq<Effect>, j: int)
    requires
        0 <= j <= s.len(),
    ensures
        armor_items(s.take(j)).len() <= armor_items(s).len(),
        armor_items(s.take(j)) =~= armor_items(s).take(armor_items(s.take(j)).len() as int),
    decreases s.len() - j,
{
    if j < s.len() {
        lemma_armor_items_prefix(s, j + 1);
        assert(s.take(j + 1) =~= s.take(j).push(s[j]));
        lemma_armor_items_push(s.take(j), s[j]);
    } else {
        lemma_take_all(s);
    }
}

} // verus!
