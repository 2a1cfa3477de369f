use std::collections::BTreeMap;

use mount_toy_db::tools::db_reader::{load_item_effects, LookupDB};
use mount_toy_db::tools::dbs::ItemEffect;
use mount_toy_db::toy::dbs::{
    ChrRace, Item, ItemSparse, SpellCategories, SpellEffect, SpellProceduralEffect, SpellVisualEvent,
    SpellVisualKitEffect, SpellXSpellVisual, Toy as ToyRow,
};
use mount_toy_db::toy::effect::{cleanup_effect_list, collect_effects, find_spell_visuals, Effect, ItemsById, SpellDbs};
use mount_toy_db::toy::export::{format_effects, Exporter};
use mount_toy_db::toy::factions::{Faction, FactionParser};
use mount_toy_db::toy::{collect_toys, first_use_spell, handle_toys, Toy, ToySources};

fn spell_effect(spell_id: u32, effect_aura: u32, effect: u32, trigger_spell_id: i32, points: f32) -> SpellEffect {
    SpellEffect {
        spell_id,
        effect_aura,
        effect,
        trigger_spell_id,
        implicit_target: 1,
        effect_points_bits: points.to_bits(),
    }
}

fn sample_dbs() -> SpellDbs {
    SpellDbs::new(
        vec![SpellCategories { spell_id: 100, category: 1176 }, SpellCategories { spell_id: 101, category: 2066 }],
        vec![
            spell_effect(200, 61, 6, 0, 1.5),
            spell_effect(201, 61, 6, 0, -0.5),
            spell_effect(400, 0, 32, 100, 0.0),
            spell_effect(400, 0, 32, -1, 0.0),
        ],
        vec![SpellXSpellVisual { spell_id: 300, visual_id: 30 }],
        vec![SpellVisualEvent { visual_id: 30, visual_kit_id: 3 }],
        vec![
            SpellVisualKitEffect { visual_kit_id: 3, effect_type: 1, effect_id: 9 },
            SpellVisualKitEffect { visual_kit_id: 3, effect_type: 7, effect_id: 0 },
            SpellVisualKitEffect { visual_kit_id: 3, effect_type: 2, effect_id: 0 },
        ],
        vec![SpellProceduralEffect {
            id: 9,
            effect_type: 17,
            value_0_bits: 0,
            value_1_bits: 12345.0f32.to_bits(),
            value_2_bits: 0,
        }],
    )
}

fn visuals(dbs: &SpellDbs, spell: u32) -> Vec<Effect> {
    find_spell_visuals(
        &spell,
        &dbs.spell_categories_db,
        &dbs.spell_effect_db,
        &dbs.spell_x_spell_visual_db,
        &dbs.spell_visual_event_db,
        &dbs.spell_visual_kit_effect_db,
        &dbs.spell_procedural_effect_db,
    )
}

#[test]
fn spell_visuals_by_kind() {
    let dbs = sample_dbs();
    assert_eq!(visuals(&dbs, 100), vec![Effect::Hearthstone]);
    assert_eq!(visuals(&dbs, 101), vec![Effect::Mail]);
    assert_eq!(visuals(&dbs, 200), vec![Effect::Bigger(1.5f32.to_bits())]);
    assert_eq!(visuals(&dbs, 201), vec![Effect::Smaller(0.5f32.to_bits())]);
    assert_eq!(visuals(&dbs, 300), vec![Effect::ArmorItem(12345), Effect::Color(3)]);
    assert!(visuals(&dbs, 999).is_empty());
}

#[test]
fn effect_keys_and_values() {
    assert_eq!(Effect::Bigger(2.7f32.to_bits()).as_str(), "bigger");
    assert_eq!(Effect::Bigger(2.7f32.to_bits()).value(), 2);
    assert_eq!(Effect::Smaller(0.5f32.to_bits()).value(), 0);
    assert_eq!(Effect::ArmorSetItem(5).as_str(), "armor_set");
    assert_eq!(Effect::ArmorSetItem(5).value(), 5);
    assert_eq!(Effect::Hearthstone.value(), 1);
    assert_eq!(Effect::FullBody(1, 2).as_str(), "full_body");
}

fn toy(item_id: u32, spell_id: u32) -> Toy {
    Toy { item_id, spell_id, name: format!("toy {}", item_id), item_is_tradable: false, effects: vec![] }
}

#[test]
fn collect_effects_adds_missile_spells() {
    let dbs = sample_dbs();
    let mut toys = BTreeMap::new();
    toys.insert(1u32, toy(1, 400));
    toys.insert(2u32, toy(2, 300));
    let toys = collect_effects(toys, &dbs);
    assert_eq!(toys.get(&1).unwrap().effects, vec![Effect::Hearthstone]);
    assert_eq!(toys.get(&2).unwrap().effects, vec![Effect::ArmorItem(12345), Effect::Color(3)]);
    assert_eq!(toys.get(&2).unwrap().name, "toy 2");
}

#[test]
fn unresolvable_procedural_kit_is_detected() {
    let dbs = SpellDbs::new(
        vec![],
        vec![],
        vec![SpellXSpellVisual { spell_id: 1, visual_id: 2 }],
        vec![SpellVisualEvent { visual_id: 2, visual_kit_id: 3 }],
        vec![SpellVisualKitEffect { visual_kit_id: 3, effect_type: 1, effect_id: 77 }],
        vec![],
    );
    assert!(!dbs.toy_is_resolvable(1));
    assert!(dbs.toy_is_resolvable(2));
}

#[test]
fn cleanup_hearthstone_alone() {
    let items = LookupDB::new_from_data(vec![], ItemsById);
    let mut effects = vec![Effect::Mail, Effect::Hearthstone, Effect::Color(1)];
    cleanup_effect_list(&mut effects, &items);
    assert_eq!(effects, vec![Effect::Hearthstone]);
}

#[test]
fn cleanup_three_armor_items_form_a_set() {
    let items = LookupDB::new_from_data(vec![], ItemsById);
    let mut effects = vec![
        Effect::ArmorItem(1),
        Effect::ArmorItem(1),
        Effect::Color(4),
        Effect::ArmorItem(2),
        Effect::ArmorItem(3),
    ];
    cleanup_effect_list(&mut effects, &items);
    assert_eq!(effects, vec![Effect::ArmorSetItem(3), Effect::ArmorSetItem(2), Effect::ArmorSetItem(1)]);
}

#[test]
fn cleanup_places_items_by_slot() {
    let items = LookupDB::new_from_data(
        vec![Item { item_id: 10, inventory_type: 16 }, Item { item_id: 11, inventory_type: 1 }],
        ItemsById,
    );
    let mut effects = vec![Effect::ArmorItem(10), Effect::Color(2), Effect::ArmorItem(11), Effect::Color(2)];
    cleanup_effect_list(&mut effects, &items);
    assert_eq!(effects, vec![Effect::Cloak(10), Effect::Color(2), Effect::ArmorHead(11), Effect::Color(2)]);
    let weapons = LookupDB::new_from_data(vec![Item { item_id: 12, inventory_type: 21 }], ItemsById);
    let mut single = vec![Effect::ArmorItem(12)];
    cleanup_effect_list(&mut single, &weapons);
    assert_eq!(single, vec![Effect::ArmorWeapon(12)]);
}

#[test]
fn cleanup_keeps_nan_scales_apart() {
    let items = LookupDB::new_from_data(vec![], ItemsById);
    let mut effects = vec![Effect::Bigger(f32::NAN.to_bits()), Effect::Bigger(f32::NAN.to_bits())];
    cleanup_effect_list(&mut effects, &items);
    assert_eq!(effects.len(), 2);
}

#[test]
fn preview_groups_by_kind() {
    let value = format_effects(&vec![Effect::Color(3), Effect::ArmorItem(12345), Effect::Color(4)]);
    assert_eq!(value, "{[\"armor\"] = {12345,},[\"color\"] = {3,4,}, }");
}

fn item_effect(item_id: u32, trigger_type: i32, spell_id: i32) -> ItemEffect {
    ItemEffect { id: 0, trigger_type, spell_id, item_id }
}

fn sparse(item_id: u32, name: &str, bonding: i32) -> ItemSparse {
    ItemSparse { item_id, display_text: name.to_string(), bonding }
}

fn sources(toy_rows: Vec<ToyRow>, sparse_rows: Vec<ItemSparse>, effects: Vec<ItemEffect>) -> ToySources {
    ToySources {
        toy_db: toy_rows,
        item_sparse_rows: sparse_rows,
        item_effects_db: load_item_effects(None, effects, false),
        spell_dbs: sample_dbs(),
    }
}

#[test]
fn use_spell_is_first_on_use_effect() {
    let effects = vec![item_effect(1, 6, 5), item_effect(1, 0, 300), item_effect(1, 0, 400)];
    assert_eq!(first_use_spell(&effects), Some(300));
    assert_eq!(first_use_spell(&vec![item_effect(1, 6, 5)]), None);
}

#[test]
fn collect_toys_reads_names_and_trade() {
    let s = sources(
        vec![ToyRow { toy_id: 1, item_id: 50 }, ToyRow { toy_id: 2, item_id: 51 }, ToyRow { toy_id: 3, item_id: 52 }],
        vec![sparse(50, "Hearth Toy", 3), sparse(51, "Dev Armor", 0)],
        vec![item_effect(50, 0, 100), item_effect(51, 6, 300), item_effect(52, 0, 300)],
    );
    let toys = collect_toys(s.toy_db, s.item_sparse_rows, &s.item_effects_db, &s.spell_dbs);
    assert_eq!(toys.len(), 2);
    let hearth = toys.get(&50).unwrap();
    assert_eq!(hearth.name, "Hearth Toy");
    assert!(hearth.item_is_tradable);
    assert_eq!(hearth.spell_id, 100);
    assert_eq!(hearth.effects, vec![Effect::Hearthstone]);
    let unnamed = toys.get(&52).unwrap();
    assert_eq!(unnamed.name, "");
    assert!(!unnamed.item_is_tradable);
}

#[test]
fn toy_tables_text() {
    let exporter = Exporter::new("out");
    let mut toys = BTreeMap::new();
    let mut t = toy(50, 100);
    t.item_is_tradable = true;
    t.effects = vec![Effect::Hearthstone];
    toys.insert(50u32, t);
    toys.insert(7u32, toy(7, 1));
    let tradable = exporter.export_tradable(&toys);
    assert_eq!(tradable.path, "out/tradable.db.lua");
    assert_eq!(tradable.text, "local _, ADDON = ...\n\nADDON.db.Tradable = {\n[50] = true, -- toy 50\n}\n");
    let all = exporter.export_toys(&toys);
    assert_eq!(
        all.text,
        "local _, ADDON = ...\n\nADDON.db.ingameList = {\n[7] = false, -- toy 7\n[50] = false, -- toy 50\n}\n"
    );
    let preview = exporter.export_effects(&toys);
    assert_eq!(preview.path, "out/preview.db.lua");
    assert_eq!(
        preview.text,
        "local _, ADDON = ...\n\nADDON.db.preview = {\n[50] = {[\"hearthstone\"] = {1,}, }, -- toy 50\n}\n"
    );
}

#[test]
fn handle_toys_merges_and_ignores() {
    let classic = sources(
        vec![ToyRow { toy_id: 1, item_id: 50 }, ToyRow { toy_id: 2, item_id: 60 }],
        vec![sparse(50, "Old Name", 0), sparse(60, "Gone", 0)],
        vec![item_effect(50, 0, 100), item_effect(60, 0, 101)],
    );
    let retail = sources(
        vec![ToyRow { toy_id: 1, item_id: 50 }],
        vec![sparse(50, "New Name", 3)],
        vec![item_effect(50, 0, 200)],
    );
    let files = handle_toys(classic, retail, vec![60], "x").unwrap();
    assert_eq!(files.len(), 3);
    assert_eq!(files[0].text, "local _, ADDON = ...\n\nADDON.db.Tradable = {\n[50] = true, -- New Name\n}\n");
    assert_eq!(files[2].path, "x/preview.db.lua");
    let bigger = 1.5f32.to_bits();
    assert_eq!(Effect::Bigger(bigger).value(), 1);
    assert!(files[2].text.contains("[50] = {[\"bigger\"] = {1,}, }, -- New Name"));
}

#[test]
fn handle_toys_rejects_unknown_ignored_id() {
    let classic = sources(vec![ToyRow { toy_id: 1, item_id: 50 }], vec![], vec![item_effect(50, 0, 100)]);
    let retail = sources(vec![], vec![], vec![]);
    assert_eq!(handle_toys(classic, retail, vec![50, 50], "x").err(), Some(50));
}

#[test]
fn factions_from_races_and_flags() {
    let parser = FactionParser::new(vec![
        ChrRace { race_bit: 0, alliance: 0 },
        ChrRace { race_bit: 1, alliance: 1 },
        ChrRace { race_bit: -1, alliance: 0 },
        ChrRace { race_bit: 5, alliance: 2 },
    ]);
    assert_eq!(parser.determine_faction(0b1, [0, 0, 0, 0, 0]), Some(Faction::Alliance));
    assert_eq!(parser.determine_faction(0b10, [0, 0, 0, 0, 0]), Some(Faction::Horde));
    assert_eq!(parser.determine_faction(0b100000, [0, 0, 0, 0, 0]), None);
    assert_eq!(parser.determine_faction(-1, [0, 0, 0, 0, 0]), None);
    assert_eq!(parser.determine_faction(0b1, [0, 1, 0, 0, 0]), Some(Faction::Horde));
    assert_eq!(parser.determine_faction(0b10, [0, 2, 0, 0, 0]), Some(Faction::Alliance));
}
