use std::collections::{BTreeMap, HashMap};

use mount_toy_db::mount::condition::{parse_conditions, ConditionGroup};
use mount_toy_db::mount::customization::{collect_customization, Customization, CustomizationSource};
use mount_toy_db::mount::export::{Exporter, Rgb};
use mount_toy_db::mount::family::{group_by_families, match_by_family, match_by_id, FamilyCategory, FamilyRule};
use mount_toy_db::mount::image::{add_model_textures, collect_files, DisplayById, ModelById};
use mount_toy_db::mount::rarity::rarity_json;
use mount_toy_db::mount::sources::{
    clean_drops_listview, collect_black_market_mounts, collect_featsofstrength_mounts, drop_record,
    drops_listview_json, filter_mounts_by_names, head_server, is_drop_candidate, item_url, manual_npc,
    mapper_data_jsons, mount_items_url, needs_position, npc_from_listing, npc_url, DropChance, DropData,
    ItemListing, LootEntry, MapPosition, NpcDecision, SourceMore,
};
use mount_toy_db::mount::wcm::{load_wcm_families, load_wcm_retired_mounts, parse_name};
use mount_toy_db::mount::{
    collect_mounts, handle_mounts, icons_found, CustomizationSources, Mount, MountSources, MountTables, MountsError,
};
use mount_toy_db::tools::db_reader::{load_item_effects, LookupDB};
use mount_toy_db::tools::ProductVersion;
use mount_toy_db::tools::dbs;
use mount_toy_db::tools::dbs::{
    CreatureDisplayInfo, CreatureModel, ItemEffect, ItemSparse, MountXDisplay, PlayerCondition, SpellEffect, SpellMisc,
};

fn values(groups: &Vec<Vec<mount_toy_db::mount::condition::Condition>>) -> Vec<Vec<String>> {
    groups.iter().map(|g| g.iter().map(|c| c.value.clone()).collect()).collect()
}

#[test]
fn conditions_by_group() {
    let groups = parse_conditions(0x4 | 0x200, "", 0x80 | 0x1, 0);
    assert_eq!(values(&groups), vec![vec!["\"WARRIOR\"", "\"MAGE\""], vec!["\"Dwarf\"", "\"BloodElf\""]]);
    assert!(groups[0][0].group == ConditionGroup::Class);
    assert!(groups[1][0].group == ConditionGroup::Race);
    let skill = parse_conditions(0, "Requires Kyrian covenant", 0, 202);
    assert_eq!(values(&skill), vec![vec!["202"], vec!["1"]]);
    assert!(skill[0][0].group == ConditionGroup::Skill);
    assert!(skill[1][0].group == ConditionGroup::Covenant);
    assert!(parse_conditions(6130900294268439629, "", 0, 0).is_empty());
    assert_eq!(values(&parse_conditions(0, "Venthyr only", 0, -3)), vec![vec!["-3"], vec!["2"]]);
}

fn mount_row(id: u32, name: &str, type_id: u32, spell_id: u32, player_condition_id: u32) -> dbs::Mount {
    dbs::Mount { id, name: name.to_string(), type_id, spell_id, player_condition_id, source_type: 0 }
}

fn tables() -> MountTables {
    MountTables::new(
        vec![PlayerCondition {
            id: 5,
            description: String::new(),
            race_mask: 0x4,
            class_mask: 0x80,
            skill_id: 0,
            quest_id: 0,
        }],
        vec![SpellMisc { spell_id: 1000, spell_icon_file_id: 77 }, SpellMisc { spell_id: 1001, spell_icon_file_id: 78 }],
        vec![ItemSparse { item_id: 300, display_text: "Reins".to_string(), bonding: 0, description_id: 0 }],
        load_item_effects(
            None,
            vec![ItemEffect { id: 1, trigger_type: 6, spell_id: 1000, item_id: 300 }],
            true,
        ),
    )
}

fn list_file() -> HashMap<i64, String> {
    let mut lf = HashMap::new();
    lf.insert(77i64, "Interface/Icons/Ability_Mount_Horse.blp".to_string());
    lf.insert(78i64, "sound/horse.ogg".to_string());
    lf
}

#[test]
fn collect_mounts_completes_rows() {
    let rows = vec![mount_row(10, "Horse", 230, 1000, 5), mount_row(11, "Pony", 230, 1002, 0)];
    let t = tables();
    let lf = list_file();
    assert!(icons_found(&rows, &t, &lf));
    let mounts = collect_mounts(rows, &t, &lf);
    let horse = mounts.get(&10).unwrap();
    assert_eq!(horse.icon, "Ability_Mount_Horse");
    assert_eq!(horse.item_id, Some(300));
    assert!(horse.item_is_tradeable);
    assert_eq!(values(&horse.player_conditions), vec![vec!["\"MAGE\""], vec!["\"Dwarf\""]]);
    let pony = mounts.get(&11).unwrap();
    assert_eq!(pony.icon, "");
    assert_eq!(pony.item_id, None);
    assert!(!pony.item_is_tradeable);
    assert!(pony.player_conditions.is_empty());
}

#[test]
fn icon_path_without_icon_is_reported() {
    let rows = vec![mount_row(12, "Odd", 230, 1001, 0)];
    assert!(!icons_found(&rows, &tables(), &list_file()));
}

fn mount(id: u32, name: &str, type_id: u32, icon: &str) -> Mount {
    Mount {
        id,
        spell_id: 0,
        type_id,
        name: name.to_string(),
        icon: icon.to_string(),
        item_id: None,
        item_is_tradeable: false,
        player_conditions: vec![],
        source_type: 0,
    }
}

#[test]
fn names_from_pages() {
    assert_eq!(parse_name("Swift &amp; Brown Horse [Horde]"), "swift & brown horse");
    let html = "<img class='thumbimage' src='a.png' alt='Old Wolf [Alliance]' /> x <img class='thumbimage' src='b.png' alt='Raven' />";
    assert_eq!(load_wcm_retired_mounts(html), vec!["old wolf", "raven"]);
    let mut mounts = BTreeMap::new();
    mounts.insert(3u32, mount(3, "Raven", 230, ""));
    mounts.insert(1u32, mount(1, "Old Wolf", 230, ""));
    mounts.insert(2u32, mount(2, "Horse", 230, ""));
    assert_eq!(collect_black_market_mounts(&mounts, html), vec![1, 3]);
    assert_eq!(filter_mounts_by_names(&mounts, vec!["horse".to_string()]), vec![2]);
    assert!(collect_featsofstrength_mounts(&mounts, vec![], vec![]).is_empty());
}

#[test]
fn gallery_families() {
    let html = "<h5><a id='drakes'>Drakes</a></h5> <img class='thumbimage' src='x' alt='Red Drake' /> </div>\n </span>";
    let pairs = load_wcm_families(html);
    assert_eq!(pairs, vec![("red drake".to_string(), "drakes".to_string())]);
}

fn rule(name: &str, wcm: Option<Vec<&str>>, icons: Option<Vec<&str>>, ids: Option<Vec<u32>>) -> FamilyRule {
    FamilyRule {
        name: name.to_string(),
        wcm: wcm.map(|v| v.iter().map(|s| s.to_string()).collect()),
        icons: icons.map(|v| v.iter().map(|s| s.to_string()).collect()),
        ids,
    }
}

fn config() -> Vec<FamilyCategory> {
    vec![
        FamilyCategory {
            rule: rule("Horses", Some(vec!["horse"]), None, None),
            subfamily: Some(vec![rule("Ponies", None, None, Some(vec![11]))]),
        },
        FamilyCategory { rule: rule("Birds", Some(vec!["bird"]), Some(vec!["raven"]), None), subfamily: None },
    ]
}

#[test]
fn family_matching() {
    let c = config();
    assert_eq!(
        match_by_family(&c, &"horse".to_string(), &"anything".to_string()),
        vec![("Horses".to_string(), None)]
    );
    assert!(match_by_family(&c, &"bird".to_string(), &"eagle".to_string()).is_empty());
    assert_eq!(match_by_family(&c, &"bird".to_string(), &"ability_raven".to_string()), vec![("Birds".to_string(), None)]);
    assert_eq!(match_by_id(&11, &c), vec![("Horses".to_string(), Some("Ponies".to_string()))]);
    assert!(match_by_id(&12, &c).is_empty());
}

#[test]
fn families_grouped_and_exported() {
    let mut mounts = BTreeMap::new();
    mounts.insert(10u32, mount(10, "Horse", 230, "x"));
    mounts.insert(11u32, mount(11, "Pony", 230, "x"));
    mounts.insert(12u32, mount(12, "Raven Lord", 230, "ability_raven"));
    mounts.insert(13u32, mount(13, "Stranger", 230, "x"));
    let wcm = vec![
        ("horse".to_string(), "horse".to_string()),
        ("raven lord".to_string(), "bird".to_string()),
        ("horse".to_string(), "horse".to_string()),
    ];
    let families = group_by_families(&mounts, &config(), &wcm);
    assert_eq!(families.len(), 2);
    assert_eq!(families[0].0, "Birds");
    assert_eq!(families[0].1.mount_ids, vec![12]);
    assert_eq!(families[1].0, "Horses");
    assert_eq!(families[1].1.mount_ids, vec![10]);
    assert_eq!(families[1].1.sub_nodes, vec![("Ponies".to_string(), vec![11])]);
    let file = Exporter::new("out").export_families(&mounts, &families);
    assert_eq!(file.path, "out/families.db.lua");
    assert_eq!(
        file.text,
        "local _, ADDON = ...\n\nADDON.DB.Family = {\n[\"Birds\"] = {\n[12] = true, -- Raven Lord\n},\n[\"Horses\"] = {\n[10] = true, -- Horse\n[\"Ponies\"] = {\n[11] = true, -- Pony\n},\n},\n}\n"
    );
}

#[test]
fn customization_of_schematics_and_mechanocat() {
    let mut mounts = BTreeMap::new();
    mounts.insert(5u32, mount(5, "Drake", 402, ""));
    mounts.insert(1239u32, mount(1239, "X-995 Mechanocat", 230, ""));
    mounts.insert(6u32, mount(6, "Other", 230, ""));
    let items = vec![
        ItemSparse { item_id: 900, display_text: "Drake: Horns".to_string(), bonding: 0, description_id: 13926 },
        ItemSparse { item_id: 901, display_text: "Drake Schematic: Tail".to_string(), bonding: 0, description_id: 14163 },
        ItemSparse { item_id: 902, display_text: "Drake: Wings".to_string(), bonding: 0, description_id: 1 },
    ];
    let item_effects = load_item_effects(
        None,
        vec![
            ItemEffect { id: 1, trigger_type: 0, spell_id: 5000, item_id: 900 },
            ItemEffect { id: 2, trigger_type: 0, spell_id: 5001, item_id: 901 },
            ItemEffect { id: 3, trigger_type: 0, spell_id: 5002, item_id: 902 },
        ],
        false,
    );
    let spell_effects = vec![
        SpellEffect { spell_id: 5000, effect_aura: 0, effect: 16, trigger_spell_id: 0, implicit_target: 0, effect_misc_value: 777, effect_points_bits: 0 },
        SpellEffect { spell_id: 5001, effect_aura: 0, effect: 16, trigger_spell_id: 0, implicit_target: 0, effect_misc_value: 776, effect_points_bits: 0 },
        SpellEffect { spell_id: 5001, effect_aura: 0, effect: 16, trigger_spell_id: 0, implicit_target: 0, effect_misc_value: 777, effect_points_bits: 0 },
        SpellEffect { spell_id: 5002, effect_aura: 0, effect: 16, trigger_spell_id: 0, implicit_target: 0, effect_misc_value: 1, effect_points_bits: 0 },
    ];
    let customs = collect_customization(&mounts, &item_effects, items, spell_effects);
    assert_eq!(customs.len(), 2);
    let drake = customs.get(&5).unwrap();
    assert_eq!(drake.achievement, None);
    assert_eq!(drake.quest, Some(vec![776, 777]));
    let cat = customs.get(&1239).unwrap();
    assert_eq!(cat.achievement, Some(vec![13513]));
    assert_eq!(cat.quest, Some(vec![55451, 55452, 55454, 55455, 55456, 55457, 55517]));
    let file = Exporter::new("o").export_customization(&mounts, &customs);
    assert_eq!(
        file.text,
        "local _, ADDON = ...\n\nADDON.DB.Customization = {\n[5] = {\n [\"quest\"]={776,777,},\n }, -- Drake\n[1239] = {\n [\"achievement\"]={13513,},\n [\"quest\"]={55451,55452,55454,55455,55456,55457,55517,},\n }, -- X-995 Mechanocat\n}\n"
    );
    assert_eq!(CustomizationSource::Quest.to_str(), "quest");
    assert_eq!(CustomizationSource::Achievement.to_str(), "achievement");
    let empty = Customization { achievement: None, quest: None };
    assert!(empty.quest.is_none());
}

#[test]
fn tradable_conditions_and_colors_text() {
    let mut mounts = BTreeMap::new();
    let mut horse = mount(10, "Horse", 230, "");
    horse.item_is_tradeable = true;
    horse.player_conditions = parse_conditions(0x4, "", 0x80, 0);
    mounts.insert(10u32, horse);
    mounts.insert(3u32, mount(3, "Cat", 230, ""));
    let exporter = Exporter::new("dir");
    assert_eq!(
        exporter.export_tradable(&mounts).text,
        "local _, ADDON = ...\n\nADDON.DB.Tradable = {\n[10] = true, -- Horse\n}\n"
    );
    assert_eq!(
        exporter.export_conditions(&mounts).text,
        "local _, ADDON = ...\n\nADDON.DB.Restrictions = {\n[10] = { [\"class\"]={\"MAGE\",}, [\"race\"]={\"Dwarf\",}, }, -- Horse\n}\n"
    );
    let mut colors = HashMap::new();
    colors.insert(10u32, vec![Rgb { red: 1, green: 2, blue: 3 }, Rgb { red: 40, green: 50, blue: 255 }]);
    let file = exporter.export_colors(&mounts, &colors);
    assert_eq!(file.path, "dir/colors.db.lua");
    assert_eq!(
        file.text,
        "local _, ADDON = ...\n\nADDON.DB.Colors = {\n[10] = { {1,2,3}, {40,50,255}, }, -- Horse\n}\n"
    );
}

#[test]
fn drop_decisions() {
    let mut m = mount(300, "Drake", 230, "");
    m.item_id = Some(5);
    assert!(is_drop_candidate(&m));
    m.source_type = 5;
    assert!(!is_drop_candidate(&m));
    m.id = 1257;
    assert!(is_drop_candidate(&m));
    m.id = 200;
    assert!(!is_drop_candidate(&m));
    assert_eq!(manual_npc(89783), Some(62346));
    assert_eq!(manual_npc(1), None);
    let listing = ItemListing { sources: Some(vec![1, 2]), first_sourcemore: Some(SourceMore { t: Some(1), ti: Some(777) }) };
    assert_eq!(npc_from_listing(300, 89783, &listing), NpcDecision::Npc(777));
    let manual = ItemListing { sources: Some(vec![2]), first_sourcemore: Some(SourceMore { t: Some(3), ti: None }) };
    assert_eq!(npc_from_listing(300, 89783, &manual), NpcDecision::Npc(62346));
    let unknown = ItemListing { sources: Some(vec![2]), first_sourcemore: None };
    assert_eq!(npc_from_listing(300, 1, &unknown), NpcDecision::Skip);
    assert_eq!(npc_from_listing(3000, 1, &unknown), NpcDecision::FetchItemPage);
    let vendor = ItemListing { sources: Some(vec![1]), first_sourcemore: None };
    assert_eq!(npc_from_listing(3000, 1, &vendor), NpcDecision::Skip);
    assert_eq!(npc_from_listing(3000, 1, &ItemListing { sources: None, first_sourcemore: None }), NpcDecision::Skip);
}

#[test]
fn drop_records() {
    let pos = Some(MapPosition { map_id: 1, map_x: 50, map_y: 60 });
    let loot = Some(LootEntry { instance_drop: false, count: Some(3), outof: Some(300) });
    assert_eq!(
        drop_record(7, &loot, None),
        Some(DropData { npc_id: 7, map_position: None, drop_chance: Some(DropChance { count: 3, total: 300 }) })
    );
    let instance = Some(LootEntry { instance_drop: true, count: None, outof: None });
    assert_eq!(drop_record(7, &instance, pos), None);
    assert!(!needs_position(&instance));
    assert!(needs_position(&loot));
    assert!(needs_position(&None));
    let no_kills = Some(LootEntry { instance_drop: false, count: Some(1), outof: Some(0) });
    assert_eq!(drop_record(7, &no_kills, None), None);
    let no_count = Some(LootEntry { instance_drop: false, count: None, outof: Some(10) });
    assert_eq!(
        drop_record(7, &no_count, None),
        Some(DropData { npc_id: 7, map_position: None, drop_chance: Some(DropChance { count: 0, total: 10 }) })
    );
    assert_eq!(
        drop_record(7, &None, pos),
        Some(DropData { npc_id: 7, map_position: pos, drop_chance: None })
    );
    assert_eq!(drop_record(7, &None, None), None);
}

#[test]
fn display_files_by_mount() {
    let displays = vec![MountXDisplay { creature_info_id: 1, mount_id: 10 }, MountXDisplay { creature_info_id: 2, mount_id: 11 }];
    let creatures = LookupDB::new_from_data(
        vec![
            CreatureDisplayInfo { id: 1, model_id: 7, texture_variant_file_id_0: 101, texture_variant_file_id_1: 0, texture_variant_file_id_2: 999, texture_variant_file_id_3: -1 },
            CreatureDisplayInfo { id: 2, model_id: 7, texture_variant_file_id_0: 0, texture_variant_file_id_1: 0, texture_variant_file_id_2: 0, texture_variant_file_id_3: 0 },
        ],
        DisplayById,
    );
    let models = LookupDB::new_from_data(vec![CreatureModel { id: 7, file_id: 100 }], ModelById);
    let mut lf = HashMap::new();
    lf.insert(100i64, "creature/horse/horse.m2".to_string());
    lf.insert(101i64, "creature/horse/horse_skin.blp".to_string());
    let files = collect_files(&displays, &creatures, &models, &lf);
    assert_eq!(files.referenced.len(), 3);
    assert_eq!(files.model_files.get(&10), Some(&vec!["creature/horse/horse.m2".to_string()]));
    assert_eq!(files.model_files.get(&11), Some(&vec!["creature/horse/horse.m2".to_string()]));
    assert_eq!(files.mount_files.get(&10), Some(&vec!["creature/horse/horse_skin.blp".to_string()]));
    assert_eq!(files.mount_files.get(&11), None);
    let mut mount_files = files.mount_files;
    let added = add_model_textures(&mut mount_files, 11, &vec![101, 5, -2], &lf);
    assert_eq!(added, vec![(101i64, "creature/horse/horse_skin.blp".to_string())]);
    assert_eq!(mount_files.get(&11), Some(&vec!["creature/horse/horse_skin.blp".to_string()]));
}

fn mount_sources(rows: Vec<dbs::Mount>) -> MountSources {
    MountSources { mount_db: rows, tables: tables() }
}

fn customization_sources() -> CustomizationSources {
    CustomizationSources { item_effects_db: load_item_effects(None, vec![], false), item_sparse: vec![], spell_effects: vec![] }
}

#[test]
fn handle_mounts_writes_five_tables() {
    let classic = mount_sources(vec![mount_row(10, "Old Horse", 230, 1000, 5), mount_row(20, "Ignored", 230, 1002, 0)]);
    let retail = mount_sources(vec![mount_row(10, "Horse", 230, 1000, 0)]);
    let files = handle_mounts(
        classic,
        retail,
        &list_file(),
        vec![20],
        &config(),
        &vec![("horse".to_string(), "horse".to_string())],
        customization_sources(),
        &HashMap::new(),
        "p",
    )
    .unwrap();
    assert_eq!(files.len(), 5);
    assert_eq!(files[0].path, "p/tradable.db.lua");
    assert_eq!(files[0].text, "local _, ADDON = ...\n\nADDON.DB.Tradable = {\n[10] = true, -- Horse\n}\n");
    assert_eq!(files[1].text, "local _, ADDON = ...\n\nADDON.DB.Restrictions = {\n}\n");
    assert_eq!(
        files[2].text,
        "local _, ADDON = ...\n\nADDON.DB.Family = {\n[\"Horses\"] = {\n[10] = true, -- Horse\n},\n}\n"
    );
    assert_eq!(files[3].path, "p/customization.db.lua");
    assert_eq!(files[4].path, "p/colors.db.lua");
}

#[test]
fn handle_mounts_errors() {
    let missing = handle_mounts(
        mount_sources(vec![mount_row(10, "Horse", 230, 1000, 0)]),
        mount_sources(vec![]),
        &list_file(),
        vec![11],
        &config(),
        &vec![],
        customization_sources(),
        &HashMap::new(),
        "p",
    );
    assert_eq!(missing.err(), Some(MountsError::MissingIgnored(11)));
    let no_icon = handle_mounts(
        mount_sources(vec![mount_row(12, "Odd", 230, 1001, 0)]),
        mount_sources(vec![]),
        &list_file(),
        vec![],
        &config(),
        &vec![],
        customization_sources(),
        &HashMap::new(),
        "p",
    );
    assert_eq!(no_icon.err(), Some(MountsError::IconNotFound));
}

#[test]
fn wowhead_addresses() {
    assert_eq!(head_server(ProductVersion::Retail), "");
    assert_eq!(head_server(ProductVersion::Ptr), "ptr/");
    assert_eq!(head_server(ProductVersion::XPtr), "ptr-2/");
    assert_eq!(head_server(ProductVersion::Classic), "");
    assert_eq!(mount_items_url(ProductVersion::Retail), "https://www.wowhead.com/items/miscellaneous/mounts");
    assert_eq!(mount_items_url(ProductVersion::Ptr), "https://www.wowhead.com/ptr/items/miscellaneous/mounts");
    assert_eq!(item_url(ProductVersion::XPtr, 89783), "https://www.wowhead.com/ptr-2/item=89783");
    assert_eq!(npc_url(ProductVersion::Retail, 62346), "https://www.wowhead.com/npc=62346");
    assert_eq!(npc_url(ProductVersion::Ptr, 0), "https://www.wowhead.com/ptr/npc=0");
}

#[test]
fn drops_listview_is_cleaned() {
    let html = "x new Listview({template: 'item', id: 'drops', name: WH.TERMS.drops,tabs: tabsRelated,\
computeDataFunc: Listview.funcBox.initLootTable,data: [{id: 7, count: 3, outof: 90}]}) y";
    assert_eq!(
        drops_listview_json(html),
        Some("{template: 'item', id: 'drops', data: [{id: 7, count: 3, outof: 90}]}".to_string())
    );
    assert_eq!(drops_listview_json("new Listview({template: 'npc', id: 'drops'})"), None);
}

#[test]
fn clean_drops_listview_removes_every_occurrence() {
    assert_eq!(clean_drops_listview("a tabs: tabsRelated,b tabs: tabsRelated,c"), "a b c");
    assert_eq!(clean_drops_listview("name: WH.TERMS.drops,name: WH.TERMS.drops,"), "");
    assert_eq!(clean_drops_listview("{data: []}"), "{data: []}");
    assert_eq!(
        clean_drops_listview("computeDataFunc: Listview.funcBox.initLootTable,{x: 1}"),
        "{x: 1}"
    );
}

#[test]
fn mapper_data_captures_in_order() {
    let html = "var g_mapperData = {\"1\": []};\nvar g_mapperData = {\"2\": []};";
    assert_eq!(mapper_data_jsons(html), vec!["{\"1\": []}".to_string(), "{\"2\": []}".to_string()]);
    assert!(mapper_data_jsons("nothing").is_empty());
}

#[test]
fn rarity_json_replaces_quotes() {
    let html = "<div id=\"app\" data-page=\"{&quot;props&quot;:{&quot;mounts&quot;:[]}}\"></div>";
    assert_eq!(rarity_json(html), Some("{\"props\":{\"mounts\":[]}}".to_string()));
    assert_eq!(rarity_json("<div></div>"), None);
}
