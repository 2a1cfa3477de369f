use std::collections::{BTreeMap, HashMap};

use mount_toy_db::tools::casc_loader::{db_export_url, db_file_path, extract_path_names_file, fetch_url};
use mount_toy_db::tools::db_reader::{load_item_effects, EffectById, LookupDB};
use mount_toy_db::tools::dbs::{ItemEffect, ItemXItemEffect};
use mount_toy_db::tools::docker_runner::DockerRunner;
use mount_toy_db::tools::float32::{bits_eq, bits_is_positive, bits_negate, bits_to_u32};
use mount_toy_db::tools::lua_export::LuaFile;
use mount_toy_db::tools::listfile::{load_listfile, parse_listfile};
use mount_toy_db::tools::m2_reader::M2Reader;
use mount_toy_db::tools::maps::{merge_maps, remove_ignored, sort_ids, sorted_keys, sorted_unique};
use mount_toy_db::tools::text::{replace_all, string_less, str_contains};
use mount_toy_db::tools::{build_info_from_text, BuildInfo, ProductVersion};

fn effect(id: u32, trigger_type: i32, spell_id: i32, item_id: u32) -> ItemEffect {
    ItemEffect { id, trigger_type, spell_id, item_id }
}

#[test]
fn lookup_groups_rows_in_order() {
    let db = LookupDB::new_from_data(
        vec![effect(1, 0, 10, 100), effect(2, 0, 11, 101), effect(1, 6, 12, 102)],
        EffectById,
    );
    let rows = db.lookup(&1);
    assert_eq!(rows.len(), 2);
    assert_eq!(rows[0].spell_id, 10);
    assert_eq!(rows[1].spell_id, 12);
    assert_eq!(db.lookup(&2).len(), 1);
    assert!(db.lookup(&3).is_empty());
}

#[test]
fn lookup_from_grouped_map() {
    let mut map = HashMap::new();
    map.insert(7u32, vec![effect(7, 0, 1, 2)]);
    let db = LookupDB::new(map);
    assert_eq!(db.lookup(&7)[0].item_id, 2);
    assert!(db.lookup(&8).is_empty());
}

#[test]
fn item_effects_by_item_without_links() {
    let db = load_item_effects(None, vec![effect(1, 0, 10, 100), effect(2, 6, 20, 100)], false);
    let rows = db.lookup(&100);
    assert_eq!(rows.len(), 2);
    assert_eq!(rows[1].spell_id, 20);
}

#[test]
fn item_effects_by_spell_with_links() {
    let links = vec![
        ItemXItemEffect { item_id: 500, item_effect_id: 2 },
        ItemXItemEffect { item_id: 501, item_effect_id: 9 },
        ItemXItemEffect { item_id: 502, item_effect_id: 1 },
    ];
    let db = load_item_effects(Some(links), vec![effect(1, 0, 10, 0), effect(2, 6, 20, 0)], true);
    let by_20 = db.lookup(&20);
    assert_eq!(by_20.len(), 1);
    assert_eq!(by_20[0].item_id, 500);
    assert_eq!(db.lookup(&10)[0].item_id, 502);
    assert!(db.lookup(&9).is_empty());
}

#[test]
fn lua_file_lines() {
    let mut lua = LuaFile::new("out/x.lua".to_string(), "DB.Test");
    lua.add_line(&12, &"Name".to_string());
    lua.add_line_with_value(&7, &"Other".to_string(), "false".to_string());
    lua.start_category(&"Cats".to_string());
    lua.close_category();
    lua.close();
    assert_eq!(lua.path, "out/x.lua");
    assert_eq!(
        lua.text,
        "local _, ADDON = ...\n\nADDON.DB.Test = {\n[12] = true, -- Name\n[7] = false, -- Other\n[\"Cats\"] = {\n},\n}\n"
    );
}

#[test]
fn lua_sublist_format() {
    let lua = LuaFile::new("p".to_string(), "v");
    assert_eq!(lua.format_sublist("class", vec!["\"MAGE\"", "\"MONK\""]), " [\"class\"]={\"MAGE\",\"MONK\",},");
    assert_eq!(lua.format_sublist("quest", vec![]), " [\"quest\"]={,},");
}

#[test]
fn sorting_helpers() {
    assert_eq!(sorted_unique(&vec![5, 3, 5, 1, 3]), vec![1, 3, 5]);
    assert_eq!(sort_ids(&vec![5, 3, 5, 1, 3]), vec![1, 3, 3, 5, 5]);
    let mut m = BTreeMap::new();
    m.insert(9u32, 'a');
    m.insert(2u32, 'b');
    assert_eq!(sorted_keys(&m), vec![2, 9]);
}

#[test]
fn merge_prefers_later_map() {
    let mut a = BTreeMap::new();
    a.insert(1u32, "old");
    a.insert(2u32, "keep");
    let mut b = BTreeMap::new();
    b.insert(1u32, "new");
    b.insert(3u32, "add");
    merge_maps(&mut a, b);
    assert_eq!(a.get(&1), Some(&"new"));
    assert_eq!(a.get(&2), Some(&"keep"));
    assert_eq!(a.get(&3), Some(&"add"));
}

#[test]
fn remove_ignored_reports_first_missing() {
    let mut a = BTreeMap::new();
    a.insert(1u32, ());
    a.insert(2u32, ());
    assert_eq!(remove_ignored(&mut a, &vec![2]), Ok(()));
    assert_eq!(a.len(), 1);
    let mut b = BTreeMap::new();
    b.insert(1u32, ());
    assert_eq!(remove_ignored(&mut b, &vec![1, 1]), Err(1));
    let mut c = BTreeMap::new();
    c.insert(1u32, ());
    assert_eq!(remove_ignored(&mut c, &vec![4, 1]), Err(4));
}

#[test]
fn text_helpers() {
    assert_eq!(replace_all("a [horde] b [horde]", " [horde]", ""), "a b");
    assert_eq!(replace_all("aaa", "aa", "b"), "ba");
    assert_eq!(replace_all("Raven Lord", " [alliance]", ""), "Raven Lord");
    assert!(string_less("abc", "abd"));
    assert!(string_less("ab", "abc"));
    assert!(!string_less("abc", "abc"));
    assert!(!string_less("b", "abc"));
    assert!(str_contains("interface/icons", "icons"));
    assert!(!str_contains("icon", "icons"));
}

#[test]
fn float_bits() {
    assert!(bits_is_positive(2.0f32.to_bits()));
    assert!(!bits_is_positive((-2.0f32).to_bits()));
    assert!(!bits_is_positive(0.0f32.to_bits()));
    assert_eq!(f32::from_bits(bits_negate((-0.5f32).to_bits())), 0.5);
    assert!(bits_eq(0.0f32.to_bits(), (-0.0f32).to_bits()));
    assert!(!bits_eq(f32::NAN.to_bits(), f32::NAN.to_bits()));
    assert_eq!(bits_to_u32(2.9f32.to_bits()), 2);
    assert_eq!(bits_to_u32((-3.0f32).to_bits()), 0);
    assert_eq!(bits_to_u32(f32::NAN.to_bits()), 0);
    assert_eq!(bits_to_u32(1e20f32.to_bits()), u32::MAX);
}

#[test]
fn product_versions() {
    assert_eq!(ProductVersion::Retail.as_str(), "wow");
    assert_eq!(ProductVersion::Ptr.as_str(), "wowt");
    assert_eq!(ProductVersion::XPtr.as_str(), "wowxptr");
    assert_eq!(ProductVersion::Classic.as_str(), "wow_classic");
    assert_eq!(ProductVersion::determine_from_cli(None), ProductVersion::Retail);
    assert_eq!(ProductVersion::determine_from_cli(Some("--ptr".to_string())), ProductVersion::Ptr);
    assert_eq!(ProductVersion::determine_from_cli(Some("--xptr".to_string())), ProductVersion::XPtr);
    assert_eq!(ProductVersion::determine_from_cli(Some("--other".to_string())), ProductVersion::Retail);
}

fn record(cols: &[&str]) -> Vec<String> {
    cols.iter().map(|c| c.to_string()).collect()
}

#[test]
fn build_info_picks_first_matching_product() {
    let records = vec![
        record(&["x", "1.0.0.1", "a", "wowt"]),
        record(&["y", "2.0.0.2", "b", "wow"]),
        record(&["z", "3.0.0.3", "c", "wow"]),
    ];
    let info = BuildInfo::parse_build_info(&records, 4, ProductVersion::Retail).unwrap();
    assert_eq!(info.version, "2.0.0.2");
    assert_eq!(info.product, ProductVersion::Retail);
    let missing = BuildInfo::parse_build_info(&records, 4, ProductVersion::Classic);
    assert_eq!(missing.err(), Some("game version not detected".to_string()));
}

#[test]
fn docker_runner_arguments() {
    let mut runner = DockerRunner::new(ProductVersion::Ptr);
    assert!(runner.is_ptr);
    assert_eq!(runner.compose_args("extract_mount_db"), vec!["compose", "run", "--rm", "extract_mount_db", "--product=wowt"]);
    assert!(runner.read_build_version("Build version: 10.2.5.53040 found".to_string()));
    assert_eq!(runner.build_version, "10.2.5.53040");
    assert_eq!(
        runner.convert_args(),
        vec!["compose", "run", "--rm", "convert_dbs", "/game/ptr.bin", "/out/10.2.5.53040/DBFilesClient"]
    );
    let mut live = DockerRunner::new(ProductVersion::Retail);
    assert!(!live.is_ptr);
    assert_eq!(live.compose_args("extract_files"), vec!["compose", "run", "--rm", "extract_files"]);
    assert!(!live.read_build_version("nothing here".to_string()));
    assert_eq!(live.build_version, "");
}

#[test]
fn m2_texture_ids() {
    let mut data = vec![1u8, 2, 3];
    data.extend_from_slice(b"TXID");
    data.extend_from_slice(&8i32.to_le_bytes());
    data.extend_from_slice(&123i32.to_le_bytes());
    data.extend_from_slice(&(-5i32).to_le_bytes());
    data.extend_from_slice(&[9, 9]);
    assert_eq!(M2Reader::new(data).read_texture_ids(), vec![123, -5]);
    assert!(M2Reader::new(vec![0, 1, 2, 3, 4]).read_texture_ids().is_empty());
    let mut odd = b"TXID".to_vec();
    odd.extend_from_slice(&5i32.to_le_bytes());
    odd.extend_from_slice(&7i32.to_le_bytes());
    odd.extend_from_slice(&8i32.to_le_bytes());
    assert_eq!(M2Reader::new(odd).read_texture_ids(), vec![7, 8]);
}

#[test]
fn casc_paths() {
    let info = BuildInfo { product: ProductVersion::Classic, version: "1.15.0.1".to_string() };
    assert_eq!(
        db_export_url(&info, "ItemSparse"),
        "http://127.0.0.1:5001/dbc/export/?name=itemsparse&build=1.15.0.1&useHotfixes=true"
    );
    assert_eq!(db_file_path(&info, "ItemSparse"), "extract/1.15.0.1/DBFilesClient/ItemSparse.csv");
    let live = BuildInfo { product: ProductVersion::Retail, version: "11.0".to_string() };
    assert!(db_export_url(&live, "Mount").starts_with("http://127.0.0.1:5000/"));
}

#[test]
fn listfile_lines() {
    let map = load_listfile("1;a/b.m2\r\n-2;c.blp;extra\n+3;\n1;d\n");
    assert_eq!(map.len(), 3);
    assert_eq!(map.get(&1), Some(&"d".to_string()));
    assert_eq!(map.get(&-2), Some(&"c.blp".to_string()));
    assert_eq!(map.get(&3), Some(&"".to_string()));
    assert!(parse_listfile("").unwrap().is_empty());
    assert_eq!(parse_listfile("7;x").unwrap().get(&7), Some(&"x".to_string()));
    assert!(parse_listfile("7;x\n\n").is_none());
    assert!(parse_listfile("x;7").is_none());
    assert!(parse_listfile("7").is_none());
    assert!(parse_listfile("99999999999999999999;a").is_none());
    assert_eq!(parse_listfile("-9223372036854775808;min").unwrap().get(&i64::MIN), Some(&"min".to_string()));
}

#[test]
fn fetch_address_uses_file_name() {
    let info = BuildInfo { product: ProductVersion::Retail, version: "11.0".to_string() };
    assert_eq!(
        fetch_url(&info, 5, &"creature/horse/horse.m2".to_string()),
        "http://localhost:5000/casc/fdid?fileDataID=5&filename=horse.m2"
    );
    let classic = BuildInfo { product: ProductVersion::Classic, version: "1.0".to_string() };
    assert_eq!(fetch_url(&classic, -7, &"a.blp".to_string()), "http://localhost:5001/casc/fdid?fileDataID=-7&filename=a.blp");
}

#[test]
fn lookup_twice_gives_equal_rows() {
    let db = LookupDB::new_from_data(
        vec![effect(4, 0, 10, 100), effect(5, 0, 11, 101), effect(4, 6, 12, 102)],
        EffectById,
    );
    let fields = |rows: Vec<ItemEffect>| -> Vec<(u32, i32, i32, u32)> {
        rows.iter().map(|e| (e.id, e.trigger_type, e.spell_id, e.item_id)).collect()
    };
    let first = fields(db.lookup(&4));
    let second = fields(db.lookup(&4));
    assert_eq!(first, second);
    assert_eq!(first, vec![(4, 0, 10, 100), (4, 6, 12, 102)]);
    assert!(db.lookup(&9).is_empty());
    assert!(db.lookup(&9).is_empty());
}

fn row(cells: &[&str]) -> Vec<String> {
    cells.iter().map(|c| c.to_string()).collect()
}

#[test]
fn build_info_with_few_columns_and_no_record() {
    let records = vec![row(&["x", "wow_classic"])];
    let missing = BuildInfo::parse_build_info(&records, 2, ProductVersion::Retail);
    assert_eq!(missing.err(), Some("game version not detected".to_string()));
    let single = vec![row(&["wowt"])];
    assert_eq!(
        BuildInfo::parse_build_info(&single, 1, ProductVersion::Retail).err(),
        Some("game version not detected".to_string())
    );
    let empty: Vec<Vec<String>> = vec![];
    assert!(BuildInfo::parse_build_info(&empty, 0, ProductVersion::Retail).is_err());
}

#[test]
fn build_info_picks_first_listed_record() {
    let records = vec![
        row(&["a", "1.0.0.1", "x", "wowt"]),
        row(&["b", "2.0.0.2", "y", "wow"]),
        row(&["c", "3.0.0.3", "z", "wow"]),
    ];
    assert_eq!(BuildInfo::parse_build_info(&records, 4, ProductVersion::Retail).unwrap().version, "2.0.0.2");
    assert_eq!(BuildInfo::parse_build_info(&records, 4, ProductVersion::Ptr).unwrap().version, "1.0.0.1");
}

#[test]
fn product_listed_checks_last_column() {
    let records = vec![row(&["x", "wow_classic"]), row(&["y", "wowt"])];
    assert!(BuildInfo::product_listed(&records, 2, ProductVersion::Ptr));
    assert!(BuildInfo::product_listed(&records, 2, ProductVersion::Classic));
    assert!(!BuildInfo::product_listed(&records, 2, ProductVersion::Retail));
    let empty: Vec<Vec<String>> = vec![];
    assert!(!BuildInfo::product_listed(&empty, 0, ProductVersion::Retail));
}

#[test]
fn extract_path_names_file_cases() {
    let version = "1.2.3.4".to_string();
    assert!(extract_path_names_file(&version, &"creature/horse/horse.m2".to_string()));
    assert!(!extract_path_names_file(&version, &"creature/horse/".to_string()));
    assert!(!extract_path_names_file(&version, &"creature/..".to_string()));
    assert!(!extract_path_names_file(&version, &".".to_string()));
    assert!(!extract_path_names_file(&version, &"".to_string()));
    assert!(extract_path_names_file(&version, &"...".to_string()));
}

#[test]
fn build_info_from_file_text() {
    let text = "Branch!STRING:0|Active!DEC:1|Version!STRING:0|CDN!STRING:0|Product!STRING:0\n\
us|1|10.2.5.53040|cdn|wow\n\
us|1|1.15.1.53009|cdn|wow_classic\n";
    let retail = build_info_from_text(text, ProductVersion::Retail).unwrap();
    assert_eq!(retail.version, "10.2.5.53040");
    assert_eq!(retail.product, ProductVersion::Retail);
    assert_eq!(build_info_from_text(text, ProductVersion::Classic).unwrap().version, "1.15.1.53009");
    assert_eq!(build_info_from_text(text, ProductVersion::Ptr).err(), Some("game version not detected".to_string()));
}

#[test]
fn build_info_text_errors() {
    assert_eq!(
        build_info_from_text("a|b\nx|wow\n", ProductVersion::Retail).err(),
        Some("build info has too few columns".to_string())
    );
    assert_eq!(
        build_info_from_text("a|b\nx|wowt\n", ProductVersion::Retail).err(),
        Some("game version not detected".to_string())
    );
    assert_eq!(
        build_info_from_text("a|b|c|d\nx|y|wow\n", ProductVersion::Retail).err(),
        Some("build info could not be read".to_string())
    );
    assert_eq!(build_info_from_text("", ProductVersion::Retail).err(), Some("game version not detected".to_string()));
}
