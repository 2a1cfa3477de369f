use mount_toy_db::mount::drops::{mount_item_list, npc_decision, npc_from_item_page, npc_page_loot, MalformedPage};
use mount_toy_db::mount::sources::{LootEntry, NpcDecision};
use mount_toy_db::mount::Mount;

fn drop_mount(id: u32, item_id: Option<u32>, source_type: i8) -> Mount {
    Mount {
        id,
        spell_id: 0,
        type_id: 0,
        name: "mount".to_string(),
        icon: String::new(),
        item_id,
        item_is_tradeable: false,
        player_conditions: vec![],
        source_type,
    }
}

fn items(list: &str) -> Vec<mount_toy_db::tools::json::Json> {
    mount_item_list(format!("<script>var listviewitems = {};</script>", list).as_str()).unwrap()
}

#[test]
fn item_list_from_listing_page() {
    assert_eq!(items("[{id: 1}, {id: 2}]").len(), 2);
    assert!(items("[]").is_empty());
    assert!(mount_item_list("no list").is_none());
    assert!(mount_item_list("var listviewitems = [oops];").is_none());
}

#[test]
fn npc_named_by_source_detail() {
    let list = items("[{id: 4000, source: [1]}, {id: 5000, source: [2, 4], sourcemore: [{t: 1, ti: 777}]}]");
    assert_eq!(npc_decision(&drop_mount(300, Some(5000), 0), &list), Ok(NpcDecision::Npc(777)));
    assert_eq!(npc_decision(&drop_mount(300, Some(4000), 0), &list), Ok(NpcDecision::Skip));
    assert_eq!(npc_decision(&drop_mount(300, Some(6000), 0), &list), Ok(NpcDecision::Skip));
}

#[test]
fn npc_decision_for_non_candidates() {
    let list = items("[{name: 'no id'}]");
    assert_eq!(npc_decision(&drop_mount(200, Some(5000), 0), &list), Ok(NpcDecision::Skip));
    assert_eq!(npc_decision(&drop_mount(300, None, 0), &list), Ok(NpcDecision::Skip));
    assert_eq!(npc_decision(&drop_mount(300, Some(5000), 5), &list), Ok(NpcDecision::Skip));
    assert_eq!(npc_decision(&drop_mount(300, Some(5000), 0), &list), Err(MalformedPage));
}

#[test]
fn npc_decision_manual_and_fallback() {
    let list = items("[{id: 89783, source: [2]}, {id: 5000, source: [2], sourcemore: [{t: 4}]}, {id: 5001, source: [2], sourcemore: []}]");
    assert_eq!(npc_decision(&drop_mount(300, Some(89783), 0), &list), Ok(NpcDecision::Npc(62346)));
    assert_eq!(npc_decision(&drop_mount(300, Some(5000), 0), &list), Ok(NpcDecision::Skip));
    assert_eq!(npc_decision(&drop_mount(3000, Some(5000), 0), &list), Ok(NpcDecision::FetchItemPage));
    assert_eq!(npc_decision(&drop_mount(3000, Some(5001), 0), &list), Ok(NpcDecision::FetchItemPage));
    assert_eq!(npc_decision(&drop_mount(1257, Some(89783), 3), &list), Ok(NpcDecision::Npc(62346)));
}

#[test]
fn npc_decision_malformed_entries() {
    let no_drop = items("[{id: 5000, source: [1], sourcemore: 5}]");
    assert_eq!(npc_decision(&drop_mount(300, Some(5000), 0), &no_drop), Ok(NpcDecision::Skip));
    let bad_more = items("[{id: 5000, source: [2], sourcemore: 5}]");
    assert_eq!(npc_decision(&drop_mount(300, Some(5000), 0), &bad_more), Err(MalformedPage));
    let bad_source = items("[{id: 5000, source: ['x']}]");
    assert_eq!(npc_decision(&drop_mount(300, Some(5000), 0), &bad_source), Err(MalformedPage));
    let no_ti = items("[{id: 5000, source: [2], sourcemore: [{t: 1}]}]");
    assert_eq!(npc_decision(&drop_mount(300, Some(5000), 0), &no_ti), Err(MalformedPage));
    let later_bad = items("[{id: 5000, source: [3]}, {name: 'x'}]");
    assert_eq!(npc_decision(&drop_mount(300, Some(5000), 0), &later_bad), Ok(NpcDecision::Skip));
}

fn dropped_by_page(data: &str) -> String {
    format!("new Listview({{template: 'npc', id: 'dropped-by', name: x,\n data: {},\n}})", data)
}

#[test]
fn npc_from_dropped_by_list() {
    assert_eq!(npc_from_item_page(dropped_by_page("[{id: 55, classification: 2}]").as_str()), Ok(Some(55)));
    assert_eq!(npc_from_item_page(dropped_by_page("[{id: 56, classification: 4}, {id: 1}]").as_str()), Ok(Some(56)));
    assert_eq!(npc_from_item_page(dropped_by_page("[{id: 57, classification: 0}]").as_str()), Ok(Some(57)));
    assert_eq!(npc_from_item_page(dropped_by_page("[{id: 58, classification: 0, boss: 1}]").as_str()), Ok(None));
    assert_eq!(npc_from_item_page(dropped_by_page("[{classification: 1}]").as_str()), Ok(None));
    assert_eq!(npc_from_item_page(dropped_by_page("[{id: 'x', classification: 2}]").as_str()), Ok(None));
    assert_eq!(npc_from_item_page("no list"), Ok(None));
}

#[test]
fn npc_from_malformed_dropped_by_list() {
    assert_eq!(npc_from_item_page(dropped_by_page("[{classification: 4}]").as_str()), Err(MalformedPage));
    assert_eq!(npc_from_item_page(dropped_by_page("[]").as_str()), Err(MalformedPage));
    assert_eq!(npc_from_item_page(dropped_by_page("[{id: 3}]").as_str()), Err(MalformedPage));
    assert_eq!(npc_from_item_page(dropped_by_page("[5]").as_str()), Err(MalformedPage));
}

fn drops_page(data: &str) -> String {
    format!(
        "<x>new Listview({{template: 'item', id: 'drops', name: WH.TERMS.drops,tabs: tabsRelated,computeDataFunc: Listview.funcBox.initLootTable,data: {}}})</x>",
        data
    )
}

#[test]
fn loot_from_npc_page() {
    let page = drops_page("[{id: 4, count: 1}, {id: 5000, count: 3, outof: 300, modes: {mode: [0]}}]");
    assert_eq!(
        npc_page_loot(5000, page.as_str()),
        Ok(Some(LootEntry { instance_drop: false, count: Some(3), outof: Some(300) }))
    );
    assert_eq!(npc_page_loot(4, page.as_str()), Ok(Some(LootEntry { instance_drop: false, count: Some(1), outof: None })));
    assert_eq!(npc_page_loot(6, page.as_str()), Ok(None));
    assert_eq!(npc_page_loot(5000, "no drops list"), Ok(None));
}

#[test]
fn loot_of_instance_drops() {
    let two_modes = drops_page("[{id: 5000, count: 'x', modes: {mode: ['a', 2]}}]");
    assert_eq!(
        npc_page_loot(5000, two_modes.as_str()),
        Ok(Some(LootEntry { instance_drop: true, count: None, outof: None }))
    );
    let heroic = drops_page("[{id: 5000, count: 2, outof: 9, modes: {mode: [2]}}]");
    assert_eq!(
        npc_page_loot(5000, heroic.as_str()),
        Ok(Some(LootEntry { instance_drop: true, count: None, outof: None }))
    );
}

#[test]
fn loot_of_malformed_npc_pages() {
    assert_eq!(npc_page_loot(5000, drops_page("[{id: 5000, modes: {mode: []}}]").as_str()), Err(MalformedPage));
    assert_eq!(npc_page_loot(5000, drops_page("[{id: 5000, count: 'x'}]").as_str()), Err(MalformedPage));
    assert_eq!(npc_page_loot(5000, drops_page("[{count: 1}, {id: 5000}]").as_str()), Err(MalformedPage));
    assert_eq!(npc_page_loot(5000, drops_page("5").as_str()), Err(MalformedPage));
}
