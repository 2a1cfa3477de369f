//! Where mounts come from: the black market, retired mounts, feats of strength.
use std::collections::BTreeMap;
use vstd::prelude::*;

use crate::mount::wcm::{load_wcm_black_market_mounts, load_wcm_retired_mounts, page_names};
use crate::mount::{mounts_view, Mount, MountView};
use crate::tools::db_reader::{LookupDB, RowKey};
use crate::tools::dbs::{Achievement, AchievementCategory};
use crate::tools::maps::{sorted_keys, sorted_keys_of};
use crate::tools::seqs::{flat_map, lemma_flat_map_take, lemma_take_all};
use crate::tools::patterns::{capture_drops_listview, capture_mapper_data, drops_listview, mapper_data};
use crate::tools::text::{
    decimal, push_decimal, push_str, replace_all, replaced, spec_lowercase, string_from, string_views,
    strings_contain, to_lowercase,
};
use crate::tools::ProductVersion;

verus! {

broadcast use {vstd::std_specs::btree::group_btree_axioms, vstd::laws_cmp::group_laws_cmp};

/// The id of a mount whose lower-case name is among `names`.
pub open spec fn named_mount_fn(mounts: Map<u32, MountView>, names: Seq<Seq<char>>) -> spec_fn(u32) -> Seq<u32> {
    |k: u32|
        if names.contains(spec_lowercase(mounts[k].name)) {
            seq![mounts[k].id]
        } else {
            Seq::empty()
        }
}

/// The ids of the mounts whose lower-case name is among `names`, in key order.
pub open spec fn mounts_named(mounts: Map<u32, MountView>, names: Seq<Seq<char>>) -> Seq<u32> {
    flat_map(sorted_keys_of(mounts.dom()), named_mount_fn(mounts, names))
}

/// The ids of the mounts whose lower-case name is among `names`, in key order.
pub fn filter_mounts_by_names(mounts: &BTreeMap<u32, Mount>, names: Vec<String>) -> (res: Vec<u32>)
    ensures
        res@ == mounts_named(mounts_view(mounts@), string_views(names@)),
{
    let ghost mv = mounts_view(mounts@);
    let ghost f = named_mount_fn(mv, string_views(names@));
    let mut result: Vec<u32> = Vec::new();
    let keys = sorted_keys(mounts);
    assert(mv.dom() =~= mounts@.dom());
    for i in 0..keys.len()
        invariant
            keys@.to_set() == mounts@.dom(),
            mv == mounts_view(mounts@),
            f == named_mount_fn(mv, string_views(names@)),
            result@ == flat_map(keys@.take(i as int), f),
    {
        let k = keys[i];
        assert(keys@.to_set().contains(k));
        proof {
            lemma_flat_map_take(keys@, f, i as int);
        }
        let mount = mounts.get(&k).unwrap();
        let lowered_name = to_lowercase(mount.name.as_str());
        if strings_contain(&names, &lowered_name) {
            result.push(mount.id);
        }
        assert(result@ =~= flat_map(keys@.take(i + 1), f));
    }
    proof {
        lemma_take_all(keys@);
    }
    result
}

/// The mounts that the black market page lists.
pub fn collect_black_market_mounts(mounts: &BTreeMap<u32, Mount>, html: &str) -> (res: Vec<u32>)
    ensures
        res@ == mounts_named(mounts_view(mounts@), page_names(html@)),
{
    filter_mounts_by_names(mounts, load_wcm_black_market_mounts(html))
}

/// The mounts that the retired mounts page lists.
pub fn collect_unavailable_mounts(mounts: &BTreeMap<u32, Mount>, html: &str) -> (res: Vec<u32>)
    ensures
        res@ == mounts_named(mounts_view(mounts@), page_names(html@)),
{
    filter_mounts_by_names(mounts, load_wcm_retired_mounts(html))
}

/// Groups achievement categories by their parent.
pub struct CategoryByParent;

impl RowKey<AchievementCategory> for CategoryByParent {
    open spec fn key(&self, row: AchievementCategory) -> u32 {
        row.parent
    }

    fn key_of(&self, row: &AchievementCategory) -> (k: u32) {
        row.parent
    }
}

/// Groups achievements by their id.
pub struct AchievementById;

impl RowKey<Achievement> for AchievementById {
    open spec fn key(&self, row: Achievement) -> u32 {
        row.id
    }

    fn key_of(&self, row: &Achievement) -> (k: u32) {
        row.id
    }
}

/// Mounts that come from a feat of strength, by mount id. No mount is matched
/// to an achievement yet, so the map is empty.
pub fn collect_featsofstrength_mounts(
    mounts: &BTreeMap<u32, Mount>,
    achievement_categories: Vec<AchievementCategory>,
    achievements: Vec<Achievement>,
) -> (res: BTreeMap<u32, u32>)
    ensures
        res@ == Map::<u32, u32>::empty(),
{
    let achievement_category_db = LookupDB::new_from_data(achievement_categories, CategoryByParent);
    let children = achievement_category_db.lookup(&81);
    let mut fos_ids: Vec<u32> = Vec::new();
    for i in 0..children.len() {
        fos_ids.push(children[i].id);
    }
    fos_ids.push(81);
    let _achievement_db = LookupDB::new_from_data(achievements, AchievementById);
    BTreeMap::new()
}


/// Where an npc stands: its map and its position there in hundredths.
#[derive(Clone, Copy, Debug, PartialEq, Eq, Structural)]
pub struct MapPosition {
    pub map_id: u32,
    pub map_x: u16,
    pub map_y: u16,
}

/// How often an item dropped: `count` times out of `total` kills.
#[derive(Clone, Copy, Debug, PartialEq, Eq, Structural)]
pub struct DropChance {
    pub count: u64,
    pub total: u64,
}

/// The npc that drops a mount, where it stands and how often it drops it.
#[derive(Clone, Copy, Debug, PartialEq, Eq, Structural)]
pub struct DropData {
    pub npc_id: u32,
    pub map_position: Option<MapPosition>,
    pub drop_chance: Option<DropChance>,
}

/// Rare drops start with the Time-Lost Proto-Drake; mounts from a treasure
/// count when listed here.
pub open spec fn spec_is_drop_candidate(id: u32, item_id: Option<u32>, source_type: i8) -> bool {
    id > 264 && item_id is Some && (source_type == 0 || id == 1257)
}

/// Whether a mount may be a rare drop worth looking up.
pub fn is_drop_candidate(mount: &Mount) -> (res: bool)
    ensures
        res == spec_is_drop_candidate(mount.id, mount.item_id, mount.source_type),
{
    mount.id > 264 && mount.item_id.is_some() && (mount.source_type == 0 || mount.id == 1257)
}

/// The npcs that drop items whose listing does not name them, by item.
pub open spec fn spec_manual_npc(item_id: u64) -> Option<u64> {
    if item_id == 89783 {
        Some(62346u64)  // Son of Galleon
    } else if item_id == 94228 {
        Some(69161u64)  // Cobalt Primordial Direhorn
    } else if item_id == 94230 {
        Some(69841u64)  // Amber Primordial Direhorn
    } else if item_id == 94229 {
        Some(69769u64)  // Slate Primordial Direhorn
    } else if item_id == 94231 {
        Some(69842u64)  // Jade Primordial Direhorn
    } else if item_id == 104269 {
        Some(73167u64)  // Thundering Onyx Cloud Serpent
    } else if item_id == 116771 {
        Some(83746u64)  // Solar Spirehawk
    } else if item_id == 163576 {
        Some(128665u64)  // Dune Scavenger
    } else if item_id == 163575 {
        Some(127915u64)  // Leaping Veinseeker
    } else if item_id == 152903 {
        Some(126040u64)  // Biletooth Gnasher
    } else if item_id == 163574 {
        Some(129995u64)  // Terrified Pack Mule
    } else if item_id == 163573 {
        Some(132160u64)  // Goldenmane
    } else if item_id == 168823 {
        Some(154342u64)  // Rusty Mechanocrawler
    } else if item_id == 184062 {
        Some(162853u64)  // Battle-Bound Warhound
    } else if item_id == 185973 {
        Some(177330u64)  // Hand of Bahmethra
    } else if item_id == 192772 {
        Some(200911u64)  // Ancient Salamanther
    } else if item_id == 212645 {
        Some(208029u64)  // Clayscale Hornstrider
    } else {
        None
    }
}

/// The npcs known to drop items whose listing does not name them: each item
/// has its own npc, and the listing decision takes it for a drop without a
/// source detail.
pub proof fn law_manual_npcs(mount_id: u32)
    ensures
        spec_manual_npc(89783) == Some(62346u64),
        spec_manual_npc(94228) == Some(69161u64),
        spec_manual_npc(94230) == Some(69841u64),
        spec_manual_npc(94229) == Some(69769u64),
        spec_manual_npc(94231) == Some(69842u64),
        spec_manual_npc(104269) == Some(73167u64),
        spec_manual_npc(116771) == Some(83746u64),
        spec_manual_npc(163576) == Some(128665u64),
        spec_manual_npc(163575) == Some(127915u64),
        spec_manual_npc(152903) == Some(126040u64),
        spec_manual_npc(163574) == Some(129995u64),
        spec_manual_npc(163573) == Some(132160u64),
        spec_manual_npc(168823) == Some(154342u64),
        spec_manual_npc(184062) == Some(162853u64),
        spec_manual_npc(185973) == Some(177330u64),
        spec_manual_npc(192772) == Some(200911u64),
        spec_manual_npc(212645) == Some(208029u64),
        forall|item_id: u64|
            #![trigger spec_manual_npc(item_id)]
            spec_manual_npc(item_id) is Some ==> spec_npc_from_listing(mount_id, item_id, Some(seq![2u64]), None)
                == NpcDecision::Npc(spec_manual_npc(item_id)->0),
        forall|item_id: u64, other: u64|
            #![trigger spec_manual_npc(item_id), spec_manual_npc(other)]
            item_id != other && spec_manual_npc(item_id) is Some ==> spec_manual_npc(item_id) != spec_manual_npc(other),
{
    assert forall|item_id: u64|
        #![trigger spec_manual_npc(item_id)]
        spec_manual_npc(item_id) is Some implies spec_npc_from_listing(mount_id, item_id, Some(seq![2u64]), None)
            == NpcDecision::Npc(spec_manual_npc(item_id)->0) by {
        assert(seq![2u64][0] == 2u64);
        assert(seq![2u64].contains(2u64));
    }
}

pub fn manual_npc(item_id: u64) -> (res: Option<u64>)
    ensures
        res == spec_manual_npc(item_id),
{
    if item_id == 89783 {
        Some(62346)
    } else if item_id == 94228 {
        Some(69161)
    } else if item_id == 94230 {
        Some(69841)
    } else if item_id == 94229 {
        Some(69769)
    } else if item_id == 94231 {
        Some(69842)
    } else if item_id == 104269 {
        Some(73167)
    } else if item_id == 116771 {
        Some(83746)
    } else if item_id == 163576 {
        Some(128665)
    } else if item_id == 163575 {
        Some(127915)
    } else if item_id == 152903 {
        Some(126040)
    } else if item_id == 163574 {
        Some(129995)
    } else if item_id == 163573 {
        Some(132160)
    } else if item_id == 168823 {
        Some(154342)
    } else if item_id == 184062 {
        Some(162853)
    } else if item_id == 185973 {
        Some(177330)
    } else if item_id == 192772 {
        Some(200911)
    } else if item_id == 212645 {
        Some(208029)
    } else {
        None
    }
}

/// The first "more about the source" entry of an item listing: its type `t`
/// and its target `ti`, where present.
#[derive(Clone, Copy, Debug, PartialEq, Eq, Structural)]
pub struct SourceMore {
    pub t: Option<u64>,
    pub ti: Option<u64>,
}

/// What the mount item list says of one item: its source kinds and its
/// first source detail.
pub struct ItemListing {
    pub sources: Option<Vec<u64>>,
    pub first_sourcemore: Option<SourceMore>,
}

/// What to do after reading an item's listing.
#[derive(Clone, Copy, Debug, PartialEq, Eq, Structural)]
pub enum NpcDecision {
    /// the item is not a drop, or no npc is known
    Skip,
    /// this npc drops the item
    Npc(u64),
    /// the item's own page has to name the npc
    FetchItemPage,
}

/// The npc named by the listing: a manual entry, replaced by the source
/// detail when that is an npc (type 1).
pub open spec fn listed_npc(item_id: u64, first_sourcemore: Option<SourceMore>) -> Option<u64> {
    match first_sourcemore {
        Some(sm) => if sm.t == Some(1u64) {
            sm.ti
        } else {
            spec_manual_npc(item_id)
        },
        None => spec_manual_npc(item_id),
    }
}

/// The decision for a drop candidate: only drops (source kind 2) count; a
/// newer mount without a known npc needs its item page.
pub open spec fn spec_npc_from_listing(mount_id: u32, item_id: u64, sources: Option<Seq<u64>>, first_sourcemore: Option<SourceMore>) -> NpcDecision {
    match sources {
        None => NpcDecision::Skip,
        Some(s) => if !s.contains(2u64) {
            NpcDecision::Skip
        } else {
            match listed_npc(item_id, first_sourcemore) {
                Some(n) => NpcDecision::Npc(n),
                None => if mount_id > 2222 {
                    NpcDecision::FetchItemPage
                } else {
                    NpcDecision::Skip
                },
            }
        },
    }
}

pub open spec fn sources_view(s: Option<Vec<u64>>) -> Option<Seq<u64>> {
    match s {
        Some(v) => Some(v@),
        None => None,
    }
}

pub(crate) fn contains_u64(v: &Vec<u64>, x: u64) -> (res: bool)
    ensures
        res == v@.contains(x),
{
    for i in 0..v.len()
        invariant
            forall|l: int| 0 <= l < i ==> v@[l] != x,
    {
        if v[i] == x {
            return true;
        }
    }
    false
}

/// Decides from an item's listing which npc drops a mount's item.
pub fn npc_from_listing(mount_id: u32, item_id: u64, listing: &ItemListing) -> (res: NpcDecision)
    requires
        listing.first_sourcemore matches Some(sm) ==> (sm.t == Some(1u64) ==> sm.ti is Some),
    ensures
        res == spec_npc_from_listing(mount_id, item_id, sources_view(listing.sources), listing.first_sourcemore),
{
    let source_list = match &listing.sources {
        None => {
            return NpcDecision::Skip;
        },
        Some(s) => s,
    };
    if !contains_u64(source_list, 2) {
        return NpcDecision::Skip;
    }
    let mut npc_id = manual_npc(item_id);
    if let Some(sm) = listing.first_sourcemore {
        if sm.t == Some(1u64) {
            npc_id = Some(sm.ti.unwrap());
        }
    }
    match npc_id {
        Some(n) => NpcDecision::Npc(n),
        None => if mount_id > 2222 {
            NpcDecision::FetchItemPage
        } else {
            NpcDecision::Skip
        },
    }
}

/// The loot entry of the mount's item on its npc's page: whether it drops in
/// an instance (more than one difficulty mode, or another than mode 0), and,
/// for other drops, how often it dropped out of how many kills.
#[derive(Clone, Copy, Debug, PartialEq, Eq, Structural)]
pub struct LootEntry {
    pub instance_drop: bool,
    pub count: Option<u64>,
    pub outof: Option<u64>,
}

/// The drop data of a mount's npc: none for an instance drop, nor without a
/// chance or a position; the chance counts when some kill is recorded.
pub open spec fn spec_drop_record(npc_id: u32, loot: Option<LootEntry>, position: Option<MapPosition>) -> Option<DropData> {
    match loot {
        Some(l) if l.instance_drop => None,
        _ => {
            let chance = match loot {
                Some(l) => {
                    let c = match l.count { Some(x) => x, None => 0 };
                    let t = match l.outof { Some(x) => x, None => 0 };
                    if t > 0 {
                        Some(DropChance { count: c, total: t })
                    } else {
                        None
                    }
                },
                None => None,
            };
            if chance is Some || position is Some {
                Some(DropData { npc_id, map_position: position, drop_chance: chance })
            } else {
                None
            }
        },
    }
}

/// Whether the npc's position is still wanted: not after an instance drop.
pub fn needs_position(loot: &Option<LootEntry>) -> (res: bool)
    ensures
        res == !(loot matches Some(l) && l.instance_drop),
{
    match loot {
        Some(l) => !l.instance_drop,
        None => true,
    }
}

/// Decides the drop data of a mount from its npc's loot entry and position.
pub fn drop_record(npc_id: u32, loot: &Option<LootEntry>, position: Option<MapPosition>) -> (res: Option<DropData>)
    ensures
        res == spec_drop_record(npc_id, *loot, position),
{
    let mut drop_chance: Option<DropChance> = None;
    if let Some(l) = loot {
        if l.instance_drop {
            // abort on instance drop
            return None;
        }
        let count = match l.count {
            Some(x) => x,
            None => 0,
        };
        let total = match l.outof {
            Some(x) => x,
            None => 0,
        };
        if total > 0 {
            drop_chance = Some(DropChance { count, total });
        }
    }
    if drop_chance.is_some() || position.is_some() {
        Some(DropData { npc_id, map_position: position, drop_chance })
    } else {
        None
    }
}

/// The wowhead server of a product: the test realms have their own.
pub open spec fn spec_head_server(version: ProductVersion) -> Seq<char> {
    match version {
        ProductVersion::Ptr => "ptr/"@,
        ProductVersion::XPtr => "ptr-2/"@,
        _ => ""@,
    }
}

pub fn head_server(version: ProductVersion) -> (res: &'static str)
    ensures
        res@ == spec_head_server(version),
{
    match version {
        ProductVersion::Ptr => "ptr/",
        ProductVersion::XPtr => "ptr-2/",
        _ => "",
    }
}

/// The wowhead address of a product's pages, up to the page itself.
pub open spec fn spec_wowhead_base(version: ProductVersion) -> Seq<char> {
    "https://www.wowhead.com/"@ + spec_head_server(version)
}

fn wowhead_base(version: ProductVersion) -> (res: String)
    ensures
        res@ == spec_wowhead_base(version),
{
    let mut url = string_from("https://www.wowhead.com/");
    push_str(&mut url, head_server(version));
    url
}

/// The page that lists all mount items.
pub open spec fn spec_mount_items_url(version: ProductVersion) -> Seq<char> {
    spec_wowhead_base(version) + "items/miscellaneous/mounts"@
}

pub fn mount_items_url(version: ProductVersion) -> (res: String)
    ensures
        res@ == spec_mount_items_url(version),
{
    let mut url = wowhead_base(version);
    push_str(&mut url, "items/miscellaneous/mounts");
    url
}

/// The page of an item.
pub open spec fn spec_item_url(version: ProductVersion, item_id: u64) -> Seq<char> {
    spec_wowhead_base(version) + "item="@ + decimal(item_id as nat)
}

pub fn item_url(version: ProductVersion, item_id: u64) -> (res: String)
    ensures
        res@ == spec_item_url(version, item_id),
{
    let mut url = wowhead_base(version);
    push_str(&mut url, "item=");
    push_decimal(&mut url, item_id);
    url
}

/// The page of an npc.
pub open spec fn spec_npc_url(version: ProductVersion, npc_id: u64) -> Seq<char> {
    spec_wowhead_base(version) + "npc="@ + decimal(npc_id as nat)
}

pub fn npc_url(version: ProductVersion, npc_id: u64) -> (res: String)
    ensures
        res@ == spec_npc_url(version, npc_id),
{
    let mut url = wowhead_base(version);
    push_str(&mut url, "npc=");
    push_decimal(&mut url, npc_id);
    url
}

/// The map data objects (JSON) of an npc page, in page order.
pub fn mapper_data_jsons(npc_html: &str) -> (res: Vec<String>)
    ensures
        string_views(res@) == mapper_data(npc_html@),
{
    capture_mapper_data(npc_html)
}

/// A drops list view without the three entries that are code, not data.
pub open spec fn spec_clean_drops_listview(s: Seq<char>) -> Seq<char> {
    replaced(
        replaced(replaced(s, "name: WH.TERMS.drops,"@, Seq::empty()), "tabs: tabsRelated,"@, Seq::empty()),
        "computeDataFunc: Listview.funcBox.initLootTable,"@,
        Seq::empty(),
    )
}

/// Removes every occurrence of the three code entries of a drops list view.
pub fn clean_drops_listview(s: &str) -> (res: String)
    ensures
        res@ == spec_clean_drops_listview(s@),
{
    proof {
        reveal_strlit("name: WH.TERMS.drops,");
        reveal_strlit("tabs: tabsRelated,");
        reveal_strlit("computeDataFunc: Listview.funcBox.initLootTable,");
        reveal_strlit("");
    }
    assert(""@ =~= Seq::<char>::empty());
    let without_name = replace_all(s, "name: WH.TERMS.drops,", "");
    let without_tabs = replace_all(without_name.as_str(), "tabs: tabsRelated,", "");
    replace_all(without_tabs.as_str(), "computeDataFunc: Listview.funcBox.initLootTable,", "")
}

/// The drops list view of an npc page, cleaned to a JSON5 object.
pub open spec fn spec_drops_listview_json(npc_html: Seq<char>) -> Option<Seq<char>> {
    match drops_listview(npc_html) {
        Some(t) => Some(spec_clean_drops_listview(t)),
        None => None,
    }
}

pub fn drops_listview_json(npc_html: &str) -> (res: Option<String>)
    ensures
        match res {
            Some(s) => spec_drops_listview_json(npc_html@) == Some(s@),
            None => spec_drops_listview_json(npc_html@) is None,
        },
{
    match capture_drops_listview(npc_html) {
        Some(listview) => Some(clean_drops_listview(listview.as_str())),
        None => None,
    }
}

} // verus!
