//! The rare drop scan over wowhead pages: which npc drops a mount's item, and
//! what its page says of the drop. The pages are fetched by the caller; here
//! they are read.
use vstd::prelude::*;

use crate::mount::sources::{
    contains_u64, drops_listview_json, is_drop_candidate, npc_from_listing, spec_drops_listview_json,
    spec_is_drop_candidate, spec_npc_from_listing, ItemListing, LootEntry, NpcDecision, SourceMore,
};
use crate::mount::Mount;
use crate::tools::json::{
    as_u64, entry_views, field_of, get_field, json5_value, json_u64, json_views, lemma_json_view, parse_json5,
    Json, JsonValue,
};
use crate::tools::patterns::{
    capture_dropped_by_listview, capture_listview_items, dropped_by_listview, listview_items,
};

verus! {

/// A page's data lacks an element that the scan reads, or has it in another
/// shape (the scan stops there).
#[derive(Clone, Copy, Debug, PartialEq, Eq, Structural)]
pub struct MalformedPage;

/// The mount item list of the listing page.
pub open spec fn spec_mount_item_list(list_page: Seq<char>) -> Option<Seq<JsonValue>> {
    match listview_items(list_page) {
        Some(text) => match json5_value(text) {
            Some(JsonValue::Array(a)) => Some(a),
            _ => None,
        },
        None => None,
    }
}

/// The mount item list of the listing page; none where the page holds no
/// list, or the list is no JSON5 array.
pub fn mount_item_list(list_page: &str) -> (res: Option<Vec<Json>>)
    ensures
        match res {
            Some(v) => spec_mount_item_list(list_page@) == Some(json_views(v@)),
            None => spec_mount_item_list(list_page@) is None,
        },
{
    let text = match capture_listview_items(list_page) {
        Some(t) => t,
        None => {
            return None;
        },
    };
    match parse_json5(text.as_str()) {
        Some(j) => {
            proof {
                lemma_json_view(j);
            }
            match j {
                Json::Array(a) => Some(a),
                _ => None,
            }
        },
        None => None,
    }
}

/// The id of a list entry: an object whose `id` is an unsigned integer.
pub open spec fn entry_id(j: JsonValue) -> Option<u64> {
    match j {
        JsonValue::Object(f) => match field_of(f, "id"@) {
            Some(v) => json_u64(v),
            None => None,
        },
        _ => None,
    }
}

/// The index of the first entry, from `i` on, whose id is the item; the scan
/// stops on an entry without an id.
pub open spec fn find_entry_from(list: Seq<JsonValue>, item_id: u64, i: int) -> Result<Option<int>, MalformedPage>
    decreases list.len() - i,
{
    if i < 0 || i >= list.len() {
        Ok(None)
    } else {
        match entry_id(list[i]) {
            None => Err(MalformedPage),
            Some(id) => if id == item_id {
                Ok(Some(i))
            } else {
                find_entry_from(list, item_id, i + 1)
            },
        }
    }
}

fn entry_id_of(j: &Json) -> (res: Option<u64>)
    ensures
        res == entry_id(j@),
{
    proof {
        lemma_json_view(*j);
    }
    match j {
        Json::Object(f) => match get_field(f, "id") {
            Some(v) => as_u64(v),
            None => None,
        },
        _ => None,
    }
}

/// The index of the entry of the item in a list.
pub fn find_entry(list: &Vec<Json>, item_id: u64) -> (res: Result<Option<usize>, MalformedPage>)
    ensures
        match res {
            Ok(Some(i)) => i < list@.len() && find_entry_from(json_views(list@), item_id, 0) == Ok::<
                Option<int>,
                MalformedPage,
            >(Some(i as int)),
            Ok(None) => find_entry_from(json_views(list@), item_id, 0) == Ok::<Option<int>, MalformedPage>(None),
            Err(e) => find_entry_from(json_views(list@), item_id, 0) == Err::<Option<int>, MalformedPage>(e),
        },
{
    let ghost lv = json_views(list@);
    let mut i: usize = 0;
    while i < list.len()
        invariant
            lv == json_views(list@),
            i <= list@.len(),
            find_entry_from(lv, item_id, 0) == find_entry_from(lv, item_id, i as int),
        decreases list@.len() - i,
    {
        assert(lv[i as int] == list@[i as int]@);
        match entry_id_of(&list[i]) {
            None => {
                return Err(MalformedPage);
            },
            Some(id) => {
                if id == item_id {
                    return Ok(Some(i));
                }
            },
        }
        i = i + 1;
    }
    Ok(None)
}

/// Whether every value of a list is an unsigned integer.
pub open spec fn all_u64(a: Seq<JsonValue>) -> bool {
    forall|k: int| 0 <= k < a.len() ==> json_u64(#[trigger] a[k]) is Some
}

/// An array of unsigned integers, as a list of them.
pub open spec fn json_u64s(j: JsonValue) -> Option<Seq<u64>> {
    match j {
        JsonValue::Array(a) => if all_u64(a) {
            Some(Seq::new(a.len(), |k: int| json_u64(a[k])->0))
        } else {
            None
        },
        _ => None,
    }
}

fn u64_list(j: &Json) -> (res: Option<Vec<u64>>)
    ensures
        match res {
            Some(v) => json_u64s(j@) == Some(v@),
            None => json_u64s(j@) is None,
        },
{
    proof {
        lemma_json_view(*j);
    }
    match j {
        Json::Array(a) => {
            let ghost av = json_views(a@);
            let mut out: Vec<u64> = Vec::new();
            for i in 0..a.len()
                invariant
                    av == json_views(a@),
                    j@ == JsonValue::Array(av),
                    out@.len() == i,
                    forall|k: int| 0 <= k < i ==> json_u64(#[trigger] av[k]) == Some(out@[k]),
            {
                assert(av[i as int] == a@[i as int]@);
                match as_u64(&a[i]) {
                    Some(x) => out.push(x),
                    None => {
                        assert(json_u64(av[i as int]) is None);
                        return None;
                    },
                }
            }
            assert(all_u64(av));
            assert(out@ =~= Seq::new(av.len(), |k: int| json_u64(av[k])->0));
            Some(out)
        },
        _ => None,
    }
}

/// The source kinds of an item entry; none where it has none.
pub open spec fn entry_sources(f: Seq<(Seq<char>, JsonValue)>) -> Result<Option<Seq<u64>>, MalformedPage> {
    match field_of(f, "source"@) {
        None => Ok(None),
        Some(v) => match json_u64s(v) {
            Some(s) => Ok(Some(s)),
            None => Err(MalformedPage),
        },
    }
}

/// The first source detail of an item entry: its type, and its target where
/// the type is an npc (1).
pub open spec fn entry_sourcemore(f: Seq<(Seq<char>, JsonValue)>) -> Result<Option<SourceMore>, MalformedPage> {
    match field_of(f, "sourcemore"@) {
        None => Ok(None),
        Some(JsonValue::Array(a)) => if a.len() == 0 {
            Ok(None)
        } else {
            match a[0] {
                JsonValue::Object(g) => match field_of(g, "t"@) {
                    None => Ok(Some(SourceMore { t: None, ti: None })),
                    Some(tv) => match json_u64(tv) {
                        None => Err(MalformedPage),
                        Some(t) => if t == 1 {
                            match field_of(g, "ti"@) {
                                Some(tiv) => match json_u64(tiv) {
                                    Some(ti) => Ok(Some(SourceMore { t: Some(t), ti: Some(ti) })),
                                    None => Err(MalformedPage),
                                },
                                None => Err(MalformedPage),
                            }
                        } else {
                            Ok(Some(SourceMore { t: Some(t), ti: None }))
                        },
                    },
                },
                _ => Err(MalformedPage),
            }
        },
        Some(_) => Err(MalformedPage),
    }
}

fn entry_sourcemore_of(f: &Vec<(String, Json)>) -> (res: Result<Option<SourceMore>, MalformedPage>)
    ensures
        res == entry_sourcemore(entry_views(f@)),
{
    let sm = match get_field(f, "sourcemore") {
        None => {
            return Ok(None);
        },
        Some(sm) => sm,
    };
    proof {
        lemma_json_view(*sm);
    }
    let a = match sm {
        Json::Array(a) => a,
        _ => {
            return Err(MalformedPage);
        },
    };
    if a.len() == 0 {
        return Ok(None);
    }
    let first = &a[0];
    proof {
        lemma_json_view(*first);
        assert(json_views(a@)[0] == first@);
    }
    let g = match first {
        Json::Object(g) => g,
        _ => {
            return Err(MalformedPage);
        },
    };
    match get_field(g, "t") {
        None => Ok(Some(SourceMore { t: None, ti: None })),
        Some(tv) => match as_u64(tv) {
            None => Err(MalformedPage),
            Some(t) => if t == 1 {
                match get_field(g, "ti") {
                    Some(tiv) => match as_u64(tiv) {
                        Some(ti) => Ok(Some(SourceMore { t: Some(t), ti: Some(ti) })),
                        None => Err(MalformedPage),
                    },
                    None => Err(MalformedPage),
                }
            } else {
                Ok(Some(SourceMore { t: Some(t), ti: None }))
            },
        },
    }
}

/// The decision for the entry of a drop candidate's item: its source kinds are
/// read, and its source detail only when it is a drop (kind 2).
pub open spec fn spec_entry_decision(mount_id: u32, item_id: u64, f: Seq<(Seq<char>, JsonValue)>) -> Result<NpcDecision, MalformedPage> {
    match entry_sources(f) {
        Err(e) => Err(e),
        Ok(None) => Ok(NpcDecision::Skip),
        Ok(Some(s)) => if !s.contains(2u64) {
            Ok(NpcDecision::Skip)
        } else {
            match entry_sourcemore(f) {
                Err(e) => Err(e),
                Ok(sm) => Ok(spec_npc_from_listing(mount_id, item_id, Some(s), sm)),
            }
        },
    }
}

fn entry_decision(mount_id: u32, item_id: u64, f: &Vec<(String, Json)>) -> (res: Result<NpcDecision, MalformedPage>)
    ensures
        res == spec_entry_decision(mount_id, item_id, entry_views(f@)),
{
    let sources = match get_field(f, "source") {
        None => {
            return Ok(NpcDecision::Skip);
        },
        Some(v) => match u64_list(v) {
            Some(s) => s,
            None => {
                return Err(MalformedPage);
            },
        },
    };
    if !contains_u64(&sources, 2) {
        return Ok(NpcDecision::Skip);
    }
    match entry_sourcemore_of(f) {
        Err(e) => Err(e),
        Ok(sm) => Ok(npc_from_listing(mount_id, item_id, &ItemListing { sources: Some(sources), first_sourcemore: sm })),
    }
}

/// What the item list says of a mount: nothing for a mount that is no drop
/// candidate or whose item is not listed; else the decision for its entry.
pub open spec fn spec_npc_decision(id: u32, item_id: Option<u32>, source_type: i8, items: Seq<JsonValue>) -> Result<NpcDecision, MalformedPage> {
    if !spec_is_drop_candidate(id, item_id, source_type) {
        Ok(NpcDecision::Skip)
    } else {
        let iid = item_id->0 as u64;
        match find_entry_from(items, iid, 0) {
            Err(e) => Err(e),
            Ok(None) => Ok(NpcDecision::Skip),
            Ok(Some(i)) => match items[i] {
                JsonValue::Object(f) => spec_entry_decision(id, iid, f),
                _ => Err(MalformedPage),
            },
        }
    }
}

/// Decides from the mount item list which npc drops a mount's item, or
/// whether the item's own page has to tell.
pub fn npc_decision(mount: &Mount, items: &Vec<Json>) -> (res: Result<NpcDecision, MalformedPage>)
    ensures
        res == spec_npc_decision(mount.id, mount.item_id, mount.source_type, json_views(items@)),
{
    if !is_drop_candidate(mount) {
        return Ok(NpcDecision::Skip);
    }
    let item_id: u64 = mount.item_id.unwrap() as u64;
    match find_entry(items, item_id) {
        Err(e) => Err(e),
        Ok(None) => Ok(NpcDecision::Skip),
        Ok(Some(i)) => {
            let entry = &items[i];
            proof {
                lemma_json_view(*entry);
                assert(json_views(items@)[i as int] == entry@);
            }
            match entry {
                Json::Object(f) => entry_decision(mount.id, item_id, f),
                _ => Err(MalformedPage),
            }
        },
    }
}

/// The npc that an item page names as dropping the item: the first npc of its
/// "dropped by" list, where it is rare (2), rare elite (4), or normal (0) and
/// no boss; none where the page has no such list.
pub open spec fn spec_npc_from_item_page(item_page: Seq<char>) -> Result<Option<u64>, MalformedPage> {
    match dropped_by_listview(item_page) {
        None => Ok(None),
        Some(text) => match json5_value(text) {
            Some(JsonValue::Array(a)) => if a.len() == 0 {
                Err(MalformedPage)
            } else {
                match a[0] {
                    JsonValue::Object(f) => match field_of(f, "classification"@) {
                        Some(c) => match json_u64(c) {
                            Some(cl) => if cl == 2 || cl == 4 || (cl == 0 && field_of(f, "boss"@) is None) {
                                match field_of(f, "id"@) {
                                    Some(v) => Ok(json_u64(v)),
                                    None => Err(MalformedPage),
                                }
                            } else {
                                Ok(None)
                            },
                            None => Err(MalformedPage),
                        },
                        None => Err(MalformedPage),
                    },
                    _ => Err(MalformedPage),
                }
            },
            _ => Err(MalformedPage),
        },
    }
}

/// Reads the npc that drops an item from the item's page.
pub fn npc_from_item_page(item_page: &str) -> (res: Result<Option<u64>, MalformedPage>)
    ensures
        res == spec_npc_from_item_page(item_page@),
{
    let text = match capture_dropped_by_listview(item_page) {
        None => {
            return Ok(None);
        },
        Some(t) => t,
    };
    let parsed = match parse_json5(text.as_str()) {
        None => {
            return Err(MalformedPage);
        },
        Some(j) => j,
    };
    proof {
        lemma_json_view(parsed);
    }
    let list = match &parsed {
        Json::Array(a) => a,
        _ => {
            return Err(MalformedPage);
        },
    };
    if list.len() == 0 {
        return Err(MalformedPage);
    }
    let first = &list[0];
    proof {
        lemma_json_view(*first);
        assert(json_views(list@)[0] == first@);
    }
    let f = match first {
        Json::Object(f) => f,
        _ => {
            return Err(MalformedPage);
        },
    };
    let classification = match get_field(f, "classification") {
        None => {
            return Err(MalformedPage);
        },
        Some(c) => match as_u64(c) {
            None => {
                return Err(MalformedPage);
            },
            Some(x) => x,
        },
    };
    let is_boss = get_field(f, "boss").is_some();
    if classification == 2 || classification == 4 || (classification == 0 && !is_boss) {
        match get_field(f, "id") {
            Some(v) => Ok(as_u64(v)),
            None => Err(MalformedPage),
        }
    } else {
        Ok(None)
    }
}

/// Whether a loot entry drops in an instance: more than one difficulty mode,
/// or another than mode 0; an entry without modes does not.
pub open spec fn entry_instance(f: Seq<(Seq<char>, JsonValue)>) -> Result<bool, MalformedPage> {
    match field_of(f, "modes"@) {
        None => Ok(false),
        Some(JsonValue::Object(m)) => match field_of(m, "mode"@) {
            Some(JsonValue::Array(a)) => if a.len() > 1 {
                Ok(true)
            } else if a.len() == 0 {
                Err(MalformedPage)
            } else {
                match json_u64(a[0]) {
                    Some(x) => Ok(x != 0),
                    None => Err(MalformedPage),
                }
            },
            _ => Err(MalformedPage),
        },
        Some(_) => Err(MalformedPage),
    }
}

/// An entry's unsigned integer under `key`, where the entry has one.
pub open spec fn optional_u64(f: Seq<(Seq<char>, JsonValue)>, key: Seq<char>) -> Result<Option<u64>, MalformedPage> {
    match field_of(f, key) {
        None => Ok(None),
        Some(v) => match json_u64(v) {
            Some(x) => Ok(Some(x)),
            None => Err(MalformedPage),
        },
    }
}

/// The loot entry of an item on an npc's page; the counts are read only
/// where it is no instance drop.
pub open spec fn spec_loot_of_entry(f: Seq<(Seq<char>, JsonValue)>) -> Result<LootEntry, MalformedPage> {
    match entry_instance(f) {
        Err(e) => Err(e),
        Ok(true) => Ok(LootEntry { instance_drop: true, count: None, outof: None }),
        Ok(false) => match optional_u64(f, "count"@) {
            Err(e) => Err(e),
            Ok(count) => match optional_u64(f, "outof"@) {
                Err(e) => Err(e),
                Ok(outof) => Ok(LootEntry { instance_drop: false, count, outof }),
            },
        },
    }
}

fn entry_instance_of(f: &Vec<(String, Json)>) -> (res: Result<bool, MalformedPage>)
    ensures
        res == entry_instance(entry_views(f@)),
{
    let modes = match get_field(f, "modes") {
        None => {
            return Ok(false);
        },
        Some(m) => m,
    };
    proof {
        lemma_json_view(*modes);
    }
    let m = match modes {
        Json::Object(m) => m,
        _ => {
            return Err(MalformedPage);
        },
    };
    let mode = match get_field(m, "mode") {
        None => {
            return Err(MalformedPage);
        },
        Some(x) => x,
    };
    proof {
        lemma_json_view(*mode);
    }
    let a = match mode {
        Json::Array(a) => a,
        _ => {
            return Err(MalformedPage);
        },
    };
    if a.len() > 1 {
        return Ok(true);
    }
    if a.len() == 0 {
        return Err(MalformedPage);
    }
    assert(json_views(a@)[0] == a@[0]@);
    match as_u64(&a[0]) {
        Some(x) => Ok(x != 0),
        None => Err(MalformedPage),
    }
}

fn optional_u64_of(f: &Vec<(String, Json)>, key: &str) -> (res: Result<Option<u64>, MalformedPage>)
    ensures
        res == optional_u64(entry_views(f@), key@),
{
    match get_field(f, key) {
        None => Ok(None),
        Some(v) => match as_u64(v) {
            Some(x) => Ok(Some(x)),
            None => Err(MalformedPage),
        },
    }
}

fn loot_of_entry(f: &Vec<(String, Json)>) -> (res: Result<LootEntry, MalformedPage>)
    ensures
        res == spec_loot_of_entry(entry_views(f@)),
{
    if entry_instance_of(f)? {
        return Ok(LootEntry { instance_drop: true, count: None, outof: None });
    }
    let count = optional_u64_of(f, "count")?;
    let outof = optional_u64_of(f, "outof")?;
    Ok(LootEntry { instance_drop: false, count, outof })
}

/// The loot entry of an item on its npc's page: none where the page has no
/// drops list or the list does not hold the item.
pub open spec fn spec_npc_page_loot(item_id: u64, npc_page: Seq<char>) -> Result<Option<LootEntry>, MalformedPage> {
    match spec_drops_listview_json(npc_page) {
        None => Ok(None),
        Some(text) => match json5_value(text) {
            Some(JsonValue::Object(f)) => match field_of(f, "data"@) {
                Some(JsonValue::Array(a)) => match find_entry_from(a, item_id, 0) {
                    Err(e) => Err(e),
                    Ok(None) => Ok(None),
                    Ok(Some(i)) => match a[i] {
                        JsonValue::Object(g) => match spec_loot_of_entry(g) {
                            Ok(l) => Ok(Some(l)),
                            Err(e) => Err(e),
                        },
                        _ => Err(MalformedPage),
                    },
                },
                _ => Err(MalformedPage),
            },
            _ => Err(MalformedPage),
        },
    }
}

/// Reads the loot entry of an item from its npc's page.
pub fn npc_page_loot(item_id: u64, npc_page: &str) -> (res: Result<Option<LootEntry>, MalformedPage>)
    ensures
        res == spec_npc_page_loot(item_id, npc_page@),
{
    let text = match drops_listview_json(npc_page) {
        None => {
            return Ok(None);
        },
        Some(t) => t,
    };
    let parsed = match parse_json5(text.as_str()) {
        None => {
            return Err(MalformedPage);
        },
        Some(j) => j,
    };
    proof {
        lemma_json_view(parsed);
    }
    let f = match &parsed {
        Json::Object(f) => f,
        _ => {
            return Err(MalformedPage);
        },
    };
    let data = match get_field(f, "data") {
        None => {
            return Err(MalformedPage);
        },
        Some(d) => d,
    };
    proof {
        lemma_json_view(*data);
    }
    let list = match data {
        Json::Array(a) => a,
        _ => {
            return Err(MalformedPage);
        },
    };
    match find_entry(list, item_id) {
        Err(e) => Err(e),
        Ok(None) => Ok(None),
        Ok(Some(i)) => {
            let entry = &list[i];
            proof {
                lemma_json_view(*entry);
                assert(json_views(list@)[i as int] == entry@);
            }
            match entry {
                Json::Object(g) => match loot_of_entry(g) {
                    Ok(l) => Ok(Some(l)),
                    Err(e) => Err(e),
                },
                _ => Err(MalformedPage),
            }
        },
    }
}

} // verus!
