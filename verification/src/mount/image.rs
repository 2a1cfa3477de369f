//! The model and texture files that show a mount, for its colors.
use std::collections::HashMap;
use vstd::prelude::*;

use crate::tools::db_reader::{LookupDB, RowKey};
use crate::tools::dbs::{CreatureDisplayInfo, CreatureModel, MountXDisplay};
use crate::tools::seqs::{flat_map, lemma_flat_map_take, lemma_take_all};
use crate::tools::text::{chars_of, string_views};

verus! {

broadcast use vstd::std_specs::hash::group_hash_axioms;

/// Groups creature displays by their id.
pub struct DisplayById;

impl RowKey<CreatureDisplayInfo> for DisplayById {
    open spec fn key(&self, row: CreatureDisplayInfo) -> u32 {
        row.id
    }

    fn key_of(&self, row: &CreatureDisplayInfo) -> (k: u32) {
        row.id
    }
}

/// Groups creature models by their id.
pub struct ModelById;

impl RowKey<CreatureModel> for ModelById {
    open spec fn key(&self, row: CreatureModel) -> u32 {
        row.id
    }

    fn key_of(&self, row: &CreatureModel) -> (k: u32) {
        row.id
    }
}

/// Whether a path names a model file (`.m2`).
pub open spec fn is_model_path(path: Seq<char>) -> bool {
    path.len() >= 3 && path.skip(path.len() - 3) == ".m2"@
}

fn is_model_file(path: &String) -> (res: bool)
    ensures
        res == is_model_path(path@),
{
    let cs = chars_of(path.as_str());
    let n = cs.len();
    proof {
        reveal_strlit(".m2");
    }
    if n < 3 {
        return false;
    }
    let res = cs[n - 3] == '.' && cs[n - 2] == 'm' && cs[n - 1] == '2';
    let ghost tail = path@.skip(n - 3);
    assert(tail.len() == 3);
    assert(tail[0] == cs@[n - 3] && tail[1] == cs@[n - 2] && tail[2] == cs@[n - 1]);
    if res {
        assert(tail =~= ".m2"@);
    } else {
        assert(tail != ".m2"@) by {
            if tail == ".m2"@ {
                assert(tail[0] == '.' && tail[1] == 'm' && tail[2] == '2');
            }
        }
    }
    res
}

/// The files a creature display shows: its model's file and its four texture variants.
pub open spec fn display_file_ids(c: CreatureDisplayInfo, model_file_id: i64) -> Seq<i64> {
    seq![
        model_file_id,
        c.texture_variant_file_id_0,
        c.texture_variant_file_id_1,
        c.texture_variant_file_id_2,
        c.texture_variant_file_id_3,
    ]
}

/// A file id that the list file knows, with its path.
pub open spec fn listed_fn(list_file: Map<i64, String>) -> spec_fn(i64) -> Seq<(i64, Seq<char>)> {
    |id: i64|
        if id > 0 && list_file.contains_key(id) {
            seq![(id, list_file[id]@)]
        } else {
            Seq::empty()
        }
}

/// The known files of a creature display, in order.
pub open spec fn creature_files_fn(
    models: spec_fn(u32) -> Seq<CreatureModel>,
    list_file: Map<i64, String>,
) -> spec_fn(CreatureDisplayInfo) -> Seq<(i64, Seq<char>)> {
    |c: CreatureDisplayInfo| flat_map(display_file_ids(c, models(c.model_id)[0].file_id), listed_fn(list_file))
}

/// A file paired with its mount.
pub open spec fn with_mount_fn(mount_id: u32) -> spec_fn((i64, Seq<char>)) -> (u32, (i64, Seq<char>)) {
    |f: (i64, Seq<char>)| (mount_id, f)
}

/// The (id, path) of each pair.
pub open spec fn pair_files(pairs: Seq<(u32, (i64, Seq<char>))>) -> Seq<(i64, Seq<char>)> {
    pairs.map_values(|p: (u32, (i64, Seq<char>))| p.1)
}

/// The known files of the displays of a mount, each with the mount.
pub open spec fn row_files_fn(
    creatures: spec_fn(u32) -> Seq<CreatureDisplayInfo>,
    models: spec_fn(u32) -> Seq<CreatureModel>,
    list_file: Map<i64, String>,
) -> spec_fn(MountXDisplay) -> Seq<(u32, (i64, Seq<char>))> {
    |row: MountXDisplay|
        flat_map(creatures(row.creature_info_id), creature_files_fn(models, list_file)).map_values(
            with_mount_fn(row.mount_id),
        )
}

/// Every (mount, file) pair that the mount displays show, in order.
pub open spec fn display_files(
    rows: Seq<MountXDisplay>,
    creatures: spec_fn(u32) -> Seq<CreatureDisplayInfo>,
    models: spec_fn(u32) -> Seq<CreatureModel>,
    list_file: Map<i64, String>,
) -> Seq<(u32, (i64, Seq<char>))> {
    flat_map(rows, row_files_fn(creatures, models, list_file))
}

/// Every creature of a display has its model row.
pub open spec fn models_known(
    rows: Seq<MountXDisplay>,
    creatures: spec_fn(u32) -> Seq<CreatureDisplayInfo>,
    models: spec_fn(u32) -> Seq<CreatureModel>,
) -> bool {
    forall|i: int, j: int|
        0 <= i < rows.len() && 0 <= j < creatures(rows[i].creature_info_id).len() ==> models(
            #[trigger] creatures(rows[i].creature_info_id)[j].model_id,
        ).len() > 0
}

/// The paths of each mount, in order, for the model files or for the others.
pub open spec fn files_by_mount(pairs: Seq<(u32, (i64, Seq<char>))>, models: bool) -> Map<u32, Seq<Seq<char>>>
    decreases pairs.len(),
{
    if pairs.len() == 0 {
        Map::empty()
    } else {
        let m = files_by_mount(pairs.drop_last(), models);
        let (id, (_, path)) = pairs.last();
        if is_model_path(path) == models {
            m.insert(
                id,
                (if m.contains_key(id) {
                    m[id]
                } else {
                    Seq::empty()
                }).push(path),
            )
        } else {
            m
        }
    }
}

pub open spec fn paths_view(m: Map<u32, Vec<String>>) -> Map<u32, Seq<Seq<char>>> {
    m.map_values(|v: Vec<String>| string_views(v@))
}

pub open spec fn file_refs_view(v: Seq<(i64, String)>) -> Seq<(i64, Seq<char>)> {
    v.map_values(|f: (i64, String)| (f.0, f.1@))
}

/// The paths of a list of (id, path) files.
pub open spec fn paths_of(v: Seq<(i64, Seq<char>)>) -> Seq<Seq<char>> {
    v.map_values(|f: (i64, Seq<char>)| f.1)
}

/// A mount's paths extended by `paths`; no entry is made for no path.
pub open spec fn append_paths(m: Map<u32, Seq<Seq<char>>>, id: u32, paths: Seq<Seq<char>>) -> Map<u32, Seq<Seq<char>>> {
    if paths.len() == 0 {
        m
    } else {
        m.insert(
            id,
            (if m.contains_key(id) {
                m[id]
            } else {
                Seq::empty()
            }) + paths,
        )
    }
}

/// The files that the mount displays show: every referenced (id, path), the
/// texture paths of each mount and the model paths of each mount.
pub struct MountFiles {
    pub referenced: Vec<(i64, String)>,
    pub mount_files: HashMap<u32, Vec<String>>,
    pub model_files: HashMap<u32, Vec<String>>,
}

fn push_path(m: &mut HashMap<u32, Vec<String>>, id: u32, path: String)
    ensures
        paths_view(final(m)@) == paths_view(old(m)@).insert(
            id,
            (if paths_view(old(m)@).contains_key(id) {
                paths_view(old(m)@)[id]
            } else {
                Seq::empty()
            }).push(path@),
        ),
{
    let ghost old_map = m@;
    let existing = m.remove(&id);
    assert(m@ == old_map.remove(id));
    let mut v = match existing {
        Some(v) => v,
        None => Vec::new(),
    };
    assert(string_views(v@) == (if paths_view(old_map).contains_key(id) {
        paths_view(old_map)[id]
    } else {
        Seq::empty()
    }));
    let ghost before = string_views(v@);
    v.push(path);
    assert(string_views(v@) =~= before.push(v@.last()@));
    m.insert(id, v);
    assert(paths_view(m@) =~= paths_view(old(m)@).insert(
        id,
        (if paths_view(old(m)@).contains_key(id) {
            paths_view(old(m)@)[id]
        } else {
            Seq::empty()
        }).push(v@.last()@),
    ));
}

proof fn lemma_file_refs_push(v: Seq<(i64, String)>, x: (i64, String))
    ensures
        file_refs_view(v.push(x)) == file_refs_view(v).push((x.0, x.1@)),
{
    assert(file_refs_view(v.push(x)) =~= file_refs_view(v).push((x.0, x.1@)));
}


fn creature_files(c: &CreatureDisplayInfo, model_file_id: i64, list_file: &HashMap<i64, String>) -> (res: Vec<(i64, String)>)
    ensures
        file_refs_view(res@) == flat_map(display_file_ids(*c, model_file_id), listed_fn(list_file@)),
{
    let ids = [
        model_file_id,
        c.texture_variant_file_id_0,
        c.texture_variant_file_id_1,
        c.texture_variant_file_id_2,
        c.texture_variant_file_id_3,
    ];
    let ghost s = display_file_ids(*c, model_file_id);
    assert(ids@ =~= s);
    let mut res: Vec<(i64, String)> = Vec::new();
    for k in 0..5
        invariant
            ids@ == s,
            file_refs_view(res@) == flat_map(s.take(k as int), listed_fn(list_file@)),
    {
        proof {
            lemma_flat_map_take(s, listed_fn(list_file@), k as int);
        }
        let file_id = ids[k];
        if file_id > 0 {
            match list_file.get(&file_id) {
                Some(path) => {
                    let f = (file_id, path.clone());
                    proof {
                        lemma_file_refs_push(res@, f);
                    }
                    res.push(f);
                },
                None => {},
            }
        }
        assert(file_refs_view(res@) =~= flat_map(s.take(k + 1), listed_fn(list_file@)));
    }
    proof {
        lemma_take_all(s);
    }
    res
}

fn add_file(files: &mut MountFiles, mount_id: u32, f: (i64, String), Ghost(done): Ghost<Seq<(u32, (i64, Seq<char>))>>)
    requires
        file_refs_view(old(files).referenced@) == pair_files(done),
        paths_view(old(files).mount_files@) == files_by_mount(done, false),
        paths_view(old(files).model_files@) == files_by_mount(done, true),
    ensures
        file_refs_view(final(files).referenced@) == pair_files(done.push((mount_id, (f.0, f.1@)))),
        paths_view(final(files).mount_files@) == files_by_mount(done.push((mount_id, (f.0, f.1@))), false),
        paths_view(final(files).model_files@) == files_by_mount(done.push((mount_id, (f.0, f.1@))), true),
{
    let ghost p = (mount_id, (f.0, f.1@));
    assert(done.push(p).drop_last() =~= done);
    let path = f.1.clone();
    proof {
        lemma_file_refs_push(files.referenced@, f);
    }
    if is_model_file(&path) {
        push_path(&mut files.model_files, mount_id, path);
    } else {
        push_path(&mut files.mount_files, mount_id, path);
    }
    files.referenced.push(f);
    assert(pair_files(done.push(p)) =~= pair_files(done).push(p.1));
}

/// The files that the displays of each mount show: for every display, the
/// model file and the texture variants of each of its creatures, where the
/// list file knows them; models and textures kept apart per mount.
pub fn collect_files(
    display_db: &Vec<MountXDisplay>,
    creature_display_db: &LookupDB<CreatureDisplayInfo>,
    creature_model_db: &LookupDB<CreatureModel>,
    list_file: &HashMap<i64, String>,
) -> (res: MountFiles)
    requires
        models_known(display_db@, creature_display_db.rows_fn(), creature_model_db.rows_fn()),
    ensures
        file_refs_view(res.referenced@) == pair_files(
            display_files(display_db@, creature_display_db.rows_fn(), creature_model_db.rows_fn(), list_file@),
        ),
        paths_view(res.mount_files@) == files_by_mount(
            display_files(display_db@, creature_display_db.rows_fn(), creature_model_db.rows_fn(), list_file@),
            false,
        ),
        paths_view(res.model_files@) == files_by_mount(
            display_files(display_db@, creature_display_db.rows_fn(), creature_model_db.rows_fn(), list_file@),
            true,
        ),
{
    let ghost cr = creature_display_db.rows_fn();
    let ghost md = creature_model_db.rows_fn();
    let ghost lf = list_file@;
    let ghost rf = row_files_fn(cr, md, lf);
    let mut files = MountFiles { referenced: Vec::new(), mount_files: HashMap::new(), model_files: HashMap::new() };
    let ghost mut done: Seq<(u32, (i64, Seq<char>))> = Seq::empty();
    assert(file_refs_view(files.referenced@) =~= pair_files(done));
    assert(paths_view(files.mount_files@) =~= files_by_mount(done, false));
    assert(paths_view(files.model_files@) =~= files_by_mount(done, true));
    for i in 0..display_db.len()
        invariant
            cr == creature_display_db.rows_fn(),
            md == creature_model_db.rows_fn(),
            lf == list_file@,
            rf == row_files_fn(cr, md, lf),
            models_known(display_db@, cr, md),
            done == flat_map(display_db@.take(i as int), rf),
            file_refs_view(files.referenced@) == pair_files(done),
            paths_view(files.mount_files@) == files_by_mount(done, false),
            paths_view(files.model_files@) == files_by_mount(done, true),
    {
        proof {
            lemma_flat_map_take(display_db@, rf, i as int);
        }
        let mount_display = display_db[i];
        let mount_id = mount_display.mount_id;
        let creatures = creature_display_db.lookup(&mount_display.creature_info_id);
        let ghost crows = cr(mount_display.creature_info_id);
        let ghost cf = creature_files_fn(md, lf);
        let ghost base = done;
        for j in 0..creatures.len()
            invariant
                cr == creature_display_db.rows_fn(),
                md == creature_model_db.rows_fn(),
                lf == list_file@,
                cf == creature_files_fn(md, lf),
                0 <= i < display_db@.len(),
                mount_display == display_db@[i as int],
                crows == cr(mount_display.creature_info_id),
                creatures@.len() == crows.len(),
                forall|l: int| 0 <= l < crows.len() ==> cloned(crows[l], #[trigger] creatures@[l]),
                models_known(display_db@, cr, md),
                done == base + flat_map(crows.take(j as int), cf).map_values(with_mount_fn(mount_id)),
                file_refs_view(files.referenced@) == pair_files(done),
                paths_view(files.mount_files@) == files_by_mount(done, false),
                paths_view(files.model_files@) == files_by_mount(done, true),
        {
            let creature = creatures[j];
            assert(creature == crows[j as int]);
            proof {
                lemma_flat_map_take(crows, cf, j as int);
            }
            assert(md(crows[j as int].model_id).len() > 0);
            let models = creature_model_db.lookup(&creature.model_id);
            let model_file_id = models[0].file_id;
            assert(models@[0] == md(creature.model_id)[0]);
            let cfiles = creature_files(&creature, model_file_id, list_file);
            let ghost fv = file_refs_view(cfiles@);
            assert(fv == cf(creature));
            let ghost mid = done;
            for l in 0..cfiles.len()
                invariant
                    fv == file_refs_view(cfiles@),
                    done == mid + fv.take(l as int).map_values(with_mount_fn(mount_id)),
                    file_refs_view(files.referenced@) == pair_files(done),
                    paths_view(files.mount_files@) == files_by_mount(done, false),
                    paths_view(files.model_files@) == files_by_mount(done, true),
            {
                let f = (cfiles[l].0, cfiles[l].1.clone());
                add_file(&mut files, mount_id, f, Ghost(done));
                proof {
                    done = done.push((mount_id, (f.0, f.1@)));
                }
                assert(done =~= mid + fv.take(l + 1).map_values(with_mount_fn(mount_id)));
            }
            assert(fv.take(fv.len() as int) =~= fv);
            assert(done =~= base + flat_map(crows.take(j + 1), cf).map_values(with_mount_fn(mount_id)));
        }
        proof {
            lemma_take_all(crows);
        }
        assert(done =~= flat_map(display_db@.take(i + 1), rf));
    }
    proof {
        lemma_take_all(display_db@);
    }
    files
}

/// The texture files that a mount's model names, where the list file knows
/// them; each is added to the mount's files, and all are returned.
pub fn add_model_textures(
    mount_files: &mut HashMap<u32, Vec<String>>,
    mount_id: u32,
    texture_ids: &Vec<i32>,
    list_file: &HashMap<i64, String>,
) -> (res: Vec<(i64, String)>)
    ensures
        file_refs_view(res@) == flat_map(texture_ids@.map_values(|t: i32| t as i64), listed_fn(list_file@)),
        paths_view(final(mount_files)@) == append_paths(
            paths_view(old(mount_files)@),
            mount_id,
            paths_of(file_refs_view(res@)),
        ),
{
    let mut res: Vec<(i64, String)> = Vec::new();
    let ghost ids = texture_ids@.map_values(|t: i32| t as i64);
    assert(paths_view(mount_files@) =~= append_paths(paths_view(old(mount_files)@), mount_id, paths_of(file_refs_view(res@))));
    for k in 0..texture_ids.len()
        invariant
            ids == texture_ids@.map_values(|t: i32| t as i64),
            file_refs_view(res@) == flat_map(ids.take(k as int), listed_fn(list_file@)),
            paths_view(mount_files@) == append_paths(
                paths_view(old(mount_files)@),
                mount_id,
                paths_of(file_refs_view(res@)),
            ),
    {
        proof {
            lemma_flat_map_take(ids, listed_fn(list_file@), k as int);
        }
        let file_id = texture_ids[k] as i64;
        if file_id > 0 {
            match list_file.get(&file_id) {
                Some(path) => {
                    let f = (file_id, path.clone());
                    proof {
                        lemma_file_refs_push(res@, f);
                    }
                    let ghost before = paths_of(file_refs_view(res@));
                    res.push(f);
                    push_path(mount_files, mount_id, path.clone());
                    assert(paths_of(file_refs_view(res@)) =~= before.push(path@));
                    proof {
                        let m0 = paths_view(old(mount_files)@);
                        let a = if m0.contains_key(mount_id) {
                            m0[mount_id]
                        } else {
                            Seq::empty()
                        };
                        assert((a + before).push(path@) =~= a + before.push(path@));
                        assert(a.push(path@) =~= a + seq![path@]);
                        assert(before.len() == 0 ==> before.push(path@) =~= seq![path@]);
                    }
                    assert(paths_view(mount_files@) =~= append_paths(
                        paths_view(old(mount_files)@),
                        mount_id,
                        paths_of(file_refs_view(res@)),
                    ));
                },
                None => {},
            }
        }
        assert(file_refs_view(res@) =~= flat_map(ids.take(k + 1), listed_fn(list_file@)));
    }
    proof {
        lemma_take_all(ids);
    }
    res
}


/// Whether every creature of every display has its model row.
pub fn models_are_known(
    display_db: &Vec<MountXDisplay>,
    creature_display_db: &LookupDB<CreatureDisplayInfo>,
    creature_model_db: &LookupDB<CreatureModel>,
) -> (res: bool)
    ensures
        res == models_known(display_db@, creature_display_db.rows_fn(), creature_model_db.rows_fn()),
{
    let ghost cr = creature_display_db.rows_fn();
    let ghost md = creature_model_db.rows_fn();
    for i in 0..display_db.len()
        invariant
            cr == creature_display_db.rows_fn(),
            md == creature_model_db.rows_fn(),
            forall|a: int, b: int|
                0 <= a < i && 0 <= b < cr(display_db@[a].creature_info_id).len() ==> md(
                    #[trigger] cr(display_db@[a].creature_info_id)[b].model_id,
                ).len() > 0,
    {
        let creatures = creature_display_db.lookup(&display_db[i].creature_info_id);
        let ghost crows = cr(display_db@[i as int].creature_info_id);
        for j in 0..creatures.len()
            invariant
                cr == creature_display_db.rows_fn(),
                md == creature_model_db.rows_fn(),
                0 <= i < display_db@.len(),
                crows == cr(display_db@[i as int].creature_info_id),
                creatures@.len() == crows.len(),
                forall|l: int| 0 <= l < crows.len() ==> cloned(crows[l], #[trigger] creatures@[l]),
                forall|a: int, b: int|
                    0 <= a < i && 0 <= b < cr(display_db@[a].creature_info_id).len() ==> md(
                        #[trigger] cr(display_db@[a].creature_info_id)[b].model_id,
                    ).len() > 0,
                forall|b: int| 0 <= b < j ==> md(#[trigger] crows[b].model_id).len() > 0,
        {
            let creature = creatures[j];
            assert(creature == crows[j as int]);
            if creature_model_db.lookup(&creature.model_id).len() == 0 {
                return false;
            }
        }
    }
    true
}

} // verus!
