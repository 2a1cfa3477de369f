//! Families of mounts: the configured categories that each mount falls in.
use std::collections::BTreeMap;
use vstd::prelude::*;

use crate::mount::export::{families_known, ids_known, node_known};
use crate::mount::{mounts_view, Mount, MountView};
use crate::tools::maps::{
    lemma_named_map, lemma_named_map_insert, lemma_named_map_update, named_map, names_sorted, sorted_keys,
    sorted_keys_of,
};
use crate::tools::seqs::{flat_map, lemma_flat_map_take, lemma_take_all};
use crate::tools::text::{
    contains_any, lemma_seq_less_irreflexive, lemma_seq_less_total, lemma_seq_less_transitive, seq_less,
    spec_lowercase, str_contains_any, string_less, string_pair_views, string_views, strings_contain, to_lowercase,
};

verus! {

broadcast use {vstd::std_specs::btree::group_btree_axioms, vstd::laws_cmp::group_laws_cmp};

/// A family or subfamily of the configuration: its name, the warcraftmounts
/// families and icon name parts it takes, and the mount ids it takes.
pub struct FamilyRule {
    pub name: String,
    pub wcm: Option<Vec<String>>,
    pub icons: Option<Vec<String>>,
    pub ids: Option<Vec<u32>>,
}

pub ghost struct FamilyRuleView {
    pub name: Seq<char>,
    pub wcm: Option<Seq<Seq<char>>>,
    pub icons: Option<Seq<Seq<char>>>,
    pub ids: Option<Seq<u32>>,
}

pub open spec fn strings_view(v: Option<Vec<String>>) -> Option<Seq<Seq<char>>> {
    match v {
        Some(s) => Some(string_views(s@)),
        None => None,
    }
}

pub open spec fn ids_view(v: Option<Vec<u32>>) -> Option<Seq<u32>> {
    match v {
        Some(s) => Some(s@),
        None => None,
    }
}

impl View for FamilyRule {
    type V = FamilyRuleView;

    open spec fn view(&self) -> FamilyRuleView {
        FamilyRuleView {
            name: self.name@,
            wcm: strings_view(self.wcm),
            icons: strings_view(self.icons),
            ids: ids_view(self.ids),
        }
    }
}

pub open spec fn rules_view(v: Seq<FamilyRule>) -> Seq<FamilyRuleView> {
    v.map_values(|r: FamilyRule| r@)
}

/// A top-level family with its subfamilies.
pub struct FamilyCategory {
    pub rule: FamilyRule,
    pub subfamily: Option<Vec<FamilyRule>>,
}

pub ghost struct FamilyCategoryView {
    pub rule: FamilyRuleView,
    pub subfamily: Option<Seq<FamilyRuleView>>,
}

impl View for FamilyCategory {
    type V = FamilyCategoryView;

    open spec fn view(&self) -> FamilyCategoryView {
        FamilyCategoryView {
            rule: self.rule@,
            subfamily: match self.subfamily {
                Some(s) => Some(rules_view(s@)),
                None => None,
            },
        }
    }
}

pub open spec fn categories_view(v: Seq<FamilyCategory>) -> Seq<FamilyCategoryView> {
    v.map_values(|c: FamilyCategory| c@)
}

/// A rule takes a mount of a warcraftmounts family when it lists that family
/// and, if it lists icon name parts, the mount's icon contains one of them.
pub open spec fn rule_matches_family(r: FamilyRuleView, family: Seq<char>, icon: Seq<char>) -> bool {
    match r.wcm {
        None => false,
        Some(families) => families.contains(family) && match r.icons {
            None => true,
            Some(icons) => contains_any(icon, icons),
        },
    }
}

/// A rule takes a mount whose id it lists.
pub open spec fn rule_matches_id(r: FamilyRuleView, id: u32) -> bool {
    match r.ids {
        None => false,
        Some(ids) => ids.contains(id),
    }
}

pub open spec fn family_pred(family: Seq<char>, icon: Seq<char>) -> spec_fn(FamilyRuleView) -> bool {
    |r: FamilyRuleView| rule_matches_family(r, family, icon)
}

pub open spec fn id_pred(id: u32) -> spec_fn(FamilyRuleView) -> bool {
    |r: FamilyRuleView| rule_matches_id(r, id)
}

/// A subfamily of `family` that the rule test takes.
pub open spec fn sub_match_fn(family: Seq<char>, pred: spec_fn(FamilyRuleView) -> bool) -> spec_fn(
    FamilyRuleView,
) -> Seq<(Seq<char>, Option<Seq<char>>)> {
    |s: FamilyRuleView|
        if pred(s) {
            seq![(family, Some(s.name))]
        } else {
            Seq::empty()
        }
}

/// The family itself, then each of its subfamilies, that the rule test takes.
pub open spec fn category_match_fn(pred: spec_fn(FamilyRuleView) -> bool) -> spec_fn(FamilyCategoryView) -> Seq<
    (Seq<char>, Option<Seq<char>>),
> {
    |c: FamilyCategoryView|
        (if pred(c.rule) {
            seq![(c.rule.name, None::<Seq<char>>)]
        } else {
            Seq::empty()
        }) + match c.subfamily {
            None => Seq::empty(),
            Some(subs) => flat_map(subs, sub_match_fn(c.rule.name, pred)),
        }
}

/// The (family, subfamily) pairs of the configuration that the rule test takes.
pub open spec fn config_matches(config: Seq<FamilyCategoryView>, pred: spec_fn(FamilyRuleView) -> bool) -> Seq<
    (Seq<char>, Option<Seq<char>>),
> {
    flat_map(config, category_match_fn(pred))
}

pub open spec fn opt_string_view(o: Option<String>) -> Option<Seq<char>> {
    match o {
        Some(s) => Some(s@),
        None => None,
    }
}

pub open spec fn matches_view(v: Seq<(String, Option<String>)>) -> Seq<(Seq<char>, Option<Seq<char>>)> {
    v.map_values(|m: (String, Option<String>)| (m.0@, opt_string_view(m.1)))
}

proof fn lemma_matches_view_push(v: Seq<(String, Option<String>)>, x: (String, Option<String>))
    ensures
        matches_view(v.push(x)) == matches_view(v).push((x.0@, opt_string_view(x.1))),
{
    assert(matches_view(v.push(x)) =~= matches_view(v).push((x.0@, opt_string_view(x.1))));
}

fn ids_contain(ids: &Vec<u32>, id: u32) -> (res: bool)
    ensures
        res == ids@.contains(id),
{
    for i in 0..ids.len()
        invariant
            forall|l: int| 0 <= l < i ==> ids@[l] != id,
    {
        if ids[i] == id {
            return true;
        }
    }
    false
}

fn matches_family_exec(r: &FamilyRule, family: &String, icon: &String) -> (res: bool)
    ensures
        res == rule_matches_family(r@, family@, icon@),
{
    match &r.wcm {
        None => false,
        Some(families) => strings_contain(families, family) && match &r.icons {
            None => true,
            Some(icons) => str_contains_any(icon, icons),
        },
    }
}

fn matches_id_exec(r: &FamilyRule, id: u32) -> (res: bool)
    ensures
        res == rule_matches_id(r@, id),
{
    match &r.ids {
        None => false,
        Some(ids) => ids_contain(ids, id),
    }
}

/// Which rule test a match uses.
enum RuleTest<'a> {
    ByFamily(&'a String, &'a String),
    ById(u32),
}

spec fn test_pred(t: RuleTest) -> spec_fn(FamilyRuleView) -> bool {
    match t {
        RuleTest::ByFamily(family, icon) => family_pred(family@, icon@),
        RuleTest::ById(id) => id_pred(id),
    }
}

fn rule_passes(r: &FamilyRule, t: &RuleTest) -> (res: bool)
    ensures
        res == test_pred(*t)(r@),
{
    match t {
        RuleTest::ByFamily(family, icon) => matches_family_exec(r, family, icon),
        RuleTest::ById(id) => matches_id_exec(r, *id),
    }
}

fn config_matches_exec(map_config: &Vec<FamilyCategory>, t: &RuleTest) -> (res: Vec<(String, Option<String>)>)
    ensures
        matches_view(res@) == config_matches(categories_view(map_config@), test_pred(*t)),
{
    let ghost pred = test_pred(*t);
    let ghost cv = categories_view(map_config@);
    let mut result: Vec<(String, Option<String>)> = Vec::new();
    for i in 0..map_config.len()
        invariant
            pred == test_pred(*t),
            cv == categories_view(map_config@),
            matches_view(result@) == flat_map(cv.take(i as int), category_match_fn(pred)),
    {
        let category = &map_config[i];
        proof {
            lemma_flat_map_take(cv, category_match_fn(pred), i as int);
        }
        let ghost before = matches_view(result@);
        let cat_name = &category.rule.name;
        if rule_passes(&category.rule, t) {
            let m = (cat_name.clone(), None);
            proof {
                lemma_matches_view_push(result@, m);
            }
            result.push(m);
        }
        let ghost own = matches_view(result@);
        assert(own == before + (if pred(cv[i as int].rule) {
            seq![(cv[i as int].rule.name, None::<Seq<char>>)]
        } else {
            Seq::empty()
        }));
        match &category.subfamily {
            None => {},
            Some(subfamily) => {
                let ghost subs = rules_view(subfamily@);
                let ghost f = sub_match_fn(cat_name@, pred);
                for j in 0..subfamily.len()
                    invariant
                        pred == test_pred(*t),
                        subs == rules_view(subfamily@),
                        f == sub_match_fn(cat_name@, pred),
                        matches_view(result@) == own + flat_map(subs.take(j as int), f),
                {
                    proof {
                        lemma_flat_map_take(subs, f, j as int);
                    }
                    let ghost prev = matches_view(result@);
                    if rule_passes(&subfamily[j], t) {
                        let m = (cat_name.clone(), Some(subfamily[j].name.clone()));
                        proof {
                            lemma_matches_view_push(result@, m);
                        }
                        result.push(m);
                    }
                    assert(matches_view(result@) =~= own + flat_map(subs.take(j + 1), f));
                }
                proof {
                    lemma_take_all(subs);
                }
            },
        }
        assert(matches_view(result@) =~= flat_map(cv.take(i + 1), category_match_fn(pred)));
    }
    proof {
        lemma_take_all(cv);
    }
    result
}

/// The (family, subfamily) pairs whose rules take the warcraftmounts family
/// and icon of a mount.
pub fn match_by_family(map_config: &Vec<FamilyCategory>, wcm_family: &String, mount_icon: &String) -> (res: Vec<
    (String, Option<String>),
>)
    ensures
        matches_view(res@) == config_matches(
            categories_view(map_config@),
            family_pred(wcm_family@, mount_icon@),
        ),
{
    config_matches_exec(map_config, &RuleTest::ByFamily(wcm_family, mount_icon))
}

/// The (family, subfamily) pairs whose rules list a mount id.
pub fn match_by_id(mount_id: &u32, map_config: &Vec<FamilyCategory>) -> (res: Vec<(String, Option<String>)>)
    ensures
        matches_view(res@) == config_matches(categories_view(map_config@), id_pred(*mount_id)),
{
    config_matches_exec(map_config, &RuleTest::ById(*mount_id))
}


/// The mounts of a family, and its subfamilies by name in increasing order.
pub struct FamilyNode {
    pub sub_nodes: Vec<(String, Vec<u32>)>,
    pub mount_ids: Vec<u32>,
}

pub ghost struct FamilyView {
    pub mount_ids: Seq<u32>,
    pub sub: Map<Seq<char>, Seq<u32>>,
}

pub open spec fn sub_entries(v: Seq<(String, Vec<u32>)>) -> Seq<(Seq<char>, Seq<u32>)> {
    v.map_values(|e: (String, Vec<u32>)| (e.0@, e.1@))
}

impl View for FamilyNode {
    type V = FamilyView;

    open spec fn view(&self) -> FamilyView {
        FamilyView { mount_ids: self.mount_ids@, sub: named_map(sub_entries(self.sub_nodes@)) }
    }
}

impl FamilyNode {
    pub fn new() -> (res: Self)
        ensures
            res.sub_nodes@.len() == 0,
            res.mount_ids@.len() == 0,
    {
        Self { sub_nodes: Vec::new(), mount_ids: Vec::new() }
    }
}

pub open spec fn family_entries(v: Seq<(String, FamilyNode)>) -> Seq<(Seq<char>, FamilyView)> {
    v.map_values(|e: (String, FamilyNode)| (e.0@, e.1@))
}

/// The families are in increasing order of name, and so are the subfamilies of each.
pub open spec fn families_sorted(v: Seq<(String, FamilyNode)>) -> bool {
    &&& names_sorted(family_entries(v))
    &&& forall|i: int| 0 <= i < v.len() ==> names_sorted(sub_entries(#[trigger] v[i].1.sub_nodes@))
}

/// A family that has nothing yet.
pub open spec fn empty_family() -> FamilyView {
    FamilyView { mount_ids: Seq::empty(), sub: Map::empty() }
}

/// Adds a mount to a family, or to one of its subfamilies.
pub open spec fn family_add(
    fams: Map<Seq<char>, FamilyView>,
    m: (Seq<char>, Option<Seq<char>>),
    id: u32,
) -> Map<Seq<char>, FamilyView> {
    let node = if fams.contains_key(m.0) {
        fams[m.0]
    } else {
        empty_family()
    };
    let new_node = match m.1 {
        None => FamilyView { mount_ids: node.mount_ids.push(id), sub: node.sub },
        Some(s) => FamilyView {
            mount_ids: node.mount_ids,
            sub: node.sub.insert(
                s,
                (if node.sub.contains_key(s) {
                    node.sub[s]
                } else {
                    Seq::empty()
                }).push(id),
            ),
        },
    };
    fams.insert(m.0, new_node)
}

/// Adds a mount to every family and subfamily it matches, in order.
pub open spec fn family_add_all(
    fams: Map<Seq<char>, FamilyView>,
    ms: Seq<(Seq<char>, Option<Seq<char>>)>,
    id: u32,
) -> Map<Seq<char>, FamilyView>
    decreases ms.len(),
{
    if ms.len() == 0 {
        fams
    } else {
        family_add(family_add_all(fams, ms.drop_last(), id), ms.last(), id)
    }
}

/// The family of a mount name on warcraftmounts: that of the last pair with
/// the name, else empty.
pub open spec fn wcm_family(pairs: Seq<(Seq<char>, Seq<char>)>, name: Seq<char>) -> Seq<char>
    decreases pairs.len(),
{
    if pairs.len() == 0 {
        Seq::empty()
    } else if pairs.last().0 == name {
        pairs.last().1
    } else {
        wcm_family(pairs.drop_last(), name)
    }
}

/// The families of a mount: those whose rules list its id, else those that
/// take its warcraftmounts family and icon.
pub open spec fn mount_matches(
    config: Seq<FamilyCategoryView>,
    m: MountView,
    pairs: Seq<(Seq<char>, Seq<char>)>,
) -> Seq<(Seq<char>, Option<Seq<char>>)> {
    let by_id = config_matches(config, id_pred(m.id));
    if by_id.len() > 0 {
        by_id
    } else {
        config_matches(config, family_pred(wcm_family(pairs, spec_lowercase(m.name)), m.icon))
    }
}

/// The families of the mounts under `keys`, taken in order.
pub open spec fn families_of(
    keys: Seq<u32>,
    mounts: Map<u32, MountView>,
    config: Seq<FamilyCategoryView>,
    pairs: Seq<(Seq<char>, Seq<char>)>,
) -> Map<Seq<char>, FamilyView>
    decreases keys.len(),
{
    if keys.len() == 0 {
        Map::empty()
    } else {
        let m = mounts[keys.last()];
        family_add_all(families_of(keys.drop_last(), mounts, config, pairs), mount_matches(config, m, pairs), m.id)
    }
}

/// The first position whose name is not below `name`.
fn find_name<V>(v: &Vec<(String, V)>, name: &String) -> (pos: usize)
    ensures
        pos <= v@.len(),
        forall|i: int| 0 <= i < pos ==> seq_less(#[trigger] v@[i].0@, name@),
        pos < v@.len() ==> !seq_less(v@[pos as int].0@, name@),
{
    let mut pos: usize = 0;
    while pos < v.len() && string_less(v[pos].0.as_str(), name.as_str())
        invariant
            pos <= v@.len(),
            forall|i: int| 0 <= i < pos ==> seq_less(#[trigger] v@[i].0@, name@),
        decreases v@.len() - pos,
    {
        pos = pos + 1;
    }
    pos
}

/// A name that is not at `pos` is nowhere in a sorted list.
proof fn lemma_absent<V>(v: Seq<(Seq<char>, V)>, pos: int, k: Seq<char>)
    requires
        names_sorted(v),
        0 <= pos <= v.len(),
        forall|i: int| 0 <= i < pos ==> seq_less(#[trigger] v[i].0, k),
        pos < v.len() ==> seq_less(k, v[pos].0),
    ensures
        !named_map(v).contains_key(k),
{
    lemma_named_map(v);
    if named_map(v).contains_key(k) {
        let i = choose|i: int| 0 <= i < v.len() && v[i].0 == k;
        lemma_seq_less_irreflexive(k);
        if i > pos {
            assert(seq_less(v[pos].0, v[i].0));
            lemma_seq_less_transitive(k, v[pos].0, v[i].0);
        }
    }
}

fn add_to_sub(sub_nodes: &mut Vec<(String, Vec<u32>)>, name: &String, id: u32)
    requires
        names_sorted(sub_entries(old(sub_nodes)@)),
    ensures
        names_sorted(sub_entries(final(sub_nodes)@)),
        named_map(sub_entries(final(sub_nodes)@)) == named_map(sub_entries(old(sub_nodes)@)).insert(
            name@,
            (if named_map(sub_entries(old(sub_nodes)@)).contains_key(name@) {
                named_map(sub_entries(old(sub_nodes)@))[name@]
            } else {
                Seq::empty()
            }).push(id),
        ),
{
    let ghost old_entries = sub_entries(sub_nodes@);
    let pos = find_name(sub_nodes, name);
    proof {
        lemma_named_map(old_entries);
    }
    if pos < sub_nodes.len() && sub_nodes[pos].0 == *name {
        let (n, mut ids) = sub_nodes.remove(pos);
        ids.push(id);
        let ghost new_ids = ids@;
        sub_nodes.insert(pos, (n, ids));
        proof {
            assert(sub_entries(sub_nodes@) =~= old_entries.update(pos as int, (old_entries[pos as int].0, new_ids)));
            lemma_named_map_update(old_entries, pos as int, new_ids);
        }
    } else {
        proof {
            if pos < sub_nodes@.len() {
                lemma_seq_less_total(old_entries[pos as int].0, name@);
            }
            lemma_absent(old_entries, pos as int, name@);
        }
        let mut ids: Vec<u32> = Vec::new();
        ids.push(id);
        let ghost new_ids = ids@;
        assert(new_ids =~= Seq::<u32>::empty().push(id));
        sub_nodes.insert(pos, (name.clone(), ids));
        proof {
            assert(sub_entries(sub_nodes@) =~= old_entries.insert(pos as int, (name@, new_ids)));
            lemma_named_map_insert(old_entries, pos as int, name@, new_ids);
        }
    }
}

fn add_to_node(node: &mut FamilyNode, sub: &Option<String>, id: u32)
    requires
        names_sorted(sub_entries(old(node).sub_nodes@)),
    ensures
        names_sorted(sub_entries(final(node).sub_nodes@)),
        final(node)@ == match opt_string_view(*sub) {
            None => FamilyView { mount_ids: old(node)@.mount_ids.push(id), sub: old(node)@.sub },
            Some(s) => FamilyView {
                mount_ids: old(node)@.mount_ids,
                sub: old(node)@.sub.insert(
                    s,
                    (if old(node)@.sub.contains_key(s) {
                        old(node)@.sub[s]
                    } else {
                        Seq::empty()
                    }).push(id),
                ),
            },
        },
{
    match sub {
        None => {
            node.mount_ids.push(id);
        },
        Some(s) => {
            add_to_sub(&mut node.sub_nodes, s, id);
        },
    }
}

proof fn lemma_family_entries_update(v: Seq<(String, FamilyNode)>, pos: int, e: (String, FamilyNode))
    requires
        0 <= pos < v.len(),
    ensures
        family_entries(v.update(pos, e)) == family_entries(v).update(pos, (e.0@, e.1@)),
{
    assert(family_entries(v.update(pos, e)) =~= family_entries(v).update(pos, (e.0@, e.1@)));
}

fn add_to_family(fams: &mut Vec<(String, FamilyNode)>, m: &(String, Option<String>), id: u32)
    requires
        families_sorted(old(fams)@),
    ensures
        families_sorted(final(fams)@),
        named_map(family_entries(final(fams)@)) == family_add(
            named_map(family_entries(old(fams)@)),
            (m.0@, opt_string_view(m.1)),
            id,
        ),
{
    let ghost old_entries = family_entries(fams@);
    let ghost old_fams = fams@;
    let main = &m.0;
    let pos = find_name(fams, main);
    proof {
        lemma_named_map(old_entries);
    }
    if pos < fams.len() && fams[pos].0 == *main {
        let (n, mut node) = fams.remove(pos);
        assert(node == old_fams[pos as int].1);
        assert(names_sorted(sub_entries(node.sub_nodes@)));
        add_to_node(&mut node, &m.1, id);
        let ghost new_view = node@;
        let ghost new_sub = node.sub_nodes@;
        fams.insert(pos, (n, node));
        proof {
            assert(fams@ =~= old_fams.update(pos as int, fams@[pos as int]));
            lemma_family_entries_update(old_fams, pos as int, fams@[pos as int]);
            lemma_named_map_update(old_entries, pos as int, new_view);
            assert forall|i: int| 0 <= i < fams@.len() implies names_sorted(sub_entries(#[trigger] fams@[i].1.sub_nodes@)) by {
                if i != pos {
                    assert(fams@[i] == old_fams[i]);
                }
            }
        }
    } else {
        proof {
            if pos < fams@.len() {
                lemma_seq_less_total(old_entries[pos as int].0, main@);
            }
            lemma_absent(old_entries, pos as int, main@);
        }
        let mut node = FamilyNode::new();
        assert(sub_entries(node.sub_nodes@) =~= Seq::<(Seq<char>, Seq<u32>)>::empty());
        assert(node.mount_ids@ =~= Seq::<u32>::empty());
        assert(named_map(sub_entries(node.sub_nodes@)) == Map::<Seq<char>, Seq<u32>>::empty());
        assert(node@ == empty_family());
        add_to_node(&mut node, &m.1, id);
        let ghost new_view = node@;
        let ghost old_len = fams@.len();
        fams.insert(pos, (main.clone(), node));
        proof {
            assert(family_entries(fams@) =~= old_entries.insert(pos as int, (main@, new_view)));
            lemma_named_map_insert(old_entries, pos as int, main@, new_view);
            assert forall|i: int| 0 <= i < fams@.len() implies names_sorted(sub_entries(#[trigger] fams@[i].1.sub_nodes@)) by {
                if i < pos {
                    assert(fams@[i] == old_fams[i]);
                } else if i > pos {
                    assert(fams@[i] == old_fams[i - 1]);
                }
            }
        }
    }
}

/// The warcraftmounts family of a lower-case mount name.
fn find_wcm_family(wcm_map: &Vec<(String, String)>, name: &String) -> (res: String)
    ensures
        res@ == wcm_family(string_pair_views(wcm_map@), name@),
{
    let ghost pairs = string_pair_views(wcm_map@);
    let mut i = wcm_map.len();
    assert(pairs.take(i as int) =~= pairs);
    while i > 0
        invariant
            i <= wcm_map@.len(),
            pairs == string_pair_views(wcm_map@),
            wcm_family(pairs, name@) == wcm_family(pairs.take(i as int), name@),
        decreases i,
    {
        assert(pairs.take(i as int).drop_last() =~= pairs.take(i - 1));
        if wcm_map[i - 1].0 == *name {
            return wcm_map[i - 1].1.clone();
        }
        i = i - 1;
    }
    assert(pairs.take(0) =~= Seq::<(Seq<char>, Seq<char>)>::empty());
    String::new()
}

/// Sorts the mounts into the configured families and subfamilies.
pub fn group_by_families(
    mounts: &BTreeMap<u32, Mount>,
    map_config: &Vec<FamilyCategory>,
    wcm_map: &Vec<(String, String)>,
) -> (res: Vec<(String, FamilyNode)>)
    ensures
        families_sorted(res@),
        named_map(family_entries(res@)) == families_of(
            sorted_keys_of(mounts@.dom()),
            mounts_view(mounts@),
            categories_view(map_config@),
            string_pair_views(wcm_map@),
        ),
{
    let ghost mv = mounts_view(mounts@);
    let ghost config = categories_view(map_config@);
    let ghost pairs = string_pair_views(wcm_map@);
    let mut result: Vec<(String, FamilyNode)> = Vec::new();
    let keys = sorted_keys(mounts);
    assert(family_entries(result@) =~= Seq::<(Seq<char>, FamilyView)>::empty());
    assert(named_map(family_entries(result@)) =~= families_of(keys@.take(0), mv, config, pairs));
    for i in 0..keys.len()
        invariant
            keys@.to_set() == mounts@.dom(),
            mv == mounts_view(mounts@),
            config == categories_view(map_config@),
            pairs == string_pair_views(wcm_map@),
            families_sorted(result@),
            named_map(family_entries(result@)) == families_of(keys@.take(i as int), mv, config, pairs),
    {
        let k = keys[i];
        assert(keys@.to_set().contains(k));
        assert(keys@.take(i + 1).drop_last() =~= keys@.take(i as int));
        let mount = mounts.get(&k).unwrap();
        assert(mv[k] == mount@);
        let lowered_name = to_lowercase(mount.name.as_str());
        let matches_by_id = match_by_id(&mount.id, map_config);
        let matches = if matches_by_id.len() == 0 {
            let family = find_wcm_family(wcm_map, &lowered_name);
            match_by_family(map_config, &family, &mount.icon)
        } else {
            matches_by_id
        };
        let ghost ms = matches_view(matches@);
        let ghost start = named_map(family_entries(result@));
        assert(ms == mount_matches(config, mv[k], pairs));
        for j in 0..matches.len()
            invariant
                ms == matches_view(matches@),
                families_sorted(result@),
                named_map(family_entries(result@)) == family_add_all(start, ms.take(j as int), mount.id),
        {
            assert(ms.take(j + 1).drop_last() =~= ms.take(j as int));
            add_to_family(&mut result, &matches[j], mount.id);
        }
        assert(ms.take(ms.len() as int) =~= ms);
    }
    assert(keys@.take(keys@.len() as int) =~= keys@);
    result
}


/// Every mount of every family and subfamily is in `dom`.
pub open spec fn family_ids_in(fams: Map<Seq<char>, FamilyView>, dom: Set<u32>) -> bool {
    forall|name: Seq<char>|
        #[trigger] fams.contains_key(name) ==> {
            &&& forall|j: int| 0 <= j < fams[name].mount_ids.len() ==> dom.contains(#[trigger] fams[name].mount_ids[j])
            &&& forall|s: Seq<char>|
                #[trigger] fams[name].sub.contains_key(s) ==> forall|j: int|
                    0 <= j < fams[name].sub[s].len() ==> dom.contains(#[trigger] fams[name].sub[s][j])
        }
}

proof fn lemma_family_add_in(fams: Map<Seq<char>, FamilyView>, m: (Seq<char>, Option<Seq<char>>), id: u32, dom: Set<u32>)
    requires
        family_ids_in(fams, dom),
        dom.contains(id),
    ensures
        family_ids_in(family_add(fams, m, id), dom),
{
    let r = family_add(fams, m, id);
    assert forall|name: Seq<char>| #[trigger] r.contains_key(name) implies {
        &&& forall|j: int| 0 <= j < r[name].mount_ids.len() ==> dom.contains(#[trigger] r[name].mount_ids[j])
        &&& forall|s: Seq<char>|
            #[trigger] r[name].sub.contains_key(s) ==> forall|j: int|
                0 <= j < r[name].sub[s].len() ==> dom.contains(#[trigger] r[name].sub[s][j])
    } by {
        if name == m.0 && fams.contains_key(name) {
            assert forall|s: Seq<char>| #[trigger] r[name].sub.contains_key(s) implies forall|j: int|
                0 <= j < r[name].sub[s].len() ==> dom.contains(#[trigger] r[name].sub[s][j]) by {
                if fams[name].sub.contains_key(s) {
                    assert forall|j: int| 0 <= j < r[name].sub[s].len() implies dom.contains(#[trigger] r[name].sub[s][j]) by {
                        if j < fams[name].sub[s].len() {
                            assert(fams[name].sub[s][j] == r[name].sub[s][j]);
                        }
                    }
                }
            }
            assert forall|j: int| 0 <= j < r[name].mount_ids.len() implies dom.contains(#[trigger] r[name].mount_ids[j]) by {
                if j < fams[name].mount_ids.len() {
                    assert(fams[name].mount_ids[j] == r[name].mount_ids[j]);
                }
            }
        }
    }
}

proof fn lemma_family_add_all_in(fams: Map<Seq<char>, FamilyView>, ms: Seq<(Seq<char>, Option<Seq<char>>)>, id: u32, dom: Set<u32>)
    requires
        family_ids_in(fams, dom),
        dom.contains(id),
    ensures
        family_ids_in(family_add_all(fams, ms, id), dom),
    decreases ms.len(),
{
    if ms.len() > 0 {
        lemma_family_add_all_in(fams, ms.drop_last(), id, dom);
        lemma_family_add_in(family_add_all(fams, ms.drop_last(), id), ms.last(), id, dom);
    }
}

/// The families hold only ids of the mounts, when every mount is stored under its id.
pub proof fn lemma_families_of_in(
    keys: Seq<u32>,
    mounts: Map<u32, MountView>,
    config: Seq<FamilyCategoryView>,
    pairs: Seq<(Seq<char>, Seq<char>)>,
)
    requires
        forall|i: int| 0 <= i < keys.len() ==> #[trigger] mounts.contains_key(keys[i]),
        forall|k: u32| #[trigger] mounts.contains_key(k) ==> mounts[k].id == k,
    ensures
        family_ids_in(families_of(keys, mounts, config, pairs), mounts.dom()),
    decreases keys.len(),
{
    if keys.len() > 0 {
        let k = keys.last();
        assert(mounts.contains_key(keys[keys.len() - 1]));
        lemma_families_of_in(keys.drop_last(), mounts, config, pairs);
        lemma_family_add_all_in(
            families_of(keys.drop_last(), mounts, config, pairs),
            mount_matches(config, mounts[k], pairs),
            mounts[k].id,
            mounts.dom(),
        );
    }
}

/// A sorted family list whose map holds only ids of the mounts can be exported.
pub proof fn lemma_families_known(v: Seq<(String, FamilyNode)>, mounts: Map<u32, MountView>)
    requires
        families_sorted(v),
        family_ids_in(named_map(family_entries(v)), mounts.dom()),
    ensures
        families_known(v, mounts),
{
    let fams = named_map(family_entries(v));
    lemma_named_map(family_entries(v));
    assert forall|i: int| 0 <= i < v.len() implies node_known(#[trigger] v[i].1, mounts) by {
        let name = v[i].0@;
        assert(family_entries(v)[i] == (name, v[i].1@));
        assert(fams.contains_key(family_entries(v)[i].0));
        assert(fams[name] == v[i].1@);
        assert forall|j: int| 0 <= j < v[i].1.mount_ids@.len() implies mounts.contains_key(#[trigger] v[i].1.mount_ids@[j]) by {
            assert(fams[name].mount_ids[j] == v[i].1.mount_ids@[j]);
        }
        let subs = sub_entries(v[i].1.sub_nodes@);
        assert(names_sorted(subs));
        lemma_named_map(subs);
        assert forall|j: int| 0 <= j < v[i].1.sub_nodes@.len() implies ids_known(#[trigger] v[i].1.sub_nodes@[j].1@, mounts) by {
            let s = v[i].1.sub_nodes@[j].0@;
            assert(subs[j] == (s, v[i].1.sub_nodes@[j].1@));
            assert(named_map(subs).contains_key(subs[j].0));
            assert(fams[name].sub.contains_key(s));
            assert forall|l: int| 0 <= l < v[i].1.sub_nodes@[j].1@.len() implies mounts.contains_key(#[trigger] v[i].1.sub_nodes@[j].1@[l]) by {
                assert(fams[name].sub[s][l] == v[i].1.sub_nodes@[j].1@[l]);
            }
        }
    }
}

} // verus!
