//! Mount names and families from the pages of warcraftmounts.com.
use vstd::prelude::*;

use crate::tools::patterns::{
    capture_categories, capture_image_titles, decode_html_entities, gallery_categories, html_decoded,
    image_titles,
};
use crate::tools::text::{replace_all, replaced, spec_lowercase, string_pair_views, string_views, to_lowercase};

verus! {

/// A page name as it is compared with mount names: entities decoded, lower
/// case, without the faction tags.
pub open spec fn spec_parse_name(mount_name: Seq<char>) -> Seq<char> {
    replaced(
        replaced(spec_lowercase(html_decoded(mount_name)), " [horde]"@, Seq::empty()),
        " [alliance]"@,
        Seq::empty(),
    )
}

pub fn parse_name(mount_name: &str) -> (res: String)
    ensures
        res@ == spec_parse_name(mount_name@),
{
    let decoded = decode_html_entities(mount_name);
    let lowered = to_lowercase(decoded.as_str());
    proof {
        reveal_strlit(" [horde]");
        reveal_strlit(" [alliance]");
        reveal_strlit("");
    }
    assert(""@ =~= Seq::<char>::empty());
    let without_horde = replace_all(lowered.as_str(), " [horde]", "");
    replace_all(without_horde.as_str(), " [alliance]", "")
}

pub open spec fn parse_name_fn() -> spec_fn(Seq<char>) -> Seq<char> {
    |t: Seq<char>| spec_parse_name(t)
}

/// A name paired with its family.
pub open spec fn in_family_fn(family: Seq<char>) -> spec_fn(Seq<char>) -> (Seq<char>, Seq<char>) {
    |n: Seq<char>| (n, family)
}

/// The names of all mounts shown on a page.
pub open spec fn page_names(html: Seq<char>) -> Seq<Seq<char>> {
    image_titles(html).map_values(parse_name_fn())
}

fn load_only_names(html: &str) -> (res: Vec<String>)
    ensures
        string_views(res@) == page_names(html@),
{
    let titles = capture_image_titles(html);
    let ghost t = string_views(titles@);
    let mut result: Vec<String> = Vec::new();
    for i in 0..titles.len()
        invariant
            t == string_views(titles@),
            t == image_titles(html@),
            0 <= i <= t.len(),
            result@.len() == i,
            string_views(result@) == t.take(i as int).map_values(parse_name_fn()),
    {
        let name = parse_name(titles[i].as_str());
        let ghost before = result@;
        result.push(name);

        assert forall|k: int| 0 <= k < i + 1 implies #[trigger] string_views(result@)[k]
            == t.take(i + 1).map_values(parse_name_fn())[k] by {
            if k < i {
                assert(string_views(before)[k] == t.take(i as int).map_values(parse_name_fn())[k]);
            }
        }
        assert(string_views(result@) =~= t.take(i + 1).map_values(parse_name_fn()));
    }
    assert(t.take(t.len() as int) =~= t);
    result
}

/// The names of the mounts on the black market page.
pub fn load_wcm_black_market_mounts(html: &str) -> (res: Vec<String>)
    ensures
        string_views(res@) == page_names(html@),
{
    load_only_names(html)
}

/// The names of the mounts on the retired mounts page.
pub fn load_wcm_retired_mounts(html: &str) -> (res: Vec<String>)
    ensures
        string_views(res@) == page_names(html@),
{
    load_only_names(html)
}

/// The (name, family) pairs of the gallery page, category by category.
pub open spec fn gallery_families(html: Seq<char>) -> Seq<(Seq<char>, Seq<char>)> {
    gallery_pairs(gallery_categories(html))
}

/// Every mount name of each category block, paired with the category.
pub open spec fn gallery_pairs(blocks: Seq<(Seq<char>, Seq<char>)>) -> Seq<(Seq<char>, Seq<char>)>
    decreases blocks.len(),
{
    if blocks.len() == 0 {
        Seq::empty()
    } else {
        let b = blocks.last();
        gallery_pairs(blocks.drop_last()) + page_names(b.1).map_values(in_family_fn(b.0))
    }
}

/// The family of every mount on the gallery page as (name, family) pairs in
/// page order; where a name occurs twice, the later pair holds.
pub fn load_wcm_families(html: &str) -> (res: Vec<(String, String)>)
    ensures
        string_pair_views(res@) == gallery_families(html@),
{
    let blocks = capture_categories(html);
    let ghost b = string_pair_views(blocks@);
    let mut result: Vec<(String, String)> = Vec::new();
    for i in 0..blocks.len()
        invariant
            b == string_pair_views(blocks@),
            b == gallery_categories(html@),
            string_pair_views(result@) == gallery_pairs(b.take(i as int)),
    {
        let category = &blocks[i].0;
        let names = load_only_names(blocks[i].1.as_str());
        let ghost before = string_pair_views(result@);
        for j in 0..names.len()
            invariant
                before == gallery_pairs(b.take(i as int)),
                b == string_pair_views(blocks@),
                string_views(names@) == page_names(blocks@[i as int].1@),
                category@ == blocks@[i as int].0@,
                0 <= i < b.len(),
                result@.len() == before.len() + j,
                j <= names@.len(),
                string_pair_views(result@) == before + page_names(
                    blocks@[i as int].1@,
                ).take(j as int).map_values(in_family_fn(category@)),
        {
            let name = names[j].clone();
            let ghost prev = result@;
            result.push((name, category.clone()));
            assert forall|k: int| 0 <= k < result@.len() implies #[trigger] string_pair_views(result@)[k]
                == (before + page_names(blocks@[i as int].1@).take(j + 1).map_values(
                in_family_fn(category@)))[k] by {
                if k < result@.len() - 1 {
                    assert(string_pair_views(prev)[k] == (before + page_names(blocks@[i as int].1@).take(
                        j as int,
                    ).map_values(in_family_fn(category@)))[k]);
                } else {
                    assert(string_views(names@)[j as int] == page_names(blocks@[i as int].1@)[j as int]);
                }
            }
            assert(string_pair_views(result@) =~= before + page_names(
                blocks@[i as int].1@,
            ).take(j + 1).map_values(in_family_fn(category@)));
        }
        assert(b.take(i + 1).drop_last() =~= b.take(i as int));
        assert(page_names(blocks@[i as int].1@).take(names@.len() as int) =~= page_names(blocks@[i as int].1@));
        assert(string_pair_views(result@) =~= gallery_pairs(b.take(i + 1)));
    }
    assert(b.take(b.len() as int) =~= b);
    result
}

} // verus!
