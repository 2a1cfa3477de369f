//! The mount list of the rarity page, as the JSON text its page data holds.
use vstd::prelude::*;

use crate::tools::patterns::{capture_rarity_page_data, rarity_page_data};
use crate::tools::text::{replace_all, replaced};

verus! {

/// The page data of the rarity page with its `&quot;` entities turned into
/// double quotes; none where the page holds no page data.
pub open spec fn spec_rarity_json(html: Seq<char>) -> Option<Seq<char>> {
    match rarity_page_data(html) {
        Some(data) => Some(replaced(data, "&quot;"@, "\""@)),
        None => None,
    }
}

/// The JSON text of the rarity page's data.
pub fn rarity_json(html: &str) -> (res: Option<String>)
    ensures
        match res {
            Some(s) => spec_rarity_json(html@) == Some(s@),
            None => spec_rarity_json(html@) is None,
        },
{
    match capture_rarity_page_data(html) {
        Some(data) => {
            proof {
                reveal_strlit("&quot;");
            }
            Some(replace_all(data.as_str(), "&quot;", "\""))
        },
        None => None,
    }
}

} // verus!
