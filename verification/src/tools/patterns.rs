//! Text that the collectors find with regular expressions and decode from HTML.
use vstd::prelude::*;

use crate::tools::text::{string_pair_views, string_views};

verus! {

/// What `decode_html_entities` of the html-escape crate makes of a text.
pub uninterp spec fn html_decoded(text: Seq<char>) -> Seq<char>;

/// `html_escape::decode_html_entities`: the text with its named and numeric
/// character references decoded. The result is named by `html_decoded`.
#[verifier::external_body]
pub(crate) fn decode_html_entities(text: &str) -> (res: String)
    ensures
        res@ == html_decoded(text@),
{
    html_escape::decode_html_entities(text).to_string()
}

/// The icon name that `(?i)interface/icons/(.*)\.blp` captures in a file path.
pub uninterp spec fn icon_capture(path: Seq<char>) -> Option<Seq<char>>;

/// `Regex::captures` of `(?i)interface/icons/(.*)\.blp` on a file path: the first
/// group of the match, none where nothing matches. Named by `icon_capture`.
#[verifier::external_body]
pub(crate) fn capture_icon(path: &str) -> (res: Option<String>)
    ensures
        match res {
            Some(s) => icon_capture(path@) == Some(s@),
            None => icon_capture(path@) is None,
        },
{
    let re = regex::Regex::new("(?i)interface/icons/(.*)\\.blp").unwrap();
    match re.captures(path) {
        None => None,
        Some(caps) => caps.get(1).map(|m| m.as_str().to_string()),
    }
}

/// The category blocks of the gallery page: for each match of
/// `(?si)<h5><a id='(.*?)'>.*?</div>\s+</span>`, its first group and its whole text.
pub uninterp spec fn gallery_categories(html: Seq<char>) -> Seq<(Seq<char>, Seq<char>)>;

/// `Regex::captures_iter` of the category pattern over a gallery page: each
/// match's first group and whole text, in order. Named by `gallery_categories`.
#[verifier::external_body]
pub(crate) fn capture_categories(html: &str) -> (res: Vec<(String, String)>)
    ensures
        string_pair_views(res@) == gallery_categories(html@),
{
    let re = regex::Regex::new("(?si)<h5><a id='(.*?)'>.*?</div>\\s+</span>").unwrap();
    re.captures_iter(html)
        .map(|caps| (caps.get(1).unwrap().as_str().to_string(), caps.get(0).unwrap().as_str().to_string()))
        .collect()
}

/// The image titles of a page: the first group of each match of
/// `(?si)<img class='thumbimage' src='.*?' alt='(.*?)' />`.
pub uninterp spec fn image_titles(html: Seq<char>) -> Seq<Seq<char>>;

/// `Regex::captures_iter` of the thumbnail pattern: the first group of each
/// match, in order. Named by `image_titles`.
#[verifier::external_body]
pub(crate) fn capture_image_titles(html: &str) -> (res: Vec<String>)
    ensures
        string_views(res@) == image_titles(html@),
{
    let re = regex::Regex::new("(?si)<img class='thumbimage' src='.*?' alt='(.*?)' />").unwrap();
    re.captures_iter(html).map(|caps| caps.get(1).unwrap().as_str().to_string()).collect()
}

/// The build version that `(?i)build version: (\d+\.\d+\.\d+\.\d+)` captures.
pub uninterp spec fn build_version_capture(output: Seq<char>) -> Option<Seq<char>>;

/// `Regex::captures` of the build version pattern: its first group, none where
/// nothing matches. Named by `build_version_capture`.
#[verifier::external_body]
pub(crate) fn capture_build_version(output: &str) -> (res: Option<String>)
    ensures
        match res {
            Some(s) => build_version_capture(output@) == Some(s@),
            None => build_version_capture(output@) is None,
        },
{
    let re = regex::Regex::new("(?i)build version: (\\d+\\.\\d+\\.\\d+\\.\\d+)").unwrap();
    match re.captures(output) {
        None => None,
        Some(caps) => caps.get(1).map(|m| m.as_str().to_string()),
    }
}

/// The item list of a wowhead listing page: the first group of
/// `(?i)var listviewitems = (\[.*?\]);`.
pub uninterp spec fn listview_items(html: Seq<char>) -> Option<Seq<char>>;

/// `Regex::captures` of the item list pattern: its first group, none where
/// nothing matches. Named by `listview_items`.
#[verifier::external_body]
pub(crate) fn capture_listview_items(html: &str) -> (res: Option<String>)
    ensures
        match res {
            Some(s) => listview_items(html@) == Some(s@),
            None => listview_items(html@) is None,
        },
{
    let re = regex::Regex::new("(?i)var listviewitems = (\\[.*?\\]);").unwrap();
    match re.captures(html) {
        None => None,
        Some(caps) => caps.get(1).map(|m| m.as_str().to_string()),
    }
}

/// The drops list view of an npc page: the first group of
/// `(?i)new Listview\((\{\s*?template: 'item',\s*?id: 'drops',.*?\})\)`.
pub uninterp spec fn drops_listview(html: Seq<char>) -> Option<Seq<char>>;

/// `Regex::captures` of the drops list view pattern: its first group, none
/// where nothing matches. Named by `drops_listview`.
#[verifier::external_body]
pub(crate) fn capture_drops_listview(html: &str) -> (res: Option<String>)
    ensures
        match res {
            Some(s) => drops_listview(html@) == Some(s@),
            None => drops_listview(html@) is None,
        },
{
    let re = regex::Regex::new("(?i)new Listview\\((\\{\\s*?template: 'item',\\s*?id: 'drops',.*?\\})\\)").unwrap();
    match re.captures(html) {
        None => None,
        Some(caps) => caps.get(1).map(|m| m.as_str().to_string()),
    }
}

/// The map data of an npc page: the first group of each match of
/// `(?i)var g_mapperData = (\{.*?\});`.
pub uninterp spec fn mapper_data(html: Seq<char>) -> Seq<Seq<char>>;

/// `Regex::captures_iter` of the map data pattern: the first group of each
/// match, in order. Named by `mapper_data`.
#[verifier::external_body]
pub(crate) fn capture_mapper_data(html: &str) -> (res: Vec<String>)
    ensures
        string_views(res@) == mapper_data(html@),
{
    let re = regex::Regex::new("(?i)var g_mapperData = (\\{.*?\\});").unwrap();
    re.captures_iter(html).map(|caps| caps.get(1).unwrap().as_str().to_string()).collect()
}

/// The npc list of an item page's "dropped by" list view: the first group of
/// `(?s)new Listview\(\{\s*?template: 'npc',\s*?id: 'dropped-by',.*?data: (\[.*?\]),\s*?\}\)`.
pub uninterp spec fn dropped_by_listview(html: Seq<char>) -> Option<Seq<char>>;

/// `Regex::captures` of the "dropped by" pattern: its first group, none where
/// nothing matches. Named by `dropped_by_listview`.
#[verifier::external_body]
pub(crate) fn capture_dropped_by_listview(html: &str) -> (res: Option<String>)
    ensures
        match res {
            Some(s) => dropped_by_listview(html@) == Some(s@),
            None => dropped_by_listview(html@) is None,
        },
{
    let re = regex::Regex::new(
        "(?s)new Listview\\(\\{\\s*?template: 'npc',\\s*?id: 'dropped-by',.*?data: (\\[.*?\\]),\\s*?\\}\\)",
    ).unwrap();
    match re.captures(html) {
        None => None,
        Some(caps) => caps.get(1).map(|m| m.as_str().to_string()),
    }
}

/// The page data of the rarity page: the first group of `data-page="(\{.*\})"`.
pub uninterp spec fn rarity_page_data(html: Seq<char>) -> Option<Seq<char>>;

/// `Regex::captures` of the page data pattern: its first group, none where
/// nothing matches. Named by `rarity_page_data`.
#[verifier::external_body]
pub(crate) fn capture_rarity_page_data(html: &str) -> (res: Option<String>)
    ensures
        match res {
            Some(s) => rarity_page_data(html@) == Some(s@),
            None => rarity_page_data(html@) is None,
        },
{
    let re = regex::Regex::new("data-page=\"(\\{.*\\})\"").unwrap();
    match re.captures(html) {
        None => None,
        Some(caps) => caps.get(1).map(|m| m.as_str().to_string()),
    }
}

} // verus!
