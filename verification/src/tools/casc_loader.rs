//! Where the client database tables of a build are exported from and stored.
use vstd::prelude::*;

use crate::tools::text::{chars_of, push_chars, push_signed_decimal, push_str, signed_decimal, spec_lowercase, string_from, to_lowercase};
use crate::tools::{BuildInfo, ProductVersion};

verus! {

/// The tool that exports the tables of a product.
pub open spec fn tool_url(product: ProductVersion) -> Seq<char> {
    match product {
        ProductVersion::Classic => "http://127.0.0.1:5001"@,
        _ => "http://127.0.0.1:5000"@,
    }
}

/// The export address of a table of a build, with hotfixes.
pub open spec fn spec_db_export_url(product: ProductVersion, db_file: Seq<char>, version: Seq<char>) -> Seq<char> {
    tool_url(product) + "/dbc/export/?name="@ + spec_lowercase(db_file) + "&build="@ + version
        + "&useHotfixes=true"@
}

pub fn db_export_url(build_info: &BuildInfo, db_file: &str) -> (res: String)
    ensures
        res@ == spec_db_export_url(build_info.product, db_file@, build_info.version@),
{
    let mut url = match build_info.product {
        ProductVersion::Classic => string_from("http://127.0.0.1:5001"),
        _ => string_from("http://127.0.0.1:5000"),
    };
    push_str(&mut url, "/dbc/export/?name=");
    let lowered = to_lowercase(db_file);
    push_str(&mut url, lowered.as_str());
    push_str(&mut url, "&build=");
    push_str(&mut url, build_info.version.as_str());
    push_str(&mut url, "&useHotfixes=true");
    url
}

/// Where an exported table of a build is stored.
pub open spec fn spec_db_file_path(version: Seq<char>, db_file: Seq<char>) -> Seq<char> {
    "extract/"@ + version + "/DBFilesClient/"@ + db_file + ".csv"@
}

pub fn db_file_path(build_info: &BuildInfo, db_file: &str) -> (res: String)
    ensures
        res@ == spec_db_file_path(build_info.version@, db_file@),
{
    let mut path = string_from("extract/");
    push_str(&mut path, build_info.version.as_str());
    push_str(&mut path, "/DBFilesClient/");
    push_str(&mut path, db_file);
    push_str(&mut path, ".csv");
    path
}


/// Where an extracted game file of a build is stored.
pub open spec fn spec_extract_path(version: Seq<char>, file_path: Seq<char>) -> Seq<char> {
    "extract/"@ + version + seq!['/'] + file_path
}

pub fn extract_path(version: &String, file_path: &String) -> (res: String)
    ensures
        res@ == spec_extract_path(version@, file_path@),
{
    let mut path = string_from("extract/");
    push_str(&mut path, version.as_str());
    push_str(&mut path, "/");
    push_str(&mut path, file_path.as_str());
    proof {
        reveal_strlit("/");
    }
    assert(path@ =~= spec_extract_path(version@, file_path@));
    path
}

/// The last component of a path: what follows its last `/`.
pub open spec fn last_component(p: Seq<char>) -> Seq<char>
    decreases p.len(),
{
    if p.len() == 0 || p.last() == '/' {
        Seq::empty()
    } else {
        last_component(p.drop_last()).push(p.last())
    }
}

/// A path whose last component names a file (`Path::file_name` is that component).
pub open spec fn names_file(p: Seq<char>) -> bool {
    let c = last_component(p);
    c.len() > 0 && c != "."@ && c != ".."@
}

/// The service that extracts files of a product.
pub open spec fn casc_base(product: ProductVersion) -> Seq<char> {
    if product == ProductVersion::Classic {
        "http://localhost:5001/"@
    } else {
        "http://localhost:5000/"@
    }
}

/// The address that extracts file `file_id` of a build under the name of its path.
pub open spec fn spec_fetch_url(product: ProductVersion, version: Seq<char>, file_id: i64, file_path: Seq<char>) -> Seq<char> {
    casc_base(product) + "casc/fdid?fileDataID="@ + signed_decimal(file_id as int) + "&filename="@ + last_component(
        spec_extract_path(version, file_path),
    )
}

fn last_component_of(p: &String) -> (res: String)
    ensures
        res@ == last_component(p@),
{
    let cs = chars_of(p.as_str());
    let mut i = cs.len();
    assert(cs@.take(i as int) =~= cs@);
    assert(last_component(p@) =~= last_component(cs@.take(i as int)) + cs@.subrange(i as int, cs@.len() as int));
    while i > 0 && cs[i - 1] != '/'
        invariant
            i <= cs@.len(),
            cs@ == p@,
            last_component(p@) == last_component(cs@.take(i as int)) + cs@.subrange(i as int, cs@.len() as int),
        decreases i,
    {
        assert(cs@.take(i as int).drop_last() =~= cs@.take(i - 1));
        assert(cs@.subrange(i - 1, cs@.len() as int) =~= seq![cs@[i - 1]] + cs@.subrange(i as int, cs@.len() as int));
        assert(last_component(cs@.take(i as int)) == last_component(cs@.take(i - 1)).push(cs@[i - 1]));
        assert(last_component(cs@.take(i - 1)).push(cs@[i - 1]) + cs@.subrange(i as int, cs@.len() as int)
            =~= last_component(cs@.take(i - 1)) + cs@.subrange(i - 1, cs@.len() as int));
        i = i - 1;
    }
    assert(last_component(cs@.take(i as int)) =~= Seq::<char>::empty());
    let mut res = String::new();
    push_chars(&mut res, &cs, i, cs.len());
    assert(res@ =~= last_component(p@));
    res
}

/// The address that extracts a file of the build into its place.
pub fn fetch_url(build_info: &BuildInfo, file_id: i64, file_path: &String) -> (res: String)
    requires
        names_file(spec_extract_path(build_info.version@, file_path@)),
    ensures
        res@ == spec_fetch_url(build_info.product, build_info.version@, file_id, file_path@),
{
    let mut url = if build_info.product == ProductVersion::Classic {
        string_from("http://localhost:5001/")
    } else {
        string_from("http://localhost:5000/")
    };
    push_str(&mut url, "casc/fdid?fileDataID=");
    push_signed_decimal(&mut url, file_id);
    push_str(&mut url, "&filename=");
    let path = extract_path(&build_info.version, file_path);
    let name = last_component_of(&path);
    push_str(&mut url, name.as_str());
    url
}

/// Whether the extract path of a file names a file, as `fetch_url` needs.
pub fn extract_path_names_file(version: &String, file_path: &String) -> (res: bool)
    ensures
        res == names_file(spec_extract_path(version@, file_path@)),
{
    let path = extract_path(version, file_path);
    let name = last_component_of(&path);
    let cs = chars_of(name.as_str());
    proof {
        reveal_strlit(".");
        reveal_strlit("..");
    }
    cs.len() > 0 && !(name == string_from(".")) && !(name == string_from(".."))
}

} // verus!
