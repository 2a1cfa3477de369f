use vstd::prelude::*;

use crate::tools::text::{string_from, string_views};

pub mod casc_loader;
pub mod db_reader;
pub mod dbs;
pub mod docker_runner;
pub mod float32;
pub mod json;
pub mod listfile;
pub mod lua_export;
pub mod m2_reader;
pub mod maps;
pub mod patterns;
pub mod seqs;
pub mod text;

verus! {

/// The game products whose files are read.
#[derive(PartialEq, Eq, Structural, Clone, Copy, Debug)]
pub enum ProductVersion {
    Retail,
    Ptr,
    XPtr,
    Classic,
}

impl ProductVersion {
    /// The product name in the build info file.
    pub open spec fn spec_as_str(self) -> Seq<char> {
        match self {
            ProductVersion::Retail => "wow"@,
            ProductVersion::Ptr => "wowt"@,
            ProductVersion::XPtr => "wowxptr"@,
            ProductVersion::Classic => "wow_classic"@,
        }
    }

    pub fn as_str(&self) -> (res: &'static str)
        ensures
            res@ == self.spec_as_str(),
    {
        match self {
            ProductVersion::Retail => "wow",
            ProductVersion::Ptr => "wowt",
            ProductVersion::XPtr => "wowxptr",
            ProductVersion::Classic => "wow_classic",
        }
    }

    /// The product that the first command line argument asks for: `--ptr`
    /// or `--xptr`, else the live game.
    pub open spec fn spec_from_arg(arg: Option<Seq<char>>) -> ProductVersion {
        match arg {
            None => ProductVersion::Retail,
            Some(a) => if a == "--ptr"@ {
                ProductVersion::Ptr
            } else if a == "--xptr"@ {
                ProductVersion::XPtr
            } else {
                ProductVersion::Retail
            },
        }
    }

    pub fn determine_from_cli(arg: Option<String>) -> (res: Self)
        ensures
            res == Self::spec_from_arg(match arg {
                Some(a) => Some(a@),
                None => None,
            }),
    {
        match arg {
            None => ProductVersion::Retail,
            Some(value) => if value == string_from("--ptr") {
                ProductVersion::Ptr
            } else if value == string_from("--xptr") {
                ProductVersion::XPtr
            } else {
                ProductVersion::Retail
            },
        }
    }
}

/// The build of a product that is installed.
pub struct BuildInfo {
    pub product: ProductVersion,
    pub version: String,
}

/// The index of the first record whose last column names the product.
pub open spec fn build_record(records: Seq<Seq<Seq<char>>>, column_count: int, product: ProductVersion) -> Option<int> {
    if exists|i: int| 0 <= i < records.len() && #[trigger] records[i][column_count - 1] == product.spec_as_str() {
        Some(choose|i: int| 0 <= i < records.len() && #[trigger] records[i][column_count - 1] == product.spec_as_str()
            && forall|j: int| 0 <= j < i ==> records[j][column_count - 1] != product.spec_as_str())
    } else {
        None
    }
}

pub open spec fn records_view(records: Seq<Vec<String>>) -> Seq<Seq<Seq<char>>> {
    records.map_values(|r: Vec<String>| string_views(r@))
}

impl BuildInfo {
    /// Finds the build of `product` among the records of the build info file:
    /// the first record whose last column names the product gives its version
    /// in the third column from the end.
    pub fn parse_build_info(records: &Vec<Vec<String>>, column_count: usize, product: ProductVersion) -> (res: Result<
        BuildInfo,
        String,
    >)
        requires
            forall|i: int| 0 <= i < records@.len() ==> (#[trigger] records@[i])@.len() == column_count,
            records@.len() > 0 ==> column_count >= 1,
            build_record(records_view(records@), column_count as int, product) is Some ==> column_count >= 3,
        ensures
            match build_record(records_view(records@), column_count as int, product) {
                Some(i) => res matches Ok(info) && info.product == product && info.version@
                    == records_view(records@)[i][column_count - 3],
                None => res matches Err(e) && e@ == "game version not detected"@,
            },
    {
        let ghost rv = records_view(records@);
        let name = string_from(product.as_str());
        for i in 0..records.len()
            invariant
                rv == records_view(records@),
                name@ == product.spec_as_str(),
                forall|l: int| 0 <= l < records@.len() ==> (#[trigger] records@[l])@.len() == column_count,
                records@.len() > 0 ==> column_count >= 1,
                build_record(rv, column_count as int, product) is Some ==> column_count >= 3,
                forall|j: int| 0 <= j < i ==> rv[j][column_count - 1] != product.spec_as_str(),
        {
            let record = &records[i];
            assert(rv[i as int] == string_views(record@));
            if record[column_count - 1] == name {
                assert(rv[i as int][column_count - 1] == product.spec_as_str());
                assert(build_record(rv, column_count as int, product) is Some);
                proof {
                    let k = choose|k: int| 0 <= k < rv.len() && #[trigger] rv[k][column_count - 1] == product.spec_as_str()
                        && forall|j: int| 0 <= j < k ==> rv[j][column_count - 1] != product.spec_as_str();
                    assert(rv[i as int][column_count - 1] == product.spec_as_str());
                    if k < i {
                    } else if k > i {
                        assert(rv[i as int][column_count - 1] != product.spec_as_str());
                    }
                }
                return Ok(BuildInfo { product, version: record[column_count - 3].clone() });
            }
        }
        assert forall|j: int| 0 <= j < rv.len() implies #[trigger] rv[j][column_count - 1] != product.spec_as_str() by {}
        Err(string_from("game version not detected"))
    }
    /// Whether some record of the build info file names the product in its
    /// last column.
    pub fn product_listed(records: &Vec<Vec<String>>, column_count: usize, product: ProductVersion) -> (res: bool)
        requires
            forall|i: int| 0 <= i < records@.len() ==> (#[trigger] records@[i])@.len() == column_count,
            records@.len() > 0 ==> column_count >= 1,
        ensures
            res == (build_record(records_view(records@), column_count as int, product) is Some),
    {
        let ghost rv = records_view(records@);
        let name = string_from(product.as_str());
        for i in 0..records.len()
            invariant
                rv == records_view(records@),
                name@ == product.spec_as_str(),
                forall|l: int| 0 <= l < records@.len() ==> (#[trigger] records@[l])@.len() == column_count,
                records@.len() > 0 ==> column_count >= 1,
                forall|j: int| 0 <= j < i ==> rv[j][column_count - 1] != product.spec_as_str(),
        {
            let record = &records[i];
            assert(rv[i as int] == string_views(record@));
            if record[column_count - 1] == name {
                assert(rv[i as int][column_count - 1] == product.spec_as_str());
                return true;
            }
        }
        assert forall|j: int| 0 <= j < rv.len() implies #[trigger] rv[j][column_count - 1] != product.spec_as_str() by {}
        false
    }
}

/// What the csv crate reads from a build info text whose fields are split by
/// `|`: the number of header fields and the records after the header.
pub uninterp spec fn build_info_table(text: Seq<char>) -> Option<(nat, Seq<Seq<Seq<char>>>)>;

/// `csv::ReaderBuilder` with delimiter `|` over the text: the header's length
/// and the fields of every record, none where a row cannot be read. The
/// reader is not flexible, so a record read has as many fields as the header.
/// Named by `build_info_table`.
#[verifier::external_body]
pub(crate) fn read_build_info_records(text: &str) -> (res: Option<(usize, Vec<Vec<String>>)>)
    ensures
        match res {
            Some((n, records)) => build_info_table(text@) == Some((n as nat, records_view(records@))) && forall|
                i: int,
            |
                0 <= i < records@.len() ==> (#[trigger] records@[i])@.len() == n,
            None => build_info_table(text@) is None,
        },
{
    let mut reader = csv::ReaderBuilder::new().delimiter(b'|').from_reader(text.as_bytes());
    let column_count = reader.headers().ok()?.len();
    let records: Result<Vec<Vec<String>>, csv::Error> =
        reader.records().map(|r| r.map(|r| r.iter().map(|c| c.to_string()).collect())).collect();
    records.ok().map(|records| (column_count, records))
}

/// The build that a build info table gives for a product: the version three
/// fields before the end of the first record that names it; an error where
/// the table cannot be read, has no fields, no such record, or too few fields
/// for a version.
pub open spec fn spec_build_info_from_table(table: Option<(nat, Seq<Seq<Seq<char>>>)>, product: ProductVersion) -> Result<Seq<char>, Seq<char>> {
    match table {
        None => Err("build info could not be read"@),
        Some((n, records)) => if n == 0 && records.len() > 0 {
            Err("build info has no columns"@)
        } else {
            match build_record(records, n as int, product) {
                Some(i) => if n < 3 {
                    Err("build info has too few columns"@)
                } else {
                    Ok(records[i][n - 3])
                },
                None => Err("game version not detected"@),
            }
        },
    }
}

/// Finds the build of `product` in the text of a build info file.
pub fn build_info_from_text(text: &str, product: ProductVersion) -> (res: Result<BuildInfo, String>)
    ensures
        match spec_build_info_from_table(build_info_table(text@), product) {
            Ok(v) => res matches Ok(info) && info.product == product && info.version@ == v,
            Err(e) => res matches Err(m) && m@ == e,
        },
{
    let (column_count, records) = match read_build_info_records(text) {
        None => {
            return Err(string_from("build info could not be read"));
        },
        Some(table) => table,
    };
    if column_count == 0 && records.len() > 0 {
        return Err(string_from("build info has no columns"));
    }
    if column_count < 3 && BuildInfo::product_listed(&records, column_count, product) {
        return Err(string_from("build info has too few columns"));
    }
    BuildInfo::parse_build_info(&records, column_count, product)
}

} // verus!
