//! The containers that extract game files, and what their output says.
use vstd::prelude::*;

use crate::tools::patterns::{build_version_capture, capture_build_version};
use crate::tools::text::{push_str, string_from, string_views};
use crate::tools::ProductVersion;

verus! {

/// Runs the extraction containers for the live game or the test realm.
pub struct DockerRunner {
    pub is_ptr: bool,
    pub build_version: String,
}

/// The arguments of `docker` that run a compose service, for the test realm
/// with its product.
pub open spec fn spec_compose_args(is_ptr: bool, service: Seq<char>) -> Seq<Seq<char>> {
    let base = seq!["compose"@, "run"@, "--rm"@, service];
    if is_ptr {
        base.push("--product=wowt"@)
    } else {
        base
    }
}

impl DockerRunner {
    pub fn new(game_version: ProductVersion) -> (res: Self)
        ensures
            res.is_ptr == (game_version == ProductVersion::Ptr),
            res.build_version@ == Seq::<char>::empty(),
    {
        Self { is_ptr: game_version == ProductVersion::Ptr, build_version: String::new() }
    }

    /// The arguments that run the compose service `service`.
    pub fn compose_args(&self, service: &str) -> (res: Vec<String>)
        ensures
            string_views(res@) == spec_compose_args(self.is_ptr, service@),
    {
        let mut args: Vec<String> = Vec::new();
        args.push(string_from("compose"));
        args.push(string_from("run"));
        args.push(string_from("--rm"));
        args.push(string_from(service));
        if self.is_ptr {
            args.push(string_from("--product=wowt"));
        }
        assert(string_views(args@) =~= spec_compose_args(self.is_ptr, service@));
        args
    }

    /// The arguments that convert the cached tables of the build into CSV files.
    pub fn convert_args(&self) -> (res: Vec<String>)
        ensures
            string_views(res@) == seq![
                "compose"@,
                "run"@,
                "--rm"@,
                "convert_dbs"@,
                if self.is_ptr {
                    "/game/ptr.bin"@
                } else {
                    "/game/DBCache.bin"@
                },
                "/out/"@ + self.build_version@ + "/DBFilesClient"@,
            ],
    {
        let mut args: Vec<String> = Vec::new();
        args.push(string_from("compose"));
        args.push(string_from("run"));
        args.push(string_from("--rm"));
        args.push(string_from("convert_dbs"));
        if self.is_ptr {
            args.push(string_from("/game/ptr.bin"));
        } else {
            args.push(string_from("/game/DBCache.bin"));
        }
        let mut extracted_path = string_from("/out/");
        push_str(&mut extracted_path, self.build_version.as_str());
        push_str(&mut extracted_path, "/DBFilesClient");
        args.push(extracted_path);
        assert(string_views(args@) =~= seq![
            "compose"@,
            "run"@,
            "--rm"@,
            "convert_dbs"@,
            if self.is_ptr {
                "/game/ptr.bin"@
            } else {
                "/game/DBCache.bin"@
            },
            "/out/"@ + self.build_version@ + "/DBFilesClient"@,
        ]);
        args
    }

    /// Takes the build version that the extraction output names.
    pub fn parse_build_version(&mut self, output: String)
        requires
            build_version_capture(output@) is Some,
        ensures
            final(self).is_ptr == old(self).is_ptr,
            final(self).build_version@ == build_version_capture(output@)->0,
    {
        match capture_build_version(output.as_str()) {
            Some(version) => {
                self.build_version = version;
            },
            None => {},
        }
    }

    /// Takes the build version that the extraction output names, if it names
    /// one; the result says whether it did.
    pub fn read_build_version(&mut self, output: String) -> (found: bool)
        ensures
            final(self).is_ptr == old(self).is_ptr,
            found == build_version_capture(output@) is Some,
            found ==> final(self).build_version@ == build_version_capture(output@)->0,
            !found ==> final(self).build_version == old(self).build_version,
    {
        if capture_build_version(output.as_str()).is_some() {
            self.parse_build_version(output);
            true
        } else {
            false
        }
    }
}

} // verus!
