use vstd::prelude::*;
use vstd::string::*;

use crate::error::Error;
use crate::manifest::{
    data_lines, first_token, manifest_well_formed, parse_manifest, second_token,
};

verus! {

/// A single Elixir build published on the build service: an opaque version
/// label and the reference token beside it in the manifest.
pub struct ElixirBuild {
    pub version: String,
    pub reference: String,
}

/// Ghost image of an `ElixirBuild`.
pub struct ElixirBuildModel {
    pub version: Seq<char>,
    pub reference: Seq<char>,
}

impl View for ElixirBuild {
    type V = ElixirBuildModel;

    open spec fn view(&self) -> ElixirBuildModel {
        ElixirBuildModel { version: self.version@, reference: self.reference@ }
    }
}

/// A single Erlang/OTP build published on the build service, keyed by the
/// coordinates of the manifest it came from.
pub struct ErlangBuild {
    pub version: String,
    pub arch: String,
    pub checksum: String,
    pub distro: String,
    pub distro_version: String,
}

/// Ghost image of an `ErlangBuild`.
pub struct ErlangBuildModel {
    pub version: Seq<char>,
    pub arch: Seq<char>,
    pub checksum: Seq<char>,
    pub distro: Seq<char>,
    pub distro_version: Seq<char>,
}

impl View for ErlangBuild {
    type V = ErlangBuildModel;

    open spec fn view(&self) -> ErlangBuildModel {
        ErlangBuildModel {
            version: self.version@,
            arch: self.arch@,
            checksum: self.checksum@,
            distro: self.distro@,
            distro_version: self.distro_version@,
        }
    }
}

/// The fixed endpoint serving the Elixir build manifest.
pub open spec fn elixir_manifest_url() -> Seq<char> {
    "https://builds.hex.pm/builds/elixir/builds.txt"@
}

/// The canonical download URL of an Elixir build, derived from its version
/// label alone.
pub open spec fn elixir_build_url(version: Seq<char>) -> Seq<char> {
    "https://builds.hex.pm/builds/elixir/"@ + version + ".zip"@
}

/// The endpoint serving the Erlang/OTP build manifest for one coordinate
/// tuple.
pub open spec fn erlang_manifest_url(
    arch: Seq<char>,
    distro: Seq<char>,
    distro_version: Seq<char>,
) -> Seq<char> {
    "https://builds.hex.pm/builds/otp/"@ + arch + "/"@ + distro + "-"@ + distro_version
        + "/builds.txt"@
}

/// The canonical download URL of an Erlang/OTP build, derived from its
/// coordinates and version label alone.
pub open spec fn erlang_build_url(
    arch: Seq<char>,
    distro: Seq<char>,
    distro_version: Seq<char>,
    version: Seq<char>,
) -> Seq<char> {
    "https://builds.hex.pm/builds/otp/"@ + arch + "/"@ + distro + "-"@ + distro_version + "/"@
        + version + ".tar.gz"@
}

impl ElixirBuild {
    /// Where the Elixir build manifest is fetched from.
    pub fn manifest_url() -> (r: String)
        ensures
            r@ == elixir_manifest_url(),
    {
        String::from_str("https://builds.hex.pm/builds/elixir/builds.txt")
    }

    /// Parse a fetched manifest body into the builds it lists, in manifest
    /// order. Blank lines are skipped; a non-blank line with fewer than two
    /// whitespace-delimited fields fails the whole listing.
    pub fn list(body: &str) -> (r: Result<Vec<ElixirBuild>, Error>)
        ensures
            match r {
                Ok(builds) => {
                    &&& manifest_well_formed(body@)
                    &&& builds@.len() == data_lines(body@).len()
                    &&& forall|i: int|
                        0 <= i < builds@.len() ==> #[trigger] builds@[i]@.version == first_token(
                            data_lines(body@)[i],
                        ) && builds@[i]@.reference == second_token(data_lines(body@)[i])
                },
                Err(e) => e == Error::ManifestParse && !manifest_well_formed(body@),
            },
    {
        let entries = match parse_manifest(body) {
            Ok(entries) => entries,
            Err(e) => {
                return Err(e);
            },
        };
        let mut builds: Vec<ElixirBuild> = Vec::new();
        let mut k: usize = 0;
        while k < entries.len()
            invariant
                k <= entries@.len(),
                entries@.len() == data_lines(body@).len(),
                forall|i: int|
                    0 <= i < entries@.len() ==> #[trigger] entries@[i]@.identifier == first_token(
                        data_lines(body@)[i],
                    ) && entries@[i]@.reference == second_token(data_lines(body@)[i]),
                builds@.len() == k,
                forall|i: int|
                    0 <= i < k ==> #[trigger] builds@[i]@.version == first_token(
                        data_lines(body@)[i],
                    ) && builds@[i]@.reference == second_token(data_lines(body@)[i]),
            decreases entries@.len() - k,
        {
            let e = &entries[k];
            builds.push(ElixirBuild {
                version: String::from_str(e.identifier.as_str()),
                reference: String::from_str(e.reference.as_str()),
            });
            proof {
                let kk = k as int;
                assert(entries@[kk]@.identifier == first_token(data_lines(body@)[kk]));
                assert(builds@[kk]@.version == entries@[kk]@.identifier);
                assert(builds@[kk]@.reference == entries@[kk]@.reference);
            }
            k = k + 1;
        }
        Ok(builds)
    }

    /// The canonical download URL of this build.
    pub fn url(&self) -> (r: String)
        ensures
            r@ == elixir_build_url(self.version@),
    {
        let u = String::from_str("https://builds.hex.pm/builds/elixir/");
        let u = u.concat(self.version.as_str());
        u.concat(".zip")
    }
}

impl ErlangBuild {
    /// Where the Erlang/OTP build manifest for these coordinates is fetched
    /// from.
    pub fn manifest_url(arch: &str, distro: &str, distro_version: &str) -> (r: String)
        ensures
            r@ == erlang_manifest_url(arch@, distro@, distro_version@),
    {
        let u = String::from_str("https://builds.hex.pm/builds/otp/");
        let u = u.concat(arch);
        let u = u.concat("/");
        let u = u.concat(distro);
        let u = u.concat("-");
        let u = u.concat(distro_version);
        u.concat("/builds.txt")
    }

    /// Parse a fetched manifest body into the builds it lists, in manifest
    /// order, stamping every build with the coordinates the manifest was
    /// requested for. Blank lines are skipped; a non-blank line with fewer
    /// than two whitespace-delimited fields fails the whole listing.
    pub fn list(arch: &str, distro: &str, distro_version: &str, body: &str) -> (r: Result<
        Vec<ErlangBuild>,
        Error,
    >)
        ensures
            match r {
                Ok(builds) => {
                    &&& manifest_well_formed(body@)
                    &&& builds@.len() == data_lines(body@).len()
                    &&& forall|i: int|
                        0 <= i < builds@.len() ==> #[trigger] builds@[i]@.version == first_token(
                            data_lines(body@)[i],
                        ) && builds@[i]@.checksum == second_token(data_lines(body@)[i])
                            && builds@[i]@.arch == arch@ && builds@[i]@.distro == distro@
                            && builds@[i]@.distro_version == distro_version@
                },
                Err(e) => e == Error::ManifestParse && !manifest_well_formed(body@),
            },
    {
        let entries = match parse_manifest(body) {
            Ok(entries) => entries,
            Err(e) => {
                return Err(e);
            },
        };
        let mut builds: Vec<ErlangBuild> = Vec::new();
        let mut k: usize = 0;
        while k < entries.len()
            invariant
                k <= entries@.len(),
                entries@.len() == data_lines(body@).len(),
                forall|i: int|
                    0 <= i < entries@.len() ==> #[trigger] entries@[i]@.identifier == first_token(
                        data_lines(body@)[i],
                    ) && entries@[i]@.reference == second_token(data_lines(body@)[i]),
                builds@.len() == k,
                forall|i: int|
                    0 <= i < k ==> #[trigger] builds@[i]@.version == first_token(
                        data_lines(body@)[i],
                    ),
                forall|i: int|
                    0 <= i < k ==> #[trigger] builds@[i]@.checksum == second_token(
                        data_lines(body@)[i],
                    ),
                forall|i: int| 0 <= i < k ==> #[trigger] builds@[i]@.arch == arch@,
                forall|i: int| 0 <= i < k ==> #[trigger] builds@[i]@.distro == distro@,
                forall|i: int|
                    0 <= i < k ==> #[trigger] builds@[i]@.distro_version == distro_version@,
            decreases entries@.len() - k,
        {
            let e = &entries[k];
            let ghost prev = builds@;
            builds.push(ErlangBuild {
                version: String::from_str(e.identifier.as_str()),
                checksum: String::from_str(e.reference.as_str()),
                arch: String::from_str(arch),
                distro: String::from_str(distro),
                distro_version: String::from_str(distro_version),
            });
            proof {
                let kk = k as int;
                assert(entries@[kk]@.identifier == first_token(data_lines(body@)[kk]));
                assert(builds@[kk]@.version == entries@[kk]@.identifier);
                assert(builds@[kk]@.checksum == entries@[kk]@.reference);
                assert(builds@[kk]@.arch == arch@);
                assert(builds@[kk]@.distro == distro@);
                assert(builds@[kk]@.distro_version == distro_version@);
                assert(forall|i: int| 0 <= i < kk ==> builds@[i] == prev[i]);
            }
            k = k + 1;
        }
        Ok(builds)
    }

    /// The canonical download URL of this build.
    pub fn url(&self) -> (r: String)
        ensures
            r@ == erlang_build_url(self.arch@, self.distro@, self.distro_version@, self.version@),
    {
        let u = String::from_str("https://builds.hex.pm/builds/otp/");
        let u = u.concat(self.arch.as_str());
        let u = u.concat("/");
        let u = u.concat(self.distro.as_str());
        let u = u.concat("-");
        let u = u.concat(self.distro_version.as_str());
        let u = u.concat("/");
        let u = u.concat(self.version.as_str());
        u.concat(".tar.gz")
    }
}

/// Deriving a download URL is a pure function of the build's identifier:
/// two Elixir builds with the same version label get byte-for-byte the same
/// URL, whatever their other fields and whenever each URL is derived.
pub proof fn lemma_elixir_url_deterministic(a: ElixirBuild, b: ElixirBuild)
    requires
        a.version@ == b.version@,
    ensures
        elixir_build_url(a.version@) == elixir_build_url(b.version@),
{
}

/// Deriving a download URL is a pure function of the build's coordinates and
/// identifier: two Erlang/OTP builds that agree on architecture, distro,
/// distro version and version label get byte-for-byte the same URL.
pub proof fn lemma_erlang_url_deterministic(a: ErlangBuild, b: ErlangBuild)
    requires
        a.arch@ == b.arch@,
        a.distro@ == b.distro@,
        a.distro_version@ == b.distro_version@,
        a.version@ == b.version@,
    ensures
        erlang_build_url(a.arch@, a.distro@, a.distro_version@, a.version@) == erlang_build_url(
            b.arch@,
            b.distro@,
            b.distro_version@,
            b.version@,
        ),
{
}

} // verus!
