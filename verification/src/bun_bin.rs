//! The tracked package and its upstream release.

use vstd::prelude::*;
use vstd::string::StringExecFns;
use crate::checksum::{ChecksumSet, str_eq};
use crate::plan::Replaces;
use crate::version::{spec_strip_tag_prefix, strip_tag_prefix};
use crate::Error;

verus! {

/// One downloadable artifact of an upstream release.
#[derive(Debug, Clone, PartialEq, Eq)]
pub struct Asset {
    /// The artifact's filename.
    pub name: String,
    /// Where the artifact's body can be fetched.
    pub url: String,
}

/// An upstream release: its version tag and its artifacts, in the order the
/// release listing gave them.
#[derive(Debug, Clone, PartialEq, Eq)]
pub struct ReleaseDescriptor {
    /// The release's version tag, prefix included.
    pub version_tag: String,
    /// The release's downloadable artifacts.
    pub assets: Vec<Asset>,
}

/// The first position in `assets` at or after `i` whose name is exactly
/// `name`, when one exists.
pub open spec fn spec_find_asset_from(assets: Seq<Asset>, name: Seq<char>, i: int) -> Option<int>
    decreases assets.len() - i
        when 0 <= i <= assets.len()
{
    if i >= assets.len() {
        None
    } else if assets[i].name@ == name {
        Some(i)
    } else {
        spec_find_asset_from(assets, name, i + 1)
    }
}

/// The filename of the checksum manifest within a release's assets.
pub open spec fn spec_manifest_asset_name() -> Seq<char> {
    "SHASUMS256.txt"@
}

impl ReleaseDescriptor {
    /// The descriptor's invariant: the version tag is nonempty.
    pub open spec fn wf(&self) -> bool {
        self.version_tag@.len() >= 1
    }

    /// The URL of the first asset named exactly `name`, when one exists.
    pub fn asset_url(&self, name: &str) -> (r: Option<String>)
        ensures
            match spec_find_asset_from(self.assets@, name@, 0) {
                Some(i) => r matches Some(u) && u@ == self.assets@[i].url@,
                None => r is None,
            },
    {
        let mut i: usize = 0;
        while i < self.assets.len()
            invariant
                i <= self.assets@.len(),
                spec_find_asset_from(self.assets@, name@, 0) == spec_find_asset_from(
                    self.assets@,
                    name@,
                    i as int,
                ),
            decreases self.assets@.len() - i,
        {
            if str_eq(self.assets[i].name.as_str(), name) {
                return Some(self.assets[i].url.clone());
            }
            i = i + 1;
        }
        None
    }

    /// The URL of the release's checksum manifest asset; fails with
    /// `NotFound` exactly when no asset bears the manifest's filename.
    pub fn checksum_manifest_url(&self) -> (r: Result<String, Error>)
        ensures
            match spec_find_asset_from(self.assets@, spec_manifest_asset_name(), 0) {
                Some(i) => r matches Ok(u) && u@ == self.assets@[i].url@,
                None => r matches Err(e) && e matches Error::NotFound(n) && n@
                    == spec_manifest_asset_name(),
            },
    {
        match self.asset_url("SHASUMS256.txt") {
            Some(u) => Ok(u),
            None => Err(Error::NotFound(String::from_str("SHASUMS256.txt"))),
        }
    }
}

/// The tracked package: its registry name and the upstream release it is to
/// be advanced to.
pub struct BunBin {
    /// The package name in the downstream registry.
    pub pkg_name: String,
    /// The upstream release the package tracks.
    pub release: ReleaseDescriptor,
}

impl BunBin {
    /// Sets up the tracked package around a resolved upstream release.
    pub fn new(release: ReleaseDescriptor) -> (r: BunBin)
        ensures
            r.pkg_name@ == "bun-bin"@,
            r.release == release,
    {
        BunBin { pkg_name: String::from_str("bun-bin"), release }
    }

    /// The upstream version the release publishes: its tag with the known
    /// prefix stripped.
    pub fn extern_version(&self) -> (r: Result<String, Error>)
        ensures
            r matches Ok(v) && v@ == spec_strip_tag_prefix(self.release.version_tag@),
    {
        Ok(strip_tag_prefix(self.release.version_tag.as_str()))
    }

    /// The patch plan that advances the package's metadata files to this
    /// release: deterministic in the release and the checksums. Fails
    /// exactly when the release's version or a required checksum role is
    /// absent or malformed, naming the first affected field in plan order.
    pub fn replace_list(&self, checksums: &ChecksumSet) -> (r: Result<Vec<Replaces>, Error>)
        ensures
            match r {
                Ok(plan) => {
                    &&& crate::plan::version_value_ok(
                        spec_strip_tag_prefix(self.release.version_tag@),
                    )
                    &&& crate::plan::hex_value_ok(checksums.aarch@)
                    &&& crate::plan::hex_value_ok(checksums.x64@)
                    &&& crate::plan::hex_value_ok(checksums.baseline@)
                    &&& crate::plan::plan_model(plan@) == crate::plan::spec_plan(
                        spec_strip_tag_prefix(self.release.version_tag@),
                        checksums.aarch@,
                        checksums.x64@,
                        checksums.baseline@,
                    )
                    &&& crate::plan::plan_wf(crate::plan::plan_model(plan@))
                },
                Err(e) => {
                    &&& e matches Error::MissingField(f)
                    &&& (if !crate::plan::version_value_ok(
                        spec_strip_tag_prefix(self.release.version_tag@),
                    ) {
                        f@ == "pkgver"@
                    } else if !crate::plan::hex_value_ok(checksums.aarch@) {
                        f@ == "sha256sums_aarch64"@
                    } else if !crate::plan::hex_value_ok(checksums.x64@) {
                        f@ == "sha256sums_x86_64"@
                    } else {
                        !crate::plan::hex_value_ok(checksums.baseline@) && f@
                            == "_baseline_sha256sums"@
                    })
                },
            },
    {
        let version = strip_tag_prefix(self.release.version_tag.as_str());
        crate::plan::build_plan(version.as_str(), checksums)
    }
}

} // verus!
