//! Packages and installed services as the package workbench reads them.

use vstd::prelude::*;

use crate::text::{copy_optional_text, copy_text_list, same_optional_text, same_text};

verus! {

/// What the workbench reads of a readable package: its project, digest, named exports and
/// the platforms its binaries are built for.
#[derive(Clone, Debug)]
pub struct PackageInfo {
    /// Project named in the package manifest.
    pub project: String,
    /// Digest of the whole package.
    pub package_digest: String,
    /// Named exports of the manifest, in key order.
    pub exports: Vec<String>,
    /// Platforms of all binary variants, in manifest order.
    pub platforms: Vec<String>,
}

/// A readable package as a mathematical value.
pub type PackageInfoModel = (Seq<char>, Seq<char>, Seq<Seq<char>>, Seq<Seq<char>>);

impl DeepView for PackageInfo {
    type V = PackageInfoModel;

    open spec fn deep_view(&self) -> PackageInfoModel {
        (self.project@, self.package_digest@, self.exports.deep_view(), self.platforms.deep_view())
    }
}

impl PackageInfo {
    /// A copy of the package information.
    pub fn copy(&self) -> (result: PackageInfo)
        ensures
            result.deep_view() == self.deep_view(),
    {
        PackageInfo {
            project: self.project.clone(),
            package_digest: self.package_digest.clone(),
            exports: copy_text_list(&self.exports),
            platforms: copy_text_list(&self.platforms),
        }
    }
}

/// A package file of the workbench, readable or damaged.
#[derive(Clone, Debug)]
pub struct PackageWorkspaceEntry {
    /// Path of the package file.
    pub path: String,
    /// Package information when the manifest could be read.
    pub info: Option<PackageInfo>,
    /// Diagnosis when the manifest is damaged or incompatible.
    pub error: Option<String>,
}

/// A package file as a mathematical value.
pub type PackageEntryModel = (Seq<char>, Option<PackageInfoModel>, Option<Seq<char>>);

impl DeepView for PackageWorkspaceEntry {
    type V = PackageEntryModel;

    open spec fn deep_view(&self) -> PackageEntryModel {
        (self.path@, self.info.deep_view(), self.error.deep_view())
    }
}

/// One release of an installed service.
#[derive(Clone, Debug)]
pub struct InstalledRelease {
    /// Release identifier.
    pub id: String,
    /// Digest of the release.
    pub sha256: String,
    /// Configuration file of the release.
    pub config_path: String,
}

/// A release as a mathematical value.
pub type ReleaseModel = (Seq<char>, Seq<char>, Seq<char>);

impl DeepView for InstalledRelease {
    type V = ReleaseModel;

    open spec fn deep_view(&self) -> ReleaseModel {
        (self.id@, self.sha256@, self.config_path@)
    }
}

/// One original package kept for an installed service.
#[derive(Clone, Debug)]
pub struct InstalledPackage {
    /// Where the package is kept.
    pub path: String,
    /// Its digest, when known.
    pub package_digest: Option<String>,
    /// Diagnosis when the package cannot be read.
    pub error: Option<String>,
}

/// A kept package as a mathematical value.
pub type KeptPackageModel = (Seq<char>, Option<Seq<char>>, Option<Seq<char>>);

impl DeepView for InstalledPackage {
    type V = KeptPackageModel;

    open spec fn deep_view(&self) -> KeptPackageModel {
        (self.path@, self.package_digest.deep_view(), self.error.deep_view())
    }
}

/// A service installed from a package, with its releases and kept packages.
#[derive(Clone, Debug)]
pub struct InstalledService {
    /// Project of the service.
    pub project: String,
    /// Installation root.
    pub root: String,
    /// Diagnosis when the installation state is damaged.
    pub error: Option<String>,
    /// Releases, oldest first.
    pub releases: Vec<InstalledRelease>,
    /// Original packages kept for the service.
    pub packages: Vec<InstalledPackage>,
}

/// An installed service as a mathematical value.
pub type InstalledModel = (
    Seq<char>,
    Seq<char>,
    Option<Seq<char>>,
    Seq<ReleaseModel>,
    Seq<KeptPackageModel>,
);

impl DeepView for InstalledService {
    type V = InstalledModel;

    open spec fn deep_view(&self) -> InstalledModel {
        (
            self.project@,
            self.root@,
            self.error.deep_view(),
            self.releases.deep_view(),
            self.packages.deep_view(),
        )
    }
}

} // verus!
