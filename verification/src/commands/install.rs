//! `gqlup install <version>`: fetching a release of gql from GitHub.

use vstd::prelude::*;
use crate::config::GithubConfig;
use crate::paths::{join, join_path};
use crate::shared::{binary_name, names_latest, same_text, version_binary_path};
use crate::version::{decimal, decimal_text, semver_parse, version_order, version_text, Version};

verus! {

#[derive(Debug)]
pub struct Args {
    /// A version, or `latest` for the newest release.
    pub version: String,
}

/// A file attached to a release.
#[derive(Debug)]
pub struct GithubAsset {
    pub name: String,
    pub id: u64,
}

/// The part of a release, fetched by its tag, that gqlup reads.
#[derive(Debug)]
pub struct GithubReleaseTagsResponse {
    pub assets: Vec<GithubAsset>,
}

/// The part of the latest release that gqlup reads.
#[derive(Debug)]
pub struct GithubReleaseResponse {
    pub tag_name: String,
}

/// How gql's release archives name an operating system, from Rust's name
/// for it (`std::env::consts::OS`); `None` for one gql is not built for.
pub fn gql_os_name(target_os: &str) -> (name: Option<&'static str>)
    ensures
        match name {
            Some(n) => (target_os@ == "linux"@ && n@ == "linux"@) || (target_os@ == "macos"@ && n@
                == "darwin"@),
            None => target_os@ != "linux"@ && target_os@ != "macos"@,
        },
{
    if same_text(target_os, "linux") {
        Some("linux")
    } else if same_text(target_os, "macos") {
        Some("darwin")
    } else {
        None
    }
}

/// How gql's release archives name a processor architecture, from Rust's
/// name for it (`std::env::consts::ARCH`); `None` for one gql is not built for.
pub fn gql_arch_name(target_arch: &str) -> (name: Option<&'static str>)
    ensures
        match name {
            Some(n) => (target_arch@ == "x86_64"@ && n@ == "x86_64"@) || (target_arch@ == "aarch64"@
                && n@ == "arm64"@),
            None => target_arch@ != "x86_64"@ && target_arch@ != "aarch64"@,
        },
{
    if same_text(target_arch, "x86_64") {
        Some("x86_64")
    } else if same_text(target_arch, "aarch64") {
        Some("arm64")
    } else {
        None
    }
}

/// `gql-<os>-<arch>.tar.gz`, the release asset to download.
pub fn asset_archive_name(os: &str, arch: &str) -> (name: String)
    ensures
        name@ == "gql-"@ + os@ + "-"@ + arch@ + ".tar.gz"@,
{
    let mut name = String::from_str("gql-");
    name.append(os);
    name.append("-");
    name.append(arch);
    name.append(".tar.gz");
    name
}

/// `./gql-<os>-<arch>`, the path of the binary inside the archive.
pub fn asset_entry_name(os: &str, arch: &str) -> (name: String)
    ensures
        name@ == "./gql-"@ + os@ + "-"@ + arch@,
{
    let mut name = String::from_str("./gql-");
    name.append(os);
    name.append("-");
    name.append(arch);
    name
}

/// The GitHub API address of the latest release.
pub fn latest_release_url(github: &GithubConfig) -> (url: String)
    ensures
        url@ == github.spec_api_base() + "/releases/latest"@,
{
    let mut url = github.api_base();
    url.append("/releases/latest");
    url
}

/// The GitHub API address of the release tagged `version`.
pub fn release_tag_url(github: &GithubConfig, version: &str) -> (url: String)
    ensures
        url@ == github.spec_api_base() + "/releases/tags/"@ + version@,
{
    let mut url = github.api_base();
    url.append("/releases/tags/");
    url.append(version);
    url
}

/// The GitHub API address of the asset with id `asset_id`.
pub fn release_asset_url(github: &GithubConfig, asset_id: u64) -> (url: String)
    ensures
        url@ == github.spec_api_base() + "/releases/assets/"@ + decimal(asset_id as nat),
{
    let mut url = github.api_base();
    url.append("/releases/assets/");
    let id = decimal_text(asset_id);
    url.append(id.as_str());
    url
}

/// The id of the first asset named `name`, if any is.
pub fn find_asset_id(assets: &Vec<GithubAsset>, name: &str) -> (id: Option<u64>)
    ensures
        match id {
            Some(id) => exists|i: int|
                0 <= i < assets@.len() && (#[trigger] assets@[i]).name@ == name@ && assets@[i].id
                    == id && forall|j: int| 0 <= j < i ==> (#[trigger] assets@[j]).name@ != name@,
            None => forall|i: int| 0 <= i < assets@.len() ==> (#[trigger] assets@[i]).name@ != name@,
        },
{
    let n = assets.len();
    let mut i: usize = 0;
    while i < n
        invariant
            n == assets@.len(),
            i <= n,
            forall|j: int| 0 <= j < i ==> (#[trigger] assets@[j]).name@ != name@,
        decreases n - i,
    {
        if same_text(assets[i].name.as_str(), name) {
            return Some(assets[i].id);
        }
        i = i + 1;
    }
    None
}

/// What an install comes to, once gqlup knows what is already there.
#[derive(Debug)]
pub enum InstallPlan {
    /// Nothing to do.
    AlreadyInstalled,
    /// Download and install this version.
    Install(String),
}

/// `install latest`: nothing to do when the `gql-latest` link already points
/// to the newest release, else install that release under its written name.
pub fn plan_latest_install(local_latest: Option<&Version>, remote_latest: &Version) -> (plan: InstallPlan)
    ensures
        match plan {
            InstallPlan::AlreadyInstalled => local_latest matches Some(l) && l@ == remote_latest@,
            InstallPlan::Install(v) => !(local_latest matches Some(l) && l@ == remote_latest@) && v@
                == version_text(remote_latest@),
        },
{
    let same = match local_latest {
        Some(l) => l.same_as(remote_latest),
        None => false,
    };
    if same {
        InstallPlan::AlreadyInstalled
    } else {
        InstallPlan::Install(remote_latest.to_string())
    }
}

/// `install <version>`: nothing to do when its binary is already there.
pub fn plan_pinned_install(version: &str, installed: bool) -> (plan: InstallPlan)
    ensures
        match plan {
            InstallPlan::AlreadyInstalled => installed,
            InstallPlan::Install(v) => !installed && v@ == version@,
        },
{
    if installed {
        InstallPlan::AlreadyInstalled
    } else {
        InstallPlan::Install(String::from_str(version))
    }
}

/// Whether an install request names the newest release.
pub fn requests_latest(args: &Args) -> (latest: bool)
    ensures
        latest == (args.version@ == "latest"@),
{
    names_latest(args.version.as_str())
}

/// Where the downloaded binary is written: the binary's path joined once
/// more to the binaries directory (the same path when that is absolute).
pub fn downloaded_binary_path(binaries: &str, version: &str) -> (path: String)
    ensures
        path@ == join_path(binaries@, join_path(binaries@, binary_name(version@))),
{
    let target = version_binary_path(binaries, version);
    join(binaries, target.as_str())
}

/// After installing `installed`, whether the `gql-latest` link is to be made
/// to point at it: only when the default version is `latest`, and then when
/// there is no link yet or the linked version is older. `None` where the
/// installed version is no semantic version but had to be compared.
pub fn should_link_latest(default_version: &str, current_latest: Option<&Version>, installed: &str) -> (link: Option<bool>)
    ensures
        default_version@ != "latest"@ ==> link == Some(false),
        default_version@ == "latest"@ ==> match current_latest {
            None => link == Some(true),
            Some(c) => match semver_parse(installed@) {
                Some(m) => link == Some(version_order(c@, m) < 0),
                None => link is None,
            },
        },
{
    if !names_latest(default_version) {
        return Some(false);
    }
    match current_latest {
        None => Some(true),
        Some(c) => match Version::parse(installed) {
            Some(v) => Some(c.is_older_than(&v)),
            None => None,
        },
    }
}

} // verus!
