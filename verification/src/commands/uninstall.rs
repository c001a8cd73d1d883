//! `gqlup uninstall <version>`.

use vstd::prelude::*;
use crate::shared::{models, names_latest, same_text, sorted_descending};
use crate::version::{law_version_order, version_order, version_text, Version};

verus! {

#[derive(Debug)]
pub struct Args {
    pub version: String,
    /// Whether uninstalling `latest` may point the link at the next newest
    /// version when `latest` is the default.
    pub remap_latest: bool,
}

/// What an uninstall removes.
#[derive(Debug)]
pub enum UninstallPlan {
    /// The binary of the requested version.
    RemoveVersion,
    /// The `gql-latest` link and the binary of the version it points to; the
    /// link is then made again to the newest version left.
    RemoveLatest(Version),
}

/// Why an uninstall is refused.
#[derive(Debug)]
pub enum UninstallError {
    /// The requested version is the default one.
    VersionIsDefault(String),
    /// `latest` was requested but no `gql-latest` link exists.
    LatestNotInstalled,
    /// `latest` is the default and remapping was not allowed.
    LatestIsDefault,
    /// The version `gql-latest` points to is itself the default (carried here).
    CurrentLatestIsDefault(String),
}

impl UninstallError {
    pub open spec fn spec_message(&self) -> Seq<char> {
        match self {
            UninstallError::VersionIsDefault(v) => "Version "@ + v@
                + " is set as default, cannot uninstall. Set default version to different version first."@,
            UninstallError::LatestNotInstalled => "Version latest is not installed"@,
            UninstallError::LatestIsDefault => "Version latest is set as default, and --remap-latest=false. Add a flag --remap-latest=true to delete current latest version and remap to most recent previous one."@,
            UninstallError::CurrentLatestIsDefault(d) => "Current latest version "@ + d@
                + " is set as default, Set default version to different version first."@,
        }
    }

    /// The line printed before exiting.
    pub fn message(&self) -> (text: String)
        ensures
            text@ == self.spec_message(),
    {
        match self {
            UninstallError::VersionIsDefault(v) => {
                let mut text = String::from_str("Version ");
                text.append(v.as_str());
                text.append(
                    " is set as default, cannot uninstall. Set default version to different version first.",
                );
                text
            },
            UninstallError::LatestNotInstalled => String::from_str("Version latest is not installed"),
            UninstallError::LatestIsDefault => String::from_str(
                "Version latest is set as default, and --remap-latest=false. Add a flag --remap-latest=true to delete current latest version and remap to most recent previous one.",
            ),
            UninstallError::CurrentLatestIsDefault(d) => {
                let mut text = String::from_str("Current latest version ");
                text.append(d.as_str());
                text.append(" is set as default, Set default version to different version first.");
                text
            },
        }
    }
}

/// Decides an uninstall of `args.version`, given the configured default
/// version and, for `latest`, the version the `gql-latest` link points to.
pub fn plan_uninstall(args: &Args, default_version: &str, current_latest: Option<Version>) -> (plan: Result<
    UninstallPlan,
    UninstallError,
>)
    ensures
        match plan {
            Ok(UninstallPlan::RemoveVersion) => args.version@ != "latest"@ && default_version@
                != args.version@,
            Ok(UninstallPlan::RemoveLatest(v)) => {
                &&& args.version@ == "latest"@
                &&& current_latest matches Some(c) && v@ == c@ && !(default_version@ == "latest"@
                    && !args.remap_latest) && default_version@ != version_text(c@)
            },
            Err(UninstallError::VersionIsDefault(v)) => args.version@ != "latest"@ && default_version@
                == args.version@ && v@ == args.version@,
            Err(UninstallError::LatestNotInstalled) => args.version@ == "latest"@
                && current_latest is None,
            Err(UninstallError::LatestIsDefault) => args.version@ == "latest"@
                && current_latest is Some && default_version@ == "latest"@ && !args.remap_latest,
            Err(UninstallError::CurrentLatestIsDefault(d)) => {
                &&& args.version@ == "latest"@
                &&& current_latest matches Some(c) && !(default_version@ == "latest"@
                    && !args.remap_latest) && default_version@ == version_text(c@) && d@
                    == default_version@
            },
        },
{
    if !names_latest(args.version.as_str()) {
        if same_text(default_version, args.version.as_str()) {
            return Err(UninstallError::VersionIsDefault(args.version.clone()));
        }
        return Ok(UninstallPlan::RemoveVersion);
    }
    match current_latest {
        None => Err(UninstallError::LatestNotInstalled),
        Some(current) => {
            if names_latest(default_version) && !args.remap_latest {
                return Err(UninstallError::LatestIsDefault);
            }
            let current_text = current.to_string();
            if same_text(default_version, current_text.as_str()) {
                return Err(UninstallError::CurrentLatestIsDefault(String::from_str(default_version)));
            }
            Ok(UninstallPlan::RemoveLatest(current))
        },
    }
}


/// After `latest` is uninstalled, the version the `gql-latest` link is made
/// to point to: the newest of the versions left, `None` when none is left.
/// On a list sorted newest first, that is its first version.
pub fn remap_target(available: &Vec<Version>) -> (target: Option<Version>)
    ensures
        match target {
            None => available@.len() == 0,
            Some(t) => {
                &&& exists|k: int| 0 <= k < available@.len() && t@ == (#[trigger] available@[k])@
                &&& forall|j: int| 0 <= j < available@.len() ==> version_order(t@, (#[trigger] available@[j])@) >= 0
                &&& sorted_descending(models(available@)) ==> t@ == available@[0]@
            },
        },
{
    let n = available.len();
    if n == 0 {
        return None;
    }
    let mut best: usize = 0;
    let mut i: usize = 1;
    proof {
        law_version_order(available@[0]@, available@[0]@, available@[0]@);
    }
    while i < n
        invariant
            n == available@.len(),
            1 <= i <= n,
            best < i,
            forall|j: int| 0 <= j < i ==> version_order(available@[best as int]@, (#[trigger] available@[j])@) >= 0,
            sorted_descending(models(available@)) ==> best == 0,
        decreases n - i,
    {
        let r = available[best].compare(&available[i]);
        if r < 0 {
            let ghost old_best = best;
            assert forall|j: int| 0 <= j <= i implies version_order(
                available@[i as int]@,
                (#[trigger] available@[j])@,
            ) >= 0 by {
                law_version_order(available@[i as int]@, available@[old_best as int]@, available@[j]@);
            }
            proof {
                if sorted_descending(models(available@)) {
                    assert(models(available@)[0] == available@[0]@);
                    assert(models(available@)[i as int] == available@[i as int]@);
                }
            }
            best = i;
        }
        i = i + 1;
    }
    Some(available[best].duplicate())
}

} // verus!
