//! `gqlup list remote`: the releases published on GitHub.

use vstd::prelude::*;
use crate::config::GithubConfig;

verus! {

#[derive(Debug)]
pub struct Args {}

/// A release as the GitHub API lists it.
#[derive(Debug)]
pub struct GithubRelease {
    pub tag_name: String,
}

/// The GitHub API address that lists the repository's releases.
pub fn releases_url(github: &GithubConfig) -> (url: String)
    ensures
        url@ == github.spec_api_base() + "/releases"@,
{
    let mut url = github.api_base();
    url.append("/releases");
    url
}

/// The tag of each release, in the order listed.
pub fn release_tag_names(releases: Vec<GithubRelease>) -> (tags: Vec<String>)
    ensures
        tags@.len() == releases@.len(),
        forall|i: int| 0 <= i < releases@.len() ==> #[trigger] tags@[i]@ == releases@[i].tag_name@,
{
    let mut tags: Vec<String> = Vec::new();
    let n = releases.len();
    let mut i: usize = 0;
    while i < n
        invariant
            n == releases@.len(),
            i <= n,
            tags@.len() == i,
            forall|j: int| 0 <= j < i ==> #[trigger] tags@[j]@ == releases@[j].tag_name@,
        decreases n - i,
    {
        tags.push(releases[i].tag_name.clone());
        i = i + 1;
    }
    tags
}

} // verus!
