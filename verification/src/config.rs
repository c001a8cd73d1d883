//! gqlup's configuration, as read from its YAML file.

use vstd::prelude::*;

verus! {

/// The GitHub repository that gql releases are published in.
#[derive(Debug)]
pub struct GithubConfig {
    pub owner: String,
    pub repository: String,
}

impl GithubConfig {
    /// `https://api.github.com/repos/<owner>/<repository>`
    pub open spec fn spec_api_base(&self) -> Seq<char> {
        "https://api.github.com/repos/"@ + self.owner@ + "/"@ + self.repository@
    }

    /// The GitHub API address of the repository, to which the release paths
    /// are appended.
    pub fn api_base(&self) -> (url: String)
        ensures
            url@ == self.spec_api_base(),
    {
        let mut url = String::from_str("https://api.github.com/repos/");
        url.append(self.owner.as_str());
        url.append("/");
        url.append(self.repository.as_str());
        url
    }
}

#[derive(Debug)]
pub struct BookkeepingConfig {
    pub max_versions_count: u8,
    pub max_version_age: std::time::Duration,
}

#[derive(Debug)]
pub struct Config {
    pub github: GithubConfig,
    pub bookkeeping: BookkeepingConfig,
    /// The version that `gql` runs where no `gql.yaml` names one; may be `latest`.
    pub default_version: String,
}

} // verus!
