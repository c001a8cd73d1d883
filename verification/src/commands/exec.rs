//! Running `gql` itself, in the version that the project or gqlup asks for.

use vstd::prelude::*;

verus! {

/// A project's `gql.yaml`.
#[derive(Debug)]
pub struct GQLConfig {
    pub version: String,
}

} // verus!
