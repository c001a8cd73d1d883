//! Verified core of `gqlup`, a version manager for the `gql` binary.

pub mod text;
pub mod precedence;
pub mod paths;
pub mod version;
pub mod written;
pub mod shared;
pub mod config;
pub mod cli;
pub mod commands;
