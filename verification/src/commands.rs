//! The subcommands of gqlup.

pub mod exec;
pub mod install;
pub mod list;
pub mod uninstall;

use vstd::prelude::*;

verus! {

/// A parsed command line: a subcommand, or the arguments to hand to `gql`.
#[derive(Debug)]
pub enum Commands {
    List(list::Args),
    Install(install::Args),
    Uninstall(uninstall::Args),
    Exec(Vec<String>),
}

} // verus!
