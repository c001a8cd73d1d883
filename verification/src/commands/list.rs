//! `gqlup list local|remote`.

pub mod local;
pub mod remote;

use vstd::prelude::*;

verus! {

#[derive(Debug)]
pub enum Commands {
    Local(local::Args),
    Remote(remote::Args),
}

#[derive(Debug)]
pub struct Args {
    pub command: Commands,
}

} // verus!
