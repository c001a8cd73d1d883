//! The command line of gqlup.

use vstd::prelude::*;
use crate::commands::Commands;

verus! {

#[derive(Debug)]
pub struct App {
    pub command: Commands,
}

} // verus!
