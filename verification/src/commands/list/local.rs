//! `gqlup list local`: the installed versions, newest first.

use vstd::prelude::*;

verus! {

#[derive(Debug)]
pub struct Args {}

} // verus!
