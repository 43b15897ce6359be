use vstd::prelude::*;

pub mod apps;
pub mod fs;
pub mod trash;

verus! {
} // verus!
