use vstd::prelude::*;

pub mod config;
pub mod fetcher;
pub mod text;

verus! {

} // verus!
