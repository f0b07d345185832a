use vstd::prelude::*;

pub mod api;
pub mod builder;
pub mod clusters;
pub mod config;
pub mod errors;
pub mod plugins;
pub mod proxy;
pub mod utils;

verus! {

} // verus!
