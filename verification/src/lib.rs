use vstd::prelude::*;

pub mod controllers;
pub mod models;
pub mod registries;
pub mod repositories;
pub mod services;
pub mod utils;

verus! {

/// Directory under which every session keeps its durable state.
pub const STORAGE_DIR: &'static str = "storage";

} // verus!
