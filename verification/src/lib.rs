use vstd::prelude::*;

pub mod cli;
pub mod dependencies;
pub mod feedback;
pub mod freshness;
pub mod git;
pub mod inventory;
pub mod mcp;
pub mod model;
pub mod paths;
pub mod protocol;
pub mod quality;
pub mod related_tests;
pub mod schemas;
pub mod search;
pub mod semantic;
pub mod storage;
pub mod strs;
pub mod symbols;
pub mod text;
pub mod workspace;

verus! {

} // verus!
