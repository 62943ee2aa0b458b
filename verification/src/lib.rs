use vstd::prelude::*;

pub mod text;
pub mod error;
pub mod utils;
pub mod manifest;
pub mod config;
pub mod cli;
pub mod cache;
pub mod github;

verus! {
} // verus!
