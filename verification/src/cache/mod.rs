//! A cache of what was fetched from GitHub, kept between runs.
use vstd::prelude::*;

pub mod store;

verus! {
} // verus!
