//! A table that sends categories to places other than the default root.

use std::collections::HashMap;
use vstd::prelude::*;

verus! {

/// Where the content of a category goes.
#[derive(Debug)]
pub enum Destination {
    Path(String),
}

/// The destination of one category, in place of the default.
#[derive(Debug)]
pub struct Override {
    pub category: usize,
    pub destination: Destination,
}

/// The default root and the overrides, by category number.
#[derive(Debug)]
pub struct Mapping {
    pub default_root: String,
    pub overrides: HashMap<usize, Override>,
}

} // verus!
