//! The configuration of a run.

use vstd::prelude::*;

verus! {

/// The glob patterns and manifest paths of a run, each relative to the
/// root of the source tree.
#[derive(Debug)]
pub struct Config {
    pub globals_stylesheets: Vec<String>,
    pub jar_paths: Vec<String>,
    pub mozbuild_paths: Vec<String>,
    pub component_paths: Vec<String>,
}

} // verus!
