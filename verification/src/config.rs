//! The settings of one run.
use vstd::prelude::*;

verus! {

/// What a run is configured with.
#[derive(Debug, Clone)]
pub struct Config {
    /// File extensions to match, without a leading dot.
    pub extensions: Vec<String>,
    /// Roots of the already archived files.
    pub existing_paths: Vec<String>,
    /// Roots that are searched for new files.
    pub search_paths: Vec<String>,
    /// Root under which the date directories are created.
    pub target_dir: String,
}

} // verus!
