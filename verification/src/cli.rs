//! Command-line options.

use vstd::prelude::*;

verus! {

/// Command-line interface options.
#[derive(Debug)]
pub struct Cli {
    /// Path to the configuration file (YAML or JSON).
    pub config: String,
}

} // verus!
