//! The plugin interface.

use vstd::prelude::*;

verus! {

/// A dynamically loadable extension.
pub trait Plugin: Send + Sync {
    /// Returns the name of the plugin.
    fn name(&self) -> &str;

    /// Called when the plugin is initialized.
    fn init(&self);
}

} // verus!
