//! The plugin registry.

use vstd::prelude::*;
use crate::plugin::traits::Plugin;

verus! {

/// A registered plugin.
pub struct PluginBox(pub Box<dyn Plugin>);

/// Plugins in registration order.
pub struct PluginRegistry {
    plugins: Vec<PluginBox>,
}

impl View for PluginRegistry {
    type V = Seq<PluginBox>;

    closed spec fn view(&self) -> Seq<PluginBox> {
        self.plugins@
    }
}

impl PluginRegistry {
    /// Creates a new, empty registry.
    pub fn new() -> (r: Self)
        ensures
            r@ == Seq::<PluginBox>::empty(),
    {
        let r = PluginRegistry { plugins: Vec::new() };
        assert(r@ =~= Seq::<PluginBox>::empty());
        r
    }

    /// Registers a plugin after those already registered.
    pub fn register<P: Plugin + 'static>(&mut self, plugin: P)
        ensures
            final(self)@ == old(self)@.push(PluginBox(Box::new(plugin))),
            final(self)@.len() == old(self)@.len() + 1,
            final(self)@.take(old(self)@.len() as int) == old(self)@,
    {
        self.push_entry(PluginBox(Box::new(plugin)));
    }

    /// Registers a plugin that is already boxed.
    pub fn register_box(&mut self, plugin: Box<dyn Plugin>)
        ensures
            final(self)@ == old(self)@.push(PluginBox(plugin)),
            final(self)@.len() == old(self)@.len() + 1,
            final(self)@.take(old(self)@.len() as int) == old(self)@,
    {
        self.push_entry(PluginBox(plugin));
    }

    /// The registered plugins, in order.
    pub fn iter(&self) -> (r: &[PluginBox])
        ensures
            r@ == self@,
    {
        self.plugins.as_slice()
    }

    /// The number of registered plugins.
    pub fn len(&self) -> (r: usize)
        ensures
            r == self@.len(),
    {
        self.plugins.len()
    }
}

impl PluginRegistry {
    fn push_entry(&mut self, b: PluginBox)
        ensures
            final(self)@ == old(self)@.push(b),
            final(self)@.len() == old(self)@.len() + 1,
            final(self)@.take(old(self)@.len() as int) == old(self)@,
    {
        self.plugins.push(b);
        assert(final(self)@.take(old(self)@.len() as int) =~= old(self)@);
    }
}

/// Whether a file extension names a shared library that may hold a plugin.
pub fn is_plugin_library_ext(ext: &str) -> (r: bool)
    ensures
        r == (ext@ == "so"@ || ext@ == "dylib"@),
{
    crate::json::str_equal(ext, "so") || crate::json::str_equal(ext, "dylib")
}

impl Default for PluginRegistry {
    fn default() -> (r: Self)
        ensures
            r@ == Seq::<PluginBox>::empty(),
    {
        Self::new()
    }
}

} // verus!
