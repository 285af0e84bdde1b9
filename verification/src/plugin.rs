//! Plugin management. Loading plugins and running Lua are not implemented yet: they
//! succeed and change nothing.
use std::path::{Path, PathBuf};
use vstd::prelude::*;

verus! {

pub struct Plugin {
    pub name: String,
    pub version: String,
    pub path: PathBuf,
}

pub struct PluginManager {
    pub loaded_plugins: Vec<Plugin>,
}

impl PluginManager {
    pub fn new() -> (m: Self)
        ensures
            m.loaded_plugins@.len() == 0,
    {
        Self { loaded_plugins: Vec::new() }
    }

    /// Loads the plugin at `path`: not implemented; it succeeds and loads nothing.
    pub fn load_plugin(&mut self, _path: &Path) -> (r: Result<(), anyhow::Error>)
        ensures
            r is Ok,
            final(self).loaded_plugins@ == old(self).loaded_plugins@,
    {
        Ok(())
    }

    /// Runs a Lua script: not implemented; it succeeds and does nothing.
    pub fn execute_lua(&self, _script: &str) -> (r: Result<(), anyhow::Error>)
        ensures
            r is Ok,
    {
        Ok(())
    }

    /// The plugins loaded so far.
    pub fn list_plugins(&self) -> (r: &[Plugin])
        ensures
            r@ == self.loaded_plugins@,
    {
        self.loaded_plugins.as_slice()
    }
}

} // verus!
