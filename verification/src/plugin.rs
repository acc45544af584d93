//! The server's plugins.

use vstd::prelude::*;

use crate::config::server::PluginConfig;

verus! {

/// The plugins that a configuration asks to start: the base package path of
/// the Python plugins when they are configured, which the embedding program
/// then puts on Python's module search path.
pub fn init(config: &PluginConfig) -> (python_path: Option<String>)
    ensures
        match config.python {
            Some(p) => python_path matches Some(s) && s@ == p.base_pkg_path@,
            None => python_path is None,
        },
{
    match &config.python {
        Some(python_config) => Some(python_config.base_pkg_path.clone()),
        None => None,
    }
}

} // verus!
