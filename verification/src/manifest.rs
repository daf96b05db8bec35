//! The `plugin.toml` manifest of an external plugin, as plain data.
use vstd::prelude::*;
use crate::text::owned;

verus! {

/// A `plugin.toml` manifest.
pub struct Manifest {
    pub plugin: PluginMeta,
    pub command: Option<CommandConfig>,
    pub validation: Option<ValidationConfig>,
    pub hooks: Option<HooksConfig>,
}

/// The `[plugin]` table.
pub struct PluginMeta {
    pub name: String,
    pub version: String,
    pub description: String,
    pub command_path: Option<String>,
    /// Capabilities by name: `command`, `validation`, `hook`.
    pub provides: Vec<String>,
}

/// The `[command]` table.
pub struct CommandConfig {
    pub name: String,
    pub aliases: Vec<String>,
    pub help: String,
}

/// The `[validation]` table.
pub struct ValidationConfig {
    pub name: String,
    /// `"error"` by default.
    pub severity: String,
    pub description: String,
}

/// The `[hooks]` table.
pub struct HooksConfig {
    pub triggers: Vec<String>,
}

/// The severity of a validation that does not name one.
pub fn default_severity() -> (r: String)
    ensures
        r@ == "error"@,
{
    owned("error")
}

} // verus!
