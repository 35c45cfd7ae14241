//! A plugin host core: a typed registry of capabilities that plugins fill, the
//! decisions of the dynamic-library loader, and the generator of the exported
//! functions that a plugin library offers to its host.
//!
//! - `capability`: the closed union of capability kinds and typed extraction.
//! - `context`: the registry and its typed queries.
//! - `loader`: what the host decides while discovering, binding and running plugins.
//! - `shim`: the source of the four functions a plugin library exports, and `scan`:
//!   finding what they are derived from in a plugin's source.
//! - `plugin`: the plugin interface and an example plugin.
//! - `formula`, `text`, `upgrades`, `game`: the upgrade model of a clicker game that
//!   hosts this registry, and its rules.

pub mod capability;
pub mod context;
pub mod formula;
pub mod game;
pub mod loader;
pub mod plugin;
pub mod scan;
pub mod shim;
pub mod text;
pub mod upgrades;

pub use capability::{
    Effect, EffectTrigger, EffectType, EffectValue, FromRegistrable, FromRegistrableMut,
    Registrable, Upgrade,
};
pub use context::PluginContext;
pub use formula::Formula;
pub use loader::{DirEntryInfo, DirectoryProbe, EntryKind, LoadError, PluginInfo};
pub use plugin::{Plugin, Upgrade3};
pub use shim::{PluginDeclaration, ShimError};
pub use upgrades::Upgrades;
