//! A host harness that installs and executes sandboxed WebAssembly plugins.
//!
//! The crate models the host side of a plugin runtime: a typed value ADT that
//! crosses the host/guest boundary, a manifest validator, a plugin manager
//! that owns the on-disk layout, and a provider that compiles and invokes
//! WebAssembly modules through wasmtime.

mod cache;
mod discovery;
mod errors;
mod value;
mod wasm_provider;
mod fstree;
mod host;
mod json;
mod manager;
mod manifest;
mod pattern;
mod strutil;

pub use cache::ManifestCache;
pub use fstree::{copy_dir_recursive, DirTree, DirV, EntryV, FileData, FileV, FsEntry};
pub use pattern::{is_valid_name, is_valid_semver};
pub use manager::{Plugin, PluginInfo, PluginManager};
pub use manifest::{
    manifest_to_json, validate_plugin_manifest, validate_root_config, ConfigData, ConfigV,
    ManifestV, PluginConfigData,
};
pub use host::{BudCore, BudCoreBuilder};
pub use json::{Json, JsonV};
pub use discovery::{load_all_plugin_configs, load_plugin_config, load_plugin_config_validated};
pub use errors::{BudCoreError, ConfigError, PluginError, ProviderError};
pub use wasm_provider::{PluginInstance, PluginState, WasmInstance, WasmProvider};
pub use value::{ProviderValue, WasmVal, WasmValKind};
pub use value::{provider_value_to_val, unmarshal_results, val_to_provider_value};
