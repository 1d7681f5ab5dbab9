//! Error types of the configuration, plugin, and provider layers.
//!
//! Each error renders as a short kind-specific line through its `message`
//! method; the exact text is pinned down in the method's contract so that
//! callers can state how context accumulates when errors are wrapped.

use vstd::prelude::*;

verus! {

/// Errors from loading and validating configuration files.
#[derive(Debug)]
pub enum ConfigError {
    /// The configuration file is absent.
    FileNotFound(String),
    /// The file's contents are not well-formed JSON.
    ParseError(String),
    /// The contents are JSON but break the schema; the payload holds one
    /// line per offending field.
    ValidationError(String),
    /// Reading the file failed.
    IoError(String),
}

impl ConfigError {
    /// The error's one-line rendering (the validation detail block may span
    /// several lines).
    pub fn message(&self) -> (r: String)
        ensures
            r@ == self.spec_message(),
    {
        let mut m: String;
        match self {
            ConfigError::FileNotFound(s) => {
                m = String::from_str("Configuration file not found: ");
                m.append(s.as_str());
            },
            ConfigError::ParseError(s) => {
                m = String::from_str("Configuration parsing error: ");
                m.append(s.as_str());
            },
            ConfigError::ValidationError(s) => {
                m = String::from_str("Configuration validation failed:\n");
                m.append(s.as_str());
            },
            ConfigError::IoError(s) => {
                m = String::from_str("File reading error: ");
                m.append(s.as_str());
            },
        }
        m
    }

    pub open spec fn spec_message(&self) -> Seq<char> {
        match self {
            ConfigError::FileNotFound(s) => "Configuration file not found: "@ + s@,
            ConfigError::ParseError(s) => "Configuration parsing error: "@ + s@,
            ConfigError::ValidationError(s) => "Configuration validation failed:\n"@ + s@,
            ConfigError::IoError(s) => "File reading error: "@ + s@,
        }
    }
}

/// Errors from the plugin manager.
#[derive(Debug)]
pub enum PluginError {
    /// The manager could not be constructed.
    InitError(String),
    /// A plugin could not be located or its manifest was rejected.
    LoadError(String),
    /// The per-application data directory could not be resolved.
    ProjectDirsError,
    /// A loaded plugin's function could not be executed.
    InvokeError(String),
    /// A filesystem operation failed.
    IoError(String),
    /// Installation was rejected (source malformed, or already installed).
    InstallError(String),
}

impl PluginError {
    /// The error's one-line rendering.
    pub fn message(&self) -> (r: String)
        ensures
            r@ == self.spec_message(),
    {
        let mut m: String;
        match self {
            PluginError::InitError(s) => {
                m = String::from_str("Failed to initialize plugin manager: ");
                m.append(s.as_str());
            },
            PluginError::LoadError(s) => {
                m = String::from_str("Failed to load plugin: ");
                m.append(s.as_str());
            },
            PluginError::ProjectDirsError => {
                m = String::from_str("Failed to determine project directories");
            },
            PluginError::InvokeError(s) => {
                m = String::from_str("Failed to invoke plugin: ");
                m.append(s.as_str());
            },
            PluginError::IoError(s) => {
                m = String::from_str("IO error: ");
                m.append(s.as_str());
            },
            PluginError::InstallError(s) => {
                m = String::from_str("Failed to install plugin: ");
                m.append(s.as_str());
            },
        }
        m
    }

    pub open spec fn spec_message(&self) -> Seq<char> {
        match self {
            PluginError::InitError(s) => "Failed to initialize plugin manager: "@ + s@,
            PluginError::LoadError(s) => "Failed to load plugin: "@ + s@,
            PluginError::ProjectDirsError => "Failed to determine project directories"@,
            PluginError::InvokeError(s) => "Failed to invoke plugin: "@ + s@,
            PluginError::IoError(s) => "IO error: "@ + s@,
            PluginError::InstallError(s) => "Failed to install plugin: "@ + s@,
        }
    }
}

/// Errors from a provider: the runtime that compiles and executes plugins.
#[derive(Debug)]
pub enum ProviderError {
    /// The engine could not be constructed.
    InitFailed,
    /// A plugin could not be compiled, instantiated, or registered.
    LoadFailed(String),
    /// Host-function injection failed.
    InjectionFailed(String),
    /// An exported function could not be resolved, marshalled, or executed.
    InvocationFailed(String),
    /// A plugin instance could not be torn down.
    UnloadFailed(String),
    /// The plugin lacks a required permission.
    PermissionDenied(String),
}

impl ProviderError {
    /// The error's one-line rendering.
    pub fn message(&self) -> (r: String)
        ensures
            r@ == self.spec_message(),
    {
        let mut m: String;
        match self {
            ProviderError::InitFailed => {
                m = String::from_str("Init failed");
            },
            ProviderError::LoadFailed(s) => {
                m = String::from_str("Load failed: ");
                m.append(s.as_str());
            },
            ProviderError::InjectionFailed(s) => {
                m = String::from_str("Function injection failed: ");
                m.append(s.as_str());
            },
            ProviderError::InvocationFailed(s) => {
                m = String::from_str("Function invocation failed: ");
                m.append(s.as_str());
            },
            ProviderError::UnloadFailed(s) => {
                m = String::from_str("Instance unload failed: ");
                m.append(s.as_str());
            },
            ProviderError::PermissionDenied(s) => {
                m = String::from_str("Permission denied: ");
                m.append(s.as_str());
            },
        }
        m
    }

    pub open spec fn spec_message(&self) -> Seq<char> {
        match self {
            ProviderError::InitFailed => "Init failed"@,
            ProviderError::LoadFailed(s) => "Load failed: "@ + s@,
            ProviderError::InjectionFailed(s) => "Function injection failed: "@ + s@,
            ProviderError::InvocationFailed(s) => "Function invocation failed: "@ + s@,
            ProviderError::UnloadFailed(s) => "Instance unload failed: "@ + s@,
            ProviderError::PermissionDenied(s) => "Permission denied: "@ + s@,
        }
    }
}

/// Errors surfaced by the harness facade, one variant per layer beneath it.
#[derive(Debug)]
pub enum BudCoreError {
    /// Loading or validating the root configuration failed.
    Config(ConfigError),
    /// The plugin manager failed.
    Plugin(PluginError),
    /// The provider could not initialize its engine.
    ProviderInitFailed(ProviderError),
}

impl BudCoreError {
    /// The error's rendering; the configuration and plugin variants render
    /// as the wrapped error does.
    pub fn message(&self) -> (r: String)
        ensures
            r@ == self.spec_message(),
    {
        match self {
            BudCoreError::Config(e) => e.message(),
            BudCoreError::Plugin(e) => e.message(),
            BudCoreError::ProviderInitFailed(e) => {
                let mut m = String::from_str("Provider initialization failed: ");
                m.append(e.message().as_str());
                m
            },
        }
    }

    pub open spec fn spec_message(&self) -> Seq<char> {
        match self {
            BudCoreError::Config(e) => e.spec_message(),
            BudCoreError::Plugin(e) => e.spec_message(),
            BudCoreError::ProviderInitFailed(e) => "Provider initialization failed: "@ + e.spec_message(),
        }
    }
}

} // verus!
