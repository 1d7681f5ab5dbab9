//! The harness facade: wires a provider to a plugin manager over a root
//! configuration.
//!
//! The I/O layer reads the root configuration file and the data root and
//! hands both over as plain data; building the facade validates the
//! configuration, initializes the provider's engine, and constructs the
//! manager. Builder errors map one to one from the layers beneath.

use vstd::prelude::*;

use crate::errors::BudCoreError;
use crate::fstree::{wf_dir_v, DirTree};
use crate::json::Json;
use crate::manager::PluginManager;
use crate::manifest::{spec_validate_config, validate_root_config, ConfigData};
use crate::wasm_provider::WasmProvider;

verus! {

/// Builds a [`BudCore`] over a concrete provider.
pub struct BudCoreBuilder {
    provider: WasmProvider,
}

/// The harness: the application's name, and the manager that owns plugins
/// and provider.
pub struct BudCore {
    /// The hosting application's name, from the root configuration.
    pub package_name: String,
    plugin_manager: PluginManager,
}

impl BudCoreBuilder {
    /// The provider the builder will hand to the manager.
    pub closed spec fn spec_provider(self) -> WasmProvider {
        self.provider
    }

    /// A builder over a provider.
    pub fn new(provider: WasmProvider) -> (r: BudCoreBuilder)
        ensures
            r.spec_provider() == provider,
    {
        BudCoreBuilder { provider }
    }

    /// Build the harness: validate the root configuration, initialize the
    /// provider, and construct the plugin manager over the data root as it
    /// stands on disk.
    pub fn build(self, config_json: &Json, data_root: Option<DirTree>) -> (r: Result<
        BudCore,
        BudCoreError,
    >)
        requires
            self.spec_provider().wf(),
            data_root matches Some(rt) ==> wf_dir_v(rt@),
        ensures
            spec_validate_config(config_json@) is None ==> (r matches Err(BudCoreError::Config(e))
                && e is ValidationError),
            r matches Err(e) ==> match e {
                BudCoreError::Config(c) => c is ValidationError && spec_validate_config(
                    config_json@,
                ) is None,
                BudCoreError::ProviderInitFailed(p) => p is InitFailed,
                BudCoreError::Plugin(g) => g is ProjectDirsError,
            },
            r matches Ok(core) ==> {
                &&& spec_validate_config(config_json@) matches Some(c)
                &&& core.mgr().wf()
                &&& core.mgr().config_v() == spec_validate_config(config_json@)->Some_0
                &&& core.name_v() == spec_validate_config(config_json@)->Some_0.name
                &&& core.mgr().spec_provider().initialized()
                &&& core.mgr().cache_v().len() == 0
                &&& (data_root matches Some(rt) ==> core.mgr().root_v() == Some(rt@))
                &&& (data_root is None ==> core.mgr().root_v() is None)
            },
    {
        let config = match validate_root_config(config_json) {
            Ok(c) => c,
            Err(e) => {
                return Err(BudCoreError::Config(e));
            },
        };
        let mut provider = self.provider;
        match provider.init() {
            Ok(()) => {},
            Err(e) => {
                return Err(BudCoreError::ProviderInitFailed(e));
            },
        }
        let package_name = config.name.clone();
        let plugin_manager = match PluginManager::new(config, provider, data_root) {
            Ok(m) => m,
            Err(e) => {
                return Err(BudCoreError::Plugin(e));
            },
        };
        Ok(BudCore { package_name, plugin_manager })
    }
}

impl BudCore {
    /// The manager inside the harness.
    pub closed spec fn mgr(self) -> PluginManager {
        self.plugin_manager
    }

    /// The application name the harness carries.
    pub closed spec fn name_v(self) -> Seq<char> {
        self.package_name@
    }

    /// A builder over a provider: the recommended construction path.
    pub fn builder(provider: WasmProvider) -> (r: BudCoreBuilder)
        ensures
            r.spec_provider() == provider,
    {
        BudCoreBuilder::new(provider)
    }

    /// The root configuration.
    pub fn config(&self) -> (r: &ConfigData)
        ensures
            r@ == self.mgr().config_v(),
    {
        self.plugin_manager.config()
    }

    /// The provider.
    pub fn provider(&self) -> (r: &WasmProvider)
        ensures
            *r == self.mgr().spec_provider(),
    {
        self.plugin_manager.provider()
    }

    /// The plugin manager, for loading, querying and invoking plugins.
    pub fn plugin_manager_mut(&mut self) -> (r: &mut PluginManager)
        ensures
            *r == old(self).mgr(),
            final(self).mgr() == *final(r),
            final(self).name_v() == old(self).name_v(),
    {
        &mut self.plugin_manager
    }
}

} // verus!
