//! The plugin manager: owns the on-disk layout under the per-application
//! data directory, validates manifests, caches them, and arbitrates load
//! and invoke against the provider.
//!
//! The manager holds the model of its data root: the I/O layer reads the
//! real directory into it and mirrors the manager's changes back to disk.
//! Per plugin name the manager drives a small state machine: absent until
//! installed, installed until loaded, and invocable only once loaded.

use vstd::prelude::*;

use crate::cache::{
    lemma_cache_upsert_distinct, spec_cache_lookup, spec_cache_upsert, CacheV, ManifestCache,
};
use crate::discovery::{
    discovered_upto, discovery_errors_upto, load_all_plugin_configs, load_plugin_config,
    load_plugin_config_validated, spec_plugin_config_error, spec_plugin_manifest,
};
use crate::errors::{PluginError, ProviderError};
use crate::fstree::{
    copy_dir_recursive, lemma_copy_into_empty, spec_dir_lookup, wf_dir_v, DirTree, DirV, EntryV,
    FsEntry,
};
use crate::manifest::{ConfigData, ManifestV, PluginConfigData};
use crate::value::{is_invoke_result, is_numeric, is_unmarshalled, ProviderValue, WasmVal};
use crate::wasm_provider::WasmProvider;

verus! {

/// A plugin's validated manifest together with its location under the data
/// root.
#[derive(Debug)]
pub struct PluginInfo {
    pub config: PluginConfigData,
    pub path: String,
}

/// A plugin's identity and location: the manifest fields an application
/// lists plugins by, and the directory the plugin lives in.
#[derive(Debug)]
pub struct Plugin {
    pub name: String,
    pub version: String,
    pub description: String,
    pub path: String,
}

/// Manages plugin lifecycle and operations: install, discovery, load,
/// invoke.
pub struct PluginManager {
    config: ConfigData,
    project_data_path: String,
    root: Option<DirTree>,
    plugin_cache: ManifestCache,
    provider: WasmProvider,
}

/// The message rejecting a second installation of a plugin name.
pub open spec fn already_installed_msg(name: Seq<char>) -> Seq<char> {
    "plugin "@ + name + " is already installed"@
}

/// The message reported when a plain file occupies the destination
/// directory's place.
pub open spec fn dest_is_file_msg() -> Seq<char> {
    "a file stands where the plugin directory would go"@
}

/// The message reported when the data root does not exist.
pub open spec fn root_missing_msg() -> Seq<char> {
    "Plugins directory not found"@
}

/// The message reported when a plugin's entry file is absent.
pub open spec fn main_wasm_missing_msg() -> Seq<char> {
    "Load failed: main.wasm not found"@
}

/// The message demanding a load before an invocation.
pub open spec fn must_load_first_msg(name: Seq<char>) -> Seq<char> {
    "Plugin '"@ + name + "' not found, You must load the plugin first"@
}

impl PluginManager {
    /// The root configuration's view.
    pub closed spec fn config_v(self) -> crate::manifest::ConfigV {
        self.config@
    }

    /// The data directory's path.
    pub closed spec fn data_path(self) -> Seq<char> {
        self.project_data_path@
    }

    /// The model of the data root, if the directory exists.
    pub closed spec fn root_v(self) -> Option<DirV> {
        match self.root {
            Some(rt) => Some(rt@),
            None => None,
        }
    }

    /// The cache's view.
    pub closed spec fn cache_v(self) -> CacheV {
        self.plugin_cache@
    }

    /// The provider.
    pub closed spec fn spec_provider(self) -> WasmProvider {
        self.provider
    }

    /// Well-formedness: the provider's registry and the cache have
    /// pairwise-distinct names, every cached manifest is cached under its
    /// own name, and the data root is a well-formed tree.
    pub open spec fn wf(self) -> bool {
        &&& self.spec_provider().wf()
        &&& forall|i: int, j: int|
            0 <= i < j < self.cache_v().len() ==> self.cache_v()[i].0 != self.cache_v()[j].0
        &&& forall|i: int|
            0 <= i < self.cache_v().len() ==> (#[trigger] self.cache_v()[i]).1.name
                == self.cache_v()[i].0
        &&& self.root_v() matches Some(rv) ==> wf_dir_v(rv)
    }

    /// The manifest cached under a name.
    pub open spec fn cached_manifest(self, name: Seq<char>) -> Option<ManifestV> {
        spec_cache_lookup(self.cache_v(), name)
    }

    /// The manifest found on disk under `data_root/<name>/plugin.json`.
    pub open spec fn dir_manifest(self, name: Seq<char>) -> Option<ManifestV> {
        match self.root_v() {
            Some(rv) => match spec_dir_lookup(rv, name) {
                Some(EntryV::Dir(des)) => spec_plugin_manifest(des),
                _ => None,
            },
            None => None,
        }
    }

    /// Whether `get` succeeds on a name: it is cached, or its directory
    /// holds a valid manifest whose name matches the directory's.
    pub open spec fn gettable(self, name: Seq<char>) -> bool {
        ||| self.cached_manifest(name) is Some
        ||| (self.dir_manifest(name) matches Some(m) && m.name == name)
    }

    /// The manifest `get` yields on a name.
    pub open spec fn manifest_for(self, name: Seq<char>) -> ManifestV {
        match self.cached_manifest(name) {
            Some(m) => m,
            None => self.dir_manifest(name)->Some_0,
        }
    }

    /// The cache after a `get`: read-through, so a miss that finds a valid
    /// manifest caches it.
    pub open spec fn cache_after_get(self, name: Seq<char>) -> CacheV {
        if self.cached_manifest(name) is Some {
            self.cache_v()
        } else if self.gettable(name) {
            spec_cache_upsert(self.cache_v(), name, self.dir_manifest(name)->Some_0)
        } else {
            self.cache_v()
        }
    }

    /// Whether a directory of the given name exists under the data root.
    pub open spec fn installed(self, name: Seq<char>) -> bool {
        self.root_v() matches Some(rv) && spec_dir_lookup(rv, name) matches Some(EntryV::Dir(_))
    }

    /// The path of a plugin's directory: the data root, a separator, the
    /// plugin's name.
    fn plugin_path(&self, name: &str) -> (r: String)
        ensures
            r@ == self.data_path() + "/"@ + name@,
    {
        let mut p = self.project_data_path.clone();
        p.append("/");
        p.append(name);
        p
    }

    /// Relies on directories::ProjectDirs::from, with qualifier `com` and
    /// organisation `bud`: resolves the OS-appropriate per-application data
    /// directory, which depends on the machine's environment, or fails.
    #[verifier::external_body]
    fn project_data_dir(app_name: &str) -> (r: Option<String>)
    {
        directories::ProjectDirs::from("com", "bud", app_name)
            .map(|p| p.data_dir().to_string_lossy().into_owned())
    }

    /// Create a manager over a configuration, a provider, and the model of
    /// the data root as it stands on disk (absent if the directory does not
    /// exist). Fails when the per-application directory cannot be resolved.
    pub fn new(config: ConfigData, provider: WasmProvider, root: Option<DirTree>) -> (r: Result<
        PluginManager,
        PluginError,
    >)
        requires
            provider.wf(),
            root matches Some(rt) ==> wf_dir_v(rt@),
        ensures
            r matches Ok(m) ==> {
                &&& m.wf()
                &&& m.config_v() == config@
                &&& m.cache_v() == Seq::<(Seq<char>, ManifestV)>::empty()
                &&& m.spec_provider() == provider
                &&& (m.root_v() is Some <==> root is Some)
                &&& (root matches Some(rt) ==> m.root_v() == Some(rt@))
            },
            r is Err ==> r->Err_0 is ProjectDirsError,
    {
        let project_data_path = match Self::project_data_dir(config.name.as_str()) {
            Some(p) => p,
            None => {
                return Err(PluginError::ProjectDirsError);
            },
        };
        let m = PluginManager {
            config,
            project_data_path,
            root,
            plugin_cache: ManifestCache::new(),
            provider,
        };
        Ok(m)
    }

    /// Install a plugin from a source directory: validate its manifest,
    /// copy the directory to `data_root/<manifest.name>`, and cache the
    /// manifest. Rejected when a plugin of that name is already installed;
    /// on any failure nothing changes.
    pub fn install(&mut self, source: &DirTree) -> (r: Result<(), PluginError>)
        requires
            old(self).wf(),
            wf_dir_v(source@),
        ensures
            final(self).wf(),
            final(self).config_v() == old(self).config_v(),
            final(self).data_path() == old(self).data_path(),
            final(self).spec_provider() == old(self).spec_provider(),
            spec_plugin_manifest(source@) is None ==> (r matches Err(PluginError::InstallError(m))
                && m@ == "Failed to read plugin config: "@ + spec_plugin_config_error(source@)
                && *final(self) == *old(self)),
            (spec_plugin_manifest(source@) is Some && old(self).installed(
                spec_plugin_manifest(source@)->Some_0.name,
            )) ==> (r matches Err(PluginError::InstallError(m)) && m@ == already_installed_msg(
                spec_plugin_manifest(source@)->Some_0.name,
            ) && *final(self) == *old(self)),
            r is Err ==> *final(self) == *old(self),
            (spec_plugin_manifest(source@) is Some && (old(self).root_v() matches Some(rv)
                && (spec_dir_lookup(rv, spec_plugin_manifest(source@)->Some_0.name) matches Some(
            EntryV::File(_))))) ==> (r matches Err(PluginError::IoError(m)) && m@
                == dest_is_file_msg()),
            (spec_plugin_manifest(source@) is Some && !old(self).installed(
                spec_plugin_manifest(source@)->Some_0.name,
            ) && !(old(self).root_v() matches Some(rv) && spec_dir_lookup(
                rv,
                spec_plugin_manifest(source@)->Some_0.name,
            ) matches Some(EntryV::File(_)))) ==> r is Ok,
            r is Ok ==> ({
                let man = spec_plugin_manifest(source@)->Some_0;
                &&& spec_plugin_manifest(source@) is Some
                &&& !old(self).installed(man.name)
                &&& final(self).root_v() matches Some(rv2) && spec_dir_lookup(rv2, man.name)
                    == Some(EntryV::Dir(source@))
                &&& forall|k: Seq<char>|
                    k != man.name ==> spec_dir_lookup(final(self).root_v()->Some_0, k) == (match old(
                        self,
                    ).root_v() {
                        Some(rv) => spec_dir_lookup(rv, k),
                        None => None,
                    })
                &&& final(self).cache_v() == spec_cache_upsert(
                    old(self).cache_v(),
                    man.name,
                    man,
                )
            }),
    {
        let manifest = match load_plugin_config(source) {
            Ok(m) => m,
            Err(e) => {
                let mut msg = String::from_str("Failed to read plugin config: ");
                msg.append(e.message().as_str());
                return Err(PluginError::InstallError(msg));
            },
        };
        let name = manifest.name.clone();
        match &self.root {
            Some(rt) => match rt.get_entry(name.as_str()) {
                Some(FsEntry::Dir(d)) => {
                    proof {
                        crate::fstree::lemma_dir_entry_view(*d);
                    }
                    let mut msg = String::from_str("plugin ");
                    msg.append(name.as_str());
                    msg.append(" is already installed");
                    return Err(PluginError::InstallError(msg));
                },
                Some(FsEntry::File(_)) => {
                    return Err(
                        PluginError::IoError(
                            String::from_str("a file stands where the plugin directory would go"),
                        ),
                    );
                },
                None => {},
            },
            None => {},
        }
        let copied = match copy_dir_recursive(source, DirTree::new()) {
            Ok(t) => t,
            Err(_) => {
                proof {
                    lemma_copy_into_empty(*source);
                }
                return Err(
                    PluginError::IoError(String::from_str("the source directory cannot be copied")),
                );
            },
        };
        proof {
            lemma_copy_into_empty(*source);
            assert(copied@ == source@);
        }
        let ghost old_root_v = self.root_v();
        match &mut self.root {
            Some(rt) => {
                let ghost rt_v = rt@;
                proof {
                    crate::fstree::lemma_upsert_absent(rt_v, name@, EntryV::Dir(source@));
                    crate::fstree::lemma_dir_lookup_push(rt_v, name@, EntryV::Dir(source@));
                }
                rt.set_entry(name.clone(), FsEntry::Dir(copied));
                proof {
                    crate::fstree::lemma_dir_entry_view(copied);
                    assert(rt@ =~= rt_v.push((name@, EntryV::Dir(source@))));
                    assert(spec_dir_lookup(rt@, name@) == Some(EntryV::Dir(source@)));
                    assert(forall|k: Seq<char>|
                        k != name@ ==> spec_dir_lookup(rt@, k) == spec_dir_lookup(rt_v, k));
                }
            },
            None => {
                let mut rt = DirTree::new();
                proof {
                    crate::fstree::lemma_upsert_absent(
                        Seq::<(Seq<char>, EntryV)>::empty(),
                        name@,
                        EntryV::Dir(source@),
                    );
                    crate::fstree::lemma_dir_lookup_push(
                        Seq::<(Seq<char>, EntryV)>::empty(),
                        name@,
                        EntryV::Dir(source@),
                    );
                }
                rt.set_entry(name.clone(), FsEntry::Dir(copied));
                proof {
                    crate::fstree::lemma_dir_entry_view(copied);
                    assert(rt@ =~= Seq::<(Seq<char>, EntryV)>::empty().push(
                        (name@, EntryV::Dir(source@)),
                    ));
                    assert(spec_dir_lookup(rt@, name@) == Some(EntryV::Dir(source@)));
                    assert(forall|k: Seq<char>|
                        k != name@ ==> spec_dir_lookup(rt@, k) == spec_dir_lookup(
                            Seq::<(Seq<char>, EntryV)>::empty(),
                            k,
                        ));
                    assert forall|k: Seq<char>| k != name@ implies spec_dir_lookup(
                        rt@,
                        k,
                    ) is None by {
                        assert(spec_dir_lookup(Seq::<(Seq<char>, EntryV)>::empty(), k) is None);
                    }
                }
                self.root = Some(rt);
            },
        }
        let ghost old_cache = self.plugin_cache@;
        proof {
            assert(old_cache == old(self).cache_v());
            assert(forall|i: int, j: int|
                0 <= i < j < old_cache.len() ==> old_cache[i].0 != old_cache[j].0);
            assert(forall|i: int|
                0 <= i < old_cache.len() ==> (#[trigger] old_cache[i]).1.name == old_cache[i].0);
            lemma_cache_upsert_distinct(old_cache, name@, manifest@);
            crate::cache::lemma_cache_upsert_names(old_cache, name@, manifest@);
        }
        self.plugin_cache.insert(name, manifest);
        proof {
            let man = spec_plugin_manifest(source@)->Some_0;
            assert(man == manifest@);
            assert(man.name == name@);
            assert(self.root_v() is Some);
            assert(spec_dir_lookup(self.root_v()->Some_0, man.name) == Some(EntryV::Dir(source@)));
            assert(forall|k: Seq<char>|
                k != man.name ==> spec_dir_lookup(self.root_v()->Some_0, k) == (match old(
                    self,
                ).root_v() {
                    Some(rv) => spec_dir_lookup(rv, k),
                    None => None,
                }));
            assert(self.cache_v() == spec_cache_upsert(old(self).cache_v(), man.name, man));
            assert(wf_dir_v(self.root_v()->Some_0));
            assert(self.wf());
        }
        Ok(())
    }

    /// Scan the data root and replace the cache with what the scan
    /// discovered; a snapshot of manifest and path per plugin comes back.
    /// Individual failures are skipped; only a missing root, or a root
    /// where plugins exist and every one failed, is an error.
    pub fn get_all(&mut self) -> (r: Result<Vec<PluginInfo>, PluginError>)
        requires
            old(self).wf(),
        ensures
            final(self).wf(),
            final(self).config_v() == old(self).config_v(),
            final(self).data_path() == old(self).data_path(),
            final(self).root_v() == old(self).root_v(),
            final(self).spec_provider() == old(self).spec_provider(),
            old(self).root_v() is None ==> (r matches Err(PluginError::LoadError(m)) && m@
                == root_missing_msg() && *final(self) == *old(self)),
            r is Err ==> r->Err_0 is LoadError && *final(self) == *old(self),
            old(self).root_v() matches Some(rv) ==> {
                let disc = discovered_upto(rv, rv.len() as int);
                let errs = discovery_errors_upto(rv, rv.len() as int);
                &&& (r is Ok <==> !(disc.len() == 0 && errs.len() > 0))
                &&& r matches Ok(infos) ==> {
                    &&& final(self).cache_v() == disc
                    &&& infos@.len() == disc.len()
                    &&& forall|i: int|
                        0 <= i < disc.len() ==> (#[trigger] infos@[i]).config@ == disc[i].1
                            && infos@[i].path@ == old(self).data_path() + "/"@ + disc[i].0
                }
            },
    {
        let cache = match &self.root {
            None => {
                return Err(PluginError::LoadError(String::from_str("Plugins directory not found")));
            },
            Some(rt) => match load_all_plugin_configs(rt) {
                Ok(c) => c,
                Err(e) => {
                    return Err(PluginError::LoadError(e.message()));
                },
            },
        };
        proof {
            let rv = old(self).root_v()->Some_0;
            crate::discovery::lemma_discovered_wf(rv, rv.len() as int);
        }
        self.plugin_cache = cache;
        let mut infos: Vec<PluginInfo> = Vec::new();
        let mut i: usize = 0;
        while i < self.plugin_cache.entries.len()
            invariant
                i <= self.plugin_cache.entries@.len(),
                self.plugin_cache@.len() == self.plugin_cache.entries@.len(),
                forall|j: int|
                    0 <= j < self.plugin_cache.entries@.len() ==> self.plugin_cache@[j] == (
                    self.plugin_cache.entries@[j].0@,
                    self.plugin_cache.entries@[j].1@,
                    ),
                infos@.len() == i,
                forall|j: int|
                    0 <= j < i ==> (#[trigger] infos@[j]).config@ == self.plugin_cache@[j].1
                        && infos@[j].path@ == self.data_path() + "/"@ + self.plugin_cache@[j].0,
            decreases self.plugin_cache.entries@.len() - i,
        {
            let pair = &self.plugin_cache.entries[i];
            let path = self.plugin_path(pair.0.as_str());
            infos.push(PluginInfo { config: pair.1.clone(), path });
            i = i + 1;
        }
        Ok(infos)
    }

    /// The manifest and path of one plugin: from the cache when present,
    /// read from disk, name-checked, and cached otherwise.
    ///
    /// Succeeds exactly when the name is cached or its directory holds a
    /// valid manifest whose name equals the directory's name.
    pub fn get(&mut self, name: &str) -> (r: Result<PluginInfo, PluginError>)
        requires
            old(self).wf(),
        ensures
            final(self).wf(),
            final(self).config_v() == old(self).config_v(),
            final(self).data_path() == old(self).data_path(),
            final(self).root_v() == old(self).root_v(),
            final(self).spec_provider() == old(self).spec_provider(),
            final(self).cache_v() == old(self).cache_after_get(name@),
            r is Ok <==> old(self).gettable(name@),
            r matches Ok(info) ==> info.config@ == old(self).manifest_for(name@) && info.path@
                == old(self).data_path() + "/"@ + name@,
            r is Err ==> r->Err_0 is LoadError && *final(self) == *old(self),
    {
        let path = self.plugin_path(name);
        match self.plugin_cache.get(name) {
            Some(cached) => {
                let config = cached.clone();
                return Ok(PluginInfo { config, path });
            },
            None => {},
        }
        let config = match &self.root {
            Some(rt) => match rt.get_entry(name) {
                Some(FsEntry::Dir(d)) => {
                    proof {
                        crate::fstree::lemma_dir_entry_view(*d);
                    }
                    match load_plugin_config_validated(d, name) {
                        Ok(c) => c,
                        Err(e) => {
                            let mut msg = String::from_str("Failed to load plugin '");
                            msg.append(name);
                            msg.append("': ");
                            msg.append(e.message().as_str());
                            return Err(PluginError::LoadError(msg));
                        },
                    }
                },
                _ => {
                    let mut msg = String::from_str("Failed to load plugin '");
                    msg.append(name);
                    msg.append("': the plugin directory does not exist");
                    return Err(PluginError::LoadError(msg));
                },
            },
            None => {
                let mut msg = String::from_str("Failed to load plugin '");
                msg.append(name);
                msg.append("': the plugin directory does not exist");
                return Err(PluginError::LoadError(msg));
            },
        };
        let ghost old_cache = self.plugin_cache@;
        proof {
            lemma_cache_upsert_distinct(old_cache, name@, config@);
            crate::cache::lemma_cache_upsert_names(old_cache, name@, config@);
        }
        let result = config.clone();
        self.plugin_cache.insert(String::from_str(name), config);
        Ok(PluginInfo { config: result, path })
    }

    /// The bytes of a plugin's entry file, when the plugin's directory
    /// holds one.
    pub open spec fn main_wasm_bytes(self, name: Seq<char>) -> Option<Seq<u8>> {
        match self.root_v() {
            Some(rv) => match spec_dir_lookup(rv, name) {
                Some(EntryV::Dir(des)) => match spec_dir_lookup(des, "main.wasm"@) {
                    Some(EntryV::File(f)) => Some(f.bytes),
                    _ => None,
                },
                _ => None,
            },
            None => None,
        }
    }

    /// Load a plugin: resolve its manifest, then hand its entry file to the
    /// provider, which compiles and instantiates it in a fresh store.
    pub fn load(&mut self, name: &str) -> (r: Result<(), PluginError>)
        requires
            old(self).wf(),
        ensures
            final(self).wf(),
            final(self).config_v() == old(self).config_v(),
            final(self).data_path() == old(self).data_path(),
            final(self).root_v() == old(self).root_v(),
            final(self).cache_v() == old(self).cache_after_get(name@),
            !old(self).gettable(name@) ==> (r is Err && final(self).spec_provider() == old(
                self,
            ).spec_provider()),
            (old(self).gettable(name@) && old(self).main_wasm_bytes(name@) is None) ==> (r matches
            Err(PluginError::LoadError(m)) && m@ == main_wasm_missing_msg() && final(self).spec_provider() == old(self).spec_provider()),
            r is Err ==> r->Err_0 is LoadError && final(self).spec_provider() == old(
                self,
            ).spec_provider(),
            r is Ok ==> {
                &&& old(self).gettable(name@)
                &&& final(self).spec_provider().is_loaded(name@)
                &&& forall|k: Seq<char>|
                    k != name@ ==> final(self).spec_provider().plugin_lookup(k) == old(
                        self,
                    ).spec_provider().plugin_lookup(k)
                &&& forall|k: Seq<char>|
                    final(self).spec_provider().is_loaded(k) == (old(
                        self,
                    ).spec_provider().is_loaded(k) || k == name@)
            },
    {
        match self.get(name) {
            Ok(_) => {},
            Err(e) => {
                return Err(e);
            },
        }
        match &self.root {
            Some(rt) => match rt.get_entry(name) {
                Some(FsEntry::Dir(d)) => {
                    proof {
                        crate::fstree::lemma_dir_entry_view(*d);
                    }
                    match d.get_entry("main.wasm") {
                        Some(FsEntry::File(fd)) => {
                            match self.provider.load(name, fd.bytes.as_slice()) {
                                Ok(()) => Ok(()),
                                Err(e) => Err(PluginError::LoadError(e.message())),
                            }
                        },
                        _ => Err(
                            PluginError::LoadError(
                                String::from_str("Load failed: main.wasm not found"),
                            ),
                        ),
                    }
                },
                _ => Err(
                    PluginError::LoadError(String::from_str("Load failed: main.wasm not found")),
                ),
            },
            None => Err(
                PluginError::LoadError(String::from_str("Load failed: main.wasm not found")),
            ),
        }
    }

    /// Invoke an exported function of a plugin that is installed and
    /// loaded: arguments are marshalled in, the function runs in the
    /// plugin's own store, and the results are marshalled back.
    ///
    /// An installed-but-unloaded plugin is rejected with a message that
    /// demands loading it first; every other plugin's instance is left
    /// untouched whatever the guest does.
    pub fn invoke(&mut self, name: &str, function: &str, args: Vec<ProviderValue>) -> (r: Result<
        ProviderValue,
        PluginError,
    >)
        requires
            old(self).wf(),
        ensures
            final(self).wf(),
            final(self).config_v() == old(self).config_v(),
            final(self).data_path() == old(self).data_path(),
            final(self).root_v() == old(self).root_v(),
            final(self).cache_v() == old(self).cache_after_get(name@),
            !old(self).gettable(name@) ==> (r is Err && r->Err_0 is LoadError && final(self).spec_provider() == old(self).spec_provider()),
            (old(self).gettable(name@) && !old(self).spec_provider().is_loaded(name@)) ==> (r
                matches Err(PluginError::LoadError(m)) && m@ == must_load_first_msg(name@) && final(self).spec_provider() == old(self).spec_provider()),
            (old(self).gettable(name@) && old(self).spec_provider().is_loaded(name@)) ==> {
                &&& forall|k: Seq<char>|
                    final(self).spec_provider().is_loaded(k) == old(
                        self,
                    ).spec_provider().is_loaded(k)
                &&& forall|k: Seq<char>|
                    k != name@ ==> final(self).spec_provider().plugin_lookup(k) == old(
                        self,
                    ).spec_provider().plugin_lookup(k)
                &&& (r matches Ok(v) ==> is_invoke_result(v) && (exists|rs: Seq<WasmVal>|
                    is_unmarshalled(rs, v)))
                &&& (r is Err ==> r->Err_0 is InvokeError)
                &&& ((exists|i: int| 0 <= i < args@.len() && !is_numeric(#[trigger] args@[i]))
                    ==> r is Err)
            },
    {
        match self.get(name) {
            Ok(_) => {},
            Err(e) => {
                return Err(e);
            },
        }
        if !self.provider.has_plugin(name) {
            let mut msg = String::from_str("Plugin '");
            msg.append(name);
            msg.append("' not found, You must load the plugin first");
            return Err(PluginError::LoadError(msg));
        }
        match self.provider.invoke(name, function, args) {
            Ok(v) => Ok(v),
            Err(e) => Err(PluginError::InvokeError(e.message())),
        }
    }

    /// Name invariant: every manifest the manager yields for a plugin name
    /// bears that very name, whether it came from the cache or from disk.
    pub proof fn lemma_name_invariant(self, name: Seq<char>)
        requires
            self.wf(),
            self.gettable(name),
        ensures
            self.manifest_for(name).name == name,
    {
        if self.cached_manifest(name) is Some {
            crate::cache::lemma_cache_lookup_is_entry(self.cache_v(), name);
            let i = choose|i: int|
                0 <= i < self.cache_v().len() && #[trigger] self.cache_v()[i] == (
                    name,
                    spec_cache_lookup(self.cache_v(), name)->Some_0,
                );
            assert(self.cache_v()[i].1.name == self.cache_v()[i].0);
        }
    }

    /// The root configuration the manager was built over.
    pub fn config(&self) -> (r: &ConfigData)
        ensures
            r@ == self.config_v(),
    {
        &self.config
    }

    /// The provider the manager arbitrates.
    pub fn provider(&self) -> (r: &WasmProvider)
        ensures
            *r == self.spec_provider(),
    {
        &self.provider
    }

    /// Initialize the provider's engine state through the manager.
    pub fn init_provider(&mut self) -> (r: Result<(), ProviderError>)
        requires
            old(self).wf(),
        ensures
            final(self).wf(),
            final(self).config_v() == old(self).config_v(),
            final(self).data_path() == old(self).data_path(),
            final(self).root_v() == old(self).root_v(),
            final(self).cache_v() == old(self).cache_v(),
            forall|k: Seq<char>|
                final(self).spec_provider().plugin_lookup(k) == old(
                    self,
                ).spec_provider().plugin_lookup(k),
            r is Ok ==> final(self).spec_provider().initialized(),
            r is Err ==> r->Err_0 is InitFailed,
    {
        let r = self.provider.init();
        proof {
            assert(self.spec_provider().wf());
            assert(self.cache_v() == old(self).cache_v());
            assert(self.root_v() == old(self).root_v());
        }
        r
    }
}

} // verus!
