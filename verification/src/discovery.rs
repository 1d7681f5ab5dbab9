//! Loading plugin manifests from a directory model: one plugin's
//! `plugin.json`, and the lenient scan of a whole data root.
//!
//! Discovery is fault tolerant: a plugin whose manifest is missing,
//! unparsable or invalid is skipped, and only a root where every plugin
//! failed is an error.

use vstd::prelude::*;

use crate::cache::{spec_cache_upsert, CacheV, ManifestCache};
use crate::errors::ConfigError;
use crate::fstree::{spec_dir_lookup, DirTree, DirV, EntryV, FileV};
use crate::manifest::{
    join_lines, manifest_error_lines, spec_validate_manifest, validate_plugin_manifest, ManifestV,
    PluginConfigData,
};
use crate::strutil::str_eq;

verus! {

/// The manifest file every plugin directory must hold.
pub open spec fn plugin_config_file() -> Seq<char> {
    "plugin.json"@
}

/// The `plugin.json` file of a plugin directory, if present as a file.
pub open spec fn plugin_json_of(dir: DirV) -> Option<FileV> {
    match spec_dir_lookup(dir, plugin_config_file()) {
        Some(EntryV::File(f)) => Some(f),
        _ => None,
    }
}

/// The validated manifest of a plugin directory, when its `plugin.json`
/// exists, parses, and satisfies the schema.
pub open spec fn spec_plugin_manifest(dir: DirV) -> Option<ManifestV> {
    match plugin_json_of(dir) {
        Some(f) => match f.json {
            Some(jv) => spec_validate_manifest(jv),
            None => None,
        },
        None => None,
    }
}

/// The message reported when a manifest file's bytes are not well-formed
/// JSON.
pub open spec fn not_json_msg() -> Seq<char> {
    "the file does not contain well-formed JSON"@
}

/// The rendering of the error `load_plugin_config` reports on a directory
/// without a valid manifest.
pub open spec fn spec_plugin_config_error(dir: DirV) -> Seq<char> {
    match plugin_json_of(dir) {
        None => "Configuration file not found: "@ + plugin_config_file(),
        Some(f) => match f.json {
            None => "Configuration parsing error: "@ + not_json_msg(),
            Some(jv) => "Configuration validation failed:\n"@ + join_lines(
                manifest_error_lines(jv),
            ),
        },
    }
}

/// Load and validate the manifest of one plugin directory.
///
/// Fails with `FileNotFound` when `plugin.json` is absent, `ParseError`
/// when its bytes are not JSON, and `ValidationError` when the document
/// breaks the schema.
pub fn load_plugin_config(plugin_dir: &DirTree) -> (r: Result<PluginConfigData, ConfigError>)
    ensures
        r is Ok <==> spec_plugin_manifest(plugin_dir@) is Some,
        r matches Ok(m) ==> spec_plugin_manifest(plugin_dir@) == Some(m@),
        r matches Err(e) ==> e.spec_message() == spec_plugin_config_error(plugin_dir@),
        r matches Err(e) ==> match plugin_json_of(plugin_dir@) {
            None => e is FileNotFound,
            Some(f) => if f.json is None {
                e is ParseError
            } else {
                e is ValidationError
            },
        },
{
    match plugin_dir.get_entry("plugin.json") {
        Some(entry) => match entry {
            crate::fstree::FsEntry::File(fd) => match &fd.json {
                Some(doc) => validate_plugin_manifest(doc),
                None => Err(
                    ConfigError::ParseError(
                        String::from_str("the file does not contain well-formed JSON"),
                    ),
                ),
            },
            crate::fstree::FsEntry::Dir(d) => {
                proof {
                    crate::fstree::lemma_dir_entry_view(*d);
                }
                Err(ConfigError::FileNotFound(String::from_str("plugin.json")))
            },
        },
        None => Err(ConfigError::FileNotFound(String::from_str("plugin.json"))),
    }
}

/// The line that rejects a manifest whose name differs from its
/// directory's name.
pub open spec fn name_mismatch_line() -> Seq<char> {
    "Path '/name': does not match the plugin directory name"@
}

/// Load and validate the manifest of one plugin directory, and check that
/// the manifest's name equals the expected directory name.
pub fn load_plugin_config_validated(plugin_dir: &DirTree, expected_name: &str) -> (r: Result<
    PluginConfigData,
    ConfigError,
>)
    ensures
        r is Ok <==> (spec_plugin_manifest(plugin_dir@) matches Some(m) && m.name
            == expected_name@),
        r matches Ok(m) ==> spec_plugin_manifest(plugin_dir@) == Some(m@),
        r matches Err(e) ==> (match spec_plugin_manifest(plugin_dir@) {
            Some(m) => e matches ConfigError::ValidationError(msg) && msg@ == name_mismatch_line(),
            None => e.spec_message() == spec_plugin_config_error(plugin_dir@),
        }),
{
    let m = match load_plugin_config(plugin_dir) {
        Ok(m) => m,
        Err(e) => {
            return Err(e);
        },
    };
    if str_eq(m.name.as_str(), expected_name) {
        Ok(m)
    } else {
        Err(
            ConfigError::ValidationError(
                String::from_str("Path '/name': does not match the plugin directory name"),
            ),
        )
    }
}

/// The manifests a scan of the first `n` root entries discovers: one per
/// subdirectory with a valid manifest, keyed by the manifest's name, the
/// last of a name winning.
pub open spec fn discovered_upto(root: DirV, n: int) -> CacheV
    decreases n,
{
    if n <= 0 || n > root.len() {
        Seq::empty()
    } else {
        let prev = discovered_upto(root, n - 1);
        match root[n - 1].1 {
            EntryV::Dir(des) => match spec_plugin_manifest(des) {
                Some(m) => spec_cache_upsert(prev, m.name, m),
                None => prev,
            },
            _ => prev,
        }
    }
}

/// The diagnostics a scan of the first `n` root entries collects: one line
/// per subdirectory without a valid manifest.
pub open spec fn discovery_errors_upto(root: DirV, n: int) -> Seq<Seq<char>>
    decreases n,
{
    if n <= 0 || n > root.len() {
        Seq::empty()
    } else {
        let prev = discovery_errors_upto(root, n - 1);
        match root[n - 1].1 {
            EntryV::Dir(des) => match spec_plugin_manifest(des) {
                Some(_) => prev,
                None => prev.push(root[n - 1].0 + ": "@ + spec_plugin_config_error(des)),
            },
            _ => prev,
        }
    }
}

/// What a scan discovers is well formed: names pairwise distinct, every
/// manifest keyed by its own name.
pub proof fn lemma_discovered_wf(root: DirV, n: int)
    requires
        0 <= n <= root.len(),
    ensures
        forall|i: int, j: int|
            0 <= i < j < discovered_upto(root, n).len() ==> discovered_upto(root, n)[i].0
                != discovered_upto(root, n)[j].0,
        forall|i: int|
            0 <= i < discovered_upto(root, n).len() ==> (#[trigger] discovered_upto(
                root,
                n,
            )[i]).1.name == discovered_upto(root, n)[i].0,
    decreases n,
{
    if n > 0 {
        lemma_discovered_wf(root, n - 1);
        let prev = discovered_upto(root, n - 1);
        match root[n - 1].1 {
            EntryV::Dir(des) => match spec_plugin_manifest(des) {
                Some(m) => {
                    crate::cache::lemma_cache_upsert_distinct(prev, m.name, m);
                    crate::cache::lemma_cache_upsert_names(prev, m.name, m);
                },
                None => {},
            },
            _ => {},
        }
    }
}

/// Whether a root entry is a subdirectory with a valid manifest.
pub open spec fn dir_valid(root: DirV, j: int) -> bool {
    &&& root[j].1 is Dir
    &&& spec_plugin_manifest(root[j].1->Dir_0) is Some
}

/// The manifest of a valid subdirectory.
pub open spec fn dir_manifest_at(root: DirV, j: int) -> ManifestV {
    spec_plugin_manifest(root[j].1->Dir_0)->Some_0
}

/// How many of the first `n` root entries are valid plugins.
pub open spec fn valid_dir_count(root: DirV, n: int) -> int
    decreases n,
{
    if n <= 0 || n > root.len() {
        0
    } else {
        valid_dir_count(root, n - 1) + if dir_valid(root, n - 1) {
            1int
        } else {
            0
        }
    }
}

/// Whether no two valid plugins under the root declare one manifest name.
pub open spec fn distinct_manifest_names(root: DirV) -> bool {
    forall|i: int, j: int|
        0 <= i < j < root.len() && dir_valid(root, i) && dir_valid(root, j) ==> dir_manifest_at(
            root,
            i,
        ).name != dir_manifest_at(root, j).name
}

/// Lenient discovery counts: when no two valid plugins share a manifest
/// name, a scan of a root with N valid plugins and any number of invalid
/// ones discovers exactly N entries, and each is owed to one valid plugin.
pub proof fn lemma_lenient_discovery(root: DirV, n: int)
    requires
        0 <= n <= root.len(),
        distinct_manifest_names(root),
    ensures
        discovered_upto(root, n).len() == valid_dir_count(root, n),
        forall|i: int|
            0 <= i < discovered_upto(root, n).len() ==> exists|j: int|
                0 <= j < n && dir_valid(root, j) && dir_manifest_at(root, j).name
                    == (#[trigger] discovered_upto(root, n)[i]).0,
    decreases n,
{
    if n > 0 {
        lemma_lenient_discovery(root, n - 1);
        lemma_discovered_wf(root, n - 1);
        let prev = discovered_upto(root, n - 1);
        match root[n - 1].1 {
            EntryV::Dir(des) => match spec_plugin_manifest(des) {
                Some(m) => {
                    assert(dir_valid(root, n - 1) && dir_manifest_at(root, n - 1) == m);
                    assert forall|k: int| 0 <= k < prev.len() implies (#[trigger] prev[k]).0
                        != m.name by {
                        let j = choose|j: int|
                            0 <= j < n - 1 && dir_valid(root, j) && dir_manifest_at(root, j).name
                                == prev[k].0;
                        assert(dir_manifest_at(root, j).name != dir_manifest_at(root, n - 1).name);
                    }
                    crate::cache::lemma_cache_lookup_absent(prev, m.name);
                    crate::cache::lemma_cache_upsert_absent(prev, m.name, m);
                    assert(discovered_upto(root, n) =~= prev.push((m.name, m)));
                    assert forall|i: int|
                        0 <= i < discovered_upto(root, n).len() implies exists|j: int|
                        0 <= j < n && dir_valid(root, j) && dir_manifest_at(root, j).name
                            == (#[trigger] discovered_upto(root, n)[i]).0 by {
                        if i < prev.len() {
                            let j = choose|j: int|
                                0 <= j < n - 1 && dir_valid(root, j) && dir_manifest_at(
                                    root,
                                    j,
                                ).name == prev[i].0;
                            assert(0 <= j < n && dir_valid(root, j) && dir_manifest_at(
                                root,
                                j,
                            ).name == discovered_upto(root, n)[i].0);
                        } else {
                            assert(dir_valid(root, n - 1) && dir_manifest_at(root, n - 1).name
                                == discovered_upto(root, n)[i].0);
                        }
                    }
                },
                None => {
                    assert(!dir_valid(root, n - 1));
                },
            },
            _ => {
                assert(!dir_valid(root, n - 1));
            },
        }
    }
}

/// The message reported when a data root holds plugins and every one of
/// them failed to load.
pub open spec fn all_failed_msg(root: DirV) -> Seq<char> {
    "Failed to load any plugins:\n"@ + join_lines(discovery_errors_upto(root, root.len() as int))
}

/// Scan a data root for plugins: every subdirectory with a valid manifest
/// is discovered, keyed by its manifest name; failures are skipped.
///
/// Fails only when at least one plugin failed and none loaded.
pub fn load_all_plugin_configs(root: &DirTree) -> (r: Result<ManifestCache, ConfigError>)
    ensures
        r is Ok <==> !(discovered_upto(root@, root@.len() as int).len() == 0
            && discovery_errors_upto(root@, root@.len() as int).len() > 0),
        r matches Ok(c) ==> c@ == discovered_upto(root@, root@.len() as int),
        r matches Err(e) ==> (e matches ConfigError::ValidationError(msg) && msg@ == all_failed_msg(
            root@,
        )),
{
    let ghost root_v = root@;
    let ghost n0 = root@.len() as int;
    let mut found = ManifestCache::new();
    let mut errors: Vec<String> = Vec::new();
    let mut i: usize = 0;
    while i < root.entries.len()
        invariant
            root_v == root@,
            n0 == root@.len(),
            root@.len() == root.entries@.len(),
            forall|j: int|
                0 <= j < root.entries@.len() ==> root@[j] == (
                root.entries@[j].0@,
                crate::fstree::entry_view(root.entries@[j].1),
                ),
            i <= root.entries@.len(),
            found@ == discovered_upto(root_v, i as int),
            errors.deep_view() == discovery_errors_upto(root_v, i as int),
        decreases root.entries@.len() - i,
    {
        let ghost prev_found = found@;
        let ghost prev_errors = errors.deep_view();
        let pair = &root.entries[i];
        match &pair.1 {
            crate::fstree::FsEntry::Dir(d) => {
                proof {
                    crate::fstree::lemma_dir_entry_view(*d);
                }
                match load_plugin_config(d) {
                    Ok(config) => {
                        let config_name = config.name.clone();
                        found.insert(config_name, config);
                        proof {
                            assert(found@ == discovered_upto(root_v, i as int + 1));
                        }
                    },
                    Err(e) => {
                        let mut line = pair.0.clone();
                        line.append(": ");
                        line.append(e.message().as_str());
                        errors.push(line);
                        proof {
                            assert(errors.deep_view() =~= prev_errors.push(
                                root_v[i as int].0 + ": "@ + spec_plugin_config_error(d@),
                            ));
                            assert(errors.deep_view() == discovery_errors_upto(
                                root_v,
                                i as int + 1,
                            ));
                        }
                    },
                }
            },
            crate::fstree::FsEntry::File(_) => {
                proof {
                    assert(root_v[i as int].1 is File);
                    assert(found@ == discovered_upto(root_v, i as int + 1));
                    assert(errors.deep_view() == discovery_errors_upto(root_v, i as int + 1));
                }
            },
        }
        i = i + 1;
    }
    if found.len() == 0 && errors.len() > 0 {
        let mut msg = String::from_str("Failed to load any plugins:\n");
        msg.append(crate::manifest::join_error_lines(&errors).as_str());
        Err(ConfigError::ValidationError(msg))
    } else {
        Ok(found)
    }
}

} // verus!
