//! End-to-end scenarios through the manager and the WebAssembly provider:
//! install, discovery, load, invoke, isolation, and the marshalling
//! pre-checks, with guests written in WebAssembly text.

use bud_host::{
    BudCore, ConfigData, DirTree, FileData, FsEntry, Json, PluginError, PluginManager,
    ProviderValue, WasmProvider,
};

fn s(x: &str) -> String {
    x.to_string()
}

fn manifest_json(name: &str) -> Json {
    Json::Obj(vec![
        (s("name"), Json::Str(s(name))),
        (s("version"), Json::Str(s("0.1.0"))),
        (s("description"), Json::Str(s("A test plugin"))),
        (s("author"), Json::Str(s("tester"))),
        (s("permissions"), Json::Arr(vec![])),
    ])
}

fn plugin_dir(name: &str, wat: &str) -> DirTree {
    DirTree {
        entries: vec![
            (
                s("plugin.json"),
                FsEntry::File(FileData { bytes: vec![], json: Some(manifest_json(name)) }),
            ),
            (
                s("main.wasm"),
                FsEntry::File(FileData { bytes: wat.as_bytes().to_vec(), json: None }),
            ),
        ],
    }
}

fn test_config() -> ConfigData {
    ConfigData {
        name: s("test-app"),
        version: s("0.1.0"),
        description: s("A test application"),
    }
}

const SUM_WAT: &str = r#"(module
  (func (export "Sum") (param i32 i32) (result i32)
    local.get 0
    local.get 1
    i32.add))"#;

fn manager_with(plugins: Vec<(String, DirTree)>) -> PluginManager {
    let root = DirTree {
        entries: plugins.into_iter().map(|(n, d)| (n, FsEntry::Dir(d))).collect(),
    };
    PluginManager::new(test_config(), WasmProvider::new(), Some(root)).unwrap()
}

fn loaded_manager(name: &str, wat: &str) -> PluginManager {
    let mut m = manager_with(vec![(s(name), plugin_dir(name, wat))]);
    m.init_provider().expect("Failed to initialize provider");
    m.load(name).expect("Failed to load plugin");
    m
}

#[test]
fn test_plugin_manager_new() {
    let manager = PluginManager::new(test_config(), WasmProvider::new(), None).unwrap();
    assert_eq!(manager.config().name, "test-app");
    assert_eq!(manager.config().version, "0.1.0");
    assert_eq!(manager.config().description, "A test application");
}

#[test]
fn test_plugin_manager_get_all() {
    let mut manager = PluginManager::new(test_config(), WasmProvider::new(), None).unwrap();
    let result = manager.get_all();
    assert!(result.is_ok() || matches!(result, Err(PluginError::LoadError(_))));
}

#[test]
fn test_plugin_manager_get() {
    let mut manager = manager_with(vec![(s("test-plugin"), plugin_dir("test-plugin", SUM_WAT))]);
    let result = manager.get("test-plugin");
    assert!(result.is_ok());
    assert_eq!(result.unwrap().config.name, "test-plugin");
}

#[test]
fn test_plugin_manager_load() {
    let mut manager = manager_with(vec![(s("test-plugin"), plugin_dir("test-plugin", SUM_WAT))]);
    manager.init_provider().expect("Failed to initialize provider");
    let result = manager.load("test-plugin");
    assert!(result.is_ok());
}

#[test]
fn test_plugin_manager_invoke() {
    let mut manager = loaded_manager("test-plugin", SUM_WAT);
    let result = manager.invoke(
        "test-plugin",
        "Sum",
        vec![ProviderValue::I32(1), ProviderValue::I32(2)],
    );
    assert!(result.is_ok(), "Plugin invocation should succeed");
    let value = result.unwrap();
    assert!(
        matches!(value, ProviderValue::I32(3)),
        "Sum(1, 2) should return 3, got {:?}",
        value
    );
}

#[test]
fn happy_path_through_the_facade() {
    let config_json = Json::Obj(vec![
        (s("name"), Json::Str(s("bud"))),
        (s("version"), Json::Str(s("0.1.0"))),
        (s("description"), Json::Str(s("A test configuration"))),
    ]);
    let root = DirTree {
        entries: vec![(s("test-plugin"), FsEntry::Dir(plugin_dir("test-plugin", SUM_WAT)))],
    };
    let mut core = BudCore::builder(WasmProvider::new())
        .build(&config_json, Some(root))
        .expect("the harness must build");
    assert_eq!(core.package_name, "bud");
    assert_eq!(core.config().name, "bud");
    let manager = core.plugin_manager_mut();
    manager.load("test-plugin").expect("Failed to load plugin");
    let value = manager
        .invoke("test-plugin", "Sum", vec![ProviderValue::I32(1), ProviderValue::I32(2)])
        .expect("Plugin invocation should succeed");
    assert!(matches!(value, ProviderValue::I32(3)));
}

#[test]
fn multiple_results_come_back_as_an_array() {
    const PAIR_WAT: &str = r#"(module
      (func (export "Pair") (result i32 i64)
        i32.const 7
        i64.const 99))"#;
    let mut manager = loaded_manager("pair-plugin", PAIR_WAT);
    let value = manager.invoke("pair-plugin", "Pair", vec![]).expect("Pair must succeed");
    match value {
        ProviderValue::Array(items) => {
            assert_eq!(items.len(), 2);
            assert!(matches!(items[0], ProviderValue::I32(7)));
            assert!(matches!(items[1], ProviderValue::I64(99)));
        }
        other => panic!("expected an array, got {:?}", other),
    }
}

#[test]
fn missing_function_fails_and_the_plugin_remains_loaded() {
    let mut manager = loaded_manager("test-plugin", SUM_WAT);
    let result = manager.invoke("test-plugin", "Absent", vec![]);
    match result {
        Err(PluginError::InvokeError(m)) => {
            assert!(m.contains("Absent"), "message should name the function: {}", m);
        }
        other => panic!("expected an invocation failure, got {:?}", other),
    }
    let again = manager.invoke(
        "test-plugin",
        "Sum",
        vec![ProviderValue::I32(2), ProviderValue::I32(3)],
    );
    assert!(matches!(again, Ok(ProviderValue::I32(5))));
}

#[test]
fn non_numeric_argument_is_rejected_before_the_guest_runs() {
    let mut manager = loaded_manager("test-plugin", SUM_WAT);
    let result = manager.invoke(
        "test-plugin",
        "Sum",
        vec![ProviderValue::Bool(true), ProviderValue::I32(2)],
    );
    match result {
        Err(PluginError::InvokeError(m)) => {
            assert!(m.contains("Bool"), "message should name the variant: {}", m);
        }
        other => panic!("expected an invocation failure, got {:?}", other),
    }
}

#[test]
fn duplicate_install_is_rejected_and_state_unchanged() {
    let mut manager = PluginManager::new(test_config(), WasmProvider::new(), None).unwrap();
    let source = plugin_dir("test-plugin", SUM_WAT);
    manager.install(&source).expect("first install must succeed");
    let second = manager.install(&source);
    match second {
        Err(PluginError::InstallError(m)) => {
            assert_eq!(m, "plugin test-plugin is already installed");
        }
        other => panic!("expected an installation failure, got {:?}", other),
    }
    // the installed plugin is intact: it can still be resolved and loaded
    manager.init_provider().expect("Failed to initialize provider");
    manager.load("test-plugin").expect("Failed to load plugin");
    let value = manager
        .invoke("test-plugin", "Sum", vec![ProviderValue::I32(20), ProviderValue::I32(22)])
        .unwrap();
    assert!(matches!(value, ProviderValue::I32(42)));
}

#[test]
fn discovery_skips_garbage_and_returns_the_valid_plugin() {
    let good = plugin_dir("good", SUM_WAT);
    let malformed = DirTree {
        entries: vec![(
            s("plugin.json"),
            FsEntry::File(FileData { bytes: b"not json".to_vec(), json: None }),
        )],
    };
    let empty = DirTree { entries: vec![] };
    let root = DirTree {
        entries: vec![
            (s("good"), FsEntry::Dir(good)),
            (s("broken"), FsEntry::Dir(malformed)),
            (s("hollow"), FsEntry::Dir(empty)),
        ],
    };
    let mut manager = PluginManager::new(test_config(), WasmProvider::new(), Some(root)).unwrap();
    let infos = manager.get_all().expect("one valid plugin suffices");
    assert_eq!(infos.len(), 1);
    assert_eq!(infos[0].config.name, "good");
    assert!(infos[0].path.ends_with("/good"));
    assert!(manager.get("good").is_ok());
}

#[test]
fn discovery_finds_every_valid_plugin() {
    let root = DirTree {
        entries: vec![
            (s("p1"), FsEntry::Dir(plugin_dir("p1", SUM_WAT))),
            (s("junk"), FsEntry::File(FileData { bytes: vec![], json: None })),
            (s("p2"), FsEntry::Dir(plugin_dir("p2", SUM_WAT))),
            (s("noconf"), FsEntry::Dir(DirTree { entries: vec![] })),
        ],
    };
    let mut manager = PluginManager::new(test_config(), WasmProvider::new(), Some(root)).unwrap();
    let infos = manager.get_all().expect("two valid plugins");
    assert_eq!(infos.len(), 2);
}

#[test]
fn discovery_fails_when_every_plugin_is_broken() {
    let root = DirTree {
        entries: vec![(
            s("broken"),
            FsEntry::Dir(DirTree { entries: vec![] }),
        )],
    };
    let mut manager = PluginManager::new(test_config(), WasmProvider::new(), Some(root)).unwrap();
    let result = manager.get_all();
    match result {
        Err(PluginError::LoadError(m)) => {
            assert!(m.contains("Failed to load any plugins"), "got: {}", m);
            assert!(m.contains("broken"), "got: {}", m);
        }
        other => panic!("expected a load failure, got {:?}", other),
    }
}

#[test]
fn invoke_before_load_demands_a_load() {
    let mut manager = manager_with(vec![(s("test-plugin"), plugin_dir("test-plugin", SUM_WAT))]);
    manager.init_provider().expect("Failed to initialize provider");
    let result = manager.invoke("test-plugin", "Sum", vec![]);
    match result {
        Err(PluginError::LoadError(m)) => {
            assert_eq!(m, "Plugin 'test-plugin' not found, You must load the plugin first");
        }
        other => panic!("expected a load failure, got {:?}", other),
    }
}

#[test]
fn loading_without_init_is_rejected() {
    let mut manager = manager_with(vec![(s("test-plugin"), plugin_dir("test-plugin", SUM_WAT))]);
    let result = manager.load("test-plugin");
    match result {
        Err(PluginError::LoadError(m)) => {
            assert!(m.contains("not initialized"), "got: {}", m);
        }
        other => panic!("expected a load failure, got {:?}", other),
    }
}

const COUNTER_WAT: &str = r#"(module
  (global $g (mut i32) (i32.const 0))
  (func (export "Bump") (result i32)
    global.get $g
    i32.const 1
    i32.add
    global.set $g
    global.get $g)
  (func (export "Read") (result i32)
    global.get $g))"#;

#[test]
fn plugins_are_isolated_from_each_other() {
    let mut manager = manager_with(vec![
        (s("left"), plugin_dir("left", COUNTER_WAT)),
        (s("right"), plugin_dir("right", COUNTER_WAT)),
    ]);
    manager.init_provider().expect("Failed to initialize provider");
    manager.load("left").expect("Failed to load plugin");
    manager.load("right").expect("Failed to load plugin");
    manager.invoke("left", "Bump", vec![]).unwrap();
    manager.invoke("left", "Bump", vec![]).unwrap();
    let left = manager.invoke("left", "Read", vec![]).unwrap();
    let right = manager.invoke("right", "Read", vec![]).unwrap();
    assert!(matches!(left, ProviderValue::I32(2)), "left mutated twice");
    assert!(matches!(right, ProviderValue::I32(0)), "right must be untouched");
}

#[test]
fn reloading_replaces_the_instance() {
    let mut manager = manager_with(vec![(s("c"), plugin_dir("c", COUNTER_WAT))]);
    manager.init_provider().expect("Failed to initialize provider");
    manager.load("c").expect("Failed to load plugin");
    manager.invoke("c", "Bump", vec![]).unwrap();
    manager.load("c").expect("reload must succeed");
    let v = manager.invoke("c", "Read", vec![]).unwrap();
    assert!(matches!(v, ProviderValue::I32(0)), "a fresh instance starts over");
}

const IDENTITY_WAT: &str = r#"(module
  (func (export "Id32") (param i32) (result i32) local.get 0)
  (func (export "Id64") (param i64) (result i64) local.get 0)
  (func (export "IdF32") (param f32) (result f32) local.get 0)
  (func (export "IdF64") (param f64) (result f64) local.get 0))"#;

#[test]
fn guest_identity_preserves_every_numeric_bit_pattern() {
    let mut manager = loaded_manager("id", IDENTITY_WAT);
    let r = manager.invoke("id", "Id32", vec![ProviderValue::I32(-123456)]).unwrap();
    assert!(matches!(r, ProviderValue::I32(-123456)));
    let r = manager.invoke("id", "Id64", vec![ProviderValue::I64(i64::MIN)]).unwrap();
    assert!(matches!(r, ProviderValue::I64(x) if x == i64::MIN));
    // a NaN with a payload: transport is by bit pattern, so it survives
    let nan32: u32 = 0x7fc0_0001;
    let r = manager.invoke("id", "IdF32", vec![ProviderValue::F32(nan32)]).unwrap();
    assert!(matches!(r, ProviderValue::F32(b) if b == nan32), "got {:?}", r);
    let nan64: u64 = 0x7ff8_0000_0000_0001;
    let r = manager.invoke("id", "IdF64", vec![ProviderValue::F64(nan64)]).unwrap();
    assert!(matches!(r, ProviderValue::F64(b) if b == nan64), "got {:?}", r);
}

const V128_WAT: &str = r#"(module
  (global $c (mut i32) (i32.const 0))
  (func (export "BadRet") (result v128)
    global.get $c
    i32.const 1
    i32.add
    global.set $c
    v128.const i32x4 1 2 3 4)
  (func (export "Count") (result i32)
    global.get $c))"#;

#[test]
fn non_numeric_result_types_are_rejected_before_the_call() {
    let mut manager = loaded_manager("simd", V128_WAT);
    let result = manager.invoke("simd", "BadRet", vec![]);
    match result {
        Err(PluginError::InvokeError(m)) => {
            assert!(m.contains("unsupported type"), "got: {}", m);
        }
        other => panic!("expected an invocation failure, got {:?}", other),
    }
    // the side-effect counter proves the guest was never entered
    let count = manager.invoke("simd", "Count", vec![]).unwrap();
    assert!(matches!(count, ProviderValue::I32(0)), "the guest must not have run");
}

#[test]
fn get_rejects_a_manifest_named_after_another_directory() {
    // the directory is called `wrongname`, its manifest says `other`
    let mut manager = manager_with(vec![(s("wrongname"), plugin_dir("other", SUM_WAT))]);
    let result = manager.get("wrongname");
    match result {
        Err(PluginError::LoadError(m)) => {
            assert!(m.contains("wrongname"), "got: {}", m);
        }
        other => panic!("expected a load failure, got {:?}", other),
    }
}

#[test]
fn loading_without_an_entry_file_is_rejected() {
    let dir = DirTree {
        entries: vec![(
            s("plugin.json"),
            FsEntry::File(FileData { bytes: vec![], json: Some(manifest_json("bare")) }),
        )],
    };
    let mut manager = manager_with(vec![(s("bare"), dir)]);
    manager.init_provider().expect("Failed to initialize provider");
    let result = manager.load("bare");
    match result {
        Err(PluginError::LoadError(m)) => {
            assert_eq!(m, "Load failed: main.wasm not found");
        }
        other => panic!("expected a load failure, got {:?}", other),
    }
}

#[test]
fn facade_rejects_a_bad_root_configuration() {
    let config_json = Json::Obj(vec![(s("name"), Json::Str(s("bud")))]);
    let result = BudCore::builder(WasmProvider::new()).build(&config_json, None);
    match result {
        Err(bud_host::BudCoreError::Config(bud_host::ConfigError::ValidationError(m))) => {
            assert!(m.contains("Path '/version'"), "got: {}", m);
        }
        Err(other) => panic!("expected a configuration error, got {:?}", other),
        Ok(_) => panic!("a configuration missing fields must be rejected"),
    }
}

#[test]
fn install_is_rejected_when_a_file_occupies_the_destination() {
    let root = DirTree {
        entries: vec![(
            s("test-plugin"),
            FsEntry::File(FileData { bytes: vec![], json: None }),
        )],
    };
    let mut manager = PluginManager::new(test_config(), WasmProvider::new(), Some(root)).unwrap();
    let result = manager.install(&plugin_dir("test-plugin", SUM_WAT));
    match result {
        Err(PluginError::IoError(m)) => {
            assert_eq!(m, "a file stands where the plugin directory would go");
        }
        other => panic!("expected an io error, got {:?}", other),
    }
}

#[test]
fn install_then_discover_then_run() {
    let mut manager = PluginManager::new(test_config(), WasmProvider::new(), None).unwrap();
    manager.install(&plugin_dir("alpha", SUM_WAT)).unwrap();
    manager.install(&plugin_dir("beta", SUM_WAT)).unwrap();
    let infos = manager.get_all().unwrap();
    assert_eq!(infos.len(), 2);
    manager.init_provider().unwrap();
    manager.load("beta").unwrap();
    let v = manager
        .invoke("beta", "Sum", vec![ProviderValue::I32(4), ProviderValue::I32(5)])
        .unwrap();
    assert!(matches!(v, ProviderValue::I32(9)));
}
