//! Manifest and root-configuration validation, the name and version
//! patterns, and the manifest round trip.

use bud_host::{
    is_valid_name, is_valid_semver, manifest_to_json, validate_plugin_manifest,
    validate_root_config, ConfigError, Json, PluginConfigData,
};

fn s(x: &str) -> String {
    x.to_string()
}

fn manifest_obj(name: &str, version: &str, description: &str, author: &str, perms: &[&str]) -> Json {
    Json::Obj(vec![
        (s("name"), Json::Str(s(name))),
        (s("version"), Json::Str(s(version))),
        (s("description"), Json::Str(s(description))),
        (s("author"), Json::Str(s(author))),
        (
            s("permissions"),
            Json::Arr(perms.iter().map(|p| Json::Str(s(p))).collect()),
        ),
    ])
}

#[test]
fn name_pattern_accepts_letters_digits_underscore_hyphen() {
    assert!(is_valid_name("test-plugin"));
    assert!(is_valid_name("A_b-9"));
    assert!(is_valid_name("x"));
    assert!(!is_valid_name(""));
    assert!(!is_valid_name("has space"));
    assert!(!is_valid_name("dot.name"));
    assert!(!is_valid_name("naïve"));
}

#[test]
fn version_pattern_accepts_semver() {
    assert!(is_valid_semver("1.2.3"));
    assert!(is_valid_semver("0.1.0"));
    assert!(is_valid_semver("10.20.30"));
    assert!(is_valid_semver("1.2.3-alpha.1"));
    assert!(is_valid_semver("1.2.3+build-7"));
    assert!(is_valid_semver("1.2.3-alpha.1+build.2"));
    assert!(is_valid_semver("1.2.3-x-y.z"));
}

#[test]
fn version_pattern_rejects_malformed() {
    assert!(!is_valid_semver(""));
    assert!(!is_valid_semver("1.2"));
    assert!(!is_valid_semver("1.2.3.4"));
    assert!(!is_valid_semver("a.b.c"));
    assert!(!is_valid_semver("1.2.3-"));
    assert!(!is_valid_semver("1.2.3+"));
    assert!(!is_valid_semver("1.2.3-alpha+"));
    assert!(!is_valid_semver("1.2.3 "));
    assert!(!is_valid_semver("v1.2.3"));
    assert!(!is_valid_semver("1..3"));
}

#[test]
fn manifest_validation_accepts_schema() {
    let j = manifest_obj(
        "test-plugin",
        "0.1.0",
        "A test plugin",
        "someone",
        &["read", "write"],
    );
    let m = validate_plugin_manifest(&j).expect("schema-satisfying manifest must validate");
    assert_eq!(m.name, "test-plugin");
    assert_eq!(m.version, "0.1.0");
    assert_eq!(m.description, "A test plugin");
    assert_eq!(m.author, "someone");
    assert_eq!(m.permissions, vec![s("read"), s("write")]);
}

#[test]
fn manifest_validation_collects_every_missing_field() {
    let j = Json::Obj(vec![]);
    let e = validate_plugin_manifest(&j).unwrap_err();
    match e {
        ConfigError::ValidationError(msg) => {
            assert_eq!(
                msg,
                "Path '/name': required property is missing\n\
                 Path '/version': required property is missing\n\
                 Path '/description': required property is missing\n\
                 Path '/author': required property is missing\n\
                 Path '/permissions': required property is missing"
            );
        }
        other => panic!("expected a validation error, got {:?}", other),
    }
}

#[test]
fn manifest_validation_reports_each_offending_field() {
    let j = Json::Obj(vec![
        (s("name"), Json::Str(s("bad name"))),
        (s("version"), Json::Str(s("1.2"))),
        (s("description"), Json::Str(s(""))),
        (s("author"), Json::Bool(true)),
        (s("permissions"), Json::Str(s("read"))),
    ]);
    let e = validate_plugin_manifest(&j).unwrap_err();
    match e {
        ConfigError::ValidationError(msg) => {
            assert_eq!(
                msg,
                "Path '/name': does not match the name pattern\n\
                 Path '/version': does not match the version pattern\n\
                 Path '/description': must not be empty\n\
                 Path '/author': expected a string\n\
                 Path '/permissions': expected an array"
            );
        }
        other => panic!("expected a validation error, got {:?}", other),
    }
}

#[test]
fn manifest_validation_rejects_non_object() {
    let e = validate_plugin_manifest(&Json::Str(s("nope"))).unwrap_err();
    match e {
        ConfigError::ValidationError(msg) => {
            assert_eq!(msg, "Path '': expected an object");
        }
        other => panic!("expected a validation error, got {:?}", other),
    }
}

#[test]
fn manifest_validation_rejects_duplicate_permissions() {
    let j = manifest_obj("p", "1.0.0", "d", "a", &["read", "read"]);
    let e = validate_plugin_manifest(&j).unwrap_err();
    match e {
        ConfigError::ValidationError(msg) => {
            assert_eq!(msg, "Path '/permissions': items are not unique");
        }
        other => panic!("expected a validation error, got {:?}", other),
    }
}

#[test]
fn manifest_validation_rejects_non_string_permission() {
    let j = Json::Obj(vec![
        (s("name"), Json::Str(s("p"))),
        (s("version"), Json::Str(s("1.0.0"))),
        (s("description"), Json::Str(s("d"))),
        (s("author"), Json::Str(s("a"))),
        (s("permissions"), Json::Arr(vec![Json::Str(s("read")), Json::Bool(false)])),
    ]);
    let e = validate_plugin_manifest(&j).unwrap_err();
    match e {
        ConfigError::ValidationError(msg) => {
            assert_eq!(msg, "Path '/permissions': expected an array of strings");
        }
        other => panic!("expected a validation error, got {:?}", other),
    }
}

#[test]
fn manifest_validation_allows_extra_fields() {
    let mut fields = vec![(s("comment"), Json::Str(s("extra")))];
    match manifest_obj("p", "1.0.0", "d", "a", &[]) {
        Json::Obj(entries) => fields.extend(entries),
        _ => unreachable!(),
    }
    let j = Json::Obj(fields);
    assert!(validate_plugin_manifest(&j).is_ok());
}

#[test]
fn test_parse_valid_config() {
    let j = Json::Obj(vec![
        (s("name"), Json::Str(s("bud"))),
        (s("version"), Json::Str(s("0.1.0"))),
        (s("description"), Json::Str(s("A test configuration"))),
    ]);
    let result = validate_root_config(&j);
    assert!(result.is_ok());
    let config = result.unwrap();
    assert_eq!(config.name, "bud");
    assert_eq!(config.version, "0.1.0");
    assert_eq!(config.description, "A test configuration");
}

#[test]
fn root_config_validation_requires_all_three_fields() {
    let j = Json::Obj(vec![(s("name"), Json::Str(s("bud")))]);
    let e = validate_root_config(&j).unwrap_err();
    match e {
        ConfigError::ValidationError(msg) => {
            assert_eq!(
                msg,
                "Path '/version': required property is missing\n\
                 Path '/description': required property is missing"
            );
        }
        other => panic!("expected a validation error, got {:?}", other),
    }
}

#[test]
fn manifest_round_trip_preserves_the_record() {
    let m = PluginConfigData {
        name: s("rt-plugin"),
        version: s("2.0.1-rc.1+meta"),
        description: s("round trip"),
        author: s("author"),
        permissions: vec![s("a"), s("b")],
    };
    let j = manifest_to_json(&m);
    let back = validate_plugin_manifest(&j).expect("rendered manifest must validate");
    assert_eq!(back.name, m.name);
    assert_eq!(back.version, m.version);
    assert_eq!(back.description, m.description);
    assert_eq!(back.author, m.author);
    assert_eq!(back.permissions, m.permissions);
}
