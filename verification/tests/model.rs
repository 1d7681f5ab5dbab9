//! Marshalling rules and the directory-tree model, including the recursive
//! copy.

use bud_host::{
    copy_dir_recursive, provider_value_to_val, unmarshal_results, val_to_provider_value, DirTree,
    FileData, FsEntry, Json, ProviderError, ProviderValue, WasmVal,
};

fn s(x: &str) -> String {
    x.to_string()
}

fn file(bytes: &[u8]) -> FsEntry {
    FsEntry::File(FileData { bytes: bytes.to_vec(), json: None })
}

fn dir(entries: Vec<(String, FsEntry)>) -> FsEntry {
    FsEntry::Dir(DirTree { entries })
}

#[test]
fn numeric_values_marshal_exactly() {
    assert!(matches!(
        provider_value_to_val(&ProviderValue::I32(-7)),
        Ok(WasmVal::I32(-7))
    ));
    assert!(matches!(
        provider_value_to_val(&ProviderValue::I64(1 << 40)),
        Ok(WasmVal::I64(x)) if x == 1 << 40
    ));
    assert!(matches!(
        provider_value_to_val(&ProviderValue::F32(0x7fc0_0001)),
        Ok(WasmVal::F32(0x7fc0_0001))
    ));
    assert!(matches!(
        provider_value_to_val(&ProviderValue::F64(0x7ff8_0000_0000_0001)),
        Ok(WasmVal::F64(0x7ff8_0000_0000_0001))
    ));
}

#[test]
fn null_is_rejected_with_guidance() {
    match provider_value_to_val(&ProviderValue::Null) {
        Err(ProviderError::InvocationFailed(m)) => {
            assert_eq!(
                m,
                "Null type not supported for WASM calls. Use I32(0) if a zero value is needed."
            );
        }
        other => panic!("expected an invocation failure, got {:?}", other),
    }
}

#[test]
fn bool_is_rejected_with_guidance() {
    match provider_value_to_val(&ProviderValue::Bool(true)) {
        Err(ProviderError::InvocationFailed(m)) => {
            assert_eq!(
                m,
                "Bool type not supported for WASM calls. Convert to I32(0) for false or I32(1) for true."
            );
        }
        other => panic!("expected an invocation failure, got {:?}", other),
    }
}

#[test]
fn composite_values_are_rejected() {
    for v in [
        ProviderValue::String(s("x")),
        ProviderValue::Array(vec![]),
        ProviderValue::Object(vec![]),
    ] {
        match provider_value_to_val(&v) {
            Err(ProviderError::InvocationFailed(m)) => {
                assert_eq!(
                    m,
                    "Complex types (String, Array, Object) not supported for WASM calls."
                );
            }
            other => panic!("expected an invocation failure, got {:?}", other),
        }
    }
}

#[test]
fn unmarshalling_is_the_inverse_on_numerics() {
    for w in [
        WasmVal::I32(5),
        WasmVal::I64(-9),
        WasmVal::F32(0x7fc0_0001),
        WasmVal::F64(3),
    ] {
        let v = val_to_provider_value(&w);
        assert!(matches!(provider_value_to_val(&v), Ok(x) if x == w));
    }
}

#[test]
fn result_buffers_render_as_null_value_or_array() {
    assert!(matches!(unmarshal_results(&vec![]), ProviderValue::Null));
    assert!(matches!(
        unmarshal_results(&vec![WasmVal::I32(3)]),
        ProviderValue::I32(3)
    ));
    match unmarshal_results(&vec![WasmVal::I32(7), WasmVal::I64(99)]) {
        ProviderValue::Array(items) => {
            assert!(matches!(items[0], ProviderValue::I32(7)));
            assert!(matches!(items[1], ProviderValue::I64(99)));
            assert_eq!(items.len(), 2);
        }
        other => panic!("expected an array, got {:?}", other),
    }
}

#[test]
fn copy_into_empty_reproduces_the_source() {
    let src = DirTree {
        entries: vec![
            (s("plugin.json"), file(b"{}")),
            (
                s("assets"),
                dir(vec![(s("logo"), file(b"\x89PNG")), (s("sub"), dir(vec![]))]),
            ),
        ],
    };
    let out = copy_dir_recursive(&src, DirTree::new()).expect("copy into empty must succeed");
    assert_eq!(out.entries.len(), 2);
    assert_eq!(out.entries[0].0, "plugin.json");
    match &out.entries[1].1 {
        FsEntry::Dir(d) => {
            assert_eq!(d.entries.len(), 2);
            match &d.entries[0].1 {
                FsEntry::File(f) => assert_eq!(f.bytes, b"\x89PNG".to_vec()),
                _ => panic!("expected a file"),
            }
        }
        _ => panic!("expected a directory"),
    }
}

#[test]
fn copy_overwrites_files_and_merges_directories() {
    let dst = DirTree {
        entries: vec![
            (s("keep"), file(b"old")),
            (s("shared"), dir(vec![(s("a"), file(b"1"))])),
        ],
    };
    let src = DirTree {
        entries: vec![
            (s("keep"), file(b"new")),
            (s("shared"), dir(vec![(s("b"), file(b"2"))])),
        ],
    };
    let out = copy_dir_recursive(&src, dst).expect("merge must succeed");
    match &out.entries[0].1 {
        FsEntry::File(f) => assert_eq!(f.bytes, b"new".to_vec()),
        _ => panic!("expected a file"),
    }
    match &out.entries[1].1 {
        FsEntry::Dir(d) => assert_eq!(d.entries.len(), 2),
        _ => panic!("expected a directory"),
    }
}

#[test]
fn copy_rejects_a_file_colliding_with_a_directory() {
    let dst = DirTree { entries: vec![(s("x"), dir(vec![]))] };
    let src = DirTree { entries: vec![(s("x"), file(b"f"))] };
    let e = copy_dir_recursive(&src, dst).unwrap_err();
    assert_eq!(e, "an entry is a file on one side and a directory on the other");
}

#[test]
fn json_deep_clone_is_structural() {
    let j = Json::Obj(vec![
        (s("a"), Json::Arr(vec![Json::Bool(true), Json::Num(s("4.5"))])),
        (s("b"), Json::Null),
    ]);
    let c = j.deep_clone();
    match (&j, &c) {
        (Json::Obj(x), Json::Obj(y)) => {
            assert_eq!(x.len(), y.len());
            assert_eq!(x[0].0, y[0].0);
            assert!(matches!(&y[1].1, Json::Null));
        }
        _ => panic!("expected objects"),
    }
}
