use wasm_bindgen_cli_support::normalize::{is_internal_export_with_hash, normalize_exports, push_hex16};
use wasm_bindgen_cli_support::wasm_model::{Export, ExportItem, Func, FuncType, FunctionKind, Module};

#[test]
fn test_internal_export_detection() {
    // Should match internal exports with valid hash suffixes
    assert!(is_internal_export_with_hash(
        "wasm_bindgen__convert__closures_____invoke__h0123456789abcdef"
    )
    .is_some());
    assert!(
        is_internal_export_with_hash("wasm_bindgen__closure__destroy__he0c82e5427fd1a46").is_some()
    );

    // Should NOT match user exports (no known prefix)
    assert!(is_internal_export_with_hash("compute_h0123456789abcdef").is_none());
    assert!(is_internal_export_with_hash("foo__h0123456789abcdef").is_none());

    // Should NOT match if hash is wrong length
    assert!(is_internal_export_with_hash("wasm_bindgen__closure__destroy__h123").is_none());
    assert!(
        is_internal_export_with_hash("wasm_bindgen__closure__destroy__h0123456789abcdefg").is_none()
    );
}

#[test]
fn detection_returns_the_prefix() {
    assert_eq!(
        is_internal_export_with_hash("wasm_bindgen__closure__destroy__habcdef0123456789"),
        Some("wasm_bindgen__closure__destroy__")
    );
    // Only lower-case hex digits make a hash.
    assert_eq!(
        is_internal_export_with_hash("wasm_bindgen__closure__destroy__hABCDEF0123456789"),
        None
    );
    assert_eq!(
        is_internal_export_with_hash("wasm_bindgen__closure__destroy__x0123456789abcdef"),
        None
    );
}

#[test]
fn hex16_is_zero_padded_lowercase() {
    let mut s = String::new();
    push_hex16(&mut s, 0x2a);
    assert_eq!(s, "000000000000002a");
    let mut t = String::from(">");
    push_hex16(&mut t, u64::MAX);
    assert_eq!(t, ">ffffffffffffffff");
}

fn func(ty: usize) -> Func {
    Func { ty, name: None, kind: FunctionKind::Uninitialized }
}

#[test]
fn exports_are_renumbered_per_prefix_in_type_order() {
    let mut m = Module {
        types: vec![
            FuncType { params: vec![], results: vec![] },
            FuncType { params: vec![], results: vec![] },
        ],
        funcs: vec![func(1), func(0), func(0)],
        globals: vec![],
        imports: vec![],
        exports: vec![
            Export {
                name: "wasm_bindgen__closure__destroy__h7a3b9c2d1e4f5678".into(),
                item: ExportItem::Function(0),
            },
            Export { name: "user_export".into(), item: ExportItem::Function(1) },
            Export {
                name: "wasm_bindgen__closure__destroy__h0000000000000fff".into(),
                item: ExportItem::Function(1),
            },
            Export {
                name: "wasm_bindgen__convert__closures_____invoke__haaaaaaaaaaaaaaaa".into(),
                item: ExportItem::Function(2),
            },
        ],
        memories: vec![],
        tables: vec![],
        elements: vec![],
        tags: vec![],
        customs: vec![],
        start: None,
    };
    // Type 0 sorts before type 1.
    normalize_exports(&mut m, &vec![0, 1]);
    assert_eq!(m.exports[0].name, "wasm_bindgen__closure__destroy__h0000000000000001");
    assert_eq!(m.exports[1].name, "user_export");
    assert_eq!(m.exports[2].name, "wasm_bindgen__closure__destroy__h0000000000000000");
    assert_eq!(
        m.exports[3].name,
        "wasm_bindgen__convert__closures_____invoke__h0000000000000000"
    );
}
