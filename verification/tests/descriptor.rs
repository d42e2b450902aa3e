use wasm_bindgen_cli_support::descriptor::{Closure, Descriptor, Function, VectorKind};
use wasm_bindgen_cli_support::wit::outgoing::{closure_word_descriptor, is_scalar_by_shared_ref};

#[test]
fn vector_kind_accepts_memory64_scalar_descriptors() {
    assert_eq!(
        Descriptor::Vector(Box::new(Descriptor::U64AsF64)).vector_kind(),
        Some(VectorKind::U64)
    );
    assert_eq!(
        Descriptor::Ref(Box::new(Descriptor::Slice(Box::new(Descriptor::I64AsF64)))).vector_kind(),
        Some(VectorKind::I64)
    );
}

#[test]
fn closure_word_descriptor_uses_number_abi_on_memory64() {
    assert_eq!(closure_word_descriptor(true), Descriptor::I64AsF64);
    assert_eq!(closure_word_descriptor(false), Descriptor::I32);
}

/// Every `Descriptor` variant, so the tests below can enumerate the accepted
/// set rather than restating it.
fn all_descriptor_variants() -> Vec<Descriptor> {
    let f = || Function {
        arguments: Vec::new(),
        shim_idx: 0,
        ret: Descriptor::Unit,
        inner_ret: None,
    };
    vec![
        Descriptor::I8,
        Descriptor::U8,
        Descriptor::ClampedU8,
        Descriptor::I16,
        Descriptor::U16,
        Descriptor::I32,
        Descriptor::U32,
        Descriptor::I64,
        Descriptor::U64,
        Descriptor::I64AsF64,
        Descriptor::U64AsF64,
        Descriptor::I128,
        Descriptor::U128,
        Descriptor::F32,
        Descriptor::F64,
        Descriptor::Boolean,
        Descriptor::Function(Box::new(f())),
        Descriptor::Closure(Box::new(Closure {
            owned: false,
            function: f(),
            mutable: false,
        })),
        Descriptor::Ref(Box::new(Descriptor::Unit)),
        Descriptor::RefMut(Box::new(Descriptor::Unit)),
        Descriptor::Slice(Box::new(Descriptor::U8)),
        Descriptor::Vector(Box::new(Descriptor::U8)),
        Descriptor::CachedString,
        Descriptor::String,
        Descriptor::Externref,
        Descriptor::NamedExternref("X".into()),
        Descriptor::Enum {
            name: "E".into(),
            hole: 0,
        },
        Descriptor::StringEnum {
            name: "S".into(),
            invalid: 0,
            hole: 1,
        },
        Descriptor::DynamicUnion {
            name: "D".into(),
            variant_types: Vec::new(),
        },
        Descriptor::RustStruct("R".into()),
        Descriptor::Char,
        Descriptor::Option(Box::new(Descriptor::U8)),
        Descriptor::Result(Box::new(Descriptor::U8)),
        Descriptor::Unit,
        Descriptor::NonNull,
        Descriptor::RawPointer,
    ]
}

#[test]
fn scalar_by_shared_ref_set_is_exactly_the_scalars() {
    let accepted: Vec<_> = all_descriptor_variants()
        .into_iter()
        .filter(is_scalar_by_shared_ref)
        .collect();

    assert_eq!(
        accepted,
        vec![
            Descriptor::I8,
            Descriptor::U8,
            Descriptor::I16,
            Descriptor::U16,
            Descriptor::I32,
            Descriptor::U32,
            Descriptor::I64,
            Descriptor::U64,
            Descriptor::I64AsF64,
            Descriptor::U64AsF64,
            Descriptor::I128,
            Descriptor::U128,
            Descriptor::F32,
            Descriptor::F64,
            Descriptor::Boolean,
            Descriptor::Char,
        ],
    );
}

#[test]
fn vector_kinds_sizes_and_js_types() {
    assert_eq!(Descriptor::Vector(Box::new(Descriptor::U8)).vector_kind(), Some(VectorKind::U8));
    assert_eq!(Descriptor::Vector(Box::new(Descriptor::Unit)).vector_kind(), None);
    assert_eq!(VectorKind::U8.size(), 1);
    assert_eq!(VectorKind::U16.size(), 2);
    assert_eq!(VectorKind::F64.size(), 8);
    assert_eq!(VectorKind::U8.js_ty(), "Uint8Array");
    assert_eq!(VectorKind::F64.js_ty(), "Float64Array");
}

#[test]
fn unwrap_function_gives_the_function() {
    let f = Function {
        arguments: vec![Descriptor::I32],
        shim_idx: 7,
        ret: Descriptor::Unit,
        inner_ret: None,
    };
    let g = Descriptor::Function(Box::new(f)).unwrap_function();
    assert_eq!(g.shim_idx, 7);
    assert_eq!(g.arguments, vec![Descriptor::I32]);
}
