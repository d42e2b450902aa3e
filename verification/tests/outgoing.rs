use wasm_bindgen_cli_support::descriptor::{Closure, Descriptor, Function, VectorKind};
use wasm_bindgen_cli_support::wasm_model::ValType;
use wasm_bindgen_cli_support::wit::outgoing::{
    AdapterType, ClosureDtor, Instruction, InstructionBuilder, Op, OutgoingError,
};

fn builder(memory64: bool, memory: Option<usize>, free: Option<usize>) -> InstructionBuilder {
    InstructionBuilder {
        ops: Vec::new(),
        return_position: false,
        memory64,
        ptr_ty: if memory64 { AdapterType::I64 } else { AdapterType::I32 },
        memory,
        free,
    }
}

fn instr(inputs: Vec<AdapterType>, instr: Instruction, outputs: Vec<AdapterType>) -> Op {
    Op::Instr { inputs, instr, outputs }
}

fn opt(t: AdapterType) -> AdapterType {
    AdapterType::Option(Box::new(t))
}

fn b(d: Descriptor) -> Box<Descriptor> {
    Box::new(d)
}

#[test]
fn a_boolean_is_read_from_an_i32() {
    let mut bld = builder(false, Some(0), Some(3));
    assert_eq!(bld.outgoing(&Descriptor::Boolean), Ok(()));
    assert_eq!(
        bld.ops,
        vec![instr(vec![AdapterType::I32], Instruction::BoolFromI32, vec![AdapterType::Bool])]
    );
}

#[test]
fn unit_emits_nothing() {
    let mut bld = builder(false, None, None);
    assert_eq!(bld.outgoing(&Descriptor::Unit), Ok(()));
    assert!(bld.ops.is_empty());
}

#[test]
fn an_owned_string_is_freed_after_it_is_read() {
    let mut bld = builder(false, Some(2), Some(7));
    assert_eq!(bld.outgoing(&Descriptor::String), Ok(()));
    assert_eq!(
        bld.ops,
        vec![
            Op::Get(AdapterType::I32),
            Op::Get(AdapterType::I32),
            Op::Push { instr: Instruction::DeferFree { free: 7, align: 1 }, popped: 2, pushed: 2 },
            Op::Push { instr: Instruction::MemoryToString(2), popped: 2, pushed: 1 },
            Op::Output(AdapterType::String),
        ]
    );
}

#[test]
fn a_string_without_free_fails_after_reading_its_words() {
    let mut bld = builder(false, Some(2), None);
    assert_eq!(bld.outgoing(&Descriptor::String), Err(OutgoingError::NoFree));
    assert_eq!(bld.ops, vec![Op::Get(AdapterType::I32), Op::Get(AdapterType::I32)]);
}

#[test]
fn a_shared_slice_is_a_view_of_memory() {
    let mut bld = builder(false, Some(1), Some(4));
    let d = Descriptor::Ref(b(Descriptor::Slice(b(Descriptor::U8))));
    assert_eq!(bld.outgoing(&d), Ok(()));
    assert_eq!(
        bld.ops,
        vec![instr(
            vec![AdapterType::I32, AdapterType::I32],
            Instruction::View { kind: VectorKind::U8, mem: 1 },
            vec![AdapterType::Vector(VectorKind::U8)],
        )]
    );
}

#[test]
fn an_optional_i32_uses_a_float_sentinel() {
    let mut bld = builder(false, None, None);
    assert_eq!(bld.outgoing(&Descriptor::Option(b(Descriptor::I32))), Ok(()));
    assert_eq!(
        bld.ops,
        vec![instr(vec![AdapterType::F64], Instruction::OptionF64Sentinel, vec![opt(AdapterType::S32)])]
    );
}

#[test]
fn an_optional_i64_carries_a_flag() {
    let mut bld = builder(false, None, None);
    assert_eq!(bld.outgoing(&Descriptor::Option(b(Descriptor::U64))), Ok(()));
    assert_eq!(
        bld.ops,
        vec![instr(
            vec![AdapterType::I32, AdapterType::I64],
            Instruction::ToOptionNative { signed: false, ty: ValType::I64 },
            vec![opt(AdapterType::I64)],
        )]
    );
}

#[test]
fn a_result_throws_before_its_value_and_reads_its_error_last() {
    let mut bld = builder(false, None, None);
    assert_eq!(bld.outgoing(&Descriptor::Result(b(Descriptor::Unit))), Ok(()));
    assert_eq!(
        bld.ops,
        vec![
            Op::Push { instr: Instruction::UnwrapResult, popped: 2, pushed: 0 },
            Op::Get(AdapterType::I32),
            Op::Get(AdapterType::I32),
        ]
    );
    let mut bld = builder(false, None, None);
    assert_eq!(bld.outgoing(&Descriptor::Result(b(Descriptor::U8))), Ok(()));
    assert_eq!(bld.ops.len(), 4);
    assert_eq!(
        bld.ops[1],
        instr(vec![AdapterType::I32], Instruction::WasmToInt32 { unsigned_32: false }, vec![AdapterType::U8])
    );
}

#[test]
fn a_result_of_a_string_unwraps_before_freeing() {
    let mut bld = builder(false, Some(0), Some(9));
    assert_eq!(bld.outgoing(&Descriptor::Result(b(Descriptor::String))), Ok(()));
    assert_eq!(bld.ops.len(), 8);
    assert_eq!(bld.ops[4], Op::Push { instr: Instruction::UnwrapResultString, popped: 4, pushed: 2 });
    assert_eq!(bld.ops[7], Op::Output(AdapterType::String));
}

#[test]
fn each_error_has_its_input() {
    let cases = vec![
        (Descriptor::Slice(b(Descriptor::U8)), OutgoingError::UnsupportedSlice),
        (Descriptor::Vector(b(Descriptor::Boolean)), OutgoingError::UnsupportedArgument),
        (Descriptor::Result(b(Descriptor::Slice(b(Descriptor::U8)))), OutgoingError::UnsupportedResult),
        (Descriptor::Option(b(Descriptor::Unit)), OutgoingError::UnsupportedOption),
        (Descriptor::RefMut(b(Descriptor::U8)), OutgoingError::UnsupportedBehindRef),
        (Descriptor::Ref(b(Descriptor::RefMut(b(Descriptor::U8)))), OutgoingError::UnsupportedRefArgument),
        (Descriptor::Option(b(Descriptor::Ref(b(Descriptor::U8)))), OutgoingError::UnsupportedOptionRef),
        (
            Descriptor::Option(b(Descriptor::Vector(b(Descriptor::Boolean)))),
            OutgoingError::UnsupportedOptionalSlice,
        ),
        (
            Descriptor::Option(b(Descriptor::Ref(b(Descriptor::Vector(b(Descriptor::Boolean)))))),
            OutgoingError::UnsupportedOptionalVector,
        ),
    ];
    for (d, e) in cases {
        let mut bld = builder(false, Some(0), Some(1));
        assert_eq!(bld.outgoing(&d), Err(e), "{d:?}");
        assert!(bld.ops.is_empty() || matches!(d, Descriptor::Result(_)));
    }
    let mut bld = builder(false, None, Some(1));
    assert_eq!(bld.outgoing(&Descriptor::CachedString), Err(OutgoingError::NoMemory));
    let mut bld = builder(false, Some(0), None);
    assert_eq!(bld.outgoing(&Descriptor::Vector(b(Descriptor::U8))), Err(OutgoingError::NoFree));
}

#[test]
fn a_shared_scalar_reference_is_the_scalar() {
    let mut by_ref = builder(false, None, None);
    let mut by_value = builder(false, None, None);
    assert_eq!(by_ref.outgoing(&Descriptor::Ref(b(Descriptor::U32))), Ok(()));
    assert_eq!(by_value.outgoing(&Descriptor::U32), Ok(()));
    assert_eq!(by_ref.ops, by_value.ops);
    assert_eq!(
        by_ref.ops,
        vec![instr(vec![AdapterType::I32], Instruction::WasmToInt32 { unsigned_32: true }, vec![AdapterType::U32])]
    );
}

#[test]
fn a_closure_gets_two_pointer_words() {
    let f = Function {
        arguments: vec![Descriptor::U8, Descriptor::String],
        shim_idx: 5,
        ret: Descriptor::Unit,
        inner_ret: None,
    };
    let mut bld = builder(true, Some(0), Some(1));
    let d = Descriptor::Closure(Box::new(Closure { owned: true, function: f.clone(), mutable: true }));
    assert_eq!(bld.outgoing(&d), Ok(()));
    assert_eq!(
        bld.ops,
        vec![Op::Closure {
            function: f,
            word: Descriptor::I64AsF64,
            shim_idx: 5,
            nargs: 2,
            mutable: true,
            dtor: ClosureDtor::OwnClosure,
        }]
    );
}

#[test]
fn a_struct_pointer_is_a_float_on_memory64() {
    let mut bld = builder(true, None, None);
    assert_eq!(bld.outgoing(&Descriptor::RustStruct("Foo".to_string())), Ok(()));
    assert_eq!(
        bld.ops,
        vec![instr(
            vec![AdapterType::F64],
            Instruction::RustFromI32 { class: "Foo".to_string() },
            vec![AdapterType::Struct("Foo".to_string())],
        )]
    );
}

#[test]
fn an_outgoing_error_names_its_cause() {
    assert_eq!(OutgoingError::NoFree.message(), "failed to find `__wbindgen_free` intrinsic");
}

fn shape(ops: &[Op]) -> (usize, usize) {
    let mut inputs = 0;
    let mut outputs = 0;
    for op in ops {
        match op {
            Op::Instr { inputs: i, outputs: o, .. } => {
                inputs += i.len();
                outputs += o.len();
            }
            Op::Get(_) => inputs += 1,
            Op::Output(_) => outputs += 1,
            Op::Push { .. } => {}
            Op::Closure { .. } => {
                inputs += 2;
                outputs += 1;
            }
        }
    }
    (inputs, outputs)
}

#[test]
fn a_lowered_value_takes_inputs_and_makes_one_output() {
    let f = Function { arguments: Vec::new(), shim_idx: 0, ret: Descriptor::Unit, inner_ret: None };
    let cases = vec![
        (Descriptor::String, 1),
        (Descriptor::U128, 1),
        (Descriptor::Option(b(Descriptor::I64)), 1),
        (Descriptor::Result(b(Descriptor::String)), 1),
        (Descriptor::Result(b(Descriptor::Option(b(Descriptor::U8)))), 1),
        (Descriptor::Function(Box::new(f)), 1),
        (Descriptor::Result(b(Descriptor::Unit)), 0),
    ];
    for (d, outputs) in cases {
        let mut bld = builder(false, Some(0), Some(1));
        assert_eq!(bld.outgoing(&d), Ok(()), "{d:?}");
        let (i, o) = shape(&bld.ops);
        assert!(i > 0, "{d:?}");
        assert_eq!(o, outputs, "{d:?}");
    }
}
