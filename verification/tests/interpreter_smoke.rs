use std::collections::HashMap;
use walrus::ir::BinaryOp as B;
use walrus::ir::Instr as I;
use walrus::ir::UnaryOp as U;
use walrus::ModuleConfig;
use walrus::AbstractHeapType as A;
use wasm_bindgen_cli_support::interpreter::setup::eval_const;
use wasm_bindgen_cli_support::interpreter::Interpreter;
use wasm_bindgen_cli_support::descriptors::execute_exports;
use wasm_bindgen_cli_support::transforms::jspi_hooks::Hooks;
use wasm_bindgen_cli_support::wasm_conventions::{
    evaluate_const_expr, get_function_table_entry, get_memory, get_stack_pointer, get_tls_base,
    insert_target_feature, target_feature,
};
use wasm_bindgen_cli_support::transforms::memory_discard::{memory_discard_plan, run as memory_discard_run, DiscardPlan};
use wasm_bindgen_cli_support::transforms::catch_handler::rewrite_calls;
use wasm_bindgen_cli_support::transforms::{
    detect_exception_handling_version, has_local_exception_tags, unstart_start_function,
    ExceptionHandlingVersion,
};
use walrus::{FunctionBuilder, RefType};
use wasm_bindgen_cli_support::wasm_model::{
    BinaryOp, ConstExpr, ConstOp, Element, ElementItems, ElementKind, Export, ExportItem, Func,
    FuncType, FunctionKind, Global, GlobalKind, Import, ImportKind, Instr, LoadKind, LocalFunction,
    Memory, Module, Table, Tag, TryTableCatch, UnaryOp, ValType, Value, HeapType, AbstractHeapType, CustomSection,
};

/// Index maps from walrus ids to positions in the plain model.
struct Ids {
    funcs: HashMap<walrus::FunctionId, usize>,
    globals: HashMap<walrus::GlobalId, usize>,
}

fn val_type(t: walrus::ValType) -> ValType {
    match t {
        walrus::ValType::I32 => ValType::I32,
        walrus::ValType::I64 => ValType::I64,
        walrus::ValType::F32 => ValType::F32,
        walrus::ValType::F64 => ValType::F64,
        walrus::ValType::V128 => ValType::V128,
        walrus::ValType::Ref(r) => ValType::Ref(ref_type(r)),
    }
}

fn ref_type(r: walrus::RefType) -> wasm_bindgen_cli_support::wasm_model::RefType {
    let abstract_heap = |a: A| match a {
        A::Func => AbstractHeapType::Func,
        A::Extern => AbstractHeapType::Extern,
        A::Any => AbstractHeapType::Any,
        A::None => AbstractHeapType::Bottom,
        A::NoExtern => AbstractHeapType::NoExtern,
        A::NoFunc => AbstractHeapType::NoFunc,
        A::Eq => AbstractHeapType::Eq,
        A::Struct => AbstractHeapType::Struct,
        A::Array => AbstractHeapType::Array,
        A::I31 => AbstractHeapType::I31,
        A::Exn => AbstractHeapType::Exn,
        A::NoExn => AbstractHeapType::NoExn,
        other => panic!("unknown heap type {other:?}"),
    };
    let heap = match r.heap_type {
        walrus::HeapType::Abstract(a) => HeapType::Abstract(abstract_heap(a)),
        walrus::HeapType::Concrete(id) => HeapType::Concrete(id.index() as u32),
        walrus::HeapType::Exact(id) => HeapType::Exact(id.index() as u32),
        other => panic!("unknown heap type {other:?}"),
    };
    wasm_bindgen_cli_support::wasm_model::RefType { nullable: r.nullable, heap }
}

fn value(v: &walrus::ir::Value) -> Value {
    match *v {
        walrus::ir::Value::I32(n) => Value::I32(n),
        walrus::ir::Value::I64(n) => Value::I64(n),
        walrus::ir::Value::F32(f) => Value::F32Bits(f.to_bits()),
        walrus::ir::Value::F64(f) => Value::F64Bits(f.to_bits()),
        walrus::ir::Value::V128(x) => Value::V128(x),
    }
}

fn const_expr(e: &walrus::ConstExpr, globals: &HashMap<walrus::GlobalId, usize>, funcs: &HashMap<walrus::FunctionId, usize>) -> ConstExpr {
    match e {
        walrus::ConstExpr::Value(v) => ConstExpr::Value(value(v)),
        walrus::ConstExpr::Global(g) => ConstExpr::Global(globals[g]),
        walrus::ConstExpr::RefNull(_) => ConstExpr::RefNull,
        walrus::ConstExpr::RefFunc(f) => ConstExpr::RefFunc(funcs[f]),
        walrus::ConstExpr::Extended(ops) => ConstExpr::Extended(
            ops.iter()
                .map(|op| match op {
                    walrus::ConstOp::I32Const(n) => ConstOp::I32Const(*n),
                    walrus::ConstOp::I64Const(n) => ConstOp::I64Const(*n),
                    walrus::ConstOp::F32Const(f) => ConstOp::F32Const(f.to_bits()),
                    walrus::ConstOp::F64Const(f) => ConstOp::F64Const(f.to_bits()),
                    walrus::ConstOp::GlobalGet(g) => ConstOp::GlobalGet(globals[g]),
                    walrus::ConstOp::I32Add => ConstOp::I32Add,
                    walrus::ConstOp::I32Sub => ConstOp::I32Sub,
                    walrus::ConstOp::I32Mul => ConstOp::I32Mul,
                    walrus::ConstOp::I64Add => ConstOp::I64Add,
                    walrus::ConstOp::I64Sub => ConstOp::I64Sub,
                    walrus::ConstOp::I64Mul => ConstOp::I64Mul,
                    _ => ConstOp::Other,
                })
                .collect(),
        ),
    }
}

fn binop(op: walrus::ir::BinaryOp) -> BinaryOp {
    match op {
        B::I32Sub | B::I64Sub => BinaryOp::Sub,
        B::I32Add | B::I64Add => BinaryOp::Add,
        B::I32And | B::I64And => BinaryOp::And,
        B::I32Or | B::I64Or => BinaryOp::Or,
        B::I32Xor | B::I64Xor => BinaryOp::Xor,
        B::I32Shl | B::I64Shl => BinaryOp::Shl,
        B::I32Eq | B::I64Eq => BinaryOp::Eq,
        B::I32Ne | B::I64Ne => BinaryOp::Ne,
        B::I32LtU | B::I64LtU => BinaryOp::LtU,
        B::I32LtS | B::I64LtS => BinaryOp::LtS,
        B::I32GtU | B::I64GtU => BinaryOp::GtU,
        B::I32GtS | B::I64GtS => BinaryOp::GtS,
        B::I32LeU | B::I64LeU => BinaryOp::LeU,
        B::I32LeS | B::I64LeS => BinaryOp::LeS,
        B::I32GeU | B::I64GeU => BinaryOp::GeU,
        B::I32GeS | B::I64GeS => BinaryOp::GeS,
        _ => BinaryOp::Other,
    }
}

fn unop(op: walrus::ir::UnaryOp) -> UnaryOp {
    match op {
        U::I32WrapI64 => UnaryOp::WrapI64,
        U::I64ExtendUI32 | U::I64ExtendSI32 => UnaryOp::ExtendI32,
        U::I32Eqz | U::I64Eqz => UnaryOp::Eqz,
        _ => UnaryOp::Other,
    }
}

fn local_function(
    l: &walrus::LocalFunction,
    ids: &Ids,
    globals: &HashMap<walrus::GlobalId, usize>,
    types: &HashMap<walrus::TypeId, usize>,
) -> LocalFunction {
    let mut seq_index: HashMap<walrus::ir::InstrSeqId, usize> = HashMap::new();
    let mut order: Vec<walrus::ir::InstrSeqId> = Vec::new();
    let mut next = 0;
    let mut visit = |id: walrus::ir::InstrSeqId, seq_index: &mut HashMap<_, _>, order: &mut Vec<_>| -> usize {
        if let Some(i) = seq_index.get(&id) {
            return *i;
        }
        seq_index.insert(id, next);
        order.push(id);
        next += 1;
        next - 1
    };
    let entry = visit(l.entry_block(), &mut seq_index, &mut order);
    let mut seqs: Vec<Vec<Instr>> = Vec::new();
    let mut k = 0;
    while k < order.len() {
        let id = order[k];
        let mut out = Vec::new();
        for (instr, _) in l.block(id).instrs.iter() {
            let mut seq = |s: walrus::ir::InstrSeqId| visit(s, &mut seq_index, &mut order);
            out.push(match instr {
                I::Const(c) => Instr::Const(value(&c.value)),
                I::LocalGet(e) => Instr::LocalGet(e.local.index()),
                I::LocalSet(e) => Instr::LocalSet(e.local.index()),
                I::LocalTee(e) => Instr::LocalTee(e.local.index()),
                I::GlobalGet(e) => Instr::GlobalGet(globals[&e.global]),
                I::GlobalSet(e) => Instr::GlobalSet(globals[&e.global]),
                I::Binop(e) => Instr::Binop(binop(e.op)),
                I::Unop(e) => Instr::Unop(unop(e.op)),
                I::Load(e) => Instr::Load {
                    kind: match e.kind {
                        walrus::ir::LoadKind::I32_8 { kind } => LoadKind::I32Byte {
                            sign_extend: matches!(kind, walrus::ir::ExtendedLoad::SignExtend),
                        },
                        k => LoadKind::Width(k.width()),
                    },
                    offset: e.arg.offset,
                },
                I::Store(e) => Instr::Store { width: e.kind.width(), offset: e.arg.offset },
                I::Return(_) => Instr::Return,
                I::Drop(_) => Instr::Drop,
                I::Call(e) => Instr::Call(ids.funcs[&e.func]),
                I::ReturnCall(e) => Instr::ReturnCall(ids.funcs[&e.func]),
                I::CallIndirect(e) => Instr::CallIndirect(types[&e.ty]),
                I::ReturnCallIndirect(e) => Instr::ReturnCallIndirect(types[&e.ty]),
                I::Block(e) => Instr::Block(seq(e.seq)),
                I::Loop(e) => Instr::Loop(seq(e.seq)),
                I::IfElse(e) => {
                    let yes = seq(e.consequent);
                    let no = seq(e.alternative);
                    Instr::IfElse(yes, no)
                }
                I::Br(e) => Instr::Br(seq(e.block)),
                I::BrIf(e) => Instr::BrIf(seq(e.block)),
                I::BrTable(e) => {
                    let blocks = e.blocks.iter().map(|b| seq(*b)).collect();
                    Instr::BrTable(blocks, seq(e.default))
                }
                I::Select(_) => Instr::Select,
                I::Try(e) => Instr::Try(seq(e.seq)),
                I::TryTable(e) => {
                    let body = seq(e.seq);
                    let catches = e
                        .catches
                        .iter()
                        .map(|c| match c {
                            walrus::ir::TryTableCatch::Catch { tag, label } => {
                                TryTableCatch::Catch { tag: tag.index(), label: seq(*label) }
                            }
                            walrus::ir::TryTableCatch::CatchRef { tag, label } => {
                                TryTableCatch::CatchRef { tag: tag.index(), label: seq(*label) }
                            }
                            walrus::ir::TryTableCatch::CatchAll { label } => TryTableCatch::CatchAll { label: seq(*label) },
                            walrus::ir::TryTableCatch::CatchAllRef { label } => {
                                TryTableCatch::CatchAllRef { label: seq(*label) }
                            }
                        })
                        .collect();
                    Instr::TryTable(body, catches)
                }
                I::MemoryCopy(e) => Instr::MemoryCopy { src: e.src.index(), dst: e.dst.index() },
                I::ThrowRef(_) => Instr::ThrowRef,
                I::Unreachable(_) => Instr::Unreachable,
                _ => Instr::Unsupported,
            });
        }
        seqs.push(out);
        k += 1;
    }
    LocalFunction { args: l.args.iter().map(|a| a.index()).collect(), entry, seqs }
}

/// The plain model of a walrus module, and the position of each function.
fn convert(m: &walrus::Module) -> (Module, Ids) {
    let types: HashMap<walrus::TypeId, usize> = m.types.iter().enumerate().map(|(i, t)| (t.id(), i)).collect();
    let funcs: HashMap<walrus::FunctionId, usize> = m.funcs.iter().enumerate().map(|(i, f)| (f.id(), i)).collect();
    let globals: HashMap<walrus::GlobalId, usize> = m.globals.iter().enumerate().map(|(i, g)| (g.id(), i)).collect();
    let imports: HashMap<walrus::ImportId, usize> = m.imports.iter().enumerate().map(|(i, g)| (g.id(), i)).collect();
    let tables: HashMap<walrus::TableId, usize> = m.tables.iter().enumerate().map(|(i, g)| (g.id(), i)).collect();
    let memories: HashMap<walrus::MemoryId, usize> = m.memories.iter().enumerate().map(|(i, g)| (g.id(), i)).collect();
    let elements: HashMap<walrus::ElementId, usize> = m.elements.iter().enumerate().map(|(i, g)| (g.id(), i)).collect();
    let tags: HashMap<walrus::TagId, usize> = m.tags.iter().enumerate().map(|(i, g)| (g.id(), i)).collect();
    let ids = Ids { funcs: funcs.clone(), globals: globals.clone() };
    let model = Module {
        types: m
            .types
            .iter()
            .map(|t| FuncType {
                params: t.params().iter().map(|v| val_type(*v)).collect(),
                results: t.results().iter().map(|v| val_type(*v)).collect(),
            })
            .collect(),
        funcs: m
            .funcs
            .iter()
            .map(|f| Func {
                ty: types[&f.ty()],
                name: f.name.clone(),
                kind: match &f.kind {
                    walrus::FunctionKind::Import(i) => FunctionKind::Import(imports[&i.import]),
                    walrus::FunctionKind::Local(l) => {
                        FunctionKind::Local(local_function(l, &ids, &globals, &types))
                    }
                    walrus::FunctionKind::Uninitialized(_) => FunctionKind::Uninitialized,
                },
            })
            .collect(),
        globals: m
            .globals
            .iter()
            .map(|g| Global {
                ty: val_type(g.ty),
                mutable: g.mutable,
                name: g.name.clone(),
                kind: match &g.kind {
                    walrus::GlobalKind::Import(i) => GlobalKind::Import(imports[i]),
                    walrus::GlobalKind::Local(e) => GlobalKind::Local(const_expr(e, &globals, &funcs)),
                },
            })
            .collect(),
        imports: m
            .imports
            .iter()
            .map(|i| Import {
                module: i.module.clone(),
                name: i.name.clone(),
                kind: match i.kind {
                    walrus::ImportKind::Function(f) => ImportKind::Function(funcs[&f]),
                    walrus::ImportKind::Global(g) => ImportKind::Global(globals[&g]),
                    walrus::ImportKind::Table(t) => ImportKind::Table(tables[&t]),
                    walrus::ImportKind::Memory(x) => ImportKind::Memory(memories[&x]),
                    walrus::ImportKind::Tag(t) => ImportKind::Tag(tags[&t]),
                },
            })
            .collect(),
        exports: m
            .exports
            .iter()
            .map(|e| Export {
                name: e.name.clone(),
                item: match e.item {
                    walrus::ExportItem::Function(f) => ExportItem::Function(funcs[&f]),
                    walrus::ExportItem::Global(g) => ExportItem::Global(globals[&g]),
                    walrus::ExportItem::Table(t) => ExportItem::Table(tables[&t]),
                    walrus::ExportItem::Memory(x) => ExportItem::Memory(memories[&x]),
                    walrus::ExportItem::Tag(t) => ExportItem::Tag(tags[&t]),
                },
            })
            .collect(),
        memories: m.memories.iter().map(|x| Memory { initial: x.initial, memory64: x.memory64, shared: x.shared }).collect(),
        tables: m
            .tables
            .iter()
            .map(|t| {
                let mut segs: Vec<usize> = t.elem_segments.iter().map(|e| elements[e]).collect();
                segs.sort();
                Table {
                    initial: t.initial,
                    funcref: t.element_ty == walrus::RefType::FUNCREF,
                    elem_segments: segs,
                }
            })
            .collect(),
        elements: m
            .elements
            .iter()
            .map(|e| Element {
                kind: match &e.kind {
                    walrus::ElementKind::Passive => ElementKind::Passive,
                    walrus::ElementKind::Declared => ElementKind::Declared,
                    walrus::ElementKind::Active { table, offset } => ElementKind::Active {
                        table: tables[table],
                        offset: const_expr(offset, &globals, &funcs),
                    },
                },
                items: match &e.items {
                    walrus::ElementItems::Functions(fs) => {
                        ElementItems::Functions(fs.iter().map(|f| funcs[f]).collect())
                    }
                    walrus::ElementItems::Expressions(_, es) => ElementItems::Expressions(
                        es.iter().map(|x| const_expr(x, &globals, &funcs)).collect(),
                    ),
                },
            })
            .collect(),
        tags: m
            .tags
            .iter()
            .map(|t| Tag { local: matches!(t.kind, walrus::TagKind::Local) })
            .collect(),
        customs: Vec::new(),
        start: m.start.map(|f| funcs[&f]),
    };
    (model, ids)
}

/// The model index of the function exported as `name`.
fn exported_function(model: &Module, name: &str) -> usize {
    model
        .exports
        .iter()
        .filter(|e| e.name == name)
        .find_map(|e| match e.item {
            ExportItem::Function(f) => Some(f),
            _ => None,
        })
        .unwrap()
}

fn interpret(wat: &str, name: &str, result: &[u32]) {
    let wasm = wat::parse_str(wat).unwrap();
    let module = ModuleConfig::new()
        .generate_producers_section(false)
        .parse(&wasm)
        .unwrap();
    let (model, _) = convert(&module);
    let mut i = match Interpreter::new(&model) {
        Ok(i) => i,
        Err(e) => panic!("{}", e.message(&model)),
    };
    let id = exported_function(&model, name);
    match i.try_interpret_descriptor(id, &model) {
        Ok(d) => assert_eq!(d, result),
        Err(e) => panic!("{}", e.message(&model)),
    }
}

#[test]
fn smoke() {
    let wat = r#"
        (module
            (export "foo" (func $foo))

            (func $foo)
        )
    "#;
    interpret(wat, "foo", &[]);

    let wat = r#"
        (module
            (import "__wbindgen_placeholder__" "__wbindgen_describe"
              (func $__wbindgen_describe (param i32)))

            (func $foo
                i32.const 1
                call $__wbindgen_describe
            )

            (export "foo" (func $foo))
        )
    "#;
    interpret(wat, "foo", &[1]);
}

#[test]
fn imported_function_got_preserves_the_exported_table_index() {
    interpret(
        r#"(module
            (import "__wbindgen_placeholder__" "__wbindgen_describe"
                (func $describe (param i32)))
            (import "env" "__table_base" (global $base i32))
            (import "GOT.func" "closure_adapter" (global $adapter_index (mut i32)))
            (table 2 funcref)
            (elem (global.get $base) $unrelated $adapter)
            (func $unrelated (result i32) i32.const 42)
            (func $adapter (param i32 i32))
            (export "closure_adapter" (func $adapter))
            (func (export "describe_adapter")
                global.get $adapter_index
                call $describe)
        )"#,
        "describe_adapter",
        &[1],
    );
}

#[test]
fn function_got_can_refer_to_an_export_without_a_static_table_slot() {
    let wasm = wat::parse_str(
        r#"(module
            (import "__wbindgen_placeholder__" "__wbindgen_describe"
                (func $describe (param i32)))
            (import "GOT.func" "closure_adapter" (global $adapter_index (mut i32)))
            (table 0 funcref)
            (func $adapter (export "closure_adapter") (param i32 i32))
            (func (export "describe_adapter")
                global.get $adapter_index
                call $describe)
        )"#,
    )
    .unwrap();
    let module = ModuleConfig::new().parse(&wasm).unwrap();
    let (model, _) = convert(&module);
    let exported = |name: &str| exported_function(&model, name);
    let mut interpreter = Interpreter::new(&model).unwrap();
    let index = interpreter.interpret_descriptor(exported("describe_adapter"), &model).unwrap()[0];
    assert_eq!(
        interpreter.into_function_table()[&index],
        exported("closure_adapter")
    );
}

#[test]
fn function_got_indices_do_not_overlap_expression_elements_or_table_holes() {
    let wasm = wat::parse_str(
        r#"(module
            (import "__wbindgen_placeholder__" "__wbindgen_describe"
                (func $describe (param i32)))
            (import "env" "__table_base" (global $base i32))
            (import "GOT.func" "existing" (global $existing (mut i32)))
            (import "GOT.func" "new" (global $new (mut i32)))
            (table 16 funcref)
            (func $existing (export "existing"))
            (func (export "new"))
            (elem (i32.add (global.get $base) (i32.const 4)) funcref
                (ref.null func) (ref.func $existing))
            (func (export "describe_indices")
                global.get $existing
                call $describe
                global.get $new
                call $describe)
        )"#,
    )
    .unwrap();
    let module = ModuleConfig::new().parse(&wasm).unwrap();
    let (model, _) = convert(&module);
    let describe = exported_function(&model, "describe_indices");
    let new = exported_function(&model, "new");
    let mut interpreter = Interpreter::new(&model).unwrap();
    let descriptor = interpreter.interpret_descriptor(describe, &model).unwrap().to_vec();
    assert_eq!(descriptor[0], 5);
    assert!(descriptor[1] >= 16);
    assert_eq!(interpreter.into_function_table()[&descriptor[1]], new);
}

#[test]
#[should_panic(expected = "cannot resolve GOT.func::missing during descriptor interpretation")]
fn an_unresolved_function_got_is_not_treated_as_table_entry_zero() {
    interpret(
        r#"(module
            (import "__wbindgen_placeholder__" "__wbindgen_describe"
                (func $describe (param i32)))
            (import "GOT.func" "missing" (global $missing (mut i32)))
            (func (export "describe_missing")
                global.get $missing
                call $describe)
        )"#,
        "describe_missing",
        &[],
    );
}

#[test]
fn locals() {
    let wat = r#"
        (module
            (import "__wbindgen_placeholder__" "__wbindgen_describe"
              (func $__wbindgen_describe (param i32)))

            (func $foo
                (local i32)
                i32.const 2
                local.set 0
                local.get 0
                call $__wbindgen_describe
            )

            (export "foo" (func $foo))
        )
    "#;
    interpret(wat, "foo", &[2]);
}

#[test]
fn globals() {
    let wat = r#"
        (module
            (import "__wbindgen_placeholder__" "__wbindgen_describe"
              (func $__wbindgen_describe (param i32)))

            (global $__stack_pointer (mut i32) (i32.const 32768))

            (func $foo
                (local i32)
                global.get $__stack_pointer
                local.set 0
                local.get 0
                call $__wbindgen_describe
                local.get 0
                global.set $__stack_pointer
            )

            (export "foo" (func $foo))
        )
    "#;
    interpret(wat, "foo", &[32768]);
}

#[test]
fn arithmetic() {
    let wat = r#"
        (module
            (import "__wbindgen_placeholder__" "__wbindgen_describe"
              (func $__wbindgen_describe (param i32)))

            (func $foo
                i32.const 1
                i32.const 2
                i32.add
                call $__wbindgen_describe
                i32.const 2
                i32.const 1
                i32.sub
                call $__wbindgen_describe
            )

            (export "foo" (func $foo))
        )
    "#;
    interpret(wat, "foo", &[3, 1]);
}

#[test]
fn return_early() {
    let wat = r#"
        (module
            (import "__wbindgen_placeholder__" "__wbindgen_describe"
              (func $__wbindgen_describe (param i32)))

            (func $foo
                i32.const 1
                i32.const 2
                call $__wbindgen_describe
                return
            )

            (export "foo" (func $foo))
        )
    "#;
    interpret(wat, "foo", &[2]);
}

#[test]
fn loads_and_stores() {
    let wat = r#"
        (module
            (import "__wbindgen_placeholder__" "__wbindgen_describe"
              (func $__wbindgen_describe (param i32)))

            ;; 1 page = 65536 bytes; SP starts at the top
            (global $__stack_pointer (mut i32) (i32.const 65536))
            (memory 1)

            (func $foo
                (local i32)

                ;; decrement the stack pointer, setting our local to the
                ;; lowest address of our stack
                global.get $__stack_pointer
                i32.const 16
                i32.sub
                local.set 0
                local.get 0
                global.set $__stack_pointer

                ;; store 1 at fp+0
                local.get 0
                i32.const 1
                i32.store offset=0

                ;; store 2 at fp+4
                local.get 0
                i32.const 2
                i32.store offset=4

                ;; store 3 at fp+8
                local.get 0
                i32.const 3
                i32.store offset=8

                ;; store8
                local.get 0
                i32.const 3
                i32.store8 offset=7

                ;; load8
                local.get 0
                i32.load8_u offset=7
                drop

                ;; load fp+0 and call
                local.get 0
                i32.load offset=0
                call $__wbindgen_describe

                ;; load fp+4 and call
                local.get 0
                i32.load offset=4
                call $__wbindgen_describe

                ;; load fp+8 and call
                local.get 0
                i32.load offset=8
                call $__wbindgen_describe

                ;; increment our stack pointer
                local.get 0
                i32.const 16
                i32.add
                global.set $__stack_pointer
            )

            (export "foo" (func $foo))
        )
    "#;
    interpret(wat, "foo", &[1, 50331650, 3]);
}

// Regression test: `-Cinstrument-coverage` injects i64 profiler-counter
// load/store/add into the `__wbindgen_describe_*` helper functions. The
// descriptor interpreter must tolerate width-8 (i64) loads (it already handled
// width-8 stores) so coverage-instrumented modules can still be processed.
// Without the i64-load handling this panics with "Unhandled load width 8".
#[test]
fn i64_loads_and_stores() {
    let wat = r#"
        (module
            (import "__wbindgen_placeholder__" "__wbindgen_describe"
              (func $__wbindgen_describe (param i32)))

            (global $__stack_pointer (mut i32) (i32.const 65536))
            (memory 1)

            (func $foo
                (local i32)

                global.get $__stack_pointer
                i32.const 16
                i32.sub
                local.set 0
                local.get 0
                global.set $__stack_pointer

                ;; i64.store 42 at fp+0 (width 8)
                local.get 0
                i64.const 42
                i64.store offset=0

                ;; i64.load fp+0 (width 8), wrap to i32, and describe it
                local.get 0
                i64.load offset=0
                i32.wrap_i64
                call $__wbindgen_describe

                local.get 0
                i32.const 16
                i32.add
                global.set $__stack_pointer
            )

            (export "foo" (func $foo))
        )
    "#;
    interpret(wat, "foo", &[42]);
}

// Regression test: a width-8 (i64) access that is only 4-byte aligned (not
// 8-byte aligned). `-Cinstrument-coverage` injects i64 profiler-counter
// load/store/add into the `__wbindgen_describe_*` helpers, and those counters
// can land on a 4-aligned (not 8-aligned) slot. The interpreter models linear
// memory as i32 words, so 4-byte alignment is sufficient; a natural-alignment
// check wrongly panicked with "Condition failed: `address % width == 0` (4 vs 0)".
#[test]
fn i64_loads_and_stores_unaligned() {
    let wat = r#"
        (module
            (import "__wbindgen_placeholder__" "__wbindgen_describe"
              (func $__wbindgen_describe (param i32)))

            (global $__stack_pointer (mut i32) (i32.const 65536))
            (memory 1)

            (func $foo
                (local i32)

                global.get $__stack_pointer
                i32.const 16
                i32.sub
                local.set 0
                local.get 0
                global.set $__stack_pointer

                ;; i64.store at fp+4: the address is only 4-aligned
                local.get 0
                i64.const 42
                i64.store offset=4

                local.get 0
                i64.load offset=4
                i32.wrap_i64
                call $__wbindgen_describe

                local.get 0
                i32.const 16
                i32.add
                global.set $__stack_pointer
            )

            (export "foo" (func $foo))
        )
    "#;
    interpret(wat, "foo", &[42]);
}

#[test]
fn calling_functions() {
    let wat = r#"
        (module
            (import "__wbindgen_placeholder__" "__wbindgen_describe"
              (func $__wbindgen_describe (param i32)))

            (global $__stack_pointer i32 (i32.const 0))
            (memory 1)

            (func $foo
                call $bar
            )

            (func $bar
                i32.const 0
                call $__wbindgen_describe
            )

            (export "foo" (func $foo))
        )
    "#;
    interpret(wat, "foo", &[0]);
}

#[test]
fn try_block() {
    let wat = r#"
        (module
            (import "__wbindgen_placeholder__" "__wbindgen_describe"
              (func $__wbindgen_describe (param i32)))
            (global $__stack_pointer (mut i32) (i32.const 0))

            (func $foo
                (local i32)

                ;; decrement the stack pointer, setting our local to the
                ;; lowest address of our stack
                global.get $__stack_pointer
                i32.const 16
                i32.sub
                local.set 0
                local.get 0
                global.set $__stack_pointer

                try
                    i32.const 1
                    call $__wbindgen_describe
                catch_all
                end

                ;; increment our stack pointer
                local.get 0
                i32.const 16
                i32.add
                global.set $__stack_pointer
            )

            (export "foo" (func $foo))
        )
    "#;
    interpret(wat, "foo", &[1]);
}

#[test]
fn try_table_block() {
    let wat = r#"
        (module
            (import "__wbindgen_placeholder__" "__wbindgen_describe"
              (func $__wbindgen_describe (param i32)))
            (global $__stack_pointer (mut i32) (i32.const 0))

            (func $foo
                (local i32)

                ;; decrement the stack pointer, setting our local to the
                ;; lowest address of our stack
                global.get $__stack_pointer
                i32.const 16
                i32.sub
                local.set 0
                local.get 0
                global.set $__stack_pointer

                (block $catch
                    (try_table (catch_all $catch)
                        i32.const 1
                        call $__wbindgen_describe
                    )
                )

                ;; increment our stack pointer
                local.get 0
                i32.const 16
                i32.add
                global.set $__stack_pointer
            )

            (export "foo" (func $foo))
        )
    "#;
    interpret(wat, "foo", &[1]);
}

#[test]
fn br_out_of_try_table() {
    let wat = r#"
        (module
            (import "__wbindgen_placeholder__" "__wbindgen_describe"
              (func $__wbindgen_describe (param i32)))
            (global $__stack_pointer (mut i32) (i32.const 0))

            (func $foo
                (local i32)

                global.get $__stack_pointer
                i32.const 16
                i32.sub
                local.set 0
                local.get 0
                global.set $__stack_pointer

                (block $outer
                    (try_table (catch_all $outer)
                        i32.const 42
                        call $__wbindgen_describe
                        br $outer
                    )
                )

                local.get 0
                i32.const 16
                i32.add
                global.set $__stack_pointer
            )

            (export "foo" (func $foo))
        )
    "#;
    interpret(wat, "foo", &[42]);
}

#[test]
fn br_if_taken() {
    let wat = r#"
        (module
            (import "__wbindgen_placeholder__" "__wbindgen_describe"
              (func $__wbindgen_describe (param i32)))

            (func $foo
                (block $skip
                    i32.const 1
                    br_if $skip
                    i32.const 99
                    call $__wbindgen_describe
                )
                i32.const 7
                call $__wbindgen_describe
            )

            (export "foo" (func $foo))
        )
    "#;
    interpret(wat, "foo", &[7]);
}

#[test]
fn br_if_not_taken() {
    let wat = r#"
        (module
            (import "__wbindgen_placeholder__" "__wbindgen_describe"
              (func $__wbindgen_describe (param i32)))

            (func $foo
                (block $skip
                    i32.const 0
                    br_if $skip
                    i32.const 5
                    call $__wbindgen_describe
                )
                i32.const 10
                call $__wbindgen_describe
            )

            (export "foo" (func $foo))
        )
    "#;
    interpret(wat, "foo", &[5, 10]);
}

#[test]
fn calling_functions_with_args() {
    let wat = r#"
        (module
            (import "__wbindgen_placeholder__" "__wbindgen_describe"
              (func $__wbindgen_describe (param i32)))

            (global $__stack_pointer i32 (i32.const 0))
            (memory 1)

            (func $foo
                i32.const 1
                i32.const 2
                call $bar
            )

            (func $bar (param i32) (param i32)
                local.get 0
                call $__wbindgen_describe
                local.get 1
                call $__wbindgen_describe
            )

            (export "foo" (func $foo))
        )
    "#;
    interpret(wat, "foo", &[1, 2]);
}

#[test]
#[should_panic]
fn calling_function_with_args_out_of_order() {
    let wat = r#"
        (module
            (import "__wbindgen_placeholder__" "__wbindgen_describe"
              (func $__wbindgen_describe (param i32)))

            (global $__stack_pointer i32 (i32.const 0))
            (memory 1)

            (func $foo
                i32.const 1
                i32.const 2
                call $bar
            )

            (func $bar (param i32) (param i32)
                local.get 0
                call $__wbindgen_describe
                local.get 1
                call $__wbindgen_describe
            )

            (export "foo" (func $foo))
        )
    "#;
    interpret(wat, "foo", &[2, 1]);
}

#[test]
fn blocks() {
    let wat = r#"
        (module
            (import "__wbindgen_placeholder__" "__wbindgen_describe"
              (func $__wbindgen_describe (param i32)))

            (global $__stack_pointer (mut i32) (i32.const 0))
            (memory 1)

            (func $foo
                (local i32)

                ;; decrement the stack pointer, setting our local to the
                ;; lowest address of our stack
                global.get $__stack_pointer
                i32.const 16
                i32.sub
                local.set 0
                local.get 0
                global.set $__stack_pointer

                (block
                    i32.const 0
                    call $__wbindgen_describe
                )

                ;; increment our stack pointer
                local.get 0
                i32.const 16
                i32.add
                global.set $__stack_pointer
            )
            (export "foo" (func $foo))
        )
    "#;
    interpret(wat, "foo", &[0]);
}

// Test for issue #5080: interpreter should distinguish between __stack_pointer
// and other globals like GOT.func.internal.*
#[test]
fn multiple_globals_with_stack_pointer() {
    let wat = r#"
        (module
            (import "__wbindgen_placeholder__" "__wbindgen_describe"
              (func $__wbindgen_describe (param i32)))

            (global $__stack_pointer (mut i32) (i32.const 32768))
            (global $other1 i32 (i32.const 42))
            (global $other2 (mut i32) (i32.const 100))

            (func $foo
                ;; Read other global - should get 42, not stack pointer
                global.get $other1
                call $__wbindgen_describe

                ;; Read stack pointer - should get 32768
                global.get $__stack_pointer
                call $__wbindgen_describe

                ;; Modify other global
                i32.const 200
                global.set $other2

                ;; Read modified other global
                global.get $other2
                call $__wbindgen_describe

                ;; Modify stack pointer
                global.get $__stack_pointer
                i32.const 16
                i32.sub
                global.set $__stack_pointer

                ;; Read stack pointer again - should get 32752
                global.get $__stack_pointer
                call $__wbindgen_describe

                ;; Restore stack pointer
                global.get $__stack_pointer
                i32.const 16
                i32.add
                global.set $__stack_pointer
            )

            (export "foo" (func $foo))
        )
    "#;
    interpret(wat, "foo", &[42, 32768, 200, 32752]);
}

// Test for issue #5093: __stack_pointer exists as a named global but is NOT
// exported. The interpreter must still distinguish it from other globals.
#[test]
fn multiple_globals_with_named_stack_pointer_not_exported() {
    let wat = r#"
        (module
            (import "__wbindgen_placeholder__" "__wbindgen_describe"
              (func $__wbindgen_describe (param i32)))

            ;; 1 page = 65536 bytes; SP starts at the top
            (global $__stack_pointer (mut i32) (i32.const 65536))
            (global $got_entry (mut i32) (i32.const 7))
            (memory 1)

            (func $foo
                (local i32)

                ;; decrement the stack pointer
                global.get $__stack_pointer
                i32.const 16
                i32.sub
                local.set 0
                local.get 0
                global.set $__stack_pointer

                ;; store a value via the stack
                local.get 0
                i32.const 5
                i32.store offset=0

                ;; load it back and describe
                local.get 0
                i32.load offset=0
                call $__wbindgen_describe

                ;; describe the GOT-like global (should be 7)
                global.get $got_entry
                call $__wbindgen_describe

                ;; restore the stack pointer
                local.get 0
                i32.const 16
                i32.add
                global.set $__stack_pointer
            )

            (export "foo" (func $foo))
        )
    "#;
    interpret(wat, "foo", &[5, 7]);
}

// Emscripten rewrites calls that may unwind/longjmp into indirect calls through
// the function table, wrapped in imported `invoke_*(fnptr, ..args)` helpers. The
// interpreter must redirect such a call to the real table-indexed target and
// forward the trailing arguments.
#[test]
fn invoke_redirect() {
    let wat = r#"
        (module
            (import "__wbindgen_placeholder__" "__wbindgen_describe"
              (func $describe (param i32)))
            (import "env" "invoke_vi" (func $invoke_vi (param i32 i32)))

            (table 1 funcref)
            (elem (i32.const 0) $target)

            (func $target (param i32)
                local.get 0
                call $describe
            )

            (func $foo
                i32.const 0   ;; table index of $target
                i32.const 5   ;; forwarded argument
                call $invoke_vi
            )

            (export "foo" (func $foo))
        )
    "#;
    interpret(wat, "foo", &[5]);
}

#[test]
fn if_else() {
    let wat = r#"
        (module
            (import "__wbindgen_placeholder__" "__wbindgen_describe"
              (func $describe (param i32)))

            (func $foo
                i32.const 1
                (if
                    (then
                        i32.const 11
                        call $describe)
                    (else
                        i32.const 22
                        call $describe)))

            (export "foo" (func $foo))
        )
    "#;
    interpret(wat, "foo", &[11]);
}

#[test]
fn loop_back_edge() {
    let wat = r#"
        (module
            (import "__wbindgen_placeholder__" "__wbindgen_describe"
              (func $describe (param i32)))

            (func $foo
                (local $i i32)
                (loop $l
                    local.get $i
                    call $describe
                    local.get $i
                    i32.const 1
                    i32.add
                    local.tee $i
                    i32.const 2
                    i32.lt_s
                    br_if $l))

            (export "foo" (func $foo))
        )
    "#;
    interpret(wat, "foo", &[0, 1]);
}

#[test]
fn br_table_block() {
    let wat = r#"
        (module
            (import "__wbindgen_placeholder__" "__wbindgen_describe"
              (func $describe (param i32)))

            (func $foo
                (block $out
                    (block $zero
                        (block $one
                            i32.const 1
                            br_table $zero $one $out)
                        i32.const 100
                        call $describe
                        br $out)
                    i32.const 200
                    call $describe))

            (export "foo" (func $foo))
        )
    "#;
    interpret(wat, "foo", &[100]);
}

#[test]
fn wasm64_stack_pointer_global() {
    let wat = r#"
        (module
            (import "__wbindgen_placeholder__" "__wbindgen_describe"
              (func $__wbindgen_describe (param i32)))

            (global $__stack_pointer (mut i64) (i64.const 65536))

            (func $foo
                global.get $__stack_pointer
                i64.const 16
                i64.sub
                global.set $__stack_pointer

                global.get $__stack_pointer
                i32.wrap_i64
                call $__wbindgen_describe

                global.get $__stack_pointer
                i64.const 16
                i64.add
                global.set $__stack_pointer
            )

            (export "foo" (func $foo))
        )
    "#;
    interpret(wat, "foo", &[65520]);
}

#[test]
fn indirect_calls_forward_arguments_and_results() {
    for call in ["call_indirect", "return_call_indirect"] {
        interpret(
            &format!(
                r#"(module
                (type $add (func (param i32 i32) (result i32)))
                (import "__wbindgen_placeholder__" "__wbindgen_describe"
                    (func $describe (param i32)))
                (table 4 funcref)
                (elem (i32.const 2) $add)
                (func $add (type $add)
                    local.get 0 local.get 1 i32.add)
                (func $dispatch (result i32)
                    i32.const 19 i32.const 23 i32.const 2
                    {call} (type $add))
                (func (export "run") call $dispatch call $describe)
            )"#
            ),
            "run",
            &[42],
        );
    }
}

#[test]
fn descriptor_imports_can_be_called_indirectly() {
    for call in ["call_indirect", "return_call_indirect"] {
        interpret(
            &format!(
                r#"(module
                (type $describe (func (param i32)))
                (import "__wbindgen_placeholder__" "__wbindgen_describe"
                    (func $describe (type $describe)))
                (table 1 funcref)
                (elem (i32.const 0) $describe)
                (func (export "run")
                    i32.const 42 i32.const 0 {call} (type $describe))
            )"#
            ),
            "run",
            &[42],
        );
    }
}

#[test]
fn imported_function_addresses_use_the_same_indirect_call_table() {
    interpret(
        r#"(module
            (type $callback (func (param i32)))
            (import "__wbindgen_placeholder__" "__wbindgen_describe"
                (func $describe (type $callback)))
            (import "GOT.func" "callback" (global $callback (mut i32)))
            (import "env" "invoke_vi" (func $invoke (param i32 i32)))
            (table 4 funcref)
            (func (export "callback") (type $callback) local.get 0 call $describe)
            (func (export "run")
                i32.const 42 global.get $callback call_indirect (type $callback)
                global.get $callback i32.const 43 call $invoke)
        )"#,
        "run",
        &[42, 43],
    );
}

#[test]
fn later_element_segments_replace_earlier_functions() {
    interpret(
        r#"(module
            (type $callback (func))
            (import "__wbindgen_placeholder__" "__wbindgen_describe"
                (func $describe (param i32)))
            (table 2 funcref)
            (func $first i32.const 1 call $describe)
            (func $second i32.const 2 call $describe)
            (elem (i32.const 1) $first)
            (elem (i32.const 1) $second)
            (func (export "run") i32.const 1 call_indirect (type $callback))
        )"#,
        "run",
        &[2],
    );
}

#[test]
#[should_panic(expected = "function table entry 1 is unavailable during descriptor interpretation")]
fn a_null_element_overwrites_an_earlier_function() {
    interpret(
        r#"(module
            (type $callback (func))
            (table 2 funcref)
            (func $callback)
            (elem (i32.const 1) $callback)
            (elem (i32.const 1) funcref (ref.null func))
            (func (export "run") i32.const 1 call_indirect (type $callback))
        )"#,
        "run",
        &[],
    );
}

#[test]
#[should_panic(expected = "function table entry 9 is unavailable during descriptor interpretation")]
fn an_indirect_call_to_an_unavailable_function_reports_its_index() {
    interpret(
        r#"(module
            (type $callback (func))
            (table 2 funcref)
            (func (export "run") i32.const 9 call_indirect (type $callback))
        )"#,
        "run",
        &[],
    );
}

#[test]
#[should_panic(expected = "indirect call type mismatch at function table index 0")]
fn indirect_calls_check_the_function_type() {
    interpret(
        r#"(module
            (type $callback (func))
            (table 1 funcref)
            (func $wrong (result i32) i32.const 42)
            (elem (i32.const 0) $wrong)
            (func (export "run") i32.const 0 call_indirect (type $callback))
        )"#,
        "run",
        &[],
    );
}

#[test]
fn unrelated_tables_do_not_overwrite_function_entries() {
    interpret(
        r#"(module
            (type $callback (func))
            (import "__wbindgen_placeholder__" "__wbindgen_describe"
                (func $describe (param i32)))
            (table $functions 1 funcref)
            (table $objects 1 externref)
            (func $callback i32.const 42 call $describe)
            (elem (table $functions) (i32.const 0) func $callback)
            (elem (table $objects) (i32.const 0) externref (ref.null extern))
            (func (export "run") i32.const 0 call_indirect (type $callback))
        )"#,
        "run",
        &[42],
    );
}

/// A minimal module with a function table and one active element segment
/// at the given offset, holding one exported function.
fn make_module_with_segment(offset: walrus::ConstExpr) -> (walrus::Module, walrus::FunctionId) {
    let mut config = ModuleConfig::new();
    config.generate_producers_section(false);
    let mut module = walrus::Module::with_config(config);

    let func_id =
        FunctionBuilder::new(&mut module.types, &[], &[]).finish(vec![], &mut module.funcs);
    module.exports.add("f", func_id);

    let table_id = module.tables.add_local(false, 64, None, RefType::FUNCREF);

    let elem_id = module.elements.add(
        walrus::ElementKind::Active {
            table: table_id,
            offset,
        },
        walrus::ElementItems::Functions(vec![func_id]),
    );
    module
        .tables
        .get_mut(table_id)
        .elem_segments
        .insert(elem_id);

    (module, func_id)
}

/// The module of the global-offset lookups: an immutable global `__table_base`
/// of 1 and one function placed by a segment at `offset(g)`.
fn module_with_global_base(
    table_size: u64,
    offset: impl Fn(walrus::GlobalId) -> walrus::ConstExpr,
) -> (walrus::Module, walrus::FunctionId) {
    let mut config = ModuleConfig::new();
    config.generate_producers_section(false);
    let mut module = walrus::Module::with_config(config);
    let g = module.globals.add_local(
        walrus::ValType::I32,
        false,
        false,
        walrus::ConstExpr::Value(walrus::ir::Value::I32(1)),
    );
    module.exports.add("__table_base", g);
    let func_id =
        FunctionBuilder::new(&mut module.types, &[], &[]).finish(vec![], &mut module.funcs);
    module.exports.add("f", func_id);
    let table_id = module.tables.add_local(false, table_size, None, RefType::FUNCREF);
    let elem_id = module.elements.add(
        walrus::ElementKind::Active {
            table: table_id,
            offset: offset(g),
        },
        walrus::ElementItems::Functions(vec![func_id]),
    );
    module.tables.get_mut(table_id).elem_segments.insert(elem_id);
    (module, func_id)
}

/// The module of the two-segment lookups, with the two functions.
fn module_with_two_segments() -> (walrus::Module, walrus::FunctionId, walrus::FunctionId) {
    let mut config = ModuleConfig::new();
    config.generate_producers_section(false);
    let mut module = walrus::Module::with_config(config);
    let func_a =
        FunctionBuilder::new(&mut module.types, &[], &[]).finish(vec![], &mut module.funcs);
    module.exports.add("func_a", func_a);
    let func_b =
        FunctionBuilder::new(&mut module.types, &[], &[]).finish(vec![], &mut module.funcs);
    module.exports.add("func_b", func_b);
    let table_id = module.tables.add_local(false, 256, None, RefType::FUNCREF);
    let seg_a = module.elements.add(
        walrus::ElementKind::Active {
            table: table_id,
            offset: walrus::ConstExpr::Value(walrus::ir::Value::I32(0)),
        },
        walrus::ElementItems::Functions(vec![func_a]),
    );
    module.tables.get_mut(table_id).elem_segments.insert(seg_a);
    let seg_b = module.elements.add(
        walrus::ElementKind::Active {
            table: table_id,
            offset: walrus::ConstExpr::Value(walrus::ir::Value::I32(128)),
        },
        walrus::ElementItems::Functions(vec![func_b]),
    );
    module.tables.get_mut(table_id).elem_segments.insert(seg_b);
    (module, func_a, func_b)
}

fn plain_const(e: &walrus::ConstExpr, m: &walrus::Module) -> (Module, ConstExpr) {
    let (model, ids) = convert(m);
    (model, const_expr(e, &ids.globals, &ids.funcs))
}

fn empty_module() -> walrus::Module {
    walrus::Module::with_config(ModuleConfig::new())
}

fn module_with_global(v: i32) -> (walrus::Module, walrus::GlobalId) {
    let mut config = ModuleConfig::new();
    config.generate_producers_section(false);
    let mut module = walrus::Module::with_config(config);
    let g = module.globals.add_local(
        walrus::ValType::I32,
        false,
        false,
        walrus::ConstExpr::Value(walrus::ir::Value::I32(v)),
    );
    (module, g)
}

#[test]
fn wasm_conventions_evaluate_immediate_i32() {
    let module = empty_module();
    let expr = walrus::ConstExpr::Value(walrus::ir::Value::I32(42));
    let (model, e) = plain_const(&expr, &module);
    assert!(matches!(evaluate_const_expr(&e, &model), Some(Value::I32(42))));
}

#[test]
fn wasm_conventions_evaluate_global_offset() {
    let (module, g) = module_with_global(5);
    let expr = walrus::ConstExpr::Global(g);
    let (model, e) = plain_const(&expr, &module);
    assert!(matches!(evaluate_const_expr(&e, &model), Some(Value::I32(5))));
}

#[test]
fn wasm_conventions_evaluate_extended_global_plus_const() {
    let (module, g) = module_with_global(1);
    let expr = walrus::ConstExpr::Extended(vec![
        walrus::ConstOp::GlobalGet(g),
        walrus::ConstOp::I32Const(7),
        walrus::ConstOp::I32Add,
    ]);
    let (model, e) = plain_const(&expr, &module);
    assert!(matches!(evaluate_const_expr(&e, &model), Some(Value::I32(8))));
}

#[test]
fn wasm_conventions_evaluate_extended_returns_none_for_unknown_op() {
    let module = empty_module();
    let expr = walrus::ConstExpr::Extended(vec![walrus::ConstOp::RefNull(walrus::RefType::FUNCREF)]);
    let (model, e) = plain_const(&expr, &module);
    assert!(evaluate_const_expr(&e, &model).is_none());
}

#[test]
fn wasm_conventions_lookup_with_immediate_i32_offset() {
    let (module, func_id) =
        make_module_with_segment(walrus::ConstExpr::Value(walrus::ir::Value::I32(1)));
    let (model, ids) = convert(&module);
    let result = get_function_table_entry(&model, 1);
    assert_eq!(result.unwrap(), ids.funcs[&func_id]);
}

#[test]
fn wasm_conventions_lookup_with_global_offset() {
    let (module, func_id) = module_with_global_base(4, walrus::ConstExpr::Global);
    let (model, ids) = convert(&module);
    let result = get_function_table_entry(&model, 1);
    assert_eq!(result.unwrap(), ids.funcs[&func_id]);
}

#[test]
fn wasm_conventions_lookup_with_extended_offset() {
    let (module, func_id) = module_with_global_base(16, |g| {
        walrus::ConstExpr::Extended(vec![
            walrus::ConstOp::GlobalGet(g),
            walrus::ConstOp::I32Const(4),
            walrus::ConstOp::I32Add,
        ])
    });
    let (model, ids) = convert(&module);
    let result = get_function_table_entry(&model, 5);
    assert_eq!(result.unwrap(), ids.funcs[&func_id]);
}

#[test]
fn wasm_conventions_lookup_fails_gracefully_when_index_not_in_any_segment() {
    let (module, _) = make_module_with_segment(walrus::ConstExpr::Value(walrus::ir::Value::I32(1)));
    let (model, _) = convert(&module);
    assert!(get_function_table_entry(&model, 99).is_err());
}

#[test]
fn wasm_conventions_lookup_multi_segment_no_underflow() {
    let (module, func_a, func_b) = module_with_two_segments();
    let (model, ids) = convert(&module);
    assert_eq!(get_function_table_entry(&model, 0).unwrap(), ids.funcs[&func_a]);
    assert_eq!(get_function_table_entry(&model, 128).unwrap(), ids.funcs[&func_b]);
}

fn table_entry(module: &walrus::Module, index: u32) -> Result<usize, String> {
    let (model, _) = convert(module);
    match Interpreter::new(&model) {
        Ok(i) => i.table_entry(index).map_err(|e| e.message(&model)),
        Err(e) => Err(e.message(&model)),
    }
}

fn interpreter_globals(module: &walrus::Module) -> Vec<Option<i32>> {
    let (model, _) = convert(module);
    Interpreter::new(&model).unwrap().globals().clone()
}

#[test]
fn table_tests_evaluate_immediate_i32() {
    let module = empty_module();
    let expr = walrus::ConstExpr::Value(walrus::ir::Value::I32(42));
    let (_, e) = plain_const(&expr, &module);
    assert!(matches!(eval_const(&e, &interpreter_globals(&module)), Some(42)));
}

#[test]
fn table_tests_evaluate_global_offset() {
    let (module, g) = module_with_global(5);
    let expr = walrus::ConstExpr::Global(g);
    let (_, e) = plain_const(&expr, &module);
    assert!(matches!(eval_const(&e, &interpreter_globals(&module)), Some(5)));
}

#[test]
fn table_tests_evaluate_extended_global_plus_const() {
    let (module, g) = module_with_global(1);
    let expr = walrus::ConstExpr::Extended(vec![
        walrus::ConstOp::GlobalGet(g),
        walrus::ConstOp::I32Const(7),
        walrus::ConstOp::I32Add,
    ]);
    let (_, e) = plain_const(&expr, &module);
    assert!(matches!(eval_const(&e, &interpreter_globals(&module)), Some(8)));
}

#[test]
fn table_tests_evaluate_extended_returns_none_for_unknown_op() {
    let module = empty_module();
    let expr = walrus::ConstExpr::Extended(vec![walrus::ConstOp::RefNull(walrus::RefType::FUNCREF)]);
    let (_, e) = plain_const(&expr, &module);
    assert!(eval_const(&e, &interpreter_globals(&module)).is_none());
}

#[test]
fn table_tests_lookup_with_immediate_i32_offset() {
    let (module, func_id) =
        make_module_with_segment(walrus::ConstExpr::Value(walrus::ir::Value::I32(1)));
    let (_, ids) = convert(&module);
    let result = table_entry(&module, 1);
    assert_eq!(result.unwrap(), ids.funcs[&func_id]);
}

#[test]
fn table_tests_lookup_with_global_offset() {
    let (module, func_id) = module_with_global_base(4, walrus::ConstExpr::Global);
    let (_, ids) = convert(&module);
    let result = table_entry(&module, 1);
    assert_eq!(result.unwrap(), ids.funcs[&func_id]);
}

#[test]
fn table_tests_lookup_with_extended_offset() {
    let (module, func_id) = module_with_global_base(16, |g| {
        walrus::ConstExpr::Extended(vec![
            walrus::ConstOp::GlobalGet(g),
            walrus::ConstOp::I32Const(4),
            walrus::ConstOp::I32Add,
        ])
    });
    let (_, ids) = convert(&module);
    let result = table_entry(&module, 5);
    assert_eq!(result.unwrap(), ids.funcs[&func_id]);
}

#[test]
fn table_tests_lookup_fails_gracefully_when_index_not_in_any_segment() {
    let (module, _) = make_module_with_segment(walrus::ConstExpr::Value(walrus::ir::Value::I32(1)));
    assert!(table_entry(&module, 99).is_err());
}

#[test]
fn table_tests_lookup_multi_segment_no_underflow() {
    let (module, func_a, func_b) = module_with_two_segments();
    let (_, ids) = convert(&module);
    assert_eq!(table_entry(&module, 0).unwrap(), ids.funcs[&func_a]);
    assert_eq!(table_entry(&module, 128).unwrap(), ids.funcs[&func_b]);
}

fn parse_wat(wat: &str) -> walrus::Module {
    let wasm = wat::parse_str(wat).unwrap();
    ModuleConfig::new()
        .generate_producers_section(false)
        .parse(&wasm)
        .unwrap()
}

fn eh_version(wat: &str) -> ExceptionHandlingVersion {
    let (model, _) = convert(&parse_wat(wat));
    detect_exception_handling_version(&model)
}

#[test]
fn detect_eh_version_none() {
    let wat = r#"
        (module
            (func $foo
                i32.const 1
                drop
            )
            (export "foo" (func $foo))
        )
    "#;
    assert_eq!(eh_version(wat), ExceptionHandlingVersion::Unused);
}

#[test]
fn detect_eh_version_legacy() {
    // Legacy EH uses try/catch_all/end syntax
    let wat = r#"
        (module
            (func $foo
                try
                    i32.const 1
                    drop
                catch_all
                end
            )
            (export "foo" (func $foo))
        )
    "#;
    assert_eq!(eh_version(wat), ExceptionHandlingVersion::Legacy);
}

#[test]
fn detect_eh_version_modern() {
    // Modern EH uses try_table with catch_all targeting a block label
    let wat = r#"
        (module
            (func $foo
                (block $catch
                    (try_table (catch_all $catch)
                        i32.const 1
                        drop
                    )
                )
            )
            (export "foo" (func $foo))
        )
    "#;
    assert_eq!(eh_version(wat), ExceptionHandlingVersion::Modern);
}

#[test]
fn detect_eh_version_both_prefers_modern() {
    // If a module somehow has both, we prefer modern
    let wat = r#"
        (module
            (func $foo
                try
                    i32.const 1
                    drop
                catch_all
                end
            )
            (func $bar
                (block $catch
                    (try_table (catch_all $catch)
                        i32.const 1
                        drop
                    )
                )
            )
            (export "foo" (func $foo))
            (export "bar" (func $bar))
        )
    "#;
    assert_eq!(eh_version(wat), ExceptionHandlingVersion::Modern);
}

#[test]
fn has_local_exception_tags_sees_defined_tags_only() {
    let (model, _) = convert(&parse_wat("(module (tag $e (param i32)))"));
    assert!(has_local_exception_tags(&model));
    let (model, _) = convert(&parse_wat(r#"(module (import "m" "t" (tag $e (param i32))))"#));
    assert!(!has_local_exception_tags(&model));
    let (model, _) = convert(&parse_wat("(module)"));
    assert!(!has_local_exception_tags(&model));
}

fn discard(module: &walrus::Module, enabled: bool) -> (Module, Result<Option<DiscardPlan>, String>) {
    let (model, _) = convert(module);
    let r = memory_discard_plan(&model, enabled).map_err(|e| e.message());
    (model, r)
}

#[test]
fn replaces_import_with_discard_trampoline() {
    let module = parse_wat(
        r#"
        (module
            (import "env" "__wbindgen_memory_discard" (func $discard (param i32 i32)))
            (memory 1)
            (export "memory" (memory 0))
            (func $purge (param i32 i32)
                local.get 0
                local.get 1
                call $discard
            )
            (export "purge" (func $purge))
        )
    "#,
    );

    let (mut model, plan) = discard(&module, true);
    let plan = plan.unwrap().unwrap();
    assert_eq!(plan.import, 0);
    assert_eq!(plan.memory, 0);
    assert!(matches!(model.funcs[plan.func].kind, FunctionKind::Import(0)));

    assert!(memory_discard_run(&mut model, true).is_ok());
    assert_eq!(model.imports.len(), 0);
    let discards: usize = model
        .funcs
        .iter()
        .map(|f| match &f.kind {
            FunctionKind::Local(lf) => lf.seqs.iter().flatten().filter(|i| matches!(i, Instr::MemoryDiscard(_))).count(),
            _ => 0,
        })
        .sum();
    assert_eq!(discards, 1);
    let tramp = &model.funcs[plan.func];
    assert_eq!(tramp.name.as_deref(), Some("__wbindgen_memory_discard"));
    match &tramp.kind {
        FunctionKind::Local(lf) => {
            assert_eq!(lf.args, vec![0, 1]);
            assert_eq!(lf.seqs[lf.entry], vec![Instr::LocalGet(0), Instr::LocalGet(1), Instr::MemoryDiscard(0)]);
        },
        _ => panic!("the import should now be a local function"),
    }
}

#[test]
fn discard_run_leaves_modules_without_the_import_or_on_error() {
    let module = parse_wat(
        r#"
        (module
            (import "env" "other" (func $o (param i32)))
            (import "env" "__wbindgen_memory_discard" (func $discard (param i32 i32)))
            (import "env" "g" (global $g i32))
            (memory 1)
        )
    "#,
    );
    let (model, _) = convert(&module);
    let mut refused = model.clone();
    assert!(memory_discard_run(&mut refused, false).is_err());
    assert_eq!(refused, model);
    let mut done = model.clone();
    memory_discard_run(&mut done, true).unwrap_or_else(|_| panic!("replacement failed"));
    // The later global import moves up one place.
    assert_eq!(done.imports.len(), 2);
    assert_eq!(done.imports[1].name, "g");
    assert!(matches!(done.globals[0].kind, GlobalKind::Import(1)));
    assert!(matches!(done.funcs[0].kind, FunctionKind::Import(0)));
    let plain = convert(&parse_wat("(module (memory 1))")).0;
    let mut same = plain.clone();
    memory_discard_run(&mut same, true).unwrap_or_else(|_| panic!("nothing to replace"));
    assert_eq!(same, plain);
}

#[test]
fn memory64_uses_i64_params() {
    let module = parse_wat(
        r#"
        (module
            (import "env" "__wbindgen_memory_discard" (func $discard (param i64 i64)))
            (memory i64 1)
            (export "memory" (memory 0))
            (func $purge (param i64 i64)
                local.get 0
                local.get 1
                call $discard
            )
            (export "purge" (func $purge))
        )
    "#,
    );

    let (model, plan) = discard(&module, true);
    let plan = plan.unwrap().unwrap();
    assert_eq!(plan.memory, 0);
    assert!(model.memories[plan.memory].memory64);
    assert!(matches!(model.funcs[plan.func].kind, FunctionKind::Import(0)));
}

#[test]
fn no_import_is_a_no_op() {
    for enabled in [true, false] {
        let module = parse_wat(
            r#"
            (module
                (memory 1)
                (export "memory" (memory 0))
            )
        "#,
        );

        let (_, plan) = discard(&module, enabled);
        assert!(plan.unwrap().is_none());
    }
}

#[test]
fn import_without_flag_errors() {
    let module = parse_wat(
        r#"
        (module
            (import "env" "__wbindgen_memory_discard" (func (param i32 i32)))
            (memory 1)
        )
    "#,
    );

    let err = discard(&module, false).1.unwrap_err();
    assert!(err.contains("--experimental-memory-discard"), "{err}");
}

#[test]
fn wrong_signature_errors() {
    let module = parse_wat(
        r#"
        (module
            (import "env" "__wbindgen_memory_discard" (func (param i32 i32) (result i32)))
            (memory 1)
            (export "memory" (memory 0))
        )
    "#,
    );

    let err = discard(&module, true).1.unwrap_err();
    assert!(err.contains("must have type [i32 i32] -> []"), "{err}");
    assert_eq!(
        err,
        "`env.__wbindgen_memory_discard` import must have type [i32 i32] -> [], found [i32 i32] -> [i32]"
    );
}

#[test]
fn memory64_rejects_i32_signature() {
    let module = parse_wat(
        r#"
        (module
            (import "env" "__wbindgen_memory_discard" (func (param i32 i32)))
            (memory i64 1)
            (export "memory" (memory 0))
        )
    "#,
    );

    let err = discard(&module, true).1.unwrap_err();
    assert!(err.contains("must have type [i64 i64] -> []"), "{err}");
}

#[test]
fn errors_without_a_memory() {
    // The import is present (and the flag is enabled), but the module
    // declares no memory at all, so choosing the memory fails.
    let module = parse_wat(
        r#"
        (module
            (import "env" "__wbindgen_memory_discard" (func (param i32 i32)))
        )
    "#,
    );

    let err = discard(&module, true).1.unwrap_err();
    assert!(err.contains("does not have a memory"), "{err}");
}

#[test]
fn errors_with_multiple_memories() {
    let mut config = walrus::ModuleConfig::new();
    config.generate_producers_section(false);
    let mut module = walrus::Module::with_config(config);

    module.memories.add_local(false, false, 1, None, None);
    module.memories.add_local(false, false, 1, None, None);

    let ty = module.types.add(&[walrus::ValType::I32, walrus::ValType::I32], &[]);
    module.add_import_func("env", "__wbindgen_memory_discard", ty);

    let err = discard(&module, true).1.unwrap_err();
    assert!(err.contains("expected a single memory, found multiple"), "{err}");
}

#[test]
fn discard_error_names_reference_types() {
    let module = parse_wat(
        r#"
        (module
            (import "env" "__wbindgen_memory_discard" (func (param externref i32) (result funcref)))
            (memory 1)
        )
    "#,
    );

    let err = discard(&module, true).1.unwrap_err();
    assert_eq!(
        err,
        "`env.__wbindgen_memory_discard` import must have type [i32 i32] -> [], found [externref i32] -> [funcref]"
    );
}

#[test]
fn the_start_function_becomes_an_export() {
    let (mut model, _) = convert(&parse_wat(r#"(module (func $init) (start $init))"#));
    let start = model.start.unwrap();
    assert!(unstart_start_function(&mut model));
    assert!(model.start.is_none());
    let last = model.exports.last().unwrap();
    assert_eq!(last.name, "__wbindgen_start");
    assert_eq!(last.item, ExportItem::Function(start));
    assert!(!unstart_start_function(&mut model));
}

fn empty_model() -> Module {
    convert(&parse_wat("(module)")).0
}

fn features_section(model: &Module) -> Vec<u8> {
    model.customs.iter().find(|c| c.name == "target_features").unwrap().data.clone()
}

#[test]
fn an_inserted_feature_reads_back_enabled() {
    let mut model = empty_model();
    assert_eq!(target_feature(&model, "multivalue").map_err(|e| e.message()), Ok(false));
    insert_target_feature(&mut model, "multivalue").unwrap();
    assert_eq!(features_section(&model), b"\x01+\x0amultivalue".to_vec());
    assert_eq!(target_feature(&model, "multivalue").map_err(|e| e.message()), Ok(true));
    insert_target_feature(&mut model, "atomics").unwrap();
    assert_eq!(features_section(&model), b"\x02+\x0amultivalue+\x07atomics".to_vec());
    assert_eq!(target_feature(&model, "atomics").map_err(|e| e.message()), Ok(true));
    assert_eq!(target_feature(&model, "multivalue").map_err(|e| e.message()), Ok(true));
    assert_eq!(target_feature(&model, "simd128").map_err(|e| e.message()), Ok(false));
}

#[test]
fn a_disabled_feature_is_enabled_in_place() {
    let mut model = empty_model();
    model.customs.push(CustomSection { name: "target_features".to_string(), data: b"\x02-\x07atomics+\x04simd".to_vec() });
    assert_eq!(target_feature(&model, "atomics").map_err(|e| e.message()), Ok(false));
    assert_eq!(target_feature(&model, "simd").map_err(|e| e.message()), Ok(true));
    insert_target_feature(&mut model, "atomics").unwrap();
    assert_eq!(features_section(&model), b"\x02+\x07atomics+\x04simd".to_vec());
    assert_eq!(target_feature(&model, "atomics").map_err(|e| e.message()), Ok(true));
    assert_eq!(model.customs.len(), 1);
}

#[test]
fn malformed_feature_sections_are_reported() {
    let mut model = empty_model();
    model.customs.push(CustomSection { name: "target_features".to_string(), data: b"\x02+\x07atom".to_vec() });
    assert_eq!(target_feature(&model, "x").map_err(|e| e.message()), Err("failed to read section".to_string()));
    assert_eq!(insert_target_feature(&mut model, "x").map_err(|e| e.message()), Err("failed to read section".to_string()));
    let long = "a".repeat(100_001);
    assert_eq!(target_feature(&model, &long).map_err(|e| e.message()), Err("feature name too long".to_string()));
}

#[test]
fn appending_after_trailing_bytes_does_not_read_back() {
    // The section lists one entry followed by a stray byte: the new entry
    // goes after that byte, where a reader no longer finds it.
    let mut model = empty_model();
    model.customs.push(CustomSection { name: "target_features".to_string(), data: b"\x01+\x01a\x00".to_vec() });
    insert_target_feature(&mut model, "b").unwrap();
    assert_eq!(features_section(&model), b"\x02+\x01a\x00+\x01b".to_vec());
    assert_eq!(target_feature(&model, "b").map_err(|e| e.message()), Err("failed to read section".to_string()));
}

#[test]
fn memory_and_globals_by_convention() {
    let (model, _) = convert(&parse_wat(
        r#"(module
            (memory 1)
            (global $sp (mut i32) (i32.const 1024))
            (global $tls (mut i32) (i32.const 0))
            (export "__tls_base" (global $tls)))"#,
    ));
    assert_eq!(get_memory(&model).map_err(|e| e.message()), Ok(0));
    assert_eq!(get_stack_pointer(&model), Some(0));
    assert_eq!(get_tls_base(&model), Some(1));
    let (none, _) = convert(&parse_wat("(module)"));
    assert_eq!(
        get_memory(&none).map_err(|e| e.message()),
        Err("module does not have a memory; must have a memory to transform return pointers into Wasm multi-value".to_string())
    );
    assert_eq!(get_stack_pointer(&none), None);
    assert_eq!(get_tls_base(&none), None);
}

#[test]
fn descriptor_exports_are_run_in_order() {
    let wat = r#"
        (module
            (import "__wbindgen_placeholder__" "__wbindgen_describe"
              (func $__wbindgen_describe (param i32)))
            (func $a
                i32.const 7
                call $__wbindgen_describe
                i32.const 8
                call $__wbindgen_describe)
            (func $b
                i32.const 9
                call $__wbindgen_describe)
            (func $plain)
            (export "__wbindgen_describe_first" (func $a))
            (export "plain" (func $plain))
            (export "__wbindgen_describe_second" (func $b))
        )
    "#;
    let (mut model, _) = convert(&parse_wat(wat));
    let before = model.clone();
    let mut i = Interpreter::new(&model).map_err(|e| e.message(&model)).unwrap();
    let described = execute_exports(&mut model, &mut i).map_err(|e| e.message(&before)).unwrap();
    assert_eq!(
        described.descriptors,
        vec![("first".to_string(), vec![7, 8]), ("second".to_string(), vec![9])]
    );
    assert_eq!(described.to_remove, vec![0, 2]);
    // The descriptor exports are deleted; the rest of the module stays.
    assert_eq!(model.exports.len(), 1);
    assert_eq!(model.exports[0].name, "plain");
    assert_eq!(model.funcs, before.funcs);
}

#[test]
fn the_skip_interpret_export_is_deleted_too() {
    let wat = r#"
        (module
            (import "__wbindgen_placeholder__" "__wbindgen_describe"
              (func $__wbindgen_describe (param i32)))
            (func $ctors)
            (func $skip call $ctors)
            (func $a
                i32.const 5
                call $__wbindgen_describe)
            (export "keep" (func $ctors))
            (export "__wbindgen_describe_a" (func $a))
            (export "__wbindgen_skip_interpret_calls" (func $skip))
        )
    "#;
    let (mut model, _) = convert(&parse_wat(wat));
    let mut i = Interpreter::new(&model).map_err(|e| e.message(&model)).unwrap();
    let described = execute_exports(&mut model, &mut i).unwrap_or_else(|_| panic!("describing failed"));
    assert_eq!(described.descriptors, vec![("a".to_string(), vec![5])]);
    assert_eq!(described.to_remove, vec![2, 1]);
    let names: Vec<&str> = model.exports.iter().map(|e| e.name.as_str()).collect();
    assert_eq!(names, vec!["keep"]);
}

#[test]
fn a_descriptor_export_must_be_a_function() {
    let wat = r#"
        (module
            (global $g i32 (i32.const 1))
            (export "__wbindgen_describe_g" (global $g))
        )
    "#;
    let (mut model, _) = convert(&parse_wat(wat));
    let before = model.clone();
    let mut i = Interpreter::new(&model).map_err(|e| e.message(&model)).unwrap();
    let err = execute_exports(&mut model, &mut i).map(|_| ()).map_err(|e| e.message(&before));
    assert_eq!(err, Err("__wbindgen_describe_g export not a function".to_string()));
    assert_eq!(model, before);
}

const HOOKS_WAT: &str = r#"
    (func $__jspi_enter (result i64) i64.const 0)
    (func $__jspi_exit (param i64 i32))
    (func $__jspi_suspend (result i64) i64.const 0)
    (func $__jspi_resume (param i64 i32))
    (export "__jspi_enter" (func $__jspi_enter))
    (export "__jspi_exit" (func $__jspi_exit))
    (export "__jspi_suspend" (func $__jspi_suspend))
    (export "__jspi_resume" (func $__jspi_resume))
"#;

#[test]
fn jspi_hooks_are_located() {
    let (model, _) = convert(&parse_wat(&format!("(module {HOOKS_WAT})")));
    let hooks = Hooks::locate(&model).unwrap();
    assert_eq!((hooks.enter, hooks.exit, hooks.suspend, hooks.resume), (0, 1, 2, 3));
}

#[test]
fn missing_hooks() {
    let (model, _) = convert(&parse_wat(r#"(module (func $work) (export "work" (func $work)))"#));
    let err = Hooks::locate(&model).unwrap_err().message();
    assert!(err.contains("-sJSPI_HOOKS"), "{err}");
    assert_eq!(
        err,
        "JSPI on the emscripten target requires the `__jspi_enter` hook export provided by emscripten's JSPI runtime; link with `-sJSPI_HOOKS` (or `-sREENTRANT_JSPI`)"
    );
}

#[test]
fn a_hook_of_the_wrong_type_is_reported() {
    let wat = r#"(module
        (func $__jspi_enter (result i64) i64.const 0)
        (func $__jspi_exit (param i64))
        (export "__jspi_enter" (func $__jspi_enter))
        (export "__jspi_exit" (func $__jspi_exit)))"#;
    let (model, _) = convert(&parse_wat(wat));
    assert_eq!(
        Hooks::locate(&model).unwrap_err().message(),
        "emscripten JSPI hook export `__jspi_exit` has type [I64] -> [], expected [I64, I32] -> []"
    );
}

#[test]
fn reference_types_are_debug_formatted() {
    let wat = r#"(module
        (func $__jspi_enter (param externref) (result i64) i64.const 0)
        (export "__jspi_enter" (func $__jspi_enter)))"#;
    let (model, _) = convert(&parse_wat(wat));
    let found = format!("{:?}", walrus::ValType::Ref(walrus::RefType::EXTERNREF));
    assert_eq!(
        Hooks::locate(&model).unwrap_err().message(),
        format!("emscripten JSPI hook export `__jspi_enter` has type [{found}] -> [I64], expected [] -> [I64]")
    );
}

fn parse_model(wat: &str) -> Module {
    let wasm = wat::parse_str(wat).unwrap();
    let module = ModuleConfig::new()
        .generate_producers_section(false)
        .parse(&wasm)
        .unwrap();
    convert(&module).0
}

fn entry_calls(model: &Module, f: usize) -> Vec<Instr> {
    match &model.funcs[f].kind {
        FunctionKind::Local(lf) => lf.seqs[lf.entry]
            .iter()
            .filter(|i| matches!(i, Instr::Call(_) | Instr::ReturnCall(_)))
            .cloned()
            .collect(),
        _ => panic!("expected local function"),
    }
}

#[test]
fn test_rewrite_calls() {
    let wat = r#"
        (module
            (func $original (result i32)
                i32.const 1
            )
            (func $wrapper (result i32)
                i32.const 2
            )
            (func $caller (result i32)
                call $original
            )
            (export "original" (func $original))
            (export "wrapper" (func $wrapper))
            (export "caller" (func $caller))
        )
    "#;
    let mut module = parse_model(wat);
    let original = exported_function(&module, "original");
    let wrapper = exported_function(&module, "wrapper");
    let caller = exported_function(&module, "caller");

    // Create wrapper map
    let wrappers = vec![(original, wrapper)];

    // Rewrite calls
    rewrite_calls(&mut module, &wrappers);

    // Check that the caller now calls wrapper instead of original
    let calls = entry_calls(&module, caller);
    assert!(!calls.is_empty(), "should have found a call instruction");
    for c in calls {
        assert_eq!(c, Instr::Call(wrapper), "call should be rewritten to wrapper");
    }
}

#[test]
fn calls_inside_wrappers_and_nested_blocks() {
    let wat = r#"
        (module
            (func $original (result i32)
                i32.const 1
            )
            (func $other (result i32)
                i32.const 3
            )
            (func $wrapper (result i32)
                call $original
            )
            (func $caller (result i32)
                (block (result i32)
                    call $original
                    drop
                    call $other
                )
                drop
                return_call $original
            )
            (export "original" (func $original))
            (export "other" (func $other))
            (export "wrapper" (func $wrapper))
            (export "caller" (func $caller))
        )
    "#;
    let mut module = parse_model(wat);
    let before = module.clone();
    let original = exported_function(&module, "original");
    let other = exported_function(&module, "other");
    let wrapper = exported_function(&module, "wrapper");
    let caller = exported_function(&module, "caller");
    rewrite_calls(&mut module, &vec![(original, wrapper)]);
    // The wrapper itself still calls the original.
    assert_eq!(module.funcs[wrapper], before.funcs[wrapper]);
    assert_eq!(entry_calls(&module, wrapper), vec![Instr::Call(original)]);
    // In the caller, every call of the original is redirected, in nested blocks too.
    let mut seen = Vec::new();
    if let FunctionKind::Local(lf) = &module.funcs[caller].kind {
        for seq in &lf.seqs {
            for i in seq {
                if matches!(i, Instr::Call(_) | Instr::ReturnCall(_)) {
                    seen.push(i.clone());
                }
            }
        }
    }
    seen.sort_by_key(|i| format!("{:?}", i));
    let mut expected = vec![Instr::Call(wrapper), Instr::Call(other), Instr::ReturnCall(wrapper)];
    expected.sort_by_key(|i| format!("{:?}", i));
    assert_eq!(seen, expected);
    // Nothing else changes.
    assert_eq!(module.exports, before.exports);
    assert_eq!(module.types, before.types);
}

#[test]
fn inserting_twice_and_other_features() {
    let mut model = empty_model();
    model.customs.push(CustomSection { name: "target_features".to_string(), data: b"\x02-\x07atomics+\x04simd".to_vec() });
    insert_target_feature(&mut model, "bulk").unwrap();
    let once = features_section(&model);
    assert_eq!(target_feature(&model, "atomics").map_err(|e| e.message()), Ok(false));
    assert_eq!(target_feature(&model, "simd").map_err(|e| e.message()), Ok(true));
    assert_eq!(target_feature(&model, "other").map_err(|e| e.message()), Ok(false));
    insert_target_feature(&mut model, "bulk").unwrap();
    assert_eq!(features_section(&model), once);
    insert_target_feature(&mut model, "atomics").unwrap();
    assert_eq!(target_feature(&model, "simd").map_err(|e| e.message()), Ok(true));
    assert_eq!(target_feature(&model, "bulk").map_err(|e| e.message()), Ok(true));
}

#[test]
fn the_step_budget_is_the_callers_choice() {
    let wat = r#"
        (module
            (import "__wbindgen_placeholder__" "__wbindgen_describe"
              (func $__wbindgen_describe (param i32)))
            (func $foo
                i32.const 1
                call $__wbindgen_describe
                i32.const 2
                call $__wbindgen_describe)
            (export "foo" (func $foo))
        )
    "#;
    let (model, _) = convert(&parse_wat(wat));
    let id = exported_function(&model, "foo");
    let mut i = Interpreter::new(&model).map_err(|e| e.message(&model)).unwrap();
    i.set_fuel(1);
    let err = i.try_interpret_descriptor(id, &model).map_err(|e| e.message(&model));
    assert_eq!(err, Err("the descriptor function ran out of steps".to_string()));
    i.set_fuel(1_000);
    assert_eq!(i.try_interpret_descriptor(id, &model).map_err(|e| e.message(&model)), Ok(vec![1, 2]));
}
