use wasm_bindgen_cli_support::transforms::jspi::{
    make_restore_helper, run, wrap_export, wrap_suspending, JspiAux, JspiContext, JspiError, Rejection,
};
use wasm_bindgen_cli_support::wasm_model::{
    AbstractHeapType, BinaryOp, ConstExpr, Export, ExportItem, Func, FuncType, FunctionKind, Global, GlobalKind,
    HeapType, Import, ImportKind, Instr, LoadKind, LocalFunction, Memory, Module, RefType, TryTableCatch, UnaryOp,
    ValType, Value,
};

fn externref() -> ValType {
    ValType::Ref(RefType { nullable: true, heap: HeapType::Abstract(AbstractHeapType::Extern) })
}

/// A module with one imported function `(i32, i32) -> externref`.
fn module_with_import(name: Option<&str>) -> Module {
    Module {
        types: vec![FuncType { params: vec![ValType::I32, ValType::I32], results: vec![externref()] }],
        funcs: vec![Func { ty: 0, name: name.map(|n| n.to_string()), kind: FunctionKind::Import(0) }],
        globals: Vec::new(),
        imports: vec![Import { module: "wbg".to_string(), name: "sleep".to_string(), kind: ImportKind::Function(0) }],
        exports: Vec::new(),
        memories: Vec::new(),
        tables: Vec::new(),
        elements: Vec::new(),
        tags: Vec::new(),
        customs: Vec::new(),
        start: None,
    }
}

fn ctx(ptr_ty: ValType) -> JspiContext {
    JspiContext { sp: 0, base: 1, suspended: 2, top: 3, memory: 0, malloc: 7, free: 8, ptr_ty }
}

fn local(f: &Func) -> &wasm_bindgen_cli_support::wasm_model::LocalFunction {
    match &f.kind {
        FunctionKind::Local(lf) => lf,
        _ => panic!("not a local function"),
    }
}

#[test]
fn a_suspending_wrapper_evacuates_the_shadow_stack() {
    let mut m = module_with_import(Some("sleep"));
    let w = wrap_suspending(&mut m, 0, ctx(ValType::I32), 9, None);
    assert_eq!(w, 1);
    assert_eq!(m.funcs.len(), 2);
    let f = &m.funcs[w];
    assert_eq!(f.ty, 0);
    assert_eq!(f.name.as_deref(), Some("sleep suspending wrapper"));
    let lf = local(f);
    assert_eq!(lf.args, vec![0, 1]);
    assert_eq!(lf.seqs.len(), 6);
    // locals: params 0, 1; result 2; base 3, len 4, buf 5, exn 6
    assert_eq!(&lf.seqs[0][..4], &[Instr::GlobalGet(1), Instr::LocalTee(3), Instr::Unop(UnaryOp::Eqz), Instr::IfElse(1, 2)]);
    assert_eq!(lf.seqs[0][9], Instr::Const(Value::I32(16)));
    assert_eq!(lf.seqs[0][21], Instr::Load { kind: LoadKind::Width(4), offset: 0 });
    assert_eq!(lf.seqs[1], vec![Instr::LocalGet(0), Instr::LocalGet(1), Instr::Call(0), Instr::Return]);
    assert!(lf.seqs[2].is_empty());
    assert_eq!(
        lf.seqs[3],
        vec![
            Instr::Block(4),
            Instr::LocalSet(6),
            Instr::LocalGet(3),
            Instr::LocalGet(4),
            Instr::LocalGet(5),
            Instr::Call(9),
            Instr::LocalGet(6),
            Instr::ThrowRef,
        ]
    );
    assert_eq!(
        lf.seqs[4],
        vec![
            Instr::TryTable(5, vec![TryTableCatch::CatchAllRef { label: 4 }]),
            Instr::LocalSet(2),
            Instr::LocalGet(3),
            Instr::LocalGet(4),
            Instr::LocalGet(5),
            Instr::Call(9),
            Instr::LocalGet(2),
            Instr::Br(3),
        ]
    );
    assert_eq!(lf.seqs[5], vec![Instr::LocalGet(0), Instr::LocalGet(1), Instr::Call(0)]);
}

#[test]
fn a_catch_wrapper_reports_rejections_through_the_flag() {
    let mut m = module_with_import(None);
    let r = Rejection { js_tag: 4, addr: 1024 };
    let w = wrap_suspending(&mut m, 0, ctx(ValType::I64), 9, Some(r));
    let f = &m.funcs[w];
    assert_eq!(f.name.as_deref(), Some("suspending wrapper"));
    let lf = local(f);
    assert_eq!(lf.seqs.len(), 7);
    assert_eq!(lf.seqs[0][9], Instr::Const(Value::I64(16)));
    assert_eq!(lf.seqs[0][21], Instr::Load { kind: LoadKind::Width(8), offset: 0 });
    assert_eq!(
        lf.seqs[6][0],
        Instr::TryTable(
            5,
            vec![TryTableCatch::Catch { tag: 4, label: 6 }, TryTableCatch::CatchAllRef { label: 4 }]
        )
    );
    let flag_cleared = [
        Instr::Const(Value::I64(1024)),
        Instr::Const(Value::I32(0)),
        Instr::Store { width: 4, offset: 0 },
    ];
    assert_eq!(&lf.seqs[6][6..9], &flag_cleared);
    assert_eq!(lf.seqs[4][0], Instr::Block(6));
    assert_eq!(lf.seqs[4][7], Instr::Const(Value::I32(1)));
}

#[test]
fn an_export_wrapper_publishes_the_fiber_base() {
    let mut m = module_with_import(Some("run"));
    let w = wrap_export(&mut m, 0, ctx(ValType::I32));
    let f = &m.funcs[w];
    assert_eq!(f.name.as_deref(), Some("run jspi wrapper"));
    let lf = local(f);
    assert_eq!(lf.seqs.len(), 8);
    // locals: params 0, 1; prev 2, base 3, prev_suspended 4, exn 5
    assert_eq!(&lf.seqs[0][..5], &[
        Instr::GlobalGet(1),
        Instr::LocalSet(2),
        Instr::GlobalGet(0),
        Instr::LocalTee(3),
        Instr::GlobalSet(1),
    ]);
    assert_eq!(lf.seqs[0][13], Instr::Store { width: 4, offset: 0 });
    assert_eq!(lf.seqs[2][0], Instr::TryTable(1, vec![TryTableCatch::CatchAllRef { label: 2 }]));
    assert_eq!(lf.seqs[4], vec![Instr::GlobalGet(3), Instr::GlobalSet(0), Instr::Const(Value::I32(0)), Instr::GlobalSet(1)]);
    assert_eq!(lf.seqs[5], vec![Instr::LocalGet(3), Instr::GlobalSet(0), Instr::LocalGet(2), Instr::GlobalSet(1)]);
    let mut unnamed = module_with_import(None);
    let w = wrap_export(&mut unnamed, 0, ctx(ValType::I32));
    assert_eq!(unnamed.funcs[w].name, None);
}

#[test]
fn the_restore_helper_reuses_an_existing_type() {
    let mut m = module_with_import(None);
    m.types.push(FuncType { params: vec![ValType::I32; 3], results: Vec::new() });
    let h = make_restore_helper(&mut m, ctx(ValType::I32));
    assert_eq!(m.types.len(), 2);
    assert_eq!(m.funcs[h].ty, 1);
    assert_eq!(m.funcs[h].name.as_deref(), Some("__jspi_restore"));
    let lf = local(&m.funcs[h]);
    assert_eq!(lf.seqs[0][2], Instr::Binop(BinaryOp::Sub));
    assert_eq!(lf.seqs[0].last(), Some(&Instr::Call(8)));
    let mut m = module_with_import(None);
    let h = make_restore_helper(&mut m, ctx(ValType::I64));
    assert_eq!(m.types.len(), 2);
    assert_eq!(m.types[1], FuncType { params: vec![ValType::I64; 3], results: Vec::new() });
    assert_eq!(m.funcs[h].ty, 1);
}

fn import(name: &str, func: usize) -> Import {
    Import { module: "wbg".to_string(), name: name.to_string(), kind: ImportKind::Function(func) }
}

fn imported(ty: usize, k: usize) -> Func {
    Func { ty, name: None, kind: FunctionKind::Import(k) }
}

fn defined(ty: usize, body: Vec<Instr>) -> Func {
    Func { ty, name: None, kind: FunctionKind::Local(LocalFunction { args: Vec::new(), entry: 0, seqs: vec![body] }) }
}

fn empty() -> Module {
    Module {
        types: vec![FuncType { params: Vec::new(), results: vec![ValType::I32] }],
        funcs: Vec::new(),
        globals: Vec::new(),
        imports: Vec::new(),
        exports: Vec::new(),
        memories: Vec::new(),
        tables: Vec::new(),
        elements: Vec::new(),
        tags: Vec::new(),
        customs: Vec::new(),
        start: None,
    }
}

fn aux() -> JspiAux {
    JspiAux { stack_pointer: Some(0), malloc: Some(1), free: Some(2), rejected: Some(64) }
}

#[test]
fn without_jspi_the_context_probe_answers_false() {
    let mut m = empty();
    m.imports = vec![import("__wbindgen_jspi_in_context", 0)];
    m.funcs = vec![imported(0, 0)];
    assert_eq!(run(&mut m, &Vec::new(), &Vec::new(), true, aux(), 0), Ok(Vec::new()));
    assert!(m.imports.is_empty());
    match &m.funcs[0].kind {
        FunctionKind::Local(lf) => assert_eq!(lf.seqs[0], vec![Instr::Const(Value::I32(0))]),
        _ => panic!("the probe is still imported"),
    }
}

#[test]
fn an_unused_task_poll_export_is_deleted_and_spawning_stubbed() {
    let mut m = empty();
    m.imports = vec![import("x", 0), import("__wbindgen_jspi_spawn_local", 1)];
    m.funcs = vec![imported(0, 0), imported(0, 1), defined(0, vec![Instr::Call(1)])];
    m.exports = vec![
        Export { name: "__wbg_jspi_task_poll".to_string(), item: ExportItem::Function(2) },
        Export { name: "f".to_string(), item: ExportItem::Function(2) },
    ];
    assert_eq!(run(&mut m, &Vec::new(), &Vec::new(), true, aux(), 0), Ok(Vec::new()));
    assert_eq!(m.exports.len(), 1);
    assert_eq!(m.exports[0].name, "f");
    assert_eq!(m.imports.len(), 1);
    assert_eq!(m.imports[0].name, "x");
    assert_eq!(m.funcs[0].kind, FunctionKind::Import(0));
    match &m.funcs[1].kind {
        FunctionKind::Local(lf) => assert_eq!(lf.seqs[0], vec![Instr::Unreachable]),
        _ => panic!("the spawn import is still imported"),
    }
}

#[test]
fn jspi_needs_reference_types_and_no_threads() {
    let mut m = empty();
    m.imports = vec![import("sleep", 0)];
    m.funcs = vec![imported(0, 0)];
    let susp = vec![(0, false)];
    assert_eq!(run(&mut m.clone(), &Vec::new(), &susp, false, aux(), 0), Err(JspiError::NoReferenceTypes));
    m.memories = vec![Memory { initial: 1, memory64: false, shared: true }];
    assert_eq!(run(&mut m.clone(), &Vec::new(), &susp, true, aux(), 0), Err(JspiError::Threads));
    m.memories[0].shared = false;
    let no_sp = JspiAux { stack_pointer: None, ..aux() };
    assert_eq!(run(&mut m.clone(), &Vec::new(), &susp, true, no_sp, 0), Err(JspiError::NoStackPointer));
}

fn instrumentable() -> Module {
    let mut m = empty();
    m.types.push(FuncType { params: Vec::new(), results: Vec::new() });
    m.imports = vec![import("sleep", 0)];
    m.funcs = vec![
        imported(0, 0),
        defined(0, vec![Instr::Const(Value::I32(0))]),
        defined(1, Vec::new()),
        defined(0, vec![Instr::Call(0)]),
    ];
    m.globals = vec![Global {
        ty: ValType::I32,
        mutable: true,
        name: Some("__stack_pointer".to_string()),
        kind: GlobalKind::Local(ConstExpr::Value(Value::I32(1024))),
    }];
    m.memories = vec![Memory { initial: 1, memory64: false, shared: false }];
    m
}

#[test]
fn a_suspending_import_is_wrapped_and_its_calls_redirected() {
    let mut m = instrumentable();
    let r = run(&mut m, &Vec::new(), &vec![(0, false)], true, aux(), 0);
    // start function 4, restore helper 5, wrapper 6
    assert_eq!(r, Ok(vec![(0, 6)]));
    assert_eq!(m.globals.len(), 4);
    assert_eq!(m.globals[1].name.as_deref(), Some("__jspi_stack_base"));
    assert_eq!(m.globals[3].name.as_deref(), Some("__jspi_stack_top"));
    assert_eq!(m.start, Some(4));
    match &m.funcs[4].kind {
        FunctionKind::Local(lf) => assert_eq!(lf.seqs[0], vec![Instr::GlobalGet(0), Instr::GlobalSet(3)]),
        _ => panic!("no start function"),
    }
    assert_eq!(m.funcs[5].name.as_deref(), Some("__jspi_restore"));
    assert_eq!(m.funcs[6].name.as_deref(), Some("suspending wrapper"));
    match &m.funcs[3].kind {
        FunctionKind::Local(lf) => assert_eq!(lf.seqs[0], vec![Instr::Call(6)]),
        _ => panic!("the caller is gone"),
    }
}

#[test]
fn a_catch_import_needs_the_rejection_flag_and_an_externref_result() {
    let mut m = instrumentable();
    let no_flag = JspiAux { rejected: None, ..aux() };
    assert_eq!(run(&mut m.clone(), &Vec::new(), &vec![(0, true)], true, no_flag, 0), Err(JspiError::NoRejectedFlag));
    assert_eq!(run(&mut m, &Vec::new(), &vec![(0, true)], true, aux(), 0), Err(JspiError::CatchAbi));
}

#[test]
fn a_jspi_export_is_wrapped_as_a_fiber_entry() {
    let mut m = instrumentable();
    m.exports = vec![Export { name: "main".to_string(), item: ExportItem::Function(3) }];
    assert_eq!(run(&mut m, &vec![0], &Vec::new(), true, aux(), 0), Ok(Vec::new()));
    assert_eq!(m.exports[0].item, ExportItem::Function(5));
    let mut g = instrumentable();
    g.exports = vec![Export { name: "mem".to_string(), item: ExportItem::Memory(0) }];
    assert_eq!(run(&mut g, &vec![0], &Vec::new(), true, aux(), 0), Err(JspiError::ExportNotFunction));
}
