//! Setting an interpreter up for a module, and running descriptor
//! functions with it.
//!
//! [`Interpreter::new`] precomputes what every run needs: a zeroed linear
//! memory as large as the module's, the initial value of each integer
//! global, the stack pointer, the special imports, and the function table
//! as the active element segments (and the `GOT.func` imports of
//! dynamically linked modules) lay it out. [`Interpreter::interpret_descriptor`]
//! then runs one descriptor function and hands back the words it emitted.

use std::collections::BTreeMap;
use vstd::prelude::*;
use vstd::utf8::encode_utf8;
use crate::wasm_model::{
    indices_where, lemma_indices_where, ConstExpr, ConstOp, Element, ElementItems, ElementKind,
    Export, ExportItem, FunctionKind, Global, GlobalKind, Import, ImportKind, Instr, Module,
    ValType, Value,
};
use crate::wasm_conventions::{get_stack_pointer, spec_get_stack_pointer};
use crate::strings::{
    bytes_have_prefix, decimal, push_decimal, push_signed_decimal, push_text, signed_decimal,
    slice_starts_with, text_is,
};
use crate::interpreter::{
    call, exec_call, InterpConfig, InterpretError, Machine, MachineView, DEFAULT_FUEL,
};

verus! {

broadcast use vstd::laws_cmp::group_laws_cmp;

/// The initial value of a global: its integer initialiser (an `i64` one
/// truncated to 32 bits), zero for an imported integer global (its value
/// is only known at instantiation, and descriptors only need consistent
/// reads and writes of it), and none for any other global.
pub open spec fn initial_global(g: Global) -> Option<i32> {
    match g.kind {
        GlobalKind::Local(ConstExpr::Value(Value::I32(n))) => Some(n),
        GlobalKind::Local(ConstExpr::Value(Value::I64(n))) => Some(n as i32),
        GlobalKind::Import(_) => if g.ty == ValType::I32 || g.ty == ValType::I64 {
            Some(0)
        } else {
            None
        },
        _ => None,
    }
}

/// The number of 32-bit words of the module's first memory.
pub open spec fn memory_words(m: Module) -> nat {
    if m.memories@.len() > 0 {
        m.memories@[0].initial as nat * 16384
    } else {
        0
    }
}

/// `4 * x`, saturated to the range of `i32`.
pub open spec fn sat_mul4(x: i32) -> i32 {
    if x as int * 4 > i32::MAX {
        i32::MAX
    } else if x as int * 4 < i32::MIN {
        i32::MIN
    } else {
        (x * 4) as i32
    }
}

/// The globals before `GOT.func` resolution: each one's initial value,
/// with an imported stack pointer placed at the top of memory, so that the
/// usual small decrements keep it inside memory and nonzero.
pub open spec fn base_globals(m: Module) -> Seq<Option<i32>> {
    let g0 = m.globals@.map_values(|g: Global| initial_global(g));
    match spec_get_stack_pointer(m) {
        Some(sp) => if sp < m.globals@.len() && m.globals@[sp as int].kind is Import {
            g0.update(sp as int, Some(sat_mul4(memory_words(m) as i32)))
        } else {
            g0
        },
        None => g0,
    }
}

/// The function imported from `__wbindgen_placeholder__` under `name`,
/// among the first `k` imports (the last such import wins).
pub open spec fn placeholder_import(m: Module, name: Seq<char>, k: nat) -> Option<usize>
    decreases k,
{
    if k == 0 || k > m.imports@.len() {
        None
    } else {
        let imp = m.imports@[k - 1];
        match imp.kind {
            ImportKind::Function(f) => if imp.module@ == "__wbindgen_placeholder__"@ && imp.name@
                == name {
                Some(f)
            } else {
                placeholder_import(m, name, (k - 1) as nat)
            },
            _ => placeholder_import(m, name, (k - 1) as nat),
        }
    }
}

/// Whether an import is one of emscripten's `env.invoke_*` trampolines.
pub open spec fn is_invoke_import(imp: Import) -> bool {
    imp.module@ == "env"@ && bytes_have_prefix(encode_utf8(imp.name@), encode_utf8("invoke_"@))
}

/// The `invoke_*` trampolines among the first `k` imports, in order.
pub open spec fn invoke_imports_of(m: Module, k: nat) -> Seq<usize>
    decreases k,
{
    if k == 0 || k > m.imports@.len() {
        seq![]
    } else {
        let rest = invoke_imports_of(m, (k - 1) as nat);
        let imp = m.imports@[k - 1];
        match imp.kind {
            ImportKind::Function(f) => if is_invoke_import(imp) {
                rest.push(f)
            } else {
                rest
            },
            _ => rest,
        }
    }
}

/// A global's value as the interpreter tracks it.
pub open spec fn global_read(globals: Seq<Option<i32>>, g: usize) -> Option<i32> {
    if g < globals.len() {
        globals[g as int]
    } else {
        None
    }
}

/// An integer operation of an extended constant expression on the two
/// words on top of the stack.
pub open spec fn word_binop(st: Seq<i32>, op: ConstOp) -> Option<Seq<i32>> {
    if st.len() < 2 {
        None
    } else {
        let b = st[st.len() - 1];
        let a = st[st.len() - 2];
        let rest = st.subrange(0, st.len() - 2);
        match op {
            ConstOp::I32Add | ConstOp::I64Add => Some(rest.push(a.wrapping_add(b))),
            ConstOp::I32Sub | ConstOp::I64Sub => Some(rest.push(a.wrapping_sub(b))),
            ConstOp::I32Mul | ConstOp::I64Mul => Some(rest.push(a.wrapping_mul(b))),
            _ => None,
        }
    }
}

/// The word stack after the operations of an extended constant expression,
/// computed on 32-bit words with the interpreter's globals.
pub open spec fn word_ops_stack(ops: Seq<ConstOp>, globals: Seq<Option<i32>>) -> Option<Seq<i32>>
    decreases ops.len(),
{
    if ops.len() == 0 {
        Some(seq![])
    } else {
        match word_ops_stack(ops.drop_last(), globals) {
            None => None,
            Some(st) => match ops.last() {
                ConstOp::I32Const(n) => Some(st.push(n)),
                ConstOp::I64Const(n) => Some(st.push(n as i32)),
                ConstOp::GlobalGet(g) => match global_read(globals, g) {
                    Some(v) => Some(st.push(v)),
                    None => None,
                },
                op => word_binop(st, op),
            },
        }
    }
}

/// The 32-bit value of a constant expression with the interpreter's
/// globals, if it is an integer one.
pub open spec fn const_word(e: ConstExpr, globals: Seq<Option<i32>>) -> Option<i32> {
    match e {
        ConstExpr::Value(Value::I32(n)) => Some(n),
        ConstExpr::Value(Value::I64(n)) => Some(n as i32),
        ConstExpr::Global(g) => global_read(globals, g),
        ConstExpr::Extended(ops) => match word_ops_stack(ops@, globals) {
            Some(st) => if st.len() == 1 {
                Some(st[0])
            } else {
                None
            },
            None => None,
        },
        _ => None,
    }
}

fn exec_word_binop(st: &mut Vec<i32>, op: ConstOp) -> (ok: bool)
    ensures
        match word_binop(old(st)@, op) {
            Some(s2) => ok && final(st)@ == s2,
            None => !ok,
        },
{
    let n = st.len();
    if n < 2 {
        return false;
    }
    let b = st[n - 1];
    let a = st[n - 2];
    let v = match op {
        ConstOp::I32Add | ConstOp::I64Add => a.wrapping_add(b),
        ConstOp::I32Sub | ConstOp::I64Sub => a.wrapping_sub(b),
        ConstOp::I32Mul | ConstOp::I64Mul => a.wrapping_mul(b),
        _ => {
            return false;
        },
    };
    st.pop();
    st.pop();
    st.push(v);
    proof {
        assert(st@ =~= old(st)@.subrange(0, n - 2).push(v));
    }
    true
}

fn exec_global_read(globals: &Vec<Option<i32>>, g: usize) -> (r: Option<i32>)
    ensures
        r == global_read(globals@, g),
{
    if g < globals.len() {
        globals[g]
    } else {
        None
    }
}

/// Once a prefix of the operations cannot be evaluated, neither can any
/// longer prefix.
proof fn lemma_word_ops_none(ops: Seq<ConstOp>, globals: Seq<Option<i32>>, i: nat)
    requires
        i < ops.len(),
        word_ops_stack(ops.take(i as int + 1), globals) is None,
    ensures
        word_ops_stack(ops, globals) is None,
    decreases ops.len() - i,
{
    if i + 1 < ops.len() {
        assert(ops.take(i as int + 2).drop_last() =~= ops.take(i as int + 1));
        lemma_word_ops_none(ops, globals, i + 1);
    } else {
        assert(ops.take(i as int + 1) =~= ops);
    }
}

/// Evaluates a constant expression (a segment offset) on 32-bit words
/// with the interpreter's globals; see [`const_word`].
pub fn eval_const(expr: &ConstExpr, globals: &Vec<Option<i32>>) -> (r: Option<i32>)
    ensures
        r == const_word(*expr, globals@),
{
    match expr {
        ConstExpr::Value(Value::I32(n)) => Some(*n),
        ConstExpr::Value(Value::I64(n)) => Some(*n as i32),
        ConstExpr::Global(g) => exec_global_read(globals, *g),
        ConstExpr::Extended(ops) => {
            let mut st: Vec<i32> = Vec::new();
            let mut i: usize = 0;
            while i < ops.len()
                invariant
                    *expr == ConstExpr::Extended(*ops),
                    i <= ops@.len(),
                    word_ops_stack(ops@.take(i as int), globals@) == Some(st@),
                decreases ops@.len() - i,
            {
                proof {
                    assert(ops@.take(i as int + 1).drop_last() =~= ops@.take(i as int));
                    assert(ops@.take(i as int + 1).last() == ops@[i as int]);
                }
                let ok = match ops[i] {
                    ConstOp::I32Const(n) => {
                        st.push(n);
                        true
                    },
                    ConstOp::I64Const(n) => {
                        st.push(n as i32);
                        true
                    },
                    ConstOp::GlobalGet(g) => match exec_global_read(globals, g) {
                        Some(v) => {
                            st.push(v);
                            true
                        },
                        None => false,
                    },
                    op => exec_word_binop(&mut st, op),
                };
                if !ok {
                    proof {
                        lemma_word_ops_none(ops@, globals@, i as nat);
                    }
                    return None;
                }
                i = i + 1;
            }
            proof {
                assert(ops@.take(i as int) =~= ops@);
            }
            if st.len() == 1 {
                Some(st[0])
            } else {
                None
            }
        },
        _ => None,
    }
}

/// The number of items of an element segment.
pub open spec fn items_len(items: ElementItems) -> nat {
    match items {
        ElementItems::Functions(fs) => fs@.len(),
        ElementItems::Expressions(es) => es@.len(),
    }
}

/// The table entry item `i` of a segment puts in place: a function, or
/// none for a null (or any other non-function) reference.
pub open spec fn item_entry(items: ElementItems, i: nat) -> Option<usize> {
    match items {
        ElementItems::Functions(fs) => Some(fs@[i as int]),
        ElementItems::Expressions(es) => match es@[i as int] {
            ConstExpr::RefFunc(f) => Some(f),
            _ => None,
        },
    }
}

/// The table index of item `i` of a segment that starts at `base`.
pub open spec fn slot_key(base: i32, i: nat) -> u32 {
    (base as u32).wrapping_add(i as u32)
}

/// The table after the first `k` items of a segment starting at `base`
/// were put in place.
pub open spec fn apply_items(t: Map<u32, Option<usize>>, base: i32, items: ElementItems, k: nat) -> Map<
    u32,
    Option<usize>,
>
    decreases k,
{
    if k == 0 {
        t
    } else {
        apply_items(t, base, items, (k - 1) as nat).insert(
            slot_key(base, (k - 1) as nat),
            item_entry(items, (k - 1) as nat),
        )
    }
}

/// Where an element segment starts, if it is an active segment of a table
/// of function references whose offset evaluates.
pub open spec fn segment_base(m: Module, e: Element, globals: Seq<Option<i32>>) -> Option<i32> {
    match e.kind {
        ElementKind::Active { table, offset } => if table < m.tables@.len()
            && m.tables@[table as int].funcref {
            const_word(offset, globals)
        } else {
            None
        },
        _ => None,
    }
}

/// The function table after the first `k` element segments, in order, so
/// that a later segment replaces what an earlier one put at an index.
pub open spec fn table_from_segments(m: Module, globals: Seq<Option<i32>>, k: nat) -> Map<
    u32,
    Option<usize>,
>
    decreases k,
{
    if k == 0 || k > m.elements@.len() {
        Map::empty()
    } else {
        let t = table_from_segments(m, globals, (k - 1) as nat);
        let e = m.elements@[k - 1];
        match segment_base(m, e, globals) {
            Some(base) => apply_items(t, base, e.items, items_len(e.items)),
            None => t,
        }
    }
}

/// The function exported under `name`, among the first `k` exports (the
/// first such export wins).
pub open spec fn exported_function(m: Module, name: Seq<char>, k: nat) -> Option<usize>
    decreases k,
{
    if k == 0 || k > m.exports@.len() {
        None
    } else {
        match exported_function(m, name, (k - 1) as nat) {
            Some(f) => Some(f),
            None => {
                let e = m.exports@[k - 1];
                match e.item {
                    ExportItem::Function(f) => if e.name@ == name {
                        Some(f)
                    } else {
                        None
                    },
                    _ => None,
                }
            },
        }
    }
}

/// Whether index `k` of the table holds function `f`.
pub open spec fn holds(t: Map<u32, Option<usize>>, k: u32, f: usize) -> bool {
    t.contains_key(k) && t[k] == Some(f)
}

/// The lowest index of the table that holds `f`.
pub open spec fn lowest_slot(t: Map<u32, Option<usize>>, f: usize) -> Option<u32> {
    if exists|k: u32| holds(t, k, f) {
        Some(choose|k: u32| holds(t, k, f) && forall|j: u32| holds(t, j, f) ==> k <= j)
    } else {
        None
    }
}

/// The first free table index at or above `initial` and above every index
/// in use.
pub open spec fn next_free(t: Map<u32, Option<usize>>, initial: nat) -> nat {
    if exists|k: u32| t.contains_key(k) {
        let top = choose|k: u32| t.contains_key(k) && forall|j: u32| t.contains_key(j) ==> j <= k;
        if top + 1 > initial {
            (top + 1) as nat
        } else {
            initial
        }
    } else {
        initial
    }
}

/// The initial size of the first table of function references.
pub open spec fn table_initial(m: Module) -> nat {
    let t = indices_where(m.tables@, |t: crate::wasm_model::Table| t.funcref);
    if t.len() > 0 {
        m.tables@[t[0] as int].initial as nat
    } else {
        0
    }
}

/// The globals, the function table and the unresolved `GOT.func` globals
/// while the `GOT.func` imports are resolved.
pub struct GotState {
    pub globals: Seq<Option<i32>>,
    pub table: Map<u32, Option<usize>>,
    pub unresolved: Seq<usize>,
}

/// Resolves one `GOT.func` import: its global gets the table index of the
/// exported function of the same name, a new index above all others if the
/// function has none yet; without such a function the global is marked
/// unresolved.
pub open spec fn got_step(m: Module, st: GotState, imp: Import) -> Result<GotState, InterpretError> {
    match imp.kind {
        ImportKind::Global(g) => if imp.module@ == "GOT.func"@ && g < st.globals.len() {
            match exported_function(m, imp.name@, m.exports@.len()) {
                None => Ok(
                    GotState {
                        globals: st.globals.update(g as int, None),
                        table: st.table,
                        unresolved: st.unresolved.push(g),
                    },
                ),
                Some(f) => match lowest_slot(st.table, f) {
                    Some(k) => Ok(
                        GotState {
                            globals: st.globals.update(g as int, Some(k as i32)),
                            table: st.table,
                            unresolved: st.unresolved,
                        },
                    ),
                    None => {
                        let n = next_free(st.table, table_initial(m));
                        if n > u32::MAX {
                            Err(InterpretError::FunctionTableFull)
                        } else {
                            Ok(
                                GotState {
                                    globals: st.globals.update(g as int, Some((n as u32) as i32)),
                                    table: st.table.insert(n as u32, Some(f)),
                                    unresolved: st.unresolved,
                                },
                            )
                        }
                    },
                },
            }
        } else {
            Ok(st)
        },
        _ => Ok(st),
    }
}

/// The state after the `GOT.func` imports among the first `k` imports were
/// resolved, in order.
pub open spec fn resolve_got(m: Module, st0: GotState, k: nat) -> Result<GotState, InterpretError>
    decreases k,
{
    if k == 0 || k > m.imports@.len() {
        Ok(st0)
    } else {
        match resolve_got(m, st0, (k - 1) as nat) {
            Err(e) => Err(e),
            Ok(st) => got_step(m, st, m.imports@[k - 1]),
        }
    }
}

/// The calls (direct or tail) among a sequence of instructions.
pub open spec fn call_targets(instrs: Seq<Instr>) -> Seq<usize>
    decreases instrs.len(),
{
    if instrs.len() == 0 {
        seq![]
    } else {
        let rest = call_targets(instrs.drop_last());
        match instrs.last() {
            Instr::Call(f) => rest.push(f),
            Instr::ReturnCall(f) => rest.push(f),
            _ => rest,
        }
    }
}

/// The `__wbindgen_skip_interpret_calls` export, and the functions its
/// body calls (the constructors that runs must skip).
pub open spec fn skip_setup(m: Module) -> Result<(Option<usize>, Seq<usize>), InterpretError> {
    let found = indices_where(
        m.exports@,
        |e: Export| e.name@ == "__wbindgen_skip_interpret_calls"@,
    );
    if found.len() == 0 {
        Ok((None, seq![]))
    } else {
        let x = found[0];
        match m.exports@[x as int].item {
            ExportItem::Function(f) => if f >= m.funcs@.len() {
                Err(InterpretError::UnknownFunction { func: f })
            } else {
                match m.funcs@[f as int].kind {
                    FunctionKind::Local(lf) => if lf.entry >= lf.seqs@.len() {
                        Err(InterpretError::UnknownSeq { seq: lf.entry })
                    } else {
                        Ok((Some(x), call_targets(lf.seqs@[lf.entry as int]@)))
                    },
                    _ => Err(InterpretError::NotLocal { func: f }),
                }
            },
            _ => Err(InterpretError::SkipInterpretNotFunction),
        }
    }
}

/// What [`Interpreter::new`] computes from a module, or why it fails.
pub open spec fn spec_setup(m: Module) -> Result<(GotState, Option<usize>, Seq<usize>), InterpretError> {
    let g = base_globals(m);
    let st0 = GotState {
        globals: g,
        table: table_from_segments(m, g, m.elements@.len()),
        unresolved: seq![],
    };
    match resolve_got(m, st0, m.imports@.len()) {
        Err(e) => Err(e),
        Ok(st) => match skip_setup(m) {
            Err(e) => Err(e),
            Ok((x, calls)) => Ok((st, x, calls)),
        },
    }
}

/// A ready-to-go interpreter of a module: the state of its runs, reused
/// from one run to the next, and what the runs need to know of the module.
pub struct Interpreter {
    /// What the runs know of the module.
    pub config: InterpConfig,
    /// Memory, stack, globals and the descriptor of the last run.
    pub state: Machine,
    /// The `__wbindgen_skip_interpret_calls` export.
    pub skip_interpret_export: Option<usize>,
}

impl Interpreter {
    /// Whether the list of used table indices matches the table.
    pub open spec fn wf(&self) -> bool {
        forall|k: u32| #[trigger] self.config.funcref_table@.contains_key(k) <==> self.config.table_slots@.contains(k)
    }

    /// Whether this interpreter is the one [`Interpreter::new`] sets up for
    /// `m`, with the outcome `v` of [`spec_setup`].
    pub open spec fn is_setup_of(&self, m: Module, v: (GotState, Option<usize>, Seq<usize>)) -> bool {
        &&& self.wf()
        &&& self.state@ == MachineView {
            mem: Seq::new(memory_words(m), |_i: int| 0i32),
            stack: seq![],
            globals: v.0.globals,
            descriptor: seq![],
            stopped: false,
        }
        &&& self.config.describe_id == placeholder_import(m, "__wbindgen_describe"@, m.imports@.len())
        &&& self.config.describe_cast_id == placeholder_import(
            m,
            "__wbindgen_describe_cast"@,
            m.imports@.len(),
        )
        &&& self.config.stack_pointer == spec_get_stack_pointer(m)
        &&& self.config.stack_pointer_initial == 0
        &&& self.config.skip_calls@ == v.2
        &&& self.config.invoke_imports@ == invoke_imports_of(m, m.imports@.len())
        &&& self.config.funcref_table@ == v.0.table
        &&& self.config.unresolved_got@ == v.0.unresolved
        &&& self.config.fuel == DEFAULT_FUEL
        &&& self.skip_interpret_export == v.1
    }
}


fn exec_initial_global(g: &Global) -> (r: Option<i32>)
    ensures
        r == initial_global(*g),
{
    match &g.kind {
        GlobalKind::Local(ConstExpr::Value(Value::I32(n))) => Some(*n),
        GlobalKind::Local(ConstExpr::Value(Value::I64(n))) => Some(*n as i32),
        GlobalKind::Import(_) => match g.ty {
            ValType::I32 | ValType::I64 => Some(0),
            _ => None,
        },
        _ => None,
    }
}

fn exec_sat_mul4(x: i32) -> (r: i32)
    ensures
        r == sat_mul4(x),
{
    if x > i32::MAX / 4 {
        i32::MAX
    } else if x < i32::MIN / 4 {
        i32::MIN
    } else {
        x * 4
    }
}

/// The globals before `GOT.func` resolution; see [`base_globals`].
fn exec_base_globals(m: &Module, mem_words: usize) -> (r: Vec<Option<i32>>)
    requires
        mem_words == memory_words(*m),
    ensures
        r@ == base_globals(*m),
{
    let ghost gs = m.globals@;
    let mut out: Vec<Option<i32>> = Vec::new();
    let mut i: usize = 0;
    while i < m.globals.len()
        invariant
            gs == m.globals@,
            i <= gs.len(),
            out@ == gs.take(i as int).map_values(|g: Global| initial_global(g)),
        decreases gs.len() - i,
    {
        out.push(exec_initial_global(&m.globals[i]));
        i = i + 1;
        proof {
            assert(out@ =~= gs.take(i as int).map_values(|g: Global| initial_global(g)));
        }
    }
    proof {
        assert(gs.take(i as int) =~= gs);
    }
    match get_stack_pointer(m) {
        Some(sp) => {
            if sp < out.len() {
                match &m.globals[sp].kind {
                    GlobalKind::Import(_) => {
                        out.set(sp, Some(exec_sat_mul4(mem_words as i32)));
                    },
                    _ => {},
                }
            }
        },
        None => {},
    }
    out
}

/// The special imports: `__wbindgen_describe`, `__wbindgen_describe_cast`
/// and the `invoke_*` trampolines.
fn exec_special_imports(m: &Module) -> (r: (Option<usize>, Option<usize>, Vec<usize>))
    ensures
        r.0 == placeholder_import(*m, "__wbindgen_describe"@, m.imports@.len()),
        r.1 == placeholder_import(*m, "__wbindgen_describe_cast"@, m.imports@.len()),
        r.2@ == invoke_imports_of(*m, m.imports@.len()),
{
    let mut describe: Option<usize> = None;
    let mut cast: Option<usize> = None;
    let mut invokes: Vec<usize> = Vec::new();
    let mut i: usize = 0;
    while i < m.imports.len()
        invariant
            i <= m.imports@.len(),
            describe == placeholder_import(*m, "__wbindgen_describe"@, i as nat),
            cast == placeholder_import(*m, "__wbindgen_describe_cast"@, i as nat),
            invokes@ == invoke_imports_of(*m, i as nat),
        decreases m.imports@.len() - i,
    {
        let imp = &m.imports[i];
        match imp.kind {
            ImportKind::Function(f) => {
                if text_is(imp.module.as_str(), "__wbindgen_placeholder__") {
                    if text_is(imp.name.as_str(), "__wbindgen_describe") {
                        describe = Some(f);
                    }
                    if text_is(imp.name.as_str(), "__wbindgen_describe_cast") {
                        cast = Some(f);
                    }
                }
                if text_is(imp.module.as_str(), "env") && slice_starts_with(
                    imp.name.as_str().as_bytes(),
                    "invoke_".as_bytes(),
                ) {
                    invokes.push(f);
                }
            },
            _ => {},
        }
        i = i + 1;
    }
    (describe, cast, invokes)
}

/// Whether `slots` lists exactly the indices in use in `table`.
pub open spec fn slots_match(table: Map<u32, Option<usize>>, slots: Seq<u32>) -> bool {
    forall|k: u32| #[trigger] table.contains_key(k) <==> slots.contains(k)
}

/// Puts `v` at index `key` of the table, keeping the list of used indices.
fn table_put(table: &mut BTreeMap<u32, Option<usize>>, slots: &mut Vec<u32>, key: u32, v: Option<usize>)
    requires
        slots_match(old(table)@, old(slots)@),
    ensures
        final(table)@ == old(table)@.insert(key, v),
        slots_match(final(table)@, final(slots)@),
{
    table.insert(key, v);
    slots.push(key);
    proof {
        assert forall|k: u32| #[trigger] table@.contains_key(k) <==> slots@.contains(k) by {
            if k == key {
                assert(slots@[slots@.len() - 1] == key);
            } else {
                if old(slots)@.contains(k) {
                    let j = choose|j: int| 0 <= j < old(slots)@.len() && old(slots)@[j] == k;
                    assert(slots@[j] == k);
                }
                if slots@.contains(k) {
                    let j = choose|j: int| 0 <= j < slots@.len() && slots@[j] == k;
                    assert(old(slots)@[j] == k);
                }
            }
        }
    }
}

/// The function table that the active element segments lay out.
fn exec_table_from_segments(m: &Module, globals: &Vec<Option<i32>>) -> (r: (BTreeMap<u32, Option<usize>>, Vec<u32>))
    ensures
        r.0@ == table_from_segments(*m, globals@, m.elements@.len()),
        slots_match(r.0@, r.1@),
{
    let mut table: BTreeMap<u32, Option<usize>> = BTreeMap::new();
    let mut slots: Vec<u32> = Vec::new();
    let mut j: usize = 0;
    while j < m.elements.len()
        invariant
            j <= m.elements@.len(),
            table@ == table_from_segments(*m, globals@, j as nat),
            slots_match(table@, slots@),
        decreases m.elements@.len() - j,
    {
        let e = &m.elements[j];
        let base = match &e.kind {
            ElementKind::Active { table: t, offset } => {
                if *t < m.tables.len() && m.tables[*t].funcref {
                    eval_const(offset, globals)
                } else {
                    None
                }
            },
            _ => None,
        };
        match base {
            Some(base) => {
                let ghost t0 = table@;
                let n = match &e.items {
                    ElementItems::Functions(fs) => fs.len(),
                    ElementItems::Expressions(es) => es.len(),
                };
                let mut k: usize = 0;
                while k < n
                    invariant
                        n == items_len(e.items),
                        k <= n,
                        table@ == apply_items(t0, base, e.items, k as nat),
                        slots_match(table@, slots@),
                    decreases n - k,
                {
                    let v = match &e.items {
                        ElementItems::Functions(fs) => Some(fs[k]),
                        ElementItems::Expressions(es) => match &es[k] {
                            ConstExpr::RefFunc(f) => Some(*f),
                            _ => None,
                        },
                    };
                    let key = (base as u32).wrapping_add(k as u32);
                    table_put(&mut table, &mut slots, key, v);
                    k = k + 1;
                }
            },
            None => {},
        }
        j = j + 1;
    }
    (table, slots)
}

/// The function exported under `name`; see [`exported_function`].
fn exec_exported_function(m: &Module, name: &str) -> (r: Option<usize>)
    ensures
        r == exported_function(*m, name@, m.exports@.len()),
{
    let mut found: Option<usize> = None;
    let mut i: usize = 0;
    while i < m.exports.len()
        invariant
            i <= m.exports@.len(),
            found == exported_function(*m, name@, i as nat),
        decreases m.exports@.len() - i,
    {
        if found.is_none() {
            match m.exports[i].item {
                ExportItem::Function(f) => {
                    if text_is(m.exports[i].name.as_str(), name) {
                        found = Some(f);
                    }
                },
                _ => {},
            }
        }
        i = i + 1;
    }
    found
}

/// The lowest table index that holds `f`; see [`lowest_slot`].
fn exec_lowest_slot(table: &BTreeMap<u32, Option<usize>>, slots: &Vec<u32>, f: usize) -> (r: Option<u32>)
    requires
        slots_match(table@, slots@),
    ensures
        r == lowest_slot(table@, f),
{
    let mut best: Option<u32> = None;
    let mut i: usize = 0;
    while i < slots.len()
        invariant
            slots_match(table@, slots@),
            i <= slots@.len(),
            best matches Some(b) ==> holds(table@, b, f),
            forall|j: int| 0 <= j < i && holds(table@, #[trigger] slots@[j], f) ==> (best matches Some(b) && b
                <= slots@[j]),
        decreases slots@.len() - i,
    {
        let k = slots[i];
        match table.get(&k) {
            Some(Some(g)) => {
                if *g == f {
                    match best {
                        Some(b) => {
                            if k < b {
                                best = Some(k);
                            }
                        },
                        None => {
                            best = Some(k);
                        },
                    }
                }
            },
            _ => {},
        }
        i = i + 1;
    }
    match best {
        Some(b) => {
            proof {
                assert(holds(table@, b, f));
                assert forall|j: u32| holds(table@, j, f) implies b <= j by {
                    assert(table@.contains_key(j));
                    let x = choose|x: int| 0 <= x < slots@.len() && slots@[x] == j;
                }
                let c = choose|k: u32| holds(table@, k, f) && forall|j: u32| holds(table@, j, f) ==> k <= j;
                assert(c <= b && b <= c);
            }
            Some(b)
        },
        None => {
            proof {
                assert forall|k: u32| !holds(table@, k, f) by {
                    if holds(table@, k, f) {
                        assert(table@.contains_key(k));
                        let x = choose|x: int| 0 <= x < slots@.len() && slots@[x] == k;
                    }
                }
            }
            None
        },
    }
}

/// The first free table index at or above `initial`; see [`next_free`].
fn exec_next_free(table: &BTreeMap<u32, Option<usize>>, slots: &Vec<u32>, initial: u64) -> (r: u64)
    requires
        slots_match(table@, slots@),
    ensures
        r as nat == next_free(table@, initial as nat),
{
    let mut top: Option<u32> = None;
    let mut i: usize = 0;
    while i < slots.len()
        invariant
            slots_match(table@, slots@),
            i <= slots@.len(),
            top matches Some(t) ==> table@.contains_key(t),
            forall|j: int| 0 <= j < i ==> (top matches Some(t) && #[trigger] slots@[j] <= t),
        decreases slots@.len() - i,
    {
        let k = slots[i];
        assert(slots@.contains(k));
        match top {
            Some(t) => {
                if k > t {
                    top = Some(k);
                }
            },
            None => {
                top = Some(k);
            },
        }
        i = i + 1;
    }
    match top {
        Some(t) => {
            proof {
                assert forall|j: u32| table@.contains_key(j) implies j <= t by {
                    let x = choose|x: int| 0 <= x < slots@.len() && slots@[x] == j;
                }
                let c = choose|k: u32| table@.contains_key(k) && forall|j: u32| table@.contains_key(j) ==> j <= k;
                assert(c <= t && t <= c);
            }
            let above = t as u64 + 1;
            if above > initial {
                above
            } else {
                initial
            }
        },
        None => {
            proof {
                assert forall|k: u32| !table@.contains_key(k) by {
                    if table@.contains_key(k) {
                        let x = choose|x: int| 0 <= x < slots@.len() && slots@[x] == k;
                    }
                }
            }
            initial
        },
    }
}

/// The initial size of the first table of function references.
fn exec_table_initial(m: &Module) -> (r: u64)
    ensures
        r as nat == table_initial(*m),
{
    let ghost ts = m.tables@;
    let mut found: Vec<usize> = Vec::new();
    let mut i: usize = 0;
    while i < m.tables.len()
        invariant
            ts == m.tables@,
            i <= ts.len(),
            found@ == indices_where(ts.take(i as int), |t: crate::wasm_model::Table| t.funcref),
        decreases ts.len() - i,
    {
        proof {
            assert(ts.take(i as int + 1).drop_last() =~= ts.take(i as int));
        }
        if m.tables[i].funcref {
            found.push(i);
        }
        i = i + 1;
    }
    proof {
        assert(ts.take(i as int) =~= ts);
        lemma_indices_where(ts, |t: crate::wasm_model::Table| t.funcref);
    }
    if found.len() > 0 {
        m.tables[found[0]].initial
    } else {
        0
    }
}

/// A failure at some point of the `GOT.func` resolution is its outcome.
proof fn lemma_resolve_got_err(m: Module, st0: GotState, i: nat, k: nat)
    requires
        i <= k <= m.imports@.len(),
        resolve_got(m, st0, i) is Err,
    ensures
        resolve_got(m, st0, k) == resolve_got(m, st0, i),
    decreases k - i,
{
    if i < k {
        lemma_resolve_got_err(m, st0, i, (k - 1) as nat);
    }
}

/// Resolves one `GOT.func` import; see [`got_step`].
fn exec_got_step(
    m: &Module,
    imp: &Import,
    initial: u64,
    globals: &mut Vec<Option<i32>>,
    table: &mut BTreeMap<u32, Option<usize>>,
    slots: &mut Vec<u32>,
    unresolved: &mut Vec<usize>,
) -> (r: Result<(), ()>)
    requires
        initial as nat == table_initial(*m),
        slots_match(old(table)@, old(slots)@),
    ensures
        match got_step(
            *m,
            GotState { globals: old(globals)@, table: old(table)@, unresolved: old(unresolved)@ },
            *imp,
        ) {
            Ok(st) => r is Ok && final(globals)@ == st.globals && final(table)@ == st.table
                && final(unresolved)@ == st.unresolved && slots_match(final(table)@, final(slots)@),
            Err(e) => r is Err && e == InterpretError::FunctionTableFull,
        },
{
    match imp.kind {
        ImportKind::Global(g) => {
            if text_is(imp.module.as_str(), "GOT.func") && g < globals.len() {
                match exec_exported_function(m, imp.name.as_str()) {
                    None => {
                        globals.set(g, None);
                        unresolved.push(g);
                    },
                    Some(f) => match exec_lowest_slot(table, slots, f) {
                        Some(k) => {
                            globals.set(g, Some(k as i32));
                        },
                        None => {
                            let n = exec_next_free(table, slots, initial);
                            if n > u32::MAX as u64 {
                                return Err(());
                            }
                            table_put(table, slots, n as u32, Some(f));
                            globals.set(g, Some((n as u32) as i32));
                        },
                    },
                }
            }
        },
        _ => {},
    }
    Ok(())
}

/// Resolves the `GOT.func` imports; see [`resolve_got`].
fn exec_resolve_got(
    m: &Module,
    globals: &mut Vec<Option<i32>>,
    table: &mut BTreeMap<u32, Option<usize>>,
    slots: &mut Vec<u32>,
) -> (r: Result<Vec<usize>, InterpretError>)
    requires
        slots_match(old(table)@, old(slots)@),
    ensures
        match resolve_got(
            *m,
            GotState { globals: old(globals)@, table: old(table)@, unresolved: seq![] },
            m.imports@.len(),
        ) {
            Ok(st) => r matches Ok(u) && u@ == st.unresolved && final(globals)@ == st.globals
                && final(table)@ == st.table && slots_match(final(table)@, final(slots)@),
            Err(e) => r == Err::<Vec<usize>, InterpretError>(e),
        },
{
    let ghost st0 = GotState { globals: globals@, table: table@, unresolved: seq![] };
    let initial = exec_table_initial(m);
    let mut unresolved: Vec<usize> = Vec::new();
    let mut i: usize = 0;
    while i < m.imports.len()
        invariant
            i <= m.imports@.len(),
            initial as nat == table_initial(*m),
            st0 == (GotState { globals: old(globals)@, table: old(table)@, unresolved: seq![] }),
            resolve_got(*m, st0, i as nat) == Ok::<GotState, InterpretError>(
                GotState { globals: globals@, table: table@, unresolved: unresolved@ },
            ),
            slots_match(table@, slots@),
        decreases m.imports@.len() - i,
    {
        let step = exec_got_step(m, &m.imports[i], initial, globals, table, slots, &mut unresolved);
        if step.is_err() {
            proof {
                lemma_resolve_got_err(*m, st0, i as nat + 1, m.imports@.len());
            }
            return Err(InterpretError::FunctionTableFull);
        }
        i = i + 1;
    }
    Ok(unresolved)
}

/// The functions that a sequence of instructions calls.
fn exec_call_targets(instrs: &Vec<Instr>) -> (r: Vec<usize>)
    ensures
        r@ == call_targets(instrs@),
{
    let mut out: Vec<usize> = Vec::new();
    let mut i: usize = 0;
    while i < instrs.len()
        invariant
            i <= instrs@.len(),
            out@ == call_targets(instrs@.take(i as int)),
        decreases instrs@.len() - i,
    {
        proof {
            assert(instrs@.take(i as int + 1).drop_last() =~= instrs@.take(i as int));
        }
        match &instrs[i] {
            Instr::Call(f) => out.push(*f),
            Instr::ReturnCall(f) => out.push(*f),
            _ => {},
        }
        i = i + 1;
    }
    proof {
        assert(instrs@.take(i as int) =~= instrs@);
    }
    out
}

/// The `__wbindgen_skip_interpret_calls` export and the calls to skip; see
/// [`skip_setup`].
fn exec_skip_setup(m: &Module) -> (r: Result<(Option<usize>, Vec<usize>), InterpretError>)
    ensures
        match skip_setup(*m) {
            Ok((x, calls)) => r matches Ok((rx, rc)) && rx == x && rc@ == calls,
            Err(e) => r matches Err(re) && re == e,
        },
{
    let ghost es = m.exports@;
    let mut found: Vec<usize> = Vec::new();
    let mut i: usize = 0;
    while i < m.exports.len()
        invariant
            es == m.exports@,
            i <= es.len(),
            found@ == indices_where(
                es.take(i as int),
                |e: Export| e.name@ == "__wbindgen_skip_interpret_calls"@,
            ),
        decreases es.len() - i,
    {
        proof {
            assert(es.take(i as int + 1).drop_last() =~= es.take(i as int));
        }
        if text_is(m.exports[i].name.as_str(), "__wbindgen_skip_interpret_calls") {
            found.push(i);
        }
        i = i + 1;
    }
    proof {
        assert(es.take(i as int) =~= es);
        lemma_indices_where(es, |e: Export| e.name@ == "__wbindgen_skip_interpret_calls"@);
    }
    if found.len() == 0 {
        return Ok((None, Vec::new()));
    }
    let x = found[0];
    match m.exports[x].item {
        ExportItem::Function(f) => {
            if f >= m.funcs.len() {
                return Err(InterpretError::UnknownFunction { func: f });
            }
            match &m.funcs[f].kind {
                FunctionKind::Local(lf) => {
                    if lf.entry >= lf.seqs.len() {
                        Err(InterpretError::UnknownSeq { seq: lf.entry })
                    } else {
                        Ok((Some(x), exec_call_targets(&lf.seqs[lf.entry])))
                    }
                },
                _ => Err(InterpretError::NotLocal { func: f }),
            }
        },
        _ => Err(InterpretError::SkipInterpretNotFunction),
    }
}

impl Interpreter {
    /// Creates an interpreter for `module`, precomputing all that runs of
    /// its descriptor functions need; see [`spec_setup`]. The same module
    /// must be passed to [`Interpreter::interpret_descriptor`].
    pub fn new(module: &Module) -> (r: Result<Interpreter, InterpretError>)
        requires
            module.memories@.len() > 0 ==> module.memories@[0].initial * 65536 <= usize::MAX,
        ensures
            match spec_setup(*module) {
                Ok(v) => r matches Ok(i) && i.is_setup_of(*module, v),
                Err(e) => r matches Err(re) && re == e,
            },
    {
        let words: usize = if module.memories.len() > 0 {
            (module.memories[0].initial as usize) * 16384
        } else {
            0
        };
        let mut mem: Vec<i32> = Vec::new();
        let mut w: usize = 0;
        while w < words
            invariant
                w <= words,
                mem@ == Seq::new(w as nat, |_i: int| 0i32),
            decreases words - w,
        {
            mem.push(0);
            w = w + 1;
            proof {
                assert(mem@ =~= Seq::new(w as nat, |_i: int| 0i32));
            }
        }
        let mut globals = exec_base_globals(module, words);
        let (describe_id, describe_cast_id, invoke_imports) = exec_special_imports(module);
        let (mut table, mut slots) = exec_table_from_segments(module, &globals);
        let unresolved = exec_resolve_got(module, &mut globals, &mut table, &mut slots)?;
        let (skip_interpret_export, skip_calls) = exec_skip_setup(module)?;
        Ok(Interpreter {
            config: InterpConfig {
                describe_id,
                describe_cast_id,
                stack_pointer: get_stack_pointer(module),
                stack_pointer_initial: 0,
                skip_calls,
                invoke_imports,
                funcref_table: table,
                table_slots: slots,
                unresolved_got: unresolved,
                fuel: DEFAULT_FUEL,
            },
            state: Machine {
                mem,
                stack: Vec::new(),
                globals,
                descriptor: Vec::new(),
                stopped: false,
            },
            skip_interpret_export,
        })
    }
}


/// What a run of descriptor function `id` starts from: the descriptor
/// emptied, the stop flag cleared, and the current stack pointer noted
/// (which must be a tracked global).
pub open spec fn run_start(c: InterpConfig, s: MachineView) -> Result<(InterpConfig, MachineView), InterpretError> {
    let s1 = MachineView { descriptor: seq![], stopped: false, ..s };
    match c.stack_pointer {
        Some(sp) => match global_read(s.globals, sp) {
            Some(v) => Ok((InterpConfig { stack_pointer_initial: v, ..c }, s1)),
            None => Err(InterpretError::UnknownGlobal { global: sp }),
        },
        None => Ok((c, s1)),
    }
}

/// A run of descriptor function `id`: it is called with zeroes for its
/// parameters and the default budget, and must leave the stack pointer as
/// it found it.
pub open spec fn run_descriptor(m: Module, c: InterpConfig, s: MachineView, id: usize) -> Result<
    MachineView,
    InterpretError,
> {
    match crate::interpreter::param_count(m, id) {
        None => Err(InterpretError::UnknownFunction { func: id }),
        Some(k) => match call(m, c, s, id, Seq::new(k, |_i: int| 0i32), c.fuel as nat) {
            Err(e) => Err(e),
            Ok((s2, _)) => match c.stack_pointer {
                Some(sp) => if global_read(s2.globals, sp) == Some(c.stack_pointer_initial) {
                    Ok(s2)
                } else {
                    Err(InterpretError::StackPointerNotRestored)
                },
                None => Ok(s2),
            },
        },
    }
}

/// The outcome of [`Interpreter::interpret_descriptor`]: the configuration
/// and state after the run.
pub open spec fn spec_interpret(m: Module, c: InterpConfig, s: MachineView, id: usize) -> Result<
    (InterpConfig, MachineView),
    InterpretError,
> {
    match run_start(c, s) {
        Err(e) => Err(e),
        Ok((c1, s1)) => match run_descriptor(m, c1, s1, id) {
            Err(e) => Err(e),
            Ok(s2) => Ok((c1, s2)),
        },
    }
}

impl Interpreter {
    /// Interprets descriptor function `id` of `module` (the module this
    /// interpreter was set up for) and returns the descriptor words it
    /// emitted; see [`spec_interpret`]. A run that reads an import of
    /// `GOT.func` that names no exported function cannot be interpreted
    /// and is left out; [`Interpreter::try_interpret_descriptor`] reports it.
    pub fn interpret_descriptor(&mut self, id: usize, module: &Module) -> (r: Result<Vec<u32>, InterpretError>)
        requires
            old(self).wf(),
            !(spec_interpret(*module, old(self).config, old(self).state@, id) matches Err(
                InterpretError::UnresolvedGotFunc { .. },
            )),
        ensures
            final(self).wf(),
            final(self).skip_interpret_export == old(self).skip_interpret_export,
            final(self).config == (InterpConfig {
                stack_pointer_initial: final(self).config.stack_pointer_initial,
                ..old(self).config
            }),
            match spec_interpret(*module, old(self).config, old(self).state@, id) {
                Ok((c2, s2)) => r matches Ok(d) && d@ == s2.descriptor && final(self).state@ == s2
                    && final(self).config == c2,
                Err(e) => r matches Err(re) && re == e,
            },
    {
        self.try_interpret_descriptor(id, module)
    }

    /// Interprets descriptor function `id` of `module` like
    /// [`Interpreter::interpret_descriptor`], for any run: one that reads an
    /// unresolved `GOT.func` import ends in
    /// [`InterpretError::UnresolvedGotFunc`].
    pub fn try_interpret_descriptor(&mut self, id: usize, module: &Module) -> (r: Result<Vec<u32>, InterpretError>)
        requires
            old(self).wf(),
        ensures
            final(self).wf(),
            final(self).skip_interpret_export == old(self).skip_interpret_export,
            final(self).config == (InterpConfig {
                stack_pointer_initial: final(self).config.stack_pointer_initial,
                ..old(self).config
            }),
            match spec_interpret(*module, old(self).config, old(self).state@, id) {
                Ok((c2, s2)) => r matches Ok(d) && d@ == s2.descriptor && final(self).state@ == s2
                    && final(self).config == c2,
                Err(e) => r matches Err(re) && re == e,
            },
    {
        self.state.descriptor.clear();
        self.state.stopped = false;
        match self.config.stack_pointer {
            Some(sp) => {
                let v = if sp < self.state.globals.len() {
                    self.state.globals[sp]
                } else {
                    None
                };
                match v {
                    Some(v) => {
                        self.config.stack_pointer_initial = v;
                    },
                    None => {
                        return Err(InterpretError::UnknownGlobal { global: sp });
                    },
                }
            },
            None => {},
        }
        let k = match crate::interpreter::exec_param_count(module, id) {
            Some(k) => k,
            None => {
                return Err(InterpretError::UnknownFunction { func: id });
            },
        };
        let mut args: Vec<i32> = Vec::new();
        let mut j: usize = 0;
        while j < k
            invariant
                j <= k,
                args@ == Seq::new(j as nat, |_i: int| 0i32),
            decreases k - j,
        {
            args.push(0);
            j = j + 1;
            proof {
                assert(args@ =~= Seq::new(j as nat, |_i: int| 0i32));
            }
        }
        exec_call(module, &self.config, &mut self.state, id, args, self.config.fuel)?;
        match self.config.stack_pointer {
            Some(sp) => {
                let now = if sp < self.state.globals.len() {
                    self.state.globals[sp]
                } else {
                    None
                };
                match now {
                    Some(v) => {
                        if v != self.config.stack_pointer_initial {
                            return Err(InterpretError::StackPointerNotRestored);
                        }
                    },
                    None => {
                        return Err(InterpretError::StackPointerNotRestored);
                    },
                }
            },
            None => {},
        }
        let mut out: Vec<u32> = Vec::new();
        let mut i: usize = 0;
        while i < self.state.descriptor.len()
            invariant
                i <= self.state.descriptor@.len(),
                out@ == self.state.descriptor@.take(i as int),
            decreases self.state.descriptor@.len() - i,
        {
            out.push(self.state.descriptor[i]);
            i = i + 1;
            proof {
                assert(out@ =~= self.state.descriptor@.take(i as int));
            }
        }
        proof {
            assert(self.state.descriptor@.take(i as int) =~= self.state.descriptor@);
        }
        Ok(out)
    }

    /// The `__wbindgen_describe_cast` import.
    pub fn describe_cast_id(&self) -> (r: Option<usize>)
        ensures
            r == self.config.describe_cast_id,
    {
        self.config.describe_cast_id
    }

    /// Sets how many steps a run may take before it stops with
    /// [`InterpretError::OutOfFuel`].
    pub fn set_fuel(&mut self, fuel: u64)
        ensures
            final(self).config == (InterpConfig { fuel, ..old(self).config }),
            final(self).state == old(self).state,
            final(self).skip_interpret_export == old(self).skip_interpret_export,
    {
        self.config.fuel = fuel;
    }

    /// The `__wbindgen_skip_interpret_calls` export.
    pub fn skip_interpret(&self) -> (r: Option<usize>)
        ensures
            r == self.skip_interpret_export,
    {
        self.skip_interpret_export
    }

    /// The values of the globals the interpreter tracks, by global index.
    pub fn globals(&self) -> (r: &Vec<Option<i32>>)
        ensures
            r@ == self.state.globals@,
    {
        &self.state.globals
    }

    /// The function at index `index` of the function table.
    pub fn table_entry(&self, index: u32) -> (r: Result<usize, InterpretError>)
        ensures
            match crate::interpreter::table_entry(self.config, index) {
                Some(f) => r == Ok::<usize, InterpretError>(f),
                None => r == Err::<usize, InterpretError>(InterpretError::TableEntryUnavailable { index }),
            },
    {
        match crate::interpreter::exec_table_entry(&self.config, index) {
            Some(f) => Ok(f),
            None => Err(InterpretError::TableEntryUnavailable { index }),
        }
    }

    /// The function table: each index that holds a function, with it.
    pub fn into_function_table(self) -> (r: BTreeMap<u32, usize>)
        requires
            self.wf(),
        ensures
            forall|k: u32| #[trigger] r@.contains_key(k) <==> crate::interpreter::table_entry(self.config, k) is Some,
            forall|k: u32| #[trigger] r@.contains_key(k) ==> crate::interpreter::table_entry(self.config, k) == Some(r@[k]),
    {
        let c = self.config;
        let mut out: BTreeMap<u32, usize> = BTreeMap::new();
        let mut i: usize = 0;
        while i < c.table_slots.len()
            invariant
                slots_match(c.funcref_table@, c.table_slots@),
                i <= c.table_slots@.len(),
                forall|k: u32| #[trigger] out@.contains_key(k) ==> crate::interpreter::table_entry(c, k) == Some(out@[k]),
                forall|j: int| 0 <= j < i && crate::interpreter::table_entry(c, #[trigger] c.table_slots@[j]) is Some
                    ==> out@.contains_key(c.table_slots@[j]),
            decreases c.table_slots@.len() - i,
        {
            let k = c.table_slots[i];
            match crate::interpreter::exec_table_entry(&c, k) {
                Some(f) => {
                    out.insert(k, f);
                },
                None => {},
            }
            i = i + 1;
        }
        proof {
            assert forall|k: u32| crate::interpreter::table_entry(c, k) is Some implies #[trigger] out@.contains_key(k) by {
                assert(c.funcref_table@.contains_key(k));
                let j = choose|j: int| 0 <= j < c.table_slots@.len() && c.table_slots@[j] == k;
            }
        }
        out
    }
}


/// The name of the `GOT.func` import that global `g` comes from.
pub open spec fn got_import_name(m: Module, g: usize) -> Option<Seq<char>> {
    if g < m.globals@.len() {
        match m.globals@[g as int].kind {
            GlobalKind::Import(imp) => if imp < m.imports@.len() {
                Some(m.imports@[imp as int].name@)
            } else {
                None
            },
            _ => None,
        }
    } else {
        None
    }
}

/// The message of an [`InterpretError`] met while interpreting `m`.
pub open spec fn interpret_message(e: InterpretError, m: Module) -> Seq<char> {
    match e {
            InterpretError::NotLocal { func } => "can only call locally defined functions (function "@ + decimal(func as nat) + ")"@,
            InterpretError::ArgCount { func } => "function "@ + decimal(func as nat) + " called with the wrong number of arguments"@,
            InterpretError::UnknownFunction { func } => "function "@ + decimal(func as nat) + " is not in the module"@,
            InterpretError::UnknownType { ty } => "type "@ + decimal(ty as nat) + " is not in the module"@,
            InterpretError::UnknownSeq { seq } => "instruction sequence "@ + decimal(seq as nat) + " is not in the function"@,
            InterpretError::UnknownGlobal { global } => "global "@ + decimal(global as nat) + " not found, this is a bug in wasm-bindgen"@,
            InterpretError::StackUnderflow => "the value stack is empty"@,
            InterpretError::NonIntegerConstant => "non-integer constant"@,
            InterpretError::InvalidBinaryOp => "invalid binary op"@,
            InterpretError::InvalidUnaryOp => "invalid unary op"@,
            InterpretError::ZeroAddress => "Read a negative or zero address value from the stack. Did we run out of memory?"@,
            InterpretError::Misaligned { address } => "misaligned access at address "@ + decimal(address as nat),
            InterpretError::AddressOverflow => "address computation overflowed"@,
            InterpretError::OutOfBounds { address } => "address "@ + decimal(address as nat) + " is outside the interpreter's memory"@,
            InterpretError::UnhandledLoad { width } => "Unhandled load width "@ + decimal(width as nat),
            InterpretError::UnhandledStore { width } => "Unhandled store width "@ + decimal(width as nat),
            InterpretError::UnknownInstruction => "unknown instruction"@,
            InterpretError::InvokeWithoutPointer => "invoke_* always takes a function pointer"@,
            InterpretError::InvokeTargetMissing { index } => "invoke_* target "@ + signed_decimal(index as int) + " not found in the function table"@,
            InterpretError::TableEntryUnavailable { index } => "function table entry "@ + decimal(index as nat) + " is unavailable during descriptor interpretation"@,
            InterpretError::IndirectTypeMismatch { index } => "indirect call type mismatch at function table index "@ + decimal(index as nat),
            InterpretError::StackPointerNotRestored => "the stack pointer was not restored by the descriptor function"@,
            InterpretError::OutOfFuel => "the descriptor function ran out of steps"@,
            InterpretError::UnresolvedGotFunc { global } => match got_import_name(m, global) {
                Some(name) => "cannot resolve GOT.func::"@ + name + " during descriptor interpretation"@,
                None => "cannot resolve GOT.func global "@ + decimal(global as nat) + " during descriptor interpretation"@,
            },
            InterpretError::FunctionTableFull => "no function table index is left for a GOT.func function"@,
            InterpretError::SkipInterpretNotFunction => "__wbindgen_skip_interpret_calls must be an export function"@,
    }
}

impl InterpretError {
    /// The error's message; `module` is the module that was interpreted,
    /// which names the globals and imports the error refers to.
    pub fn message(&self, module: &Module) -> (s: String)
        ensures
            s@ == interpret_message(*self, *module),
    {
        let mut s = String::new();
        match self {
            InterpretError::NotLocal { func } => {
                push_text(&mut s, "can only call locally defined functions (function ");
                push_decimal(&mut s, *func as u64);
                push_text(&mut s, ")");
            },
            InterpretError::ArgCount { func } => {
                push_text(&mut s, "function ");
                push_decimal(&mut s, *func as u64);
                push_text(&mut s, " called with the wrong number of arguments");
            },
            InterpretError::UnknownFunction { func } => {
                push_text(&mut s, "function ");
                push_decimal(&mut s, *func as u64);
                push_text(&mut s, " is not in the module");
            },
            InterpretError::UnknownType { ty } => {
                push_text(&mut s, "type ");
                push_decimal(&mut s, *ty as u64);
                push_text(&mut s, " is not in the module");
            },
            InterpretError::UnknownSeq { seq } => {
                push_text(&mut s, "instruction sequence ");
                push_decimal(&mut s, *seq as u64);
                push_text(&mut s, " is not in the function");
            },
            InterpretError::UnknownGlobal { global } => {
                push_text(&mut s, "global ");
                push_decimal(&mut s, *global as u64);
                push_text(&mut s, " not found, this is a bug in wasm-bindgen");
            },
            InterpretError::StackUnderflow => push_text(&mut s, "the value stack is empty"),
            InterpretError::NonIntegerConstant => push_text(&mut s, "non-integer constant"),
            InterpretError::InvalidBinaryOp => push_text(&mut s, "invalid binary op"),
            InterpretError::InvalidUnaryOp => push_text(&mut s, "invalid unary op"),
            InterpretError::ZeroAddress => push_text(&mut s, "Read a negative or zero address value from the stack. Did we run out of memory?"),
            InterpretError::Misaligned { address } => {
                push_text(&mut s, "misaligned access at address ");
                push_decimal(&mut s, *address as u64);
            },
            InterpretError::AddressOverflow => push_text(&mut s, "address computation overflowed"),
            InterpretError::OutOfBounds { address } => {
                push_text(&mut s, "address ");
                push_decimal(&mut s, *address as u64);
                push_text(&mut s, " is outside the interpreter's memory");
            },
            InterpretError::UnhandledLoad { width } => {
                push_text(&mut s, "Unhandled load width ");
                push_decimal(&mut s, *width as u64);
            },
            InterpretError::UnhandledStore { width } => {
                push_text(&mut s, "Unhandled store width ");
                push_decimal(&mut s, *width as u64);
            },
            InterpretError::UnknownInstruction => push_text(&mut s, "unknown instruction"),
            InterpretError::InvokeWithoutPointer => push_text(&mut s, "invoke_* always takes a function pointer"),
            InterpretError::InvokeTargetMissing { index } => {
                push_text(&mut s, "invoke_* target ");
                push_signed_decimal(&mut s, *index as i64);
                push_text(&mut s, " not found in the function table");
            },
            InterpretError::TableEntryUnavailable { index } => {
                push_text(&mut s, "function table entry ");
                push_decimal(&mut s, *index as u64);
                push_text(&mut s, " is unavailable during descriptor interpretation");
            },
            InterpretError::IndirectTypeMismatch { index } => {
                push_text(&mut s, "indirect call type mismatch at function table index ");
                push_decimal(&mut s, *index as u64);
            },
            InterpretError::StackPointerNotRestored => push_text(&mut s, "the stack pointer was not restored by the descriptor function"),
            InterpretError::OutOfFuel => push_text(&mut s, "the descriptor function ran out of steps"),
            InterpretError::UnresolvedGotFunc { global } => {
                let mut name: Option<&String> = None;
                if *global < module.globals.len() {
                    match &module.globals[*global].kind {
                        GlobalKind::Import(imp) => {
                            if *imp < module.imports.len() {
                                name = Some(&module.imports[*imp].name);
                            }
                        },
                        _ => {},
                    }
                }
                match name {
                    Some(n) => {
                        push_text(&mut s, "cannot resolve GOT.func::");
                        push_text(&mut s, n.as_str());
                        push_text(&mut s, " during descriptor interpretation");
                    },
                    None => {
                        push_text(&mut s, "cannot resolve GOT.func global ");
                        push_decimal(&mut s, *global as u64);
                        push_text(&mut s, " during descriptor interpretation");
                    },
                }
            },
            InterpretError::FunctionTableFull => push_text(&mut s, "no function table index is left for a GOT.func function"),
            InterpretError::SkipInterpretNotFunction => push_text(&mut s, "__wbindgen_skip_interpret_calls must be an export function"),
        }
        proof {
            assert(s@ =~= interpret_message(*self, *module));
        }
        s
    }
}


/// A run that succeeds leaves the stack pointer as it found it: the value
/// of the stack pointer global after a successful
/// [`Interpreter::interpret_descriptor`] is its value before the run.
pub proof fn lemma_successful_run_restores_stack_pointer(m: Module, c: InterpConfig, s: MachineView, id: usize)
    requires
        spec_interpret(m, c, s, id) is Ok,
        c.stack_pointer is Some,
    ensures
        global_read(spec_interpret(m, c, s, id)->Ok_0.1.globals, c.stack_pointer->Some_0) == global_read(
            s.globals,
            c.stack_pointer->Some_0,
        ),
{
}

proof fn lemma_lowest_below(t: Map<u32, Option<usize>>, f: usize, k0: u32)
    requires
        holds(t, k0, f),
    ensures
        exists|k: u32| holds(t, k, f) && forall|j: u32| holds(t, j, f) ==> k <= j,
    decreases k0,
{
    if exists|j: u32| holds(t, j, f) && j < k0 {
        let j = choose|j: u32| holds(t, j, f) && j < k0;
        lemma_lowest_below(t, f, j);
    } else {
        assert forall|j: u32| holds(t, j, f) implies k0 <= j by {}
    }
}

/// The lowest slot of a function, where it has one, holds it.
proof fn lemma_lowest_slot_holds(t: Map<u32, Option<usize>>, f: usize)
    ensures
        lowest_slot(t, f) matches Some(k) ==> holds(t, k, f),
{
    if exists|k: u32| holds(t, k, f) {
        let k0 = choose|k: u32| holds(t, k, f);
        lemma_lowest_below(t, f, k0);
    }
}

/// A `GOT.func` import naming an exported function resolves to a function
/// table index that holds that function: its global then reads that index.
pub proof fn lemma_got_import_resolves_to_its_slot(m: Module, st: GotState, imp: Import, g: usize, f: usize)
    requires
        imp.kind == ImportKind::Global(g),
        imp.module@ == "GOT.func"@,
        g < st.globals.len(),
        exported_function(m, imp.name@, m.exports@.len()) == Some(f),
        got_step(m, st, imp) is Ok,
    ensures
        got_step(m, st, imp) matches Ok(st2) && exists|k: u32|
            st2.globals[g as int] == Some(k as i32) && #[trigger] holds(st2.table, k, f),
{
    lemma_lowest_slot_holds(st.table, f);
    let st2 = got_step(m, st, imp)->Ok_0;
    match lowest_slot(st.table, f) {
        Some(k) => {
            assert(st2.globals[g as int] == Some(k as i32) && holds(st2.table, k, f));
        },
        None => {
            let n = next_free(st.table, table_initial(m));
            let k = n as u32;
            assert(st2.globals[g as int] == Some(k as i32) && holds(st2.table, k, f));
        },
    }
}

} // verus!

