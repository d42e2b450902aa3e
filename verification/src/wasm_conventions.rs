//! Utilities for the implicit conventions of Wasm code generation, as LLVM
//! and lld establish them: the stack pointer, the canonical linear memory,
//! the thread-local base, constant expressions and the function table.

use vstd::prelude::*;
use crate::wasm_model::{
    indices_where, lemma_indices_where, ConstExpr, ConstOp, ElementItems, ElementKind, ExportItem, FunctionKind,
    Global, GlobalKind, Module, ValType, Value,
};
use crate::strings::{decimal, push_decimal, push_text, text_is};
use crate::wasm_model::CustomSection;
use vstd::slice::slice_subrange;

verus! {

/// Why a convention could not be applied to a module.
#[derive(Debug, Clone, Copy, PartialEq, Eq, Structural)]
pub enum ConventionError {
    /// The module has more than one memory.
    MultipleMemories,
    /// The module has no memory.
    NoMemory,
    /// The module has no function table.
    NoFunctionTable,
    /// The module has more than one function table.
    MultipleFunctionTables,
    /// The table slot holds no function.
    EntryNotFilled,
    /// No element segment covers the table index.
    EntryNotFound { index: u32 },
    /// A target feature name longer than the limit.
    FeatureNameTooLong,
    /// The `target_features` section could not be read.
    MalformedSection,
}

/// The message of a [`ConventionError`].
pub open spec fn convention_message(e: ConventionError) -> Seq<char> {
    match e {
        ConventionError::MultipleMemories => "expected a single memory, found multiple; multiple memories currently not supported"@,
        ConventionError::NoMemory => "module does not have a memory; must have a memory to transform return pointers into Wasm multi-value"@,
        ConventionError::NoFunctionTable => "no function table found in module"@,
        ConventionError::MultipleFunctionTables => "module contains more than one function table"@,
        ConventionError::EntryNotFilled => "function table entry wasn't filled"@,
        ConventionError::EntryNotFound { index } => "failed to find `"@ + decimal(index as nat) + "` in function table"@,
        ConventionError::FeatureNameTooLong => "feature name too long"@,
        ConventionError::MalformedSection => "failed to read section"@,
    }
}

impl ConventionError {
    /// The error's message.
    pub fn message(&self) -> (s: String)
        ensures
            s@ == convention_message(*self),
    {
        let mut s = String::new();
        match self {
            ConventionError::MultipleMemories => push_text(&mut s, "expected a single memory, found multiple; multiple memories currently not supported"),
            ConventionError::NoMemory => push_text(&mut s, "module does not have a memory; must have a memory to transform return pointers into Wasm multi-value"),
            ConventionError::NoFunctionTable => push_text(&mut s, "no function table found in module"),
            ConventionError::MultipleFunctionTables => push_text(&mut s, "module contains more than one function table"),
            ConventionError::EntryNotFilled => push_text(&mut s, "function table entry wasn't filled"),
            ConventionError::EntryNotFound { index } => {
                push_text(&mut s, "failed to find `");
                push_decimal(&mut s, *index as u64);
                push_text(&mut s, "` in function table");
            },
            ConventionError::FeatureNameTooLong => push_text(&mut s, "feature name too long"),
            ConventionError::MalformedSection => push_text(&mut s, "failed to read section"),
        }
        proof {
            assert(s@ =~= convention_message(*self));
        }
        s
    }
}

/// The module's canonical linear memory: its only memory.
pub open spec fn spec_get_memory(m: Module) -> Result<usize, ConventionError> {
    if m.memories@.len() > 1 {
        Err(ConventionError::MultipleMemories)
    } else if m.memories@.len() == 0 {
        Err(ConventionError::NoMemory)
    } else {
        Ok(0)
    }
}

/// Gets a Wasm module's canonical linear memory.
pub fn get_memory(module: &Module) -> (r: Result<usize, ConventionError>)
    ensures
        r == spec_get_memory(*module),
{
    if module.memories.len() > 1 {
        Err(ConventionError::MultipleMemories)
    } else if module.memories.len() == 0 {
        Err(ConventionError::NoMemory)
    } else {
        Ok(0)
    }
}

/// Whether a global carries the name `__stack_pointer`.
pub open spec fn is_named_stack_pointer(g: Global) -> bool {
    g.name matches Some(n) && n@ == "__stack_pointer"@
}

/// Whether a global looks like a stack pointer: a mutable integer global
/// defined with a nonzero integer constant.
pub open spec fn is_stack_pointer_candidate(g: Global) -> bool {
    &&& (g.ty == ValType::I32 || g.ty == ValType::I64)
    &&& g.mutable
    &&& match g.kind {
        GlobalKind::Local(ConstExpr::Value(Value::I32(n))) => n != 0,
        GlobalKind::Local(ConstExpr::Value(Value::I64(n))) => n != 0,
        _ => false,
    }
}

/// The stack pointer: the first global named `__stack_pointer`; else the
/// first of the globals that look like one, when there are one or two of
/// them; else none.
pub open spec fn spec_get_stack_pointer(m: Module) -> Option<usize> {
    let named = indices_where(m.globals@, |g: Global| is_named_stack_pointer(g));
    let candidates = indices_where(m.globals@, |g: Global| is_stack_pointer_candidate(g));
    if named.len() > 0 {
        Some(named[0])
    } else if candidates.len() == 1 || candidates.len() == 2 {
        Some(candidates[0])
    } else {
        None
    }
}

fn named_stack_pointer(g: &Global) -> (r: bool)
    ensures
        r == is_named_stack_pointer(*g),
{
    match &g.name {
        Some(n) => text_is(n.as_str(), "__stack_pointer"),
        None => false,
    }
}

fn stack_pointer_candidate(g: &Global) -> (r: bool)
    ensures
        r == is_stack_pointer_candidate(*g),
{
    let int_ty = match g.ty {
        ValType::I32 | ValType::I64 => true,
        _ => false,
    };
    let nonzero = match &g.kind {
        GlobalKind::Local(ConstExpr::Value(Value::I32(n))) => *n != 0,
        GlobalKind::Local(ConstExpr::Value(Value::I64(n))) => *n != 0,
        _ => false,
    };
    int_ty && g.mutable && nonzero
}

/// Gets the `__stack_pointer` global.
pub fn get_stack_pointer(module: &Module) -> (r: Option<usize>)
    ensures
        r == spec_get_stack_pointer(*module),
{
    let ghost gs = module.globals@;
    let mut named: Vec<usize> = Vec::new();
    let mut candidates: Vec<usize> = Vec::new();
    let mut i: usize = 0;
    while i < module.globals.len()
        invariant
            gs == module.globals@,
            i <= gs.len(),
            named@ == indices_where(gs.take(i as int), |g: Global| is_named_stack_pointer(g)),
            candidates@ == indices_where(gs.take(i as int), |g: Global| is_stack_pointer_candidate(g)),
        decreases gs.len() - i,
    {
        proof {
            assert(gs.take(i as int + 1).drop_last() =~= gs.take(i as int));
        }
        if named_stack_pointer(&module.globals[i]) {
            named.push(i);
        }
        if stack_pointer_candidate(&module.globals[i]) {
            candidates.push(i);
        }
        i = i + 1;
    }
    proof {
        assert(gs.take(i as int) =~= gs);
    }
    if named.len() > 0 {
        Some(named[0])
    } else if candidates.len() == 1 || candidates.len() == 2 {
        Some(candidates[0])
    } else {
        None
    }
}

/// The globals exported as `__tls_base` that have an integer type.
pub open spec fn tls_candidates(m: Module, k: nat) -> Seq<usize>
    decreases k,
{
    if k == 0 || k > m.exports@.len() {
        seq![]
    } else {
        let rest = tls_candidates(m, (k - 1) as nat);
        let e = m.exports@[k - 1];
        match e.item {
            ExportItem::Global(id) => if e.name@ == "__tls_base"@ && id < m.globals@.len() && (
            m.globals@[id as int].ty == ValType::I32 || m.globals@[id as int].ty == ValType::I64) {
                rest.push(id)
            } else {
                rest
            },
            _ => rest,
        }
    }
}

/// The `__tls_base` global: the only integer global exported under that
/// name, if there is exactly one.
pub open spec fn spec_get_tls_base(m: Module) -> Option<usize> {
    let c = tls_candidates(m, m.exports@.len());
    if c.len() == 1 {
        Some(c[0])
    } else {
        None
    }
}

/// Gets the `__tls_base` global.
pub fn get_tls_base(module: &Module) -> (r: Option<usize>)
    ensures
        r == spec_get_tls_base(*module),
{
    let mut c: Vec<usize> = Vec::new();
    let mut k: usize = 0;
    while k < module.exports.len()
        invariant
            k <= module.exports@.len(),
            c@ == tls_candidates(*module, k as nat),
        decreases module.exports@.len() - k,
    {
        let e = &module.exports[k];
        match e.item {
            ExportItem::Global(id) => {
                if text_is(e.name.as_str(), "__tls_base") && id < module.globals.len() {
                    match module.globals[id].ty {
                        ValType::I32 | ValType::I64 => c.push(id),
                        _ => {},
                    }
                }
            },
            _ => {},
        }
        k = k + 1;
    }
    if c.len() == 1 {
        Some(c[0])
    } else {
        None
    }
}

/// The value of a constant expression, looking through at most `depth`
/// references to other globals: an immediate value, the initialiser of a
/// locally defined global, or an extended expression of integer constants,
/// global reads and integer addition, subtraction and multiplication.
pub open spec fn const_value(m: Module, e: ConstExpr, depth: nat) -> Option<Value>
    decreases depth, 2nat, 0nat,
{
    match e {
        ConstExpr::Value(v) => Some(v),
        ConstExpr::Global(g) => global_value(m, g, depth),
        ConstExpr::Extended(ops) => {
            match const_ops_stack(m, ops@, depth) {
                Some(st) => if st.len() == 1 {
                    Some(st[0])
                } else {
                    None
                },
                None => None,
            }
        },
        _ => None,
    }
}

/// The value of a locally defined global's initialiser; an imported global
/// has none.
pub open spec fn global_value(m: Module, g: usize, depth: nat) -> Option<Value>
    decreases depth, 0nat, 0nat,
{
    if depth == 0 || g >= m.globals@.len() {
        None
    } else {
        match m.globals@[g as int].kind {
            GlobalKind::Local(inner) => const_value(m, inner, (depth - 1) as nat),
            _ => None,
        }
    }
}

/// A binary operation of an extended constant expression on the two values
/// on top of the stack.
pub open spec fn const_binop(st: Seq<Value>, op: ConstOp) -> Option<Seq<Value>> {
    if st.len() < 2 {
        None
    } else {
        let b = st[st.len() - 1];
        let a = st[st.len() - 2];
        let rest = st.subrange(0, st.len() - 2);
        match (op, a, b) {
            (ConstOp::I32Add, Value::I32(x), Value::I32(y)) => Some(rest.push(Value::I32(x.wrapping_add(y)))),
            (ConstOp::I32Sub, Value::I32(x), Value::I32(y)) => Some(rest.push(Value::I32(x.wrapping_sub(y)))),
            (ConstOp::I32Mul, Value::I32(x), Value::I32(y)) => Some(rest.push(Value::I32(x.wrapping_mul(y)))),
            (ConstOp::I64Add, Value::I64(x), Value::I64(y)) => Some(rest.push(Value::I64(x.wrapping_add(y)))),
            (ConstOp::I64Sub, Value::I64(x), Value::I64(y)) => Some(rest.push(Value::I64(x.wrapping_sub(y)))),
            (ConstOp::I64Mul, Value::I64(x), Value::I64(y)) => Some(rest.push(Value::I64(x.wrapping_mul(y)))),
            _ => None,
        }
    }
}

/// The value stack after running the operations of an extended constant
/// expression, or `None` if one of them cannot be evaluated.
pub open spec fn const_ops_stack(m: Module, ops: Seq<ConstOp>, depth: nat) -> Option<Seq<Value>>
    decreases depth, 1nat, ops.len(),
{
    if ops.len() == 0 {
        Some(seq![])
    } else {
        match const_ops_stack(m, ops.drop_last(), depth) {
            None => None,
            Some(st) => match ops.last() {
                ConstOp::I32Const(n) => Some(st.push(Value::I32(n))),
                ConstOp::I64Const(n) => Some(st.push(Value::I64(n))),
                ConstOp::F32Const(n) => Some(st.push(Value::F32Bits(n))),
                ConstOp::F64Const(n) => Some(st.push(Value::F64Bits(n))),
                ConstOp::GlobalGet(g) => match global_value(m, g, depth) {
                    Some(v) => Some(st.push(v)),
                    None => None,
                },
                ConstOp::Other => None,
                op => const_binop(st, op),
            },
        }
    }
}

fn exec_const_binop(st: &mut Vec<Value>, op: ConstOp) -> (ok: bool)
    ensures
        match const_binop(old(st)@, op) {
            Some(s2) => ok && final(st)@ == s2,
            None => !ok,
        },
{
    let n = st.len();
    if n < 2 {
        return false;
    }
    let b = st[n - 1];
    let a = st[n - 2];
    let v = match (op, a, b) {
        (ConstOp::I32Add, Value::I32(x), Value::I32(y)) => Value::I32(x.wrapping_add(y)),
        (ConstOp::I32Sub, Value::I32(x), Value::I32(y)) => Value::I32(x.wrapping_sub(y)),
        (ConstOp::I32Mul, Value::I32(x), Value::I32(y)) => Value::I32(x.wrapping_mul(y)),
        (ConstOp::I64Add, Value::I64(x), Value::I64(y)) => Value::I64(x.wrapping_add(y)),
        (ConstOp::I64Sub, Value::I64(x), Value::I64(y)) => Value::I64(x.wrapping_sub(y)),
        (ConstOp::I64Mul, Value::I64(x), Value::I64(y)) => Value::I64(x.wrapping_mul(y)),
        _ => {
            return false;
        },
    };
    st.pop();
    st.pop();
    st.push(v);
    proof {
        assert(st@ =~= old(st)@.subrange(0, n - 2).push(v));
    }
    true
}

fn exec_const_value(m: &Module, e: &ConstExpr, depth: usize) -> (r: Option<Value>)
    ensures
        r == const_value(*m, *e, depth as nat),
    decreases depth, 2nat, 0nat,
{
    match e {
        ConstExpr::Value(v) => Some(*v),
        ConstExpr::Global(g) => exec_global_value(m, *g, depth),
        ConstExpr::Extended(ops) => {
            let mut st: Vec<Value> = Vec::new();
            let mut i: usize = 0;
            while i < ops.len()
                invariant
                    *e == ConstExpr::Extended(*ops),
                    i <= ops@.len(),
                    const_ops_stack(*m, ops@.take(i as int), depth as nat) == Some(st@),
                decreases ops@.len() - i,
            {
                proof {
                    assert(ops@.take(i as int + 1).drop_last() =~= ops@.take(i as int));
                }
                match ops[i] {
                    ConstOp::I32Const(n) => st.push(Value::I32(n)),
                    ConstOp::I64Const(n) => st.push(Value::I64(n)),
                    ConstOp::F32Const(n) => st.push(Value::F32Bits(n)),
                    ConstOp::F64Const(n) => st.push(Value::F64Bits(n)),
                    ConstOp::GlobalGet(g) => match exec_global_value(m, g, depth) {
                        Some(v) => st.push(v),
                        None => {
                            proof {
                                assert(ops@.take(i as int + 1).last() == ops@[i as int]);
                                lemma_const_ops_none(*m, ops@, depth as nat, i as nat);
                            }
                            return None;
                        },
                    },
                    ConstOp::Other => {
                        proof {
                            assert(ops@.take(i as int + 1).last() == ops@[i as int]);
                            lemma_const_ops_none(*m, ops@, depth as nat, i as nat);
                        }
                        return None;
                    },
                    op => {
                        if !exec_const_binop(&mut st, op) {
                            proof {
                                assert(ops@.take(i as int + 1).last() == ops@[i as int]);
                                assert(ops@.take(i as int + 1).last() == ops@[i as int]);
                                lemma_const_ops_none(*m, ops@, depth as nat, i as nat);
                            }
                            return None;
                        }
                    },
                }
                i = i + 1;
            }
            proof {
                assert(ops@.take(i as int) =~= ops@);
            }
            if st.len() == 1 {
                Some(st[0])
            } else {
                None
            }
        },
        _ => None,
    }
}

/// Once the operations of a prefix cannot be evaluated, neither can any
/// longer prefix.
proof fn lemma_const_ops_none(m: Module, ops: Seq<ConstOp>, depth: nat, i: nat)
    requires
        i < ops.len(),
        const_ops_stack(m, ops.take(i as int + 1), depth) is None,
    ensures
        const_ops_stack(m, ops, depth) is None,
    decreases ops.len() - i,
{
    if i + 1 < ops.len() {
        assert(ops.take(i as int + 2).drop_last() =~= ops.take(i as int + 1));
        lemma_const_ops_none(m, ops, depth, i + 1);
    } else {
        assert(ops.take(i as int + 1) =~= ops);
    }
}

fn exec_global_value(m: &Module, g: usize, depth: usize) -> (r: Option<Value>)
    ensures
        r == global_value(*m, g, depth as nat),
    decreases depth, 0nat, 0nat,
{
    if depth == 0 || g >= m.globals.len() {
        None
    } else {
        match &m.globals[g].kind {
            GlobalKind::Local(inner) => exec_const_value(m, inner, depth - 1),
            _ => None,
        }
    }
}

/// Statically evaluates a constant expression, as far as it can be: see
/// [`const_value`]. References to other globals are followed no deeper
/// than the number of globals, so a cycle of references (which Wasm
/// validation rules out) evaluates to `None`.
pub fn evaluate_const_expr(expr: &ConstExpr, module: &Module) -> (r: Option<Value>)
    ensures
        r == const_value(*module, *expr, module.globals@.len()),
{
    exec_const_value(module, expr, module.globals.len())
}

/// The module's main function table: its only table of function
/// references, if any.
pub open spec fn main_function_table(m: Module) -> Result<Option<usize>, ConventionError> {
    let t = indices_where(m.tables@, |t: crate::wasm_model::Table| t.funcref);
    if t.len() == 0 {
        Ok(None)
    } else if t.len() == 1 {
        Ok(Some(t[0]))
    } else {
        Err(ConventionError::MultipleFunctionTables)
    }
}

/// The table index at which an active segment starts, if its offset can be
/// evaluated to a 32-bit index.
pub open spec fn segment_offset(m: Module, seg: usize) -> Option<u32> {
    if seg >= m.elements@.len() {
        None
    } else {
        match m.elements@[seg as int].kind {
            ElementKind::Active { offset, .. } => match const_value(m, offset, m.globals@.len()) {
                Some(Value::I32(n)) => Some(n as u32),
                Some(Value::I64(n)) => if 0 <= n <= u32::MAX {
                    Some(n as u32)
                } else {
                    None
                },
                _ => None,
            },
            _ => None,
        }
    }
}

/// What segment `seg` holds at table index `idx`: `None` if it does not
/// cover the index, else the function there, if any.
pub open spec fn segment_slot(m: Module, seg: usize, idx: u32) -> Option<Option<usize>> {
    match segment_offset(m, seg) {
        None => None,
        Some(offset) => if idx < offset {
            None
        } else {
            let k = idx - offset;
            match m.elements@[seg as int].items {
                ElementItems::Functions(fs) => if k < fs@.len() {
                    Some(Some(fs@[k]))
                } else {
                    None
                },
                ElementItems::Expressions(es) => if k < es@.len() {
                    match es@[k] {
                        ConstExpr::RefFunc(f) => Some(Some(f)),
                        _ => Some(None),
                    }
                } else {
                    None
                },
            }
        },
    }
}

/// The function at table index `idx` according to the first of the
/// segments `segs` that covers it.
pub open spec fn lookup_segments(m: Module, segs: Seq<usize>, idx: u32) -> Result<usize, ConventionError>
    decreases segs.len(),
{
    if segs.len() == 0 {
        Err(ConventionError::EntryNotFound { index: idx })
    } else {
        match segment_slot(m, segs[0], idx) {
            Some(Some(f)) => Ok(f),
            Some(None) => Err(ConventionError::EntryNotFilled),
            None => lookup_segments(m, segs.drop_first(), idx),
        }
    }
}

/// The function at index `idx` of the main function table.
pub open spec fn spec_function_table_entry(m: Module, idx: u32) -> Result<usize, ConventionError> {
    match main_function_table(m) {
        Err(e) => Err(e),
        Ok(None) => Err(ConventionError::NoFunctionTable),
        Ok(Some(t)) => lookup_segments(m, m.tables@[t as int].elem_segments@, idx),
    }
}

fn exec_main_function_table(m: &Module) -> (r: Result<Option<usize>, ConventionError>)
    ensures
        r == main_function_table(*m),
        r matches Ok(Some(t)) ==> t < m.tables@.len(),
{
    let ghost ts = m.tables@;
    let mut found: Vec<usize> = Vec::new();
    let mut i: usize = 0;
    while i < m.tables.len()
        invariant
            ts == m.tables@,
            i <= ts.len(),
            found@ == indices_where(ts.take(i as int), |t: crate::wasm_model::Table| t.funcref),
        decreases ts.len() - i,
    {
        proof {
            assert(ts.take(i as int + 1).drop_last() =~= ts.take(i as int));
        }
        if m.tables[i].funcref {
            found.push(i);
        }
        i = i + 1;
    }
    proof {
        assert(ts.take(i as int) =~= ts);
    }
    proof {
        lemma_indices_where(ts, |t: crate::wasm_model::Table| t.funcref);
    }
    if found.len() == 0 {
        Ok(None)
    } else if found.len() == 1 {
        Ok(Some(found[0]))
    } else {
        Err(ConventionError::MultipleFunctionTables)
    }
}

fn exec_segment_offset(m: &Module, seg: usize) -> (r: Option<u32>)
    ensures
        r == segment_offset(*m, seg),
{
    if seg >= m.elements.len() {
        return None;
    }
    match &m.elements[seg].kind {
        ElementKind::Active { offset, .. } => match evaluate_const_expr(offset, m) {
            Some(Value::I32(n)) => Some(n as u32),
            Some(Value::I64(n)) => if 0 <= n && n <= u32::MAX as i64 {
                Some(n as u32)
            } else {
                None
            },
            _ => None,
        },
        _ => None,
    }
}

fn exec_segment_slot(m: &Module, seg: usize, idx: u32) -> (r: Option<Option<usize>>)
    ensures
        r == segment_slot(*m, seg, idx),
{
    match exec_segment_offset(m, seg) {
        None => None,
        Some(offset) => {
            if idx < offset {
                return None;
            }
            let k = (idx - offset) as usize;
            match &m.elements[seg].items {
                ElementItems::Functions(fs) => if k < fs.len() {
                    Some(Some(fs[k]))
                } else {
                    None
                },
                ElementItems::Expressions(es) => if k < es.len() {
                    match &es[k] {
                        ConstExpr::RefFunc(f) => Some(Some(*f)),
                        _ => Some(None),
                    }
                } else {
                    None
                },
            }
        },
    }
}

/// Looks up a function table entry by index in the main function table.
pub fn get_function_table_entry(module: &Module, idx: u32) -> (r: Result<usize, ConventionError>)
    ensures
        r == spec_function_table_entry(*module, idx),
{
    let t = match exec_main_function_table(module) {
        Err(e) => {
            return Err(e);
        },
        Ok(None) => {
            return Err(ConventionError::NoFunctionTable);
        },
        Ok(Some(t)) => t,
    };
    let segs = &module.tables[t].elem_segments;
    assert(segs@.skip(0) =~= segs@);
    let mut i: usize = 0;
    while i < segs.len()
        invariant
            i <= segs@.len(),
            spec_function_table_entry(*module, idx) == lookup_segments(*module, segs@.skip(i as int), idx),
        decreases segs@.len() - i,
    {
        proof {
            assert(segs@.skip(i as int).drop_first() =~= segs@.skip(i as int + 1));
        }
        match exec_segment_slot(module, segs[i], idx) {
            Some(Some(f)) => {
                return Ok(f);
            },
            Some(None) => {
                return Err(ConventionError::EntryNotFilled);
            },
            None => {},
        }
        i = i + 1;
    }
    Err(ConventionError::EntryNotFound { index: idx })
}

/// The start function, if it is locally defined (`Ok`); else the imported
/// start function or none (`Err`).
pub open spec fn spec_get_start(m: Module) -> Result<usize, Option<usize>> {
    match m.start {
        Some(s) => match m.funcs@[s as int].kind {
            FunctionKind::Local(_) => Ok(s),
            _ => Err(Some(s)),
        },
        None => Err(None),
    }
}

/// Gets the module's start function, if it is locally defined.
pub fn get_start(module: &mut Module) -> (r: Result<usize, Option<usize>>)
    requires
        old(module).start matches Some(s) ==> s < old(module).funcs@.len() && !(old(
            module,
        ).funcs@[s as int].kind is Uninitialized),
    ensures
        r == spec_get_start(*old(module)),
        *final(module) == *old(module),
{
    match module.start {
        Some(start) => match &module.funcs[start].kind {
            FunctionKind::Local(_) => Ok(start),
            _ => Err(Some(start)),
        },
        None => Err(None),
    }
}


/// Reads the LEB128 bytes of a `u32` from byte `i` on (at most five bytes
/// in all), with `acc` the value of the bytes before `i` and `scale`
/// (`128^i`) the weight of byte `i`. The fifth byte may only hold the four
/// bits that a `u32` has left.
pub open spec fn var_u32_from(bytes: Seq<u8>, i: nat, acc: nat, scale: nat) -> Option<(u32, usize)>
    decreases 5 - i,
{
    if i >= 5 || i >= bytes.len() {
        None
    } else {
        let b = bytes[i as int];
        let acc2 = acc + (b % 128) as nat * scale;
        if i == 4 && b >= 16 {
            None
        } else if b < 128 {
            Some((acc2 as u32, (i + 1) as usize))
        } else {
            var_u32_from(bytes, i + 1, acc2, scale * 128)
        }
    }
}

/// What `wasmparser`'s `BinaryReader::read_var_u32` reads from the start of
/// `bytes`: the value of the LEB128 encoding of a `u32` and the number of
/// bytes it took, or nothing when the bytes end early or encode more than
/// 32 bits.
pub open spec fn wasm_var_u32(bytes: Seq<u8>) -> Option<(u32, usize)> {
    var_u32_from(bytes, 0, 0, 1)
}

/// Reads a variable-length `u32` at the start of `bytes` with
/// `wasmparser::BinaryReader::read_var_u32`.
///
/// The contract claims what the reader documents and its source shows: it
/// decodes an unsigned LEB128 number of at most five bytes, failing at the
/// end of the bytes or when the fifth byte holds more than the four bits
/// that a `u32` has left, and its position afterwards is the number of
/// bytes read (see [`wasm_var_u32`]).
#[verifier::external_body]
fn read_var_u32(bytes: &[u8]) -> (r: Option<(u32, usize)>)
    ensures
        r == wasm_var_u32(bytes@),
{
    let mut reader = wasmparser::BinaryReader::new(bytes, 0);
    match reader.read_var_u32() {
        Ok(v) => Some((v, reader.current_position())),
        Err(_) => None,
    }
}

/// A read takes at least one byte and no more than there are.
pub proof fn lemma_var_u32_length(bytes: Seq<u8>, i: nat, acc: nat, scale: nat)
    ensures
        var_u32_from(bytes, i, acc, scale) matches Some((_, k)) ==> i < k <= bytes.len() && k <= 5,
    decreases 5 - i,
{
    if i < 5 && i < bytes.len() {
        lemma_var_u32_length(bytes, i + 1, acc + (bytes[i as int] % 128) as nat * scale, scale * 128);
    }
}

/// A read depends only on the bytes it takes.
pub proof fn lemma_var_u32_prefix(bytes: Seq<u8>, other: Seq<u8>, i: nat, acc: nat, scale: nat)
    requires
        var_u32_from(bytes, i, acc, scale) matches Some((_, k)) && k <= other.len() && other.subrange(
            0,
            k as int,
        ) == bytes.subrange(0, k as int),
    ensures
        var_u32_from(other, i, acc, scale) == var_u32_from(bytes, i, acc, scale),
    decreases 5 - i,
{
    lemma_var_u32_length(bytes, i, acc, scale);
    let k = var_u32_from(bytes, i, acc, scale)->Some_0.1;
    assert(other[i as int] == other.subrange(0, k as int)[i as int]);
    assert(bytes[i as int] == bytes.subrange(0, k as int)[i as int]);
    let b = bytes[i as int];
    if !(i == 4 && b >= 16) && b >= 128 {
        lemma_var_u32_prefix(bytes, other, i + 1, acc + (b % 128) as nat * scale, scale * 128);
    }
}

/// The unsigned LEB128 encoding of `v`: seven bits per byte, least
/// significant group first, the high bit set on every byte but the last.
pub open spec fn uleb128(v: nat) -> Seq<u8>
    decreases v,
{
    if v < 128 {
        seq![v as u8]
    } else {
        seq![((v % 128) + 128) as u8] + uleb128(v / 128)
    }
}

/// Appends the unsigned LEB128 encoding of `v` with
/// `leb128::write::unsigned`, which writes exactly that encoding and cannot
/// fail on a `Vec`.
#[verifier::external_body]
fn write_uleb128(out: &mut Vec<u8>, v: u64)
    ensures
        final(out)@ == old(out)@ + uleb128(v as nat),
{
    let _ = leb128::write::unsigned(out, v);
}

/// The weight of byte `i` of a LEB128 number, for the bytes of a `u32`.
pub open spec fn leb_scale(i: nat) -> nat {
    if i == 0 {
        1
    } else if i == 1 {
        128
    } else if i == 2 {
        16384
    } else if i == 3 {
        2097152
    } else {
        268435456
    }
}

proof fn lemma_uleb128_from(bytes: Seq<u8>, i: nat, acc: nat, w: nat, v: nat)
    requires
        i <= 4,
        acc + w * leb_scale(i) == v,
        v < 0x1_0000_0000,
        i + uleb128(w).len() <= bytes.len(),
        bytes.subrange(i as int, (i + uleb128(w).len()) as int) == uleb128(w),
    ensures
        var_u32_from(bytes, i, acc, leb_scale(i)) == Some((v as u32, (i + uleb128(w).len()) as usize)),
        i + uleb128(w).len() <= 5,
    decreases w,
{
    let scale = leb_scale(i);
    let b = bytes[i as int];
    assert(b == uleb128(w)[0]);
    if w < 128 {
        assert(uleb128(w) == seq![w as u8]);
        assert(b == w);
        if i == 4 {
            assert(w < 16) by (nonlinear_arith)
                requires
                    acc + w * 268435456 == v,
                    v < 0x1_0000_0000,
            ;
        }
        assert((b % 128) as nat == w);
    } else {
        assert(uleb128(w) == seq![((w % 128) + 128) as u8] + uleb128(w / 128));
        assert(b == (w % 128) + 128);
        if i == 4 {
            assert(false) by (nonlinear_arith)
                requires
                    acc + w * 268435456 == v,
                    v < 0x1_0000_0000,
                    w >= 128,
            ;
        }
        assert(leb_scale(i + 1) == scale * 128);
        let acc2 = acc + (w % 128) * scale;
        assert((b % 128) as nat == w % 128);
        assert(acc2 + (w / 128) * leb_scale(i + 1) == v) by (nonlinear_arith)
            requires
                acc + w * scale == v,
                acc2 == acc + (w % 128) * scale,
                leb_scale(i + 1) == scale * 128,
                w == 128 * (w / 128) + w % 128,
        ;
        let whole = bytes.subrange(i as int, (i + uleb128(w).len()) as int);
        assert(uleb128(w).subrange(1, uleb128(w).len() as int) =~= uleb128(w / 128));
        assert(bytes.subrange(i + 1int, (i + 1 + uleb128(w / 128).len()) as int) =~= whole.subrange(
            1,
            uleb128(w).len() as int,
        ));
        lemma_uleb128_from(bytes, i + 1, acc2, w / 128, v);
    }
}

/// The LEB128 encoding of a `u32` reads back as that number, taking all
/// of its bytes, whatever follows it.
pub proof fn lemma_uleb128_reads_back(v: u32, rest: Seq<u8>)
    ensures
        wasm_var_u32(uleb128(v as nat) + rest) == Some((v, uleb128(v as nat).len() as usize)),
        uleb128(v as nat).len() <= 5,
{
    let bytes = uleb128(v as nat) + rest;
    assert(bytes.subrange(0, uleb128(v as nat).len() as int) =~= uleb128(v as nat));
    lemma_uleb128_from(bytes, 0, 0, v as nat, v as nat);
}

/// The index of the first custom section named `target_features`.
pub open spec fn feature_section(m: Module) -> Option<int> {
    let found = indices_where(m.customs@, |c: CustomSection| c.name@ == "target_features"@);
    if found.len() > 0 {
        Some(found[0] as int)
    } else {
        None
    }
}

/// Looks for `feature` among the `left` features listed from `pos` on in a
/// `target_features` section: each is a prefix byte (`+` enabled, `-`
/// disabled), a LEB128 length and the name. On a match, the prefix byte and
/// its position.
pub open spec fn scan_features(data: Seq<u8>, pos: int, left: nat, feature: Seq<u8>) -> Result<
    Option<(u8, int)>,
    ConventionError,
>
    decreases left,
{
    if left == 0 {
        Ok(None)
    } else if pos < 0 || pos >= data.len() {
        Err(ConventionError::MalformedSection)
    } else {
        match wasm_var_u32(data.subrange(pos + 1, data.len() as int)) {
            None => Err(ConventionError::MalformedSection),
            Some((len, k)) => {
                let start = pos + 1 + k;
                if start + len > data.len() {
                    Err(ConventionError::MalformedSection)
                } else if data.subrange(start, start + len) == feature {
                    Ok(Some((data[pos], pos)))
                } else {
                    scan_features(data, start + len, (left - 1) as nat, feature)
                }
            },
        }
    }
}

/// The features of a `target_features` section: its count, where the list
/// starts, and the match for `feature`, if any.
pub open spec fn find_feature(data: Seq<u8>, feature: Seq<u8>) -> Result<
    (u32, int, Option<(u8, int)>),
    ConventionError,
> {
    match wasm_var_u32(data) {
        None => Err(ConventionError::MalformedSection),
        Some((count, k)) => match scan_features(data, k as int, count as nat, feature) {
            Err(e) => Err(e),
            Ok(found) => Ok((count, k as int, found)),
        },
    }
}

/// The longest feature name accepted.
pub open spec fn max_feature_len() -> nat {
    100_000
}

/// Whether the module's `target_features` section enables `feature`.
pub open spec fn spec_target_feature(m: Module, feature: Seq<char>) -> Result<bool, ConventionError> {
    let f = vstd::utf8::encode_utf8(feature);
    if f.len() > max_feature_len() {
        Err(ConventionError::FeatureNameTooLong)
    } else {
        match feature_section(m) {
            None => Ok(false),
            Some(i) => match find_feature(m.customs@[i].data@, f) {
                Err(e) => Err(e),
                Ok((_, _, None)) => Ok(false),
                Ok((_, _, Some((prefix, _)))) => Ok(prefix != 45u8),
            },
        }
    }
}

fn exec_feature_section(m: &Module) -> (r: Option<usize>)
    ensures
        match feature_section(*m) {
            Some(i) => r == Some(i as usize) && i < m.customs@.len(),
            None => r is None,
        },
{
    let ghost cs = m.customs@;
    let mut found: Vec<usize> = Vec::new();
    let mut i: usize = 0;
    while i < m.customs.len()
        invariant
            cs == m.customs@,
            i <= cs.len(),
            found@ == indices_where(cs.take(i as int), |c: CustomSection| c.name@ == "target_features"@),
        decreases cs.len() - i,
    {
        proof {
            assert(cs.take(i as int + 1).drop_last() =~= cs.take(i as int));
        }
        if text_is(m.customs[i].name.as_str(), "target_features") {
            found.push(i);
        }
        i = i + 1;
    }
    proof {
        assert(cs.take(i as int) =~= cs);
        lemma_indices_where(cs, |c: CustomSection| c.name@ == "target_features"@);
    }
    if found.len() > 0 {
        Some(found[0])
    } else {
        None
    }
}

fn exec_find_feature(data: &Vec<u8>, feature: &[u8]) -> (r: Result<(u32, usize, Option<(u8, usize)>), ConventionError>)
    ensures
        match find_feature(data@, feature@) {
            Ok((count, k, found)) => r matches Ok((rc, rk, rf)) && rc == count && rk == k && match found {
                Some((b, p)) => rf == Some((b, p as usize)) && 0 <= p < data@.len(),
                None => rf is None,
            },
            Err(e) => r == Err::<(u32, usize, Option<(u8, usize)>), ConventionError>(e),
        },
        r matches Ok((_, rk, rf)) ==> rk <= data@.len() && (rf matches Some((_, rp)) ==> rp < data@.len()),
{
    proof {
        lemma_var_u32_length(data@, 0, 0, 1);
    }
    let (count, k) = match read_var_u32(data.as_slice()) {
        Some(x) => x,
        None => {
            return Err(ConventionError::MalformedSection);
        },
    };
    let mut pos: usize = k;
    let mut left: u32 = count;
    while left > 0
        invariant
            pos <= data@.len(),
            left <= count,
            find_feature(data@, feature@) == match scan_features(data@, pos as int, left as nat, feature@) {
                Err(e) => Err(e),
                Ok(found) => Ok::<(u32, int, Option<(u8, int)>), ConventionError>((count, k as int, found)),
            },
            wasm_var_u32(data@) == Some((count, k)),
        decreases left,
    {
        if pos >= data.len() {
            return Err(ConventionError::MalformedSection);
        }
        let prefix = data[pos];
        let rest = slice_subrange(data.as_slice(), pos + 1, data.len());
        proof {
            lemma_var_u32_length(rest@, 0, 0, 1);
        }
        let (len, used) = match read_var_u32(rest) {
            Some(x) => x,
            None => {
                return Err(ConventionError::MalformedSection);
            },
        };
        let start = pos + 1 + used;
        if len as usize > data.len() - start {
            return Err(ConventionError::MalformedSection);
        }
        let name = slice_subrange(data.as_slice(), start, start + len as usize);
        if crate::strings::bytes_eq(name, feature) {
            return Ok((count, k, Some((prefix, pos))));
        }
        pos = start + len as usize;
        left = left - 1;
    }
    Ok((count, k, None))
}

/// Reads whether the module's `target_features` section enables `feature`:
/// `true` for a `+` entry, `false` for a `-` entry, no entry or no
/// section.
pub fn target_feature(module: &Module, feature: &str) -> (r: Result<bool, ConventionError>)
    ensures
        r == spec_target_feature(*module, feature@),
{
    if feature.as_bytes().len() > 100_000 {
        return Err(ConventionError::FeatureNameTooLong);
    }
    match exec_feature_section(module) {
        None => Ok(false),
        Some(i) => match exec_find_feature(&module.customs[i].data, feature.as_bytes()) {
            Err(e) => Err(e),
            Ok((_, _, None)) => Ok(false),
            Ok((_, _, Some((prefix, _)))) => Ok(prefix != 45u8),
        },
    }
}

/// The plain value of the custom sections.
pub open spec fn customs_view(m: Module) -> Seq<(Seq<char>, Seq<u8>)> {
    m.customs@.map_values(|c: CustomSection| (c.name@, c.data@))
}

/// The data of a `target_features` section with `feature` appended
/// enabled, given its count and where its list starts.
pub open spec fn with_feature(data: Seq<u8>, count: u32, k: int, feature: Seq<u8>) -> Seq<u8> {
    uleb128(count as nat + 1) + data.subrange(k, data.len() as int) + seq![43u8] + uleb128(
        feature.len(),
    ) + feature
}

/// The custom sections after enabling `feature`: an entry for it that is
/// there is set to `+`; otherwise it is appended, with a new section if
/// there is none.
pub open spec fn spec_insert_target_feature(m: Module, feature: Seq<char>) -> Result<
    Seq<(Seq<char>, Seq<u8>)>,
    ConventionError,
> {
    let f = vstd::utf8::encode_utf8(feature);
    let cs = customs_view(m);
    if f.len() > max_feature_len() {
        Err(ConventionError::FeatureNameTooLong)
    } else {
        match feature_section(m) {
            None => Ok(cs.push(("target_features"@, with_feature(seq![0u8], 0, 1, f)))),
            Some(i) => {
                let data = m.customs@[i].data@;
                match find_feature(data, f) {
                    Err(e) => Err(e),
                    Ok((_, _, Some((prefix, p)))) => if prefix == 45u8 {
                        Ok(cs.update(i, (cs[i].0, data.update(p, 43u8))))
                    } else {
                        Ok(cs)
                    },
                    Ok((count, k, None)) => Ok(cs.update(i, (cs[i].0, with_feature(data, count, k, f)))),
                }
            },
        }
    }
}

fn copy_bytes(v: &[u8], from: usize, to: usize, out: &mut Vec<u8>)
    requires
        from <= to <= v@.len(),
    ensures
        final(out)@ == old(out)@ + v@.subrange(from as int, to as int),
{
    let mut i: usize = from;
    while i < to
        invariant
            from <= i <= to <= v@.len(),
            out@ == old(out)@ + v@.subrange(from as int, i as int),
        decreases to - i,
    {
        out.push(v[i]);
        i = i + 1;
        assert(out@ =~= old(out)@ + v@.subrange(from as int, i as int));
    }
}

fn copy_string(s: &String) -> (r: String)
    ensures
        r@ == s@,
{
    let mut r = String::new();
    push_text(&mut r, s.as_str());
    r
}

/// Enables `feature` in the module's `target_features` section; see
/// [`spec_insert_target_feature`].
pub fn insert_target_feature(module: &mut Module, new_feature: &str) -> (r: Result<(), ConventionError>)
    ensures
        match spec_insert_target_feature(*old(module), new_feature@) {
            Ok(cs) => r is Ok && customs_view(*final(module)) == cs,
            Err(e) => r == Err::<(), ConventionError>(e) && *final(module) == *old(module),
        },
        *final(module) == (Module { customs: final(module).customs, ..*old(module) }),
{
    let f = new_feature.as_bytes();
    if f.len() > 100_000 {
        return Err(ConventionError::FeatureNameTooLong);
    }
    let ghost cs0 = customs_view(*module);
    match exec_feature_section(module) {
        None => {
            let mut data: Vec<u8> = Vec::new();
            write_uleb128(&mut data, 1);
            data.push(43u8);
            write_uleb128(&mut data, f.len() as u64);
            copy_bytes(f, 0, f.len(), &mut data);
            let mut name = String::new();
            push_text(&mut name, "target_features");
            module.customs.push(CustomSection { name, data });
            proof {
                assert(seq![0u8].subrange(1, 1) =~= Seq::<u8>::empty());
                assert(f@.subrange(0, f@.len() as int) =~= f@);
                assert(data@ =~= with_feature(seq![0u8], 0, 1, f@));
                assert(customs_view(*module) =~= cs0.push(("target_features"@, with_feature(seq![0u8], 0, 1, f@))));
            }
            Ok(())
        },
        Some(i) => {
            let found = exec_find_feature(&module.customs[i].data, f);
            let ghost len0 = module.customs@[i as int].data@.len();
            assert(found matches Ok((_, rk, rf)) ==> rk <= len0 && (rf matches Some((_, rp)) ==> rp < len0));
            match found {
                Err(e) => Err(e),
                Ok((count, k, found)) => {
                    let old_data = &module.customs[i].data;
                    let mut data: Vec<u8> = Vec::new();
                    match found {
                        Some((prefix, p)) => {
                            if prefix != 45u8 {
                                return Ok(());
                            }
                            assert(old_data@.len() == len0);
                            assert(p < old_data.len());
                            copy_bytes(old_data.as_slice(), 0, p, &mut data);
                            data.push(43u8);
                            copy_bytes(old_data.as_slice(), p + 1, old_data.len(), &mut data);
                            proof {
                                assert(data@ =~= old_data@.update(p as int, 43u8));
                            }
                        },
                        None => {
                            write_uleb128(&mut data, count as u64 + 1);
                            copy_bytes(old_data.as_slice(), k, old_data.len(), &mut data);
                            data.push(43u8);
                            write_uleb128(&mut data, f.len() as u64);
                            copy_bytes(f, 0, f.len(), &mut data);
                            proof {
                                assert(f@.subrange(0, f@.len() as int) =~= f@);
                                assert(data@ =~= with_feature(old_data@, count, k as int, f@));
                            }
                        },
                    }
                    let name = copy_string(&module.customs[i].name);
                    module.customs.set(i, CustomSection { name, data });
                    proof {
                        assert(customs_view(*module) =~= cs0.update(i as int, (cs0[i as int].0, data@)));
                    }
                    Ok(())
                },
            }
        },
    }
}

} // verus!

verus! {

/// Where the `left` feature entries listed from `pos` on end, if they can
/// all be read.
pub open spec fn entries_end(data: Seq<u8>, pos: int, left: nat) -> Option<int>
    decreases left,
{
    if left == 0 {
        Some(pos)
    } else if pos < 0 || pos >= data.len() {
        None
    } else {
        match wasm_var_u32(data.subrange(pos + 1, data.len() as int)) {
            None => None,
            Some((len, k)) => {
                let start = pos + 1 + k;
                if start + len > data.len() {
                    None
                } else {
                    entries_end(data, start + len, (left - 1) as nat)
                }
            },
        }
    }
}

/// When the feature is not listed yet, appending it is read back: the
/// section's entries fill it, and its count leaves room for one more.
pub open spec fn feature_append_reads_back(m: Module, feature: Seq<char>) -> bool {
    match feature_section(m) {
        None => true,
        Some(i) => {
            let data = m.customs@[i].data@;
            match find_feature(data, vstd::utf8::encode_utf8(feature)) {
                Ok((count, k, None)) => count < u32::MAX && entries_end(data, k, count as nat) == Some(
                    data.len() as int,
                ),
                _ => true,
            }
        },
    }
}

proof fn lemma_read_within(bytes: Seq<u8>, other: Seq<u8>)
    requires
        wasm_var_u32(bytes) is Some,
        wasm_var_u32(bytes)->Some_0.1 <= other.len(),
        other.subrange(0, wasm_var_u32(bytes)->Some_0.1 as int) == bytes.subrange(
            0,
            wasm_var_u32(bytes)->Some_0.1 as int,
        ),
    ensures
        wasm_var_u32(other) == wasm_var_u32(bytes),
{
    lemma_var_u32_prefix(bytes, other, 0, 0, 1);
}

/// Scanning a list of entries that does not hold the feature and ends
/// where the data ends, copied into other data, skips the copy.
proof fn lemma_scan_shift(data: Seq<u8>, d2: Seq<u8>, pos: int, pos2: int, left: nat, more: nat, f: Seq<u8>)
    requires
        0 <= pos <= data.len(),
        0 <= pos2,
        pos2 + (data.len() - pos) <= d2.len(),
        d2.subrange(pos2, pos2 + (data.len() - pos)) == data.subrange(pos, data.len() as int),
        scan_features(data, pos, left, f) == Ok::<Option<(u8, int)>, ConventionError>(None),
        entries_end(data, pos, left) == Some(data.len() as int),
    ensures
        scan_features(d2, pos2, left + more, f) == scan_features(d2, pos2 + (data.len() - pos), more, f),
    decreases left,
{
    if left > 0 {
        let rest = data.subrange(pos + 1, data.len() as int);
        let rest2 = d2.subrange(pos2 + 1, d2.len() as int);
        let (len, k) = wasm_var_u32(rest)->Some_0;
        lemma_var_u32_length(rest, 0, 0, 1);
        assert(d2[pos2] == d2.subrange(pos2, pos2 + (data.len() - pos))[0]);
        assert(rest2.subrange(0, k as int) =~= rest.subrange(0, k as int)) by {
            assert forall|j: int| 0 <= j < k implies #[trigger] rest2.subrange(0, k as int)[j] == rest.subrange(0, k as int)[j] by {
                assert(d2.subrange(pos2, pos2 + (data.len() - pos))[j + 1] == data.subrange(pos, data.len() as int)[j + 1]);
                assert(rest2.subrange(0, k as int)[j] == rest2[j]);
                assert(rest2[j] == d2[pos2 + 1 + j]);
                assert(rest.subrange(0, k as int)[j] == rest[j]);
                assert(rest[j] == data[pos + 1 + j]);
                assert(d2.subrange(pos2, pos2 + (data.len() - pos))[j + 1] == d2[pos2 + 1 + j]);
                assert(data.subrange(pos, data.len() as int)[j + 1] == data[pos + 1 + j]);
            }
        }
        lemma_read_within(rest, rest2);
        let start = pos + 1 + k;
        let start2 = pos2 + 1 + k;
        assert(d2.subrange(start2, start2 + len) =~= data.subrange(start, start + len)) by {
            assert forall|j: int| 0 <= j < len implies #[trigger] d2.subrange(start2, start2 + len)[j] == data.subrange(start, start + len)[j] by {
                assert(d2.subrange(pos2, pos2 + (data.len() - pos))[j + 1 + k] == data.subrange(pos, data.len() as int)[j + 1 + k]);
                assert(d2.subrange(pos2, pos2 + (data.len() - pos))[j + 1 + k] == d2[start2 + j]);
                assert(data.subrange(pos, data.len() as int)[j + 1 + k] == data[start + j]);
            }
        }
        let next = start + len;
        let next2 = start2 + len;
        assert(d2.subrange(next2, next2 + (data.len() - next)) =~= data.subrange(next, data.len() as int)) by {
            assert forall|j: int| 0 <= j < data.len() - next implies #[trigger] d2.subrange(next2, next2 + (data.len() - next))[j] == data.subrange(next, data.len() as int)[j] by {
                assert(d2.subrange(pos2, pos2 + (data.len() - pos))[j + next - pos] == data.subrange(pos, data.len() as int)[j + next - pos]);
                assert(d2.subrange(pos2, pos2 + (data.len() - pos))[j + next - pos] == d2[next2 + j]);
                assert(data.subrange(pos, data.len() as int)[j + next - pos] == data[next + j]);
            }
        }
        assert((left + more - 1) as nat == (left - 1) as nat + more);
        lemma_scan_shift(data, d2, next, next2, (left - 1) as nat, more, f);
    }
}

/// A feature found by a scan is listed at or after where the scan began.
proof fn lemma_scan_found_at(data: Seq<u8>, pos: int, left: nat, f: Seq<u8>)
    ensures
        scan_features(data, pos, left, f) matches Ok(Some((b, q))) ==> pos <= q < data.len() && b == data[q],
    decreases left,
{
    if left > 0 && 0 <= pos < data.len() {
        let rest = data.subrange(pos + 1, data.len() as int);
        if let Some((len, k)) = wasm_var_u32(rest) {
            let start = pos + 1 + k;
            if start + len <= data.len() && data.subrange(start, start + len) != f {
                lemma_var_u32_length(rest, 0, 0, 1);
                lemma_scan_found_at(data, start + len, (left - 1) as nat, f);
            }
        }
    }
}

/// Setting the prefix of the entry that a scan finds to `+` leaves the
/// scan finding it there.
proof fn lemma_scan_enabled(data: Seq<u8>, pos: int, left: nat, f: Seq<u8>, p: int)
    requires
        0 <= pos,
        scan_features(data, pos, left, f) == Ok::<Option<(u8, int)>, ConventionError>(Some((45u8, p))),
    ensures
        scan_features(data.update(p, 43u8), pos, left, f) == Ok::<Option<(u8, int)>, ConventionError>(
            Some((43u8, p)),
        ),
    decreases left,
{
    lemma_scan_found_at(data, pos, left, f);
    let d2 = data.update(p, 43u8);
    let rest = data.subrange(pos + 1, data.len() as int);
    let rest2 = d2.subrange(pos + 1, d2.len() as int);
    let (len, k) = wasm_var_u32(rest)->Some_0;
    lemma_var_u32_length(rest, 0, 0, 1);
    let start = pos + 1 + k;
    if data.subrange(start, start + len) == f {
        assert(p == pos);
        assert(rest2 =~= rest);
        assert(d2.subrange(start, start + len) =~= data.subrange(start, start + len));
    } else {
        lemma_scan_found_at(data, start + len, (left - 1) as nat, f);
        assert(rest2.subrange(0, k as int) =~= rest.subrange(0, k as int));
        lemma_read_within(rest, rest2);
        assert(d2.subrange(start, start + len) =~= data.subrange(start, start + len));
        lemma_scan_enabled(data, start + len, (left - 1) as nat, f, p);
    }
}

proof fn lemma_indices_where_same<A, B>(s1: Seq<A>, s2: Seq<B>, p1: spec_fn(A) -> bool, p2: spec_fn(B) -> bool)
    requires
        s1.len() == s2.len(),
        forall|j: int| 0 <= j < s1.len() ==> p1(#[trigger] s1[j]) == p2(s2[j]),
    ensures
        indices_where(s1, p1) == indices_where(s2, p2),
    decreases s1.len(),
{
    if s1.len() > 0 {
        assert forall|j: int| 0 <= j < s1.drop_last().len() implies p1(#[trigger] s1.drop_last()[j]) == p2(s2.drop_last()[j]) by {
            assert(s1.drop_last()[j] == s1[j] && s2.drop_last()[j] == s2[j]);
        }
        lemma_indices_where_same(s1.drop_last(), s2.drop_last(), p1, p2);
    }
}

/// A new section listing only `f` finds it enabled.
proof fn lemma_new_section_lists(f: Seq<u8>)
    requires
        f.len() <= max_feature_len(),
    ensures
        find_feature(with_feature(seq![0u8], 0, 1, f), f) matches Ok((_, _, Some((b, _)))) && b == 43u8,
{
    let data = with_feature(seq![0u8], 0, 1, f);
    let l = f.len();
    assert(data =~= uleb128(1) + (seq![43u8] + uleb128(l) + f));
    lemma_uleb128_reads_back(1u32, seq![43u8] + uleb128(l) + f);
    assert(uleb128(1) =~= seq![1u8]);
    let rest = data.subrange(2, data.len() as int);
    assert(rest =~= uleb128(l as u32 as nat) + f);
    lemma_uleb128_reads_back(l as u32, f);
    let k = uleb128(l).len();
    assert(data.subrange(2 + k as int, 2 + k + l as int) =~= f);
    assert(data[1] == 43u8);
    assert(wasm_var_u32(data) == Some((1u32, 1usize)));
    assert(wasm_var_u32(rest) == Some((l as u32, k as usize)));
    assert(data.len() == 2 + k + l);
    assert(scan_features(data, 1, 1, f) == Ok::<Option<(u8, int)>, ConventionError>(Some((43u8, 1int))));
}

/// Enabling a listed feature leaves it found, now with `+`.
proof fn lemma_enabled_entry_lists(data: Seq<u8>, f: Seq<u8>)
    requires
        find_feature(data, f) matches Ok((_, _, Some((b, _)))) && b == 45u8,
    ensures
        find_feature(data.update(find_feature(data, f)->Ok_0.2->Some_0.1, 43u8), f) matches Ok((_, _, Some((b, _))))
            && b == 43u8,
{
    let (count, k, found) = find_feature(data, f)->Ok_0;
    let p = found->Some_0.1;
    lemma_var_u32_length(data, 0, 0, 1);
    lemma_scan_found_at(data, k as int, count as nat, f);
    let data2 = data.update(p, 43u8);
    assert(data2.subrange(0, k as int) =~= data.subrange(0, k as int));
    lemma_read_within(data, data2);
    lemma_scan_enabled(data, k as int, count as nat, f, p);
}

/// An entry enabling `f` that ends the data is found where it starts.
proof fn lemma_last_entry_found(data: Seq<u8>, e: int, f: Seq<u8>)
    requires
        0 <= e <= data.len(),
        f.len() <= max_feature_len(),
        data.subrange(e, data.len() as int) == seq![43u8] + uleb128(f.len()) + f,
    ensures
        scan_features(data, e, 1, f) == Ok::<Option<(u8, int)>, ConventionError>(Some((43u8, e))),
{
    let l = f.len();
    let entry = data.subrange(e, data.len() as int);
    assert(entry.len() == 1 + uleb128(l).len() + l);
    assert(e < data.len());
    assert(data[e] == entry[0]);
    let rest = data.subrange(e + 1, data.len() as int);
    assert(rest =~= entry.subrange(1, entry.len() as int));
    assert((seq![43u8] + uleb128(l) + f).subrange(1, entry.len() as int) =~= uleb128(l) + f);
    assert((l as u32) as nat == l);
    assert(rest =~= uleb128(l as u32 as nat) + f);
    lemma_uleb128_reads_back(l as u32, f);
    let kl = uleb128(l).len();
    assert(wasm_var_u32(rest) == Some((l as u32, kl as usize)));
    assert(data.len() == e + 1 + kl + l);
    assert(rest.subrange(kl as int, (kl + l) as int) =~= f);
    assert(data.subrange(e + 1 + kl, e + 1 + kl + l) =~= rest.subrange(kl as int, (kl + l) as int));
}

/// Appending a feature after entries that fill the section lists it.
proof fn lemma_appended_entry_lists(data: Seq<u8>, f: Seq<u8>)
    requires
        f.len() <= max_feature_len(),
        find_feature(data, f) matches Ok((count, k, None)) && count < u32::MAX && entries_end(
            data,
            k,
            count as nat,
        ) == Some(data.len() as int),
    ensures
        find_feature(
            with_feature(data, find_feature(data, f)->Ok_0.0, find_feature(data, f)->Ok_0.1, f),
            f,
        ) matches Ok((_, _, Some((b, _)))) && b == 43u8,
{
    let (count, k, _) = find_feature(data, f)->Ok_0;
    let data2 = with_feature(data, count, k, f);
    lemma_var_u32_length(data, 0, 0, 1);
    let head = uleb128(count as nat + 1);
    let body = data.subrange(k as int, data.len() as int);
    let tail = seq![43u8] + uleb128(f.len()) + f;
    assert(data2 =~= head + (body + tail));
    lemma_uleb128_reads_back((count + 1) as u32, body + tail);
    let k2 = head.len() as int;
    assert(wasm_var_u32(data2) == Some(((count + 1) as u32, k2 as usize)));
    assert(data2.subrange(k2, k2 + (data.len() - k)) =~= body);
    lemma_scan_shift(data, data2, k as int, k2, count as nat, 1, f);
    let e2 = k2 + (data.len() - k);
    assert(data2.subrange(e2, data2.len() as int) =~= tail);
    lemma_last_entry_found(data2, e2, f);
}

/// The section that `target_features` is read from depends only on the
/// sections' names.
proof fn lemma_section_by_names(m: Module, m2: Module)
    requires
        m.customs@.len() == m2.customs@.len(),
        forall|j: int| 0 <= j < m.customs@.len() ==> (#[trigger] m.customs@[j]).name@ == m2.customs@[j].name@,
    ensures
        feature_section(m2) == feature_section(m),
{
    let pred = |c: CustomSection| c.name@ == "target_features"@;
    assert forall|j: int| 0 <= j < m.customs@.len() implies pred(#[trigger] m.customs@[j]) == pred(m2.customs@[j]) by {}
    lemma_indices_where_same(m.customs@, m2.customs@, pred, pred);
}

/// A section enabled by [`insert_target_feature`] reads back as enabled
/// with [`target_feature`], unless an entry for the feature was appended
/// after entries that do not fill the section, or its count was already
/// `u32::MAX` (see [`feature_append_reads_back`]).
pub proof fn lemma_inserted_feature_is_enabled(m: Module, m2: Module, feature: Seq<char>)
    requires
        match spec_insert_target_feature(m, feature) {
            Ok(cs) => customs_view(m2) == cs,
            Err(_) => false,
        },
        feature_append_reads_back(m, feature),
        m.customs@.len() < usize::MAX,
    ensures
        spec_target_feature(m2, feature) == Ok::<bool, ConventionError>(true),
{
    let f = vstd::utf8::encode_utf8(feature);
    let cs = customs_view(m);
    let cs2 = customs_view(m2);
    let pred = |c: CustomSection| c.name@ == "target_features"@;
    assert(cs2.len() == m2.customs@.len() && cs.len() == m.customs@.len());
    assert forall|j: int| 0 <= j < m2.customs@.len() implies #[trigger] cs2[j] == (m2.customs@[j].name@, m2.customs@[j].data@) by {}
    assert forall|j: int| 0 <= j < m.customs@.len() implies #[trigger] cs[j] == (m.customs@[j].name@, m.customs@[j].data@) by {}
    match feature_section(m) {
        None => {
            let data = with_feature(seq![0u8], 0, 1, f);
            let n = m.customs@.len();
            assert(cs2 == cs.push(("target_features"@, data)));
            assert(m2.customs@.len() == n + 1);
            let found = indices_where(m.customs@, pred);
            assert(found.len() == 0);
            assert forall|j: int| 0 <= j < m.customs@.len() implies pred(#[trigger] m.customs@[j]) == pred(
                m2.customs@.drop_last()[j],
            ) by {
                assert(cs2[j] == cs[j]);
                assert(m2.customs@.drop_last()[j] == m2.customs@[j]);
            }
            lemma_indices_where_same(m.customs@, m2.customs@.drop_last(), pred, pred);
            assert(cs2[n as int] == (m2.customs@[n as int].name@, m2.customs@[n as int].data@));
            assert(m2.customs@.drop_last().push(m2.customs@.last()) =~= m2.customs@);
            assert(indices_where(m2.customs@, pred) =~= seq![n as usize]);
            assert(feature_section(m2) == Some(n as int));
            lemma_new_section_lists(f);
        },
        Some(i) => {
            lemma_indices_where(m.customs@, pred);
            let data = m.customs@[i].data@;
            match find_feature(data, f) {
                Ok((count, k, found)) => {
                    assert(cs2.len() == cs.len());
                    assert forall|j: int| 0 <= j < cs.len() implies #[trigger] cs2[j].0 == cs[j].0 by {
                        if j == i {
                            assert(cs2[j].0 == cs[i].0);
                        }
                    }
                    assert forall|j: int| 0 <= j < m.customs@.len() implies (#[trigger] m.customs@[j]).name@
                        == m2.customs@[j].name@ by {
                        assert(cs2[j].0 == cs[j].0);
                    }
                    lemma_section_by_names(m, m2);
                    assert(cs2[i] == (m2.customs@[i].name@, m2.customs@[i].data@));
                    match found {
                        Some((prefix, p)) => {
                            if prefix == 45u8 {
                                lemma_enabled_entry_lists(data, f);
                            }
                        },
                        None => {
                            lemma_appended_entry_lists(data, f);
                        },
                    }
                },
                Err(_) => {},
            }
        },
    }
}

/// Enabling a feature that the section already enables changes nothing.
pub proof fn lemma_enabled_feature_insert_changes_nothing(m: Module, feature: Seq<char>)
    requires
        spec_target_feature(m, feature) == Ok::<bool, ConventionError>(true),
    ensures
        spec_insert_target_feature(m, feature) == Ok::<Seq<(Seq<char>, Seq<u8>)>, ConventionError>(
            customs_view(m),
        ),
{
}

/// Inserting a feature twice: the second insertion leaves the custom
/// sections as the first left them (under the conditions of
/// [`lemma_inserted_feature_is_enabled`]).
pub proof fn lemma_second_insert_changes_nothing(m: Module, m2: Module, feature: Seq<char>)
    requires
        match spec_insert_target_feature(m, feature) {
            Ok(cs) => customs_view(m2) == cs,
            Err(_) => false,
        },
        feature_append_reads_back(m, feature),
        m.customs@.len() < usize::MAX,
    ensures
        spec_insert_target_feature(m2, feature) == Ok::<Seq<(Seq<char>, Seq<u8>)>, ConventionError>(
            customs_view(m2),
        ),
{
    lemma_inserted_feature_is_enabled(m, m2, feature);
    lemma_enabled_feature_insert_changes_nothing(m2, feature);
}

/// A scan from `pos` on does not read what lies before `pos`.
proof fn lemma_scan_ignores_before(data: Seq<u8>, pos: int, left: nat, g: Seq<u8>, p: int, b: u8)
    requires
        0 <= p < pos,
        p < data.len(),
    ensures
        scan_features(data.update(p, b), pos, left, g) == scan_features(data, pos, left, g),
    decreases left,
{
    let d2 = data.update(p, b);
    if left > 0 && pos < data.len() {
        let rest = data.subrange(pos + 1, data.len() as int);
        assert(d2.subrange(pos + 1, d2.len() as int) =~= rest);
        assert(d2[pos] == data[pos]);
        if let Some((len, k)) = wasm_var_u32(rest) {
            lemma_var_u32_length(rest, 0, 0, 1);
            let start = pos + 1 + k;
            if start + len <= data.len() {
                assert(d2.subrange(start, start + len) =~= data.subrange(start, start + len));
                lemma_scan_ignores_before(data, start + len, (left - 1) as nat, g, p, b);
            }
        }
    }
}

/// Setting to `+` the prefix of the entry that a scan for `f` finds leaves
/// a scan for any other feature as it was.
proof fn lemma_scan_other_at_enabled(data: Seq<u8>, pos: int, left: nat, f: Seq<u8>, g: Seq<u8>, p: int, b0: u8)
    requires
        0 <= pos,
        f != g,
        scan_features(data, pos, left, f) == Ok::<Option<(u8, int)>, ConventionError>(Some((b0, p))),
    ensures
        scan_features(data.update(p, 43u8), pos, left, g) == scan_features(data, pos, left, g),
    decreases left,
{
    lemma_scan_found_at(data, pos, left, f);
    let d2 = data.update(p, 43u8);
    let rest = data.subrange(pos + 1, data.len() as int);
    let rest2 = d2.subrange(pos + 1, d2.len() as int);
    let (len, k) = wasm_var_u32(rest)->Some_0;
    lemma_var_u32_length(rest, 0, 0, 1);
    let start = pos + 1 + k;
    if data.subrange(start, start + len) == f {
        assert(p == pos);
        assert(rest2 =~= rest);
        assert(d2.subrange(start, start + len) =~= data.subrange(start, start + len));
        lemma_scan_ignores_before(data, start + len, (left - 1) as nat, g, p, 43u8);
    } else {
        lemma_scan_found_at(data, start + len, (left - 1) as nat, f);
        assert(rest2.subrange(0, k as int) =~= rest.subrange(0, k as int));
        lemma_read_within(rest, rest2);
        assert(d2.subrange(start, start + len) =~= data.subrange(start, start + len));
        assert(d2[pos] == data[pos]);
        lemma_scan_other_at_enabled(data, start + len, (left - 1) as nat, f, g, p, b0);
    }
}

/// Scanning entries that fill the data from `pos`, copied into other data
/// at `pos2`: a match is found at the same entry, shifted; no match goes
/// on with what follows the copy.
proof fn lemma_scan_shift_any(data: Seq<u8>, d2: Seq<u8>, pos: int, pos2: int, left: nat, more: nat, g: Seq<u8>)
    requires
        0 <= pos <= data.len(),
        0 <= pos2,
        pos2 + (data.len() - pos) <= d2.len(),
        d2.subrange(pos2, pos2 + (data.len() - pos)) == data.subrange(pos, data.len() as int),
        entries_end(data, pos, left) == Some(data.len() as int),
    ensures
        match scan_features(data, pos, left, g) {
            Ok(None) => scan_features(d2, pos2, left + more, g) == scan_features(
                d2,
                pos2 + (data.len() - pos),
                more,
                g,
            ),
            Ok(Some((b, q))) => scan_features(d2, pos2, left + more, g) == Ok::<Option<(u8, int)>, ConventionError>(
                Some((b, q + (pos2 - pos))),
            ),
            Err(_) => false,
        },
    decreases left,
{
    if left > 0 {
        let rest = data.subrange(pos + 1, data.len() as int);
        let rest2 = d2.subrange(pos2 + 1, d2.len() as int);
        let (len, k) = wasm_var_u32(rest)->Some_0;
        lemma_var_u32_length(rest, 0, 0, 1);
        assert(d2[pos2] == d2.subrange(pos2, pos2 + (data.len() - pos))[0]);
        assert(data[pos] == data.subrange(pos, data.len() as int)[0]);
        assert(rest2.subrange(0, k as int) =~= rest.subrange(0, k as int)) by {
            assert forall|j: int| 0 <= j < k implies #[trigger] rest2.subrange(0, k as int)[j] == rest.subrange(0, k as int)[j] by {
                assert(d2.subrange(pos2, pos2 + (data.len() - pos))[j + 1] == data.subrange(pos, data.len() as int)[j + 1]);
                assert(rest2.subrange(0, k as int)[j] == rest2[j]);
                assert(rest2[j] == d2[pos2 + 1 + j]);
                assert(rest.subrange(0, k as int)[j] == rest[j]);
                assert(rest[j] == data[pos + 1 + j]);
                assert(d2.subrange(pos2, pos2 + (data.len() - pos))[j + 1] == d2[pos2 + 1 + j]);
                assert(data.subrange(pos, data.len() as int)[j + 1] == data[pos + 1 + j]);
            }
        }
        lemma_read_within(rest, rest2);
        let start = pos + 1 + k;
        let start2 = pos2 + 1 + k;
        assert(d2.subrange(start2, start2 + len) =~= data.subrange(start, start + len)) by {
            assert forall|j: int| 0 <= j < len implies #[trigger] d2.subrange(start2, start2 + len)[j] == data.subrange(start, start + len)[j] by {
                assert(d2.subrange(pos2, pos2 + (data.len() - pos))[j + 1 + k] == data.subrange(pos, data.len() as int)[j + 1 + k]);
                assert(d2.subrange(pos2, pos2 + (data.len() - pos))[j + 1 + k] == d2[start2 + j]);
                assert(data.subrange(pos, data.len() as int)[j + 1 + k] == data[start + j]);
            }
        }
        if data.subrange(start, start + len) != g {
            let next = start + len;
            let next2 = start2 + len;
            assert(d2.subrange(next2, next2 + (data.len() - next)) =~= data.subrange(next, data.len() as int)) by {
                assert forall|j: int| 0 <= j < data.len() - next implies #[trigger] d2.subrange(next2, next2 + (data.len() - next))[j] == data.subrange(next, data.len() as int)[j] by {
                    assert(d2.subrange(pos2, pos2 + (data.len() - pos))[j + next - pos] == data.subrange(pos, data.len() as int)[j + next - pos]);
                    assert(d2.subrange(pos2, pos2 + (data.len() - pos))[j + next - pos] == d2[next2 + j]);
                    assert(data.subrange(pos, data.len() as int)[j + next - pos] == data[next + j]);
                }
            }
            assert((left + more - 1) as nat == (left - 1) as nat + more);
            lemma_scan_shift_any(data, d2, next, next2, (left - 1) as nat, more, g);
        }
    }
}

/// A last entry listing another feature is passed over.
proof fn lemma_last_entry_other(data: Seq<u8>, e: int, f: Seq<u8>, g: Seq<u8>)
    requires
        0 <= e <= data.len(),
        f.len() <= max_feature_len(),
        f != g,
        data.subrange(e, data.len() as int) == seq![43u8] + uleb128(f.len()) + f,
    ensures
        scan_features(data, e, 1, g) == Ok::<Option<(u8, int)>, ConventionError>(None),
{
    let l = f.len();
    let entry = data.subrange(e, data.len() as int);
    assert(entry.len() == 1 + uleb128(l).len() + l);
    assert(e < data.len());
    let rest = data.subrange(e + 1, data.len() as int);
    assert(rest =~= entry.subrange(1, entry.len() as int));
    assert((seq![43u8] + uleb128(l) + f).subrange(1, entry.len() as int) =~= uleb128(l) + f);
    assert((l as u32) as nat == l);
    assert(rest =~= uleb128(l as u32 as nat) + f);
    lemma_uleb128_reads_back(l as u32, f);
    let kl = uleb128(l).len();
    assert(wasm_var_u32(rest) == Some((l as u32, kl as usize)));
    assert(data.len() == e + 1 + kl + l);
    assert(rest.subrange(kl as int, (kl + l) as int) =~= f);
    assert(data.subrange(e + 1 + kl, e + 1 + kl + l) =~= rest.subrange(kl as int, (kl + l) as int));
    assert(scan_features(data, e + 1 + kl + l, 0, g) == Ok::<Option<(u8, int)>, ConventionError>(None));
}

/// A new section listing only `f` does not list another feature.
proof fn lemma_new_section_other(f: Seq<u8>, g: Seq<u8>)
    requires
        f.len() <= max_feature_len(),
        f != g,
    ensures
        find_feature(with_feature(seq![0u8], 0, 1, f), g) matches Ok((_, _, None)),
{
    let data = with_feature(seq![0u8], 0, 1, f);
    let l = f.len();
    assert(data =~= uleb128(1) + (seq![43u8] + uleb128(l) + f));
    lemma_uleb128_reads_back(1u32, seq![43u8] + uleb128(l) + f);
    assert(uleb128(1) =~= seq![1u8]);
    assert(wasm_var_u32(data) == Some((1u32, 1usize)));
    assert(data.subrange(1, data.len() as int) =~= seq![43u8] + uleb128(l) + f);
    lemma_last_entry_other(data, 1, f, g);
}

/// Whether two feature readings agree on the verdict they lead to.
pub open spec fn same_verdict(
    a: Result<(u32, int, Option<(u8, int)>), ConventionError>,
    b: Result<(u32, int, Option<(u8, int)>), ConventionError>,
) -> bool {
    match (a, b) {
        (Ok((_, _, None)), Ok((_, _, None))) => true,
        (Ok((_, _, Some((x, _)))), Ok((_, _, Some((y, _))))) => x == y,
        (Err(x), Err(y)) => x == y,
        _ => false,
    }
}

proof fn lemma_enable_keeps_other(data: Seq<u8>, f: Seq<u8>, g: Seq<u8>)
    requires
        f != g,
        find_feature(data, f) matches Ok((_, _, Some((b, _)))) && b == 45u8,
    ensures
        same_verdict(
            find_feature(data.update(find_feature(data, f)->Ok_0.2->Some_0.1, 43u8), g),
            find_feature(data, g),
        ),
{
    let (count, k, found) = find_feature(data, f)->Ok_0;
    let (prefix, p) = found->Some_0;
    lemma_var_u32_length(data, 0, 0, 1);
    lemma_scan_found_at(data, k as int, count as nat, f);
    let data2 = data.update(p, 43u8);
    assert(data2.subrange(0, k as int) =~= data.subrange(0, k as int));
    lemma_read_within(data, data2);
    lemma_scan_other_at_enabled(data, k as int, count as nat, f, g, p, prefix);
}

proof fn lemma_append_keeps_other(data: Seq<u8>, f: Seq<u8>, g: Seq<u8>)
    requires
        f != g,
        f.len() <= max_feature_len(),
        find_feature(data, f) matches Ok((count, k, None)) && count < u32::MAX && entries_end(
            data,
            k,
            count as nat,
        ) == Some(data.len() as int),
    ensures
        same_verdict(
            find_feature(with_feature(data, find_feature(data, f)->Ok_0.0, find_feature(data, f)->Ok_0.1, f), g),
            find_feature(data, g),
        ),
{
    let (count, k, _) = find_feature(data, f)->Ok_0;
    let data2 = with_feature(data, count, k, f);
    lemma_var_u32_length(data, 0, 0, 1);
    let head = uleb128(count as nat + 1);
    let body = data.subrange(k as int, data.len() as int);
    let tail = seq![43u8] + uleb128(f.len()) + f;
    assert(data2 =~= head + (body + tail));
    lemma_uleb128_reads_back((count + 1) as u32, body + tail);
    let k2 = head.len() as int;
    assert(wasm_var_u32(data2) == Some(((count + 1) as u32, k2 as usize)));
    assert(data2.subrange(k2, k2 + (data.len() - k)) =~= body);
    lemma_scan_shift_any(data, data2, k as int, k2, count as nat, 1, g);
    let e2 = k2 + (data.len() - k);
    assert(data2.subrange(e2, data2.len() as int) =~= tail);
    lemma_last_entry_other(data2, e2, f, g);
}

/// Enabling a feature leaves every other feature reading as it did
/// (under the conditions of [`lemma_inserted_feature_is_enabled`]).
pub proof fn lemma_insert_keeps_other_features(m: Module, m2: Module, feature: Seq<char>, other: Seq<char>)
    requires
        match spec_insert_target_feature(m, feature) {
            Ok(cs) => customs_view(m2) == cs,
            Err(_) => false,
        },
        feature_append_reads_back(m, feature),
        m.customs@.len() < usize::MAX,
        other != feature,
    ensures
        spec_target_feature(m2, other) == spec_target_feature(m, other),
{
    let f = vstd::utf8::encode_utf8(feature);
    let g = vstd::utf8::encode_utf8(other);
    vstd::utf8::encode_utf8_decode_utf8(feature);
    vstd::utf8::encode_utf8_decode_utf8(other);
    assert(f != g);
    if g.len() > max_feature_len() {
        return;
    }
    let cs = customs_view(m);
    let cs2 = customs_view(m2);
    let pred = |c: CustomSection| c.name@ == "target_features"@;
    assert(cs2.len() == m2.customs@.len() && cs.len() == m.customs@.len());
    assert forall|j: int| 0 <= j < m2.customs@.len() implies #[trigger] cs2[j] == (m2.customs@[j].name@, m2.customs@[j].data@) by {}
    assert forall|j: int| 0 <= j < m.customs@.len() implies #[trigger] cs[j] == (m.customs@[j].name@, m.customs@[j].data@) by {}
    match feature_section(m) {
        None => {
            let data = with_feature(seq![0u8], 0, 1, f);
            let n = m.customs@.len();
            assert(cs2 == cs.push(("target_features"@, data)));
            let found = indices_where(m.customs@, pred);
            assert(found.len() == 0);
            assert forall|j: int| 0 <= j < m.customs@.len() implies pred(#[trigger] m.customs@[j]) == pred(
                m2.customs@.drop_last()[j],
            ) by {
                assert(cs2[j] == cs[j]);
                assert(m2.customs@.drop_last()[j] == m2.customs@[j]);
            }
            lemma_indices_where_same(m.customs@, m2.customs@.drop_last(), pred, pred);
            assert(cs2[n as int] == (m2.customs@[n as int].name@, m2.customs@[n as int].data@));
            assert(m2.customs@.drop_last().push(m2.customs@.last()) =~= m2.customs@);
            assert(indices_where(m2.customs@, pred) =~= seq![n as usize]);
            assert(feature_section(m2) == Some(n as int));
            lemma_new_section_other(f, g);
        },
        Some(i) => {
            lemma_indices_where(m.customs@, pred);
            let data = m.customs@[i].data@;
            match find_feature(data, f) {
                Ok((count, k, found)) => {
                    assert(cs2.len() == cs.len());
                    assert forall|j: int| 0 <= j < cs.len() implies #[trigger] cs2[j].0 == cs[j].0 by {
                        if j == i {
                            assert(cs2[j].0 == cs[i].0);
                        }
                    }
                    assert forall|j: int| 0 <= j < m.customs@.len() implies (#[trigger] m.customs@[j]).name@
                        == m2.customs@[j].name@ by {
                        assert(cs2[j].0 == cs[j].0);
                    }
                    lemma_section_by_names(m, m2);
                    assert(cs2[i] == (m2.customs@[i].name@, m2.customs@[i].data@));
                    let data2 = m2.customs@[i].data@;
                    match found {
                        Some((prefix, p)) => {
                            if prefix == 45u8 {
                                assert(data2 == data.update(p, 43u8));
                                lemma_enable_keeps_other(data, f, g);
                            } else {
                                assert(data2 == data);
                            }
                        },
                        None => {
                            assert(data2 == with_feature(data, count, k, f));
                            lemma_append_keeps_other(data, f, g);
                        },
                    }
                },
                Err(_) => {},
            }
        },
    }
}

proof fn lemma_indices_where_hold<A>(s: Seq<A>, p: spec_fn(A) -> bool)
    requires
        s.len() <= usize::MAX,
    ensures
        forall|k: int|
            0 <= k < indices_where(s, p).len() ==> (#[trigger] indices_where(s, p)[k]) < s.len() && p(
                s[indices_where(s, p)[k] as int],
            ),
    decreases s.len(),
{
    if s.len() > 0 {
        lemma_indices_where_hold(s.drop_last(), p);
        let rest = indices_where(s.drop_last(), p);
        let idx = indices_where(s, p);
        assert forall|k: int| 0 <= k < idx.len() implies (#[trigger] idx[k]) < s.len() && p(s[idx[k] as int]) by {
            if k < rest.len() {
                assert(idx[k] == rest[k]);
                assert(rest[k] < s.drop_last().len() && p(s.drop_last()[rest[k] as int]));
                assert(s.drop_last()[rest[k] as int] == s[rest[k] as int]);
            } else {
                assert(p(s.last()));
                assert(idx[k] == (s.len() - 1) as usize);
            }
        }
    }
}

proof fn lemma_indices_where_append<A>(s: Seq<A>, e: Seq<A>, p: spec_fn(A) -> bool)
    requires
        forall|i: int| 0 <= i < e.len() ==> !p(#[trigger] e[i]),
    ensures
        indices_where(s + e, p) == indices_where(s, p),
    decreases e.len(),
{
    if e.len() == 0 {
        assert(s + e =~= s);
    } else {
        lemma_indices_where_append(s, e.drop_last(), p);
        assert((s + e).drop_last() =~= s + e.drop_last());
        assert((s + e).last() == e[e.len() - 1]);
    }
}

/// Without a global named `__stack_pointer`, the stack pointer that is
/// found is a mutable integer global defined with a nonzero constant: an
/// immutable global is never taken for it.
pub proof fn lemma_stack_pointer_is_mutable(m: Module)
    requires
        m.globals@.len() <= usize::MAX,
        forall|j: int|
            0 <= j < m.globals@.len() ==> !((#[trigger] m.globals@[j]).name matches Some(n) && n@
                == "__stack_pointer"@),
    ensures
        spec_get_stack_pointer(m) matches Some(i) ==> i < m.globals@.len() && m.globals@[i as int].mutable && (
        m.globals@[i as int].ty == ValType::I32 || m.globals@[i as int].ty == ValType::I64) && match m.globals@[i as int].kind {
            GlobalKind::Local(ConstExpr::Value(Value::I32(n))) => n != 0,
            GlobalKind::Local(ConstExpr::Value(Value::I64(n))) => n != 0,
            _ => false,
        },
{
    let named = indices_where(m.globals@, |g: Global| is_named_stack_pointer(g));
    let candidates = indices_where(m.globals@, |g: Global| is_stack_pointer_candidate(g));
    lemma_indices_where_hold(m.globals@, |g: Global| is_named_stack_pointer(g));
    lemma_indices_where_hold(m.globals@, |g: Global| is_stack_pointer_candidate(g));
    if named.len() > 0 {
        assert(is_named_stack_pointer(m.globals@[named[0] as int]));
        assert(false);
    }
}

/// Adding globals that are immutable and not named `__stack_pointer` (such
/// as `__data_end` and `__heap_base`) after the others does not change
/// which global is the stack pointer.
pub proof fn lemma_immutable_globals_do_not_move_the_stack_pointer(m: Module, m2: Module, extra: Seq<Global>)
    requires
        m2.globals@ == m.globals@ + extra,
        forall|j: int|
            0 <= j < extra.len() ==> !(#[trigger] extra[j]).mutable && !(extra[j].name matches Some(n) && n@
                == "__stack_pointer"@),
    ensures
        spec_get_stack_pointer(m2) == spec_get_stack_pointer(m),
{
    lemma_indices_where_append(m.globals@, extra, |g: Global| is_named_stack_pointer(g));
    lemma_indices_where_append(m.globals@, extra, |g: Global| is_stack_pointer_candidate(g));
}

} // verus!
