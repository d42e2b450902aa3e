//! The `env.__wbindgen_memory_discard` import: allocators that release
//! physical pages declare it, and it is replaced by a local trampoline
//! whose body is the `memory.discard` instruction of the memory-control
//! proposal. Here is decided whether the replacement applies, with which
//! memory, and which error stops it, and the replacement is made on the
//! module.

use vstd::prelude::*;
use crate::strings::{push_char, push_text};
use crate::wasm_conventions::{convention_message, get_memory, spec_get_memory, ConventionError};
use crate::wasm_model::{
    push_val_type, val_type_text, ConstExpr, Func, FuncType, FunctionKind, Global, GlobalKind, Import, ImportKind, Instr,
    LocalFunction, Module, ValType,
};

verus! {

/// Whether an import is the function `env.__wbindgen_memory_discard`.
pub open spec fn is_discard_import(i: Import) -> bool {
    &&& i.module@ == "env"@
    &&& i.name@ == "__wbindgen_memory_discard"@
    &&& i.kind is Function
}

/// The position of the first discard import at or after `k`.
pub open spec fn first_discard_from(imps: Seq<Import>, k: nat) -> Option<nat>
    decreases imps.len() - k,
{
    if k >= imps.len() {
        None
    } else if is_discard_import(imps[k as int]) {
        Some(k)
    } else {
        first_discard_from(imps, k + 1)
    }
}

/// The function that an import brings in, if it is a function import.
pub open spec fn imported_func(i: Import) -> usize {
    match i.kind {
        ImportKind::Function(f) => f,
        _ => 0,
    }
}

/// The address type of a memory: `i64` for a memory64 memory, else `i32`.
pub open spec fn address_type(m: Module, mem: usize) -> ValType {
    if m.memories@[mem as int].memory64 {
        ValType::I64
    } else {
        ValType::I32
    }
}

/// Whether the discard function has the type `[ptr ptr] -> []`.
pub open spec fn discard_type_ok(t: FuncType, ptr: ValType) -> bool {
    t.params@ == seq![ptr, ptr] && t.results@.len() == 0
}

/// Every function import names a function of the module, whose type is
/// one of the module's types (which a parsed module always satisfies).
pub open spec fn function_imports_resolve(m: Module) -> bool {
    forall|k: int|
        0 <= k < m.imports@.len() && (#[trigger] m.imports@[k]).kind is Function ==> {
            let f = imported_func(m.imports@[k]);
            &&& f < m.funcs@.len()
            &&& m.funcs@[f as int].ty < m.types@.len()
        }
}

/// What replacing the discard import works on: the import, the function
/// it brings in, and the memory to discard pages of.
#[derive(Debug)]
pub struct DiscardPlan {
    pub import: usize,
    pub func: usize,
    pub memory: usize,
}

/// Why the discard import cannot be replaced.
#[derive(Debug)]
pub enum DiscardError {
    /// The module imports the discard function but the experimental flag
    /// is not given.
    FlagRequired,
    /// The module's memory could not be chosen.
    Memory(ConventionError),
    /// The import does not have the type `[ptr ptr] -> []` for the
    /// memory's address type `ptr`; the import's own parameters and
    /// results are given.
    WrongSignature { ptr: ValType, params: Vec<ValType>, results: Vec<ValType> },
}

/// Value types separated by single spaces.
pub open spec fn val_types_text(s: Seq<ValType>) -> Seq<char>
    decreases s.len(),
{
    if s.len() == 0 {
        seq![]
    } else if s.len() == 1 {
        val_type_text(s[0])
    } else {
        val_types_text(s.drop_last()) + seq![' '] + val_type_text(s.last())
    }
}

/// The message of a [`DiscardError`].
pub open spec fn discard_message(e: DiscardError) -> Seq<char> {
    match e {
        DiscardError::FlagRequired => "module imports `env.__wbindgen_memory_discard`, which requires the experimental `--experimental-memory-discard` flag; the emitted `memory.discard` instruction needs an engine supporting the wasm memory-control proposal"@,
        DiscardError::Memory(c) => convention_message(c),
        DiscardError::WrongSignature { ptr, params, results } => "`env.__wbindgen_memory_discard` import must have type ["@
            + val_type_text(ptr) + seq![' '] + val_type_text(ptr) + "] -> [], found ["@ + val_types_text(params@)
            + "] -> ["@ + val_types_text(results@) + seq![']'],
    }
}

fn push_val_types(out: &mut String, s: &Vec<ValType>)
    ensures
        final(out)@ == old(out)@ + val_types_text(s@),
{
    let ghost start = out@;
    let mut i: usize = 0;
    while i < s.len()
        invariant
            i <= s@.len(),
            out@ == start + val_types_text(s@.take(i as int)),
        decreases s@.len() - i,
    {
        let ghost before = out@;
        if i > 0 {
            push_char(out, ' ');
        }
        push_val_type(out, s[i]);
        proof {
            let t = s@.take(i as int + 1);
            assert(t.drop_last() =~= s@.take(i as int));
            assert(t.last() == s@[i as int]);
            if i == 0 {
                assert(t =~= seq![s@[0]]);
            }
            assert(out@ =~= start + val_types_text(t));
        }
        i = i + 1;
    }
    assert(s@.take(i as int) =~= s@);
}

impl DiscardError {
    /// The error's message.
    pub fn message(&self) -> (s: String)
        ensures
            s@ == discard_message(*self),
    {
        let mut s = String::new();
        match self {
            DiscardError::FlagRequired => push_text(
                &mut s,
                "module imports `env.__wbindgen_memory_discard`, which requires the experimental `--experimental-memory-discard` flag; the emitted `memory.discard` instruction needs an engine supporting the wasm memory-control proposal",
            ),
            DiscardError::Memory(c) => {
                s = c.message();
            },
            DiscardError::WrongSignature { ptr, params, results } => {
                push_text(&mut s, "`env.__wbindgen_memory_discard` import must have type [");
                push_val_type(&mut s, *ptr);
                push_char(&mut s, ' ');
                push_val_type(&mut s, *ptr);
                push_text(&mut s, "] -> [], found [");
                push_val_types(&mut s, params);
                push_text(&mut s, "] -> [");
                push_val_types(&mut s, results);
                push_char(&mut s, ']');
            },
        }
        proof {
            assert(s@ =~= discard_message(*self));
        }
        s
    }
}

fn is_discard(i: &Import) -> (r: bool)
    ensures
        r == is_discard_import(*i),
{
    crate::strings::text_is(i.module.as_str(), "env") && crate::strings::text_is(
        i.name.as_str(),
        "__wbindgen_memory_discard",
    ) && match i.kind {
        ImportKind::Function(_) => true,
        _ => false,
    }
}

fn copy_types(s: &Vec<ValType>) -> (r: Vec<ValType>)
    ensures
        r@ == s@,
{
    let mut r: Vec<ValType> = Vec::new();
    let mut i: usize = 0;
    while i < s.len()
        invariant
            i <= s@.len(),
            r@ == s@.take(i as int),
        decreases s@.len() - i,
    {
        r.push(s[i]);
        i = i + 1;
        assert(r@ =~= s@.take(i as int));
    }
    assert(s@.take(i as int) =~= s@);
    r
}

/// Decides what to do with the module's `env.__wbindgen_memory_discard`
/// import: nothing when there is none; else, when `enabled` (the
/// experimental flag) is given, the module has a single memory, and the
/// import has the type `[ptr ptr] -> []` for that memory's address type,
/// the first such import is to be replaced by a `memory.discard`
/// trampoline on that memory.
pub fn memory_discard_plan(module: &Module, enabled: bool) -> (r: Result<Option<DiscardPlan>, DiscardError>)
    requires
        function_imports_resolve(*module),
    ensures
        match first_discard_from(module.imports@, 0) {
            None => r matches Ok(None),
            Some(k) => {
                let f = imported_func(module.imports@[k as int]);
                if !enabled {
                    r matches Err(DiscardError::FlagRequired)
                } else {
                    match spec_get_memory(*module) {
                        Err(e) => r matches Err(DiscardError::Memory(e2)) && e2 == e,
                        Ok(mem) => {
                            let ptr = address_type(*module, mem);
                            let t = module.types@[module.funcs@[f as int].ty as int];
                            if discard_type_ok(t, ptr) {
                                r matches Ok(Some(p)) && p.import == k && p.func == f && p.memory == mem
                            } else {
                                r matches Err(DiscardError::WrongSignature { ptr: p, params, results })
                                    && p == ptr && params@ == t.params@ && results@ == t.results@
                            }
                        },
                    }
                }
            },
        },
{
    let n = module.imports.len();
    let mut k: usize = 0;
    while k < n
        invariant
            n == module.imports@.len(),
            k <= n,
            first_discard_from(module.imports@, 0) == first_discard_from(module.imports@, k as nat),
        ensures
            k <= n,
            first_discard_from(module.imports@, 0) == first_discard_from(module.imports@, k as nat),
            k < n ==> is_discard_import(module.imports@[k as int]),
        decreases n - k,
    {
        if is_discard(&module.imports[k]) {
            break;
        }
        k = k + 1;
    }
    if k >= n {
        return Ok(None);
    }
    assert(first_discard_from(module.imports@, 0) == Some(k as nat));
    let f: usize = match module.imports[k].kind {
        ImportKind::Function(f) => f,
        _ => 0,
    };
    if !enabled {
        return Err(DiscardError::FlagRequired);
    }
    let mem = match get_memory(module) {
        Ok(m) => m,
        Err(e) => {
            return Err(DiscardError::Memory(e));
        },
    };
    let ptr = if module.memories[mem].memory64 {
        ValType::I64
    } else {
        ValType::I32
    };
    assert(module.imports@[k as int].kind is Function);
    let ty = &module.types[module.funcs[f].ty];
    if ty.params.len() == 2 && ty.params[0] == ptr && ty.params[1] == ptr && ty.results.len() == 0 {
        assert(ty.params@ =~= seq![ptr, ptr]);
        Ok(Some(DiscardPlan { import: k, func: f, memory: mem }))
    } else {
        Err(DiscardError::WrongSignature { ptr, params: copy_types(&ty.params), results: copy_types(&ty.results) })
    }
}

/// A function after the import at `k` is deleted: a function imported
/// by a later import now names the import one place earlier.
pub open spec fn shifted_func(fu: Func, k: usize) -> Func {
    match fu.kind {
        FunctionKind::Import(i) => if i > k {
            Func { kind: FunctionKind::Import((i - 1) as usize), ..fu }
        } else {
            fu
        },
        _ => fu,
    }
}

/// A global after the import at `k` is deleted, as [`shifted_func`].
pub open spec fn shifted_global(g: Global, k: usize) -> Global {
    match g.kind {
        GlobalKind::Import(i) => if i > k {
            Global { kind: GlobalKind::Import((i - 1) as usize), ..g }
        } else {
            g
        },
        _ => g,
    }
}

/// Whether `m2` is `m` with the discard import at `k` (of function `f`)
/// replaced by a local trampoline: the import is deleted (later imports
/// move up one place), and `f` becomes a function named
/// `__wbindgen_memory_discard`, of the same type, whose body passes its two
/// arguments to `memory.discard` on memory `mem`.
pub open spec fn discard_replaced(m: Module, m2: Module, k: usize, f: usize, mem: usize) -> bool {
    &&& m2 == (Module { imports: m2.imports, funcs: m2.funcs, globals: m2.globals, ..m })
    &&& m2.imports@ == m.imports@.remove(k as int)
    &&& m2.funcs@.len() == m.funcs@.len()
    &&& forall|j: int|
        0 <= j < m.funcs@.len() && j != f ==> #[trigger] m2.funcs@[j] == shifted_func(m.funcs@[j], k)
    &&& m2.funcs@[f as int].ty == m.funcs@[f as int].ty
    &&& m2.funcs@[f as int].name matches Some(n) && n@ == "__wbindgen_memory_discard"@
    &&& m2.funcs@[f as int].kind matches FunctionKind::Local(lf) && lf.args@ == seq![0usize, 1usize]
        && lf.entry == 0 && lf.seqs@.len() == 1 && lf.seqs@[0]@ == seq![
        Instr::LocalGet(0),
        Instr::LocalGet(1),
        Instr::MemoryDiscard(mem),
    ]
    &&& m2.globals@.len() == m.globals@.len()
    &&& forall|j: int| 0 <= j < m.globals@.len() ==> #[trigger] m2.globals@[j] == shifted_global(m.globals@[j], k)
}

pub(crate) fn shift_func(fu: Func, k: usize) -> (r: Func)
    ensures
        r == shifted_func(fu, k),
{
    let Func { ty, name, kind } = fu;
    let kind = match kind {
        FunctionKind::Import(i) => if i > k {
            FunctionKind::Import(i - 1)
        } else {
            FunctionKind::Import(i)
        },
        other => other,
    };
    Func { ty, name, kind }
}

pub(crate) fn shift_global(g: Global, k: usize) -> (r: Global)
    ensures
        r == shifted_global(g, k),
{
    let Global { ty, mutable, name, kind } = g;
    let kind = match kind {
        GlobalKind::Import(i) => if i > k {
            GlobalKind::Import(i - 1)
        } else {
            GlobalKind::Import(i)
        },
        other => other,
    };
    Global { ty, mutable, name, kind }
}

/// Replaces the discard import at `k`, of function `f`, by a trampoline
/// on memory `mem`; see [`discard_replaced`].
fn replace_discard_import(module: &mut Module, k: usize, f: usize, mem: usize)
    requires
        k < old(module).imports@.len(),
        f < old(module).funcs@.len(),
    ensures
        discard_replaced(*old(module), *final(module), k, f, mem),
{
    module.imports.remove(k);
    let mut j: usize = 0;
    while j < module.funcs.len()
        invariant
            *module == (Module { imports: module.imports, funcs: module.funcs, ..*old(module) }),
            k < old(module).imports@.len(),
            module.imports@ == old(module).imports@.remove(k as int),
            module.funcs@.len() == old(module).funcs@.len(),
            f < module.funcs@.len(),
            j <= module.funcs@.len(),
            forall|i: int|
                0 <= i < j && i != f ==> #[trigger] module.funcs@[i] == shifted_func(old(module).funcs@[i], k),
            forall|i: int| j <= i < module.funcs@.len() ==> #[trigger] module.funcs@[i] == old(module).funcs@[i],
            j > f ==> module.funcs@[f as int].ty == old(module).funcs@[f as int].ty
                && (module.funcs@[f as int].name matches Some(n) && n@ == "__wbindgen_memory_discard"@)
                && (module.funcs@[f as int].kind matches FunctionKind::Local(lf) && lf.args@ == seq![0usize, 1usize]
                && lf.entry == 0 && lf.seqs@.len() == 1 && lf.seqs@[0]@ == seq![
                Instr::LocalGet(0),
                Instr::LocalGet(1),
                Instr::MemoryDiscard(mem),
            ]),
        decreases module.funcs@.len() - j,
    {
        let mut fu = Func { ty: 0, name: None, kind: FunctionKind::Uninitialized };
        module.funcs.set_and_swap(j, &mut fu);
        let new_fu = if j == f {
            let mut name = String::new();
            push_text(&mut name, "__wbindgen_memory_discard");
            let mut body: Vec<Instr> = Vec::new();
            body.push(Instr::LocalGet(0));
            body.push(Instr::LocalGet(1));
            body.push(Instr::MemoryDiscard(mem));
            let mut seqs: Vec<Vec<Instr>> = Vec::new();
            seqs.push(body);
            let mut args: Vec<usize> = Vec::new();
            args.push(0);
            args.push(1);
            proof {
                assert(args@ =~= seq![0usize, 1usize]);
                assert(seqs@[0]@ =~= seq![Instr::LocalGet(0), Instr::LocalGet(1), Instr::MemoryDiscard(mem)]);
            }
            Func { ty: fu.ty, name: Some(name), kind: FunctionKind::Local(LocalFunction { args, entry: 0, seqs }) }
        } else {
            shift_func(fu, k)
        };
        module.funcs.set(j, new_fu);
        j = j + 1;
    }
    let mut g: usize = 0;
    while g < module.globals.len()
        invariant
            *module == (Module { imports: module.imports, funcs: module.funcs, globals: module.globals, ..*old(module) }),
            k < old(module).imports@.len(),
            module.imports@ == old(module).imports@.remove(k as int),
            module.funcs@.len() == old(module).funcs@.len(),
            f < module.funcs@.len(),
            forall|i: int|
                0 <= i < module.funcs@.len() && i != f ==> #[trigger] module.funcs@[i] == shifted_func(old(module).funcs@[i], k),
            module.funcs@[f as int].ty == old(module).funcs@[f as int].ty
                && (module.funcs@[f as int].name matches Some(n) && n@ == "__wbindgen_memory_discard"@)
                && (module.funcs@[f as int].kind matches FunctionKind::Local(lf) && lf.args@ == seq![0usize, 1usize]
                && lf.entry == 0 && lf.seqs@.len() == 1 && lf.seqs@[0]@ == seq![
                Instr::LocalGet(0),
                Instr::LocalGet(1),
                Instr::MemoryDiscard(mem),
            ]),
            module.globals@.len() == old(module).globals@.len(),
            g <= module.globals@.len(),
            forall|i: int| 0 <= i < g ==> #[trigger] module.globals@[i] == shifted_global(old(module).globals@[i], k),
            forall|i: int| g <= i < module.globals@.len() ==> #[trigger] module.globals@[i] == old(module).globals@[i],
        decreases module.globals@.len() - g,
    {
        let mut gl = Global { ty: ValType::I32, mutable: false, name: None, kind: GlobalKind::Local(ConstExpr::RefNull) };
        module.globals.set_and_swap(g, &mut gl);
        module.globals.set(g, shift_global(gl, k));
        g = g + 1;
    }
}

/// Replaces the module's `env.__wbindgen_memory_discard` import by a
/// `memory.discard` trampoline where [`memory_discard_plan`] says so, and
/// fails with its error where it fails; the module is left as it was when
/// there is nothing to replace or an error.
pub fn run(module: &mut Module, enabled: bool) -> (r: Result<(), DiscardError>)
    requires
        function_imports_resolve(*old(module)),
    ensures
        match first_discard_from(old(module).imports@, 0) {
            None => r is Ok && *final(module) == *old(module),
            Some(k) => {
                let f = imported_func(old(module).imports@[k as int]);
                if !enabled {
                    r matches Err(DiscardError::FlagRequired) && *final(module) == *old(module)
                } else {
                    match spec_get_memory(*old(module)) {
                        Err(e) => r matches Err(DiscardError::Memory(e2)) && e2 == e && *final(module) == *old(module),
                        Ok(mem) => {
                            let ptr = address_type(*old(module), mem);
                            let t = old(module).types@[old(module).funcs@[f as int].ty as int];
                            if discard_type_ok(t, ptr) {
                                r is Ok && discard_replaced(*old(module), *final(module), k as usize, f, mem)
                            } else {
                                r matches Err(DiscardError::WrongSignature { ptr: p, params, results })
                                    && p == ptr && params@ == t.params@ && results@ == t.results@
                                    && *final(module) == *old(module)
                            }
                        },
                    }
                }
            },
        },
{
    match memory_discard_plan(module, enabled) {
        Ok(None) => Ok(()),
        Ok(Some(p)) => {
            proof {
                let k = first_discard_from(module.imports@, 0)->Some_0;
                lemma_first_discard_in_range(module.imports@, 0);
                assert(module.imports@[k as int].kind is Function);
            }
            replace_discard_import(module, p.import, p.func, p.memory);
            Ok(())
        },
        Err(e) => Err(e),
    }
}

proof fn lemma_first_discard_in_range(imps: Seq<Import>, k: nat)
    ensures
        first_discard_from(imps, k) matches Some(i) ==> k <= i < imps.len() && is_discard_import(imps[i as int]),
    decreases imps.len() - k,
{
    if k < imps.len() && !is_discard_import(imps[k as int]) {
        lemma_first_discard_in_range(imps, k + 1);
    }
}

} // verus!

