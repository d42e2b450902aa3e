//! The hooks of emscripten's JSPI runtime: JSPI on the emscripten target
//! wraps exports and imports with calls of the four hook exports that the
//! runtime provides. Here the hooks are located and their types checked.

use vstd::prelude::*;
use crate::strings::{push_decimal, push_text, text_is};
use crate::wasm_model::{AbstractHeapType, Export, ExportItem, HeapType, Module, RefType, ValType};

verus! {

/// The name of hook `i`: `__jspi_enter`, `__jspi_exit`, `__jspi_suspend`
/// and `__jspi_resume`.
pub open spec fn hook_name(i: nat) -> Seq<char> {
    if i == 0 {
        "__jspi_enter"@
    } else if i == 1 {
        "__jspi_exit"@
    } else if i == 2 {
        "__jspi_suspend"@
    } else {
        "__jspi_resume"@
    }
}

/// The type of hook `i`: the "before" hooks (enter, suspend) take nothing
/// and return an `i64` token; the "after" hooks (exit, resume) take the
/// token and an `i32` error flag and return nothing.
pub open spec fn hook_type(i: nat) -> (Seq<ValType>, Seq<ValType>) {
    if i % 2 == 0 {
        (seq![], seq![ValType::I64])
    } else {
        (seq![ValType::I64, ValType::I32], seq![])
    }
}

/// The position of the first export named `name`, from position `k` on.
pub open spec fn export_named(exports: Seq<Export>, name: Seq<char>, k: nat) -> Option<nat>
    decreases exports.len() - k,
{
    if k >= exports.len() {
        None
    } else if exports[k as int].name@ == name {
        Some(k)
    } else {
        export_named(exports, name, k + 1)
    }
}

/// Every exported function is a function of the module with one of the
/// module's types (which a parsed module always satisfies).
pub open spec fn function_exports_resolve(m: Module) -> bool {
    forall|k: int|
        0 <= k < m.exports@.len() ==> match (#[trigger] m.exports@[k]).item {
            ExportItem::Function(f) => f < m.funcs@.len() && m.funcs@[f as int].ty < m.types@.len(),
            _ => true,
        }
}

/// Why the hooks cannot be used.
#[derive(Debug)]
pub enum HookError {
    /// Hook `hook` is not exported as a function.
    Missing { hook: usize },
    /// Hook `hook` is exported with the parameters and results given.
    WrongType { hook: usize, params: Vec<ValType>, results: Vec<ValType> },
}

/// The four hooks, by function index.
#[derive(Debug, Clone, Copy, PartialEq, Eq)]
pub struct Hooks {
    pub enter: usize,
    pub exit: usize,
    pub suspend: usize,
    pub resume: usize,
}

/// The function exported as hook `i`, if the first export of that name is
/// a function of the hook's type; else what is wrong with it.
pub open spec fn spec_locate_hook(m: Module, i: nat) -> Result<usize, (Option<(Seq<ValType>, Seq<ValType>)>)> {
    match export_named(m.exports@, hook_name(i), 0) {
        None => Err(None),
        Some(k) => match m.exports@[k as int].item {
            ExportItem::Function(f) => {
                let t = m.types@[m.funcs@[f as int].ty as int];
                if (t.params@, t.results@) == hook_type(i) {
                    Ok(f)
                } else {
                    Err(Some((t.params@, t.results@)))
                }
            },
            _ => Err(None),
        },
    }
}

/// Whether `e` is the error of hook `i` for what [`spec_locate_hook`]
/// found.
pub open spec fn hook_error_is(e: HookError, i: nat, found: Option<(Seq<ValType>, Seq<ValType>)>) -> bool {
    match found {
        None => e == HookError::Missing { hook: i as usize },
        Some((p, r)) => e matches HookError::WrongType { hook, params, results } && hook == i && params@ == p
            && results@ == r,
    }
}

fn copy_types(s: &Vec<ValType>) -> (r: Vec<ValType>)
    ensures
        r@ == s@,
{
    let mut r: Vec<ValType> = Vec::new();
    let mut i: usize = 0;
    while i < s.len()
        invariant
            i <= s@.len(),
            r@ == s@.take(i as int),
        decreases s@.len() - i,
    {
        r.push(s[i]);
        i = i + 1;
        assert(r@ =~= s@.take(i as int));
    }
    assert(s@.take(i as int) =~= s@);
    r
}

fn hook_name_text(i: usize) -> (r: &'static str)
    ensures
        r@ == hook_name(i as nat),
{
    if i == 0 {
        "__jspi_enter"
    } else if i == 1 {
        "__jspi_exit"
    } else if i == 2 {
        "__jspi_suspend"
    } else {
        "__jspi_resume"
    }
}

/// The types `a` and `b` stand for, in order, up to the first that is not
/// given.
pub open spec fn listed_types(a: Option<ValType>, b: Option<ValType>) -> Seq<ValType> {
    match (a, b) {
        (None, _) => Seq::<ValType>::empty(),
        (Some(x), None) => seq![x],
        (Some(x), Some(y)) => seq![x, y],
    }
}

fn types_are(s: &Vec<ValType>, a: Option<ValType>, b: Option<ValType>) -> (r: bool)
    ensures
        r == (s@ == listed_types(a, b)),
{
    match (a, b) {
        (None, _) => {
            let r = s.len() == 0;
            if r {
                assert(s@ =~= Seq::<ValType>::empty());
            }
            r
        },
        (Some(x), None) => {
            let r = s.len() == 1 && s[0] == x;
            if r {
                assert(s@ =~= seq![x]);
            }
            r
        },
        (Some(x), Some(y)) => {
            let r = s.len() == 2 && s[0] == x && s[1] == y;
            if r {
                assert(s@ =~= seq![x, y]);
            }
            r
        },
    }
}

/// Locates hook `i` among the exports.
fn locate_hook(module: &Module, i: usize) -> (r: Result<usize, HookError>)
    requires
        i < 4,
        function_exports_resolve(*module),
    ensures
        match spec_locate_hook(*module, i as nat) {
            Ok(f) => r == Ok::<usize, HookError>(f),
            Err(found) => r matches Err(e) && hook_error_is(e, i as nat, found),
        },
{
    let name = hook_name_text(i);
    let n = module.exports.len();
    let mut k: usize = 0;
    while k < n
        invariant
            n == module.exports@.len(),
            k <= n,
            name@ == hook_name(i as nat),
            export_named(module.exports@, hook_name(i as nat), 0) == export_named(
                module.exports@,
                hook_name(i as nat),
                k as nat,
            ),
        ensures
            k <= n,
            export_named(module.exports@, hook_name(i as nat), 0) == export_named(
                module.exports@,
                hook_name(i as nat),
                k as nat,
            ),
            k < n ==> module.exports@[k as int].name@ == hook_name(i as nat),
        decreases n - k,
    {
        if text_is(module.exports[k].name.as_str(), name) {
            break;
        }
        k = k + 1;
    }
    if k >= n {
        return Err(HookError::Missing { hook: i });
    }
    let f = match module.exports[k].item {
        ExportItem::Function(f) => f,
        _ => {
            return Err(HookError::Missing { hook: i });
        },
    };
    let t = &module.types[module.funcs[f].ty];
    let ok = if i % 2 == 0 {
        types_are(&t.params, None, None) && types_are(&t.results, Some(ValType::I64), None)
    } else {
        types_are(&t.params, Some(ValType::I64), Some(ValType::I32)) && types_are(&t.results, None, None)
    };
    assert(listed_types(None, None) =~= seq![]);
    if ok {
        Ok(f)
    } else {
        Err(HookError::WrongType { hook: i, params: copy_types(&t.params), results: copy_types(&t.results) })
    }
}

impl Hooks {
    /// Locates the four hooks of emscripten's JSPI runtime: each must be
    /// exported (the first export of its name being a function) with its
    /// type (see [`hook_type`]); the first hook that is not is reported.
    pub fn locate(module: &Module) -> (r: Result<Hooks, HookError>)
        requires
            function_exports_resolve(*module),
        ensures
            match (
                spec_locate_hook(*module, 0),
                spec_locate_hook(*module, 1),
                spec_locate_hook(*module, 2),
                spec_locate_hook(*module, 3),
            ) {
                (Ok(a), Ok(b), Ok(c), Ok(d)) => r == Ok::<Hooks, HookError>(
                    Hooks { enter: a, exit: b, suspend: c, resume: d },
                ),
                (Err(found), _, _, _) => r matches Err(e) && hook_error_is(e, 0, found),
                (Ok(_), Err(found), _, _) => r matches Err(e) && hook_error_is(e, 1, found),
                (Ok(_), Ok(_), Err(found), _) => r matches Err(e) && hook_error_is(e, 2, found),
                (Ok(_), Ok(_), Ok(_), Err(found)) => r matches Err(e) && hook_error_is(e, 3, found),
            },
    {
        let enter = locate_hook(module, 0)?;
        let exit = locate_hook(module, 1)?;
        let suspend = locate_hook(module, 2)?;
        let resume = locate_hook(module, 3)?;
        Ok(Hooks { enter, exit, suspend, resume })
    }
}

} // verus!

verus! {

/// The `Debug` name of an abstract heap type.
pub open spec fn abstract_heap_debug(a: AbstractHeapType) -> Seq<char> {
    match a {
        AbstractHeapType::Func => "Func"@,
        AbstractHeapType::Extern => "Extern"@,
        AbstractHeapType::Any => "Any"@,
        AbstractHeapType::Bottom => "None"@,
        AbstractHeapType::NoExtern => "NoExtern"@,
        AbstractHeapType::NoFunc => "NoFunc"@,
        AbstractHeapType::Eq => "Eq"@,
        AbstractHeapType::Struct => "Struct"@,
        AbstractHeapType::Array => "Array"@,
        AbstractHeapType::I31 => "I31"@,
        AbstractHeapType::Exn => "Exn"@,
        AbstractHeapType::NoExn => "NoExn"@,
    }
}

/// The `Debug` form of a heap type; a type of the module is shown by its
/// arena id.
pub open spec fn heap_debug(h: HeapType) -> Seq<char> {
    match h {
        HeapType::Abstract(a) => "Abstract("@ + abstract_heap_debug(a) + ")"@,
        HeapType::Concrete(i) => "Concrete(Id { idx: "@ + crate::strings::decimal(i as nat) + " })"@,
        HeapType::Exact(i) => "Exact(Id { idx: "@ + crate::strings::decimal(i as nat) + " })"@,
    }
}

/// The `Debug` form of a value type, such as `I32`.
pub open spec fn val_type_debug(t: ValType) -> Seq<char> {
    match t {
        ValType::I32 => "I32"@,
        ValType::I64 => "I64"@,
        ValType::F32 => "F32"@,
        ValType::F64 => "F64"@,
        ValType::V128 => "V128"@,
        ValType::Ref(r) => "Ref(RefType { nullable: "@ + (if r.nullable {
            "true"@
        } else {
            "false"@
        }) + ", heap_type: "@ + heap_debug(r.heap) + " })"@,
    }
}

/// The items of a list of value types in `Debug` form, separated by `, `.
pub open spec fn types_debug_items(s: Seq<ValType>) -> Seq<char>
    decreases s.len(),
{
    if s.len() == 0 {
        seq![]
    } else if s.len() == 1 {
        val_type_debug(s[0])
    } else {
        types_debug_items(s.drop_last()) + ", "@ + val_type_debug(s.last())
    }
}

/// The `Debug` form of a list of value types, such as `[I64, I32]`.
pub open spec fn types_debug(s: Seq<ValType>) -> Seq<char> {
    seq!['['] + types_debug_items(s) + seq![']']
}

/// The message of a [`HookError`].
pub open spec fn hook_message(e: HookError) -> Seq<char> {
    match e {
        HookError::Missing { hook } => "JSPI on the emscripten target requires the `"@ + hook_name(hook as nat)
            + "` hook export provided by emscripten's JSPI runtime; link with `-sJSPI_HOOKS` (or `-sREENTRANT_JSPI`)"@,
        HookError::WrongType { hook, params, results } => "emscripten JSPI hook export `"@ + hook_name(
            hook as nat,
        ) + "` has type "@ + types_debug(params@) + " -> "@ + types_debug(results@) + ", expected "@
            + types_debug(hook_type(hook as nat).0) + " -> "@ + types_debug(hook_type(hook as nat).1),
    }
}

fn push_abstract_heap_debug(out: &mut String, a: AbstractHeapType)
    ensures
        final(out)@ == old(out)@ + abstract_heap_debug(a),
{
    match a {
        AbstractHeapType::Func => push_text(out, "Func"),
        AbstractHeapType::Extern => push_text(out, "Extern"),
        AbstractHeapType::Any => push_text(out, "Any"),
        AbstractHeapType::Bottom => push_text(out, "None"),
        AbstractHeapType::NoExtern => push_text(out, "NoExtern"),
        AbstractHeapType::NoFunc => push_text(out, "NoFunc"),
        AbstractHeapType::Eq => push_text(out, "Eq"),
        AbstractHeapType::Struct => push_text(out, "Struct"),
        AbstractHeapType::Array => push_text(out, "Array"),
        AbstractHeapType::I31 => push_text(out, "I31"),
        AbstractHeapType::Exn => push_text(out, "Exn"),
        AbstractHeapType::NoExn => push_text(out, "NoExn"),
    }
}

fn push_val_type_debug(out: &mut String, t: ValType)
    ensures
        final(out)@ == old(out)@ + val_type_debug(t),
{
    let ghost o = out@;
    match t {
        ValType::I32 => push_text(out, "I32"),
        ValType::I64 => push_text(out, "I64"),
        ValType::F32 => push_text(out, "F32"),
        ValType::F64 => push_text(out, "F64"),
        ValType::V128 => push_text(out, "V128"),
        ValType::Ref(r) => {
            push_text(out, "Ref(RefType { nullable: ");
            if r.nullable {
                push_text(out, "true");
            } else {
                push_text(out, "false");
            }
            push_text(out, ", heap_type: ");
            match r.heap {
                HeapType::Abstract(a) => {
                    push_text(out, "Abstract(");
                    push_abstract_heap_debug(out, a);
                    push_text(out, ")");
                },
                HeapType::Concrete(i) => {
                    push_text(out, "Concrete(Id { idx: ");
                    push_decimal(out, i as u64);
                    push_text(out, " })");
                },
                HeapType::Exact(i) => {
                    push_text(out, "Exact(Id { idx: ");
                    push_decimal(out, i as u64);
                    push_text(out, " })");
                },
            }
            push_text(out, " })");
        },
    }
    proof {
        assert(out@ =~= o + val_type_debug(t));
    }
}

fn push_types_debug(out: &mut String, s: &Vec<ValType>)
    ensures
        final(out)@ == old(out)@ + types_debug(s@),
{
    crate::strings::push_char(out, '[');
    let ghost start = out@;
    let mut i: usize = 0;
    while i < s.len()
        invariant
            i <= s@.len(),
            out@ == start + types_debug_items(s@.take(i as int)),
        decreases s@.len() - i,
    {
        if i > 0 {
            push_text(out, ", ");
        }
        push_val_type_debug(out, s[i]);
        proof {
            let t = s@.take(i as int + 1);
            assert(t.drop_last() =~= s@.take(i as int));
            assert(t.last() == s@[i as int]);
            if i == 0 {
                assert(t =~= seq![s@[0]]);
            }
            assert(out@ =~= start + types_debug_items(t));
        }
        i = i + 1;
    }
    assert(s@.take(i as int) =~= s@);
    crate::strings::push_char(out, ']');
    assert(final(out)@ =~= old(out)@ + types_debug(s@));
}

fn hook_type_vecs(i: usize) -> (r: (Vec<ValType>, Vec<ValType>))
    ensures
        (r.0@, r.1@) == hook_type(i as nat),
{
    if i % 2 == 0 {
        let v = vec![ValType::I64];
        assert(v@ =~= seq![ValType::I64]);
        (Vec::new(), v)
    } else {
        let v = vec![ValType::I64, ValType::I32];
        assert(v@ =~= seq![ValType::I64, ValType::I32]);
        (v, Vec::new())
    }
}

impl HookError {
    /// The error's message.
    pub fn message(&self) -> (s: String)
        ensures
            s@ == hook_message(*self),
    {
        let mut s = String::new();
        match self {
            HookError::Missing { hook } => {
                push_text(&mut s, "JSPI on the emscripten target requires the `");
                push_text(&mut s, hook_name_text(*hook));
                push_text(
                    &mut s,
                    "` hook export provided by emscripten's JSPI runtime; link with `-sJSPI_HOOKS` (or `-sREENTRANT_JSPI`)",
                );
            },
            HookError::WrongType { hook, params, results } => {
                let (ep, er) = hook_type_vecs(*hook);
                push_text(&mut s, "emscripten JSPI hook export `");
                push_text(&mut s, hook_name_text(*hook));
                push_text(&mut s, "` has type ");
                push_types_debug(&mut s, params);
                push_text(&mut s, " -> ");
                push_types_debug(&mut s, results);
                push_text(&mut s, ", expected ");
                push_types_debug(&mut s, &ep);
                push_text(&mut s, " -> ");
                push_types_debug(&mut s, &er);
            },
        }
        proof {
            assert(s@ =~= hook_message(*self));
        }
        s
    }
}

} // verus!
