//! Instrumentation for JS Promise Integration: suspending imports are
//! wrapped so that a fiber's shadow stack, which lives in linear memory
//! behind the `__stack_pointer` global, is moved out of the way while the
//! fiber is suspended and put back when it resumes.

use vstd::prelude::*;
use crate::strings::{find_sub, index_of_sub, push_text, text_is, to_chars};
use crate::transforms::catch_handler::{func_redirected, is_wrapper, redirected, rewrite_calls, wrapper_for};
use crate::wasm_conventions::{get_memory, get_start, spec_get_memory, spec_get_start, ConventionError};
use crate::wasm_model::{
    BinaryOp, ConstExpr, Export, ExportItem, Func, FuncType, FunctionKind, Global, GlobalKind, Import, ImportKind,
    Instr, LoadKind, LocalFunction, Module, TryTableCatch, UnaryOp, ValType, Value,
};

verus! {

/// The items that the instrumentation of one module shares.
#[derive(Debug, Clone, Copy, PartialEq, Eq, Structural)]
pub struct JspiContext {
    /// The `__stack_pointer` global.
    pub sp: usize,
    /// The `__jspi_stack_base` global: the watermark of the running fiber.
    pub base: usize,
    /// The `__jspi_suspended` global.
    pub suspended: usize,
    /// The `__jspi_stack_top` global: the empty-stack pointer.
    pub top: usize,
    pub memory: usize,
    /// `__wbindgen_malloc`
    pub malloc: usize,
    /// `__wbindgen_free`
    pub free: usize,
    /// The type of a pointer: `i64` on memory64, else `i32`.
    pub ptr_ty: ValType,
}

/// How a `catch` suspending import reports a rejected promise as data.
#[derive(Debug, Clone, Copy, PartialEq, Eq, Structural)]
pub struct Rejection {
    /// The tag that JavaScript exceptions are thrown with.
    pub js_tag: usize,
    /// The address of the `__wbindgen_jspi_rejected` flag in memory.
    pub addr: u64,
}

/// A pointer-sized constant.
pub open spec fn ptr_const(ty: ValType, v: u64) -> Value {
    match ty {
        ValType::I64 => Value::I64(v as i64),
        _ => Value::I32(v as i32),
    }
}

/// The width in bytes of a pointer.
pub open spec fn ptr_width(ty: ValType) -> u32 {
    match ty {
        ValType::I64 => 8,
        _ => 4,
    }
}

/// `local.get` of the `n` locals from `start` on, in order.
pub open spec fn local_gets(start: nat, n: nat) -> Seq<Instr> {
    Seq::new(n, |i: int| Instr::LocalGet((start + i) as usize))
}

/// `local.set` of the `n` locals from `start` on, the last first.
pub open spec fn local_sets_rev(start: nat, n: nat) -> Seq<Instr> {
    Seq::new(n, |i: int| Instr::LocalSet((start + n - 1 - i) as usize))
}

/// The locals of a suspending wrapper with `np` parameters and `nr`
/// results: the parameters, the stashed results, then `base`, `len`,
/// `buf` and `exn`.
pub open spec fn base_local(np: nat, nr: nat) -> usize {
    (np + nr) as usize
}

pub open spec fn len_local(np: nat, nr: nat) -> usize {
    (np + nr + 1) as usize
}

pub open spec fn buf_local(np: nat, nr: nat) -> usize {
    (np + nr + 2) as usize
}

pub open spec fn exn_local(np: nat, nr: nat) -> usize {
    (np + nr + 3) as usize
}

/// A call of the restore helper on the saved region.
pub open spec fn restore_call(np: nat, nr: nat, restore: usize) -> Seq<Instr> {
    seq![
        Instr::LocalGet(base_local(np, nr)),
        Instr::LocalGet(len_local(np, nr)),
        Instr::LocalGet(buf_local(np, nr)),
        Instr::Call(restore),
    ]
}

/// Stores `v` into the rejection flag.
pub open spec fn store_rejected(ctx: JspiContext, r: Rejection, v: i32) -> Seq<Instr> {
    seq![
        Instr::Const(ptr_const(ctx.ptr_ty, r.addr)),
        Instr::Const(Value::I32(v)),
        Instr::Store { width: 4, offset: 0 },
    ]
}

/// The entry sequence (0) of a suspending wrapper: outside a fiber, a
/// plain call (sequence 1; sequence 2 is empty); inside one, the region
/// `[SP, base)` is copied to a buffer from `malloc`, SP is reset to the
/// base, the base becomes the enclosing fiber's (stored at `base - 16`),
/// and the call runs inside block 3.
pub open spec fn suspending_entry(np: nat, nr: nat, ctx: JspiContext) -> Seq<Instr> {
    let base = base_local(np, nr);
    let len = len_local(np, nr);
    let buf = buf_local(np, nr);
    seq![
        Instr::GlobalGet(ctx.base),
        Instr::LocalTee(base),
        Instr::Unop(UnaryOp::Eqz),
        Instr::IfElse(1, 2),
        Instr::LocalGet(base),
        Instr::GlobalGet(ctx.sp),
        Instr::Binop(BinaryOp::Sub),
        Instr::LocalSet(len),
        Instr::LocalGet(len),
        Instr::Const(ptr_const(ctx.ptr_ty, 16)),
        Instr::Call(ctx.malloc),
        Instr::LocalSet(buf),
        Instr::LocalGet(buf),
        Instr::GlobalGet(ctx.sp),
        Instr::LocalGet(len),
        Instr::MemoryCopy { src: ctx.memory, dst: ctx.memory },
        Instr::LocalGet(base),
        Instr::GlobalSet(ctx.sp),
        Instr::LocalGet(base),
        Instr::Const(ptr_const(ctx.ptr_ty, 16)),
        Instr::Binop(BinaryOp::Sub),
        Instr::Load { kind: LoadKind::Width(ptr_width(ctx.ptr_ty)), offset: 0 },
        Instr::GlobalSet(ctx.base),
        Instr::Block(3),
    ]
}

/// Sequence 3: any other exception restores the stack and is rethrown.
pub open spec fn suspending_done(np: nat, nr: nat, restore: usize) -> Seq<Instr> {
    seq![Instr::Block(4), Instr::LocalSet(exn_local(np, nr))] + restore_call(np, nr, restore) + seq![
        Instr::LocalGet(exn_local(np, nr)),
        Instr::ThrowRef,
    ]
}

/// What follows the `try_table` in the innermost block: the results are
/// stashed, the stack restored, the flag cleared (for a `catch` import),
/// and the results handed back.
pub open spec fn fulfilled_tail(np: nat, nr: nat, ctx: JspiContext, restore: usize, rejection: Option<Rejection>) -> Seq<
    Instr,
> {
    local_sets_rev(np, nr) + restore_call(np, nr, restore) + match rejection {
        Some(r) => store_rejected(ctx, r, 0),
        None => seq![],
    } + local_gets(np, nr) + seq![Instr::Br(3)]
}

/// Sequence 4 of a `catch` import: a rejection (block 6) hands its reason
/// back as the result, with the flag set.
pub open spec fn rejected_path(np: nat, nr: nat, ctx: JspiContext, restore: usize, r: Rejection) -> Seq<Instr> {
    seq![Instr::Block(6)] + local_sets_rev(np, nr) + restore_call(np, nr, restore) + store_rejected(ctx, r, 1)
        + local_gets(np, nr) + seq![Instr::Br(3)]
}

/// The catch clauses of the `try_table` around the call.
pub open spec fn suspending_catches(rejection: Option<Rejection>) -> Seq<TryTableCatch> {
    match rejection {
        Some(r) => seq![TryTableCatch::Catch { tag: r.js_tag, label: 6 }, TryTableCatch::CatchAllRef { label: 4 }],
        None => seq![TryTableCatch::CatchAllRef { label: 4 }],
    }
}

/// Whether `s` is the innermost block: the call's `try_table` (body
/// sequence 5), then [`fulfilled_tail`].
pub open spec fn is_innermost(s: Seq<Instr>, np: nat, nr: nat, ctx: JspiContext, restore: usize, rejection: Option<
    Rejection,
>) -> bool {
    &&& s.len() >= 1
    &&& s[0] matches Instr::TryTable(body, cs) && body == 5 && cs@ == suspending_catches(rejection)
    &&& s.drop_first() == fulfilled_tail(np, nr, ctx, restore, rejection)
}

/// The name of the wrapper of a function named `name`.
pub open spec fn wrapper_name(name: Option<String>) -> Seq<char> {
    match name {
        Some(n) => n@ + " suspending wrapper"@,
        None => "suspending wrapper"@,
    }
}

/// Whether `w` wraps the import `import` of `m` with the evacuate-on-suspend
/// sequence: same type, named after it, taking the parameters as its first
/// locals, with sequences 0 to 5 (6 with a rejection) as the functions
/// above describe them, the calls in sequences 1 and 5 passing the
/// parameters on.
pub open spec fn is_suspending_wrapper(
    w: Func,
    m: Module,
    import: usize,
    ctx: JspiContext,
    restore: usize,
    rejection: Option<Rejection>,
) -> bool {
    let f = m.funcs@[import as int];
    let np = m.types@[f.ty as int].params@.len();
    let nr = m.types@[f.ty as int].results@.len();
    &&& w.ty == f.ty
    &&& w.name matches Some(n) && n@ == wrapper_name(f.name)
    &&& w.kind matches FunctionKind::Local(lf) && {
        &&& lf.args@ == Seq::new(np, |i: int| i as usize)
        &&& lf.entry == 0
        &&& lf.seqs@.len() == if rejection is Some { 7nat } else { 6nat }
        &&& lf.seqs@[0]@ == suspending_entry(np, nr, ctx)
        &&& lf.seqs@[1]@ == local_gets(0, np) + seq![Instr::Call(import), Instr::Return]
        &&& lf.seqs@[2]@ == Seq::<Instr>::empty()
        &&& lf.seqs@[3]@ == suspending_done(np, nr, restore)
        &&& lf.seqs@[5]@ == local_gets(0, np) + seq![Instr::Call(import)]
        &&& match rejection {
            Some(r) => lf.seqs@[4]@ == rejected_path(np, nr, ctx, restore, r) && is_innermost(
                lf.seqs@[6]@,
                np,
                nr,
                ctx,
                restore,
                rejection,
            ),
            None => is_innermost(lf.seqs@[4]@, np, nr, ctx, restore, rejection),
        }
    }
}

fn push_local_gets(v: &mut Vec<Instr>, start: usize, n: usize)
    requires
        start + n <= usize::MAX,
    ensures
        final(v)@ == old(v)@ + local_gets(start as nat, n as nat),
{
    let mut i: usize = 0;
    while i < n
        invariant
            start + n <= usize::MAX,
            i <= n,
            v@ == old(v)@ + local_gets(start as nat, i as nat),
        decreases n - i,
    {
        v.push(Instr::LocalGet(start + i));
        i = i + 1;
        assert(v@ =~= old(v)@ + local_gets(start as nat, i as nat));
    }
}

fn push_local_sets_rev(v: &mut Vec<Instr>, start: usize, n: usize)
    requires
        start + n <= usize::MAX,
    ensures
        final(v)@ == old(v)@ + local_sets_rev(start as nat, n as nat),
{
    let mut i: usize = 0;
    while i < n
        invariant
            start + n <= usize::MAX,
            i <= n,
            v@ == old(v)@ + local_sets_rev(start as nat, n as nat).take(i as int),
        decreases n - i,
    {
        v.push(Instr::LocalSet(start + n - 1 - i));
        i = i + 1;
        assert(v@ =~= old(v)@ + local_sets_rev(start as nat, n as nat).take(i as int));
    }
    assert(local_sets_rev(start as nat, n as nat).take(n as int) =~= local_sets_rev(start as nat, n as nat));
}

fn push_restore_call(v: &mut Vec<Instr>, np: usize, nr: usize, restore: usize)
    requires
        np + nr + 4 <= usize::MAX,
    ensures
        final(v)@ == old(v)@ + restore_call(np as nat, nr as nat, restore),
{
    v.push(Instr::LocalGet(np + nr));
    v.push(Instr::LocalGet(np + nr + 1));
    v.push(Instr::LocalGet(np + nr + 2));
    v.push(Instr::Call(restore));
    assert(v@ =~= old(v)@ + restore_call(np as nat, nr as nat, restore));
}

fn ptr_constant(ty: ValType, v: u64) -> (r: Value)
    ensures
        r == ptr_const(ty, v),
{
    match ty {
        ValType::I64 => Value::I64(v as i64),
        _ => Value::I32(v as i32),
    }
}

fn push_store_rejected(v: &mut Vec<Instr>, ctx: JspiContext, r: Rejection, flag: i32)
    ensures
        final(v)@ == old(v)@ + store_rejected(ctx, r, flag),
{
    v.push(Instr::Const(ptr_constant(ctx.ptr_ty, r.addr)));
    v.push(Instr::Const(Value::I32(flag)));
    v.push(Instr::Store { width: 4, offset: 0 });
    assert(v@ =~= old(v)@ + store_rejected(ctx, r, flag));
}

fn entry_seq(np: usize, nr: usize, ctx: JspiContext) -> (v: Vec<Instr>)
    requires
        np + nr + 4 <= usize::MAX,
    ensures
        v@ == suspending_entry(np as nat, nr as nat, ctx),
{
    let base = np + nr;
    let len = np + nr + 1;
    let buf = np + nr + 2;
    let width: u32 = match ctx.ptr_ty {
        ValType::I64 => 8,
        _ => 4,
    };
    let mut v: Vec<Instr> = Vec::new();
    v.push(Instr::GlobalGet(ctx.base));
    v.push(Instr::LocalTee(base));
    v.push(Instr::Unop(UnaryOp::Eqz));
    v.push(Instr::IfElse(1, 2));
    v.push(Instr::LocalGet(base));
    v.push(Instr::GlobalGet(ctx.sp));
    v.push(Instr::Binop(BinaryOp::Sub));
    v.push(Instr::LocalSet(len));
    v.push(Instr::LocalGet(len));
    v.push(Instr::Const(ptr_constant(ctx.ptr_ty, 16)));
    v.push(Instr::Call(ctx.malloc));
    v.push(Instr::LocalSet(buf));
    v.push(Instr::LocalGet(buf));
    v.push(Instr::GlobalGet(ctx.sp));
    v.push(Instr::LocalGet(len));
    v.push(Instr::MemoryCopy { src: ctx.memory, dst: ctx.memory });
    v.push(Instr::LocalGet(base));
    v.push(Instr::GlobalSet(ctx.sp));
    v.push(Instr::LocalGet(base));
    v.push(Instr::Const(ptr_constant(ctx.ptr_ty, 16)));
    v.push(Instr::Binop(BinaryOp::Sub));
    v.push(Instr::Load { kind: LoadKind::Width(width), offset: 0 });
    v.push(Instr::GlobalSet(ctx.base));
    v.push(Instr::Block(3));
    assert(v@ =~= suspending_entry(np as nat, nr as nat, ctx));
    v
}

fn done_seq(np: usize, nr: usize, restore: usize) -> (v: Vec<Instr>)
    requires
        np + nr + 4 <= usize::MAX,
    ensures
        v@ == suspending_done(np as nat, nr as nat, restore),
{
    let mut v: Vec<Instr> = Vec::new();
    v.push(Instr::Block(4));
    v.push(Instr::LocalSet(np + nr + 3));
    push_restore_call(&mut v, np, nr, restore);
    v.push(Instr::LocalGet(np + nr + 3));
    v.push(Instr::ThrowRef);
    assert(v@ =~= suspending_done(np as nat, nr as nat, restore));
    v
}

fn innermost_seq(np: usize, nr: usize, ctx: JspiContext, restore: usize, rejection: Option<Rejection>) -> (v: Vec<
    Instr,
>)
    requires
        np + nr + 4 <= usize::MAX,
    ensures
        is_innermost(v@, np as nat, nr as nat, ctx, restore, rejection),
{
    let mut catches: Vec<TryTableCatch> = Vec::new();
    if let Some(r) = rejection {
        catches.push(TryTableCatch::Catch { tag: r.js_tag, label: 6 });
    }
    catches.push(TryTableCatch::CatchAllRef { label: 4 });
    assert(catches@ =~= suspending_catches(rejection));
    let mut v: Vec<Instr> = Vec::new();
    v.push(Instr::TryTable(5, catches));
    let ghost start = v@;
    push_local_sets_rev(&mut v, np, nr);
    push_restore_call(&mut v, np, nr, restore);
    if let Some(r) = rejection {
        push_store_rejected(&mut v, ctx, r, 0);
    }
    push_local_gets(&mut v, np, nr);
    v.push(Instr::Br(3));
    assert(v@.drop_first() =~= fulfilled_tail(np as nat, nr as nat, ctx, restore, rejection));
    v
}

fn rejected_seq(np: usize, nr: usize, ctx: JspiContext, restore: usize, r: Rejection) -> (v: Vec<Instr>)
    requires
        np + nr + 4 <= usize::MAX,
    ensures
        v@ == rejected_path(np as nat, nr as nat, ctx, restore, r),
{
    let mut v: Vec<Instr> = Vec::new();
    v.push(Instr::Block(6));
    push_local_sets_rev(&mut v, np, nr);
    push_restore_call(&mut v, np, nr, restore);
    push_store_rejected(&mut v, ctx, r, 1);
    push_local_gets(&mut v, np, nr);
    v.push(Instr::Br(3));
    assert(v@ =~= rejected_path(np as nat, nr as nat, ctx, restore, r));
    v
}

fn call_seq(np: usize, import: usize, with_return: bool) -> (v: Vec<Instr>)
    ensures
        v@ == local_gets(0, np as nat) + if with_return {
            seq![Instr::Call(import), Instr::Return]
        } else {
            seq![Instr::Call(import)]
        },
{
    let mut v: Vec<Instr> = Vec::new();
    push_local_gets(&mut v, 0, np);
    v.push(Instr::Call(import));
    if with_return {
        v.push(Instr::Return);
    }
    assert(v@ =~= Seq::<Instr>::empty() + local_gets(0, np as nat) + if with_return {
        seq![Instr::Call(import), Instr::Return]
    } else {
        seq![Instr::Call(import)]
    });
    v
}

/// Wraps the suspending import `import` with the evacuate-on-suspend
/// sequence, the restore helper being the function `restore`; with a
/// `rejection`, a rejected promise's reason is handed back as the result
/// and the rejection flag set. The wrapper is added as the last function,
/// and its index returned.
pub fn wrap_suspending(
    module: &mut Module,
    import: usize,
    ctx: JspiContext,
    restore: usize,
    rejection: Option<Rejection>,
) -> (w: usize)
    requires
        import < old(module).funcs@.len(),
        old(module).funcs@[import as int].ty < old(module).types@.len(),
        old(module).funcs@.len() < usize::MAX,
        old(module).types@[old(module).funcs@[import as int].ty as int].params@.len() + old(
            module,
        ).types@[old(module).funcs@[import as int].ty as int].results@.len() + 4 <= usize::MAX,
    ensures
        w == old(module).funcs@.len(),
        *final(module) == (Module { funcs: final(module).funcs, ..*old(module) }),
        final(module).funcs@.len() == w + 1,
        final(module).funcs@.take(w as int) == old(module).funcs@,
        is_suspending_wrapper(final(module).funcs@[w as int], *old(module), import, ctx, restore, rejection),
{
    let ty = module.funcs[import].ty;
    let np = module.types[ty].params.len();
    let nr = module.types[ty].results.len();
    let name = match &module.funcs[import].name {
        Some(n) => {
            let mut s = n.clone();
            push_text(&mut s, " suspending wrapper");
            s
        },
        None => {
            let mut s = String::new();
            push_text(&mut s, "suspending wrapper");
            s
        },
    };
    let mut args: Vec<usize> = Vec::new();
    let mut i: usize = 0;
    while i < np
        invariant
            i <= np,
            args@ == Seq::new(i as nat, |k: int| k as usize),
        decreases np - i,
    {
        args.push(i);
        i = i + 1;
        assert(args@ =~= Seq::new(i as nat, |k: int| k as usize));
    }
    let mut seqs: Vec<Vec<Instr>> = Vec::new();
    seqs.push(entry_seq(np, nr, ctx));
    seqs.push(call_seq(np, import, true));
    seqs.push(Vec::new());
    seqs.push(done_seq(np, nr, restore));
    match rejection {
        Some(r) => {
            seqs.push(rejected_seq(np, nr, ctx, restore, r));
            seqs.push(call_seq(np, import, false));
            seqs.push(innermost_seq(np, nr, ctx, restore, rejection));
        },
        None => {
            seqs.push(innermost_seq(np, nr, ctx, restore, rejection));
            seqs.push(call_seq(np, import, false));
        },
    }
    let w = module.funcs.len();
    let wrapper = Func { ty, name: Some(name), kind: FunctionKind::Local(LocalFunction { args, entry: 0, seqs }) };
    module.funcs.push(wrapper);
    assert(module.funcs@.take(w as int) =~= old(module).funcs@);
    w
}


/// The end of a fiber, with the `if`/`else` in sequences `t` and `e`: a
/// fiber that suspended resets SP to the empty-stack top with no fiber
/// running; one that did not pops its node and restores the enclosing
/// fiber; either way the suspended flag is restored.
pub open spec fn fiber_exit(np: nat, ctx: JspiContext, t: usize, e: usize) -> Seq<Instr> {
    seq![
        Instr::GlobalGet(ctx.suspended),
        Instr::IfElse(t, e),
        Instr::LocalGet((np + 2) as usize),
        Instr::GlobalSet(ctx.suspended),
    ]
}

/// The `then` arm of [`fiber_exit`].
pub open spec fn exit_suspended(ctx: JspiContext) -> Seq<Instr> {
    seq![
        Instr::GlobalGet(ctx.top),
        Instr::GlobalSet(ctx.sp),
        Instr::Const(ptr_const(ctx.ptr_ty, 0)),
        Instr::GlobalSet(ctx.base),
    ]
}

/// The `else` arm of [`fiber_exit`].
pub open spec fn exit_resumed(np: nat, ctx: JspiContext) -> Seq<Instr> {
    seq![
        Instr::LocalGet((np + 1) as usize),
        Instr::GlobalSet(ctx.sp),
        Instr::LocalGet(np as usize),
        Instr::GlobalSet(ctx.base),
    ]
}

/// The entry sequence of an export wrapper with `np` parameters (locals
/// `prev`, `base`, `prev_suspended` and `exn` follow them): the fiber's
/// base is published, the enclosing base stored as a node at `base - 16`,
/// the suspended flag saved and cleared, and the call runs in block 3.
pub open spec fn export_entry(np: nat, ctx: JspiContext) -> Seq<Instr> {
    let prev = np as usize;
    let base = (np + 1) as usize;
    seq![
        Instr::GlobalGet(ctx.base),
        Instr::LocalSet(prev),
        Instr::GlobalGet(ctx.sp),
        Instr::LocalTee(base),
        Instr::GlobalSet(ctx.base),
        Instr::LocalGet(base),
        Instr::Const(ptr_const(ctx.ptr_ty, 16)),
        Instr::Binop(BinaryOp::Sub),
        Instr::GlobalSet(ctx.sp),
        Instr::LocalGet(base),
        Instr::Const(ptr_const(ctx.ptr_ty, 16)),
        Instr::Binop(BinaryOp::Sub),
        Instr::LocalGet(prev),
        Instr::Store { width: ptr_width(ctx.ptr_ty), offset: 0 },
        Instr::GlobalGet(ctx.suspended),
        Instr::LocalSet((np + 2) as usize),
        Instr::Const(Value::I32(0)),
        Instr::GlobalSet(ctx.suspended),
        Instr::Block(3),
    ]
}

/// The name of an export wrapper of a function named `name`.
pub open spec fn export_wrapper_name(name: Option<String>) -> Option<Seq<char>> {
    match name {
        Some(n) => Some(n@ + " jspi wrapper"@),
        None => None,
    }
}

/// Whether `w` wraps the exported function `inner` of `m` as a fiber entry:
/// same type, named after it, the parameters as its first locals;
/// sequence 1 calls `inner`, sequence 2 runs it in a `try_table` that
/// catches everything (to sequence 2) and then exits the fiber (arms 4 and
/// 5), sequence 3 exits the fiber on an exception (arms 6 and 7) and
/// rethrows it.
pub open spec fn is_export_wrapper(w: Func, m: Module, inner: usize, ctx: JspiContext) -> bool {
    let f = m.funcs@[inner as int];
    let np = m.types@[f.ty as int].params@.len();
    let exn = (np + 3) as usize;
    &&& w.ty == f.ty
    &&& match (w.name, export_wrapper_name(f.name)) {
        (Some(n), Some(e)) => n@ == e,
        (None, None) => true,
        _ => false,
    }
    &&& w.kind matches FunctionKind::Local(lf) && {
        &&& lf.args@ == Seq::new(np, |i: int| i as usize)
        &&& lf.entry == 0
        &&& lf.seqs@.len() == 8
        &&& lf.seqs@[0]@ == export_entry(np, ctx)
        &&& lf.seqs@[1]@ == local_gets(0, np) + seq![Instr::Call(inner)]
        &&& lf.seqs@[2]@.len() >= 1
        &&& lf.seqs@[2]@[0] matches Instr::TryTable(body, cs) && body == 1 && cs@ == seq![
            TryTableCatch::CatchAllRef { label: 2 },
        ]
        &&& lf.seqs@[2]@.drop_first() == fiber_exit(np, ctx, 4, 5) + seq![Instr::Br(3)]
        &&& lf.seqs@[3]@ == seq![Instr::Block(2), Instr::LocalSet(exn)] + fiber_exit(np, ctx, 6, 7) + seq![
            Instr::LocalGet(exn),
            Instr::ThrowRef,
        ]
        &&& lf.seqs@[4]@ == exit_suspended(ctx) && lf.seqs@[6]@ == exit_suspended(ctx)
        &&& lf.seqs@[5]@ == exit_resumed(np, ctx) && lf.seqs@[7]@ == exit_resumed(np, ctx)
    }
}

fn push_fiber_exit(v: &mut Vec<Instr>, np: usize, ctx: JspiContext, t: usize, e: usize)
    requires
        np + 4 <= usize::MAX,
    ensures
        final(v)@ == old(v)@ + fiber_exit(np as nat, ctx, t, e),
{
    v.push(Instr::GlobalGet(ctx.suspended));
    v.push(Instr::IfElse(t, e));
    v.push(Instr::LocalGet(np + 2));
    v.push(Instr::GlobalSet(ctx.suspended));
    assert(v@ =~= old(v)@ + fiber_exit(np as nat, ctx, t, e));
}

fn exit_suspended_seq(ctx: JspiContext) -> (v: Vec<Instr>)
    ensures
        v@ == exit_suspended(ctx),
{
    let mut v: Vec<Instr> = Vec::new();
    v.push(Instr::GlobalGet(ctx.top));
    v.push(Instr::GlobalSet(ctx.sp));
    v.push(Instr::Const(ptr_constant(ctx.ptr_ty, 0)));
    v.push(Instr::GlobalSet(ctx.base));
    assert(v@ =~= exit_suspended(ctx));
    v
}

fn exit_resumed_seq(np: usize, ctx: JspiContext) -> (v: Vec<Instr>)
    requires
        np + 4 <= usize::MAX,
    ensures
        v@ == exit_resumed(np as nat, ctx),
{
    let mut v: Vec<Instr> = Vec::new();
    v.push(Instr::LocalGet(np + 1));
    v.push(Instr::GlobalSet(ctx.sp));
    v.push(Instr::LocalGet(np));
    v.push(Instr::GlobalSet(ctx.base));
    assert(v@ =~= exit_resumed(np as nat, ctx));
    v
}

fn export_entry_seq(np: usize, ctx: JspiContext) -> (v: Vec<Instr>)
    requires
        np + 4 <= usize::MAX,
    ensures
        v@ == export_entry(np as nat, ctx),
{
    let width: u32 = match ctx.ptr_ty {
        ValType::I64 => 8,
        _ => 4,
    };
    let mut v: Vec<Instr> = Vec::new();
    v.push(Instr::GlobalGet(ctx.base));
    v.push(Instr::LocalSet(np));
    v.push(Instr::GlobalGet(ctx.sp));
    v.push(Instr::LocalTee(np + 1));
    v.push(Instr::GlobalSet(ctx.base));
    v.push(Instr::LocalGet(np + 1));
    v.push(Instr::Const(ptr_constant(ctx.ptr_ty, 16)));
    v.push(Instr::Binop(BinaryOp::Sub));
    v.push(Instr::GlobalSet(ctx.sp));
    v.push(Instr::LocalGet(np + 1));
    v.push(Instr::Const(ptr_constant(ctx.ptr_ty, 16)));
    v.push(Instr::Binop(BinaryOp::Sub));
    v.push(Instr::LocalGet(np));
    v.push(Instr::Store { width, offset: 0 });
    v.push(Instr::GlobalGet(ctx.suspended));
    v.push(Instr::LocalSet(np + 2));
    v.push(Instr::Const(Value::I32(0)));
    v.push(Instr::GlobalSet(ctx.suspended));
    v.push(Instr::Block(3));
    assert(v@ =~= export_entry(np as nat, ctx));
    v
}

/// Wraps the exported function `inner` as the entry of a fiber, which
/// records its shadow-stack watermark and restores the enclosing fiber's
/// state when it completes or throws. The wrapper is added as the last
/// function, and its index returned.
pub fn wrap_export(module: &mut Module, inner: usize, ctx: JspiContext) -> (w: usize)
    requires
        inner < old(module).funcs@.len(),
        old(module).funcs@[inner as int].ty < old(module).types@.len(),
        old(module).funcs@.len() < usize::MAX,
        old(module).types@[old(module).funcs@[inner as int].ty as int].params@.len() + 4 <= usize::MAX,
    ensures
        w == old(module).funcs@.len(),
        *final(module) == (Module { funcs: final(module).funcs, ..*old(module) }),
        final(module).funcs@.len() == w + 1,
        final(module).funcs@.take(w as int) == old(module).funcs@,
        is_export_wrapper(final(module).funcs@[w as int], *old(module), inner, ctx),
{
    let ty = module.funcs[inner].ty;
    let np = module.types[ty].params.len();
    let name = match &module.funcs[inner].name {
        Some(n) => {
            let mut s = n.clone();
            push_text(&mut s, " jspi wrapper");
            Some(s)
        },
        None => None,
    };
    let mut args: Vec<usize> = Vec::new();
    let mut i: usize = 0;
    while i < np
        invariant
            i <= np,
            args@ == Seq::new(i as nat, |k: int| k as usize),
        decreases np - i,
    {
        args.push(i);
        i = i + 1;
        assert(args@ =~= Seq::new(i as nat, |k: int| k as usize));
    }
    let mut catches: Vec<TryTableCatch> = Vec::new();
    catches.push(TryTableCatch::CatchAllRef { label: 2 });
    assert(catches@ =~= seq![TryTableCatch::CatchAllRef { label: 2 }]);
    let mut catch_seq: Vec<Instr> = Vec::new();
    catch_seq.push(Instr::TryTable(1, catches));
    push_fiber_exit(&mut catch_seq, np, ctx, 4, 5);
    catch_seq.push(Instr::Br(3));
    assert(catch_seq@.drop_first() =~= fiber_exit(np as nat, ctx, 4, 5) + seq![Instr::Br(3)]);
    let mut done: Vec<Instr> = Vec::new();
    done.push(Instr::Block(2));
    done.push(Instr::LocalSet(np + 3));
    push_fiber_exit(&mut done, np, ctx, 6, 7);
    done.push(Instr::LocalGet(np + 3));
    done.push(Instr::ThrowRef);
    assert(done@ =~= seq![Instr::Block(2), Instr::LocalSet((np + 3) as usize)] + fiber_exit(np as nat, ctx, 6, 7)
        + seq![Instr::LocalGet((np + 3) as usize), Instr::ThrowRef]);
    let mut seqs: Vec<Vec<Instr>> = Vec::new();
    seqs.push(export_entry_seq(np, ctx));
    seqs.push(call_seq(np, inner, false));
    seqs.push(catch_seq);
    seqs.push(done);
    seqs.push(exit_suspended_seq(ctx));
    seqs.push(exit_resumed_seq(np, ctx));
    seqs.push(exit_suspended_seq(ctx));
    seqs.push(exit_resumed_seq(np, ctx));
    let w = module.funcs.len();
    module.funcs.push(Func { ty, name, kind: FunctionKind::Local(LocalFunction { args, entry: 0, seqs }) });
    assert(module.funcs@.take(w as int) =~= old(module).funcs@);
    w
}


/// Whether the function type `t` takes `params` to `results`.
pub open spec fn type_is(t: FuncType, params: Seq<ValType>, results: Seq<ValType>) -> bool {
    t.params@ == params && t.results@ == results
}

/// Whether `m2` is `m` with the type of `params` to `results` found at
/// `t`, or added there as the last type where `m` has none.
pub open spec fn type_added(m: Module, m2: Module, params: Seq<ValType>, results: Seq<ValType>, t: usize) -> bool {
    &&& m2 == (Module { types: m2.types, ..m })
    &&& t < m2.types@.len()
    &&& type_is(m2.types@[t as int], params, results)
    &&& if exists|i: int| 0 <= i < m.types@.len() && type_is(#[trigger] m.types@[i], params, results) {
        m2.types == m.types
    } else {
        m2.types@ == m.types@.push(m2.types@[t as int]) && t == m.types@.len()
    }
}

fn same_val_types(a: &Vec<ValType>, b: &Vec<ValType>) -> (r: bool)
    ensures
        r == (a@ == b@),
{
    if a.len() != b.len() {
        return false;
    }
    let mut i: usize = 0;
    while i < a.len()
        invariant
            a@.len() == b@.len(),
            i <= a@.len(),
            forall|k: int| 0 <= k < i ==> a@[k] == b@[k],
        decreases a@.len() - i,
    {
        if a[i] != b[i] {
            return false;
        }
        i = i + 1;
    }
    assert(a@ =~= b@);
    true
}

/// The index of the type of `params` to `results`, added if the module
/// has none.
fn add_type(module: &mut Module, params: Vec<ValType>, results: Vec<ValType>) -> (t: usize)
    requires
        old(module).types@.len() < usize::MAX,
    ensures
        type_added(*old(module), *final(module), params@, results@, t),
        types_small(*old(module)) && params@.len() + results@.len() + 4 <= usize::MAX ==> types_small(*final(module)),
{
    let mut i: usize = 0;
    while i < module.types.len()
        invariant
            *module == *old(module),
            i <= module.types@.len(),
            forall|k: int| 0 <= k < i ==> !type_is(#[trigger] module.types@[k], params@, results@),
        decreases module.types@.len() - i,
    {
        if same_val_types(&module.types[i].params, &params) && same_val_types(&module.types[i].results, &results) {
            return i;
        }
        i = i + 1;
    }
    let t = module.types.len();
    let ghost pl = params@.len();
    let ghost rl = results@.len();
    module.types.push(FuncType { params, results });
    proof {
        if types_small(*old(module)) && pl + rl + 4 <= usize::MAX {
            assert forall|u: int| 0 <= u < module.types@.len() implies (#[trigger] module.types@[u]).params@.len()
                + module.types@[u].results@.len() + 4 <= usize::MAX by {
                if u < t {
                    assert(module.types@[u] == old(module).types@[u]);
                }
            }
        }
    }
    t
}

/// The body of the restore helper (parameters `base`, `len`, `buf`): the
/// saved region is copied back to `base - len`, SP set there, the base
/// restored, the fiber marked as suspended, and the buffer freed.
pub open spec fn restore_body(ctx: JspiContext) -> Seq<Instr> {
    seq![
        Instr::LocalGet(0),
        Instr::LocalGet(1),
        Instr::Binop(BinaryOp::Sub),
        Instr::LocalGet(2),
        Instr::LocalGet(1),
        Instr::MemoryCopy { src: ctx.memory, dst: ctx.memory },
        Instr::LocalGet(0),
        Instr::LocalGet(1),
        Instr::Binop(BinaryOp::Sub),
        Instr::GlobalSet(ctx.sp),
        Instr::LocalGet(0),
        Instr::GlobalSet(ctx.base),
        Instr::Const(Value::I32(1)),
        Instr::GlobalSet(ctx.suspended),
        Instr::LocalGet(2),
        Instr::LocalGet(1),
        Instr::Const(ptr_const(ctx.ptr_ty, 16)),
        Instr::Call(ctx.free),
    ]
}

/// Adds the restore helper `__jspi_restore`, of type `(ptr, ptr, ptr) ->
/// ()`, that the suspending wrappers call when a fiber resumes, and
/// returns its index.
pub fn make_restore_helper(module: &mut Module, ctx: JspiContext) -> (h: usize)
    requires
        old(module).types@.len() < usize::MAX,
        old(module).funcs@.len() < usize::MAX,
    ensures
        run_state_ok(*old(module)) ==> run_state_ok(*final(module)),
        restore_added(*old(module), *final(module), ctx, h),
{
    let mut params: Vec<ValType> = Vec::new();
    params.push(ctx.ptr_ty);
    params.push(ctx.ptr_ty);
    params.push(ctx.ptr_ty);
    assert(params@ =~= seq![ctx.ptr_ty, ctx.ptr_ty, ctx.ptr_ty]);
    let ghost m0 = *module;
    let results: Vec<ValType> = Vec::new();
    assert(results@ =~= Seq::<ValType>::empty());
    let t = add_type(module, params, results);
    let ghost m1 = *module;
    assert(type_added(m0, m1, restore_params(ctx), no_vals(), t));
    let mut body: Vec<Instr> = Vec::new();
    body.push(Instr::LocalGet(0));
    body.push(Instr::LocalGet(1));
    body.push(Instr::Binop(BinaryOp::Sub));
    body.push(Instr::LocalGet(2));
    body.push(Instr::LocalGet(1));
    body.push(Instr::MemoryCopy { src: ctx.memory, dst: ctx.memory });
    body.push(Instr::LocalGet(0));
    body.push(Instr::LocalGet(1));
    body.push(Instr::Binop(BinaryOp::Sub));
    body.push(Instr::GlobalSet(ctx.sp));
    body.push(Instr::LocalGet(0));
    body.push(Instr::GlobalSet(ctx.base));
    body.push(Instr::Const(Value::I32(1)));
    body.push(Instr::GlobalSet(ctx.suspended));
    body.push(Instr::LocalGet(2));
    body.push(Instr::LocalGet(1));
    body.push(Instr::Const(ptr_constant(ctx.ptr_ty, 16)));
    body.push(Instr::Call(ctx.free));
    assert(body@ =~= restore_body(ctx));
    let mut seqs: Vec<Vec<Instr>> = Vec::new();
    seqs.push(body);
    let mut args: Vec<usize> = Vec::new();
    args.push(0);
    args.push(1);
    args.push(2);
    assert(args@ =~= seq![0usize, 1usize, 2usize]);
    let mut name = String::new();
    push_text(&mut name, "__jspi_restore");
    let h = module.funcs.len();
    module.funcs.push(Func { ty: t, name: Some(name), kind: FunctionKind::Local(LocalFunction { args, entry: 0, seqs }) });
    assert(module.funcs@.take(h as int) =~= m0.funcs@);
    proof {
        if run_state_ok(m0) {
            assert forall|g: int| 0 <= g < module.funcs@.len() && (#[trigger] module.funcs@[g]).kind is Import implies module.funcs@[g].kind->Import_0
                < module.imports@.len() by {
                assert(module.funcs@[g] == m0.funcs@[g]);
            }
            assert forall|g: int| 0 <= g < module.funcs@.len() implies (#[trigger] module.funcs@[g]).ty < module.types@.len() by {
                if g < h {
                    assert(module.funcs@[g] == m0.funcs@[g]);
                }
            }
        }
    }
    h
}

} // verus!

verus! {

/// The number of imports before `k` that `mask` selects.
pub open spec fn removed_before(mask: Seq<bool>, k: nat) -> nat
    decreases k,
{
    if k == 0 {
        0
    } else {
        removed_before(mask, (k - 1) as nat) + if mask[k - 1] { 1nat } else { 0nat }
    }
}

/// The imports that `mask` does not select, in order.
pub open spec fn kept_imports(imps: Seq<Import>, mask: Seq<bool>) -> Seq<Import>
    decreases imps.len(),
{
    if imps.len() == 0 {
        seq![]
    } else {
        let rest = kept_imports(imps.drop_last(), mask);
        if mask[imps.len() - 1] {
            rest
        } else {
            rest.push(imps.last())
        }
    }
}

/// Whether every imported function and global names an import that
/// exists, and every function's type exists.
pub open spec fn imports_in_range(m: Module) -> bool {
    &&& forall|f: int|
        0 <= f < m.funcs@.len() && (#[trigger] m.funcs@[f]).kind is Import ==> m.funcs@[f].kind->Import_0
            < m.imports@.len()
    &&& forall|g: int|
        0 <= g < m.globals@.len() && (#[trigger] m.globals@[g]).kind is Import ==> m.globals@[g].kind->Import_0
            < m.imports@.len() && m.imports@[m.globals@[g].kind->Import_0 as int].kind is Global
    &&& forall|f: int| 0 <= f < m.funcs@.len() ==> (#[trigger] m.funcs@[f]).ty < m.types@.len()
}

proof fn lemma_removed_before_step(mask: Seq<bool>, a: nat, b: nat)
    requires
        a <= b,
    ensures
        removed_before(mask, a) <= removed_before(mask, b),
        removed_before(mask, b) - removed_before(mask, a) <= b - a,
    decreases b - a,
{
    if a < b {
        lemma_removed_before_step(mask, a, (b - 1) as nat);
    }
}

proof fn lemma_kept_len(imps: Seq<Import>, mask: Seq<bool>)
    requires
        mask.len() >= imps.len(),
    ensures
        kept_imports(imps, mask).len() + removed_before(mask, imps.len()) == imps.len(),
    decreases imps.len(),
{
    if imps.len() > 0 {
        lemma_kept_len(imps.drop_last(), mask);
    }
}

/// An import that is kept is found at its new place.
proof fn lemma_kept_at(imps: Seq<Import>, mask: Seq<bool>, k: nat)
    requires
        mask.len() >= imps.len(),
        k < imps.len(),
        !mask[k as int],
    ensures
        removed_before(mask, k) <= k,
        k - removed_before(mask, k) < kept_imports(imps, mask).len(),
        kept_imports(imps, mask)[k - removed_before(mask, k)] == imps[k as int],
    decreases imps.len(),
{
    lemma_removed_before_le(mask, k);
    let pre = imps.drop_last();
    if k < imps.len() - 1 {
        lemma_kept_at(pre, mask, k);
        assert(pre[k as int] == imps[k as int]);
    } else {
        lemma_kept_len(pre, mask);
    }
}

/// An import that is kept moves to a place that exists.
proof fn lemma_kept_place(imps: Seq<Import>, mask: Seq<bool>, k: nat)
    requires
        mask.len() == imps.len(),
        k < imps.len(),
        !mask[k as int],
    ensures
        k - removed_before(mask, k) < kept_imports(imps, mask).len(),
        removed_before(mask, k) <= k,
{
    lemma_kept_len(imps, mask);
    lemma_removed_before_step(mask, k + 1, imps.len());
    lemma_removed_before_le(mask, k);
    assert(removed_before(mask, k + 1) == removed_before(mask, k));
}

/// The body of a function that replaces an import: `unreachable`, the
/// constant `false`, or whether the fiber base global is nonzero.
#[derive(Debug, Clone, Copy, PartialEq, Eq, Structural)]
pub enum StubBody {
    Unreachable,
    False,
    InFiber(usize),
}

/// The instructions of a [`StubBody`].
pub open spec fn stub_instrs(b: StubBody) -> Seq<Instr> {
    match b {
        StubBody::Unreachable => seq![Instr::Unreachable],
        StubBody::False => seq![Instr::Const(Value::I32(0))],
        StubBody::InFiber(base) => seq![Instr::GlobalGet(base), Instr::Unop(UnaryOp::Eqz), Instr::Unop(UnaryOp::Eqz)],
    }
}

fn stub_vec(b: StubBody) -> (v: Vec<Instr>)
    ensures
        v@ == stub_instrs(b),
{
    let mut v: Vec<Instr> = Vec::new();
    match b {
        StubBody::Unreachable => v.push(Instr::Unreachable),
        StubBody::False => v.push(Instr::Const(Value::I32(0))),
        StubBody::InFiber(base) => {
            v.push(Instr::GlobalGet(base));
            v.push(Instr::Unop(UnaryOp::Eqz));
            v.push(Instr::Unop(UnaryOp::Eqz));
        },
    }
    assert(v@ =~= stub_instrs(b));
    v
}

/// Whether `f2` is what the function `f` (with `np` parameters) becomes
/// when the imports that `mask` selects are replaced by functions with
/// body `body`: a replaced import becomes a local function of the same type
/// and name, taking its parameters as its first locals; a function
/// imported by another import names it at its new place.
pub open spec fn replaced_func(f: Func, f2: Func, np: nat, mask: Seq<bool>, body: Seq<Instr>) -> bool {
    match f.kind {
        FunctionKind::Import(k) => if mask[k as int] {
            &&& f2.ty == f.ty
            &&& f2.name == f.name
            &&& f2.kind matches FunctionKind::Local(lf) && lf.args@ == Seq::new(np, |i: int| i as usize) && lf.entry
                == 0 && lf.seqs@.len() == 1 && lf.seqs@[0]@ == body
        } else {
            f2 == Func { kind: FunctionKind::Import((k - removed_before(mask, k as nat)) as usize), ..f }
        },
        _ => f2 == f,
    }
}

fn replace_func(fu: Func, np: usize, mask: &Vec<bool>, before: &Vec<usize>, b: StubBody) -> (r: Func)
    requires
        before@.len() == mask@.len(),
        forall|i: int| 0 <= i < before@.len() ==> #[trigger] before@[i] == removed_before(mask@, i as nat),
        fu.kind matches FunctionKind::Import(k) ==> k < mask@.len(),
    ensures
        replaced_func(fu, r, np as nat, mask@, stub_instrs(b)),
{
    let Func { ty, name, kind } = fu;
    let new_kind = match kind {
        FunctionKind::Import(i) => {
            if mask[i] {
                let mut args: Vec<usize> = Vec::new();
                let mut a: usize = 0;
                while a < np
                    invariant
                        a <= np,
                        args@ == Seq::new(a as nat, |x: int| x as usize),
                    decreases np - a,
                {
                    args.push(a);
                    a = a + 1;
                    assert(args@ =~= Seq::new(a as nat, |x: int| x as usize));
                }
                let mut seqs: Vec<Vec<Instr>> = Vec::new();
                seqs.push(stub_vec(b));
                FunctionKind::Local(LocalFunction { args, entry: 0, seqs })
            } else {
                proof {
                    lemma_removed_before_le(mask@, i as nat);
                }
                FunctionKind::Import(i - before[i])
            }
        },
        other => other,
    };
    Func { ty, name, kind: new_kind }
}

fn copy_import(i: &Import) -> (r: Import)
    ensures
        r == *i,
{
    Import { module: i.module.clone(), name: i.name.clone(), kind: i.kind }
}

/// Whether `m2` is `m` with the function imports that `mask` selects
/// replaced by local functions with body `body`.
pub open spec fn imports_replaced(m: Module, m2: Module, mask: Seq<bool>, body: Seq<Instr>) -> bool {
    &&& m2 == (Module { imports: m2.imports, funcs: m2.funcs, globals: m2.globals, ..m })
    &&& m2.imports@ == kept_imports(m.imports@, mask)
    &&& m2.funcs@.len() == m.funcs@.len()
    &&& forall|j: int|
        0 <= j < m.funcs@.len() ==> replaced_func(
            #[trigger] m.funcs@[j],
            m2.funcs@[j],
            m.types@[m.funcs@[j].ty as int].params@.len(),
            mask,
            body,
        )
    &&& m2.globals@.len() == m.globals@.len()
    &&& forall|g: int|
        0 <= g < m.globals@.len() ==> #[trigger] m2.globals@[g] == match m.globals@[g].kind {
            GlobalKind::Import(k) => Global {
                kind: GlobalKind::Import((k - removed_before(mask, k as nat)) as usize),
                ..m.globals@[g]
            },
            _ => m.globals@[g],
        }
}

proof fn lemma_removed_before_le(mask: Seq<bool>, k: nat)
    ensures
        removed_before(mask, k) <= k,
    decreases k,
{
    if k > 0 {
        lemma_removed_before_le(mask, (k - 1) as nat);
    }
}

/// Replaces the function imports that `mask` (one flag per import)
/// selects by local functions whose body is `b`, deleting the imports.
fn replace_imports(module: &mut Module, mask: &Vec<bool>, b: StubBody)
    requires
        mask@.len() == old(module).imports@.len(),
        imports_in_range(*old(module)),
        forall|k: int| 0 <= k < mask@.len() && mask@[k] ==> (#[trigger] old(module).imports@[k]).kind is Function,
    ensures
        imports_replaced(*old(module), *final(module), mask@, stub_instrs(b)),
        imports_in_range(*final(module)),
{
    let ghost m0 = *module;
    // The count of selected imports before each import.
    let mut before: Vec<usize> = Vec::new();
    let mut kept: Vec<Import> = Vec::new();
    let mut count: usize = 0;
    let mut k: usize = 0;
    while k < module.imports.len()
        invariant
            *module == m0,
            mask@.len() == m0.imports@.len(),
            k <= m0.imports@.len(),
            count == removed_before(mask@, k as nat),
            before@.len() == k,
            forall|i: int| 0 <= i < k ==> #[trigger] before@[i] == removed_before(mask@, i as nat),
            kept@ == kept_imports(m0.imports@.take(k as int), mask@),
        decreases m0.imports@.len() - k,
    {
        proof {
            lemma_removed_before_le(mask@, k as nat);
            assert(m0.imports@.take(k as int + 1).drop_last() =~= m0.imports@.take(k as int));
        }
        before.push(count);
        if mask[k] {
            count = count + 1;
        } else {
            kept.push(copy_import(&module.imports[k]));
        }
        k = k + 1;
    }
    proof {
        assert(m0.imports@.take(m0.imports@.len() as int) =~= m0.imports@);
    }
    module.imports = kept;
    let mut j: usize = 0;
    while j < module.funcs.len()
        invariant
            *module == (Module { imports: module.imports, funcs: module.funcs, ..m0 }),
            module.imports@ == kept_imports(m0.imports@, mask@),
            mask@.len() == m0.imports@.len(),
            imports_in_range(m0),
            before@.len() == m0.imports@.len(),
            forall|i: int| 0 <= i < before@.len() ==> #[trigger] before@[i] == removed_before(mask@, i as nat),
            module.funcs@.len() == m0.funcs@.len(),
            j <= module.funcs@.len(),
            forall|i: int|
                0 <= i < j ==> replaced_func(
                    #[trigger] m0.funcs@[i],
                    module.funcs@[i],
                    m0.types@[m0.funcs@[i].ty as int].params@.len(),
                    mask@,
                    stub_instrs(b),
                ),
            forall|i: int| j <= i < module.funcs@.len() ==> #[trigger] module.funcs@[i] == m0.funcs@[i],
        decreases module.funcs@.len() - j,
    {
        let mut fu = Func { ty: 0, name: None, kind: FunctionKind::Uninitialized };
        module.funcs.set_and_swap(j, &mut fu);
        assert(fu == m0.funcs@[j as int]);
        let np = module.types[fu.ty].params.len();
        let nf = replace_func(fu, np, mask, &before, b);
        module.funcs.set(j, nf);
        j = j + 1;
    }
    let mut g: usize = 0;
    while g < module.globals.len()
        invariant
            *module == (Module { imports: module.imports, funcs: module.funcs, globals: module.globals, ..m0 }),
            imports_in_range(m0),
            module.imports@ == kept_imports(m0.imports@, mask@),
            module.funcs@.len() == m0.funcs@.len(),
            forall|i: int|
                0 <= i < m0.funcs@.len() ==> replaced_func(
                    #[trigger] m0.funcs@[i],
                    module.funcs@[i],
                    m0.types@[m0.funcs@[i].ty as int].params@.len(),
                    mask@,
                    stub_instrs(b),
                ),
            before@.len() == m0.imports@.len(),
            forall|i: int| 0 <= i < before@.len() ==> #[trigger] before@[i] == removed_before(mask@, i as nat),
            module.globals@.len() == m0.globals@.len(),
            g <= module.globals@.len(),
            forall|i: int|
                0 <= i < g ==> #[trigger] module.globals@[i] == match m0.globals@[i].kind {
                    GlobalKind::Import(k) => Global {
                        kind: GlobalKind::Import((k - removed_before(mask@, k as nat)) as usize),
                        ..m0.globals@[i]
                    },
                    _ => m0.globals@[i],
                },
            forall|i: int| g <= i < module.globals@.len() ==> #[trigger] module.globals@[i] == m0.globals@[i],
        decreases module.globals@.len() - g,
    {
        let mut gl = Global { ty: ValType::I32, mutable: false, name: None, kind: GlobalKind::Local(ConstExpr::RefNull) };
        module.globals.set_and_swap(g, &mut gl);
        assert(gl == m0.globals@[g as int]);
        let Global { ty, mutable, name, kind } = gl;
        let new_kind = match kind {
            GlobalKind::Import(i) => {
                proof {
                    lemma_removed_before_le(mask@, i as nat);
                }
                GlobalKind::Import(i - before[i])
            },
            other => other,
        };
        module.globals.set(g, Global { ty, mutable, name, kind: new_kind });
        g = g + 1;
    }
    proof {
        assert forall|f: int| 0 <= f < module.funcs@.len() && (#[trigger] module.funcs@[f]).kind is Import implies module.funcs@[f].kind->Import_0
            < module.imports@.len() by {
            assert(replaced_func(
                m0.funcs@[f],
                module.funcs@[f],
                m0.types@[m0.funcs@[f].ty as int].params@.len(),
                mask@,
                stub_instrs(b),
            ));
            let k = m0.funcs@[f].kind->Import_0;
            lemma_kept_place(m0.imports@, mask@, k as nat);
        }
        assert forall|gi: int| 0 <= gi < module.globals@.len() && (#[trigger] module.globals@[gi]).kind is Import implies module.globals@[gi].kind->Import_0
            < module.imports@.len() && module.imports@[module.globals@[gi].kind->Import_0 as int].kind is Global by {
            let k = m0.globals@[gi].kind->Import_0;
            assert(!mask@[k as int]);
            lemma_kept_at(m0.imports@, mask@, k as nat);
        }
        assert forall|f: int| 0 <= f < module.funcs@.len() implies (#[trigger] module.funcs@[f]).ty < module.types@.len() by {
            assert(replaced_func(
                m0.funcs@[f],
                module.funcs@[f],
                m0.types@[m0.funcs@[f].ty as int].params@.len(),
                mask@,
                stub_instrs(b),
            ));
        }
    }
}


/// The name of the export that polls a task spawned in a JSPI context.
pub open spec fn task_poll_name() -> Seq<char> {
    "__wbg_jspi_task_poll"@
}

/// The first export from `k` on named `name`.
pub open spec fn first_export_named(s: Seq<Export>, name: Seq<char>, k: nat) -> Option<nat>
    decreases s.len() - k,
{
    if k >= s.len() {
        None
    } else if s[k as int].name@ == name {
        Some(k)
    } else {
        first_export_named(s, name, k + 1)
    }
}

/// The first import from `k` on whose name contains `pat`.
pub open spec fn first_import_containing(s: Seq<Import>, pat: Seq<char>, k: nat) -> Option<nat>
    decreases s.len() - k,
{
    if k >= s.len() {
        None
    } else if find_sub(s[k as int].name@, pat) is Some {
        Some(k)
    } else {
        first_import_containing(s, pat, k + 1)
    }
}

/// Whether an import brings in one of the functions that spawn tasks.
pub open spec fn is_spawn_import(i: Import) -> bool {
    find_sub(i.name@, "__wbindgen_jspi_spawn_"@) is Some && i.kind is Function
}

/// The imports that bring in the spawn functions, as a mask.
pub open spec fn spawn_mask(m: Module) -> Seq<bool> {
    Seq::new(m.imports@.len(), |k: int| is_spawn_import(m.imports@[k]))
}

/// The import of the probe that tells whether a JSPI context is on the
/// stack: the first import whose name mentions it, if it is a function.
pub open spec fn in_context_import(m: Module) -> Option<nat> {
    match first_import_containing(m.imports@, "__wbindgen_jspi_in_context"@, 0) {
        Some(k) => if m.imports@[k as int].kind is Function {
            Some(k)
        } else {
            None
        },
        None => None,
    }
}

/// A mask that selects the import `k` alone.
pub open spec fn only(m: Module, k: nat) -> Seq<bool> {
    Seq::new(m.imports@.len(), |i: int| i == k)
}

proof fn lemma_first_export_named(s: Seq<Export>, name: Seq<char>, k: nat)
    ensures
        first_export_named(s, name, k) matches Some(i) ==> k <= i < s.len() && s[i as int].name@ == name,
    decreases s.len() - k,
{
    if k < s.len() && s[k as int].name@ != name {
        lemma_first_export_named(s, name, k + 1);
    }
}

proof fn lemma_first_import_containing(s: Seq<Import>, pat: Seq<char>, k: nat)
    ensures
        first_import_containing(s, pat, k) matches Some(i) ==> k <= i < s.len(),
    decreases s.len() - k,
{
    if k < s.len() && !(find_sub(s[k as int].name@, pat) is Some) {
        lemma_first_import_containing(s, pat, k + 1);
    }
}

fn find_export_named(module: &Module, name: &str) -> (r: Option<usize>)
    ensures
        match first_export_named(module.exports@, name@, 0) {
            Some(i) => r matches Some(j) && j == i && i < module.exports@.len(),
            None => r is None,
        },
{
    proof {
        lemma_first_export_named(module.exports@, name@, 0);
    }
    let mut i: usize = 0;
    while i < module.exports.len()
        invariant
            i <= module.exports@.len(),
            first_export_named(module.exports@, name@, 0) == first_export_named(module.exports@, name@, i as nat),
        decreases module.exports@.len() - i,
    {
        if text_is(module.exports[i].name.as_str(), name) {
            return Some(i);
        }
        i = i + 1;
    }
    None
}

fn contains_text(s: &String, pat: &str) -> (r: bool)
    ensures
        r == find_sub(s@, pat@) is Some,
{
    let a = to_chars(s.as_str());
    let b = to_chars(pat);
    index_of_sub(&a, &b).is_some()
}

fn find_in_context_import(module: &Module) -> (r: Option<usize>)
    ensures
        match in_context_import(*module) {
            Some(k) => r matches Some(j) && j == k && k < module.imports@.len(),
            None => r is None,
        },
{
    proof {
        lemma_first_import_containing(module.imports@, "__wbindgen_jspi_in_context"@, 0);
    }
    let mut i: usize = 0;
    while i < module.imports.len()
        invariant
            i <= module.imports@.len(),
            first_import_containing(module.imports@, "__wbindgen_jspi_in_context"@, 0) == first_import_containing(
                module.imports@,
                "__wbindgen_jspi_in_context"@,
                i as nat,
            ),
        decreases module.imports@.len() - i,
    {
        if contains_text(&module.imports[i].name, "__wbindgen_jspi_in_context") {
            return match module.imports[i].kind {
                ImportKind::Function(_) => Some(i),
                _ => None,
            };
        }
        i = i + 1;
    }
    None
}

fn spawn_mask_of(module: &Module) -> (r: (Vec<bool>, bool))
    ensures
        r.0@ == spawn_mask(*module),
        r.1 == exists|k: int| 0 <= k < module.imports@.len() && is_spawn_import(#[trigger] module.imports@[k]),
{
    let mut mask: Vec<bool> = Vec::new();
    let mut any = false;
    let mut i: usize = 0;
    while i < module.imports.len()
        invariant
            i <= module.imports@.len(),
            mask@ == spawn_mask(*module).take(i as int),
            any == exists|k: int| 0 <= k < i && is_spawn_import(#[trigger] module.imports@[k]),
        decreases module.imports@.len() - i,
    {
        let hit = contains_text(&module.imports[i].name, "__wbindgen_jspi_spawn_") && match module.imports[i].kind {
            ImportKind::Function(_) => true,
            _ => false,
        };
        mask.push(hit);
        any = any || hit;
        i = i + 1;
        assert(mask@ =~= spawn_mask(*module).take(i as int));
    }
    assert(mask@ =~= spawn_mask(*module));
    (mask, any)
}

fn only_mask(module: &Module, k: usize) -> (r: Vec<bool>)
    ensures
        r@ == only(*module, k as nat),
{
    let mut mask: Vec<bool> = Vec::new();
    let mut i: usize = 0;
    while i < module.imports.len()
        invariant
            i <= module.imports@.len(),
            mask@ == only(*module, k as nat).take(i as int),
        decreases module.imports@.len() - i,
    {
        mask.push(i == k);
        i = i + 1;
        assert(mask@ =~= only(*module, k as nat).take(i as int));
    }
    assert(mask@ =~= only(*module, k as nat));
    mask
}


/// Whether `m1` and the JSPI exports `e1` are what handling the task-poll
/// export makes of `m0` and `e0`: where the module exports the poll
/// trampoline, it is kept as one more JSPI export if there are JSPI exports
/// and spawn imports; else the export is deleted (later exports move up one
/// place) and the spawn imports are replaced by `unreachable` stubs.
pub open spec fn poll_handled(m0: Module, m1: Module, e0: Seq<usize>, e1: Seq<usize>) -> bool {
    match first_export_named(m0.exports@, task_poll_name(), 0) {
        None => m1 == m0 && e1 == e0,
        Some(p) => {
            let any_spawn = exists|k: int| 0 <= k < m0.imports@.len() && is_spawn_import(#[trigger] m0.imports@[k]);
            if e0.len() > 0 && any_spawn {
                m1 == m0 && e1 == e0.push(p as usize)
            } else {
                &&& e1 == e0.map_values(|x: usize| if x > p { (x - 1) as usize } else { x })
                &&& exists|mx: Module|
                    {
                        &&& mx == (Module { exports: mx.exports, ..m0 })
                        &&& mx.exports@ == m0.exports@.remove(p as int)
                        &&& #[trigger] imports_replaced(mx, m1, spawn_mask(m0), stub_instrs(StubBody::Unreachable))
                    }
            }
        },
    }
}

/// No value types.
pub open spec fn no_vals() -> Seq<ValType> {
    seq![]
}

/// The parameters of the restore helper: three pointers.
pub open spec fn restore_params(ctx: JspiContext) -> Seq<ValType> {
    seq![ctx.ptr_ty, ctx.ptr_ty, ctx.ptr_ty]
}

/// The zero of a pointer type, as a constant expression.
pub open spec fn const_zero(ty: ValType) -> ConstExpr {
    match ty {
        ValType::I64 => ConstExpr::Value(Value::I64(0)),
        _ => ConstExpr::Value(Value::I32(0)),
    }
}

/// Whether `g` is a new mutable global of type `ty`, named `name`,
/// initialised to zero.
pub open spec fn is_zero_global(g: Global, ty: ValType, name: Seq<char>) -> bool {
    &&& g.ty == ty
    &&& g.mutable
    &&& g.name matches Some(n) && n@ == name
    &&& g.kind == GlobalKind::Local(const_zero(ty))
}

/// Whether `m2` is `m1` with the globals `__jspi_stack_base` (a pointer),
/// `__jspi_suspended` (an `i32`) and `__jspi_stack_top` (a pointer) added.
pub open spec fn fiber_globals_added(m1: Module, m2: Module, ptr_ty: ValType) -> bool {
    let n = m1.globals@.len();
    &&& m2 == (Module { globals: m2.globals, ..m1 })
    &&& m2.globals@.len() == n + 3
    &&& m2.globals@.take(n as int) == m1.globals@
    &&& is_zero_global(m2.globals@[n as int], ptr_ty, "__jspi_stack_base"@)
    &&& is_zero_global(m2.globals@[n as int + 1], ValType::I32, "__jspi_suspended"@)
    &&& is_zero_global(m2.globals@[n as int + 2], ptr_ty, "__jspi_stack_top"@)
}

/// The snapshot of the empty-stack pointer that the start function takes.
pub open spec fn snapshot_instrs(sp: usize, top: usize) -> Seq<Instr> {
    seq![Instr::GlobalGet(sp), Instr::GlobalSet(top)]
}

/// Whether `m3` is `m2` with the snapshot appended to the start function:
/// a local start function gets it at the end of its body; else a new start
/// function, of type `() -> ()` and without a name, calls the previous
/// start function (if any) and then takes it.
pub open spec fn start_snapshotted(m2: Module, m3: Module, sp: usize, top: usize) -> bool {
    match spec_get_start(m2) {
        Ok(st) => {
            &&& m3 == (Module { funcs: m3.funcs, ..m2 })
            &&& m3.funcs@.len() == m2.funcs@.len()
            &&& forall|j: int| 0 <= j < m2.funcs@.len() && j != st ==> #[trigger] m3.funcs@[j] == m2.funcs@[j]
            &&& m3.funcs@[st as int].ty == m2.funcs@[st as int].ty
            &&& m3.funcs@[st as int].name == m2.funcs@[st as int].name
            &&& m2.funcs@[st as int].kind matches FunctionKind::Local(lf) && m3.funcs@[st as int].kind matches FunctionKind::Local(
                lf3,
            ) && lf3.args == lf.args && lf3.entry == lf.entry && lf3.seqs@.len() == lf.seqs@.len() && (forall|q: int|
                0 <= q < lf.seqs@.len() && q != lf.entry ==> #[trigger] lf3.seqs@[q] == lf.seqs@[q])
                && lf3.seqs@[lf.entry as int]@ == lf.seqs@[lf.entry as int]@ + snapshot_instrs(sp, top)
        },
        Err(prev) => exists|t: usize, mt: Module|
            {
                &&& #[trigger] type_added(m2, mt, no_vals(), no_vals(), t)
                &&& m3 == (Module { funcs: m3.funcs, start: Some(m2.funcs@.len() as usize), ..mt })
                &&& m3.funcs@.len() == m2.funcs@.len() + 1
                &&& m3.funcs@.take(m2.funcs@.len() as int) == m2.funcs@
                &&& m3.funcs@[m2.funcs@.len() as int].ty == t
                &&& m3.funcs@[m2.funcs@.len() as int].name is None
                &&& m3.funcs@[m2.funcs@.len() as int].kind matches FunctionKind::Local(lf) && lf.args@.len() == 0
                    && lf.entry == 0 && lf.seqs@.len() == 1 && lf.seqs@[0]@ == match prev {
                    Some(p) => seq![Instr::Call(p)],
                    None => seq![],
                } + snapshot_instrs(sp, top)
            },
    }
}

/// Whether `m2` is `m` with the export `e` wrapped as a fiber entry: the
/// wrapper of its function is added (see [`is_export_wrapper`]) and the
/// export made to name it.
pub open spec fn export_step(m: Module, m2: Module, e: usize, ctx: JspiContext) -> bool {
    m.exports@[e as int].item matches ExportItem::Function(f) && {
        let w = m.funcs@.len();
        &&& m2 == (Module { funcs: m2.funcs, exports: m2.exports, ..m })
        &&& m2.funcs@.len() == w + 1
        &&& m2.funcs@.take(w as int) == m.funcs@
        &&& is_export_wrapper(m2.funcs@[w as int], m, f, ctx)
        &&& m2.exports@ == m.exports@.update(e as int, Export { item: ExportItem::Function(w as usize), ..m.exports@[e as int] })
    }
}

/// Whether the modules `ms` are the steps of wrapping the exports `es` in
/// order: each module is the one before it with the next export wrapped.
pub open spec fn export_chain(ms: Seq<Module>, es: Seq<usize>, ctx: JspiContext) -> bool {
    &&& ms.len() == es.len() + 1
    &&& forall|k: int| 0 <= k < es.len() ==> export_step(#[trigger] ms[k], ms[k + 1], es[k], ctx)
}

/// Whether `mb` is `ma` with the exports `es` wrapped in order.
pub open spec fn exports_wrapped(ma: Module, mb: Module, es: Seq<usize>, ctx: JspiContext) -> bool {
    exists|ms: Seq<Module>| #[trigger] export_chain(ms, es, ctx) && ms[0] == ma && ms.last() == mb
}

/// Whether `m2` is `m` with the restore helper added at `h` (see
/// [`make_restore_helper`]).
pub open spec fn restore_added(m: Module, m2: Module, ctx: JspiContext, h: usize) -> bool {
    &&& exists|t: usize, m1: Module|
        {
            &&& #[trigger] type_added(m, m1, restore_params(ctx), no_vals(), t)
            &&& m2 == (Module { funcs: m2.funcs, ..m1 })
            &&& m2.funcs@.len() == h + 1
            &&& h == m.funcs@.len()
            &&& m2.funcs@.take(h as int) == m.funcs@
            &&& m2.funcs@[h as int].ty == t
        }
    &&& m2.funcs@[h as int].name matches Some(n) && n@ == "__jspi_restore"@
    &&& m2.funcs@[h as int].kind matches FunctionKind::Local(lf) && lf.args@ == seq![0usize, 1usize, 2usize]
        && lf.entry == 0 && lf.seqs@.len() == 1 && lf.seqs@[0]@ == restore_body(ctx)
}

/// Whether `ws` pairs `f` with a wrapper.
pub open spec fn has_key(ws: Seq<(usize, usize)>, f: usize) -> bool {
    exists|j: int| 0 <= j < ws.len() && (#[trigger] ws[j]).0 == f
}

/// Whether `mb` and the pairs `ws` are `mm` and `ws0` with the suspending
/// import of function `f` (`catch` if `c`) wrapped: nothing is done for a
/// function that already has a wrapper; else its wrapper is added as the
/// last function (see [`is_suspending_wrapper`]) and paired with it.
pub open spec fn suspending_step(
    mm: Module,
    mb: Module,
    f: usize,
    c: bool,
    ctx: JspiContext,
    restore: usize,
    rejection: Option<Rejection>,
    ws0: Seq<(usize, usize)>,
    ws: Seq<(usize, usize)>,
) -> bool {
    if has_key(ws0, f) {
        mb == mm && ws == ws0
    } else {
        let w = mm.funcs@.len();
        &&& mb == (Module { funcs: mb.funcs, ..mm })
        &&& mb.funcs@.len() == w + 1
        &&& mb.funcs@.take(w as int) == mm.funcs@
        &&& is_suspending_wrapper(
            mb.funcs@[w as int],
            mm,
            f,
            ctx,
            restore,
            if c {
                rejection
            } else {
                None
            },
        )
        &&& ws == ws0.push((f, w as usize))
    }
}

/// Whether the modules `ms` and pairs `wss` are the steps of wrapping the
/// suspending imports `ss` in order.
pub open spec fn suspending_chain(
    ms: Seq<Module>,
    wss: Seq<Seq<(usize, usize)>>,
    ss: Seq<(usize, bool)>,
    ctx: JspiContext,
    restore: usize,
    rejection: Option<Rejection>,
) -> bool {
    &&& ms.len() == ss.len() + 1
    &&& wss.len() == ss.len() + 1
    &&& wss[0] == Seq::<(usize, usize)>::empty()
    &&& forall|k: int|
        0 <= k < ss.len() ==> suspending_step(
            #[trigger] ms[k],
            ms[k + 1],
            ss[k].0,
            ss[k].1,
            ctx,
            restore,
            rejection,
            wss[k],
            wss[k + 1],
        )
}

/// Whether `mb` is `ma` with the suspending imports `ss` (each a function
/// and whether it is `catch`) wrapped in order, each function once, and `ws`
/// the functions and their wrappers.
pub open spec fn suspending_wrapped(
    ma: Module,
    mb: Module,
    ss: Seq<(usize, bool)>,
    ctx: JspiContext,
    restore: usize,
    rejection: Option<Rejection>,
    ws: Seq<(usize, usize)>,
) -> bool {
    exists|ms: Seq<Module>, wss: Seq<Seq<(usize, usize)>>|
        #[trigger] suspending_chain(ms, wss, ss, ctx, restore, rejection) && ms[0] == ma && ms.last() == mb
            && wss.last() == ws
}

/// Whether the function `f` of a `catch` suspending import returns exactly
/// one `externref`.
pub open spec fn returns_externref(m: Module, f: usize) -> bool {
    m.types@[m.funcs@[f as int].ty as int].results@ == seq![externref_type()]
}

pub open spec fn externref_type() -> ValType {
    ValType::Ref(crate::wasm_model::RefType { nullable: true, heap: crate::wasm_model::HeapType::Abstract(crate::wasm_model::AbstractHeapType::Extern) })
}

/// Whether a suspending import that is wrapped first at its place in `ss`
/// is `catch` and does not return an `externref`.
pub open spec fn catch_abi_broken(m: Module, ss: Seq<(usize, bool)>) -> bool {
    exists|i: int|
        0 <= i < ss.len() && (#[trigger] ss[i]).1 && !returns_externref(m, ss[i].0) && forall|j: int|
            0 <= j < i ==> ss[j].0 != ss[i].0
}

/// Whether `ss[i]` is the first suspending import, wrapped first at its
/// place, that is `catch` and does not return an `externref`.
pub open spec fn catch_abi_first(m: Module, ss: Seq<(usize, bool)>, i: int) -> bool {
    &&& 0 <= i < ss.len()
    &&& ss[i].1
    &&& !returns_externref(m, ss[i].0)
    &&& forall|j: int| 0 <= j < i ==> (#[trigger] ss[j]).0 != ss[i].0
    &&& forall|k: int|
        0 <= k < i && (#[trigger] ss[k]).1 && (forall|j: int| 0 <= j < k ==> ss[j].0 != ss[k].0) ==> returns_externref(
            m,
            ss[k].0,
        )
}

/// Whether some suspending import is `catch`.
pub open spec fn any_catch(ss: Seq<(usize, bool)>) -> bool {
    exists|i: int| 0 <= i < ss.len() && (#[trigger] ss[i]).1
}


fn handle_task_poll(module: &mut Module, exports: &mut Vec<usize>)
    requires
        run_state_ok(*old(module)),
        start_ok(*old(module)),
        forall|i: int| 0 <= i < old(exports)@.len() ==> #[trigger] old(exports)@[i] < old(module).exports@.len(),
        first_export_named(old(module).exports@, task_poll_name(), 0) matches Some(p) ==> forall|i: int|
            0 <= i < old(exports)@.len() ==> #[trigger] old(exports)@[i] != p,
        old(exports)@.len() < usize::MAX,
    ensures
        poll_handled(*old(module), *final(module), old(exports)@, final(exports)@),
        run_state_ok(*final(module)),
        start_ok(*final(module)),
        final(module).funcs@.len() == old(module).funcs@.len(),
        final(module).types == old(module).types,
        final(module).globals@.len() == old(module).globals@.len(),
        forall|g: int| 0 <= g < old(module).globals@.len() ==> (#[trigger] final(module).globals@[g]).ty == old(module).globals@[g].ty,
        final(module).memories == old(module).memories,
        final(module).start == old(module).start,
        forall|f: int| 0 <= f < old(module).funcs@.len() ==> (#[trigger] final(module).funcs@[f]).ty == old(module).funcs@[f].ty,
        forall|f: int|
            0 <= f < old(module).funcs@.len() && (#[trigger] old(module).funcs@[f]).kind is Local ==> final(module).funcs@[f]
                == old(module).funcs@[f],
        forall|i: int| 0 <= i < final(exports)@.len() ==> #[trigger] final(exports)@[i] < final(module).exports@.len(),
        final(exports)@.len() <= old(exports)@.len() + 1,
        forall|e: int|
            0 <= e < final(module).exports@.len() ==> exists|e0: int|
                0 <= e0 < old(module).exports@.len() && #[trigger] final(module).exports@[e] == old(module).exports@[e0],
{
    let ghost m0 = *module;
    let ghost e0 = exports@;
    proof {
        reveal_strlit("__wbg_jspi_task_poll");
    }
    match find_export_named(module, "__wbg_jspi_task_poll") {
        None => {},
        Some(p) => {
            proof {
                lemma_first_export_named(m0.exports@, task_poll_name(), 0);
            }
            let (mask, any) = spawn_mask_of(module);
            assert(first_export_named(m0.exports@, task_poll_name(), 0) == Some(p as nat));
            if exports.len() > 0 && any {
                exports.push(p);
                proof {
                    assert forall|e: int| 0 <= e < module.exports@.len() implies exists|e1: int|
                        0 <= e1 < m0.exports@.len() && #[trigger] module.exports@[e] == m0.exports@[e1] by {
                        assert(module.exports@[e] == m0.exports@[e]);
                    }
                }
            } else {
                module.exports.remove(p);
                let ghost mx = *module;
                let mut i: usize = 0;
                while i < exports.len()
                    invariant
                        exports@.len() == e0.len(),
                        i <= exports@.len(),
                        forall|k: int| 0 <= k < e0.len() ==> #[trigger] e0[k] != p,
                        forall|k: int| 0 <= k < e0.len() ==> #[trigger] e0[k] < m0.exports@.len(),
                        forall|k: int|
                            0 <= k < i ==> #[trigger] exports@[k] == (if e0[k] > p {
                                (e0[k] - 1) as usize
                            } else {
                                e0[k]
                            }),
                        forall|k: int| i <= k < exports@.len() ==> #[trigger] exports@[k] == e0[k],
                    decreases exports@.len() - i,
                {
                    let x = exports[i];
                    if x > p {
                        exports.set(i, x - 1);
                    }
                    i = i + 1;
                }
                proof {
                    assert(exports@ =~= e0.map_values(|x: usize| if x > p { (x - 1) as usize } else { x }));
                    assert forall|k: int| 0 <= k < mask@.len() && mask@[k] implies (#[trigger] mx.imports@[k]).kind is Function by {
                        assert(spawn_mask(m0)[k]);
                    }
                }
                replace_imports(module, &mask, StubBody::Unreachable);
                proof {
                    assert(imports_replaced(mx, *module, spawn_mask(m0), stub_instrs(StubBody::Unreachable)));
                    assert forall|f: int|
                        0 <= f < m0.funcs@.len() && (#[trigger] m0.funcs@[f]).kind is Local implies module.funcs@[f] == m0.funcs@[f] by {
                        assert(replaced_func(
                            mx.funcs@[f],
                            module.funcs@[f],
                            mx.types@[mx.funcs@[f].ty as int].params@.len(),
                            mask@,
                            stub_instrs(StubBody::Unreachable),
                        ));
                    }
                    assert forall|f: int| 0 <= f < m0.funcs@.len() implies (#[trigger] module.funcs@[f]).ty == m0.funcs@[f].ty by {
                        assert(replaced_func(
                            mx.funcs@[f],
                            module.funcs@[f],
                            mx.types@[mx.funcs@[f].ty as int].params@.len(),
                            mask@,
                            stub_instrs(StubBody::Unreachable),
                        ));
                    }
                    assert forall|g: int| 0 <= g < m0.globals@.len() implies (#[trigger] module.globals@[g]).ty == m0.globals@[g].ty by {}
                    assert forall|e: int| 0 <= e < module.exports@.len() implies exists|e1: int|
                        0 <= e1 < m0.exports@.len() && #[trigger] module.exports@[e] == m0.exports@[e1] by {
                        if e < p {
                            assert(module.exports@[e] == m0.exports@[e]);
                        } else {
                            assert(module.exports@[e] == m0.exports@[e + 1]);
                        }
                    }
                    assert forall|e: int| 0 <= e < module.exports@.len() && (#[trigger] module.exports@[e]).item is Function implies module.exports@[e].item->Function_0
                        < module.funcs@.len() by {
                        if e < p {
                            assert(module.exports@[e] == m0.exports@[e]);
                        } else {
                            assert(module.exports@[e] == m0.exports@[e + 1]);
                        }
                    }
                    if let Some(st) = m0.start {
                        assert(replaced_func(
                            mx.funcs@[st as int],
                            module.funcs@[st as int],
                            mx.types@[mx.funcs@[st as int].ty as int].params@.len(),
                            mask@,
                            stub_instrs(StubBody::Unreachable),
                        ));
                    }
                }
            }
        },
    }
}


fn zero_global(ty: ValType, name: &str) -> (g: Global)
    ensures
        is_zero_global(g, ty, name@),
{
    let mut n = String::new();
    push_text(&mut n, name);
    let init = match ty {
        ValType::I64 => ConstExpr::Value(Value::I64(0)),
        _ => ConstExpr::Value(Value::I32(0)),
    };
    Global { ty, mutable: true, name: Some(n), kind: GlobalKind::Local(init) }
}

fn add_fiber_globals(module: &mut Module, ptr_ty: ValType)
    requires
        old(module).globals@.len() + 3 <= usize::MAX,
    ensures
        fiber_globals_added(*old(module), *final(module), ptr_ty),
        run_state_ok(*old(module)) ==> run_state_ok(*final(module)),
{
    let ghost n = module.globals@.len();
    module.globals.push(zero_global(ptr_ty, "__jspi_stack_base"));
    module.globals.push(zero_global(ValType::I32, "__jspi_suspended"));
    module.globals.push(zero_global(ptr_ty, "__jspi_stack_top"));
    assert(module.globals@.take(n as int) =~= old(module).globals@);
    proof {
        if run_state_ok(*old(module)) {
            assert forall|g: int| 0 <= g < module.globals@.len() && (#[trigger] module.globals@[g]).kind is Import implies module.globals@[g].kind->Import_0
                < module.imports@.len() && module.imports@[module.globals@[g].kind->Import_0 as int].kind is Global by {
                assert(g < n);
                assert(module.globals@[g] == old(module).globals@[g]);
            }
        }
    }
}

/// Whether the start function, if any, exists, is defined or imported,
/// and (when defined) has an entry sequence.
pub open spec fn start_ok(m: Module) -> bool {
    m.start matches Some(s) ==> s < m.funcs@.len() && !(m.funcs@[s as int].kind is Uninitialized) && (
    m.funcs@[s as int].kind matches FunctionKind::Local(lf) ==> lf.entry < lf.seqs@.len())
}

fn snapshot_in_start(module: &mut Module, sp: usize, top: usize)
    requires
        start_ok(*old(module)),
        old(module).types@.len() < usize::MAX,
        old(module).funcs@.len() < usize::MAX,
    ensures
        start_snapshotted(*old(module), *final(module), sp, top),
        run_state_ok(*old(module)) ==> run_state_ok(*final(module)),
        final(module).funcs@.len() <= old(module).funcs@.len() + 1,
        final(module).types@.len() <= old(module).types@.len() + 1,
        final(module).imports == old(module).imports,
        final(module).exports == old(module).exports,
        final(module).globals == old(module).globals,
        final(module).memories == old(module).memories,
{
    let ghost m2 = *module;
    match get_start(module) {
        Ok(st) => {
            let mut fu = Func { ty: 0, name: None, kind: FunctionKind::Uninitialized };
            module.funcs.set_and_swap(st, &mut fu);
            let Func { ty, name, kind } = fu;
            let new_kind = match kind {
                FunctionKind::Local(lf) => {
                    let LocalFunction { args, entry, seqs } = lf;
                    let mut seqs = seqs;
                    let mut body: Vec<Instr> = Vec::new();
                    seqs.set_and_swap(entry, &mut body);
                    let ghost old_body = body@;
                    body.push(Instr::GlobalGet(sp));
                    body.push(Instr::GlobalSet(top));
                    assert(body@ =~= old_body + snapshot_instrs(sp, top));
                    seqs.set(entry, body);
                    FunctionKind::Local(LocalFunction { args, entry, seqs })
                },
                other => other,
            };
            module.funcs.set(st, Func { ty, name, kind: new_kind });
            proof {
                if run_state_ok(m2) {
                    assert forall|g: int| 0 <= g < module.funcs@.len() && (#[trigger] module.funcs@[g]).kind is Import implies module.funcs@[g].kind->Import_0
                        < module.imports@.len() by {
                        assert(module.funcs@[g] == m2.funcs@[g]);
                    }
                    assert forall|g: int| 0 <= g < module.funcs@.len() implies (#[trigger] module.funcs@[g]).ty < module.types@.len() by {
                        if g != st {
                            assert(module.funcs@[g] == m2.funcs@[g]);
                        }
                    }
                }
            }
        },
        Err(prev) => {
            let p: Vec<ValType> = Vec::new();
            let q: Vec<ValType> = Vec::new();
            assert(p@ =~= no_vals());
            assert(q@ =~= no_vals());
            let t = add_type(module, p, q);
            let ghost mt = *module;
            let mut body: Vec<Instr> = Vec::new();
            if let Some(pf) = prev {
                body.push(Instr::Call(pf));
            }
            body.push(Instr::GlobalGet(sp));
            body.push(Instr::GlobalSet(top));
            assert(body@ =~= match prev {
                Some(pf) => seq![Instr::Call(pf)],
                None => Seq::<Instr>::empty(),
            } + snapshot_instrs(sp, top));
            let mut seqs: Vec<Vec<Instr>> = Vec::new();
            seqs.push(body);
            let id = module.funcs.len();
            module.funcs.push(Func { ty: t, name: None, kind: FunctionKind::Local(LocalFunction { args: Vec::new(), entry: 0, seqs }) });
            module.start = Some(id);
            assert(module.funcs@.take(id as int) =~= m2.funcs@);
            assert(type_added(m2, mt, no_vals(), no_vals(), t));
            proof {
                if run_state_ok(m2) {
                    assert forall|g: int| 0 <= g < module.funcs@.len() && (#[trigger] module.funcs@[g]).kind is Import implies module.funcs@[g].kind->Import_0
                        < module.imports@.len() by {
                        assert(module.funcs@[g] == m2.funcs@[g]);
                    }
                    assert forall|g: int| 0 <= g < module.funcs@.len() implies (#[trigger] module.funcs@[g]).ty < module.types@.len() by {
                        if g < id {
                            assert(module.funcs@[g] == m2.funcs@[g]);
                        }
                    }
                }
            }
        },
    }
}


/// Whether every exported function exists.
pub open spec fn exports_resolve(m: Module) -> bool {
    forall|e: int|
        0 <= e < m.exports@.len() && (#[trigger] m.exports@[e]).item is Function ==> m.exports@[e].item->Function_0
            < m.funcs@.len()
}

/// Whether every function type's parameters and results, with four more
/// locals, can be counted.
pub open spec fn types_small(m: Module) -> bool {
    forall|t: int|
        0 <= t < m.types@.len() ==> (#[trigger] m.types@[t]).params@.len() + m.types@[t].results@.len() + 4
            <= usize::MAX
}

/// The validity that the steps of the instrumentation keep.
pub open spec fn run_state_ok(m: Module) -> bool {
    imports_in_range(m) && exports_resolve(m) && types_small(m)
}

/// Whether one of the exports `es` of `m` is not a function.
pub open spec fn export_not_function(m: Module, es: Seq<usize>) -> bool {
    exists|i: int| 0 <= i < es.len() && !(m.exports@[#[trigger] es[i] as int].item is Function)
}

/// Whether the export `es[i]` of `m` is the first of `es` that is not a
/// function.
pub open spec fn first_non_function(m: Module, es: Seq<usize>, i: int) -> bool {
    &&& 0 <= i < es.len()
    &&& !(m.exports@[es[i] as int].item is Function)
    &&& forall|j: int| 0 <= j < i ==> m.exports@[#[trigger] es[j] as int].item is Function
}

/// Why the JSPI instrumentation cannot be done.
#[derive(Debug, Clone, Copy, PartialEq, Eq, Structural)]
pub enum JspiError {
    /// Reference types are off: a suspending import's resume value must
    /// travel as an `externref`.
    NoReferenceTypes,
    /// The module uses threads.
    Threads,
    /// The `__stack_pointer` global is not found.
    NoStackPointer,
    /// The module's memory is not found.
    Memory(ConventionError),
    /// `__wbindgen_malloc` is not found.
    NoMalloc,
    /// `__wbindgen_free` is not found.
    NoFree,
    /// A JSPI export is not a function.
    ExportNotFunction,
    /// The `__wbindgen_jspi_rejected` flag is not found.
    NoRejectedFlag,
    /// A `catch` suspending import does not return an `externref`.
    CatchAbi,
}

fn wrap_exports(module: &mut Module, es: &Vec<usize>, ctx: JspiContext) -> (r: Result<(), JspiError>)
    requires
        forall|i: int| 0 <= i < es@.len() ==> #[trigger] es@[i] < old(module).exports@.len(),
        exports_resolve(*old(module)),
        imports_in_range(*old(module)),
        types_small(*old(module)),
        old(module).funcs@.len() + es@.len() < usize::MAX,
    ensures
        match r {
            Ok(()) => {
                &&& exports_wrapped(*old(module), *final(module), es@, ctx)
                &&& !export_not_function(*old(module), es@)
                &&& *final(module) == (Module { funcs: final(module).funcs, exports: final(module).exports, ..*old(module) })
                &&& final(module).funcs@.len() == old(module).funcs@.len() + es@.len()
                &&& final(module).funcs@.take(old(module).funcs@.len() as int) == old(module).funcs@
                &&& imports_in_range(*final(module))
                &&& exports_resolve(*final(module))
            },
            Err(e) => {
                &&& e == JspiError::ExportNotFunction
                &&& export_not_function(*old(module), es@)
                &&& exists|i: int|
                    first_non_function(*old(module), es@, i) && #[trigger] exports_wrapped(
                        *old(module),
                        *final(module),
                        es@.take(i),
                        ctx,
                    )
            },
        },
{
    let ghost m0 = *module;
    let ghost mut ms: Seq<Module> = seq![m0];
    let mut i: usize = 0;
    while i < es.len()
        invariant
            forall|k: int| 0 <= k < es@.len() ==> #[trigger] es@[k] < m0.exports@.len(),
            exports_resolve(m0),
            types_small(m0),
            m0.funcs@.len() + es@.len() < usize::MAX,
            i <= es@.len(),
            export_chain(ms, es@.take(i as int), ctx),
            ms[0] == m0,
            m0 == *old(module),
            ms.last() == *module,
            forall|k: int| 0 <= k < i ==> m0.exports@[#[trigger] es@[k] as int].item is Function,
            *module == (Module { funcs: module.funcs, exports: module.exports, ..m0 }),
            module.funcs@.len() == m0.funcs@.len() + i,
            module.funcs@.take(m0.funcs@.len() as int) == m0.funcs@,
            module.exports@.len() == m0.exports@.len(),
            forall|x: int|
                0 <= x < m0.exports@.len() ==> ((#[trigger] module.exports@[x]).item is Function <==> m0.exports@[x].item is Function),
            exports_resolve(*module),
            imports_in_range(*module),
        decreases es@.len() - i,
    {
        let e = es[i];
        let f = match module.exports[e].item {
            ExportItem::Function(f) => f,
            _ => {
                assert(!(m0.exports@[es@[i as int] as int].item is Function));
                assert(export_not_function(m0, es@));
                assert(first_non_function(m0, es@, i as int));
                assert(exports_wrapped(m0, *module, es@.take(i as int), ctx));
                return Err(JspiError::ExportNotFunction);
            },
        };
        let ghost prev = *module;
        let w = wrap_export(module, f, ctx);
        let name = module.exports[e].name.clone();
        module.exports.set(e, Export { name, item: ExportItem::Function(w) });
        proof {
            assert(export_step(prev, *module, e, ctx));
            let ms0 = ms;
            ms = ms.push(*module);
            assert forall|k: int| 0 <= k < i + 1 implies export_step(#[trigger] ms[k], ms[k + 1], es@.take(i as int + 1)[k], ctx) by {
                if k < i {
                    assert(ms[k] == ms0[k] && ms[k + 1] == ms0[k + 1]);
                    assert(es@.take(i as int + 1)[k] == es@.take(i as int)[k]);
                    assert(export_step(ms0[k], ms0[k + 1], es@.take(i as int)[k], ctx));
                } else {
                    assert(ms[k] == prev);
                }
            }
            assert(module.funcs@.take(m0.funcs@.len() as int) =~= m0.funcs@) by {
                assert(module.funcs@.take(prev.funcs@.len() as int) == prev.funcs@);
            }
            assert forall|x: int| 0 <= x < module.exports@.len() && (#[trigger] module.exports@[x]).item is Function implies module.exports@[x].item->Function_0
                < module.funcs@.len() by {
                if x != e {
                    assert(module.exports@[x] == prev.exports@[x]);
                }
            }
            assert forall|g: int| 0 <= g < module.funcs@.len() && (#[trigger] module.funcs@[g]).kind is Import implies module.funcs@[g].kind->Import_0
                < module.imports@.len() by {
                if g < prev.funcs@.len() {
                    assert(module.funcs@[g] == prev.funcs@[g]);
                }
            }
            assert forall|g: int| 0 <= g < module.funcs@.len() implies (#[trigger] module.funcs@[g]).ty < module.types@.len() by {
                if g < prev.funcs@.len() {
                    assert(module.funcs@[g] == prev.funcs@[g]);
                }
            }
        }
        i = i + 1;
    }
    proof {
        assert(es@.take(es@.len() as int) =~= es@);
        assert(export_chain(ms, es@, ctx));
        assert forall|k: int| 0 <= k < es@.len() implies m0.exports@[#[trigger] es@[k] as int].item is Function by {}
    }
    Ok(())
}

fn has_wrapper(ws: &Vec<(usize, usize)>, f: usize) -> (r: bool)
    ensures
        r == has_key(ws@, f),
{
    let mut i: usize = 0;
    while i < ws.len()
        invariant
            i <= ws@.len(),
            forall|j: int| 0 <= j < i ==> (#[trigger] ws@[j]).0 != f,
        decreases ws@.len() - i,
    {
        if ws[i].0 == f {
            return true;
        }
        i = i + 1;
    }
    false
}

fn returns_externref_exec(module: &Module, f: usize) -> (r: bool)
    requires
        f < module.funcs@.len(),
        module.funcs@[f as int].ty < module.types@.len(),
    ensures
        r == returns_externref(*module, f),
{
    let t = &module.types[module.funcs[f].ty];
    let want = ValType::Ref(
        crate::wasm_model::RefType {
            nullable: true,
            heap: crate::wasm_model::HeapType::Abstract(crate::wasm_model::AbstractHeapType::Extern),
        },
    );
    let r = t.results.len() == 1 && t.results[0] == want;
    proof {
        if r {
            assert(t.results@ =~= seq![externref_type()]);
        }
    }
    r
}

proof fn lemma_suspending_chain_push(
    ms: Seq<Module>,
    wss: Seq<Seq<(usize, usize)>>,
    ss: Seq<(usize, bool)>,
    i: nat,
    mb: Module,
    ws: Seq<(usize, usize)>,
    ctx: JspiContext,
    restore: usize,
    rejection: Option<Rejection>,
)
    requires
        i < ss.len(),
        suspending_chain(ms, wss, ss.take(i as int), ctx, restore, rejection),
        suspending_step(ms.last(), mb, ss[i as int].0, ss[i as int].1, ctx, restore, rejection, wss.last(), ws),
    ensures
        suspending_chain(ms.push(mb), wss.push(ws), ss.take(i as int + 1), ctx, restore, rejection),
{
    let ms2 = ms.push(mb);
    let wss2 = wss.push(ws);
    assert forall|k: int| 0 <= k < i + 1 implies suspending_step(
        #[trigger] ms2[k],
        ms2[k + 1],
        ss.take(i as int + 1)[k].0,
        ss.take(i as int + 1)[k].1,
        ctx,
        restore,
        rejection,
        wss2[k],
        wss2[k + 1],
    ) by {
        if k < i {
            assert(ms2[k] == ms[k] && ms2[k + 1] == ms[k + 1] && wss2[k] == wss[k] && wss2[k + 1] == wss[k + 1]);
            assert(ss.take(i as int + 1)[k] == ss.take(i as int)[k]);
            assert(suspending_step(
                ms[k],
                ms[k + 1],
                ss.take(i as int)[k].0,
                ss.take(i as int)[k].1,
                ctx,
                restore,
                rejection,
                wss[k],
                wss[k + 1],
            ));
        }
    }
}

/// The functions paired in `ws` are those of the first `i` imports of `ss`.
pub open spec fn keys_are(ws: Seq<(usize, usize)>, ss: Seq<(usize, bool)>, i: int) -> bool {
    forall|f: usize| has_key(ws, f) <==> exists|k: int| 0 <= k < i && (#[trigger] ss[k]).0 == f
}

/// Among the first `i` imports of `ss`, each `catch` one that is wrapped
/// first at its place returns an `externref`.
pub open spec fn abi_ok_upto(m: Module, ss: Seq<(usize, bool)>, i: int) -> bool {
    forall|k: int|
        0 <= k < i && (#[trigger] ss[k]).1 && (forall|j: int| 0 <= j < k ==> ss[j].0 != ss[k].0) ==> returns_externref(
            m,
            ss[k].0,
        )
}

proof fn lemma_keys_step(ws0: Seq<(usize, usize)>, ws: Seq<(usize, usize)>, ss: Seq<(usize, bool)>, i: int, w: usize)
    requires
        0 <= i < ss.len(),
        keys_are(ws0, ss, i),
        (has_key(ws0, ss[i].0) && ws == ws0) || (!has_key(ws0, ss[i].0) && ws == ws0.push((ss[i].0, w))),
    ensures
        keys_are(ws, ss, i + 1),
{
    assert forall|g: usize| has_key(ws, g) <==> exists|k: int| 0 <= k < i + 1 && (#[trigger] ss[k]).0 == g by {
        if has_key(ws, g) {
            let j = choose|j: int| 0 <= j < ws.len() && (#[trigger] ws[j]).0 == g;
            if j < ws0.len() {
                assert(ws0[j] == ws[j]);
                assert(has_key(ws0, g));
            } else {
                assert(ss[i].0 == g);
            }
        }
        if exists|k: int| 0 <= k < i + 1 && (#[trigger] ss[k]).0 == g {
            let k2 = choose|k2: int| 0 <= k2 < i + 1 && (#[trigger] ss[k2]).0 == g;
            if k2 < i {
                assert(has_key(ws0, g));
                let j = choose|j: int| 0 <= j < ws0.len() && (#[trigger] ws0[j]).0 == g;
                assert(ws[j] == ws0[j]);
            } else if has_key(ws0, ss[i].0) {
                assert(ws == ws0);
            } else {
                assert(ws[ws0.len() as int].0 == g);
            }
        }
    }
}

proof fn lemma_abi_step(m: Module, ws0: Seq<(usize, usize)>, ss: Seq<(usize, bool)>, i: int)
    requires
        0 <= i < ss.len(),
        keys_are(ws0, ss, i),
        abi_ok_upto(m, ss, i),
        ss[i].1 && !has_key(ws0, ss[i].0) ==> returns_externref(m, ss[i].0),
    ensures
        abi_ok_upto(m, ss, i + 1),
{
    assert forall|k: int|
        0 <= k < i + 1 && (#[trigger] ss[k]).1 && (forall|j: int| 0 <= j < k ==> ss[j].0 != ss[k].0) implies returns_externref(
        m,
        ss[k].0,
    ) by {
        if k == i && has_key(ws0, ss[i].0) {
            let k3 = choose|k3: int| 0 <= k3 < i && (#[trigger] ss[k3]).0 == ss[i].0;
            assert(ss[k3].0 == ss[k].0);
        }
    }
}

proof fn lemma_abi_broken(m: Module, ws0: Seq<(usize, usize)>, ss: Seq<(usize, bool)>, i: int)
    requires
        0 <= i < ss.len(),
        keys_are(ws0, ss, i),
        ss[i].1,
        !has_key(ws0, ss[i].0),
        !returns_externref(m, ss[i].0),
    ensures
        catch_abi_broken(m, ss),
{
    assert forall|j: int| 0 <= j < i implies ss[j].0 != ss[i].0 by {
        if ss[j].0 == ss[i].0 {
            assert(exists|k: int| 0 <= k < i && (#[trigger] ss[k]).0 == ss[i].0);
        }
    }
    assert(ss[i].1 && !returns_externref(m, ss[i].0));
}

/// Wraps one suspending import, unless its function has a wrapper; fails
/// (with nothing changed) where it is `catch` and does not return an
/// `externref`.
fn wrap_one_suspending(
    module: &mut Module,
    ws: &mut Vec<(usize, usize)>,
    f: usize,
    c: bool,
    ctx: JspiContext,
    restore: usize,
    rejection: Option<Rejection>,
) -> (ok: bool)
    requires
        f < old(module).funcs@.len(),
        imports_in_range(*old(module)),
        types_small(*old(module)),
        old(module).funcs@.len() < usize::MAX,
    ensures
        !ok ==> c && !has_key(old(ws)@, f) && !returns_externref(*old(module), f) && *final(module) == *old(module)
            && final(ws)@ == old(ws)@,
        ok ==> {
            &&& suspending_step(*old(module), *final(module), f, c, ctx, restore, rejection, old(ws)@, final(ws)@)
            &&& (c && !has_key(old(ws)@, f) ==> returns_externref(*old(module), f))
            &&& (has_key(old(ws)@, f) && final(ws)@ == old(ws)@) || (!has_key(old(ws)@, f) && final(ws)@
                == old(ws)@.push((f, old(module).funcs@.len() as usize)))
            &&& *final(module) == (Module { funcs: final(module).funcs, ..*old(module) })
            &&& old(module).funcs@.len() <= final(module).funcs@.len() <= old(module).funcs@.len() + 1
            &&& final(module).funcs@.take(old(module).funcs@.len() as int) == old(module).funcs@
            &&& imports_in_range(*final(module))
        },
{
    let ghost prev = *module;
    if has_wrapper(ws, f) {
        return true;
    }
    if c {
        if !returns_externref_exec(module, f) {
            return false;
        }
    }
    let rej = if c {
        rejection
    } else {
        None
    };
    let w = wrap_suspending(module, f, ctx, restore, rej);
    ws.push((f, w));
    proof {
        assert forall|g: int| 0 <= g < module.funcs@.len() && (#[trigger] module.funcs@[g]).kind is Import implies module.funcs@[g].kind->Import_0
            < module.imports@.len() by {
            if g < prev.funcs@.len() {
                assert(module.funcs@[g] == prev.funcs@[g]);
            }
        }
        assert forall|g: int| 0 <= g < module.funcs@.len() implies (#[trigger] module.funcs@[g]).ty < module.types@.len() by {
            if g < prev.funcs@.len() {
                assert(module.funcs@[g] == prev.funcs@[g]);
            }
        }
    }
    true
}

fn wrap_all_suspending(
    module: &mut Module,
    ss: &Vec<(usize, bool)>,
    ctx: JspiContext,
    restore: usize,
    rejection: Option<Rejection>,
) -> (r: Result<Vec<(usize, usize)>, JspiError>)
    requires
        forall|i: int| 0 <= i < ss@.len() ==> (#[trigger] ss@[i]).0 < old(module).funcs@.len(),
        imports_in_range(*old(module)),
        types_small(*old(module)),
        old(module).funcs@.len() + ss@.len() < usize::MAX,
    ensures
        match r {
            Ok(ws) => {
                &&& suspending_wrapped(*old(module), *final(module), ss@, ctx, restore, rejection, ws@)
                &&& !catch_abi_broken(*old(module), ss@)
            },
            Err(e) => {
                &&& e == JspiError::CatchAbi
                &&& catch_abi_broken(*old(module), ss@)
                &&& exists|i: int, pairs: Seq<(usize, usize)>|
                    catch_abi_first(*old(module), ss@, i) && #[trigger] suspending_wrapped(
                        *old(module),
                        *final(module),
                        ss@.take(i),
                        ctx,
                        restore,
                        rejection,
                        pairs,
                    )
            },
        },
{
    let ghost m0 = *module;
    let mut ws: Vec<(usize, usize)> = Vec::new();
    let ghost mut ms: Seq<Module> = seq![m0];
    let ghost mut wss: Seq<Seq<(usize, usize)>> = seq![Seq::<(usize, usize)>::empty()];
    let mut i: usize = 0;
    while i < ss.len()
        invariant
            forall|k: int| 0 <= k < ss@.len() ==> (#[trigger] ss@[k]).0 < m0.funcs@.len(),
            types_small(m0),
            m0.funcs@.len() + ss@.len() < usize::MAX,
            i <= ss@.len(),
            suspending_chain(ms, wss, ss@.take(i as int), ctx, restore, rejection),
            ms[0] == m0,
            m0 == *old(module),
            ms.last() == *module,
            wss.last() == ws@,
            keys_are(ws@, ss@, i as int),
            abi_ok_upto(m0, ss@, i as int),
            *module == (Module { funcs: module.funcs, ..m0 }),
            m0.funcs@.len() <= module.funcs@.len() <= m0.funcs@.len() + i,
            module.funcs@.take(m0.funcs@.len() as int) == m0.funcs@,
            imports_in_range(*module),
        decreases ss@.len() - i,
    {
        let (f, c) = ss[i];
        let ghost prev = *module;
        let ghost ws0 = ws@;
        assert(module.funcs@[f as int] == m0.funcs@[f as int]) by {
            assert(module.funcs@.take(m0.funcs@.len() as int)[f as int] == module.funcs@[f as int]);
        }
        assert(returns_externref(prev, f) == returns_externref(m0, f));
        let ok = wrap_one_suspending(module, &mut ws, f, c, ctx, restore, rejection);
        if !ok {
            proof {
                lemma_abi_broken(m0, ws0, ss@, i as int);
                assert forall|j: int| 0 <= j < i implies (#[trigger] ss@[j]).0 != ss@[i as int].0 by {
                    if ss@[j].0 == ss@[i as int].0 {
                        assert(exists|k: int| 0 <= k < i && (#[trigger] ss@[k]).0 == f);
                    }
                }
                assert(catch_abi_first(m0, ss@, i as int));
                assert(suspending_wrapped(m0, *module, ss@.take(i as int), ctx, restore, rejection, ws@));
            }
            return Err(JspiError::CatchAbi);
        }
        proof {
            lemma_keys_step(ws0, ws@, ss@, i as int, prev.funcs@.len() as usize);
            lemma_abi_step(m0, ws0, ss@, i as int);
            lemma_suspending_chain_push(ms, wss, ss@, i as nat, *module, ws@, ctx, restore, rejection);
            ms = ms.push(*module);
            wss = wss.push(ws@);
            assert(module.funcs@.take(m0.funcs@.len() as int) =~= m0.funcs@) by {
                assert(module.funcs@.take(prev.funcs@.len() as int) == prev.funcs@);
            }
        }
        i = i + 1;
    }
    proof {
        assert(ss@.take(ss@.len() as int) =~= ss@);
        assert(suspending_chain(ms, wss, ss@, ctx, restore, rejection));
    }
    Ok(ws)
}


fn any_shared_memory(module: &Module) -> (r: bool)
    ensures
        r == exists|j: int| 0 <= j < module.memories@.len() && (#[trigger] module.memories@[j]).shared,
{
    let mut j: usize = 0;
    while j < module.memories.len()
        invariant
            j <= module.memories@.len(),
            forall|q: int| 0 <= q < j ==> !(#[trigger] module.memories@[q]).shared,
        decreases module.memories@.len() - j,
    {
        if module.memories[j].shared {
            return true;
        }
        j = j + 1;
    }
    false
}

fn any_catch_exec(ss: &Vec<(usize, bool)>) -> (r: bool)
    ensures
        r == any_catch(ss@),
{
    let mut q: usize = 0;
    while q < ss.len()
        invariant
            q <= ss@.len(),
            forall|k: int| 0 <= k < q ==> !(#[trigger] ss@[k]).1,
        decreases ss@.len() - q,
    {
        if ss[q].1 {
            return true;
        }
        q = q + 1;
    }
    false
}

/// The wrapping of the suspending imports: see [`suspending_instrumented`].
fn instrument_suspending(
    module: &mut Module,
    suspending: &Vec<(usize, bool)>,
    ctx: JspiContext,
    h: usize,
    aux: JspiAux,
    js_tag: usize,
) -> (r: Result<Vec<(usize, usize)>, JspiError>)
    requires
        imports_in_range(*old(module)),
        types_small(*old(module)),
        forall|i: int| 0 <= i < suspending@.len() ==> (#[trigger] suspending@[i]).0 < old(module).funcs@.len(),
        old(module).funcs@.len() + suspending@.len() < usize::MAX,
    ensures
        suspending_instrumented(*old(module), *final(module), suspending@, ctx, h, aux, js_tag, r),
{
    let ghost m6 = *module;
    let has_catch = any_catch_exec(suspending);
    let rejection = if has_catch {
        match aux.rejected {
            Some(a) => Some(Rejection { js_tag, addr: a }),
            None => {
                return Err(JspiError::NoRejectedFlag);
            },
        }
    } else {
        None
    };
    let ws = match wrap_all_suspending(module, suspending, ctx, h, rejection) {
        Ok(ws) => ws,
        Err(e) => {
            return Err(e);
        },
    };
    let ghost m7 = *module;
    assert(rejection == rejection_of(suspending@, aux, js_tag));
    assert(suspending_wrapped(m6, m7, suspending@, ctx, h, rejection_of(suspending@, aux, js_tag), ws@));
    rewrite_calls(module, &ws);
    assert(calls_rewritten(m7, *module, ws@));
    Ok(ws)
}

/// The instrumentation of the suspending imports: see
/// [`imports_instrumented`].
fn instrument_imports(
    module: &mut Module,
    suspending: &Vec<(usize, bool)>,
    ctx: JspiContext,
    aux: JspiAux,
    js_tag: usize,
) -> (r: Result<Vec<(usize, usize)>, JspiError>)
    requires
        run_state_ok(*old(module)),
        forall|i: int| 0 <= i < suspending@.len() ==> (#[trigger] suspending@[i]).0 < old(module).funcs@.len(),
        old(module).funcs@.len() + suspending@.len() + 1 < usize::MAX,
        old(module).types@.len() + 1 < usize::MAX,
    ensures
        imports_instrumented(*old(module), *final(module), suspending@, ctx, aux, js_tag, r),
{
    if suspending.len() == 0 {
        return Ok(Vec::new());
    }
    let ghost m5 = *module;
    let h = make_restore_helper(module, ctx);
    let ghost m6 = *module;
    assert(restore_added(m5, m6, ctx, h));
    let r = instrument_suspending(module, suspending, ctx, h, aux, js_tag);
    assert(suspending_instrumented(m6, *module, suspending@, ctx, h, aux, js_tag, r));
    r
}

/// The instrumentation from the exports on: see [`instrumented`].
fn instrument(
    module: &mut Module,
    exports: &Vec<usize>,
    suspending: &Vec<(usize, bool)>,
    ctx: JspiContext,
    aux: JspiAux,
    js_tag: usize,
) -> (r: Result<Vec<(usize, usize)>, JspiError>)
    requires
        run_state_ok(*old(module)),
        forall|i: int| 0 <= i < exports@.len() ==> #[trigger] exports@[i] < old(module).exports@.len(),
        forall|i: int| 0 <= i < suspending@.len() ==> (#[trigger] suspending@[i]).0 < old(module).funcs@.len(),
        old(module).funcs@.len() + exports@.len() + suspending@.len() + 2 < usize::MAX,
        old(module).types@.len() + 1 < usize::MAX,
    ensures
        instrumented(*old(module), *final(module), exports@, suspending@, ctx, aux, js_tag, r),
{
    let ghost m4 = *module;
    match wrap_exports(module, exports, ctx) {
        Ok(()) => {},
        Err(e) => {
            return Err(e);
        },
    }
    let ghost m5 = *module;
    assert(exports_wrapped(m4, m5, exports@, ctx));
    let r = instrument_imports(module, suspending, ctx, aux, js_tag);
    assert(imports_instrumented(m5, *module, suspending@, ctx, aux, js_tag, r));
    r
}

/// What the instrumentation reads of the bindings' auxiliary data.
#[derive(Debug, Clone, Copy, PartialEq, Eq, Structural)]
pub struct JspiAux {
    /// The `__stack_pointer` global, if found.
    pub stack_pointer: Option<usize>,
    /// `__wbindgen_malloc`, if present.
    pub malloc: Option<usize>,
    /// `__wbindgen_free`, if present.
    pub free: Option<usize>,
    /// The address of the `__wbindgen_jspi_rejected` flag, if found.
    pub rejected: Option<u64>,
}

/// What the instrumentation asks of its inputs: a module whose items refer
/// to items that exist, JSPI exports that exist (other than the task-poll
/// trampoline), suspending imports whose functions exist, and counts that
/// leave room for what is added.
pub open spec fn run_ready(m: Module, e0: Seq<usize>, ss: Seq<(usize, bool)>, aux: JspiAux) -> bool {
    &&& run_state_ok(m)
    &&& start_ok(m)
    &&& forall|i: int| 0 <= i < e0.len() ==> #[trigger] e0[i] < m.exports@.len()
    &&& (first_export_named(m.exports@, task_poll_name(), 0) matches Some(p) ==> forall|i: int|
        0 <= i < e0.len() ==> #[trigger] e0[i] != p)
    &&& forall|i: int| 0 <= i < ss.len() ==> (#[trigger] ss[i]).0 < m.funcs@.len()
    &&& (aux.stack_pointer matches Some(sp) ==> sp < m.globals@.len())
    &&& m.funcs@.len() + e0.len() + ss.len() + 4 < usize::MAX
    &&& m.types@.len() + 2 < usize::MAX
    &&& m.globals@.len() + 3 <= usize::MAX
}

/// Whether `m4` is `m3` with the probe `ic` (if any) made to read whether
/// the fiber base global `base` is nonzero.
pub open spec fn probe_done(m3: Module, m4: Module, ic: Option<nat>, base: usize) -> bool {
    match ic {
        None => m4 == m3,
        Some(k) => imports_replaced(m3, m4, only(m3, k), stub_instrs(StubBody::InFiber(base))),
    }
}

/// Whether `mf` is `m7` with every call of a wrapped suspending import
/// redirected to its wrapper (see [`rewrite_calls`]).
pub open spec fn calls_rewritten(m7: Module, mf: Module, ws: Seq<(usize, usize)>) -> bool {
    &&& mf.funcs@.len() == m7.funcs@.len()
    &&& forall|k: int| 0 <= k < m7.funcs@.len() ==> func_redirected(ws, k, #[trigger] m7.funcs@[k], mf.funcs@[k])
    &&& mf == (Module { funcs: mf.funcs, ..m7 })
}

/// Whether `r` is the empty list of wrappers.
pub open spec fn no_wrappers(r: Result<Vec<(usize, usize)>, JspiError>) -> bool {
    r matches Ok(w) && w@.len() == 0
}

/// The wrapping of the suspending imports `ss` with the restore helper `h`
/// (see [`run`]): the rejection flag is looked up where an import is
/// `catch`, the imports wrapped, and the calls to them rewritten.
pub open spec fn suspending_instrumented(
    m6: Module,
    mf: Module,
    ss: Seq<(usize, bool)>,
    ctx: JspiContext,
    h: usize,
    aux: JspiAux,
    js_tag: usize,
    r: Result<Vec<(usize, usize)>, JspiError>,
) -> bool {
    if any_catch(ss) && aux.rejected is None {
        r == Err::<Vec<(usize, usize)>, JspiError>(JspiError::NoRejectedFlag) && mf == m6
    } else if catch_abi_broken(m6, ss) {
        &&& r == Err::<Vec<(usize, usize)>, JspiError>(JspiError::CatchAbi)
        &&& exists|i: int, pairs: Seq<(usize, usize)>|
            catch_abi_first(m6, ss, i) && #[trigger] suspending_wrapped(
                m6,
                mf,
                ss.take(i),
                ctx,
                h,
                rejection_of(ss, aux, js_tag),
                pairs,
            )
    } else {
        exists|m7: Module, pairs: Seq<(usize, usize)>|
            #[trigger] suspending_wrapped(m6, m7, ss, ctx, h, rejection_of(ss, aux, js_tag), pairs) && (r matches Ok(
                w,
            ) && w@ == pairs) && calls_rewritten(m7, mf, pairs)
    }
}

/// How `catch` suspending imports report a rejection: with the tag
/// `js_tag` and the flag that `aux` locates, where any import is `catch`.
pub open spec fn rejection_of(ss: Seq<(usize, bool)>, aux: JspiAux, js_tag: usize) -> Option<Rejection> {
    if any_catch(ss) {
        Some(Rejection { js_tag, addr: aux.rejected->0 })
    } else {
        None
    }
}

/// The instrumentation of the suspending imports `ss` (see [`run`]):
/// nothing without them; else the restore helper is added and they are
/// wrapped.
pub open spec fn imports_instrumented(
    m5: Module,
    mf: Module,
    ss: Seq<(usize, bool)>,
    ctx: JspiContext,
    aux: JspiAux,
    js_tag: usize,
    r: Result<Vec<(usize, usize)>, JspiError>,
) -> bool {
    if ss.len() == 0 {
        no_wrappers(r) && mf == m5
    } else {
        exists|m6: Module, h: usize|
            #[trigger] restore_added(m5, m6, ctx, h) && suspending_instrumented(m6, mf, ss, ctx, h, aux, js_tag, r)
    }
}

/// The instrumentation from the exports on (see [`run`]): the exports are
/// wrapped, then the suspending imports.
pub open spec fn instrumented(
    m4: Module,
    mf: Module,
    e1: Seq<usize>,
    ss: Seq<(usize, bool)>,
    ctx: JspiContext,
    aux: JspiAux,
    js_tag: usize,
    r: Result<Vec<(usize, usize)>, JspiError>,
) -> bool {
    if export_not_function(m4, e1) {
        &&& r == Err::<Vec<(usize, usize)>, JspiError>(JspiError::ExportNotFunction)
        &&& exists|i: int| first_non_function(m4, e1, i) && #[trigger] exports_wrapped(m4, mf, e1.take(i), ctx)
    } else {
        exists|m5: Module|
            #[trigger] exports_wrapped(m4, m5, e1, ctx) && imports_instrumented(m5, mf, ss, ctx, aux, js_tag, r)
    }
}

/// The instrumentation after the task-poll export is handled (see
/// [`run`]).
pub open spec fn after_poll(
    m1: Module,
    mf: Module,
    e1: Seq<usize>,
    ss: Seq<(usize, bool)>,
    externref: bool,
    aux: JspiAux,
    js_tag: usize,
    r: Result<Vec<(usize, usize)>, JspiError>,
) -> bool {
    let ic = in_context_import(m1);
    if e1.len() == 0 && ss.len() == 0 {
        &&& no_wrappers(r)
        &&& match ic {
            None => mf == m1,
            Some(k) => imports_replaced(m1, mf, only(m1, k), stub_instrs(StubBody::False)),
        }
    } else if !externref {
        r == Err::<Vec<(usize, usize)>, JspiError>(JspiError::NoReferenceTypes) && mf == m1
    } else if exists|j: int| 0 <= j < m1.memories@.len() && (#[trigger] m1.memories@[j]).shared {
        r == Err::<Vec<(usize, usize)>, JspiError>(JspiError::Threads) && mf == m1
    } else if aux.stack_pointer is None {
        r == Err::<Vec<(usize, usize)>, JspiError>(JspiError::NoStackPointer) && mf == m1
    } else if spec_get_memory(m1) is Err {
        r == Err::<Vec<(usize, usize)>, JspiError>(JspiError::Memory(spec_get_memory(m1)->Err_0)) && mf == m1
    } else if aux.malloc is None {
        r == Err::<Vec<(usize, usize)>, JspiError>(JspiError::NoMalloc) && mf == m1
    } else if aux.free is None {
        r == Err::<Vec<(usize, usize)>, JspiError>(JspiError::NoFree) && mf == m1
    } else {
        let sp = aux.stack_pointer->0;
        let n = m1.globals@.len();
        let ctx = JspiContext {
            sp,
            base: n as usize,
            suspended: (n + 1) as usize,
            top: (n + 2) as usize,
            memory: spec_get_memory(m1)->Ok_0,
            malloc: aux.malloc->0,
            free: aux.free->0,
            ptr_ty: m1.globals@[sp as int].ty,
        };
        exists|m2: Module, m3: Module, m4: Module|
            {
                &&& #[trigger] fiber_globals_added(m1, m2, ctx.ptr_ty)
                &&& #[trigger] start_snapshotted(m2, m3, sp, ctx.top)
                &&& #[trigger] probe_done(m3, m4, ic, ctx.base)
                &&& instrumented(m4, mf, e1, ss, ctx, aux, js_tag, r)
            }
    }
}

/// Makes suspension safe for the JSPI exports `jspi_exports` (by export
/// index) and the suspending imports `suspending` (each a function and
/// whether it is `catch`): see [`poll_handled`] and [`after_poll`]. With
/// neither, no instrumentation is done and the context probe, if imported,
/// answers `false`. Else the module needs reference types, no shared memory,
/// the stack pointer, one memory, `__wbindgen_malloc` and `__wbindgen_free`;
/// the fiber globals are added, the empty-stack pointer is taken in the
/// start function, the context probe reads the fiber base, the exports are
/// wrapped as fiber entries, and the suspending imports wrapped so that a
/// suspended fiber's shadow stack is moved out and back. `js_tag` is the
/// tag that JavaScript exceptions carry, which `catch` imports catch. The
/// result pairs each suspending import's function with its wrapper, for the
/// bindings that name the imports to name the wrappers.
pub fn run(
    module: &mut Module,
    jspi_exports: &Vec<usize>,
    suspending: &Vec<(usize, bool)>,
    externref: bool,
    aux: JspiAux,
    js_tag: usize,
) -> (r: Result<Vec<(usize, usize)>, JspiError>)
    requires
        run_ready(*old(module), jspi_exports@, suspending@, aux),
    ensures
        exists|m1: Module, e1: Seq<usize>|
            #[trigger] poll_handled(*old(module), m1, jspi_exports@, e1) && after_poll(
                m1,
                *final(module),
                e1,
                suspending@,
                externref,
                aux,
                js_tag,
                r,
            ),
{
    let ghost m0 = *module;
    let mut exports: Vec<usize> = Vec::new();
    let mut i: usize = 0;
    while i < jspi_exports.len()
        invariant
            i <= jspi_exports@.len(),
            exports@ == jspi_exports@.take(i as int),
        decreases jspi_exports@.len() - i,
    {
        exports.push(jspi_exports[i]);
        i = i + 1;
        assert(exports@ =~= jspi_exports@.take(i as int));
    }
    assert(exports@ =~= jspi_exports@);
    handle_task_poll(module, &mut exports);
    let ghost m1 = *module;
    let ghost e1 = exports@;
    assert(poll_handled(m0, m1, jspi_exports@, e1));
    let ic = find_in_context_import(module);
    if exports.len() == 0 && suspending.len() == 0 {
        if let Some(k) = ic {
            let mask = only_mask(module, k);
            replace_imports(module, &mask, StubBody::False);
        }
        return Ok(Vec::new());
    }
    if !externref {
        return Err(JspiError::NoReferenceTypes);
    }
    if any_shared_memory(module) {
        return Err(JspiError::Threads);
    }
    let sp = match aux.stack_pointer {
        Some(sp) => sp,
        None => return Err(JspiError::NoStackPointer),
    };
    let memory = match get_memory(module) {
        Ok(mem) => mem,
        Err(e) => return Err(JspiError::Memory(e)),
    };
    let malloc = match aux.malloc {
        Some(f) => f,
        None => return Err(JspiError::NoMalloc),
    };
    let free = match aux.free {
        Some(f) => f,
        None => return Err(JspiError::NoFree),
    };
    let ptr_ty = module.globals[sp].ty;
    let n = module.globals.len();
    add_fiber_globals(module, ptr_ty);
    let ghost m2 = *module;
    snapshot_in_start(module, sp, n + 2);
    let ghost m3 = *module;
    let ctx = JspiContext { sp, base: n, suspended: n + 1, top: n + 2, memory, malloc, free, ptr_ty };
    if let Some(k) = ic {
        let mask = only_mask(module, k);
        replace_imports(module, &mask, StubBody::InFiber(n));
    }
    let ghost m4 = *module;
    assert(probe_done(m3, m4, in_context_import(m1), n));
    proof {
        assert(exports_resolve(m4));
        assert(run_state_ok(m4));
    }
    let r = instrument(module, &exports, suspending, ctx, aux, js_tag);
    proof {
        assert(instrumented(m4, *module, e1, suspending@, ctx, aux, js_tag, r));
        assert(fiber_globals_added(m1, m2, ptr_ty));
        assert(start_snapshotted(m2, m3, sp, ctx.top));
    }
    r
}


proof fn lemma_wrapper_for_pair(w: Seq<(usize, usize)>, f: usize)
    ensures
        wrapper_for(w, f) matches Some(g) ==> exists|p: int| 0 <= p < w.len() && #[trigger] w[p] == (f, g),
    decreases w.len(),
{
    if w.len() > 0 && w[0].0 != f {
        lemma_wrapper_for_pair(w.drop_first(), f);
        if let Some(g) = wrapper_for(w, f) {
            let p = choose|p: int| 0 <= p < w.drop_first().len() && #[trigger] w.drop_first()[p] == (f, g);
            assert(w[p + 1] == (f, g));
        }
    }
}

/// Once the calls are rewritten, a function that is not itself a wrapper
/// calls no wrapped function directly, where no wrapper is wrapped in turn:
/// every call of the instruction `j` of sequence `s` of function `k` names
/// a function without a wrapper.
pub proof fn lemma_no_direct_calls(m: Module, m2: Module, w: Seq<(usize, usize)>, k: int, s: int, j: int)
    requires
        calls_rewritten(m, m2, w),
        forall|p: int| 0 <= p < w.len() ==> wrapper_for(w, (#[trigger] w[p]).1) is None,
        0 <= k < m2.funcs@.len(),
        !is_wrapper(w, k as usize),
        m2.funcs@[k].kind matches FunctionKind::Local(lf) && 0 <= s < lf.seqs@.len() && 0 <= j < lf.seqs@[s]@.len(),
    ensures
        m2.funcs@[k].kind matches FunctionKind::Local(lf) && (lf.seqs@[s]@[j] matches Instr::Call(f) ==> wrapper_for(
            w,
            f,
        ) is None) && (lf.seqs@[s]@[j] matches Instr::ReturnCall(f) ==> wrapper_for(w, f) is None),
{
    assert(func_redirected(w, k, m.funcs@[k], m2.funcs@[k]));
    if m.funcs@[k].kind is Local {
        let lf = m.funcs@[k].kind->Local_0;
        let lf2 = m2.funcs@[k].kind->Local_0;
        assert(lf2.seqs@[s]@ == lf.seqs@[s]@.map_values(|i: Instr| redirected(w, i)));
        let i = lf.seqs@[s]@[j];
        assert(lf2.seqs@[s]@[j] == redirected(w, i));
        match i {
            Instr::Call(f) | Instr::ReturnCall(f) => {
                lemma_wrapper_for_pair(w, f);
                if let Some(g) = wrapper_for(w, f) {
                    let p = choose|p: int| 0 <= p < w.len() && #[trigger] w[p] == (f, g);
                    assert(wrapper_for(w, w[p].1) is None);
                }
            },
            _ => {},
        }
    }
}

} // verus!
