//! A tiny and incomplete Wasm interpreter for descriptor functions.
//!
//! The `wasm-bindgen` macro generates "descriptor functions" which call a
//! known import, `__wbindgen_describe`, once per word of the description of
//! a type. Running such a function yields a list of `u32` words that is then
//! decoded into a `Descriptor`. The interpreter here runs exactly this kind
//! of function: calls, a little stack pointer arithmetic, loads and stores
//! to the stack, structured control flow and indirect calls through the
//! function table.
//!
//! The semantics is stated by the spec functions of this module
//! ([`eval_from`], [`step`], [`do_call`], [`call`], [`run_loop`]); the
//! executable interpreter is proved to compute exactly what they state.
//! Every run has a budget of steps, so that it always terminates.

use std::collections::BTreeMap;
use vstd::prelude::*;
use vstd::string::*;
use vstd::utf8::encode_utf8;
use crate::wasm_model::{
    BinaryOp, ConstExpr, ConstOp, ElementItems, ElementKind, ExportItem, FuncType, FunctionKind,
    GlobalKind, ImportKind, Instr, LoadKind, LocalFunction, Module, UnaryOp, ValType, Value,
};
use crate::strings::{bytes_have_prefix, slice_starts_with};

pub mod setup;

pub use self::setup::Interpreter;

verus! {

broadcast use vstd::laws_cmp::group_laws_cmp;

/// Why a descriptor function could not be interpreted.
#[derive(Debug, Clone, Copy, PartialEq, Eq, Structural)]
pub enum InterpretError {
    /// A call of a function that is not defined in the module.
    NotLocal { func: usize },
    /// A call with a number of arguments other than the callee's.
    ArgCount { func: usize },
    /// A function index out of range.
    UnknownFunction { func: usize },
    /// A type index out of range.
    UnknownType { ty: usize },
    /// An instruction sequence index out of range.
    UnknownSeq { seq: usize },
    /// A read of a global the interpreter does not track.
    UnknownGlobal { global: usize },
    /// An instruction that needs more values than the stack holds.
    StackUnderflow,
    /// A constant that is not an integer.
    NonIntegerConstant,
    /// A binary operation the interpreter does not know.
    InvalidBinaryOp,
    /// A unary operation the interpreter does not know.
    InvalidUnaryOp,
    /// A load or store at address zero (or a negative one).
    ZeroAddress,
    /// A load or store at an address that is not aligned.
    Misaligned { address: u32 },
    /// A load or store whose address does not fit in 32 bits.
    AddressOverflow,
    /// A load or store past the end of the interpreter's memory.
    OutOfBounds { address: u32 },
    /// A load of a width the interpreter does not handle.
    UnhandledLoad { width: u32 },
    /// A store of a width the interpreter does not handle.
    UnhandledStore { width: u32 },
    /// An instruction the interpreter does not know.
    UnknownInstruction,
    /// A call of an `invoke_*` trampoline without a function pointer.
    InvokeWithoutPointer,
    /// An `invoke_*` trampoline whose target is not in the function table.
    InvokeTargetMissing { index: i32 },
    /// An indirect call through an empty or missing table entry.
    TableEntryUnavailable { index: u32 },
    /// An indirect call whose callee has another type than the expected.
    IndirectTypeMismatch { index: u32 },
    /// The stack pointer differs after the run from its value before.
    StackPointerNotRestored,
    /// The step budget ran out.
    OutOfFuel,
    /// A read of a `GOT.func` global whose name is no exported function.
    UnresolvedGotFunc { global: usize },
    /// No table index is left for a `GOT.func` function.
    FunctionTableFull,
    /// `__wbindgen_skip_interpret_calls` is exported but is not a function.
    SkipInterpretNotFunction,
}

/// How the evaluation of an instruction sequence ended.
#[derive(Debug, Clone, Copy, PartialEq, Eq, Structural)]
pub enum Flow {
    /// It ran to its end.
    Normal,
    /// A branch to the given enclosing sequence.
    Branch(usize),
    /// The function returned.
    Return,
}

/// How a call instruction ended.
#[derive(Debug, Clone, Copy, PartialEq, Eq, Structural)]
pub enum CallOutcome {
    /// Execution goes on after the call.
    Continue,
    /// `__wbindgen_describe_cast` was called: the descriptor is complete.
    Stop,
}

/// The mutable state of a run.
pub struct Machine {
    /// Linear memory, as 32-bit words.
    pub mem: Vec<i32>,
    /// The value stack, shared by all frames.
    pub stack: Vec<i32>,
    /// The value of each tracked global, by global index.
    pub globals: Vec<Option<i32>>,
    /// The descriptor words emitted so far.
    pub descriptor: Vec<u32>,
    /// Whether `__wbindgen_describe_cast` ended the run.
    pub stopped: bool,
}

/// The plain value of a [`Machine`].
#[verifier::ext_equal]
pub struct MachineView {
    pub mem: Seq<i32>,
    pub stack: Seq<i32>,
    pub globals: Seq<Option<i32>>,
    pub descriptor: Seq<u32>,
    pub stopped: bool,
}

impl View for Machine {
    type V = MachineView;

    open spec fn view(&self) -> MachineView {
        MachineView {
            mem: self.mem@,
            stack: self.stack@,
            globals: self.globals@,
            descriptor: self.descriptor@,
            stopped: self.stopped,
        }
    }
}

/// What a run knows of the module beyond its state: the special imports,
/// the stack pointer and the function table.
pub struct InterpConfig {
    /// The `__wbindgen_describe` import.
    pub describe_id: Option<usize>,
    /// The `__wbindgen_describe_cast` import.
    pub describe_cast_id: Option<usize>,
    /// The `__stack_pointer` global.
    pub stack_pointer: Option<usize>,
    /// The value of the stack pointer when the run started.
    pub stack_pointer_initial: i32,
    /// Calls that are skipped (the constructors called by
    /// `__wbindgen_skip_interpret_calls`).
    pub skip_calls: Vec<usize>,
    /// The emscripten `invoke_*` trampolines.
    pub invoke_imports: Vec<usize>,
    /// The function table: index to function, or `None` for an entry
    /// cleared by a null element.
    pub funcref_table: BTreeMap<u32, Option<usize>>,
    /// Every index that has an entry in `funcref_table`.
    pub table_slots: Vec<u32>,
    /// The `GOT.func` globals whose name is no exported function.
    pub unresolved_got: Vec<usize>,
    /// How many steps a run may take before it is stopped.
    pub fuel: u64,
}

/// The result of evaluating part of a sequence: the new state, the new
/// locals, how it ended and the remaining budget.
pub type EvalResult = Result<(MachineView, Map<usize, i32>, Flow, nat), InterpretError>;

/// The result of a step: the new state and locals, `Some` flow when the
/// step leaves the sequence, and the remaining budget.
pub type StepResult = Result<(MachineView, Map<usize, i32>, Option<Flow>, nat), InterpretError>;

/// The budget left after a step, which never grows.
pub open spec fn clamp(left: nat, bound: nat) -> nat {
    if left <= bound { left } else { bound }
}

pub open spec fn with_stack(s: MachineView, stack: Seq<i32>) -> MachineView {
    MachineView { stack, ..s }
}

pub open spec fn push_value(s: MachineView, v: i32) -> MachineView {
    with_stack(s, s.stack.push(v))
}

pub open spec fn pop_value(s: MachineView) -> MachineView {
    with_stack(s, s.stack.drop_last())
}

/// A local's value; locals never set read as zero.
pub open spec fn local_value(l: Map<usize, i32>, x: usize) -> i32 {
    if l.contains_key(x) { l[x] } else { 0 }
}

/// The result of a binary operation, computed on 32-bit words.
pub open spec fn binop_value(op: BinaryOp, lhs: i32, rhs: i32) -> Option<i32> {
    match op {
        BinaryOp::Sub => Some(lhs.wrapping_sub(rhs)),
        BinaryOp::Add => Some(lhs.wrapping_add(rhs)),
        BinaryOp::And => Some(lhs & rhs),
        BinaryOp::Or => Some(lhs | rhs),
        BinaryOp::Xor => Some(lhs ^ rhs),
        BinaryOp::Shl => Some(((lhs as u32) << ((rhs as u32) & 31)) as i32),
        BinaryOp::Eq => Some(if lhs == rhs { 1 } else { 0 }),
        BinaryOp::Ne => Some(if lhs != rhs { 1 } else { 0 }),
        BinaryOp::LtU => Some(if (lhs as u32) < (rhs as u32) { 1 } else { 0 }),
        BinaryOp::LtS => Some(if lhs < rhs { 1 } else { 0 }),
        BinaryOp::GtU => Some(if (lhs as u32) > (rhs as u32) { 1 } else { 0 }),
        BinaryOp::GtS => Some(if lhs > rhs { 1 } else { 0 }),
        BinaryOp::LeU => Some(if (lhs as u32) <= (rhs as u32) { 1 } else { 0 }),
        BinaryOp::LeS => Some(if lhs <= rhs { 1 } else { 0 }),
        BinaryOp::GeU => Some(if (lhs as u32) >= (rhs as u32) { 1 } else { 0 }),
        BinaryOp::GeS => Some(if lhs >= rhs { 1 } else { 0 }),
        BinaryOp::Other => None,
    }
}

/// The result of a unary operation on a 32-bit word.
pub open spec fn unop_value(op: UnaryOp, v: i32) -> Option<i32> {
    match op {
        UnaryOp::WrapI64 => Some(v),
        UnaryOp::ExtendI32 => Some(v),
        UnaryOp::Eqz => Some(if v == 0 { 1 } else { 0 }),
        UnaryOp::Other => None,
    }
}

/// The width in bytes of a load.
pub open spec fn load_width(k: LoadKind) -> u32 {
    match k {
        LoadKind::I32Byte { .. } => 1,
        LoadKind::Width(w) => w,
    }
}

/// The effective address of a load or store, or why there is none: the
/// base and the offset (truncated to 32 bits) are added, and the sum must
/// fit in 32 bits, be positive, be aligned to the width (to 4 bytes for
/// wider accesses) and lie within the memory. The width is positive.
pub open spec fn effective_address(s: MachineView, base: i32, offset: u64, width: u32) -> Result<
    u32,
    InterpretError,
> {
    let sum = (base as u32) as nat + (offset as u32) as nat;
    if sum > u32::MAX {
        Err(InterpretError::AddressOverflow)
    } else if sum == 0 {
        Err(InterpretError::ZeroAddress)
    } else {
        let align: nat = if width < 4 { width as nat } else { 4 };
        if sum % align != 0 {
            Err(InterpretError::Misaligned { address: sum as u32 })
        } else if sum / 4 >= s.mem.len() {
            Err(InterpretError::OutOfBounds { address: sum as u32 })
        } else {
            Ok(sum as u32)
        }
    }
}

/// The byte at position `k` (little-endian) of a word.
pub open spec fn word_byte(w: i32, k: u32) -> u8 {
    ((w as u32) >> (8 * k)) as u8
}

/// The width checks and effective address of a load.
pub open spec fn load_address(s: MachineView, base: i32, offset: u64, kind: LoadKind) -> Result<u32, InterpretError> {
    if load_width(kind) == 0 {
        Err(InterpretError::UnhandledLoad { width: 0 })
    } else {
        effective_address(s, base, offset, load_width(kind))
    }
}

/// The width checks and effective address of a store.
pub open spec fn store_address(s: MachineView, base: i32, offset: u64, width: u32) -> Result<u32, InterpretError> {
    if width == 0 {
        Err(InterpretError::UnhandledStore { width: 0 })
    } else {
        effective_address(s, base, offset, width)
    }
}

/// A word with its byte at position `k` (little-endian) replaced.
pub open spec fn replace_byte(w: i32, k: u32, b: u8) -> i32 {
    (((w as u32) & !((0xffu32) << (8 * k))) | ((b as u32) << (8 * k))) as i32
}

/// The value a load pushes, given the word it reads.
pub open spec fn loaded_value(kind: LoadKind, address: u32, word: i32) -> Result<i32, InterpretError> {
    match kind {
        LoadKind::I32Byte { sign_extend } => {
            let b = word_byte(word, address % 4);
            if sign_extend {
                Ok((b as i8) as i32)
            } else {
                Ok(b as i32)
            }
        },
        LoadKind::Width(w) => if w == 4 || w == 8 {
            Ok(word)
        } else {
            Err(InterpretError::UnhandledLoad { width: w })
        },
    }
}

/// The memory after a store of `value` at `address`.
pub open spec fn stored_memory(mem: Seq<i32>, width: u32, address: u32, value: i32) -> Result<
    Seq<i32>,
    InterpretError,
> {
    let index = (address / 4) as int;
    if width == 8 {
        if index + 1 >= mem.len() {
            Err(InterpretError::OutOfBounds { address })
        } else {
            Ok(mem.update(index, value).update(index + 1, 0))
        }
    } else if width == 4 {
        Ok(mem.update(index, value))
    } else if width == 1 {
        Ok(mem.update(index, replace_byte(mem[index], address % 4, value as u8)))
    } else {
        Err(InterpretError::UnhandledStore { width })
    }
}

/// The function table entry at `index`, if it holds a function.
pub open spec fn table_entry(c: InterpConfig, index: u32) -> Option<usize> {
    if c.funcref_table@.contains_key(index) {
        c.funcref_table@[index]
    } else {
        None
    }
}

/// Whether two function types are the same.
pub open spec fn same_type(a: FuncType, b: FuncType) -> bool {
    a.params@ == b.params@ && a.results@ == b.results@
}

/// The number of parameters of function `f`, if its type is known.
pub open spec fn param_count(m: Module, f: usize) -> Option<nat> {
    if f < m.funcs@.len() && m.funcs@[f as int].ty < m.types@.len() {
        Some(m.types@[m.funcs@[f as int].ty as int].params@.len())
    } else {
        None
    }
}

/// Whether calls of `f` are skipped because it is a profiler helper.
pub open spec fn is_profiler_helper(m: Module, f: usize) -> bool {
    f < m.funcs@.len() && match m.funcs@[f as int].name {
        Some(n) => bytes_have_prefix(encode_utf8(n@), encode_utf8("__llvm_profile_init"@))
            || bytes_have_prefix(encode_utf8(n@), encode_utf8("__llvm_profile_register_function"@)),
        None => false,
    }
}

/// Locals bound to the arguments of a call: argument `k` goes to local
/// `ids[k]`; a later argument wins over an earlier one for the same local.
pub open spec fn bind_args(ids: Seq<usize>, vals: Seq<i32>) -> Map<usize, i32>
    decreases ids.len(),
{
    if ids.len() == 0 || vals.len() == 0 {
        Map::empty()
    } else {
        bind_args(ids.drop_last(), vals.drop_last()).insert(ids.last(), vals.last())
    }
}

/// Evaluates the instructions of sequence `seq` of `lf` from index `i` on,
/// with the budget `fuel`. Before each instruction the run stops if
/// `__wbindgen_describe_cast` ended it; each instruction costs one step.
pub open spec fn eval_from(
    m: Module,
    c: InterpConfig,
    lf: LocalFunction,
    s: MachineView,
    l: Map<usize, i32>,
    seq: usize,
    i: nat,
    fuel: nat,
) -> EvalResult
    decreases fuel, 0nat,
{
    if seq >= lf.seqs@.len() {
        Err(InterpretError::UnknownSeq { seq })
    } else {
        let instrs = lf.seqs@[seq as int]@;
        if i >= instrs.len() || s.stopped {
            Ok((s, l, Flow::Normal, fuel))
        } else if fuel == 0 {
            Err(InterpretError::OutOfFuel)
        } else {
            match step(m, c, lf, s, l, instrs[i as int], (fuel - 1) as nat) {
                Err(e) => Err(e),
                Ok((s2, l2, Some(flow), f2)) => Ok((s2, l2, flow, clamp(f2, (fuel - 1) as nat))),
                Ok((s2, l2, None, f2)) => eval_from(
                    m,
                    c,
                    lf,
                    s2,
                    l2,
                    seq,
                    i + 1,
                    clamp(f2, (fuel - 1) as nat),
                ),
            }
        }
    }
}

/// How a nested sequence (a block, a `try`, a branch of an `if`) ends for
/// the enclosing one: a branch to the nested sequence itself, or running
/// to its end, goes on after it; anything else leaves the enclosing
/// sequence too.
pub open spec fn nested_result(r: EvalResult, seq: usize) -> StepResult {
    match r {
        Err(e) => Err(e),
        Ok((s2, l2, flow, f2)) => match flow {
            Flow::Branch(t) => if t == seq {
                Ok((s2, l2, None, f2))
            } else {
                Ok((s2, l2, Some(flow), f2))
            },
            Flow::Normal => Ok((s2, l2, None, f2)),
            Flow::Return => Ok((s2, l2, Some(flow), f2)),
        },
    }
}

/// Runs the body of a loop: a branch back to the loop runs it again, unless
/// the run was stopped; running off its end leaves the loop.
pub open spec fn run_loop(
    m: Module,
    c: InterpConfig,
    lf: LocalFunction,
    s: MachineView,
    l: Map<usize, i32>,
    seq: usize,
    fuel: nat,
) -> StepResult
    decreases fuel, 2nat,
{
    match eval_from(m, c, lf, s, l, seq, 0, fuel) {
        Err(e) => Err(e),
        Ok((s2, l2, flow, f2)) => match flow {
            Flow::Branch(t) => if t == seq {
                if s2.stopped {
                    Ok((s2, l2, Some(Flow::Normal), f2))
                } else if fuel == 0 {
                    Err(InterpretError::OutOfFuel)
                } else {
                    run_loop(m, c, lf, s2, l2, seq, clamp(f2, (fuel - 1) as nat))
                }
            } else {
                Ok((s2, l2, Some(flow), f2))
            },
            Flow::Normal => Ok((s2, l2, None, f2)),
            Flow::Return => Ok((s2, l2, Some(flow), f2)),
        },
    }
}

/// How a call instruction continues after the callee.
pub open spec fn after_call(
    r: Result<(MachineView, CallOutcome, nat), InterpretError>,
    l: Map<usize, i32>,
    tail: bool,
) -> StepResult {
    match r {
        Err(e) => Err(e),
        Ok((s2, CallOutcome::Stop, f2)) => Ok((s2, l, Some(Flow::Normal), f2)),
        Ok((s2, CallOutcome::Continue, f2)) => if tail {
            Ok((s2, l, Some(Flow::Return), f2))
        } else {
            Ok((s2, l, None, f2))
        },
    }
}

/// The callee of an indirect call through table entry `index` with the
/// expected type `ty`, or why there is none.
pub open spec fn indirect_target(m: Module, c: InterpConfig, index: u32, ty: usize) -> Result<
    usize,
    InterpretError,
> {
    match table_entry(c, index) {
        None => Err(InterpretError::TableEntryUnavailable { index }),
        Some(target) => if target >= m.funcs@.len() {
            Err(InterpretError::UnknownFunction { func: target })
        } else if m.funcs@[target as int].ty >= m.types@.len() {
            Err(InterpretError::UnknownType { ty: m.funcs@[target as int].ty })
        } else if ty >= m.types@.len() {
            Err(InterpretError::UnknownType { ty })
        } else if !same_type(m.types@[m.funcs@[target as int].ty as int], m.types@[ty as int]) {
            Err(InterpretError::IndirectTypeMismatch { index })
        } else {
            Ok(target)
        },
    }
}

/// Executes one instruction with the budget `fuel`.
pub open spec fn step(
    m: Module,
    c: InterpConfig,
    lf: LocalFunction,
    s: MachineView,
    l: Map<usize, i32>,
    instr: Instr,
    fuel: nat,
) -> StepResult
    decreases fuel, 3nat,
{
    let n = s.stack.len();
    match instr {
        Instr::Const(v) => match v {
            Value::I32(x) => Ok((push_value(s, x), l, None, fuel)),
            Value::I64(x) => Ok((push_value(s, x as i32), l, None, fuel)),
            _ => Err(InterpretError::NonIntegerConstant),
        },
        Instr::LocalGet(x) => Ok((push_value(s, local_value(l, x)), l, None, fuel)),
        Instr::LocalSet(x) => if n == 0 {
            Err(InterpretError::StackUnderflow)
        } else {
            Ok((pop_value(s), l.insert(x, s.stack.last()), None, fuel))
        },
        Instr::LocalTee(x) => if n == 0 {
            Err(InterpretError::StackUnderflow)
        } else {
            Ok((s, l.insert(x, s.stack.last()), None, fuel))
        },
        Instr::GlobalGet(g) => if g < s.globals.len() && s.globals[g as int] is Some {
            Ok((push_value(s, s.globals[g as int]->Some_0), l, None, fuel))
        } else if c.unresolved_got@.contains(g) {
            Err(InterpretError::UnresolvedGotFunc { global: g })
        } else {
            Err(InterpretError::UnknownGlobal { global: g })
        },
        Instr::GlobalSet(g) => if n == 0 {
            Err(InterpretError::StackUnderflow)
        } else if g >= s.globals.len() {
            Err(InterpretError::UnknownGlobal { global: g })
        } else {
            Ok(
                (
                    MachineView {
                        stack: s.stack.drop_last(),
                        globals: s.globals.update(g as int, Some(s.stack.last())),
                        ..s
                    },
                    l,
                    None,
                    fuel,
                ),
            )
        },
        Instr::Binop(op) => if n < 2 {
            Err(InterpretError::StackUnderflow)
        } else {
            match binop_value(op, s.stack[n - 2], s.stack[n - 1]) {
                None => Err(InterpretError::InvalidBinaryOp),
                Some(v) => Ok((with_stack(s, s.stack.subrange(0, n - 2).push(v)), l, None, fuel)),
            }
        },
        Instr::Unop(op) => if n == 0 {
            Err(InterpretError::StackUnderflow)
        } else {
            match unop_value(op, s.stack.last()) {
                None => Err(InterpretError::InvalidUnaryOp),
                Some(v) => Ok((push_value(pop_value(s), v), l, None, fuel)),
            }
        },
        Instr::Load { kind, offset } => if n == 0 {
            Err(InterpretError::StackUnderflow)
        } else {
            match load_address(s, s.stack.last(), offset, kind) {
                Err(e) => Err(e),
                Ok(a) => match loaded_value(kind, a, s.mem[(a / 4) as int]) {
                    Err(e) => Err(e),
                    Ok(v) => Ok((push_value(pop_value(s), v), l, None, fuel)),
                },
            }
        },
        Instr::Store { width, offset } => if n < 2 {
            Err(InterpretError::StackUnderflow)
        } else {
            match store_address(s, s.stack[n - 2], offset, width) {
                Err(e) => Err(e),
                Ok(a) => match stored_memory(s.mem, width, a, s.stack[n - 1]) {
                    Err(e) => Err(e),
                    Ok(mem) => Ok(
                        (MachineView { mem, stack: s.stack.subrange(0, n - 2), ..s }, l, None, fuel),
                    ),
                },
            }
        },
        Instr::Return => Ok((s, l, Some(Flow::Return), fuel)),
        Instr::Drop => if n == 0 {
            Err(InterpretError::StackUnderflow)
        } else {
            Ok((pop_value(s), l, None, fuel))
        },
        Instr::Call(f) => after_call(do_call(m, c, s, f, fuel), l, false),
        Instr::ReturnCall(f) => after_call(do_call(m, c, s, f, fuel), l, true),
        Instr::CallIndirect(ty) => if n == 0 {
            Err(InterpretError::StackUnderflow)
        } else {
            match indirect_target(m, c, s.stack.last() as u32, ty) {
                Err(e) => Err(e),
                Ok(target) => after_call(do_call(m, c, pop_value(s), target, fuel), l, false),
            }
        },
        Instr::ReturnCallIndirect(ty) => if n == 0 {
            Err(InterpretError::StackUnderflow)
        } else {
            match indirect_target(m, c, s.stack.last() as u32, ty) {
                Err(e) => Err(e),
                Ok(target) => after_call(do_call(m, c, pop_value(s), target, fuel), l, true),
            }
        },
        Instr::Block(b) => nested_result(eval_from(m, c, lf, s, l, b, 0, fuel), b),
        Instr::Try(b) => nested_result(eval_from(m, c, lf, s, l, b, 0, fuel), b),
        Instr::TryTable(b, _) => nested_result(eval_from(m, c, lf, s, l, b, 0, fuel), b),
        Instr::Loop(b) => run_loop(m, c, lf, s, l, b, fuel),
        Instr::IfElse(yes, no) => if n == 0 {
            Err(InterpretError::StackUnderflow)
        } else {
            let target = if s.stack.last() != 0 { yes } else { no };
            nested_result(eval_from(m, c, lf, pop_value(s), l, target, 0, fuel), target)
        },
        Instr::Br(t) => Ok((s, l, Some(Flow::Branch(t)), fuel)),
        Instr::BrIf(t) => if n == 0 {
            Err(InterpretError::StackUnderflow)
        } else if s.stack.last() != 0 {
            Ok((pop_value(s), l, Some(Flow::Branch(t)), fuel))
        } else {
            Ok((pop_value(s), l, None, fuel))
        },
        Instr::BrTable(blocks, default) => if n == 0 {
            Err(InterpretError::StackUnderflow)
        } else {
            let idx = s.stack.last();
            let target = if 0 <= idx && idx < blocks@.len() {
                blocks@[idx as int]
            } else {
                default
            };
            Ok((pop_value(s), l, Some(Flow::Branch(target)), fuel))
        },
        Instr::Select => if n < 3 {
            Err(InterpretError::StackUnderflow)
        } else {
            let v = if s.stack[n - 1] != 0 { s.stack[n - 3] } else { s.stack[n - 2] };
            Ok((with_stack(s, s.stack.subrange(0, n - 3).push(v)), l, None, fuel))
        },
        Instr::MemoryDiscard(_) | Instr::MemoryCopy { .. } | Instr::ThrowRef | Instr::Unreachable | Instr::Unsupported => Err(InterpretError::UnknownInstruction),
    }
}

/// A call instruction of function `f`: a call of `__wbindgen_describe`
/// emits the word on top of the stack; a call of
/// `__wbindgen_describe_cast` restores the stack pointer and stops the
/// run; skipped constructors and profiler helpers do nothing; an
/// `invoke_*` trampoline calls the function its first argument points to
/// in the function table with the remaining arguments; any other function
/// is called with the arguments on top of the stack.
pub open spec fn do_call(m: Module, c: InterpConfig, s: MachineView, f: usize, fuel: nat) -> Result<
    (MachineView, CallOutcome, nat),
    InterpretError,
>
    decreases fuel, 2nat,
{
    if c.describe_id == Some(f) {
        if s.stack.len() == 0 {
            Err(InterpretError::StackUnderflow)
        } else {
            Ok(
                (
                    MachineView {
                        stack: s.stack.drop_last(),
                        descriptor: s.descriptor.push(s.stack.last() as u32),
                        ..s
                    },
                    CallOutcome::Continue,
                    fuel,
                ),
            )
        }
    } else if c.describe_cast_id == Some(f) {
        let globals = match c.stack_pointer {
            Some(sp) => if sp < s.globals.len() {
                s.globals.update(sp as int, Some(c.stack_pointer_initial))
            } else {
                s.globals
            },
            None => s.globals,
        };
        Ok((MachineView { globals, stopped: true, ..s }, CallOutcome::Stop, fuel))
    } else if c.skip_calls@.contains(f) || is_profiler_helper(m, f) {
        Ok((s, CallOutcome::Continue, fuel))
    } else {
        match param_count(m, f) {
            None => Err(InterpretError::UnknownFunction { func: f }),
            Some(k) => if s.stack.len() < k {
                Err(InterpretError::StackUnderflow)
            } else {
                let args = s.stack.subrange(s.stack.len() - k, s.stack.len() as int);
                let s1 = with_stack(s, s.stack.subrange(0, s.stack.len() - k));
                if c.invoke_imports@.contains(f) {
                    if k == 0 {
                        Err(InterpretError::InvokeWithoutPointer)
                    } else {
                        match table_entry(c, args[0] as u32) {
                            None => Err(InterpretError::InvokeTargetMissing { index: args[0] }),
                            Some(t) => match call(m, c, s1, t, args.drop_first(), fuel) {
                                Err(e) => Err(e),
                                Ok((s2, f2)) => Ok((s2, CallOutcome::Continue, f2)),
                            },
                        }
                    }
                } else {
                    match call(m, c, s1, f, args, fuel) {
                        Err(e) => Err(e),
                        Ok((s2, f2)) => Ok((s2, CallOutcome::Continue, f2)),
                    }
                }
            },
        }
    }
}

/// Calls the locally defined function `f` with the given arguments: its
/// body runs in a fresh frame whose argument locals hold the arguments.
pub open spec fn call(
    m: Module,
    c: InterpConfig,
    s: MachineView,
    f: usize,
    args: Seq<i32>,
    fuel: nat,
) -> Result<(MachineView, nat), InterpretError>
    decreases fuel, 1nat,
{
    if f >= m.funcs@.len() {
        Err(InterpretError::UnknownFunction { func: f })
    } else {
        match m.funcs@[f as int].kind {
            FunctionKind::Local(lf) => if lf.args@.len() != args.len() {
                Err(InterpretError::ArgCount { func: f })
            } else {
                match eval_from(m, c, lf, s, bind_args(lf.args@, args), lf.entry, 0, fuel) {
                    Err(e) => Err(e),
                    Ok((s2, _, _, f2)) => Ok((s2, f2)),
                }
            },
            _ => Err(InterpretError::NotLocal { func: f }),
        }
    }
}

} // verus!

verus! {

/// The number of steps a run may take unless the caller sets another
/// bound (see `Interpreter::set_fuel`): the largest count of steps, so
/// that by default a run ends only when the descriptor function does.
pub const DEFAULT_FUEL: u64 = 18_446_744_073_709_551_615;

fn opt_is(o: Option<usize>, f: usize) -> (r: bool)
    ensures
        r == (o == Some(f)),
{
    match o {
        Some(x) => x == f,
        None => false,
    }
}

pub(crate) fn vec_contains(v: &Vec<usize>, x: usize) -> (r: bool)
    ensures
        r == v@.contains(x),
{
    let mut i: usize = 0;
    while i < v.len()
        invariant
            i <= v@.len(),
            forall|k: int| 0 <= k < i ==> v@[k] != x,
        decreases v@.len() - i,
    {
        if v[i] == x {
            assert(v@[i as int] == x);
            return true;
        }
        i = i + 1;
    }
    false
}

pub(crate) fn exec_table_entry(c: &InterpConfig, index: u32) -> (r: Option<usize>)
    ensures
        r == table_entry(*c, index),
{
    match c.funcref_table.get(&index) {
        Some(e) => *e,
        None => None,
    }
}

fn exec_same_type(a: &FuncType, b: &FuncType) -> (r: bool)
    ensures
        r == same_type(*a, *b),
{
    if a.params.len() != b.params.len() || a.results.len() != b.results.len() {
        return false;
    }
    let mut i: usize = 0;
    while i < a.params.len()
        invariant
            a.params@.len() == b.params@.len(),
            i <= a.params@.len(),
            forall|k: int| 0 <= k < i ==> a.params@[k] == b.params@[k],
        decreases a.params@.len() - i,
    {
        if a.params[i] != b.params[i] {
            return false;
        }
        i = i + 1;
    }
    let mut j: usize = 0;
    while j < a.results.len()
        invariant
            a.results@.len() == b.results@.len(),
            j <= a.results@.len(),
            forall|k: int| 0 <= k < j ==> a.results@[k] == b.results@[k],
        decreases a.results@.len() - j,
    {
        if a.results[j] != b.results[j] {
            return false;
        }
        j = j + 1;
    }
    assert(a.params@ =~= b.params@);
    assert(a.results@ =~= b.results@);
    true
}

pub(crate) fn exec_param_count(m: &Module, f: usize) -> (r: Option<usize>)
    ensures
        r is Some <==> param_count(*m, f) is Some,
        r is Some ==> r->Some_0 as nat == param_count(*m, f)->Some_0,
{
    if f < m.funcs.len() && m.funcs[f].ty < m.types.len() {
        Some(m.types[m.funcs[f].ty].params.len())
    } else {
        None
    }
}

fn exec_is_profiler_helper(m: &Module, f: usize) -> (r: bool)
    ensures
        r == is_profiler_helper(*m, f),
{
    if f >= m.funcs.len() {
        return false;
    }
    match &m.funcs[f].name {
        Some(n) => {
            let b = n.as_str().as_bytes();
            slice_starts_with(b, "__llvm_profile_init".as_bytes()) || slice_starts_with(
                b,
                "__llvm_profile_register_function".as_bytes(),
            )
        },
        None => false,
    }
}

fn exec_indirect_target(m: &Module, c: &InterpConfig, index: u32, ty: usize) -> (r: Result<
    usize,
    InterpretError,
>)
    ensures
        r == indirect_target(*m, *c, index, ty),
{
    match exec_table_entry(c, index) {
        None => Err(InterpretError::TableEntryUnavailable { index }),
        Some(target) => {
            if target >= m.funcs.len() {
                Err(InterpretError::UnknownFunction { func: target })
            } else if m.funcs[target].ty >= m.types.len() {
                Err(InterpretError::UnknownType { ty: m.funcs[target].ty })
            } else if ty >= m.types.len() {
                Err(InterpretError::UnknownType { ty })
            } else if !exec_same_type(&m.types[m.funcs[target].ty], &m.types[ty]) {
                Err(InterpretError::IndirectTypeMismatch { index })
            } else {
                Ok(target)
            }
        },
    }
}

fn exec_effective_address(st: &Machine, base: i32, offset: u64, width: u32) -> (r: Result<
    u32,
    InterpretError,
>)
    requires
        width > 0,
    ensures
        r == effective_address(st@, base, offset, width),
{
    let b = base as u32;
    let o = offset as u32;
    if b > u32::MAX - o {
        return Err(InterpretError::AddressOverflow);
    }
    let sum = b + o;
    if sum == 0 {
        return Err(InterpretError::ZeroAddress);
    }
    let align: u32 = if width < 4 { width } else { 4 };
    if sum % align != 0 {
        return Err(InterpretError::Misaligned { address: sum });
    }
    if (sum / 4) as usize >= st.mem.len() {
        return Err(InterpretError::OutOfBounds { address: sum });
    }
    Ok(sum)
}

fn exec_word_byte(w: i32, k: u32) -> (r: u8)
    requires
        k < 4,
    ensures
        r == word_byte(w, k),
{
    assert(8 * k < 32);
    ((w as u32) >> (8 * k)) as u8
}

fn exec_replace_byte(w: i32, k: u32, b: u8) -> (r: i32)
    requires
        k < 4,
    ensures
        r == replace_byte(w, k, b),
{
    assert(8 * k < 32);
    (((w as u32) & !((0xffu32) << (8 * k))) | ((b as u32) << (8 * k))) as i32
}

fn exec_binop(op: BinaryOp, lhs: i32, rhs: i32) -> (r: Option<i32>)
    ensures
        r == binop_value(op, lhs, rhs),
{
    match op {
        BinaryOp::Sub => Some(lhs.wrapping_sub(rhs)),
        BinaryOp::Add => Some(lhs.wrapping_add(rhs)),
        BinaryOp::And => Some(lhs & rhs),
        BinaryOp::Or => Some(lhs | rhs),
        BinaryOp::Xor => Some(lhs ^ rhs),
        BinaryOp::Shl => {
            let amount = (rhs as u32) & 31;
            assert(((rhs as u32) & 31) < 32) by (bit_vector);
            Some(((lhs as u32) << amount) as i32)
        },
        BinaryOp::Eq => Some(if lhs == rhs { 1 } else { 0 }),
        BinaryOp::Ne => Some(if lhs != rhs { 1 } else { 0 }),
        BinaryOp::LtU => Some(if (lhs as u32) < (rhs as u32) { 1 } else { 0 }),
        BinaryOp::LtS => Some(if lhs < rhs { 1 } else { 0 }),
        BinaryOp::GtU => Some(if (lhs as u32) > (rhs as u32) { 1 } else { 0 }),
        BinaryOp::GtS => Some(if lhs > rhs { 1 } else { 0 }),
        BinaryOp::LeU => Some(if (lhs as u32) <= (rhs as u32) { 1 } else { 0 }),
        BinaryOp::LeS => Some(if lhs <= rhs { 1 } else { 0 }),
        BinaryOp::GeU => Some(if (lhs as u32) >= (rhs as u32) { 1 } else { 0 }),
        BinaryOp::GeS => Some(if lhs >= rhs { 1 } else { 0 }),
        BinaryOp::Other => None,
    }
}

fn exec_unop(op: UnaryOp, v: i32) -> (r: Option<i32>)
    ensures
        r == unop_value(op, v),
{
    match op {
        UnaryOp::WrapI64 => Some(v),
        UnaryOp::ExtendI32 => Some(v),
        UnaryOp::Eqz => Some(if v == 0 { 1 } else { 0 }),
        UnaryOp::Other => None,
    }
}

fn exec_loaded_value(kind: LoadKind, address: u32, word: i32) -> (r: Result<i32, InterpretError>)
    ensures
        r == loaded_value(kind, address, word),
{
    match kind {
        LoadKind::I32Byte { sign_extend } => {
            let b = exec_word_byte(word, address % 4);
            if sign_extend {
                Ok((b as i8) as i32)
            } else {
                Ok(b as i32)
            }
        },
        LoadKind::Width(w) => if w == 4 || w == 8 {
            Ok(word)
        } else {
            Err(InterpretError::UnhandledLoad { width: w })
        },
    }
}

/// Stores `value` at `address` (already checked to be in bounds).
fn exec_store(st: &mut Machine, width: u32, address: u32, value: i32) -> (r: Result<
    (),
    InterpretError,
>)
    requires
        (address / 4) < old(st).mem@.len(),
    ensures
        match stored_memory(old(st).mem@, width, address, value) {
            Ok(mem) => r is Ok && final(st)@ == MachineView { mem, ..old(st)@ },
            Err(e) => r == Err::<(), InterpretError>(e),
        },
{
    let index = (address / 4) as usize;
    if width == 8 {
        if index + 1 >= st.mem.len() {
            return Err(InterpretError::OutOfBounds { address });
        }
        st.mem.set(index, value);
        st.mem.set(index + 1, 0);
        Ok(())
    } else if width == 4 {
        st.mem.set(index, value);
        Ok(())
    } else if width == 1 {
        let old_word = st.mem[index];
        st.mem.set(index, exec_replace_byte(old_word, address % 4, value as u8));
        Ok(())
    } else {
        Err(InterpretError::UnhandledStore { width })
    }
}

} // verus!

verus! {

/// The outcome of a step as the executable interpreter reports it.
pub type ExecStep = Result<(Option<Flow>, u64), InterpretError>;

/// Whether an executable step result is the one the semantics states.
pub open spec fn step_matches(
    spec_r: StepResult,
    r: ExecStep,
    s: MachineView,
    l: Map<usize, i32>,
) -> bool {
    match spec_r {
        Ok((s2, l2, flow, f2)) => r matches Ok((fl, f)) && fl == flow && f as nat == f2 && s == s2
            && l == l2,
        Err(e) => r == Err::<(Option<Flow>, u64), InterpretError>(e),
    }
}

/// Whether an executable evaluation result is the one the semantics
/// states.
pub open spec fn eval_matches(
    spec_r: EvalResult,
    r: Result<(Flow, u64), InterpretError>,
    s: MachineView,
    l: Map<usize, i32>,
) -> bool {
    match spec_r {
        Ok((s2, l2, flow, f2)) => r matches Ok((fl, f)) && fl == flow && f as nat == f2 && s == s2
            && l == l2,
        Err(e) => r == Err::<(Flow, u64), InterpretError>(e),
    }
}

fn exec_after_call(
    r: Result<(CallOutcome, u64), InterpretError>,
    tail: bool,
) -> (out: ExecStep)
    ensures
        match r {
            Err(e) => out == Err::<(Option<Flow>, u64), InterpretError>(e),
            Ok((CallOutcome::Stop, f2)) => out == Ok::<(Option<Flow>, u64), InterpretError>((Some(Flow::Normal), f2)),
            Ok((CallOutcome::Continue, f2)) => out == Ok::<(Option<Flow>, u64), InterpretError>((if tail { Some(Flow::Return) } else { None }, f2)),
        },
{
    match r {
        Err(e) => Err(e),
        Ok((CallOutcome::Stop, f2)) => Ok((Some(Flow::Normal), f2)),
        Ok((CallOutcome::Continue, f2)) => if tail {
            Ok((Some(Flow::Return), f2))
        } else {
            Ok((None, f2))
        },
    }
}

fn exec_nested(r: Result<(Flow, u64), InterpretError>, seq: usize) -> (out: ExecStep)
    ensures
        match r {
            Err(e) => out == Err::<(Option<Flow>, u64), InterpretError>(e),
            Ok((flow, f2)) => out == Ok::<(Option<Flow>, u64), InterpretError>((
                match flow {
                    Flow::Branch(t) => if t == seq { None } else { Some(flow) },
                    Flow::Normal => None,
                    Flow::Return => Some(flow),
                },
                f2,
            )),
        },
{
    match r {
        Err(e) => Err(e),
        Ok((flow, f2)) => match flow {
            Flow::Branch(t) => if t == seq {
                Ok((None, f2))
            } else {
                Ok((Some(flow), f2))
            },
            Flow::Normal => Ok((None, f2)),
            Flow::Return => Ok((Some(flow), f2)),
        },
    }
}

/// Executes one instruction.
fn exec_step(
    m: &Module,
    c: &InterpConfig,
    lf: &LocalFunction,
    st: &mut Machine,
    locals: &mut BTreeMap<usize, i32>,
    instr: &Instr,
    fuel: u64,
) -> (r: ExecStep)
    ensures
        step_matches(step(*m, *c, *lf, old(st)@, old(locals)@, *instr, fuel as nat), r, final(st)@, final(locals)@),
    decreases fuel, 4nat,
{
    match instr {
        Instr::Load { .. } | Instr::Store { .. } => exec_memory_step(m, c, lf, st, locals, instr, fuel),
        Instr::Call(_) | Instr::ReturnCall(_) | Instr::CallIndirect(_) | Instr::ReturnCallIndirect(_) => {
            exec_call_step(m, c, lf, st, locals, instr, fuel)
        },
        Instr::Block(_) | Instr::Try(_) | Instr::TryTable(_, _) | Instr::Loop(_) | Instr::IfElse(_, _) => {
            exec_nested_step(m, c, lf, st, locals, instr, fuel)
        },
        _ => exec_plain_step(m, c, lf, st, locals, instr, fuel),
    }
}

/// Executes an instruction that only moves values between the stack, the locals and the globals, or leaves the sequence.
fn exec_plain_step(
    m: &Module,
    c: &InterpConfig,
    lf: &LocalFunction,
    st: &mut Machine,
    locals: &mut BTreeMap<usize, i32>,
    instr: &Instr,
    fuel: u64,
) -> (r: ExecStep)
    requires
        !(*instr is Load || *instr is Store || *instr is Call || *instr is ReturnCall || *instr is CallIndirect
            || *instr is ReturnCallIndirect || *instr is Block || *instr is Try || *instr is TryTable
            || *instr is Loop || *instr is IfElse),
    ensures
        step_matches(step(*m, *c, *lf, old(st)@, old(locals)@, *instr, fuel as nat), r, final(st)@, final(locals)@),
{
    let ghost s0 = st@;
    let n = st.stack.len();
    match instr {
        Instr::Const(v) => match v {
            Value::I32(x) => {
                st.stack.push(*x);
                Ok((None, fuel))
            },
            Value::I64(x) => {
                st.stack.push(*x as i32);
                Ok((None, fuel))
            },
            _ => Err(InterpretError::NonIntegerConstant),
        },
        Instr::LocalGet(x) => {
            let v = match locals.get(x) {
                Some(v) => *v,
                None => 0,
            };
            st.stack.push(v);
            Ok((None, fuel))
        },
        Instr::LocalSet(x) => {
            match st.stack.pop() {
                None => Err(InterpretError::StackUnderflow),
                Some(v) => {
                    locals.insert(*x, v);
                    Ok((None, fuel))
                },
            }
        },
        Instr::LocalTee(x) => {
            if n == 0 {
                return Err(InterpretError::StackUnderflow);
            }
            let v = st.stack[n - 1];
            locals.insert(*x, v);
            Ok((None, fuel))
        },
        Instr::GlobalGet(g) => {
            if *g < st.globals.len() {
                match st.globals[*g] {
                    Some(v) => {
                        st.stack.push(v);
                        return Ok((None, fuel));
                    },
                    None => {},
                }
            }
            if vec_contains(&c.unresolved_got, *g) {
                Err(InterpretError::UnresolvedGotFunc { global: *g })
            } else {
                Err(InterpretError::UnknownGlobal { global: *g })
            }
        },
        Instr::GlobalSet(g) => {
            if n == 0 {
                return Err(InterpretError::StackUnderflow);
            }
            if *g >= st.globals.len() {
                return Err(InterpretError::UnknownGlobal { global: *g });
            }
            let v = st.stack.pop().unwrap();
            st.globals.set(*g, Some(v));
            Ok((None, fuel))
        },
        Instr::Binop(op) => {
            if n < 2 {
                return Err(InterpretError::StackUnderflow);
            }
            let rhs = st.stack[n - 1];
            let lhs = st.stack[n - 2];
            match exec_binop(*op, lhs, rhs) {
                None => Err(InterpretError::InvalidBinaryOp),
                Some(v) => {
                    st.stack.pop();
                    st.stack.pop();
                    st.stack.push(v);
                    proof {
                        assert(st.stack@ =~= s0.stack.subrange(0, n - 2).push(v));
                    }
                    Ok((None, fuel))
                },
            }
        },
        Instr::Unop(op) => {
            if n == 0 {
                return Err(InterpretError::StackUnderflow);
            }
            match exec_unop(*op, st.stack[n - 1]) {
                None => Err(InterpretError::InvalidUnaryOp),
                Some(v) => {
                    st.stack.pop();
                    st.stack.push(v);
                    Ok((None, fuel))
                },
            }
        },
        Instr::Return => Ok((Some(Flow::Return), fuel)),
        Instr::Drop => {
            match st.stack.pop() {
                None => Err(InterpretError::StackUnderflow),
                Some(_) => Ok((None, fuel)),
            }
        },
        Instr::Br(t) => Ok((Some(Flow::Branch(*t)), fuel)),
        Instr::BrIf(t) => {
            match st.stack.pop() {
                None => Err(InterpretError::StackUnderflow),
                Some(cond) => if cond != 0 {
                    Ok((Some(Flow::Branch(*t)), fuel))
                } else {
                    Ok((None, fuel))
                },
            }
        },
        Instr::BrTable(blocks, default) => {
            match st.stack.pop() {
                None => Err(InterpretError::StackUnderflow),
                Some(idx) => {
                    let target = if 0 <= idx && (idx as usize) < blocks.len() {
                        blocks[idx as usize]
                    } else {
                        *default
                    };
                    Ok((Some(Flow::Branch(target)), fuel))
                },
            }
        },
        Instr::Select => {
            if n < 3 {
                return Err(InterpretError::StackUnderflow);
            }
            let cond = st.stack[n - 1];
            let v = if cond != 0 { st.stack[n - 3] } else { st.stack[n - 2] };
            st.stack.pop();
            st.stack.pop();
            st.stack.pop();
            st.stack.push(v);
            proof {
                assert(st.stack@ =~= s0.stack.subrange(0, n - 3).push(v));
            }
            Ok((None, fuel))
        },
        Instr::MemoryDiscard(_) | Instr::MemoryCopy { .. } | Instr::ThrowRef | Instr::Unreachable | Instr::Unsupported => Err(InterpretError::UnknownInstruction),
        _ => Err(InterpretError::UnknownInstruction),
    }
}

/// Executes a load or a store.
fn exec_memory_step(
    m: &Module,
    c: &InterpConfig,
    lf: &LocalFunction,
    st: &mut Machine,
    locals: &mut BTreeMap<usize, i32>,
    instr: &Instr,
    fuel: u64,
) -> (r: ExecStep)
    requires
        *instr is Load || *instr is Store,
    ensures
        step_matches(step(*m, *c, *lf, old(st)@, old(locals)@, *instr, fuel as nat), r, final(st)@, final(locals)@),
{
    let ghost s0 = st@;
    let n = st.stack.len();
    match instr {
        Instr::Load { kind, offset } => {
            if n == 0 {
                return Err(InterpretError::StackUnderflow);
            }
            let width = match kind {
                LoadKind::I32Byte { .. } => 1u32,
                LoadKind::Width(w) => *w,
            };
            if width == 0 {
                return Err(InterpretError::UnhandledLoad { width: 0 });
            }
            let a = exec_effective_address(st, st.stack[n - 1], *offset, width)?;
            let word = st.mem[(a / 4) as usize];
            let v = exec_loaded_value(*kind, a, word)?;
            st.stack.pop();
            st.stack.push(v);
            Ok((None, fuel))
        },
        Instr::Store { width, offset } => {
            if n < 2 {
                return Err(InterpretError::StackUnderflow);
            }
            if *width == 0 {
                return Err(InterpretError::UnhandledStore { width: 0 });
            }
            let value = st.stack[n - 1];
            let a = exec_effective_address(st, st.stack[n - 2], *offset, *width)?;
            exec_store(st, *width, a, value)?;
            st.stack.pop();
            st.stack.pop();
            proof {
                assert(st.stack@ =~= s0.stack.subrange(0, n - 2));
            }
            Ok((None, fuel))
        },
        _ => Err(InterpretError::UnknownInstruction),
    }
}

/// Executes a direct or indirect call.
fn exec_call_step(
    m: &Module,
    c: &InterpConfig,
    lf: &LocalFunction,
    st: &mut Machine,
    locals: &mut BTreeMap<usize, i32>,
    instr: &Instr,
    fuel: u64,
) -> (r: ExecStep)
    requires
        *instr is Call || *instr is ReturnCall || *instr is CallIndirect || *instr is ReturnCallIndirect,
    ensures
        step_matches(step(*m, *c, *lf, old(st)@, old(locals)@, *instr, fuel as nat), r, final(st)@, final(locals)@),
    decreases fuel, 3nat,
{
    let ghost s0 = st@;
    let n = st.stack.len();
    match instr {
        Instr::Call(f) => {
            let r = exec_do_call(m, c, st, *f, fuel);
            exec_after_call(r, false)
        },
        Instr::ReturnCall(f) => {
            let r = exec_do_call(m, c, st, *f, fuel);
            exec_after_call(r, true)
        },
        Instr::CallIndirect(ty) | Instr::ReturnCallIndirect(ty) => {
            if n == 0 {
                return Err(InterpretError::StackUnderflow);
            }
            let index = st.stack[n - 1] as u32;
            let target = exec_indirect_target(m, c, index, *ty)?;
            st.stack.pop();
            let r = exec_do_call(m, c, st, target, fuel);
            let tail = match instr {
                Instr::ReturnCallIndirect(_) => true,
                _ => false,
            };
            exec_after_call(r, tail)
        },
        _ => Err(InterpretError::UnknownInstruction),
    }
}

/// Executes a block, a `try`, a loop or an `if`.
fn exec_nested_step(
    m: &Module,
    c: &InterpConfig,
    lf: &LocalFunction,
    st: &mut Machine,
    locals: &mut BTreeMap<usize, i32>,
    instr: &Instr,
    fuel: u64,
) -> (r: ExecStep)
    requires
        *instr is Block || *instr is Try || *instr is TryTable || *instr is Loop || *instr is IfElse,
    ensures
        step_matches(step(*m, *c, *lf, old(st)@, old(locals)@, *instr, fuel as nat), r, final(st)@, final(locals)@),
    decreases fuel, 3nat,
{
    let ghost s0 = st@;
    let n = st.stack.len();
    match instr {
        Instr::Block(b) | Instr::Try(b) | Instr::TryTable(b, _) => {
            let r = exec_eval(m, c, lf, st, locals, *b, fuel);
            exec_nested(r, *b)
        },
        Instr::Loop(b) => exec_loop(m, c, lf, st, locals, *b, fuel),
        Instr::IfElse(yes, no) => {
            if n == 0 {
                return Err(InterpretError::StackUnderflow);
            }
            let cond = st.stack.pop().unwrap();
            let target = if cond != 0 { *yes } else { *no };
            let r = exec_eval(m, c, lf, st, locals, target, fuel);
            exec_nested(r, target)
        },
        _ => Err(InterpretError::UnknownInstruction),
    }
}

/// Executes a call instruction of function `f`.
fn exec_do_call(m: &Module, c: &InterpConfig, st: &mut Machine, f: usize, fuel: u64) -> (r: Result<
    (CallOutcome, u64),
    InterpretError,
>)
    ensures
        match do_call(*m, *c, old(st)@, f, fuel as nat) {
            Ok((s2, o, f2)) => r matches Ok((ro, rf)) && ro == o && rf as nat == f2 && final(st)@
                == s2,
            Err(e) => r == Err::<(CallOutcome, u64), InterpretError>(e),
        },
    decreases fuel, 2nat,
{
    let ghost s0 = st@;
    if opt_is(c.describe_id, f) {
        match st.stack.pop() {
            None => Err(InterpretError::StackUnderflow),
            Some(v) => {
                st.descriptor.push(v as u32);
                Ok((CallOutcome::Continue, fuel))
            },
        }
    } else if opt_is(c.describe_cast_id, f) {
        match c.stack_pointer {
            Some(sp) => {
                if sp < st.globals.len() {
                    st.globals.set(sp, Some(c.stack_pointer_initial));
                }
            },
            None => {},
        }
        st.stopped = true;
        Ok((CallOutcome::Stop, fuel))
    } else if vec_contains(&c.skip_calls, f) || exec_is_profiler_helper(m, f) {
        Ok((CallOutcome::Continue, fuel))
    } else {
        match exec_param_count(m, f) {
            None => Err(InterpretError::UnknownFunction { func: f }),
            Some(k) => {
                let len = st.stack.len();
                if len < k {
                    return Err(InterpretError::StackUnderflow);
                }
                let mut args = st.stack.split_off(len - k);
                if vec_contains(&c.invoke_imports, f) {
                    if k == 0 {
                        return Err(InterpretError::InvokeWithoutPointer);
                    }
                    let fnptr = args[0];
                    match exec_table_entry(c, fnptr as u32) {
                        None => Err(InterpretError::InvokeTargetMissing { index: fnptr }),
                        Some(t) => {
                            let rest = args.split_off(1);
                            proof {
                                assert(rest@ =~= s0.stack.subrange(
                                    s0.stack.len() - k,
                                    s0.stack.len() as int,
                                ).drop_first());
                            }
                            match exec_call(m, c, st, t, rest, fuel) {
                                Err(e) => Err(e),
                                Ok(f2) => Ok((CallOutcome::Continue, f2)),
                            }
                        },
                    }
                } else {
                    match exec_call(m, c, st, f, args, fuel) {
                        Err(e) => Err(e),
                        Ok(f2) => Ok((CallOutcome::Continue, f2)),
                    }
                }
            },
        }
    }
}

/// Calls the locally defined function `f` with `args`.
pub(crate) fn exec_call(m: &Module, c: &InterpConfig, st: &mut Machine, f: usize, args: Vec<i32>, fuel: u64) -> (r:
    Result<u64, InterpretError>)
    ensures
        match call(*m, *c, old(st)@, f, args@, fuel as nat) {
            Ok((s2, f2)) => r matches Ok(rf) && rf as nat == f2 && final(st)@ == s2,
            Err(e) => r == Err::<u64, InterpretError>(e),
        },
    decreases fuel, 1nat,
{
    if f >= m.funcs.len() {
        return Err(InterpretError::UnknownFunction { func: f });
    }
    match &m.funcs[f].kind {
        FunctionKind::Local(lf) => {
            if lf.args.len() != args.len() {
                return Err(InterpretError::ArgCount { func: f });
            }
            let mut locals: BTreeMap<usize, i32> = BTreeMap::new();
            let mut k: usize = 0;
            while k < args.len()
                invariant
                    lf.args@.len() == args@.len(),
                    k <= args@.len(),
                    locals@ == bind_args(lf.args@.take(k as int), args@.take(k as int)),
                decreases args@.len() - k,
            {
                proof {
                    assert(lf.args@.take(k as int + 1).drop_last() =~= lf.args@.take(k as int));
                    assert(args@.take(k as int + 1).drop_last() =~= args@.take(k as int));
                }
                locals.insert(lf.args[k], args[k]);
                k = k + 1;
            }
            proof {
                assert(lf.args@.take(k as int) =~= lf.args@);
                assert(args@.take(k as int) =~= args@);
            }
            match exec_eval(m, c, lf, st, &mut locals, lf.entry, fuel) {
                Err(e) => Err(e),
                Ok((_, f2)) => Ok(f2),
            }
        },
        _ => Err(InterpretError::NotLocal { func: f }),
    }
}

/// Evaluates sequence `seq` of `lf` from its start.
fn exec_eval(
    m: &Module,
    c: &InterpConfig,
    lf: &LocalFunction,
    st: &mut Machine,
    locals: &mut BTreeMap<usize, i32>,
    seq: usize,
    fuel: u64,
) -> (r: Result<(Flow, u64), InterpretError>)
    ensures
        eval_matches(eval_from(*m, *c, *lf, old(st)@, old(locals)@, seq, 0, fuel as nat), r, final(st)@, final(locals)@),
    decreases fuel, 0nat,
{
    let ghost s0 = st@;
    let ghost l0 = locals@;
    if seq >= lf.seqs.len() {
        return Err(InterpretError::UnknownSeq { seq });
    }
    let instrs = &lf.seqs[seq];
    let mut i: usize = 0;
    let mut left: u64 = fuel;
    loop
        invariant
            seq < lf.seqs@.len(),
            instrs@ == lf.seqs@[seq as int]@,
            i <= instrs@.len(),
            left <= fuel,
            eval_from(*m, *c, *lf, old(st)@, old(locals)@, seq, 0, fuel as nat) == eval_from(*m, *c, *lf, st@, locals@, seq, i as nat, left as nat),
        decreases left,
    {
        if i >= instrs.len() || st.stopped {
            return Ok((Flow::Normal, left));
        }
        if left == 0 {
            return Err(InterpretError::OutOfFuel);
        }
        let r = exec_step(m, c, lf, st, locals, &instrs[i], left - 1);
        match r {
            Err(e) => {
                return Err(e);
            },
            Ok((Some(flow), f2)) => {
                let f3 = if f2 <= left - 1 { f2 } else { left - 1 };
                return Ok((flow, f3));
            },
            Ok((None, f2)) => {
                left = if f2 <= left - 1 { f2 } else { left - 1 };
                i = i + 1;
            },
        }
    }
}

/// Runs the loop whose body is sequence `seq`.
fn exec_loop(
    m: &Module,
    c: &InterpConfig,
    lf: &LocalFunction,
    st: &mut Machine,
    locals: &mut BTreeMap<usize, i32>,
    seq: usize,
    fuel: u64,
) -> (r: ExecStep)
    ensures
        step_matches(run_loop(*m, *c, *lf, old(st)@, old(locals)@, seq, fuel as nat), r, final(st)@, final(locals)@),
    decreases fuel, 2nat,
{
    let ghost s0 = st@;
    let ghost l0 = locals@;
    let mut left: u64 = fuel;
    loop
        invariant
            left <= fuel,
            run_loop(*m, *c, *lf, old(st)@, old(locals)@, seq, fuel as nat) == run_loop(*m, *c, *lf, st@, locals@, seq, left as nat),
        decreases left,
    {
        let r = exec_eval(m, c, lf, st, locals, seq, left);
        match r {
            Err(e) => {
                return Err(e);
            },
            Ok((flow, f2)) => match flow {
                Flow::Branch(t) => {
                    if t == seq {
                        if st.stopped {
                            return Ok((Some(Flow::Normal), f2));
                        } else if left == 0 {
                            return Err(InterpretError::OutOfFuel);
                        } else {
                            left = if f2 <= left - 1 { f2 } else { left - 1 };
                        }
                    } else {
                        return Ok((Some(flow), f2));
                    }
                },
                Flow::Normal => {
                    return Ok((None, f2));
                },
                Flow::Return => {
                    return Ok((Some(flow), f2));
                },
            },
        }
    }
}

} // verus!

verus! {

/// Whether `b` starts with all of `a`.
pub open spec fn extends(a: Seq<u32>, b: Seq<u32>) -> bool {
    a.len() <= b.len() && forall|i: int| 0 <= i < a.len() ==> #[trigger] b[i] == a[i]
}

proof fn lemma_eval_extends(
    m: Module,
    c: InterpConfig,
    lf: LocalFunction,
    s: MachineView,
    l: Map<usize, i32>,
    seq: usize,
    i: nat,
    fuel: nat,
)
    ensures
        eval_from(m, c, lf, s, l, seq, i, fuel) matches Ok((s2, _, _, _)) ==> extends(s.descriptor, s2.descriptor),
    decreases fuel, 0nat,
{
    if seq < lf.seqs@.len() {
        let instrs = lf.seqs@[seq as int]@;
        if !(i >= instrs.len() || s.stopped) && fuel > 0 {
            lemma_step_extends(m, c, lf, s, l, instrs[i as int], (fuel - 1) as nat);
            match step(m, c, lf, s, l, instrs[i as int], (fuel - 1) as nat) {
                Ok((s2, l2, None, f2)) => {
                    lemma_eval_extends(m, c, lf, s2, l2, seq, i + 1, clamp(f2, (fuel - 1) as nat));
                },
                _ => {},
            }
        }
    }
}

proof fn lemma_loop_extends(
    m: Module,
    c: InterpConfig,
    lf: LocalFunction,
    s: MachineView,
    l: Map<usize, i32>,
    seq: usize,
    fuel: nat,
)
    ensures
        run_loop(m, c, lf, s, l, seq, fuel) matches Ok((s2, _, _, _)) ==> extends(s.descriptor, s2.descriptor),
    decreases fuel, 2nat,
{
    lemma_eval_extends(m, c, lf, s, l, seq, 0, fuel);
    match eval_from(m, c, lf, s, l, seq, 0, fuel) {
        Ok((s2, l2, Flow::Branch(t), f2)) => {
            if t == seq && !s2.stopped && fuel > 0 {
                lemma_loop_extends(m, c, lf, s2, l2, seq, clamp(f2, (fuel - 1) as nat));
            }
        },
        _ => {},
    }
}

proof fn lemma_call_extends(m: Module, c: InterpConfig, s: MachineView, f: usize, args: Seq<i32>, fuel: nat)
    ensures
        call(m, c, s, f, args, fuel) matches Ok((s2, _)) ==> extends(s.descriptor, s2.descriptor),
    decreases fuel, 1nat,
{
    if f < m.funcs@.len() {
        match m.funcs@[f as int].kind {
            FunctionKind::Local(lf) => {
                lemma_eval_extends(m, c, lf, s, bind_args(lf.args@, args), lf.entry, 0, fuel);
            },
            _ => {},
        }
    }
}

proof fn lemma_do_call_extends(m: Module, c: InterpConfig, s: MachineView, f: usize, fuel: nat)
    ensures
        do_call(m, c, s, f, fuel) matches Ok((s2, _, _)) ==> extends(s.descriptor, s2.descriptor),
    decreases fuel, 2nat,
{
    if !(c.describe_id == Some(f)) && !(c.describe_cast_id == Some(f)) && !(c.skip_calls@.contains(f)
        || is_profiler_helper(m, f)) {
        match param_count(m, f) {
            Some(k) => if s.stack.len() >= k {
                let args = s.stack.subrange(s.stack.len() - k, s.stack.len() as int);
                let s1 = with_stack(s, s.stack.subrange(0, s.stack.len() - k));
                if c.invoke_imports@.contains(f) {
                    if k > 0 {
                        match table_entry(c, args[0] as u32) {
                            Some(t) => lemma_call_extends(m, c, s1, t, args.drop_first(), fuel),
                            None => {},
                        }
                    }
                } else {
                    lemma_call_extends(m, c, s1, f, args, fuel);
                }
            },
            None => {},
        }
    }
}

proof fn lemma_step_extends(
    m: Module,
    c: InterpConfig,
    lf: LocalFunction,
    s: MachineView,
    l: Map<usize, i32>,
    instr: Instr,
    fuel: nat,
)
    ensures
        step(m, c, lf, s, l, instr, fuel) matches Ok((s2, _, _, _)) ==> extends(s.descriptor, s2.descriptor),
    decreases fuel, 3nat,
{
    let n = s.stack.len();
    match instr {
        Instr::Call(f) => lemma_do_call_extends(m, c, s, f, fuel),
        Instr::ReturnCall(f) => lemma_do_call_extends(m, c, s, f, fuel),
        Instr::CallIndirect(ty) => if n > 0 {
            match indirect_target(m, c, s.stack.last() as u32, ty) {
                Ok(target) => lemma_do_call_extends(m, c, pop_value(s), target, fuel),
                Err(_) => {},
            }
        },
        Instr::ReturnCallIndirect(ty) => if n > 0 {
            match indirect_target(m, c, s.stack.last() as u32, ty) {
                Ok(target) => lemma_do_call_extends(m, c, pop_value(s), target, fuel),
                Err(_) => {},
            }
        },
        Instr::Block(b) => lemma_eval_extends(m, c, lf, s, l, b, 0, fuel),
        Instr::Try(b) => lemma_eval_extends(m, c, lf, s, l, b, 0, fuel),
        Instr::TryTable(b, _) => lemma_eval_extends(m, c, lf, s, l, b, 0, fuel),
        Instr::Loop(b) => lemma_loop_extends(m, c, lf, s, l, b, fuel),
        Instr::IfElse(yes, no) => if n > 0 {
            let target = if s.stack.last() != 0 { yes } else { no };
            lemma_eval_extends(m, c, lf, pop_value(s), l, target, 0, fuel);
        },
        _ => {},
    }
}

/// Descriptor words are only ever appended: whatever a call of a
/// descriptor function runs, a successful run leaves the words emitted
/// before it in place, at the start of the descriptor.
pub proof fn lemma_call_appends_to_descriptor(
    m: Module,
    c: InterpConfig,
    s: MachineView,
    f: usize,
    args: Seq<i32>,
    fuel: nat,
)
    ensures
        call(m, c, s, f, args, fuel) matches Ok((s2, _)) ==> extends(s.descriptor, s2.descriptor),
{
    lemma_call_extends(m, c, s, f, args, fuel);
}

} // verus!
