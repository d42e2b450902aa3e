//! Lowering of descriptors for values that Wasm hands to JavaScript.

use vstd::prelude::*;
use crate::descriptor::{clone_function, same_function, spec_vector_kind, Descriptor, Function, VectorKind};
use crate::strings::push_text;
use crate::wasm_model::ValType;

verus! {

/// The descriptor of the two words that carry a closure's environment:
/// on wasm64 they use the number ABI of pointer-sized values.
pub open spec fn spec_closure_word_descriptor(memory64: bool) -> Descriptor {
    if memory64 {
        Descriptor::I64AsF64
    } else {
        Descriptor::I32
    }
}

/// The descriptor of the words that carry a closure's environment.
pub fn closure_word_descriptor(memory64: bool) -> (d: Descriptor)
    ensures
        d == spec_closure_word_descriptor(memory64),
{
    if memory64 {
        Descriptor::I64AsF64
    } else {
        Descriptor::I32
    }
}

/// Whether `&d` can be handed to JavaScript by copying the value: `d` is a
/// number, a boolean or a character.
pub open spec fn spec_is_scalar_by_shared_ref(d: Descriptor) -> bool {
    match d {
        Descriptor::I8 | Descriptor::U8 | Descriptor::I16 | Descriptor::U16 | Descriptor::I32
        | Descriptor::U32 | Descriptor::I64 | Descriptor::U64 | Descriptor::I64AsF64
        | Descriptor::U64AsF64 | Descriptor::I128 | Descriptor::U128 | Descriptor::F32
        | Descriptor::F64 | Descriptor::Boolean | Descriptor::Char => true,
        _ => false,
    }
}

/// Whether a shared reference to a value of type `d` crosses the boundary
/// with the same wire form as the value itself.
pub fn is_scalar_by_shared_ref(d: &Descriptor) -> (r: bool)
    ensures
        r == spec_is_scalar_by_shared_ref(*d),
{
    match d {
        Descriptor::I8
        | Descriptor::U8
        | Descriptor::I16
        | Descriptor::U16
        | Descriptor::I32
        | Descriptor::U32
        | Descriptor::I64
        | Descriptor::U64
        | Descriptor::I64AsF64
        | Descriptor::U64AsF64
        | Descriptor::I128
        | Descriptor::U128
        | Descriptor::F32
        | Descriptor::F64
        | Descriptor::Boolean
        | Descriptor::Char => true,
        Descriptor::ClampedU8
        | Descriptor::Function(_)
        | Descriptor::Closure(_)
        | Descriptor::Ref(_)
        | Descriptor::RefMut(_)
        | Descriptor::Slice(_)
        | Descriptor::Vector(_)
        | Descriptor::CachedString
        | Descriptor::String
        | Descriptor::Externref
        | Descriptor::NamedExternref(_)
        | Descriptor::Enum { .. }
        | Descriptor::StringEnum { .. }
        | Descriptor::DynamicUnion { .. }
        | Descriptor::RustStruct(_)
        | Descriptor::Option(_)
        | Descriptor::Result(_)
        | Descriptor::Unit
        | Descriptor::NonNull
        | Descriptor::RawPointer => false,
    }
}

} // verus!

verus! {

/// The types of the values that an adapter passes between Wasm and
/// JavaScript, as far as the lowering of outgoing values names them.
#[derive(Debug, PartialEq, Eq)]
pub enum AdapterType {
    S8,
    U8,
    S16,
    U16,
    S32,
    U32,
    I32,
    I64,
    U64,
    S128,
    U128,
    F32,
    F64,
    Bool,
    String,
    Externref,
    NamedExternref(String),
    Enum(String),
    StringEnum(String),
    DynamicUnion(String),
    Struct(String),
    Vector(VectorKind),
    Function,
    NonNull,
    /// An optional value of the inner type.
    Option(Box<AdapterType>),
}

/// How a closure handed to JavaScript is dropped.
#[derive(Debug, Clone, Copy, PartialEq, Eq, Structural)]
pub enum ClosureDtor {
    /// A borrowed closure: invalidated right after the call.
    Immediate,
    /// A closure borrowed for longer.
    Borrowed,
    /// A closure whose ownership passes to JavaScript.
    OwnClosure,
}

/// The adapter instructions that lowering an outgoing value emits.
#[derive(Debug, PartialEq, Eq)]
pub enum Instruction {
    BoolFromI32,
    /// Loads an owned externref from the heap (no table or drop given).
    ExternrefLoadOwned,
    WasmToInt128 { signed: bool },
    WasmToInt32 { unsigned_32: bool },
    WasmToInt64 { unsigned: bool },
    StringFromChar,
    RustFromI32 { class: String },
    DeferFree { free: usize, align: usize },
    MemoryToString(usize),
    VectorLoad { kind: VectorKind, mem: usize, free: usize },
    TableGet,
    View { kind: VectorKind, mem: usize },
    VectorLoadAsArray { kind: VectorKind, mem: usize, free: usize },
    OptionWasmToInt128 { signed: bool },
    OptionBoolFromI32,
    OptionCharFromI32,
    OptionEnumFromI32 { hole: u32 },
    OptionWasmToStringEnum { name: String },
    OptionRustFromI32 { class: String },
    OptionVectorLoad { kind: VectorKind, mem: usize, free: usize },
    OptionNonNullFromI32,
    /// Throws the error of a `Result`, if any (no table or drop given).
    UnwrapResult,
    /// Throws the error of a `Result` of a string, if any.
    UnwrapResultString,
    OptionView { kind: VectorKind, mem: usize },
    OptionVectorLoadAsArray { kind: VectorKind, mem: usize, free: usize },
    WasmToStringEnum { name: String },
    CachedStringLoad { owned: bool, mem: usize, free: usize },
    ToOptionNative { signed: bool, ty: ValType },
    OptionU32Sentinel,
    OptionF64Sentinel,
}

/// One operation of the instruction builder, in the order the lowering
/// performs them.
#[derive(Debug, PartialEq, Eq)]
pub enum Op {
    /// An instruction taking Wasm values of the `inputs` types and
    /// producing JavaScript values of the `outputs` types.
    Instr { inputs: Vec<AdapterType>, instr: Instruction, outputs: Vec<AdapterType> },
    /// Takes one more Wasm value of this type.
    Get(AdapterType),
    /// Pushes an instruction with an explicit stack change.
    Push { instr: Instruction, popped: usize, pushed: usize },
    /// Adds a JavaScript value of this type to the outputs.
    Output(AdapterType),
    /// Hands a closure to JavaScript: the function-table element `shim_idx`
    /// is exported, an adapter is made for the signature with two `word`
    /// arguments put in front, and a `Closure` instruction takes two
    /// pointer words to a JavaScript function.
    Closure {
        function: Function,
        word: Descriptor,
        shim_idx: u32,
        nargs: usize,
        mutable: bool,
        dtor: ClosureDtor,
    },
}

/// An operation as a value: the types as sequences; a closure's signature
/// is compared as a copy (see [`same_function`]).
pub enum OpView {
    Instr { inputs: Seq<AdapterType>, instr: Instruction, outputs: Seq<AdapterType> },
    Get(AdapterType),
    Push { instr: Instruction, popped: usize, pushed: usize },
    Output(AdapterType),
    Closure { function: Function, word: Descriptor, nargs: usize, mutable: bool, dtor: ClosureDtor },
}

/// Whether the operation `a` is the one `e` describes.
pub open spec fn op_is(a: Op, e: OpView) -> bool {
    match (a, e) {
        (Op::Instr { inputs, instr, outputs }, OpView::Instr { inputs: i2, instr: n2, outputs: o2 }) =>
            inputs@ == i2 && instr == n2 && outputs@ == o2,
        (Op::Get(t), OpView::Get(t2)) => t == t2,
        (Op::Push { instr, popped, pushed }, OpView::Push { instr: n2, popped: p2, pushed: q2 }) =>
            instr == n2 && popped == p2 && pushed == q2,
        (Op::Output(t), OpView::Output(t2)) => t == t2,
        (
            Op::Closure { function, word, shim_idx, nargs, mutable, dtor },
            OpView::Closure { function: f2, word: w2, nargs: n2, mutable: m2, dtor: d2 },
        ) => same_function(f2, function) && shim_idx == f2.shim_idx && word == w2 && nargs == n2
            && mutable == m2 && dtor == d2,
        _ => false,
    }
}

/// Whether the operations `a` are those `e` describes, in order.
pub open spec fn ops_are(a: Seq<Op>, e: Seq<OpView>) -> bool {
    a.len() == e.len() && forall|i: int| 0 <= i < a.len() ==> op_is(#[trigger] a[i], e[i])
}

/// Why an outgoing value cannot be lowered.
#[derive(Debug, Clone, Copy, PartialEq, Eq, Structural)]
pub enum OutgoingError {
    /// The module has no memory to read from.
    NoMemory,
    /// The module has no `__wbindgen_free` to release buffers with.
    NoFree,
    /// A vector or slice of elements that cannot cross the boundary.
    UnsupportedArgument,
    /// A slice passed by value.
    UnsupportedSlice,
    /// A `&mut` reference to something other than a function.
    UnsupportedRefArgument,
    /// A type that cannot cross the boundary behind a reference.
    UnsupportedBehindRef,
    /// An optional value of a type that cannot be optional.
    UnsupportedOption,
    /// An optional slice or vector of elements that cannot cross.
    UnsupportedOptionalSlice,
    /// An optional vector of elements that cannot cross.
    UnsupportedOptionalVector,
    /// An optional reference of a type that cannot cross.
    UnsupportedOptionRef,
    /// A `Result` of a type that cannot be returned.
    UnsupportedResult,
}

/// The message of an [`OutgoingError`], to which the descriptor's debug
/// form is added.
pub open spec fn outgoing_message(e: OutgoingError) -> Seq<char> {
    match e {
        OutgoingError::NoMemory => "failed to find memory declaration in module"@,
        OutgoingError::NoFree => "failed to find `__wbindgen_free` intrinsic"@,
        OutgoingError::UnsupportedArgument => "unsupported argument type for calling JS function from Rust "@,
        OutgoingError::UnsupportedSlice => "unsupported argument type for calling JS function from Rust: "@,
        OutgoingError::UnsupportedRefArgument => "unsupported reference argument type for calling JS function from Rust: "@,
        OutgoingError::UnsupportedBehindRef => "unsupported type behind a reference when passing a value to JS: "@,
        OutgoingError::UnsupportedOption => "unsupported optional argument type for calling JS function from Rust: "@,
        OutgoingError::UnsupportedOptionalSlice => "unsupported optional slice type for calling JS function from Rust "@,
        OutgoingError::UnsupportedOptionalVector => "unsupported optional vector type for calling JS function from Rust "@,
        OutgoingError::UnsupportedOptionRef => "unsupported optional ref argument type for calling JS function from Rust: "@,
        OutgoingError::UnsupportedResult => "unsupported Result type for returning from exported Rust function: "@,
    }
}

impl OutgoingError {
    /// The start of the error's message.
    pub fn message(&self) -> (s: String)
        ensures
            s@ == outgoing_message(*self),
    {
        let mut s = String::new();
        match self {
            OutgoingError::NoMemory => push_text(&mut s, "failed to find memory declaration in module"),
            OutgoingError::NoFree => push_text(&mut s, "failed to find `__wbindgen_free` intrinsic"),
            OutgoingError::UnsupportedArgument => push_text(&mut s, "unsupported argument type for calling JS function from Rust "),
            OutgoingError::UnsupportedSlice => push_text(&mut s, "unsupported argument type for calling JS function from Rust: "),
            OutgoingError::UnsupportedRefArgument => push_text(&mut s, "unsupported reference argument type for calling JS function from Rust: "),
            OutgoingError::UnsupportedBehindRef => push_text(&mut s, "unsupported type behind a reference when passing a value to JS: "),
            OutgoingError::UnsupportedOption => push_text(&mut s, "unsupported optional argument type for calling JS function from Rust: "),
            OutgoingError::UnsupportedOptionalSlice => push_text(&mut s, "unsupported optional slice type for calling JS function from Rust "),
            OutgoingError::UnsupportedOptionalVector => push_text(&mut s, "unsupported optional vector type for calling JS function from Rust "),
            OutgoingError::UnsupportedOptionRef => push_text(&mut s, "unsupported optional ref argument type for calling JS function from Rust: "),
            OutgoingError::UnsupportedResult => push_text(&mut s, "unsupported Result type for returning from exported Rust function: "),
        }
        s
    }
}

/// The instruction builder of an adapter, as the lowering of outgoing
/// values uses it: the operations done so far, and what the lowering reads
/// of the module and the adapter.
pub struct InstructionBuilder {
    pub ops: Vec<Op>,
    /// Whether the values are a function's return value (already on the
    /// stack) rather than its arguments.
    pub return_position: bool,
    /// Whether the module's memory is a memory64 memory.
    pub memory64: bool,
    /// The type of a pointer-sized word.
    pub ptr_ty: AdapterType,
    /// The module's memory, if it has one.
    pub memory: Option<usize>,
    /// The module's `__wbindgen_free`, if it has one.
    pub free: Option<usize>,
}

/// What the lowering of outgoing values reads of the builder.
pub struct BuilderEnv {
    pub return_position: bool,
    pub memory64: bool,
    pub ptr_ty: AdapterType,
    pub memory: Option<usize>,
    pub free: Option<usize>,
}

impl InstructionBuilder {
    /// What the lowering reads of the builder.
    pub open spec fn env(&self) -> BuilderEnv {
        BuilderEnv {
            return_position: self.return_position,
            memory64: self.memory64,
            ptr_ty: self.ptr_ty,
            memory: self.memory,
            free: self.free,
        }
    }
}

/// The type of a pointer-sized word handed out: `f64` for a return value
/// on memory64, else the pointer type.
pub open spec fn word_ty(b: BuilderEnv) -> AdapterType {
    if b.return_position && b.memory64 {
        AdapterType::F64
    } else {
        b.ptr_ty
    }
}

/// The type of a struct or non-null pointer: `f64` on memory64, else the
/// pointer type.
pub open spec fn struct_ptr_ty(b: BuilderEnv) -> AdapterType {
    if b.memory64 {
        AdapterType::F64
    } else {
        b.ptr_ty
    }
}

/// An optional type.
pub open spec fn opt(t: AdapterType) -> AdapterType {
    AdapterType::Option(Box::new(t))
}

/// One instruction taking `inputs` to `outputs`.
pub open spec fn instr_op(inputs: Seq<AdapterType>, instr: Instruction, outputs: Seq<AdapterType>) -> Seq<OpView> {
    seq![OpView::Instr { inputs, instr, outputs }]
}

/// A 32-bit integer to `output`.
pub open spec fn i32_ops(output: AdapterType) -> Seq<OpView> {
    instr_op(
        seq![AdapterType::I32],
        Instruction::WasmToInt32 { unsigned_32: output == AdapterType::U32 || output == AdapterType::NonNull },
        seq![output],
    )
}

/// A 64-bit integer to `output`.
pub open spec fn i64_ops(output: AdapterType) -> Seq<OpView> {
    instr_op(seq![AdapterType::I64], Instruction::WasmToInt64 { unsigned: output == AdapterType::U64 }, seq![output])
}

/// A number passed through as a float.
pub open spec fn f64_ops() -> Seq<OpView> {
    seq![OpView::Get(AdapterType::F64), OpView::Output(AdapterType::F64)]
}

/// An optional value with a 32-bit sentinel.
pub open spec fn sentinel32_ops(t: AdapterType) -> Seq<OpView> {
    instr_op(seq![AdapterType::I32], Instruction::OptionU32Sentinel, seq![opt(t)])
}

/// An optional value with a float sentinel.
pub open spec fn sentinel64_ops(t: AdapterType) -> Seq<OpView> {
    instr_op(seq![AdapterType::F64], Instruction::OptionF64Sentinel, seq![opt(t)])
}

/// The adapter type of a Wasm number type.
pub open spec fn adapter_of_wasm(ty: ValType) -> AdapterType {
    match ty {
        ValType::I64 => AdapterType::I64,
        ValType::F64 => AdapterType::F64,
        ValType::F32 => AdapterType::F32,
        _ => AdapterType::I32,
    }
}

/// An optional native number with a separate flag.
pub open spec fn native_ops(signed: bool, ty: ValType) -> Seq<OpView> {
    instr_op(
        seq![AdapterType::I32, adapter_of_wasm(ty)],
        Instruction::ToOptionNative { signed, ty },
        seq![opt(adapter_of_wasm(ty))],
    )
}

/// The operations and the outcome of a lowering step: what was done, and
/// the error that stopped it, if any.
pub type Lowered = (Seq<OpView>, Option<OutgoingError>);

/// A cached string.
pub open spec fn cached_string_ops(b: BuilderEnv, owned: bool) -> Lowered {
    match (b.memory, b.free) {
        (None, _) => (seq![], Some(OutgoingError::NoMemory)),
        (Some(_), None) => (seq![], Some(OutgoingError::NoFree)),
        (Some(mem), Some(free)) => (
            instr_op(
                seq![word_ty(b), word_ty(b)],
                Instruction::CachedStringLoad { owned, mem, free },
                seq![AdapterType::String],
            ),
            None,
        ),
    }
}

/// A closure handed to JavaScript.
pub open spec fn closure_ops(b: BuilderEnv, mutable: bool, f: Function, owned: Option<bool>) -> Seq<OpView> {
    seq![
        OpView::Closure {
            function: f,
            word: spec_closure_word_descriptor(b.memory64),
            nargs: f.arguments@.len() as usize,
            mutable,
            dtor: match owned {
                None => ClosureDtor::Immediate,
                Some(false) => ClosureDtor::Borrowed,
                Some(true) => ClosureDtor::OwnClosure,
            },
        },
    ]
}

/// A vector-like value read with `mk` from its memory (and freed).
pub open spec fn load_ops(b: BuilderEnv, d: Descriptor, kind_err: OutgoingError, with_free: bool, which: nat) -> Lowered {
    match spec_vector_kind(d) {
        None => (seq![], Some(kind_err)),
        Some(kind) => match b.memory {
            None => (seq![], Some(OutgoingError::NoMemory)),
            Some(mem) => if with_free {
                match b.free {
                    None => (seq![], Some(OutgoingError::NoFree)),
                    Some(free) => (
                        instr_op(seq![word_ty(b), word_ty(b)], load_instr(which, kind, mem, free), seq![load_output(which, kind)]),
                        None,
                    ),
                }
            } else {
                (
                    instr_op(seq![word_ty(b), word_ty(b)], load_instr(which, kind, mem, 0), seq![load_output(which, kind)]),
                    None,
                )
            },
        },
    }
}

/// The instruction of a vector-like load: 0 vector, 1 view, 2 vector as
/// array, 3 optional vector, 4 optional view, 5 optional vector as array.
pub open spec fn load_instr(which: nat, kind: VectorKind, mem: usize, free: usize) -> Instruction {
    if which == 0 {
        Instruction::VectorLoad { kind, mem, free }
    } else if which == 1 {
        Instruction::View { kind, mem }
    } else if which == 2 {
        Instruction::VectorLoadAsArray { kind, mem, free }
    } else if which == 3 {
        Instruction::OptionVectorLoad { kind, mem, free }
    } else if which == 4 {
        Instruction::OptionView { kind, mem }
    } else {
        Instruction::OptionVectorLoadAsArray { kind, mem, free }
    }
}

/// The output of a vector-like load: optional for the optional loads.
pub open spec fn load_output(which: nat, kind: VectorKind) -> AdapterType {
    if which >= 3 {
        opt(AdapterType::Vector(kind))
    } else {
        AdapterType::Vector(kind)
    }
}

/// An owned string: two words read, freed later, and made a string.
pub open spec fn string_ops(b: BuilderEnv) -> Lowered {
    let gets = seq![OpView::Get(word_ty(b)), OpView::Get(word_ty(b))];
    match b.free {
        None => (gets, Some(OutgoingError::NoFree)),
        Some(free) => {
            let defer = gets.push(OpView::Push { instr: Instruction::DeferFree { free, align: 1 }, popped: 2, pushed: 2 });
            match b.memory {
                None => (defer, Some(OutgoingError::NoMemory)),
                Some(mem) => (
                    defer.push(OpView::Push { instr: Instruction::MemoryToString(mem), popped: 2, pushed: 1 }).push(
                        OpView::Output(AdapterType::String),
                    ),
                    None,
                ),
            }
        },
    }
}

/// `a`, then `c` unless `a` stopped with an error.
pub open spec fn then(a: Lowered, c: Lowered) -> Lowered {
    match a.1 {
        Some(_) => a,
        None => (a.0 + c.0, c.1),
    }
}

/// Operations that always succeed.
pub open spec fn ok(ops: Seq<OpView>) -> Lowered {
    (ops, None)
}

/// An error before any operation.
pub open spec fn fail(e: OutgoingError) -> Lowered {
    (seq![], Some(e))
}

/// Whether `d` is one of the types whose `Result` is unwrapped before the
/// value itself is lowered.
pub open spec fn result_of_plain(d: Descriptor) -> bool {
    !(d is String || d is ClampedU8 || d is Function || d is Closure || d is Slice || d is Result)
}

/// What lowering `d` does, by the lowering `mode`: 0 a value (`_outgoing`),
/// 1 behind `&`, 2 behind `&mut` (`outgoing_ref`), 3 the `Ok` value of a
/// `Result` (`outgoing_result`), 4 an `Option` (`outgoing_option`), 5 an
/// optional reference (`outgoing_option_ref`).
pub open spec fn lower(b: BuilderEnv, d: Descriptor, mode: nat) -> Lowered
    decreases d, mode,
{
    if mode == 0 {
        match d {
            Descriptor::Boolean => ok(instr_op(seq![AdapterType::I32], Instruction::BoolFromI32, seq![AdapterType::Bool])),
            Descriptor::Externref => ok(instr_op(seq![AdapterType::I32], Instruction::ExternrefLoadOwned, seq![AdapterType::Externref])),
            Descriptor::NamedExternref(name) => ok(
                instr_op(seq![AdapterType::I32], Instruction::ExternrefLoadOwned, seq![AdapterType::NamedExternref(name)]),
            ),
            Descriptor::I8 => ok(i32_ops(AdapterType::S8)),
            Descriptor::U8 => ok(i32_ops(AdapterType::U8)),
            Descriptor::I16 => ok(i32_ops(AdapterType::S16)),
            Descriptor::U16 => ok(i32_ops(AdapterType::U16)),
            Descriptor::I32 => ok(i32_ops(AdapterType::S32)),
            Descriptor::U32 => ok(i32_ops(AdapterType::U32)),
            Descriptor::I64 => ok(i64_ops(AdapterType::I64)),
            Descriptor::U64 => ok(i64_ops(AdapterType::U64)),
            Descriptor::I64AsF64 | Descriptor::U64AsF64 => ok(f64_ops()),
            Descriptor::RawPointer => if b.memory64 {
                ok(f64_ops())
            } else {
                ok(i32_ops(AdapterType::U32))
            },
            Descriptor::I128 => ok(
                instr_op(seq![AdapterType::I64, AdapterType::I64], Instruction::WasmToInt128 { signed: true }, seq![AdapterType::S128]),
            ),
            Descriptor::U128 => ok(
                instr_op(seq![AdapterType::I64, AdapterType::I64], Instruction::WasmToInt128 { signed: false }, seq![AdapterType::U128]),
            ),
            Descriptor::F32 => ok(seq![OpView::Get(AdapterType::F32), OpView::Output(AdapterType::F32)]),
            Descriptor::F64 => ok(seq![OpView::Get(AdapterType::F64), OpView::Output(AdapterType::F64)]),
            Descriptor::Enum { name, .. } => ok(i32_ops(AdapterType::Enum(name))),
            Descriptor::StringEnum { name, .. } => ok(
                instr_op(seq![AdapterType::I32], Instruction::WasmToStringEnum { name }, seq![AdapterType::StringEnum(name)]),
            ),
            Descriptor::DynamicUnion { name, .. } => ok(
                instr_op(seq![AdapterType::I32], Instruction::ExternrefLoadOwned, seq![AdapterType::DynamicUnion(name)]),
            ),
            Descriptor::Char => ok(instr_op(seq![AdapterType::I32], Instruction::StringFromChar, seq![AdapterType::String])),
            Descriptor::RustStruct(class) => ok(
                instr_op(seq![struct_ptr_ty(b)], Instruction::RustFromI32 { class }, seq![AdapterType::Struct(class)]),
            ),
            Descriptor::Ref(x) => lower(b, *x, 1),
            Descriptor::RefMut(x) => lower(b, *x, 2),
            Descriptor::CachedString => cached_string_ops(b, true),
            Descriptor::String => string_ops(b),
            Descriptor::Vector(_) => load_ops(b, d, OutgoingError::UnsupportedArgument, true, 0),
            Descriptor::Option(x) => lower(b, *x, 4),
            Descriptor::Result(x) => lower(b, *x, 3),
            Descriptor::Function(f) => ok(closure_ops(b, false, *f, None)),
            Descriptor::Slice(_) => fail(OutgoingError::UnsupportedSlice),
            Descriptor::Unit => ok(seq![]),
            Descriptor::ClampedU8 => ok(seq![]),
            Descriptor::NonNull => if b.memory64 {
                ok(seq![OpView::Get(AdapterType::F64), OpView::Output(AdapterType::NonNull)])
            } else {
                ok(i32_ops(AdapterType::NonNull))
            },
            Descriptor::Closure(c) => ok(closure_ops(b, c.mutable, c.function, Some(c.owned))),
        }
    } else if mode == 1 || mode == 2 {
        let mutable = mode == 2;
        match d {
            Descriptor::Externref => ok(instr_op(seq![AdapterType::I32], Instruction::TableGet, seq![AdapterType::Externref])),
            Descriptor::NamedExternref(name) => ok(
                instr_op(seq![AdapterType::I32], Instruction::TableGet, seq![AdapterType::NamedExternref(name)]),
            ),
            Descriptor::CachedString => cached_string_ops(b, false),
            Descriptor::String => match b.memory {
                None => fail(OutgoingError::NoMemory),
                Some(mem) => ok(
                    instr_op(seq![word_ty(b), word_ty(b)], Instruction::MemoryToString(mem), seq![AdapterType::String]),
                ),
            },
            Descriptor::Slice(_) => load_ops(b, d, OutgoingError::UnsupportedArgument, false, 1),
            Descriptor::Vector(_) => load_ops(b, d, OutgoingError::UnsupportedArgument, true, 2),
            Descriptor::Function(f) => ok(closure_ops(b, mutable, *f, None)),
            Descriptor::RefMut(inner) => match *inner {
                Descriptor::Function(f) => ok(closure_ops(b, true, *f, None)),
                _ => fail(OutgoingError::UnsupportedRefArgument),
            },
            _ => if !mutable && spec_is_scalar_by_shared_ref(d) {
                lower(b, d, 0)
            } else {
                fail(OutgoingError::UnsupportedBehindRef)
            },
        }
    } else if mode == 3 {
        if d is String {
            let w = word_ty(b);
            let gets = seq![OpView::Get(w), OpView::Get(w), OpView::Get(AdapterType::I32), OpView::Get(AdapterType::I32)];
            let unwrap = gets.push(OpView::Push { instr: Instruction::UnwrapResultString, popped: 4, pushed: 2 });
            match b.free {
                None => (unwrap, Some(OutgoingError::NoFree)),
                Some(free) => {
                    let defer = unwrap.push(OpView::Push { instr: Instruction::DeferFree { free, align: 1 }, popped: 2, pushed: 2 });
                    match b.memory {
                        None => (defer, Some(OutgoingError::NoMemory)),
                        Some(mem) => ok(
                            defer.push(OpView::Push { instr: Instruction::MemoryToString(mem), popped: 2, pushed: 1 }).push(
                                OpView::Output(AdapterType::String),
                            ),
                        ),
                    }
                },
            }
        } else if result_of_plain(d) {
            then(
                then(ok(seq![OpView::Push { instr: Instruction::UnwrapResult, popped: 2, pushed: 0 }]), lower(b, d, 0)),
                ok(seq![OpView::Get(AdapterType::I32), OpView::Get(AdapterType::I32)]),
            )
        } else {
            fail(OutgoingError::UnsupportedResult)
        }
    } else if mode == 4 {
        match d {
            Descriptor::Externref => ok(instr_op(seq![AdapterType::I32], Instruction::ExternrefLoadOwned, seq![opt(AdapterType::Externref)])),
            Descriptor::NamedExternref(name) => ok(
                instr_op(seq![AdapterType::I32], Instruction::ExternrefLoadOwned, seq![opt(AdapterType::NamedExternref(name))]),
            ),
            Descriptor::DynamicUnion { name, .. } => ok(
                instr_op(seq![AdapterType::I32], Instruction::ExternrefLoadOwned, seq![opt(AdapterType::DynamicUnion(name))]),
            ),
            Descriptor::I8 => ok(sentinel32_ops(AdapterType::S8)),
            Descriptor::U8 => ok(sentinel32_ops(AdapterType::U8)),
            Descriptor::I16 => ok(sentinel32_ops(AdapterType::S16)),
            Descriptor::U16 => ok(sentinel32_ops(AdapterType::U16)),
            Descriptor::I32 => ok(sentinel64_ops(AdapterType::S32)),
            Descriptor::U32 => ok(sentinel64_ops(AdapterType::U32)),
            Descriptor::I64AsF64 => ok(sentinel64_ops(AdapterType::I64)),
            Descriptor::U64AsF64 => ok(sentinel64_ops(AdapterType::U64)),
            Descriptor::I64 => ok(native_ops(true, ValType::I64)),
            Descriptor::U64 => ok(native_ops(false, ValType::I64)),
            Descriptor::F32 => ok(sentinel64_ops(AdapterType::F32)),
            Descriptor::F64 => ok(native_ops(true, ValType::F64)),
            Descriptor::I128 => ok(
                instr_op(
                    seq![AdapterType::I32, AdapterType::I64, AdapterType::I64],
                    Instruction::OptionWasmToInt128 { signed: true },
                    seq![opt(AdapterType::S128)],
                ),
            ),
            Descriptor::U128 => ok(
                instr_op(
                    seq![AdapterType::I32, AdapterType::I64, AdapterType::I64],
                    Instruction::OptionWasmToInt128 { signed: false },
                    seq![opt(AdapterType::U128)],
                ),
            ),
            Descriptor::Boolean => ok(instr_op(seq![AdapterType::I32], Instruction::OptionBoolFromI32, seq![opt(AdapterType::Bool)])),
            Descriptor::Char => ok(instr_op(seq![AdapterType::I32], Instruction::OptionCharFromI32, seq![opt(AdapterType::String)])),
            Descriptor::Enum { name, hole } => ok(
                instr_op(seq![AdapterType::I32], Instruction::OptionEnumFromI32 { hole }, seq![opt(AdapterType::Enum(name))]),
            ),
            Descriptor::StringEnum { name, .. } => ok(
                instr_op(seq![AdapterType::I32], Instruction::OptionWasmToStringEnum { name }, seq![opt(AdapterType::StringEnum(name))]),
            ),
            Descriptor::RustStruct(name) => ok(
                instr_op(seq![struct_ptr_ty(b)], Instruction::OptionRustFromI32 { class: name }, seq![opt(AdapterType::Struct(name))]),
            ),
            Descriptor::Ref(x) => lower(b, *x, 5),
            Descriptor::RefMut(x) => lower(b, *x, 5),
            Descriptor::CachedString => cached_string_ops(b, true),
            Descriptor::String | Descriptor::Vector(_) => load_ops(b, d, OutgoingError::UnsupportedOptionalSlice, true, 3),
            Descriptor::NonNull => ok(
                instr_op(seq![struct_ptr_ty(b)], Instruction::OptionNonNullFromI32, seq![opt(AdapterType::NonNull)]),
            ),
            Descriptor::RawPointer => ok(sentinel64_ops(AdapterType::U32)),
            _ => fail(OutgoingError::UnsupportedOption),
        }
    } else {
        match d {
            Descriptor::Externref => ok(instr_op(seq![AdapterType::I32], Instruction::TableGet, seq![opt(AdapterType::Externref)])),
            Descriptor::NamedExternref(name) => ok(
                instr_op(seq![AdapterType::I32], Instruction::TableGet, seq![opt(AdapterType::NamedExternref(name))]),
            ),
            Descriptor::CachedString => cached_string_ops(b, false),
            Descriptor::String | Descriptor::Slice(_) => load_ops(b, d, OutgoingError::UnsupportedOptionalSlice, false, 4),
            Descriptor::Vector(_) => load_ops(b, d, OutgoingError::UnsupportedOptionalVector, true, 5),
            _ => fail(OutgoingError::UnsupportedOptionRef),
        }
    }
}

/// What [`InstructionBuilder::outgoing`] does: nothing for `()`, else the
/// lowering of the value.
pub open spec fn spec_outgoing(b: BuilderEnv, d: Descriptor) -> Lowered {
    if d is Unit {
        ok(seq![])
    } else {
        lower(b, d, 0)
    }
}

/// Whether `new` is `old` followed by operations that `e` describes.
pub open spec fn extended(old: Seq<Op>, new: Seq<Op>, e: Seq<OpView>) -> bool {
    &&& new.len() == old.len() + e.len()
    &&& forall|i: int| 0 <= i < old.len() ==> new[i] == old[i]
    &&& forall|j: int| 0 <= j < e.len() ==> op_is(#[trigger] new[old.len() + j], e[j])
}

/// Whether a lowering step that turned the operations `old` into `new` and
/// returned `r` did what `l` describes.
pub open spec fn lowered_as(old: Seq<Op>, new: Seq<Op>, r: Result<(), OutgoingError>, l: Lowered) -> bool {
    &&& extended(old, new, l.0)
    &&& match l.1 {
        None => r is Ok,
        Some(e) => r == Err::<(), OutgoingError>(e),
    }
}

} // verus!


verus! {

/// `t`, copied.
fn copy_adapter_type(t: &AdapterType) -> (r: AdapterType)
    ensures
        r == *t,
    decreases t,
{
    match t {
        AdapterType::S8 => AdapterType::S8,
        AdapterType::U8 => AdapterType::U8,
        AdapterType::S16 => AdapterType::S16,
        AdapterType::U16 => AdapterType::U16,
        AdapterType::S32 => AdapterType::S32,
        AdapterType::U32 => AdapterType::U32,
        AdapterType::I32 => AdapterType::I32,
        AdapterType::I64 => AdapterType::I64,
        AdapterType::U64 => AdapterType::U64,
        AdapterType::S128 => AdapterType::S128,
        AdapterType::U128 => AdapterType::U128,
        AdapterType::F32 => AdapterType::F32,
        AdapterType::F64 => AdapterType::F64,
        AdapterType::Bool => AdapterType::Bool,
        AdapterType::String => AdapterType::String,
        AdapterType::Externref => AdapterType::Externref,
        AdapterType::NamedExternref(n) => AdapterType::NamedExternref(n.clone()),
        AdapterType::Enum(n) => AdapterType::Enum(n.clone()),
        AdapterType::StringEnum(n) => AdapterType::StringEnum(n.clone()),
        AdapterType::DynamicUnion(n) => AdapterType::DynamicUnion(n.clone()),
        AdapterType::Struct(n) => AdapterType::Struct(n.clone()),
        AdapterType::Vector(k) => AdapterType::Vector(copy_vector_kind(k)),
        AdapterType::Function => AdapterType::Function,
        AdapterType::NonNull => AdapterType::NonNull,
        AdapterType::Option(x) => AdapterType::Option(Box::new(copy_adapter_type(&**x))),
    }
}

/// `k`, copied.
fn copy_vector_kind(k: &VectorKind) -> (r: VectorKind)
    ensures
        r == *k,
{
    match k {
        VectorKind::I8 => VectorKind::I8,
        VectorKind::U8 => VectorKind::U8,
        VectorKind::ClampedU8 => VectorKind::ClampedU8,
        VectorKind::I16 => VectorKind::I16,
        VectorKind::U16 => VectorKind::U16,
        VectorKind::I32 => VectorKind::I32,
        VectorKind::U32 => VectorKind::U32,
        VectorKind::I64 => VectorKind::I64,
        VectorKind::U64 => VectorKind::U64,
        VectorKind::F32 => VectorKind::F32,
        VectorKind::F64 => VectorKind::F64,
        VectorKind::String => VectorKind::String,
        VectorKind::Externref => VectorKind::Externref,
        VectorKind::NamedExternref(n) => VectorKind::NamedExternref(n.clone()),
    }
}

/// The optional form of `t`.
fn option_of(t: AdapterType) -> (r: AdapterType)
    ensures
        r == opt(t),
{
    AdapterType::Option(Box::new(t))
}

fn one(a: AdapterType) -> (v: Vec<AdapterType>)
    ensures
        v@ == seq![a],
{
    let mut v = Vec::new();
    v.push(a);
    v
}

fn two(a: AdapterType, b: AdapterType) -> (v: Vec<AdapterType>)
    ensures
        v@ == seq![a, b],
{
    let mut v = Vec::new();
    v.push(a);
    v.push(b);
    v
}

fn three(a: AdapterType, b: AdapterType, c: AdapterType) -> (v: Vec<AdapterType>)
    ensures
        v@ == seq![a, b, c],
{
    let mut v = Vec::new();
    v.push(a);
    v.push(b);
    v.push(c);
    v
}

/// Following operations `e1` by operations `e2` extends by `e1 + e2`.
proof fn lemma_extended_trans(a: Seq<Op>, b: Seq<Op>, c: Seq<Op>, e1: Seq<OpView>, e2: Seq<OpView>)
    requires
        extended(a, b, e1),
        extended(b, c, e2),
    ensures
        extended(a, c, e1 + e2),
{
    assert forall|j: int| 0 <= j < (e1 + e2).len() implies op_is(#[trigger] c[a.len() + j], (e1 + e2)[j]) by {
        if j < e1.len() {
            assert(c[a.len() + j] == b[a.len() + j]);
        } else {
            assert(c[a.len() + j] == c[b.len() + (j - e1.len())]);
        }
    }
}

/// Doing nothing extends by nothing.
proof fn lemma_extended_refl(a: Seq<Op>)
    ensures
        extended(a, a, seq![]),
{
}

impl InstructionBuilder {
    /// Records an instruction taking Wasm values of the `inputs` types to
    /// JavaScript values of the `outputs` types.
    fn instruction(&mut self, inputs: Vec<AdapterType>, instr: Instruction, outputs: Vec<AdapterType>)
        ensures
            final(self).env() == old(self).env(),
            extended(old(self).ops@, final(self).ops@, instr_op(inputs@, instr, outputs@)),
    {
        let ghost i = inputs@;
        let ghost o = outputs@;
        self.ops.push(Op::Instr { inputs, instr, outputs });
        assert(op_is(self.ops@[old(self).ops@.len() as int], instr_op(i, instr, o)[0]));
    }

    /// Records one more Wasm value of type `t`.
    fn get(&mut self, t: AdapterType)
        ensures
            final(self).env() == old(self).env(),
            final(self).ops@ == old(self).ops@.push(Op::Get(t)),
    {
        self.ops.push(Op::Get(t));
    }

    /// The type of the pointer-sized words handed out.
    fn outgoing_internal_word_ty(&self) -> (t: AdapterType)
        ensures
            t == word_ty(self.env()),
    {
        if self.return_position && self.memory64 {
            AdapterType::F64
        } else {
            copy_adapter_type(&self.ptr_ty)
        }
    }

    /// The type of a struct or non-null pointer.
    fn struct_ptr_ty(&self) -> (t: AdapterType)
        ensures
            t == struct_ptr_ty(self.env()),
    {
        if self.memory64 {
            AdapterType::F64
        } else {
            copy_adapter_type(&self.ptr_ty)
        }
    }

    fn outgoing_i32(&mut self, output: AdapterType)
        ensures
            final(self).env() == old(self).env(),
            extended(old(self).ops@, final(self).ops@, i32_ops(output)),
    {
        let unsigned_32 = match &output {
            AdapterType::U32 | AdapterType::NonNull => true,
            _ => false,
        };
        self.instruction(one(AdapterType::I32), Instruction::WasmToInt32 { unsigned_32 }, one(output));
    }

    fn outgoing_i64(&mut self, output: AdapterType)
        ensures
            final(self).env() == old(self).env(),
            extended(old(self).ops@, final(self).ops@, i64_ops(output)),
    {
        let unsigned = match &output {
            AdapterType::U64 => true,
            _ => false,
        };
        self.instruction(one(AdapterType::I64), Instruction::WasmToInt64 { unsigned }, one(output));
    }

    /// A value passed through as `t`.
    fn pass_through(&mut self, get: AdapterType, out: AdapterType)
        ensures
            final(self).env() == old(self).env(),
            extended(old(self).ops@, final(self).ops@, seq![OpView::Get(get), OpView::Output(out)]),
    {
        self.ops.push(Op::Get(get));
        self.ops.push(Op::Output(out));
        assert(op_is(self.ops@[old(self).ops@.len() as int], OpView::Get(get)));
    }
}

} // verus!

verus! {

impl InstructionBuilder {
    fn out_option_sentinel32(&mut self, ty: AdapterType)
        ensures
            final(self).env() == old(self).env(),
            extended(old(self).ops@, final(self).ops@, sentinel32_ops(ty)),
    {
        self.instruction(one(AdapterType::I32), Instruction::OptionU32Sentinel, one(option_of(ty)));
    }

    fn out_option_sentinel64(&mut self, ty: AdapterType)
        ensures
            final(self).env() == old(self).env(),
            extended(old(self).ops@, final(self).ops@, sentinel64_ops(ty)),
    {
        self.instruction(one(AdapterType::F64), Instruction::OptionF64Sentinel, one(option_of(ty)));
    }

    fn option_native(&mut self, signed: bool, ty: ValType)
        ensures
            final(self).env() == old(self).env(),
            extended(old(self).ops@, final(self).ops@, native_ops(signed, ty)),
    {
        let adapter_ty = match ty {
            ValType::I64 => AdapterType::I64,
            ValType::F64 => AdapterType::F64,
            ValType::F32 => AdapterType::F32,
            _ => AdapterType::I32,
        };
        let out = option_of(copy_adapter_type(&adapter_ty));
        self.instruction(two(AdapterType::I32, adapter_ty), Instruction::ToOptionNative { signed, ty }, one(out));
    }

    fn cached_string(&mut self, owned: bool) -> (r: Result<(), OutgoingError>)
        ensures
            final(self).env() == old(self).env(),
            lowered_as(old(self).ops@, final(self).ops@, r, cached_string_ops(old(self).env(), owned)),
    {
        let mem = match self.memory {
            Some(m) => m,
            None => return Err(OutgoingError::NoMemory),
        };
        let free = match self.free {
            Some(f) => f,
            None => return Err(OutgoingError::NoFree),
        };
        let w1 = self.outgoing_internal_word_ty();
        let w2 = self.outgoing_internal_word_ty();
        self.instruction(two(w1, w2), Instruction::CachedStringLoad { owned, mem, free }, one(AdapterType::String));
        Ok(())
    }

    /// A vector-like value of kind `spec_vector_kind(d)` read from memory by
    /// the load `which` (see [`load_instr`]), freed afterwards if
    /// `with_free`.
    fn vector_like(&mut self, d: &Descriptor, kind_err: OutgoingError, with_free: bool, which: u8) -> (r: Result<
        (),
        OutgoingError,
    >)
        ensures
            final(self).env() == old(self).env(),
            lowered_as(
                old(self).ops@,
                final(self).ops@,
                r,
                load_ops(old(self).env(), *d, kind_err, with_free, which as nat),
            ),
    {
        let kind = match d.vector_kind() {
            Some(k) => k,
            None => return Err(kind_err),
        };
        let mem = match self.memory {
            Some(m) => m,
            None => return Err(OutgoingError::NoMemory),
        };
        let free = if with_free {
            match self.free {
                Some(f) => f,
                None => return Err(OutgoingError::NoFree),
            }
        } else {
            0
        };
        let k2 = copy_vector_kind(&kind);
        let instr = if which == 0 {
            Instruction::VectorLoad { kind, mem, free }
        } else if which == 1 {
            Instruction::View { kind, mem }
        } else if which == 2 {
            Instruction::VectorLoadAsArray { kind, mem, free }
        } else if which == 3 {
            Instruction::OptionVectorLoad { kind, mem, free }
        } else if which == 4 {
            Instruction::OptionView { kind, mem }
        } else {
            Instruction::OptionVectorLoadAsArray { kind, mem, free }
        };
        let out = if which >= 3 {
            option_of(AdapterType::Vector(k2))
        } else {
            AdapterType::Vector(k2)
        };
        let w1 = self.outgoing_internal_word_ty();
        let w2 = self.outgoing_internal_word_ty();
        self.instruction(two(w1, w2), instr, one(out));
        Ok(())
    }

    /// Reads an owned string: two words, a deferred free, and the string.
    fn owned_string(&mut self) -> (r: Result<(), OutgoingError>)
        ensures
            final(self).env() == old(self).env(),
            lowered_as(old(self).ops@, final(self).ops@, r, string_ops(old(self).env())),
    {
        let w1 = self.outgoing_internal_word_ty();
        let w2 = self.outgoing_internal_word_ty();
        self.ops.push(Op::Get(w1));
        self.ops.push(Op::Get(w2));
        let ghost b = old(self).env();
        let ghost n = old(self).ops@.len() as int;
        assert(op_is(self.ops@[n], OpView::Get(word_ty(b))));
        let free = match self.free {
            Some(f) => f,
            None => return Err(OutgoingError::NoFree),
        };
        self.ops.push(Op::Push { instr: Instruction::DeferFree { free, align: 1 }, popped: 2, pushed: 2 });
        assert(op_is(self.ops@[n + 1], OpView::Get(word_ty(b))));
        let mem = match self.memory {
            Some(m) => m,
            None => return Err(OutgoingError::NoMemory),
        };
        self.ops.push(Op::Push { instr: Instruction::MemoryToString(mem), popped: 2, pushed: 1 });
        self.ops.push(Op::Output(AdapterType::String));
        assert(op_is(self.ops@[n + 2], string_ops(b).0[2]));
        Ok(())
    }

    /// Hands a closure of signature `f` to JavaScript.
    fn outgoing_function(&mut self, mutable: bool, f: &Function, owned_closure: Option<bool>)
        ensures
            final(self).env() == old(self).env(),
            extended(old(self).ops@, final(self).ops@, closure_ops(old(self).env(), mutable, *f, owned_closure)),
    {
        let dtor = match owned_closure {
            None => ClosureDtor::Immediate,
            Some(false) => ClosureDtor::Borrowed,
            Some(true) => ClosureDtor::OwnClosure,
        };
        let function = clone_function(f);
        let word = closure_word_descriptor(self.memory64);
        self.ops.push(
            Op::Closure { function, word, shim_idx: f.shim_idx, nargs: f.arguments.len(), mutable, dtor },
        );
    }
}

} // verus!

verus! {

impl InstructionBuilder {
    /// Lowers one more outgoing value of type `arg`: a value that Wasm hands
    /// to JavaScript. Nothing is done for `()`.
    pub fn outgoing(&mut self, arg: &Descriptor) -> (r: Result<(), OutgoingError>)
        requires
            !(*arg is ClampedU8),
        ensures
            final(self).env() == old(self).env(),
            lowered_as(old(self).ops@, final(self).ops@, r, spec_outgoing(old(self).env(), *arg)),
    {
        if let Descriptor::Unit = arg {
            proof {
                lemma_extended_refl(self.ops@);
            }
            return Ok(());
        }
        self._outgoing(arg)
    }

    fn _outgoing(&mut self, arg: &Descriptor) -> (r: Result<(), OutgoingError>)
        requires
            !(*arg is ClampedU8),
        ensures
            final(self).env() == old(self).env(),
            lowered_as(old(self).ops@, final(self).ops@, r, lower(old(self).env(), *arg, 0)),
        decreases *arg, 0nat,
    {
        match arg {
            Descriptor::Boolean => {
                self.instruction(one(AdapterType::I32), Instruction::BoolFromI32, one(AdapterType::Bool));
            },
            Descriptor::Externref => {
                self.instruction(one(AdapterType::I32), Instruction::ExternrefLoadOwned, one(AdapterType::Externref));
            },
            Descriptor::NamedExternref(name) => {
                self.instruction(
                    one(AdapterType::I32),
                    Instruction::ExternrefLoadOwned,
                    one(AdapterType::NamedExternref(name.clone())),
                );
            },
            Descriptor::I8 => self.outgoing_i32(AdapterType::S8),
            Descriptor::U8 => self.outgoing_i32(AdapterType::U8),
            Descriptor::I16 => self.outgoing_i32(AdapterType::S16),
            Descriptor::U16 => self.outgoing_i32(AdapterType::U16),
            Descriptor::I32 => self.outgoing_i32(AdapterType::S32),
            Descriptor::U32 => self.outgoing_i32(AdapterType::U32),
            Descriptor::I64 => self.outgoing_i64(AdapterType::I64),
            Descriptor::U64 => self.outgoing_i64(AdapterType::U64),
            Descriptor::I64AsF64 | Descriptor::U64AsF64 => self.pass_through(AdapterType::F64, AdapterType::F64),
            Descriptor::RawPointer => {
                if self.memory64 {
                    self.pass_through(AdapterType::F64, AdapterType::F64);
                } else {
                    self.outgoing_i32(AdapterType::U32);
                }
            },
            Descriptor::I128 => {
                self.instruction(
                    two(AdapterType::I64, AdapterType::I64),
                    Instruction::WasmToInt128 { signed: true },
                    one(AdapterType::S128),
                );
            },
            Descriptor::U128 => {
                self.instruction(
                    two(AdapterType::I64, AdapterType::I64),
                    Instruction::WasmToInt128 { signed: false },
                    one(AdapterType::U128),
                );
            },
            Descriptor::F32 => self.pass_through(AdapterType::F32, AdapterType::F32),
            Descriptor::F64 => self.pass_through(AdapterType::F64, AdapterType::F64),
            Descriptor::Enum { name, .. } => self.outgoing_i32(AdapterType::Enum(name.clone())),
            Descriptor::StringEnum { name, .. } => {
                self.instruction(
                    one(AdapterType::I32),
                    Instruction::WasmToStringEnum { name: name.clone() },
                    one(AdapterType::StringEnum(name.clone())),
                );
            },
            Descriptor::DynamicUnion { name, .. } => {
                self.instruction(
                    one(AdapterType::I32),
                    Instruction::ExternrefLoadOwned,
                    one(AdapterType::DynamicUnion(name.clone())),
                );
            },
            Descriptor::Char => {
                self.instruction(one(AdapterType::I32), Instruction::StringFromChar, one(AdapterType::String));
            },
            Descriptor::RustStruct(class) => {
                let ptr_ty = self.struct_ptr_ty();
                self.instruction(
                    one(ptr_ty),
                    Instruction::RustFromI32 { class: class.clone() },
                    one(AdapterType::Struct(class.clone())),
                );
            },
            Descriptor::Ref(d) => return self.outgoing_ref(false, d),
            Descriptor::RefMut(d) => return self.outgoing_ref(true, d),
            Descriptor::CachedString => return self.cached_string(true),
            Descriptor::String => return self.owned_string(),
            Descriptor::Vector(_) => return self.vector_like(arg, OutgoingError::UnsupportedArgument, true, 0),
            Descriptor::Option(d) => return self.outgoing_option(d),
            Descriptor::Result(d) => return self.outgoing_result(d),
            Descriptor::Function(f) => self.outgoing_function(false, f, None),
            Descriptor::Slice(_) => return Err(OutgoingError::UnsupportedSlice),
            Descriptor::Unit | Descriptor::ClampedU8 => {
                proof {
                    lemma_extended_refl(self.ops@);
                }
            },
            Descriptor::NonNull => {
                if self.memory64 {
                    self.pass_through(AdapterType::F64, AdapterType::NonNull);
                } else {
                    self.outgoing_i32(AdapterType::NonNull);
                }
            },
            Descriptor::Closure(c) => self.outgoing_function(c.mutable, &c.function, Some(c.owned)),
        }
        Ok(())
    }

    /// Lowers a reference to a value of type `arg`, shared or `mutable`.
    fn outgoing_ref(&mut self, mutable: bool, arg: &Descriptor) -> (r: Result<(), OutgoingError>)
        ensures
            final(self).env() == old(self).env(),
            lowered_as(
                old(self).ops@,
                final(self).ops@,
                r,
                lower(old(self).env(), *arg, if mutable { 2 } else { 1 }),
            ),
        decreases *arg, 2nat,
    {
        match arg {
            Descriptor::Externref => {
                self.instruction(one(AdapterType::I32), Instruction::TableGet, one(AdapterType::Externref));
            },
            Descriptor::NamedExternref(name) => {
                self.instruction(
                    one(AdapterType::I32),
                    Instruction::TableGet,
                    one(AdapterType::NamedExternref(name.clone())),
                );
            },
            Descriptor::CachedString => return self.cached_string(false),
            Descriptor::String => {
                let mem = match self.memory {
                    Some(m) => m,
                    None => return Err(OutgoingError::NoMemory),
                };
                let w1 = self.outgoing_internal_word_ty();
                let w2 = self.outgoing_internal_word_ty();
                self.instruction(two(w1, w2), Instruction::MemoryToString(mem), one(AdapterType::String));
            },
            Descriptor::Slice(_) => return self.vector_like(arg, OutgoingError::UnsupportedArgument, false, 1),
            Descriptor::Vector(_) => return self.vector_like(arg, OutgoingError::UnsupportedArgument, true, 2),
            Descriptor::Function(f) => self.outgoing_function(mutable, f, None),
            Descriptor::RefMut(inner) => match &**inner {
                Descriptor::Function(f) => self.outgoing_function(true, f, None),
                _ => return Err(OutgoingError::UnsupportedRefArgument),
            },
            _ => {
                if !mutable && is_scalar_by_shared_ref(arg) {
                    return self._outgoing(arg);
                } else {
                    return Err(OutgoingError::UnsupportedBehindRef);
                }
            },
        }
        Ok(())
    }
}


impl InstructionBuilder {
    /// Lowers an optional value of type `arg`.
    fn outgoing_option(&mut self, arg: &Descriptor) -> (r: Result<(), OutgoingError>)
        ensures
            final(self).env() == old(self).env(),
            lowered_as(old(self).ops@, final(self).ops@, r, lower(old(self).env(), *arg, 4)),
        decreases *arg, 4nat,
    {
        match arg {
            Descriptor::Externref => {
                self.instruction(
                    one(AdapterType::I32),
                    Instruction::ExternrefLoadOwned,
                    one(option_of(AdapterType::Externref)),
                );
            },
            Descriptor::NamedExternref(name) => {
                self.instruction(
                    one(AdapterType::I32),
                    Instruction::ExternrefLoadOwned,
                    one(option_of(AdapterType::NamedExternref(name.clone()))),
                );
            },
            Descriptor::DynamicUnion { name, .. } => {
                self.instruction(
                    one(AdapterType::I32),
                    Instruction::ExternrefLoadOwned,
                    one(option_of(AdapterType::DynamicUnion(name.clone()))),
                );
            },
            Descriptor::I8 => self.out_option_sentinel32(AdapterType::S8),
            Descriptor::U8 => self.out_option_sentinel32(AdapterType::U8),
            Descriptor::I16 => self.out_option_sentinel32(AdapterType::S16),
            Descriptor::U16 => self.out_option_sentinel32(AdapterType::U16),
            Descriptor::I32 => self.out_option_sentinel64(AdapterType::S32),
            Descriptor::U32 => self.out_option_sentinel64(AdapterType::U32),
            Descriptor::I64AsF64 => self.out_option_sentinel64(AdapterType::I64),
            Descriptor::U64AsF64 => self.out_option_sentinel64(AdapterType::U64),
            Descriptor::I64 => self.option_native(true, ValType::I64),
            Descriptor::U64 => self.option_native(false, ValType::I64),
            Descriptor::F32 => self.out_option_sentinel64(AdapterType::F32),
            Descriptor::F64 => self.option_native(true, ValType::F64),
            Descriptor::I128 => {
                self.instruction(
                    three(AdapterType::I32, AdapterType::I64, AdapterType::I64),
                    Instruction::OptionWasmToInt128 { signed: true },
                    one(option_of(AdapterType::S128)),
                );
            },
            Descriptor::U128 => {
                self.instruction(
                    three(AdapterType::I32, AdapterType::I64, AdapterType::I64),
                    Instruction::OptionWasmToInt128 { signed: false },
                    one(option_of(AdapterType::U128)),
                );
            },
            Descriptor::Boolean => {
                self.instruction(one(AdapterType::I32), Instruction::OptionBoolFromI32, one(option_of(AdapterType::Bool)));
            },
            Descriptor::Char => {
                self.instruction(
                    one(AdapterType::I32),
                    Instruction::OptionCharFromI32,
                    one(option_of(AdapterType::String)),
                );
            },
            Descriptor::Enum { name, hole } => {
                self.instruction(
                    one(AdapterType::I32),
                    Instruction::OptionEnumFromI32 { hole: *hole },
                    one(option_of(AdapterType::Enum(name.clone()))),
                );
            },
            Descriptor::StringEnum { name, .. } => {
                self.instruction(
                    one(AdapterType::I32),
                    Instruction::OptionWasmToStringEnum { name: name.clone() },
                    one(option_of(AdapterType::StringEnum(name.clone()))),
                );
            },
            Descriptor::RustStruct(name) => {
                let ptr_ty = self.struct_ptr_ty();
                self.instruction(
                    one(ptr_ty),
                    Instruction::OptionRustFromI32 { class: name.clone() },
                    one(option_of(AdapterType::Struct(name.clone()))),
                );
            },
            Descriptor::Ref(d) => return self.outgoing_option_ref(false, d),
            Descriptor::RefMut(d) => return self.outgoing_option_ref(true, d),
            Descriptor::CachedString => return self.cached_string(true),
            Descriptor::String | Descriptor::Vector(_) => {
                return self.vector_like(arg, OutgoingError::UnsupportedOptionalSlice, true, 3);
            },
            Descriptor::NonNull => {
                let ptr_ty = self.struct_ptr_ty();
                self.instruction(one(ptr_ty), Instruction::OptionNonNullFromI32, one(option_of(AdapterType::NonNull)));
            },
            Descriptor::RawPointer => self.out_option_sentinel64(AdapterType::U32),
            _ => return Err(OutgoingError::UnsupportedOption),
        }
        Ok(())
    }

    /// Lowers the `Ok` value of type `arg` of a `Result` returned by an
    /// exported function: the error, if any, is thrown first.
    fn outgoing_result(&mut self, arg: &Descriptor) -> (r: Result<(), OutgoingError>)
        ensures
            final(self).env() == old(self).env(),
            lowered_as(old(self).ops@, final(self).ops@, r, lower(old(self).env(), *arg, 3)),
        decreases *arg, 3nat,
    {
        let ghost b = old(self).env();
        let ghost n = old(self).ops@.len() as int;
        match arg {
            Descriptor::String => {
                let w1 = self.outgoing_internal_word_ty();
                let w2 = self.outgoing_internal_word_ty();
                self.ops.push(Op::Get(w1));
                self.ops.push(Op::Get(w2));
                self.ops.push(Op::Get(AdapterType::I32));
                self.ops.push(Op::Get(AdapterType::I32));
                self.ops.push(Op::Push { instr: Instruction::UnwrapResultString, popped: 4, pushed: 2 });
                assert(op_is(self.ops@[n], OpView::Get(word_ty(b))));
                assert(op_is(self.ops@[n + 1], OpView::Get(word_ty(b))));
                assert(op_is(self.ops@[n + 2], OpView::Get(AdapterType::I32)));
                assert(op_is(self.ops@[n + 3], OpView::Get(AdapterType::I32)));
                let free = match self.free {
                    Some(f) => f,
                    None => return Err(OutgoingError::NoFree),
                };
                self.ops.push(Op::Push { instr: Instruction::DeferFree { free, align: 1 }, popped: 2, pushed: 2 });
                let mem = match self.memory {
                    Some(m) => m,
                    None => return Err(OutgoingError::NoMemory),
                };
                self.ops.push(Op::Push { instr: Instruction::MemoryToString(mem), popped: 2, pushed: 1 });
                self.ops.push(Op::Output(AdapterType::String));
                Ok(())
            },
            Descriptor::ClampedU8
            | Descriptor::Function(_)
            | Descriptor::Closure(_)
            | Descriptor::Slice(_)
            | Descriptor::Result(_) => Err(OutgoingError::UnsupportedResult),
            _ => {
                // The error is thrown before the value is read, though its
                // two words come last.
                self.ops.push(Op::Push { instr: Instruction::UnwrapResult, popped: 2, pushed: 0 });
                let ghost first = seq![OpView::Push { instr: Instruction::UnwrapResult, popped: 2, pushed: 0 }];
                let ghost mid = self.ops@;
                assert(extended(old(self).ops@, mid, first)) by {
                    assert(op_is(mid[n], first[0]));
                }
                let res = self._outgoing(arg);
                proof {
                    lemma_extended_trans(old(self).ops@, mid, self.ops@, first, lower(b, *arg, 0).0);
                }
                if res.is_err() {
                    return res;
                }
                let ghost before_gets = self.ops@;
                self.ops.push(Op::Get(AdapterType::I32));
                self.ops.push(Op::Get(AdapterType::I32));
                proof {
                    let gets = seq![OpView::Get(AdapterType::I32), OpView::Get(AdapterType::I32)];
                    assert(extended(before_gets, self.ops@, gets)) by {
                        assert(op_is(self.ops@[before_gets.len() as int], gets[0]));
                    }
                    lemma_extended_trans(old(self).ops@, before_gets, self.ops@, first + lower(b, *arg, 0).0, gets);
                }
                Ok(())
            },
        }
    }

    /// Lowers an optional reference to a value of type `arg`.
    fn outgoing_option_ref(&mut self, _mutable: bool, arg: &Descriptor) -> (r: Result<(), OutgoingError>)
        ensures
            final(self).env() == old(self).env(),
            lowered_as(old(self).ops@, final(self).ops@, r, lower(old(self).env(), *arg, 5)),
        decreases *arg, 5nat,
    {
        match arg {
            Descriptor::Externref => {
                self.instruction(one(AdapterType::I32), Instruction::TableGet, one(option_of(AdapterType::Externref)));
            },
            Descriptor::NamedExternref(name) => {
                self.instruction(
                    one(AdapterType::I32),
                    Instruction::TableGet,
                    one(option_of(AdapterType::NamedExternref(name.clone()))),
                );
            },
            Descriptor::CachedString => return self.cached_string(false),
            Descriptor::String | Descriptor::Slice(_) => {
                return self.vector_like(arg, OutgoingError::UnsupportedOptionalSlice, false, 4);
            },
            Descriptor::Vector(_) => {
                return self.vector_like(arg, OutgoingError::UnsupportedOptionalVector, true, 5);
            },
            _ => return Err(OutgoingError::UnsupportedOptionRef),
        }
        Ok(())
    }
}

} // verus!

verus! {

/// How many Wasm values an operation takes.
pub open spec fn op_inputs(o: OpView) -> nat {
    match o {
        OpView::Instr { inputs, .. } => inputs.len(),
        OpView::Get(_) => 1,
        OpView::Push { .. } => 0,
        OpView::Output(_) => 0,
        OpView::Closure { .. } => 2,
    }
}

/// How many JavaScript values an operation makes.
pub open spec fn op_outputs(o: OpView) -> nat {
    match o {
        OpView::Instr { outputs, .. } => outputs.len(),
        OpView::Get(_) => 0,
        OpView::Push { .. } => 0,
        OpView::Output(_) => 1,
        OpView::Closure { .. } => 1,
    }
}

/// How many Wasm values the operations take.
pub open spec fn inputs_taken(ops: Seq<OpView>) -> nat
    decreases ops.len(),
{
    if ops.len() == 0 {
        0
    } else {
        inputs_taken(ops.drop_last()) + op_inputs(ops.last())
    }
}

/// How many JavaScript values the operations make.
pub open spec fn outputs_made(ops: Seq<OpView>) -> nat
    decreases ops.len(),
{
    if ops.len() == 0 {
        0
    } else {
        outputs_made(ops.drop_last()) + op_outputs(ops.last())
    }
}

proof fn lemma_counts_add(a: Seq<OpView>, b: Seq<OpView>)
    ensures
        inputs_taken(a + b) == inputs_taken(a) + inputs_taken(b),
        outputs_made(a + b) == outputs_made(a) + outputs_made(b),
    decreases b.len(),
{
    if b.len() > 0 {
        lemma_counts_add(a, b.drop_last());
        assert((a + b).drop_last() =~= a + b.drop_last());
    }
}

/// The JavaScript values that lowering `d` in `mode` makes: none for a
/// `Result<()>` (and the `()` of a result), one otherwise.
pub open spec fn expected_outputs(d: Descriptor, mode: nat) -> nat {
    if (mode == 0 && (d matches Descriptor::Result(x) && *x is Unit)) || (mode == 3 && d is Unit) {
        0
    } else {
        1
    }
}

proof fn lemma_instr_shape(ins: Seq<AdapterType>, i: Instruction, outs: Seq<AdapterType>)
    ensures
        inputs_taken(instr_op(ins, i, outs)) == ins.len(),
        outputs_made(instr_op(ins, i, outs)) == outs.len(),
{
    reveal_with_fuel(inputs_taken, 2);
    reveal_with_fuel(outputs_made, 2);
}

proof fn lemma_pass_shape(x: AdapterType, y: AdapterType)
    ensures
        inputs_taken(seq![OpView::Get(x), OpView::Output(y)]) == 1,
        outputs_made(seq![OpView::Get(x), OpView::Output(y)]) == 1,
{
    reveal_with_fuel(inputs_taken, 3);
    reveal_with_fuel(outputs_made, 3);
}

/// The shapes of the lowerings that take no inner descriptor.
proof fn lemma_leaf_shapes(b: BuilderEnv)
    ensures
        forall|ins: Seq<AdapterType>, i: Instruction, outs: Seq<AdapterType>|
            inputs_taken(#[trigger] instr_op(ins, i, outs)) == ins.len() && outputs_made(instr_op(ins, i, outs))
                == outs.len(),
        forall|x: AdapterType, y: AdapterType|
            inputs_taken(#[trigger] seq![OpView::Get(x), OpView::Output(y)]) == 1 && outputs_made(
                seq![OpView::Get(x), OpView::Output(y)],
            ) == 1,
        string_ops(b).1 is None ==> inputs_taken(string_ops(b).0) > 0 && outputs_made(string_ops(b).0) == 1,
        forall|m: bool, f: Function, o: Option<bool>|
            inputs_taken(#[trigger] closure_ops(b, m, f, o)) == 2 && outputs_made(closure_ops(b, m, f, o)) == 1,
{
    assert forall|ins: Seq<AdapterType>, i: Instruction, outs: Seq<AdapterType>|
        inputs_taken(#[trigger] instr_op(ins, i, outs)) == ins.len() && outputs_made(instr_op(ins, i, outs))
            == outs.len() by {
        lemma_instr_shape(ins, i, outs);
    }
    assert forall|x: AdapterType, y: AdapterType|
        inputs_taken(#[trigger] seq![OpView::Get(x), OpView::Output(y)]) == 1 && outputs_made(
            seq![OpView::Get(x), OpView::Output(y)],
        ) == 1 by {
        lemma_pass_shape(x, y);
    }
    reveal_with_fuel(inputs_taken, 6);
    reveal_with_fuel(outputs_made, 6);
    assert forall|m: bool, f: Function, o: Option<bool>|
        inputs_taken(#[trigger] closure_ops(b, m, f, o)) == 2 && outputs_made(closure_ops(b, m, f, o)) == 1 by {}
    if string_ops(b).1 is None {
        let w = word_ty(b);
        let ops = string_ops(b).0;
        assert(ops.len() == 5);
        assert(ops.drop_last().drop_last().drop_last() =~= seq![OpView::Get(w), OpView::Get(w)]);
    }
}

proof fn lemma_result_string_shape(b: BuilderEnv)
    ensures
        lower(b, Descriptor::String, 3).1 is None ==> inputs_taken(lower(b, Descriptor::String, 3).0) > 0
            && outputs_made(lower(b, Descriptor::String, 3).0) == 1,
{
    reveal_with_fuel(inputs_taken, 10);
    reveal_with_fuel(outputs_made, 10);
}

proof fn lemma_lowered_shape(b: BuilderEnv, d: Descriptor, mode: nat)
    requires
        mode <= 5,
        mode == 0 ==> !(d is Unit) && !(d is ClampedU8),
        lower(b, d, mode).1 is None,
    ensures
        inputs_taken(lower(b, d, mode).0) > 0,
        outputs_made(lower(b, d, mode).0) == expected_outputs(d, mode),
    decreases d, mode,
{
    lemma_leaf_shapes(b);
    if mode == 0 {
        match d {
            Descriptor::Ref(x) => lemma_lowered_shape(b, *x, 1),
            Descriptor::RefMut(x) => lemma_lowered_shape(b, *x, 2),
            Descriptor::Option(x) => lemma_lowered_shape(b, *x, 4),
            Descriptor::Result(x) => lemma_lowered_shape(b, *x, 3),
            _ => {},
        }
    } else if mode == 1 || mode == 2 {
        match d {
            Descriptor::Externref | Descriptor::NamedExternref(_) | Descriptor::CachedString | Descriptor::String
            | Descriptor::Slice(_) | Descriptor::Vector(_) | Descriptor::Function(_) | Descriptor::RefMut(_) => {},
            _ => {
                lemma_lowered_shape(b, d, 0);
            },
        }
    } else if mode == 3 {
        if d is String {
            lemma_result_string_shape(b);
        } else if result_of_plain(d) {
            let first = seq![OpView::Push { instr: Instruction::UnwrapResult, popped: 2, pushed: 0 }];
            let gets = seq![OpView::Get(AdapterType::I32), OpView::Get(AdapterType::I32)];
            reveal_with_fuel(inputs_taken, 3);
            reveal_with_fuel(outputs_made, 3);
            if !(d is Unit) {
                lemma_lowered_shape(b, d, 0);
            }
            let mid = lower(b, d, 0).0;
            assert(lower(b, d, 3).0 == first + mid + gets);
            lemma_counts_add(first, mid);
            lemma_counts_add(first + mid, gets);
        }
    } else if mode == 4 {
        match d {
            Descriptor::Ref(x) => lemma_lowered_shape(b, *x, 5),
            Descriptor::RefMut(x) => lemma_lowered_shape(b, *x, 5),
            _ => {},
        }
    }
}

/// Lowering an outgoing value other than `()` takes at least one Wasm
/// value and makes exactly one JavaScript value, but for a `Result<()>`,
/// which makes none.
pub proof fn lemma_outgoing_shape(b: BuilderEnv, d: Descriptor)
    requires
        !(d is Unit),
        !(d is ClampedU8),
        spec_outgoing(b, d).1 is None,
    ensures
        inputs_taken(spec_outgoing(b, d).0) > 0,
        outputs_made(spec_outgoing(b, d).0) == if d matches Descriptor::Result(x) && *x is Unit {
            0nat
        } else {
            1nat
        },
{
    lemma_lowered_shape(b, d, 0);
}

/// A shared reference to a scalar is passed on as the scalar itself: it is
/// lowered exactly as the scalar is. Behind a mutable reference the same
/// scalar is refused.
pub proof fn lemma_scalar_behind_ref(b: BuilderEnv, d: Descriptor)
    requires
        spec_is_scalar_by_shared_ref(d),
    ensures
        spec_outgoing(b, Descriptor::Ref(Box::new(d))) == spec_outgoing(b, d),
        spec_outgoing(b, Descriptor::RefMut(Box::new(d))) == fail(OutgoingError::UnsupportedBehindRef),
{
    assert(spec_outgoing(b, Descriptor::Ref(Box::new(d))) == lower(b, d, 1));
    assert(lower(b, d, 1) == lower(b, d, 0));
    assert(spec_outgoing(b, Descriptor::RefMut(Box::new(d))) == lower(b, d, 2));
}

/// The one operation that converts a Wasm `from` value to `to`.
pub open spec fn convert_op(from: AdapterType, instr: Instruction, to: AdapterType) -> Lowered {
    (seq![OpView::Instr { inputs: seq![from], instr, outputs: seq![to] }], None)
}

/// Lowering keeps an integer's signedness and width: a signed Rust integer
/// reaches JavaScript through a signed conversion to the signed adapter
/// type of its width, an unsigned one through the unsigned conversion to
/// the unsigned type. So `i64` and `u64` differ exactly in the conversion's
/// `unsigned` flag and the output type, and `-1i64` stays `-1n`.
pub proof fn lemma_integers_keep_their_signedness(b: BuilderEnv)
    ensures
        spec_outgoing(b, Descriptor::I8) == convert_op(
            AdapterType::I32,
            Instruction::WasmToInt32 { unsigned_32: false },
            AdapterType::S8,
        ),
        spec_outgoing(b, Descriptor::U8) == convert_op(
            AdapterType::I32,
            Instruction::WasmToInt32 { unsigned_32: false },
            AdapterType::U8,
        ),
        spec_outgoing(b, Descriptor::I16) == convert_op(
            AdapterType::I32,
            Instruction::WasmToInt32 { unsigned_32: false },
            AdapterType::S16,
        ),
        spec_outgoing(b, Descriptor::U16) == convert_op(
            AdapterType::I32,
            Instruction::WasmToInt32 { unsigned_32: false },
            AdapterType::U16,
        ),
        spec_outgoing(b, Descriptor::I32) == convert_op(
            AdapterType::I32,
            Instruction::WasmToInt32 { unsigned_32: false },
            AdapterType::S32,
        ),
        spec_outgoing(b, Descriptor::U32) == convert_op(
            AdapterType::I32,
            Instruction::WasmToInt32 { unsigned_32: true },
            AdapterType::U32,
        ),
        spec_outgoing(b, Descriptor::I64) == convert_op(
            AdapterType::I64,
            Instruction::WasmToInt64 { unsigned: false },
            AdapterType::I64,
        ),
        spec_outgoing(b, Descriptor::U64) == convert_op(
            AdapterType::I64,
            Instruction::WasmToInt64 { unsigned: true },
            AdapterType::U64,
        ),
        spec_outgoing(b, Descriptor::I128) == (
            seq![
                OpView::Instr {
                    inputs: seq![AdapterType::I64, AdapterType::I64],
                    instr: Instruction::WasmToInt128 { signed: true },
                    outputs: seq![AdapterType::S128],
                },
            ],
            Option::<OutgoingError>::None,
        ),
        spec_outgoing(b, Descriptor::U128) == (
            seq![
                OpView::Instr {
                    inputs: seq![AdapterType::I64, AdapterType::I64],
                    instr: Instruction::WasmToInt128 { signed: false },
                    outputs: seq![AdapterType::U128],
                },
            ],
            Option::<OutgoingError>::None,
        ),
{
}

} // verus!
