//! A plain model of a Wasm module: the parts of a parsed module that the
//! descriptor interpreter and the codegen conventions read.
//!
//! Every item is referred to by its index in the module's lists: function
//! `f` is `funcs[f]`, global `g` is `globals[g]`, and so on. Instruction
//! sequences are referred to by their index in the function's `seqs`.

use vstd::prelude::*;
use crate::strings::{decimal, push_decimal, push_text};

verus! {

/// The abstract heap types of reference types.
#[derive(Debug, Clone, Copy, PartialEq, Eq, Structural)]
pub enum AbstractHeapType {
    Func,
    Extern,
    Any,
    /// `none`, the bottom of the `any` hierarchy.
    Bottom,
    NoExtern,
    NoFunc,
    Eq,
    Struct,
    Array,
    I31,
    Exn,
    NoExn,
}

/// The heap type of a reference type.
#[derive(Debug, Clone, Copy, PartialEq, Eq, Structural)]
pub enum HeapType {
    Abstract(AbstractHeapType),
    /// A type defined in the module, by its index.
    Concrete(u32),
    /// Exactly a type defined in the module, by its index.
    Exact(u32),
}

/// A reference type.
#[derive(Debug, Clone, Copy, PartialEq, Eq, Structural)]
pub struct RefType {
    pub nullable: bool,
    pub heap: HeapType,
}

/// The type of a Wasm value.
#[derive(Debug, Clone, Copy, PartialEq, Eq, Structural)]
pub enum ValType {
    I32,
    I64,
    F32,
    F64,
    V128,
    Ref(RefType),
}

/// The text format name of an abstract heap type.
pub open spec fn abstract_heap_text(h: AbstractHeapType) -> Seq<char> {
    match h {
        AbstractHeapType::Func => "func"@,
        AbstractHeapType::Extern => "extern"@,
        AbstractHeapType::Any => "any"@,
        AbstractHeapType::Bottom => "none"@,
        AbstractHeapType::NoExtern => "noextern"@,
        AbstractHeapType::NoFunc => "nofunc"@,
        AbstractHeapType::Eq => "eq"@,
        AbstractHeapType::Struct => "struct"@,
        AbstractHeapType::Array => "array"@,
        AbstractHeapType::I31 => "i31"@,
        AbstractHeapType::Exn => "exn"@,
        AbstractHeapType::NoExn => "noexn"@,
    }
}

/// The text format name of a heap type.
pub open spec fn heap_text(h: HeapType) -> Seq<char> {
    match h {
        HeapType::Abstract(a) => abstract_heap_text(a),
        HeapType::Concrete(i) => decimal(i as nat),
        HeapType::Exact(i) => "exact "@ + decimal(i as nat),
    }
}

/// The short name of a nullable abstract reference type, such as
/// `funcref`.
pub open spec fn nullable_abstract_text(h: AbstractHeapType) -> Seq<char> {
    match h {
        AbstractHeapType::Func => "funcref"@,
        AbstractHeapType::Extern => "externref"@,
        AbstractHeapType::Exn => "exnref"@,
        AbstractHeapType::Any => "anyref"@,
        AbstractHeapType::Eq => "eqref"@,
        AbstractHeapType::I31 => "i31ref"@,
        AbstractHeapType::Struct => "structref"@,
        AbstractHeapType::Array => "arrayref"@,
        AbstractHeapType::Bottom => "nullref"@,
        AbstractHeapType::NoExtern => "nullexternref"@,
        AbstractHeapType::NoFunc => "nullfuncref"@,
        AbstractHeapType::NoExn => "nullexnref"@,
    }
}

/// The text format name of a reference type: the short name of a
/// nullable abstract type, `(ref null ...)` for another nullable type, and
/// `(ref ...)` for a non-nullable one.
pub open spec fn ref_type_text(r: RefType) -> Seq<char> {
    if r.nullable {
        match r.heap {
            HeapType::Abstract(a) => nullable_abstract_text(a),
            HeapType::Concrete(i) => "(ref null "@ + decimal(i as nat) + ")"@,
            HeapType::Exact(i) => "(ref null exact "@ + decimal(i as nat) + ")"@,
        }
    } else {
        "(ref "@ + heap_text(r.heap) + ")"@
    }
}

/// The text format name of a value type, such as `i32`.
pub open spec fn val_type_text(t: ValType) -> Seq<char> {
    match t {
        ValType::I32 => "i32"@,
        ValType::I64 => "i64"@,
        ValType::F32 => "f32"@,
        ValType::F64 => "f64"@,
        ValType::V128 => "v128"@,
        ValType::Ref(r) => ref_type_text(r),
    }
}

fn push_abstract_heap(out: &mut String, h: AbstractHeapType)
    ensures
        final(out)@ == old(out)@ + abstract_heap_text(h),
{
    match h {
        AbstractHeapType::Func => push_text(out, "func"),
        AbstractHeapType::Extern => push_text(out, "extern"),
        AbstractHeapType::Any => push_text(out, "any"),
        AbstractHeapType::Bottom => push_text(out, "none"),
        AbstractHeapType::NoExtern => push_text(out, "noextern"),
        AbstractHeapType::NoFunc => push_text(out, "nofunc"),
        AbstractHeapType::Eq => push_text(out, "eq"),
        AbstractHeapType::Struct => push_text(out, "struct"),
        AbstractHeapType::Array => push_text(out, "array"),
        AbstractHeapType::I31 => push_text(out, "i31"),
        AbstractHeapType::Exn => push_text(out, "exn"),
        AbstractHeapType::NoExn => push_text(out, "noexn"),
    }
}

fn push_nullable_abstract(out: &mut String, h: AbstractHeapType)
    ensures
        final(out)@ == old(out)@ + nullable_abstract_text(h),
{
    match h {
        AbstractHeapType::Func => push_text(out, "funcref"),
        AbstractHeapType::Extern => push_text(out, "externref"),
        AbstractHeapType::Exn => push_text(out, "exnref"),
        AbstractHeapType::Any => push_text(out, "anyref"),
        AbstractHeapType::Eq => push_text(out, "eqref"),
        AbstractHeapType::I31 => push_text(out, "i31ref"),
        AbstractHeapType::Struct => push_text(out, "structref"),
        AbstractHeapType::Array => push_text(out, "arrayref"),
        AbstractHeapType::Bottom => push_text(out, "nullref"),
        AbstractHeapType::NoExtern => push_text(out, "nullexternref"),
        AbstractHeapType::NoFunc => push_text(out, "nullfuncref"),
        AbstractHeapType::NoExn => push_text(out, "nullexnref"),
    }
}

/// Appends the text format name of a value type to `out`.
pub fn push_val_type(out: &mut String, t: ValType)
    ensures
        final(out)@ == old(out)@ + val_type_text(t),
{
    let ghost o = out@;
    match t {
        ValType::I32 => push_text(out, "i32"),
        ValType::I64 => push_text(out, "i64"),
        ValType::F32 => push_text(out, "f32"),
        ValType::F64 => push_text(out, "f64"),
        ValType::V128 => push_text(out, "v128"),
        ValType::Ref(r) => {
            if r.nullable {
                match r.heap {
                    HeapType::Abstract(a) => push_nullable_abstract(out, a),
                    HeapType::Concrete(i) => {
                        push_text(out, "(ref null ");
                        push_decimal(out, i as u64);
                        push_text(out, ")");
                    },
                    HeapType::Exact(i) => {
                        push_text(out, "(ref null exact ");
                        push_decimal(out, i as u64);
                        push_text(out, ")");
                    },
                }
            } else {
                push_text(out, "(ref ");
                match r.heap {
                    HeapType::Abstract(a) => push_abstract_heap(out, a),
                    HeapType::Concrete(i) => push_decimal(out, i as u64),
                    HeapType::Exact(i) => {
                        push_text(out, "exact ");
                        push_decimal(out, i as u64);
                    },
                }
                push_text(out, ")");
            }
        },
    }
    proof {
        assert(out@ =~= o + val_type_text(t));
    }
}

/// A constant value; floating-point constants are kept as their bit
/// patterns.
#[derive(Debug, Clone, Copy, PartialEq, Eq, Structural)]
pub enum Value {
    I32(i32),
    I64(i64),
    F32Bits(u32),
    F64Bits(u64),
    V128(u128),
}

/// One operation of an extended constant expression.
#[derive(Debug, Clone, Copy, PartialEq, Eq, Structural)]
pub enum ConstOp {
    I32Const(i32),
    I64Const(i64),
    F32Const(u32),
    F64Const(u64),
    GlobalGet(usize),
    I32Add,
    I32Sub,
    I32Mul,
    I64Add,
    I64Sub,
    I64Mul,
    /// Any other operation (reference, vector and aggregate constructors).
    Other,
}

/// A constant expression, as used by global initialisers and segment
/// offsets.
#[derive(Debug, Clone, PartialEq, Eq)]
pub enum ConstExpr {
    Value(Value),
    Global(usize),
    RefNull,
    RefFunc(usize),
    Extended(Vec<ConstOp>),
}

/// A function type.
#[derive(Debug, Clone, PartialEq, Eq)]
pub struct FuncType {
    pub params: Vec<ValType>,
    pub results: Vec<ValType>,
}

/// How a global is defined.
#[derive(Debug, Clone, PartialEq, Eq)]
pub enum GlobalKind {
    /// Imported; the payload is the index of the import.
    Import(usize),
    /// Defined in the module with this initialiser.
    Local(ConstExpr),
}

/// A global variable.
#[derive(Debug, Clone, PartialEq, Eq)]
pub struct Global {
    pub ty: ValType,
    pub mutable: bool,
    pub name: Option<String>,
    pub kind: GlobalKind,
}

/// What an import brings in.
#[derive(Debug, Clone, Copy, PartialEq, Eq, Structural)]
pub enum ImportKind {
    Function(usize),
    Global(usize),
    Table(usize),
    Memory(usize),
    Tag(usize),
}

/// An import.
#[derive(Debug, Clone, PartialEq, Eq)]
pub struct Import {
    pub module: String,
    pub name: String,
    pub kind: ImportKind,
}

/// What an export makes visible.
#[derive(Debug, Clone, Copy, PartialEq, Eq, Structural)]
pub enum ExportItem {
    Function(usize),
    Global(usize),
    Table(usize),
    Memory(usize),
    Tag(usize),
}

/// An export.
#[derive(Debug, Clone, PartialEq, Eq)]
pub struct Export {
    pub name: String,
    pub item: ExportItem,
}

/// A linear memory.
#[derive(Debug, Clone, PartialEq, Eq)]
pub struct Memory {
    /// Initial size in pages of 64 KiB.
    pub initial: u64,
    /// Whether addresses are 64-bit (a memory64 memory).
    pub memory64: bool,
    /// Whether the memory is shared between threads.
    pub shared: bool,
}

/// A table.
#[derive(Debug, Clone, PartialEq, Eq)]
pub struct Table {
    pub initial: u64,
    /// Whether the table holds function references.
    pub funcref: bool,
    /// The element segments that initialise this table, by index.
    pub elem_segments: Vec<usize>,
}

/// How an element segment is applied.
#[derive(Debug, Clone, PartialEq, Eq)]
pub enum ElementKind {
    Passive,
    Declared,
    Active { table: usize, offset: ConstExpr },
}

/// The items of an element segment.
#[derive(Debug, Clone, PartialEq, Eq)]
pub enum ElementItems {
    Functions(Vec<usize>),
    Expressions(Vec<ConstExpr>),
}

/// An element segment.
#[derive(Debug, Clone, PartialEq, Eq)]
pub struct Element {
    pub kind: ElementKind,
    pub items: ElementItems,
}

/// The binary operations, with the 32- and 64-bit forms of an operation
/// merged: the interpreter computes both on 32-bit words.
#[derive(Debug, Clone, Copy, PartialEq, Eq, Structural)]
pub enum BinaryOp {
    Sub,
    Add,
    And,
    Or,
    Xor,
    Shl,
    Eq,
    Ne,
    LtU,
    LtS,
    GtU,
    GtS,
    LeU,
    LeS,
    GeU,
    GeS,
    /// Any other binary operation.
    Other,
}

/// The unary operations that the interpreter knows.
#[derive(Debug, Clone, Copy, PartialEq, Eq, Structural)]
pub enum UnaryOp {
    /// `i32.wrap_i64`
    WrapI64,
    /// `i64.extend_i32_u` and `i64.extend_i32_s`
    ExtendI32,
    /// `i32.eqz` and `i64.eqz`
    Eqz,
    /// Any other unary operation.
    Other,
}

/// The kind of a load, as far as the interpreter distinguishes them.
#[derive(Debug, Clone, Copy, PartialEq, Eq, Structural)]
pub enum LoadKind {
    /// A load of an 8-bit value into an i32, sign- or zero-extended.
    I32Byte { sign_extend: bool },
    /// Any other load, by its width in bytes.
    Width(u32),
}

/// A catch clause of a `try_table`: which exceptions it catches (by tag,
/// or all), whether the exception reference is kept, and the block that
/// it branches to.
#[derive(Debug, Clone, Copy, PartialEq, Eq, Structural)]
pub enum TryTableCatch {
    Catch { tag: usize, label: usize },
    CatchRef { tag: usize, label: usize },
    CatchAll { label: usize },
    CatchAllRef { label: usize },
}

/// One instruction.
#[derive(Debug, Clone, PartialEq, Eq)]
pub enum Instr {
    Const(Value),
    LocalGet(usize),
    LocalSet(usize),
    LocalTee(usize),
    GlobalGet(usize),
    GlobalSet(usize),
    Binop(BinaryOp),
    Unop(UnaryOp),
    Load { kind: LoadKind, offset: u64 },
    Store { width: u32, offset: u64 },
    Return,
    Drop,
    Call(usize),
    ReturnCall(usize),
    /// An indirect call through the function table, with the expected type.
    CallIndirect(usize),
    ReturnCallIndirect(usize),
    Block(usize),
    Loop(usize),
    IfElse(usize, usize),
    Br(usize),
    BrIf(usize),
    BrTable(Vec<usize>, usize),
    Select,
    Try(usize),
    /// A `try_table` block: the sequence and its catch clauses.
    TryTable(usize, Vec<TryTableCatch>),
    /// `memory.discard` (memory-control proposal) on a memory.
    MemoryDiscard(usize),
    /// `memory.copy` from memory `src` to memory `dst`.
    MemoryCopy { src: usize, dst: usize },
    /// `throw_ref`
    ThrowRef,
    /// `unreachable`
    Unreachable,
    /// Any instruction the interpreter does not know.
    Unsupported,
}

/// A function defined in the module.
#[derive(Debug, Clone, PartialEq, Eq)]
pub struct LocalFunction {
    /// The locals holding the arguments, in order.
    pub args: Vec<usize>,
    /// The sequence that is the function body.
    pub entry: usize,
    /// All instruction sequences of the body, by index.
    pub seqs: Vec<Vec<Instr>>,
}

/// How a function is defined.
#[derive(Debug, Clone, PartialEq, Eq)]
pub enum FunctionKind {
    /// Imported; the payload is the index of the import.
    Import(usize),
    Local(LocalFunction),
    Uninitialized,
}

/// A function.
#[derive(Debug, Clone, PartialEq, Eq)]
pub struct Func {
    /// Index of the function's type.
    pub ty: usize,
    pub name: Option<String>,
    pub kind: FunctionKind,
}

/// An exception tag.
#[derive(Debug, Clone, PartialEq, Eq)]
pub struct Tag {
    /// Whether the tag is defined in the module (rather than imported).
    pub local: bool,
}

/// A custom section, as its name and raw bytes.
#[derive(Debug, Clone, PartialEq, Eq)]
pub struct CustomSection {
    pub name: String,
    pub data: Vec<u8>,
}

/// The positions, in order, of the elements of `s` that satisfy `p`.
pub open spec fn indices_where<A>(s: Seq<A>, p: spec_fn(A) -> bool) -> Seq<usize>
    decreases s.len(),
{
    if s.len() == 0 {
        seq![]
    } else {
        let rest = indices_where(s.drop_last(), p);
        if p(s.last()) {
            rest.push((s.len() - 1) as usize)
        } else {
            rest
        }
    }
}

/// The positions that [`indices_where`] lists are in range, strictly
/// increasing, and exactly those of the elements that satisfy `p`.
pub proof fn lemma_indices_where<A>(s: Seq<A>, p: spec_fn(A) -> bool)
    requires
        s.len() <= usize::MAX,
    ensures
        forall|k: int| 0 <= k < indices_where(s, p).len() ==> #[trigger] indices_where(s, p)[k] < s.len()
            && p(s[indices_where(s, p)[k] as int]),
        forall|k: int, l: int| 0 <= k < l < indices_where(s, p).len() ==> #[trigger] indices_where(s, p)[k]
            < #[trigger] indices_where(s, p)[l],
        forall|i: int| 0 <= i < s.len() && p(#[trigger] s[i]) ==> indices_where(s, p).contains(i as usize),
    decreases s.len(),
{
    if s.len() > 0 {
        lemma_indices_where(s.drop_last(), p);
        let rest = indices_where(s.drop_last(), p);
        let all = indices_where(s, p);
        assert forall|k: int| 0 <= k < all.len() implies #[trigger] all[k] < s.len() && p(s[all[k] as int]) by {
            if k < rest.len() {
                assert(all[k] == rest[k]);
                assert(s.drop_last()[rest[k] as int] == s[rest[k] as int]);
            }
        }
        assert forall|k: int, l: int| 0 <= k < l < all.len() implies #[trigger] all[k] < #[trigger] all[l] by {
            if l < rest.len() {
                assert(all[k] == rest[k] && all[l] == rest[l]);
            } else {
                assert(all[k] == rest[k]);
            }
        }
        assert forall|i: int| 0 <= i < s.len() && p(#[trigger] s[i]) implies indices_where(s, p).contains(i as usize) by {
            if i < s.len() - 1 {
                assert(s.drop_last()[i] == s[i]);
                let k = choose|k: int| 0 <= k < rest.len() && rest[k] == i as usize;
                if p(s.last()) {
                    assert(indices_where(s, p)[k] == i as usize);
                }
            } else {
                assert(indices_where(s, p).last() == i as usize);
            }
        }
    }
}

/// A Wasm module.
#[derive(Debug, Clone, PartialEq, Eq)]
pub struct Module {
    pub types: Vec<FuncType>,
    pub funcs: Vec<Func>,
    pub globals: Vec<Global>,
    pub imports: Vec<Import>,
    pub exports: Vec<Export>,
    pub memories: Vec<Memory>,
    pub tables: Vec<Table>,
    pub elements: Vec<Element>,
    pub tags: Vec<Tag>,
    pub customs: Vec<CustomSection>,
    /// The start function.
    pub start: Option<usize>,
}

} // verus!
