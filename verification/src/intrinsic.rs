//! The wasm-bindgen intrinsics: the functions that the generated glue
//! provides to a module, each known by its import symbol, and the
//! JavaScript that a call of each becomes.

use vstd::prelude::*;
use crate::strings::{push_text, text_is};

verus! {

/// All wasm-bindgen intrinsics that could be depended on by a wasm module.
#[derive(Debug, Clone, Copy, PartialEq, Eq, Structural)]
pub enum Intrinsic {
    JsvalEq,
    JsvalLooseEq,
    IsFunction,
    IsUndefined,
    IsNull,
    ObjectIsNullOrUndefined,
    ObjectIsUndefined,
    IsObject,
    IsSymbol,
    IsString,
    IsBigInt,
    Typeof,
    In,
    IsFalsy,
    TryIntoNumber,
    Neg,
    BitAnd,
    BitOr,
    BitXor,
    BitNot,
    Shl,
    Shr,
    UnsignedShr,
    Add,
    Sub,
    Div,
    CheckedDiv,
    Mul,
    Rem,
    Pow,
    LT,
    LE,
    GE,
    GT,
    ObjectCloneRef,
    ObjectDropRef,
    BigIntGetAsI64,
    NumberGet,
    StringGet,
    BooleanGet,
    Throw,
    Rethrow,
    Memory,
    Exports,
    Module,
    FunctionTable,
    DebugString,
    CopyToTypedArray,
    ExternrefHeapLiveCount,
    InitExternrefTable,
    PanicError,
}

/// The import symbol of an intrinsic.
pub open spec fn intrinsic_symbol(i: Intrinsic) -> Seq<char> {
    match i {
        Intrinsic::JsvalEq => "__wbindgen_jsval_eq"@,
        Intrinsic::JsvalLooseEq => "__wbindgen_jsval_loose_eq"@,
        Intrinsic::IsFunction => "__wbindgen_is_function"@,
        Intrinsic::IsUndefined => "__wbindgen_is_undefined"@,
        Intrinsic::IsNull => "__wbindgen_is_null"@,
        Intrinsic::ObjectIsNullOrUndefined => "__wbindgen_object_is_null_or_undefined"@,
        Intrinsic::ObjectIsUndefined => "__wbindgen_object_is_undefined"@,
        Intrinsic::IsObject => "__wbindgen_is_object"@,
        Intrinsic::IsSymbol => "__wbindgen_is_symbol"@,
        Intrinsic::IsString => "__wbindgen_is_string"@,
        Intrinsic::IsBigInt => "__wbindgen_is_bigint"@,
        Intrinsic::Typeof => "__wbindgen_typeof"@,
        Intrinsic::In => "__wbindgen_in"@,
        Intrinsic::IsFalsy => "__wbindgen_is_falsy"@,
        Intrinsic::TryIntoNumber => "__wbindgen_try_into_number"@,
        Intrinsic::Neg => "__wbindgen_neg"@,
        Intrinsic::BitAnd => "__wbindgen_bit_and"@,
        Intrinsic::BitOr => "__wbindgen_bit_or"@,
        Intrinsic::BitXor => "__wbindgen_bit_xor"@,
        Intrinsic::BitNot => "__wbindgen_bit_not"@,
        Intrinsic::Shl => "__wbindgen_shl"@,
        Intrinsic::Shr => "__wbindgen_shr"@,
        Intrinsic::UnsignedShr => "__wbindgen_unsigned_shr"@,
        Intrinsic::Add => "__wbindgen_add"@,
        Intrinsic::Sub => "__wbindgen_sub"@,
        Intrinsic::Div => "__wbindgen_div"@,
        Intrinsic::CheckedDiv => "__wbindgen_checked_div"@,
        Intrinsic::Mul => "__wbindgen_mul"@,
        Intrinsic::Rem => "__wbindgen_rem"@,
        Intrinsic::Pow => "__wbindgen_pow"@,
        Intrinsic::LT => "__wbindgen_lt"@,
        Intrinsic::LE => "__wbindgen_le"@,
        Intrinsic::GE => "__wbindgen_ge"@,
        Intrinsic::GT => "__wbindgen_gt"@,
        Intrinsic::ObjectCloneRef => "__wbindgen_object_clone_ref"@,
        Intrinsic::ObjectDropRef => "__wbindgen_object_drop_ref"@,
        Intrinsic::BigIntGetAsI64 => "__wbindgen_bigint_get_as_i64"@,
        Intrinsic::NumberGet => "__wbindgen_number_get"@,
        Intrinsic::StringGet => "__wbindgen_string_get"@,
        Intrinsic::BooleanGet => "__wbindgen_boolean_get"@,
        Intrinsic::Throw => "__wbindgen_throw"@,
        Intrinsic::Rethrow => "__wbindgen_rethrow"@,
        Intrinsic::Memory => "__wbindgen_memory"@,
        Intrinsic::Exports => "__wbindgen_exports"@,
        Intrinsic::Module => "__wbindgen_module"@,
        Intrinsic::FunctionTable => "__wbindgen_function_table"@,
        Intrinsic::DebugString => "__wbindgen_debug_string"@,
        Intrinsic::CopyToTypedArray => "__wbindgen_copy_to_typed_array"@,
        Intrinsic::ExternrefHeapLiveCount => "__wbindgen_externref_heap_live_count"@,
        Intrinsic::InitExternrefTable => "__wbindgen_init_externref_table"@,
        Intrinsic::PanicError => "__wbindgen_panic_error"@,
    }
}

/// The error for a symbol that names no intrinsic.
pub open spec fn unknown_intrinsic_message(symbol: Seq<char>) -> Seq<char> {
    "unknown intrinsic `"@ + symbol + "`"@
}

impl Intrinsic {
    /// Returns the intrinsic whose symbol is `symbol`, or the error that
    /// none is.
    pub fn from_symbol(symbol: &str) -> (r: Result<Intrinsic, String>)
        ensures
            r matches Ok(i) ==> intrinsic_symbol(i) == symbol@,
            r is Err ==> forall|i: Intrinsic| intrinsic_symbol(i) != symbol@,
            r matches Err(m) ==> m@ == unknown_intrinsic_message(symbol@),
    {
        if text_is(symbol, "__wbindgen_jsval_eq") {
            Ok(Intrinsic::JsvalEq)
        } else if text_is(symbol, "__wbindgen_jsval_loose_eq") {
            Ok(Intrinsic::JsvalLooseEq)
        } else if text_is(symbol, "__wbindgen_is_function") {
            Ok(Intrinsic::IsFunction)
        } else if text_is(symbol, "__wbindgen_is_undefined") {
            Ok(Intrinsic::IsUndefined)
        } else if text_is(symbol, "__wbindgen_is_null") {
            Ok(Intrinsic::IsNull)
        } else if text_is(symbol, "__wbindgen_object_is_null_or_undefined") {
            Ok(Intrinsic::ObjectIsNullOrUndefined)
        } else if text_is(symbol, "__wbindgen_object_is_undefined") {
            Ok(Intrinsic::ObjectIsUndefined)
        } else if text_is(symbol, "__wbindgen_is_object") {
            Ok(Intrinsic::IsObject)
        } else if text_is(symbol, "__wbindgen_is_symbol") {
            Ok(Intrinsic::IsSymbol)
        } else if text_is(symbol, "__wbindgen_is_string") {
            Ok(Intrinsic::IsString)
        } else if text_is(symbol, "__wbindgen_is_bigint") {
            Ok(Intrinsic::IsBigInt)
        } else if text_is(symbol, "__wbindgen_typeof") {
            Ok(Intrinsic::Typeof)
        } else if text_is(symbol, "__wbindgen_in") {
            Ok(Intrinsic::In)
        } else if text_is(symbol, "__wbindgen_is_falsy") {
            Ok(Intrinsic::IsFalsy)
        } else if text_is(symbol, "__wbindgen_try_into_number") {
            Ok(Intrinsic::TryIntoNumber)
        } else if text_is(symbol, "__wbindgen_neg") {
            Ok(Intrinsic::Neg)
        } else if text_is(symbol, "__wbindgen_bit_and") {
            Ok(Intrinsic::BitAnd)
        } else if text_is(symbol, "__wbindgen_bit_or") {
            Ok(Intrinsic::BitOr)
        } else if text_is(symbol, "__wbindgen_bit_xor") {
            Ok(Intrinsic::BitXor)
        } else if text_is(symbol, "__wbindgen_bit_not") {
            Ok(Intrinsic::BitNot)
        } else if text_is(symbol, "__wbindgen_shl") {
            Ok(Intrinsic::Shl)
        } else if text_is(symbol, "__wbindgen_shr") {
            Ok(Intrinsic::Shr)
        } else if text_is(symbol, "__wbindgen_unsigned_shr") {
            Ok(Intrinsic::UnsignedShr)
        } else if text_is(symbol, "__wbindgen_add") {
            Ok(Intrinsic::Add)
        } else if text_is(symbol, "__wbindgen_sub") {
            Ok(Intrinsic::Sub)
        } else if text_is(symbol, "__wbindgen_div") {
            Ok(Intrinsic::Div)
        } else if text_is(symbol, "__wbindgen_checked_div") {
            Ok(Intrinsic::CheckedDiv)
        } else if text_is(symbol, "__wbindgen_mul") {
            Ok(Intrinsic::Mul)
        } else if text_is(symbol, "__wbindgen_rem") {
            Ok(Intrinsic::Rem)
        } else if text_is(symbol, "__wbindgen_pow") {
            Ok(Intrinsic::Pow)
        } else if text_is(symbol, "__wbindgen_lt") {
            Ok(Intrinsic::LT)
        } else if text_is(symbol, "__wbindgen_le") {
            Ok(Intrinsic::LE)
        } else if text_is(symbol, "__wbindgen_ge") {
            Ok(Intrinsic::GE)
        } else if text_is(symbol, "__wbindgen_gt") {
            Ok(Intrinsic::GT)
        } else if text_is(symbol, "__wbindgen_object_clone_ref") {
            Ok(Intrinsic::ObjectCloneRef)
        } else if text_is(symbol, "__wbindgen_object_drop_ref") {
            Ok(Intrinsic::ObjectDropRef)
        } else if text_is(symbol, "__wbindgen_bigint_get_as_i64") {
            Ok(Intrinsic::BigIntGetAsI64)
        } else if text_is(symbol, "__wbindgen_number_get") {
            Ok(Intrinsic::NumberGet)
        } else if text_is(symbol, "__wbindgen_string_get") {
            Ok(Intrinsic::StringGet)
        } else if text_is(symbol, "__wbindgen_boolean_get") {
            Ok(Intrinsic::BooleanGet)
        } else if text_is(symbol, "__wbindgen_throw") {
            Ok(Intrinsic::Throw)
        } else if text_is(symbol, "__wbindgen_rethrow") {
            Ok(Intrinsic::Rethrow)
        } else if text_is(symbol, "__wbindgen_memory") {
            Ok(Intrinsic::Memory)
        } else if text_is(symbol, "__wbindgen_exports") {
            Ok(Intrinsic::Exports)
        } else if text_is(symbol, "__wbindgen_module") {
            Ok(Intrinsic::Module)
        } else if text_is(symbol, "__wbindgen_function_table") {
            Ok(Intrinsic::FunctionTable)
        } else if text_is(symbol, "__wbindgen_debug_string") {
            Ok(Intrinsic::DebugString)
        } else if text_is(symbol, "__wbindgen_copy_to_typed_array") {
            Ok(Intrinsic::CopyToTypedArray)
        } else if text_is(symbol, "__wbindgen_externref_heap_live_count") {
            Ok(Intrinsic::ExternrefHeapLiveCount)
        } else if text_is(symbol, "__wbindgen_init_externref_table") {
            Ok(Intrinsic::InitExternrefTable)
        } else if text_is(symbol, "__wbindgen_panic_error") {
            Ok(Intrinsic::PanicError)
        } else {
            let mut m = String::new();
            push_text(&mut m, "unknown intrinsic `");
            push_text(&mut m, symbol);
            push_text(&mut m, "`");
            assert forall|i: Intrinsic| intrinsic_symbol(i) != symbol@ by {
                match i {
                    Intrinsic::JsvalEq => {},
                    Intrinsic::JsvalLooseEq => {},
                    Intrinsic::IsFunction => {},
                    Intrinsic::IsUndefined => {},
                    Intrinsic::IsNull => {},
                    Intrinsic::ObjectIsNullOrUndefined => {},
                    Intrinsic::ObjectIsUndefined => {},
                    Intrinsic::IsObject => {},
                    Intrinsic::IsSymbol => {},
                    Intrinsic::IsString => {},
                    Intrinsic::IsBigInt => {},
                    Intrinsic::Typeof => {},
                    Intrinsic::In => {},
                    Intrinsic::IsFalsy => {},
                    Intrinsic::TryIntoNumber => {},
                    Intrinsic::Neg => {},
                    Intrinsic::BitAnd => {},
                    Intrinsic::BitOr => {},
                    Intrinsic::BitXor => {},
                    Intrinsic::BitNot => {},
                    Intrinsic::Shl => {},
                    Intrinsic::Shr => {},
                    Intrinsic::UnsignedShr => {},
                    Intrinsic::Add => {},
                    Intrinsic::Sub => {},
                    Intrinsic::Div => {},
                    Intrinsic::CheckedDiv => {},
                    Intrinsic::Mul => {},
                    Intrinsic::Rem => {},
                    Intrinsic::Pow => {},
                    Intrinsic::LT => {},
                    Intrinsic::LE => {},
                    Intrinsic::GE => {},
                    Intrinsic::GT => {},
                    Intrinsic::ObjectCloneRef => {},
                    Intrinsic::ObjectDropRef => {},
                    Intrinsic::BigIntGetAsI64 => {},
                    Intrinsic::NumberGet => {},
                    Intrinsic::StringGet => {},
                    Intrinsic::BooleanGet => {},
                    Intrinsic::Throw => {},
                    Intrinsic::Rethrow => {},
                    Intrinsic::Memory => {},
                    Intrinsic::Exports => {},
                    Intrinsic::Module => {},
                    Intrinsic::FunctionTable => {},
                    Intrinsic::DebugString => {},
                    Intrinsic::CopyToTypedArray => {},
                    Intrinsic::ExternrefHeapLiveCount => {},
                    Intrinsic::InitExternrefTable => {},
                    Intrinsic::PanicError => {},
                }
            }
            Err(m)
        }
    }
}


/// The output the generator writes, as far as intrinsics depend on it.
#[derive(Debug, Clone, Copy, PartialEq, Eq, Structural)]
pub enum OutputMode {
    Bundler,
    Web,
    NoModules,
    Node,
    Deno,
    Module,
    Emscripten,
}

/// A name that the generator gives: where the module's memory, function
/// table and externref table are exported.
#[derive(Debug, Clone, Copy, PartialEq, Eq, Structural)]
pub enum EnvText {
    Memory,
    FunctionTable,
    ExternrefTable,
}

/// A piece of generated JavaScript: literal text, an argument by its
/// position, or a name of the generator.
#[derive(Debug, Clone, Copy)]
pub enum Piece {
    Lit(&'static str),
    Arg(usize),
    Env(EnvText),
}

/// What the generator knows of the module when it writes an intrinsic.
pub struct IntrinsicEnv {
    pub mode: OutputMode,
    /// Whether JS exceptions are thrown wrapped in the module's JS tag.
    pub wrapped_js_tag: bool,
    /// How many memories the module has.
    pub memory_count: usize,
    /// The name under which the module's memory is exported.
    pub memory_export: String,
    /// The name under which the function table is exported, if there is one.
    pub function_table_export: Option<String>,
    /// The name under which the externref table is exported, if externref
    /// is enabled.
    pub externref_table_export: Option<String>,
}

/// A JavaScript helper that the generated code needs defined.
#[derive(Debug, Clone, Copy, PartialEq, Eq, Structural)]
pub enum JsHelper {
    /// `debugString`, also a dependency of the adapter.
    DebugString,
    /// The global heap of JS values.
    GlobalHeap,
    /// The `PanicError` class.
    PanicError,
}

/// Why an intrinsic cannot be written.
#[derive(Debug, Clone, Copy, PartialEq, Eq, Structural)]
pub enum IntrinsicError {
    /// `wasm_bindgen::module` in an output mode without a module value.
    ModuleUnsupported,
    /// The memory intrinsic in a module without memory.
    NoMemory,
    /// The memory intrinsic in a module with several memories.
    MultipleMemories,
    /// The function table intrinsic in a module without one.
    NoFunctionTable,
    /// The externref table intrinsic without externref.
    NoExternrefTable,
}

/// The message of an [`IntrinsicError`].
pub open spec fn intrinsic_error_message(e: IntrinsicError) -> Seq<char> {
    match e {
        IntrinsicError::ModuleUnsupported => "`wasm_bindgen::module` is currently only supported with `--target no-modules`, `--target web`, `--target module`, `--target nodejs` and `--target experimental-nodejs-module`"@,
        IntrinsicError::NoMemory => "no memory found to return in memory intrinsic"@,
        IntrinsicError::MultipleMemories => "multiple memories found, unsure which to return from memory intrinsic"@,
        IntrinsicError::NoFunctionTable => "no function table found in module"@,
        IntrinsicError::NoExternrefTable => "must enable externref to use externref intrinsic"@,
    }
}

impl IntrinsicError {
    /// The error's message.
    pub fn message(&self) -> (s: String)
        ensures
            s@ == intrinsic_error_message(*self),
    {
        let mut s = String::new();
        match self {
            IntrinsicError::ModuleUnsupported => push_text(&mut s, "`wasm_bindgen::module` is currently only supported with `--target no-modules`, `--target web`, `--target module`, `--target nodejs` and `--target experimental-nodejs-module`"),
            IntrinsicError::NoMemory => push_text(&mut s, "no memory found to return in memory intrinsic"),
            IntrinsicError::MultipleMemories => push_text(&mut s, "multiple memories found, unsure which to return from memory intrinsic"),
            IntrinsicError::NoFunctionTable => push_text(&mut s, "no function table found in module"),
            IntrinsicError::NoExternrefTable => push_text(&mut s, "must enable externref to use externref intrinsic"),
        }
        s
    }
}

/// The generated JavaScript of an intrinsic: the expression, and the
/// helper it needs, if any.
pub struct IntrinsicJs {
    pub expr: String,
    pub helper: Option<JsHelper>,
}

/// The text of a name of the generator.
pub open spec fn env_text(f: EnvText, env: IntrinsicEnv) -> Seq<char> {
    match f {
        EnvText::Memory => env.memory_export@,
        EnvText::FunctionTable => match env.function_table_export {
            Some(n) => n@,
            None => seq![],
        },
        EnvText::ExternrefTable => match env.externref_table_export {
            Some(n) => n@,
            None => seq![],
        },
    }
}

/// The text of one piece, for the arguments `a`.
pub open spec fn piece_text(p: Piece, a: Seq<Seq<char>>, env: IntrinsicEnv) -> Seq<char> {
    match p {
        Piece::Lit(s) => s@,
        Piece::Arg(k) => if k < a.len() {
            a[k as int]
        } else {
            seq![]
        },
        Piece::Env(f) => env_text(f, env),
    }
}

/// The text of the pieces, one after another.
pub open spec fn render(ps: Seq<Piece>, a: Seq<Seq<char>>, env: IntrinsicEnv) -> Seq<char>
    decreases ps.len(),
{
    if ps.len() == 0 {
        seq![]
    } else {
        render(ps.drop_last(), a, env) + piece_text(ps.last(), a, env)
    }
}

/// The arguments as texts.
pub open spec fn texts(args: Seq<String>) -> Seq<Seq<char>> {
    args.map_values(|s: String| s@)
}

/// How many arguments an intrinsic takes, where it checks that.
pub open spec fn intrinsic_arity(i: Intrinsic) -> Option<nat> {
    match i {
        Intrinsic::JsvalEq => Some(2nat),
        Intrinsic::JsvalLooseEq => Some(2nat),
        Intrinsic::IsFunction => Some(1nat),
        Intrinsic::IsUndefined => Some(1nat),
        Intrinsic::IsNull => Some(1nat),
        Intrinsic::ObjectIsNullOrUndefined => Some(1nat),
        Intrinsic::ObjectIsUndefined => Some(1nat),
        Intrinsic::IsObject => Some(1nat),
        Intrinsic::IsSymbol => Some(1nat),
        Intrinsic::IsString => Some(1nat),
        Intrinsic::IsBigInt => Some(1nat),
        Intrinsic::Typeof => Some(1nat),
        Intrinsic::In => Some(2nat),
        Intrinsic::IsFalsy => Some(1nat),
        Intrinsic::TryIntoNumber => Some(1nat),
        Intrinsic::Neg => Some(1nat),
        Intrinsic::BitAnd => Some(2nat),
        Intrinsic::BitOr => Some(2nat),
        Intrinsic::BitXor => Some(2nat),
        Intrinsic::BitNot => Some(1nat),
        Intrinsic::Shl => Some(2nat),
        Intrinsic::Shr => Some(2nat),
        Intrinsic::UnsignedShr => Some(2nat),
        Intrinsic::Add => Some(2nat),
        Intrinsic::Sub => Some(2nat),
        Intrinsic::Div => Some(2nat),
        Intrinsic::CheckedDiv => Some(2nat),
        Intrinsic::Mul => Some(2nat),
        Intrinsic::Rem => Some(2nat),
        Intrinsic::Pow => Some(2nat),
        Intrinsic::LT => Some(2nat),
        Intrinsic::LE => Some(2nat),
        Intrinsic::GE => Some(2nat),
        Intrinsic::GT => Some(2nat),
        Intrinsic::ObjectCloneRef => Some(1nat),
        Intrinsic::ObjectDropRef => Some(1nat),
        Intrinsic::BigIntGetAsI64 => Some(1nat),
        Intrinsic::NumberGet => Some(1nat),
        Intrinsic::StringGet => Some(1nat),
        Intrinsic::BooleanGet => Some(1nat),
        Intrinsic::Throw => Some(1nat),
        Intrinsic::Rethrow => Some(1nat),
        Intrinsic::Memory => Some(0nat),
        Intrinsic::Exports => Some(0nat),
        Intrinsic::Module => Some(0nat),
        Intrinsic::FunctionTable => Some(0nat),
        Intrinsic::DebugString => Some(1nat),
        Intrinsic::CopyToTypedArray => Some(2nat),
        Intrinsic::ExternrefHeapLiveCount => Some(0nat),
        Intrinsic::InitExternrefTable => None,
        Intrinsic::PanicError => Some(1nat),
    }
}

/// The JavaScript of an intrinsic, as pieces: the expression, the lines
/// that go before the call, and the helper it needs; or why it cannot be
/// written.
pub open spec fn intrinsic_parts(i: Intrinsic, env: IntrinsicEnv) -> Result<
    (Seq<Piece>, Seq<Piece>, Option<JsHelper>),
    IntrinsicError,
> {
    match i {
        Intrinsic::JsvalEq => Ok((seq![Piece::Arg(0), Piece::Lit(" === "), Piece::Arg(1)], seq![], None)),
        Intrinsic::JsvalLooseEq => Ok((seq![Piece::Arg(0), Piece::Lit(" == "), Piece::Arg(1)], seq![], None)),
        Intrinsic::IsFunction => Ok((seq![Piece::Lit("typeof("), Piece::Arg(0), Piece::Lit(") === 'function'")], seq![], None)),
        Intrinsic::IsUndefined => Ok((seq![Piece::Arg(0), Piece::Lit(" === undefined")], seq![], None)),
        Intrinsic::IsNull => Ok((seq![Piece::Arg(0), Piece::Lit(" === null")], seq![], None)),
        Intrinsic::ObjectIsNullOrUndefined => Ok((seq![Piece::Arg(0), Piece::Lit(" == null")], seq![], None)),
        Intrinsic::ObjectIsUndefined => Ok((seq![Piece::Arg(0), Piece::Lit(" === undefined")], seq![], None)),
        Intrinsic::IsObject => Ok((seq![Piece::Lit("typeof(val) === 'object' && val !== null")], seq![Piece::Lit("const val = "), Piece::Arg(0), Piece::Lit(";\n")], None)),
        Intrinsic::IsSymbol => Ok((seq![Piece::Lit("typeof("), Piece::Arg(0), Piece::Lit(") === 'symbol'")], seq![], None)),
        Intrinsic::IsString => Ok((seq![Piece::Lit("typeof("), Piece::Arg(0), Piece::Lit(") === 'string'")], seq![], None)),
        Intrinsic::IsBigInt => Ok((seq![Piece::Lit("typeof("), Piece::Arg(0), Piece::Lit(") === 'bigint'")], seq![], None)),
        Intrinsic::Typeof => Ok((seq![Piece::Lit("typeof "), Piece::Arg(0)], seq![], None)),
        Intrinsic::In => Ok((seq![Piece::Arg(0), Piece::Lit(" in "), Piece::Arg(1)], seq![], None)),
        Intrinsic::IsFalsy => Ok((seq![Piece::Lit("!"), Piece::Arg(0)], seq![], None)),
        Intrinsic::TryIntoNumber => Ok((seq![Piece::Lit("result")], seq![Piece::Lit("let result;\n"), Piece::Lit("try { result = +"), Piece::Arg(0), Piece::Lit(" } catch (e) { result = e }"), Piece::Lit("\n")], None)),
        Intrinsic::Neg => Ok((seq![Piece::Lit("-"), Piece::Arg(0)], seq![], None)),
        Intrinsic::BitAnd => Ok((seq![Piece::Arg(0), Piece::Lit(" & "), Piece::Arg(1)], seq![], None)),
        Intrinsic::BitOr => Ok((seq![Piece::Arg(0), Piece::Lit(" | "), Piece::Arg(1)], seq![], None)),
        Intrinsic::BitXor => Ok((seq![Piece::Arg(0), Piece::Lit(" ^ "), Piece::Arg(1)], seq![], None)),
        Intrinsic::BitNot => Ok((seq![Piece::Lit("~"), Piece::Arg(0)], seq![], None)),
        Intrinsic::Shl => Ok((seq![Piece::Arg(0), Piece::Lit(" << "), Piece::Arg(1)], seq![], None)),
        Intrinsic::Shr => Ok((seq![Piece::Arg(0), Piece::Lit(" >> "), Piece::Arg(1)], seq![], None)),
        Intrinsic::UnsignedShr => Ok((seq![Piece::Arg(0), Piece::Lit(" >>> "), Piece::Arg(1)], seq![], None)),
        Intrinsic::Add => Ok((seq![Piece::Arg(0), Piece::Lit(" + "), Piece::Arg(1)], seq![], None)),
        Intrinsic::Sub => Ok((seq![Piece::Arg(0), Piece::Lit(" - "), Piece::Arg(1)], seq![], None)),
        Intrinsic::Div => Ok((seq![Piece::Arg(0), Piece::Lit(" / "), Piece::Arg(1)], seq![], None)),
        Intrinsic::CheckedDiv => Ok((seq![Piece::Lit("result")], seq![Piece::Lit("let result;\n"), Piece::Lit("try {\n                        result = "), Piece::Arg(0), Piece::Lit(" / "), Piece::Arg(1), Piece::Lit(";\n                    } catch (e) {\n                        if (e instanceof RangeError) {\n                            result = e;\n                        } else {\n                            throw e;\n                        }\n                    }"), Piece::Lit("\n")], None)),
        Intrinsic::Mul => Ok((seq![Piece::Arg(0), Piece::Lit(" * "), Piece::Arg(1)], seq![], None)),
        Intrinsic::Rem => Ok((seq![Piece::Arg(0), Piece::Lit(" % "), Piece::Arg(1)], seq![], None)),
        Intrinsic::Pow => Ok((seq![Piece::Arg(0), Piece::Lit(" ** "), Piece::Arg(1)], seq![], None)),
        Intrinsic::LT => Ok((seq![Piece::Arg(0), Piece::Lit(" < "), Piece::Arg(1)], seq![], None)),
        Intrinsic::LE => Ok((seq![Piece::Arg(0), Piece::Lit(" <= "), Piece::Arg(1)], seq![], None)),
        Intrinsic::GE => Ok((seq![Piece::Arg(0), Piece::Lit(" >= "), Piece::Arg(1)], seq![], None)),
        Intrinsic::GT => Ok((seq![Piece::Arg(0), Piece::Lit(" > "), Piece::Arg(1)], seq![], None)),
        Intrinsic::ObjectCloneRef => Ok((seq![Piece::Arg(0)], seq![], None)),
        Intrinsic::ObjectDropRef => Ok((seq![Piece::Arg(0)], seq![], None)),
        Intrinsic::BigIntGetAsI64 => Ok((seq![Piece::Lit("typeof(v) === 'bigint' ? v : undefined")], seq![Piece::Lit("const v = "), Piece::Arg(0), Piece::Lit(";\n")], None)),
        Intrinsic::NumberGet => Ok((seq![Piece::Lit("typeof(obj) === 'number' ? obj : undefined")], seq![Piece::Lit("const obj = "), Piece::Arg(0), Piece::Lit(";\n")], None)),
        Intrinsic::StringGet => Ok((seq![Piece::Lit("typeof(obj) === 'string' ? obj : undefined")], seq![Piece::Lit("const obj = "), Piece::Arg(0), Piece::Lit(";\n")], None)),
        Intrinsic::BooleanGet => Ok((seq![Piece::Lit("typeof(v) === 'boolean' ? v : undefined")], seq![Piece::Lit("const v = "), Piece::Arg(0), Piece::Lit(";\n")], None)),
        Intrinsic::Exports => Ok((seq![Piece::Lit("wasm")], seq![], None)),
        Intrinsic::DebugString => Ok((seq![Piece::Lit("debugString("), Piece::Arg(0), Piece::Lit(")")], seq![], Some(JsHelper::DebugString))),
        Intrinsic::CopyToTypedArray => Ok((seq![Piece::Lit("new Uint8Array("), Piece::Arg(1), Piece::Lit(".buffer, "), Piece::Arg(1), Piece::Lit(".byteOffset, "), Piece::Arg(1), Piece::Lit(".byteLength).set("), Piece::Arg(0), Piece::Lit(")")], seq![], None)),
        Intrinsic::ExternrefHeapLiveCount => Ok((seq![Piece::Lit("heap.length - free_count - 1024 - 4")], seq![Piece::Lit("\n                        let free_count = 0;\n                        let next = heap_next;\n                        while (next < heap.length) {\n                            free_count += 1;\n                            next = heap[next];\n                        }\n                    ")], Some(JsHelper::GlobalHeap))),
        Intrinsic::PanicError => Ok((seq![Piece::Lit("new PanicError("), Piece::Arg(0), Piece::Lit(")")], seq![], Some(JsHelper::PanicError))),
        Intrinsic::Throw => if env.wrapped_js_tag {
            Ok((seq![Piece::Lit("throw new WebAssembly.Exception(__wbindgen_wrapped_jstag, [new Error("), Piece::Arg(0), Piece::Lit(")])")], seq![], None))
        } else {
            Ok((seq![Piece::Lit("throw new Error("), Piece::Arg(0), Piece::Lit(")")], seq![], None))
        },
        Intrinsic::Rethrow => if env.wrapped_js_tag {
            Ok((seq![Piece::Lit("throw new WebAssembly.Exception(__wbindgen_wrapped_jstag, ["), Piece::Arg(0), Piece::Lit("])")], seq![], None))
        } else {
            Ok((seq![Piece::Lit("throw "), Piece::Arg(0)], seq![], None))
        },
        Intrinsic::Module => match env.mode {
            OutputMode::Web | OutputMode::NoModules | OutputMode::Node | OutputMode::Module => Ok((
                seq![Piece::Lit("wasmModule")],
                seq![],
                None,
            )),
            _ => Err(IntrinsicError::ModuleUnsupported),
        },
        Intrinsic::Memory => if env.memory_count == 0 {
            Err(IntrinsicError::NoMemory)
        } else if env.memory_count > 1 {
            Err(IntrinsicError::MultipleMemories)
        } else if env.mode == OutputMode::Emscripten {
            Ok((seq![Piece::Lit("HEAPU8")], seq![], None))
        } else {
            Ok((seq![Piece::Lit("wasm."), Piece::Env(EnvText::Memory)], seq![], None))
        },
        Intrinsic::FunctionTable => if env.function_table_export is None {
            Err(IntrinsicError::NoFunctionTable)
        } else {
            Ok((seq![Piece::Lit("wasm."), Piece::Env(EnvText::FunctionTable)], seq![], None))
        },
        Intrinsic::InitExternrefTable => if env.externref_table_export is None {
            Err(IntrinsicError::NoExternrefTable)
        } else {
            Ok((seq![Piece::Lit("\n                      const table = wasm."), Piece::Env(EnvText::ExternrefTable), Piece::Lit(";\n                      const offset = table.grow(4);\n                      table.set(0, undefined);\n                    "), Piece::Lit("table.set(offset + 0, undefined)"), Piece::Lit(";\ntable.set(offset + 1, null)"), Piece::Lit(";\ntable.set(offset + 2, true)"), Piece::Lit(";\ntable.set(offset + 3, false)")], seq![], None))
        },
    }
}

fn pieces_of(i: &Intrinsic, env: &IntrinsicEnv) -> (r: Result<(Vec<Piece>, Vec<Piece>, Option<JsHelper>), IntrinsicError>)
    ensures
        match intrinsic_parts(*i, *env) {
            Ok((e, p, h)) => r matches Ok((e2, p2, h2)) && e2@ == e && p2@ == p && h2 == h,
            Err(x) => r matches Err(y) && y == x,
        },
{
    match i {
        Intrinsic::JsvalEq => {
        let mut e: Vec<Piece> = Vec::new();
        e.push(Piece::Arg(0));
        e.push(Piece::Lit(" === "));
        e.push(Piece::Arg(1));
        let mut p: Vec<Piece> = Vec::new();
        proof {
            assert(e@ =~= seq![Piece::Arg(0), Piece::Lit(" === "), Piece::Arg(1)]);
            assert(p@ =~= seq![]);
        }
        Ok((e, p, None))
        },
        Intrinsic::JsvalLooseEq => {
        let mut e: Vec<Piece> = Vec::new();
        e.push(Piece::Arg(0));
        e.push(Piece::Lit(" == "));
        e.push(Piece::Arg(1));
        let mut p: Vec<Piece> = Vec::new();
        proof {
            assert(e@ =~= seq![Piece::Arg(0), Piece::Lit(" == "), Piece::Arg(1)]);
            assert(p@ =~= seq![]);
        }
        Ok((e, p, None))
        },
        Intrinsic::IsFunction => {
        let mut e: Vec<Piece> = Vec::new();
        e.push(Piece::Lit("typeof("));
        e.push(Piece::Arg(0));
        e.push(Piece::Lit(") === 'function'"));
        let mut p: Vec<Piece> = Vec::new();
        proof {
            assert(e@ =~= seq![Piece::Lit("typeof("), Piece::Arg(0), Piece::Lit(") === 'function'")]);
            assert(p@ =~= seq![]);
        }
        Ok((e, p, None))
        },
        Intrinsic::IsUndefined => {
        let mut e: Vec<Piece> = Vec::new();
        e.push(Piece::Arg(0));
        e.push(Piece::Lit(" === undefined"));
        let mut p: Vec<Piece> = Vec::new();
        proof {
            assert(e@ =~= seq![Piece::Arg(0), Piece::Lit(" === undefined")]);
            assert(p@ =~= seq![]);
        }
        Ok((e, p, None))
        },
        Intrinsic::IsNull => {
        let mut e: Vec<Piece> = Vec::new();
        e.push(Piece::Arg(0));
        e.push(Piece::Lit(" === null"));
        let mut p: Vec<Piece> = Vec::new();
        proof {
            assert(e@ =~= seq![Piece::Arg(0), Piece::Lit(" === null")]);
            assert(p@ =~= seq![]);
        }
        Ok((e, p, None))
        },
        Intrinsic::ObjectIsNullOrUndefined => {
        let mut e: Vec<Piece> = Vec::new();
        e.push(Piece::Arg(0));
        e.push(Piece::Lit(" == null"));
        let mut p: Vec<Piece> = Vec::new();
        proof {
            assert(e@ =~= seq![Piece::Arg(0), Piece::Lit(" == null")]);
            assert(p@ =~= seq![]);
        }
        Ok((e, p, None))
        },
        Intrinsic::ObjectIsUndefined => {
        let mut e: Vec<Piece> = Vec::new();
        e.push(Piece::Arg(0));
        e.push(Piece::Lit(" === undefined"));
        let mut p: Vec<Piece> = Vec::new();
        proof {
            assert(e@ =~= seq![Piece::Arg(0), Piece::Lit(" === undefined")]);
            assert(p@ =~= seq![]);
        }
        Ok((e, p, None))
        },
        Intrinsic::IsObject => {
        let mut e: Vec<Piece> = Vec::new();
        e.push(Piece::Lit("typeof(val) === 'object' && val !== null"));
        let mut p: Vec<Piece> = Vec::new();
        p.push(Piece::Lit("const val = "));
        p.push(Piece::Arg(0));
        p.push(Piece::Lit(";\n"));
        proof {
            assert(e@ =~= seq![Piece::Lit("typeof(val) === 'object' && val !== null")]);
            assert(p@ =~= seq![Piece::Lit("const val = "), Piece::Arg(0), Piece::Lit(";\n")]);
        }
        Ok((e, p, None))
        },
        Intrinsic::IsSymbol => {
        let mut e: Vec<Piece> = Vec::new();
        e.push(Piece::Lit("typeof("));
        e.push(Piece::Arg(0));
        e.push(Piece::Lit(") === 'symbol'"));
        let mut p: Vec<Piece> = Vec::new();
        proof {
            assert(e@ =~= seq![Piece::Lit("typeof("), Piece::Arg(0), Piece::Lit(") === 'symbol'")]);
            assert(p@ =~= seq![]);
        }
        Ok((e, p, None))
        },
        Intrinsic::IsString => {
        let mut e: Vec<Piece> = Vec::new();
        e.push(Piece::Lit("typeof("));
        e.push(Piece::Arg(0));
        e.push(Piece::Lit(") === 'string'"));
        let mut p: Vec<Piece> = Vec::new();
        proof {
            assert(e@ =~= seq![Piece::Lit("typeof("), Piece::Arg(0), Piece::Lit(") === 'string'")]);
            assert(p@ =~= seq![]);
        }
        Ok((e, p, None))
        },
        Intrinsic::IsBigInt => {
        let mut e: Vec<Piece> = Vec::new();
        e.push(Piece::Lit("typeof("));
        e.push(Piece::Arg(0));
        e.push(Piece::Lit(") === 'bigint'"));
        let mut p: Vec<Piece> = Vec::new();
        proof {
            assert(e@ =~= seq![Piece::Lit("typeof("), Piece::Arg(0), Piece::Lit(") === 'bigint'")]);
            assert(p@ =~= seq![]);
        }
        Ok((e, p, None))
        },
        Intrinsic::Typeof => {
        let mut e: Vec<Piece> = Vec::new();
        e.push(Piece::Lit("typeof "));
        e.push(Piece::Arg(0));
        let mut p: Vec<Piece> = Vec::new();
        proof {
            assert(e@ =~= seq![Piece::Lit("typeof "), Piece::Arg(0)]);
            assert(p@ =~= seq![]);
        }
        Ok((e, p, None))
        },
        Intrinsic::In => {
        let mut e: Vec<Piece> = Vec::new();
        e.push(Piece::Arg(0));
        e.push(Piece::Lit(" in "));
        e.push(Piece::Arg(1));
        let mut p: Vec<Piece> = Vec::new();
        proof {
            assert(e@ =~= seq![Piece::Arg(0), Piece::Lit(" in "), Piece::Arg(1)]);
            assert(p@ =~= seq![]);
        }
        Ok((e, p, None))
        },
        Intrinsic::IsFalsy => {
        let mut e: Vec<Piece> = Vec::new();
        e.push(Piece::Lit("!"));
        e.push(Piece::Arg(0));
        let mut p: Vec<Piece> = Vec::new();
        proof {
            assert(e@ =~= seq![Piece::Lit("!"), Piece::Arg(0)]);
            assert(p@ =~= seq![]);
        }
        Ok((e, p, None))
        },
        Intrinsic::TryIntoNumber => {
        let mut e: Vec<Piece> = Vec::new();
        e.push(Piece::Lit("result"));
        let mut p: Vec<Piece> = Vec::new();
        p.push(Piece::Lit("let result;\n"));
        p.push(Piece::Lit("try { result = +"));
        p.push(Piece::Arg(0));
        p.push(Piece::Lit(" } catch (e) { result = e }"));
        p.push(Piece::Lit("\n"));
        proof {
            assert(e@ =~= seq![Piece::Lit("result")]);
            assert(p@ =~= seq![Piece::Lit("let result;\n"), Piece::Lit("try { result = +"), Piece::Arg(0), Piece::Lit(" } catch (e) { result = e }"), Piece::Lit("\n")]);
        }
        Ok((e, p, None))
        },
        Intrinsic::Neg => {
        let mut e: Vec<Piece> = Vec::new();
        e.push(Piece::Lit("-"));
        e.push(Piece::Arg(0));
        let mut p: Vec<Piece> = Vec::new();
        proof {
            assert(e@ =~= seq![Piece::Lit("-"), Piece::Arg(0)]);
            assert(p@ =~= seq![]);
        }
        Ok((e, p, None))
        },
        Intrinsic::BitAnd => {
        let mut e: Vec<Piece> = Vec::new();
        e.push(Piece::Arg(0));
        e.push(Piece::Lit(" & "));
        e.push(Piece::Arg(1));
        let mut p: Vec<Piece> = Vec::new();
        proof {
            assert(e@ =~= seq![Piece::Arg(0), Piece::Lit(" & "), Piece::Arg(1)]);
            assert(p@ =~= seq![]);
        }
        Ok((e, p, None))
        },
        Intrinsic::BitOr => {
        let mut e: Vec<Piece> = Vec::new();
        e.push(Piece::Arg(0));
        e.push(Piece::Lit(" | "));
        e.push(Piece::Arg(1));
        let mut p: Vec<Piece> = Vec::new();
        proof {
            assert(e@ =~= seq![Piece::Arg(0), Piece::Lit(" | "), Piece::Arg(1)]);
            assert(p@ =~= seq![]);
        }
        Ok((e, p, None))
        },
        Intrinsic::BitXor => {
        let mut e: Vec<Piece> = Vec::new();
        e.push(Piece::Arg(0));
        e.push(Piece::Lit(" ^ "));
        e.push(Piece::Arg(1));
        let mut p: Vec<Piece> = Vec::new();
        proof {
            assert(e@ =~= seq![Piece::Arg(0), Piece::Lit(" ^ "), Piece::Arg(1)]);
            assert(p@ =~= seq![]);
        }
        Ok((e, p, None))
        },
        Intrinsic::BitNot => {
        let mut e: Vec<Piece> = Vec::new();
        e.push(Piece::Lit("~"));
        e.push(Piece::Arg(0));
        let mut p: Vec<Piece> = Vec::new();
        proof {
            assert(e@ =~= seq![Piece::Lit("~"), Piece::Arg(0)]);
            assert(p@ =~= seq![]);
        }
        Ok((e, p, None))
        },
        Intrinsic::Shl => {
        let mut e: Vec<Piece> = Vec::new();
        e.push(Piece::Arg(0));
        e.push(Piece::Lit(" << "));
        e.push(Piece::Arg(1));
        let mut p: Vec<Piece> = Vec::new();
        proof {
            assert(e@ =~= seq![Piece::Arg(0), Piece::Lit(" << "), Piece::Arg(1)]);
            assert(p@ =~= seq![]);
        }
        Ok((e, p, None))
        },
        Intrinsic::Shr => {
        let mut e: Vec<Piece> = Vec::new();
        e.push(Piece::Arg(0));
        e.push(Piece::Lit(" >> "));
        e.push(Piece::Arg(1));
        let mut p: Vec<Piece> = Vec::new();
        proof {
            assert(e@ =~= seq![Piece::Arg(0), Piece::Lit(" >> "), Piece::Arg(1)]);
            assert(p@ =~= seq![]);
        }
        Ok((e, p, None))
        },
        Intrinsic::UnsignedShr => {
        let mut e: Vec<Piece> = Vec::new();
        e.push(Piece::Arg(0));
        e.push(Piece::Lit(" >>> "));
        e.push(Piece::Arg(1));
        let mut p: Vec<Piece> = Vec::new();
        proof {
            assert(e@ =~= seq![Piece::Arg(0), Piece::Lit(" >>> "), Piece::Arg(1)]);
            assert(p@ =~= seq![]);
        }
        Ok((e, p, None))
        },
        Intrinsic::Add => {
        let mut e: Vec<Piece> = Vec::new();
        e.push(Piece::Arg(0));
        e.push(Piece::Lit(" + "));
        e.push(Piece::Arg(1));
        let mut p: Vec<Piece> = Vec::new();
        proof {
            assert(e@ =~= seq![Piece::Arg(0), Piece::Lit(" + "), Piece::Arg(1)]);
            assert(p@ =~= seq![]);
        }
        Ok((e, p, None))
        },
        Intrinsic::Sub => {
        let mut e: Vec<Piece> = Vec::new();
        e.push(Piece::Arg(0));
        e.push(Piece::Lit(" - "));
        e.push(Piece::Arg(1));
        let mut p: Vec<Piece> = Vec::new();
        proof {
            assert(e@ =~= seq![Piece::Arg(0), Piece::Lit(" - "), Piece::Arg(1)]);
            assert(p@ =~= seq![]);
        }
        Ok((e, p, None))
        },
        Intrinsic::Div => {
        let mut e: Vec<Piece> = Vec::new();
        e.push(Piece::Arg(0));
        e.push(Piece::Lit(" / "));
        e.push(Piece::Arg(1));
        let mut p: Vec<Piece> = Vec::new();
        proof {
            assert(e@ =~= seq![Piece::Arg(0), Piece::Lit(" / "), Piece::Arg(1)]);
            assert(p@ =~= seq![]);
        }
        Ok((e, p, None))
        },
        Intrinsic::CheckedDiv => {
        let mut e: Vec<Piece> = Vec::new();
        e.push(Piece::Lit("result"));
        let mut p: Vec<Piece> = Vec::new();
        p.push(Piece::Lit("let result;\n"));
        p.push(Piece::Lit("try {\n                        result = "));
        p.push(Piece::Arg(0));
        p.push(Piece::Lit(" / "));
        p.push(Piece::Arg(1));
        p.push(Piece::Lit(";\n                    } catch (e) {\n                        if (e instanceof RangeError) {\n                            result = e;\n                        } else {\n                            throw e;\n                        }\n                    }"));
        p.push(Piece::Lit("\n"));
        proof {
            assert(e@ =~= seq![Piece::Lit("result")]);
            assert(p@ =~= seq![Piece::Lit("let result;\n"), Piece::Lit("try {\n                        result = "), Piece::Arg(0), Piece::Lit(" / "), Piece::Arg(1), Piece::Lit(";\n                    } catch (e) {\n                        if (e instanceof RangeError) {\n                            result = e;\n                        } else {\n                            throw e;\n                        }\n                    }"), Piece::Lit("\n")]);
        }
        Ok((e, p, None))
        },
        Intrinsic::Mul => {
        let mut e: Vec<Piece> = Vec::new();
        e.push(Piece::Arg(0));
        e.push(Piece::Lit(" * "));
        e.push(Piece::Arg(1));
        let mut p: Vec<Piece> = Vec::new();
        proof {
            assert(e@ =~= seq![Piece::Arg(0), Piece::Lit(" * "), Piece::Arg(1)]);
            assert(p@ =~= seq![]);
        }
        Ok((e, p, None))
        },
        Intrinsic::Rem => {
        let mut e: Vec<Piece> = Vec::new();
        e.push(Piece::Arg(0));
        e.push(Piece::Lit(" % "));
        e.push(Piece::Arg(1));
        let mut p: Vec<Piece> = Vec::new();
        proof {
            assert(e@ =~= seq![Piece::Arg(0), Piece::Lit(" % "), Piece::Arg(1)]);
            assert(p@ =~= seq![]);
        }
        Ok((e, p, None))
        },
        Intrinsic::Pow => {
        let mut e: Vec<Piece> = Vec::new();
        e.push(Piece::Arg(0));
        e.push(Piece::Lit(" ** "));
        e.push(Piece::Arg(1));
        let mut p: Vec<Piece> = Vec::new();
        proof {
            assert(e@ =~= seq![Piece::Arg(0), Piece::Lit(" ** "), Piece::Arg(1)]);
            assert(p@ =~= seq![]);
        }
        Ok((e, p, None))
        },
        Intrinsic::LT => {
        let mut e: Vec<Piece> = Vec::new();
        e.push(Piece::Arg(0));
        e.push(Piece::Lit(" < "));
        e.push(Piece::Arg(1));
        let mut p: Vec<Piece> = Vec::new();
        proof {
            assert(e@ =~= seq![Piece::Arg(0), Piece::Lit(" < "), Piece::Arg(1)]);
            assert(p@ =~= seq![]);
        }
        Ok((e, p, None))
        },
        Intrinsic::LE => {
        let mut e: Vec<Piece> = Vec::new();
        e.push(Piece::Arg(0));
        e.push(Piece::Lit(" <= "));
        e.push(Piece::Arg(1));
        let mut p: Vec<Piece> = Vec::new();
        proof {
            assert(e@ =~= seq![Piece::Arg(0), Piece::Lit(" <= "), Piece::Arg(1)]);
            assert(p@ =~= seq![]);
        }
        Ok((e, p, None))
        },
        Intrinsic::GE => {
        let mut e: Vec<Piece> = Vec::new();
        e.push(Piece::Arg(0));
        e.push(Piece::Lit(" >= "));
        e.push(Piece::Arg(1));
        let mut p: Vec<Piece> = Vec::new();
        proof {
            assert(e@ =~= seq![Piece::Arg(0), Piece::Lit(" >= "), Piece::Arg(1)]);
            assert(p@ =~= seq![]);
        }
        Ok((e, p, None))
        },
        Intrinsic::GT => {
        let mut e: Vec<Piece> = Vec::new();
        e.push(Piece::Arg(0));
        e.push(Piece::Lit(" > "));
        e.push(Piece::Arg(1));
        let mut p: Vec<Piece> = Vec::new();
        proof {
            assert(e@ =~= seq![Piece::Arg(0), Piece::Lit(" > "), Piece::Arg(1)]);
            assert(p@ =~= seq![]);
        }
        Ok((e, p, None))
        },
        Intrinsic::ObjectCloneRef => {
        let mut e: Vec<Piece> = Vec::new();
        e.push(Piece::Arg(0));
        let mut p: Vec<Piece> = Vec::new();
        proof {
            assert(e@ =~= seq![Piece::Arg(0)]);
            assert(p@ =~= seq![]);
        }
        Ok((e, p, None))
        },
        Intrinsic::ObjectDropRef => {
        let mut e: Vec<Piece> = Vec::new();
        e.push(Piece::Arg(0));
        let mut p: Vec<Piece> = Vec::new();
        proof {
            assert(e@ =~= seq![Piece::Arg(0)]);
            assert(p@ =~= seq![]);
        }
        Ok((e, p, None))
        },
        Intrinsic::BigIntGetAsI64 => {
        let mut e: Vec<Piece> = Vec::new();
        e.push(Piece::Lit("typeof(v) === 'bigint' ? v : undefined"));
        let mut p: Vec<Piece> = Vec::new();
        p.push(Piece::Lit("const v = "));
        p.push(Piece::Arg(0));
        p.push(Piece::Lit(";\n"));
        proof {
            assert(e@ =~= seq![Piece::Lit("typeof(v) === 'bigint' ? v : undefined")]);
            assert(p@ =~= seq![Piece::Lit("const v = "), Piece::Arg(0), Piece::Lit(";\n")]);
        }
        Ok((e, p, None))
        },
        Intrinsic::NumberGet => {
        let mut e: Vec<Piece> = Vec::new();
        e.push(Piece::Lit("typeof(obj) === 'number' ? obj : undefined"));
        let mut p: Vec<Piece> = Vec::new();
        p.push(Piece::Lit("const obj = "));
        p.push(Piece::Arg(0));
        p.push(Piece::Lit(";\n"));
        proof {
            assert(e@ =~= seq![Piece::Lit("typeof(obj) === 'number' ? obj : undefined")]);
            assert(p@ =~= seq![Piece::Lit("const obj = "), Piece::Arg(0), Piece::Lit(";\n")]);
        }
        Ok((e, p, None))
        },
        Intrinsic::StringGet => {
        let mut e: Vec<Piece> = Vec::new();
        e.push(Piece::Lit("typeof(obj) === 'string' ? obj : undefined"));
        let mut p: Vec<Piece> = Vec::new();
        p.push(Piece::Lit("const obj = "));
        p.push(Piece::Arg(0));
        p.push(Piece::Lit(";\n"));
        proof {
            assert(e@ =~= seq![Piece::Lit("typeof(obj) === 'string' ? obj : undefined")]);
            assert(p@ =~= seq![Piece::Lit("const obj = "), Piece::Arg(0), Piece::Lit(";\n")]);
        }
        Ok((e, p, None))
        },
        Intrinsic::BooleanGet => {
        let mut e: Vec<Piece> = Vec::new();
        e.push(Piece::Lit("typeof(v) === 'boolean' ? v : undefined"));
        let mut p: Vec<Piece> = Vec::new();
        p.push(Piece::Lit("const v = "));
        p.push(Piece::Arg(0));
        p.push(Piece::Lit(";\n"));
        proof {
            assert(e@ =~= seq![Piece::Lit("typeof(v) === 'boolean' ? v : undefined")]);
            assert(p@ =~= seq![Piece::Lit("const v = "), Piece::Arg(0), Piece::Lit(";\n")]);
        }
        Ok((e, p, None))
        },
        Intrinsic::Exports => {
        let mut e: Vec<Piece> = Vec::new();
        e.push(Piece::Lit("wasm"));
        let mut p: Vec<Piece> = Vec::new();
        proof {
            assert(e@ =~= seq![Piece::Lit("wasm")]);
            assert(p@ =~= seq![]);
        }
        Ok((e, p, None))
        },
        Intrinsic::DebugString => {
        let mut e: Vec<Piece> = Vec::new();
        e.push(Piece::Lit("debugString("));
        e.push(Piece::Arg(0));
        e.push(Piece::Lit(")"));
        let mut p: Vec<Piece> = Vec::new();
        proof {
            assert(e@ =~= seq![Piece::Lit("debugString("), Piece::Arg(0), Piece::Lit(")")]);
            assert(p@ =~= seq![]);
        }
        Ok((e, p, Some(JsHelper::DebugString)))
        },
        Intrinsic::CopyToTypedArray => {
        let mut e: Vec<Piece> = Vec::new();
        e.push(Piece::Lit("new Uint8Array("));
        e.push(Piece::Arg(1));
        e.push(Piece::Lit(".buffer, "));
        e.push(Piece::Arg(1));
        e.push(Piece::Lit(".byteOffset, "));
        e.push(Piece::Arg(1));
        e.push(Piece::Lit(".byteLength).set("));
        e.push(Piece::Arg(0));
        e.push(Piece::Lit(")"));
        let mut p: Vec<Piece> = Vec::new();
        proof {
            assert(e@ =~= seq![Piece::Lit("new Uint8Array("), Piece::Arg(1), Piece::Lit(".buffer, "), Piece::Arg(1), Piece::Lit(".byteOffset, "), Piece::Arg(1), Piece::Lit(".byteLength).set("), Piece::Arg(0), Piece::Lit(")")]);
            assert(p@ =~= seq![]);
        }
        Ok((e, p, None))
        },
        Intrinsic::ExternrefHeapLiveCount => {
        let mut e: Vec<Piece> = Vec::new();
        e.push(Piece::Lit("heap.length - free_count - 1024 - 4"));
        let mut p: Vec<Piece> = Vec::new();
        p.push(Piece::Lit("\n                        let free_count = 0;\n                        let next = heap_next;\n                        while (next < heap.length) {\n                            free_count += 1;\n                            next = heap[next];\n                        }\n                    "));
        proof {
            assert(e@ =~= seq![Piece::Lit("heap.length - free_count - 1024 - 4")]);
            assert(p@ =~= seq![Piece::Lit("\n                        let free_count = 0;\n                        let next = heap_next;\n                        while (next < heap.length) {\n                            free_count += 1;\n                            next = heap[next];\n                        }\n                    ")]);
        }
        Ok((e, p, Some(JsHelper::GlobalHeap)))
        },
        Intrinsic::PanicError => {
        let mut e: Vec<Piece> = Vec::new();
        e.push(Piece::Lit("new PanicError("));
        e.push(Piece::Arg(0));
        e.push(Piece::Lit(")"));
        let mut p: Vec<Piece> = Vec::new();
        proof {
            assert(e@ =~= seq![Piece::Lit("new PanicError("), Piece::Arg(0), Piece::Lit(")")]);
            assert(p@ =~= seq![]);
        }
        Ok((e, p, Some(JsHelper::PanicError)))
        },
        Intrinsic::Throw => if env.wrapped_js_tag {
        let mut e: Vec<Piece> = Vec::new();
        e.push(Piece::Lit("throw new WebAssembly.Exception(__wbindgen_wrapped_jstag, [new Error("));
        e.push(Piece::Arg(0));
        e.push(Piece::Lit(")])"));
        let mut p: Vec<Piece> = Vec::new();
        proof {
            assert(e@ =~= seq![Piece::Lit("throw new WebAssembly.Exception(__wbindgen_wrapped_jstag, [new Error("), Piece::Arg(0), Piece::Lit(")])")]);
            assert(p@ =~= seq![]);
        }
        Ok((e, p, None))
        } else {
        let mut e: Vec<Piece> = Vec::new();
        e.push(Piece::Lit("throw new Error("));
        e.push(Piece::Arg(0));
        e.push(Piece::Lit(")"));
        let mut p: Vec<Piece> = Vec::new();
        proof {
            assert(e@ =~= seq![Piece::Lit("throw new Error("), Piece::Arg(0), Piece::Lit(")")]);
            assert(p@ =~= seq![]);
        }
        Ok((e, p, None))
        },
        Intrinsic::Rethrow => if env.wrapped_js_tag {
        let mut e: Vec<Piece> = Vec::new();
        e.push(Piece::Lit("throw new WebAssembly.Exception(__wbindgen_wrapped_jstag, ["));
        e.push(Piece::Arg(0));
        e.push(Piece::Lit("])"));
        let mut p: Vec<Piece> = Vec::new();
        proof {
            assert(e@ =~= seq![Piece::Lit("throw new WebAssembly.Exception(__wbindgen_wrapped_jstag, ["), Piece::Arg(0), Piece::Lit("])")]);
            assert(p@ =~= seq![]);
        }
        Ok((e, p, None))
        } else {
        let mut e: Vec<Piece> = Vec::new();
        e.push(Piece::Lit("throw "));
        e.push(Piece::Arg(0));
        let mut p: Vec<Piece> = Vec::new();
        proof {
            assert(e@ =~= seq![Piece::Lit("throw "), Piece::Arg(0)]);
            assert(p@ =~= seq![]);
        }
        Ok((e, p, None))
        },
        Intrinsic::Module => match env.mode {
            OutputMode::Web | OutputMode::NoModules | OutputMode::Node | OutputMode::Module => {
        let mut e: Vec<Piece> = Vec::new();
        e.push(Piece::Lit("wasmModule"));
        let mut p: Vec<Piece> = Vec::new();
        proof {
            assert(e@ =~= seq![Piece::Lit("wasmModule")]);
            assert(p@ =~= seq![]);
        }
        Ok((e, p, None))
            },
            _ => Err(IntrinsicError::ModuleUnsupported),
        },
        Intrinsic::Memory => if env.memory_count == 0 {
            Err(IntrinsicError::NoMemory)
        } else if env.memory_count > 1 {
            Err(IntrinsicError::MultipleMemories)
        } else if env.mode == OutputMode::Emscripten {
        let mut e: Vec<Piece> = Vec::new();
        e.push(Piece::Lit("HEAPU8"));
        let mut p: Vec<Piece> = Vec::new();
        proof {
            assert(e@ =~= seq![Piece::Lit("HEAPU8")]);
            assert(p@ =~= seq![]);
        }
        Ok((e, p, None))
        } else {
        let mut e: Vec<Piece> = Vec::new();
        e.push(Piece::Lit("wasm."));
        e.push(Piece::Env(EnvText::Memory));
        let mut p: Vec<Piece> = Vec::new();
        proof {
            assert(e@ =~= seq![Piece::Lit("wasm."), Piece::Env(EnvText::Memory)]);
            assert(p@ =~= seq![]);
        }
        Ok((e, p, None))
        },
        Intrinsic::FunctionTable => if env.function_table_export.is_none() {
            Err(IntrinsicError::NoFunctionTable)
        } else {
        let mut e: Vec<Piece> = Vec::new();
        e.push(Piece::Lit("wasm."));
        e.push(Piece::Env(EnvText::FunctionTable));
        let mut p: Vec<Piece> = Vec::new();
        proof {
            assert(e@ =~= seq![Piece::Lit("wasm."), Piece::Env(EnvText::FunctionTable)]);
            assert(p@ =~= seq![]);
        }
        Ok((e, p, None))
        },
        Intrinsic::InitExternrefTable => if env.externref_table_export.is_none() {
            Err(IntrinsicError::NoExternrefTable)
        } else {
        let mut e: Vec<Piece> = Vec::new();
        e.push(Piece::Lit("\n                      const table = wasm."));
        e.push(Piece::Env(EnvText::ExternrefTable));
        e.push(Piece::Lit(";\n                      const offset = table.grow(4);\n                      table.set(0, undefined);\n                    "));
        e.push(Piece::Lit("table.set(offset + 0, undefined)"));
        e.push(Piece::Lit(";\ntable.set(offset + 1, null)"));
        e.push(Piece::Lit(";\ntable.set(offset + 2, true)"));
        e.push(Piece::Lit(";\ntable.set(offset + 3, false)"));
        let mut p: Vec<Piece> = Vec::new();
        proof {
            assert(e@ =~= seq![Piece::Lit("\n                      const table = wasm."), Piece::Env(EnvText::ExternrefTable), Piece::Lit(";\n                      const offset = table.grow(4);\n                      table.set(0, undefined);\n                    "), Piece::Lit("table.set(offset + 0, undefined)"), Piece::Lit(";\ntable.set(offset + 1, null)"), Piece::Lit(";\ntable.set(offset + 2, true)"), Piece::Lit(";\ntable.set(offset + 3, false)")]);
            assert(p@ =~= seq![]);
        }
        Ok((e, p, None))
        },
    }
}

/// Appends the text of the pieces.
fn render_pieces(out: &mut String, ps: &Vec<Piece>, args: &Vec<String>, env: &IntrinsicEnv)
    ensures
        final(out)@ == old(out)@ + render(ps@, texts(args@), *env),
{
    let mut i: usize = 0;
    while i < ps.len()
        invariant
            i <= ps@.len(),
            out@ == old(out)@ + render(ps@.take(i as int), texts(args@), *env),
        decreases ps@.len() - i,
    {
        let ghost before = out@;
        match ps[i] {
            Piece::Lit(s) => push_text(out, s),
            Piece::Arg(k) => if k < args.len() {
                push_text(out, args[k].as_str());
            },
            Piece::Env(f) => match f {
                EnvText::Memory => push_text(out, env.memory_export.as_str()),
                EnvText::FunctionTable => match &env.function_table_export {
                    Some(n) => push_text(out, n.as_str()),
                    None => {},
                },
                EnvText::ExternrefTable => match &env.externref_table_export {
                    Some(n) => push_text(out, n.as_str()),
                    None => {},
                },
            },
        }
        proof {
            assert(ps@.take(i as int + 1).drop_last() =~= ps@.take(i as int));
            assert(out@ =~= before + piece_text(ps@[i as int], texts(args@), *env));
        }
        i = i + 1;
    }
    assert(ps@.take(i as int) =~= ps@);
}

/// Writes the JavaScript of a call of an intrinsic with the given argument
/// expressions: returns the expression (with the helper it needs) and
/// appends to `prelude` the lines that must run before it; see
/// [`intrinsic_parts`]. An intrinsic that checks its number of arguments
/// is called with exactly that many.
pub fn invoke_intrinsic(
    intrinsic: &Intrinsic,
    args: &Vec<String>,
    prelude: &mut String,
    env: &IntrinsicEnv,
) -> (r: Result<IntrinsicJs, IntrinsicError>)
    requires
        intrinsic_arity(*intrinsic) matches Some(n) ==> args@.len() == n,
    ensures
        match intrinsic_parts(*intrinsic, *env) {
            Ok((e, p, h)) => r matches Ok(j) && j.expr@ == render(e, texts(args@), *env) && j.helper == h
                && final(prelude)@ == old(prelude)@ + render(p, texts(args@), *env),
            Err(x) => r matches Err(y) && y == x && final(prelude)@ == old(prelude)@,
        },
{
    match pieces_of(intrinsic, env) {
        Ok((e, p, h)) => {
            render_pieces(prelude, &p, args, env);
            let mut expr = String::new();
            render_pieces(&mut expr, &e, args, env);
            Ok(IntrinsicJs { expr, helper: h })
        },
        Err(x) => Err(x),
    }
}

/// The comparison intrinsics (`__wbindgen_lt`, `__wbindgen_le`,
/// `__wbindgen_ge`, `__wbindgen_gt`) compare their two arguments with the
/// JavaScript operator they are named after, and need nothing else: `a <= b`
/// is written `a <= b`, so it holds of equal arguments, while `a < b` does
/// not.
pub proof fn lemma_comparisons_use_their_operator(a: Seq<Seq<char>>, env: IntrinsicEnv)
    requires
        a.len() == 2,
    ensures
        intrinsic_parts(Intrinsic::LT, env) matches Ok((e, p, h)) && render(e, a, env) == a[0] + " < "@ + a[1]
            && render(p, a, env) == Seq::<char>::empty() && h is None,
        intrinsic_parts(Intrinsic::LE, env) matches Ok((e, p, h)) && render(e, a, env) == a[0] + " <= "@ + a[1]
            && render(p, a, env) == Seq::<char>::empty() && h is None,
        intrinsic_parts(Intrinsic::GE, env) matches Ok((e, p, h)) && render(e, a, env) == a[0] + " >= "@ + a[1]
            && render(p, a, env) == Seq::<char>::empty() && h is None,
        intrinsic_parts(Intrinsic::GT, env) matches Ok((e, p, h)) && render(e, a, env) == a[0] + " > "@ + a[1]
            && render(p, a, env) == Seq::<char>::empty() && h is None,
{
    reveal_with_fuel(render, 4);
    assert(render(seq![Piece::Arg(0), Piece::Lit(" < "), Piece::Arg(1)], a, env) =~= a[0] + " < "@ + a[1]);
    assert(render(seq![Piece::Arg(0), Piece::Lit(" <= "), Piece::Arg(1)], a, env) =~= a[0] + " <= "@ + a[1]);
    assert(render(seq![Piece::Arg(0), Piece::Lit(" >= "), Piece::Arg(1)], a, env) =~= a[0] + " >= "@ + a[1]);
    assert(render(seq![Piece::Arg(0), Piece::Lit(" > "), Piece::Arg(1)], a, env) =~= a[0] + " > "@ + a[1]);
}

/// The JavaScript operator that the binary operator intrinsics stand for,
/// as JsValue's operators use them: `==` for `loose_eq`, `===` for `eq`,
/// `>>>` for the unsigned shift, and so on.
pub open spec fn js_operator(i: Intrinsic) -> Option<Seq<char>> {
    match i {
        Intrinsic::JsvalEq => Some(" === "@),
        Intrinsic::JsvalLooseEq => Some(" == "@),
        Intrinsic::In => Some(" in "@),
        Intrinsic::BitAnd => Some(" & "@),
        Intrinsic::BitOr => Some(" | "@),
        Intrinsic::BitXor => Some(" ^ "@),
        Intrinsic::Shl => Some(" << "@),
        Intrinsic::Shr => Some(" >> "@),
        Intrinsic::UnsignedShr => Some(" >>> "@),
        Intrinsic::Add => Some(" + "@),
        Intrinsic::Sub => Some(" - "@),
        Intrinsic::Div => Some(" / "@),
        Intrinsic::Mul => Some(" * "@),
        Intrinsic::Rem => Some(" % "@),
        Intrinsic::Pow => Some(" ** "@),
        Intrinsic::LT => Some(" < "@),
        Intrinsic::LE => Some(" <= "@),
        Intrinsic::GE => Some(" >= "@),
        Intrinsic::GT => Some(" > "@),
        _ => None,
    }
}

/// Each binary operator intrinsic writes its two arguments around its
/// JavaScript operator, and needs nothing else.
pub proof fn lemma_operators_join_their_arguments(i: Intrinsic, a: Seq<Seq<char>>, env: IntrinsicEnv)
    requires
        a.len() == 2,
        js_operator(i) is Some,
    ensures
        intrinsic_arity(i) == Some(2nat),
        intrinsic_parts(i, env) matches Ok((e, p, h)) && render(e, a, env) == a[0] + js_operator(i)->Some_0 + a[1]
            && render(p, a, env) == Seq::<char>::empty() && h is None,
{
    reveal_with_fuel(render, 4);
    match i {
        Intrinsic::JsvalEq => assert(render(seq![Piece::Arg(0), Piece::Lit(" === "), Piece::Arg(1)], a, env) =~= a[0] + " === "@ + a[1]),
        Intrinsic::JsvalLooseEq => assert(render(seq![Piece::Arg(0), Piece::Lit(" == "), Piece::Arg(1)], a, env) =~= a[0] + " == "@ + a[1]),
        Intrinsic::In => assert(render(seq![Piece::Arg(0), Piece::Lit(" in "), Piece::Arg(1)], a, env) =~= a[0] + " in "@ + a[1]),
        Intrinsic::BitAnd => assert(render(seq![Piece::Arg(0), Piece::Lit(" & "), Piece::Arg(1)], a, env) =~= a[0] + " & "@ + a[1]),
        Intrinsic::BitOr => assert(render(seq![Piece::Arg(0), Piece::Lit(" | "), Piece::Arg(1)], a, env) =~= a[0] + " | "@ + a[1]),
        Intrinsic::BitXor => assert(render(seq![Piece::Arg(0), Piece::Lit(" ^ "), Piece::Arg(1)], a, env) =~= a[0] + " ^ "@ + a[1]),
        Intrinsic::Shl => assert(render(seq![Piece::Arg(0), Piece::Lit(" << "), Piece::Arg(1)], a, env) =~= a[0] + " << "@ + a[1]),
        Intrinsic::Shr => assert(render(seq![Piece::Arg(0), Piece::Lit(" >> "), Piece::Arg(1)], a, env) =~= a[0] + " >> "@ + a[1]),
        Intrinsic::UnsignedShr => assert(render(seq![Piece::Arg(0), Piece::Lit(" >>> "), Piece::Arg(1)], a, env) =~= a[0] + " >>> "@ + a[1]),
        Intrinsic::Add => assert(render(seq![Piece::Arg(0), Piece::Lit(" + "), Piece::Arg(1)], a, env) =~= a[0] + " + "@ + a[1]),
        Intrinsic::Sub => assert(render(seq![Piece::Arg(0), Piece::Lit(" - "), Piece::Arg(1)], a, env) =~= a[0] + " - "@ + a[1]),
        Intrinsic::Div => assert(render(seq![Piece::Arg(0), Piece::Lit(" / "), Piece::Arg(1)], a, env) =~= a[0] + " / "@ + a[1]),
        Intrinsic::Mul => assert(render(seq![Piece::Arg(0), Piece::Lit(" * "), Piece::Arg(1)], a, env) =~= a[0] + " * "@ + a[1]),
        Intrinsic::Rem => assert(render(seq![Piece::Arg(0), Piece::Lit(" % "), Piece::Arg(1)], a, env) =~= a[0] + " % "@ + a[1]),
        Intrinsic::Pow => assert(render(seq![Piece::Arg(0), Piece::Lit(" ** "), Piece::Arg(1)], a, env) =~= a[0] + " ** "@ + a[1]),
        Intrinsic::LT => assert(render(seq![Piece::Arg(0), Piece::Lit(" < "), Piece::Arg(1)], a, env) =~= a[0] + " < "@ + a[1]),
        Intrinsic::LE => assert(render(seq![Piece::Arg(0), Piece::Lit(" <= "), Piece::Arg(1)], a, env) =~= a[0] + " <= "@ + a[1]),
        Intrinsic::GE => assert(render(seq![Piece::Arg(0), Piece::Lit(" >= "), Piece::Arg(1)], a, env) =~= a[0] + " >= "@ + a[1]),
        Intrinsic::GT => assert(render(seq![Piece::Arg(0), Piece::Lit(" > "), Piece::Arg(1)], a, env) =~= a[0] + " > "@ + a[1]),
        _ => {},
    }
}

} // verus!
