//! Type descriptors: the shapes of the values that cross the boundary
//! between Rust and JavaScript, as described by the compiled Wasm module.

use vstd::prelude::*;
use vstd::string::*;

verus! {

/// The description of one type crossing the Wasm/JS boundary.
#[derive(Debug, PartialEq, Eq, Hash)]
pub enum Descriptor {
    I8,
    U8,
    ClampedU8,
    I16,
    U16,
    I32,
    U32,
    I64,
    U64,
    I64AsF64,
    U64AsF64,
    I128,
    U128,
    F32,
    F64,
    Boolean,
    Function(Box<Function>),
    Closure(Box<Closure>),
    Ref(Box<Descriptor>),
    RefMut(Box<Descriptor>),
    Slice(Box<Descriptor>),
    Vector(Box<Descriptor>),
    CachedString,
    String,
    Externref,
    NamedExternref(String),
    Enum { name: String, hole: u32 },
    StringEnum { name: String, invalid: u32, hole: u32 },
    DynamicUnion { name: String, variant_types: Vec<Descriptor> },
    RustStruct(String),
    Char,
    Option(Box<Descriptor>),
    Result(Box<Descriptor>),
    Unit,
    NonNull,
    RawPointer,
}

/// The signature of an exported or imported function.
#[derive(Debug, PartialEq, Eq, Hash)]
pub struct Function {
    pub arguments: Vec<Descriptor>,
    pub shim_idx: u32,
    pub ret: Descriptor,
    pub inner_ret: Option<Descriptor>,
}

/// A closure passed across the boundary.
#[derive(Debug, PartialEq, Eq, Hash)]
pub struct Closure {
    pub owned: bool,
    pub function: Function,
    pub mutable: bool,
}

/// The element kind of a vector or slice crossing the boundary.
#[derive(Clone, Debug, PartialEq, Eq, Hash)]
pub enum VectorKind {
    I8,
    U8,
    ClampedU8,
    I16,
    U16,
    I32,
    U32,
    I64,
    U64,
    F32,
    F64,
    String,
    Externref,
    NamedExternref(String),
}

/// Whether `b` is a copy of the descriptor `a`: the same variant with the
/// same names and numbers, and copies of the inner descriptors.
pub open spec fn same_descriptor(a: Descriptor, b: Descriptor) -> bool
    decreases a, 2nat,
{
    match a {
        Descriptor::Function(f) => b matches Descriptor::Function(g) && same_function(*f, *g),
        Descriptor::Closure(c) => b matches Descriptor::Closure(c2) && c.owned == c2.owned && c.mutable
            == c2.mutable && same_function(c.function, c2.function),
        Descriptor::Ref(x) => b matches Descriptor::Ref(y) && same_descriptor(*x, *y),
        Descriptor::RefMut(x) => b matches Descriptor::RefMut(y) && same_descriptor(*x, *y),
        Descriptor::Slice(x) => b matches Descriptor::Slice(y) && same_descriptor(*x, *y),
        Descriptor::Vector(x) => b matches Descriptor::Vector(y) && same_descriptor(*x, *y),
        Descriptor::Option(x) => b matches Descriptor::Option(y) && same_descriptor(*x, *y),
        Descriptor::Result(x) => b matches Descriptor::Result(y) && same_descriptor(*x, *y),
        Descriptor::DynamicUnion { name, variant_types } => b matches Descriptor::DynamicUnion {
            name: name2,
            variant_types: types2,
        } && name == name2 && same_descriptors(variant_types, types2),
        _ => a == b,
    }
}

/// Whether `g` is a copy of the function signature `f`.
pub open spec fn same_function(f: Function, g: Function) -> bool
    decreases f, 1nat,
{
    &&& same_descriptors(f.arguments, g.arguments)
    &&& f.shim_idx == g.shim_idx
    &&& same_descriptor(f.ret, g.ret)
    &&& match f.inner_ret {
        Some(x) => g.inner_ret matches Some(y) && same_descriptor(x, y),
        None => g.inner_ret is None,
    }
}

/// Whether `t` holds copies of the descriptors of `s`, in order.
pub open spec fn same_descriptors(s: Vec<Descriptor>, t: Vec<Descriptor>) -> bool
    decreases s, 0nat,
{
    &&& s@.len() == t@.len()
    &&& forall|i: int| 0 <= i < s@.len() ==> same_descriptor(#[trigger] s@[i], t@[i])
}

fn clone_descriptors(v: &Vec<Descriptor>) -> (r: Vec<Descriptor>)
    ensures
        same_descriptors(*v, r),
    decreases v@, 0nat,
{
    let mut r: Vec<Descriptor> = Vec::new();
    let mut i: usize = 0;
    while i < v.len()
        invariant
            i <= v@.len(),
            r@.len() == i,
            forall|j: int| 0 <= j < i ==> same_descriptor(#[trigger] v@[j], r@[j]),
        decreases v@.len() - i,
    {
        proof {
            assert(decreases_to!(v@ => v@[i as int]));
        }
        r.push(clone_descriptor(&v[i]));
        i = i + 1;
    }
    r
}

impl Clone for Descriptor {
    fn clone(&self) -> (r: Self) {
        clone_descriptor(self)
    }
}

fn clone_descriptor(d: &Descriptor) -> (r: Descriptor)
    ensures
        same_descriptor(*d, r),
    decreases d, 1nat,
{
        match d {
            Descriptor::I8 => Descriptor::I8,
            Descriptor::U8 => Descriptor::U8,
            Descriptor::ClampedU8 => Descriptor::ClampedU8,
            Descriptor::I16 => Descriptor::I16,
            Descriptor::U16 => Descriptor::U16,
            Descriptor::I32 => Descriptor::I32,
            Descriptor::U32 => Descriptor::U32,
            Descriptor::I64 => Descriptor::I64,
            Descriptor::U64 => Descriptor::U64,
            Descriptor::I64AsF64 => Descriptor::I64AsF64,
            Descriptor::U64AsF64 => Descriptor::U64AsF64,
            Descriptor::I128 => Descriptor::I128,
            Descriptor::U128 => Descriptor::U128,
            Descriptor::F32 => Descriptor::F32,
            Descriptor::F64 => Descriptor::F64,
            Descriptor::Boolean => Descriptor::Boolean,
            Descriptor::Function(f) => Descriptor::Function(Box::new(clone_function(f))),
            Descriptor::Closure(c) => Descriptor::Closure(
                Box::new(
                    Closure { owned: c.owned, function: clone_function(&c.function), mutable: c.mutable },
                ),
            ),
            Descriptor::Ref(d) => Descriptor::Ref(Box::new(clone_descriptor(&**d))),
            Descriptor::RefMut(d) => Descriptor::RefMut(Box::new(clone_descriptor(&**d))),
            Descriptor::Slice(d) => Descriptor::Slice(Box::new(clone_descriptor(&**d))),
            Descriptor::Vector(d) => Descriptor::Vector(Box::new(clone_descriptor(&**d))),
            Descriptor::CachedString => Descriptor::CachedString,
            Descriptor::String => Descriptor::String,
            Descriptor::Externref => Descriptor::Externref,
            Descriptor::NamedExternref(n) => Descriptor::NamedExternref(n.clone()),
            Descriptor::Enum { name, hole } => Descriptor::Enum { name: name.clone(), hole: *hole },
            Descriptor::StringEnum { name, invalid, hole } => Descriptor::StringEnum {
                name: name.clone(),
                invalid: *invalid,
                hole: *hole,
            },
            Descriptor::DynamicUnion { name, variant_types } => Descriptor::DynamicUnion {
                name: name.clone(),
                variant_types: clone_descriptors(variant_types),
            },
            Descriptor::RustStruct(n) => Descriptor::RustStruct(n.clone()),
            Descriptor::Char => Descriptor::Char,
            Descriptor::Option(d) => Descriptor::Option(Box::new(clone_descriptor(&**d))),
            Descriptor::Result(d) => Descriptor::Result(Box::new(clone_descriptor(&**d))),
            Descriptor::Unit => Descriptor::Unit,
            Descriptor::NonNull => Descriptor::NonNull,
            Descriptor::RawPointer => Descriptor::RawPointer,
        }
}

pub(crate) fn clone_function(f: &Function) -> (r: Function)
    ensures
        same_function(*f, r),
    decreases f, 0nat,
{
    let inner_ret = match &f.inner_ret {
        Some(d) => Some(clone_descriptor(d)),
        None => None,
    };
    Function {
        arguments: clone_descriptors(&f.arguments),
        shim_idx: f.shim_idx,
        ret: clone_descriptor(&f.ret),
        inner_ret,
    }
}

impl Clone for Function {
    fn clone(&self) -> (r: Self) {
        clone_function(self)
    }
}

impl Clone for Closure {
    fn clone(&self) -> (r: Self) {
        Closure { owned: self.owned, function: clone_function(&self.function), mutable: self.mutable }
    }
}

/// The vector kind of an element descriptor, if it has one.
pub open spec fn element_vector_kind(d: Descriptor) -> Option<VectorKind> {
    match d {
        Descriptor::I8 => Some(VectorKind::I8),
        Descriptor::I16 => Some(VectorKind::I16),
        Descriptor::I32 => Some(VectorKind::I32),
        Descriptor::I64 | Descriptor::I64AsF64 => Some(VectorKind::I64),
        Descriptor::U8 => Some(VectorKind::U8),
        Descriptor::ClampedU8 => Some(VectorKind::ClampedU8),
        Descriptor::U16 => Some(VectorKind::U16),
        Descriptor::U32 => Some(VectorKind::U32),
        Descriptor::U64 | Descriptor::U64AsF64 => Some(VectorKind::U64),
        Descriptor::F32 => Some(VectorKind::F32),
        Descriptor::F64 => Some(VectorKind::F64),
        Descriptor::Externref => Some(VectorKind::Externref),
        Descriptor::NamedExternref(name) => Some(VectorKind::NamedExternref(name)),
        _ => None,
    }
}

/// The vector kind of a descriptor: strings are vectors of string bytes;
/// owned vectors, slices, shared references to slices or strings and
/// mutable references to slices have the kind of their element.
pub open spec fn spec_vector_kind(d: Descriptor) -> Option<VectorKind> {
    match d {
        Descriptor::String | Descriptor::CachedString => Some(VectorKind::String),
        Descriptor::Vector(inner) => element_vector_kind(*inner),
        Descriptor::Slice(inner) => element_vector_kind(*inner),
        Descriptor::Ref(inner) => match *inner {
            Descriptor::Slice(e) => element_vector_kind(*e),
            Descriptor::String | Descriptor::CachedString => Some(VectorKind::String),
            _ => None,
        },
        Descriptor::RefMut(inner) => match *inner {
            Descriptor::Slice(e) => element_vector_kind(*e),
            _ => None,
        },
        _ => None,
    }
}

fn element_kind(d: &Descriptor) -> (r: Option<VectorKind>)
    ensures
        r == element_vector_kind(*d),
{
    match d {
        Descriptor::I8 => Some(VectorKind::I8),
        Descriptor::I16 => Some(VectorKind::I16),
        Descriptor::I32 => Some(VectorKind::I32),
        Descriptor::I64 | Descriptor::I64AsF64 => Some(VectorKind::I64),
        Descriptor::U8 => Some(VectorKind::U8),
        Descriptor::ClampedU8 => Some(VectorKind::ClampedU8),
        Descriptor::U16 => Some(VectorKind::U16),
        Descriptor::U32 => Some(VectorKind::U32),
        Descriptor::U64 | Descriptor::U64AsF64 => Some(VectorKind::U64),
        Descriptor::F32 => Some(VectorKind::F32),
        Descriptor::F64 => Some(VectorKind::F64),
        Descriptor::Externref => Some(VectorKind::Externref),
        Descriptor::NamedExternref(name) => Some(VectorKind::NamedExternref(name.clone())),
        _ => None,
    }
}

impl Descriptor {
    /// The function signature held by a `Function` descriptor.
    pub fn unwrap_function(self) -> (f: Function)
        requires
            self is Function,
        ensures
            f == *(self->Function_0),
    {
        match self {
            Descriptor::Function(f) => *f,
            _ => {
                proof {
                    assert(false);
                }
                Function { arguments: Vec::new(), shim_idx: 0, ret: Descriptor::Unit, inner_ret: None }
            },
        }
    }

    /// The vector kind of this descriptor, if values of it are passed as a
    /// sequence of elements in linear memory.
    pub fn vector_kind(&self) -> (r: Option<VectorKind>)
        ensures
            r == spec_vector_kind(*self),
    {
        match self {
            Descriptor::String | Descriptor::CachedString => Some(VectorKind::String),
            Descriptor::Vector(d) => element_kind(d),
            Descriptor::Slice(d) => element_kind(d),
            Descriptor::Ref(d) => match &**d {
                Descriptor::Slice(e) => element_kind(e),
                Descriptor::String | Descriptor::CachedString => Some(VectorKind::String),
                _ => None,
            },
            Descriptor::RefMut(d) => match &**d {
                Descriptor::Slice(e) => element_kind(e),
                _ => None,
            },
            _ => None,
        }
    }
}

/// Size in bytes of one element of a vector of the given kind.
pub open spec fn spec_vector_kind_size(k: VectorKind) -> nat {
    match k {
        VectorKind::String | VectorKind::I8 | VectorKind::U8 | VectorKind::ClampedU8 => 1,
        VectorKind::I16 | VectorKind::U16 => 2,
        VectorKind::I32 | VectorKind::U32 | VectorKind::F32 => 4,
        VectorKind::I64 | VectorKind::U64 | VectorKind::F64 => 8,
        VectorKind::Externref | VectorKind::NamedExternref(_) => 4,
    }
}

/// Whether `name` is a valid JavaScript identifier: what
/// `wasm_bindgen_shared::identifier::is_valid_ident` returns for it.
pub uninterp spec fn spec_is_valid_ident(name: Seq<char>) -> bool;

/// Calls `wasm_bindgen_shared::identifier::is_valid_ident`.
///
/// The contract claims that the result is a function of the name alone
/// (the identifier tables of the Unicode standard decide it, which are not
/// restated here) and, as the outside source shows, that the empty string
/// is never a valid identifier.
#[verifier::external_body]
pub(crate) fn is_valid_ident(name: &str) -> (r: bool)
    ensures
        r == spec_is_valid_ident(name@),
        name@.len() == 0 ==> !r,
{
    wasm_bindgen_shared::identifier::is_valid_ident(name)
}

/// The TypeScript type of a vector of the given kind.
pub open spec fn spec_vector_kind_js_ty(k: VectorKind) -> Seq<char> {
    match k {
        VectorKind::String => "string"@,
        VectorKind::I8 => "Int8Array"@,
        VectorKind::U8 => "Uint8Array"@,
        VectorKind::ClampedU8 => "Uint8ClampedArray"@,
        VectorKind::I16 => "Int16Array"@,
        VectorKind::U16 => "Uint16Array"@,
        VectorKind::I32 => "Int32Array"@,
        VectorKind::U32 => "Uint32Array"@,
        VectorKind::I64 => "BigInt64Array"@,
        VectorKind::U64 => "BigUint64Array"@,
        VectorKind::F32 => "Float32Array"@,
        VectorKind::F64 => "Float64Array"@,
        VectorKind::Externref => "any[]"@,
        VectorKind::NamedExternref(name) => if spec_is_valid_ident(name@) {
            name@ + "[]"@
        } else {
            "("@ + name@ + ")[]"@
        },
    }
}

impl VectorKind {
    /// The TypeScript type of a vector of this kind; a named externref whose
    /// name is not an identifier is put in parentheses.
    pub fn js_ty(&self) -> (s: String)
        ensures
            s@ == spec_vector_kind_js_ty(*self),
    {
        match self {
            VectorKind::String => String::from_str("string"),
            VectorKind::I8 => String::from_str("Int8Array"),
            VectorKind::U8 => String::from_str("Uint8Array"),
            VectorKind::ClampedU8 => String::from_str("Uint8ClampedArray"),
            VectorKind::I16 => String::from_str("Int16Array"),
            VectorKind::U16 => String::from_str("Uint16Array"),
            VectorKind::I32 => String::from_str("Int32Array"),
            VectorKind::U32 => String::from_str("Uint32Array"),
            VectorKind::I64 => String::from_str("BigInt64Array"),
            VectorKind::U64 => String::from_str("BigUint64Array"),
            VectorKind::F32 => String::from_str("Float32Array"),
            VectorKind::F64 => String::from_str("Float64Array"),
            VectorKind::Externref => String::from_str("any[]"),
            VectorKind::NamedExternref(name) => {
                if is_valid_ident(name.as_str()) {
                    let mut s = name.clone();
                    s.append("[]");
                    s
                } else {
                    let mut s = String::from_str("(");
                    s.append(name.as_str());
                    s.append(")[]");
                    s
                }
            },
        }
    }

    /// Size in bytes of one element of a vector of this kind.
    pub fn size(&self) -> (n: usize)
        ensures
            n == spec_vector_kind_size(*self),
    {
        match self {
            VectorKind::String => 1,
            VectorKind::I8 => 1,
            VectorKind::U8 => 1,
            VectorKind::ClampedU8 => 1,
            VectorKind::I16 => 2,
            VectorKind::U16 => 2,
            VectorKind::I32 => 4,
            VectorKind::U32 => 4,
            VectorKind::I64 => 8,
            VectorKind::U64 => 8,
            VectorKind::F32 => 4,
            VectorKind::F64 => 8,
            VectorKind::Externref => 4,
            VectorKind::NamedExternref(_) => 4,
        }
    }
}

/// Whether `d` is a signed integer element of `bytes` bytes.
pub open spec fn signed_element(d: Descriptor, bytes: nat) -> bool {
    ||| d is I8 && bytes == 1
    ||| d is I16 && bytes == 2
    ||| d is I32 && bytes == 4
    ||| d is I64 && bytes == 8
}

/// Whether `d` is an unsigned integer element of `bytes` bytes.
pub open spec fn unsigned_element(d: Descriptor, bytes: nat) -> bool {
    ||| d is U8 && bytes == 1
    ||| d is U16 && bytes == 2
    ||| d is U32 && bytes == 4
    ||| d is U64 && bytes == 8
}

/// The containers whose vector kind is that of their element `e`: an owned
/// vector, a slice, and a shared or mutable reference to a slice.
pub open spec fn element_containers(e: Descriptor) -> Seq<Descriptor> {
    seq![
        Descriptor::Vector(Box::new(e)),
        Descriptor::Slice(Box::new(e)),
        Descriptor::Ref(Box::new(Descriptor::Slice(Box::new(e)))),
        Descriptor::RefMut(Box::new(Descriptor::Slice(Box::new(e)))),
    ]
}

/// A vector of integers keeps their signedness and width: a vector (or
/// slice) of `i8`, `i16`, `i32` or `i64` has the signed kind of that width,
/// one of `u8` .. `u64` the unsigned kind, so `-1i16` is not read as
/// `65535`. Two integer elements of different signedness never share a kind.
pub proof fn lemma_vector_kinds_keep_signedness(e: Descriptor, e2: Descriptor, bytes: nat, bytes2: nat, c: int)
    requires
        0 <= c < 4,
    ensures
        e is I8 ==> spec_vector_kind(element_containers(e)[c]) == Some(VectorKind::I8),
        e is I16 ==> spec_vector_kind(element_containers(e)[c]) == Some(VectorKind::I16),
        e is I32 ==> spec_vector_kind(element_containers(e)[c]) == Some(VectorKind::I32),
        e is I64 ==> spec_vector_kind(element_containers(e)[c]) == Some(VectorKind::I64),
        e is U8 ==> spec_vector_kind(element_containers(e)[c]) == Some(VectorKind::U8),
        e is U16 ==> spec_vector_kind(element_containers(e)[c]) == Some(VectorKind::U16),
        e is U32 ==> spec_vector_kind(element_containers(e)[c]) == Some(VectorKind::U32),
        e is U64 ==> spec_vector_kind(element_containers(e)[c]) == Some(VectorKind::U64),
        signed_element(e, bytes) && unsigned_element(e2, bytes2) ==> spec_vector_kind(element_containers(e)[c])
            != spec_vector_kind(element_containers(e2)[c]),
        signed_element(e, bytes) && signed_element(e2, bytes2) && bytes != bytes2 ==> spec_vector_kind(
            element_containers(e)[c],
        ) != spec_vector_kind(element_containers(e2)[c]),
{
}

} // verus!
