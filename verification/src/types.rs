//! The resolved type language of a component interface, and the policy that
//! assigns every type its boundary (FFI) representation.

use vstd::prelude::*;
use crate::text::str_eq;

verus! {

/// A fully resolved type as it appears in the validated model.
///
/// Named references (`Object`, `Enum`, `Record`, `Error`,
/// `CallbackInterface`) carry the name of the definition they refer to;
/// the structural types (`Optional`, `Sequence`, `Mapping`) nest.
#[derive(Debug)]
pub enum Type {
    Boolean,
    UInt8,
    Int8,
    UInt16,
    Int16,
    UInt32,
    Int32,
    UInt64,
    Int64,
    Float32,
    Float64,
    String,
    Bytes,
    Timestamp,
    Duration,
    Object(String),
    Enum(String),
    Record(String),
    Error(String),
    CallbackInterface(String),
    External(String),
    Optional(Box<Type>),
    Sequence(Box<Type>),
    Mapping(Box<Type>, Box<Type>),
}

/// Structural equality of two types, comparing names by their character
/// sequences.
pub open spec fn type_eq_spec(a: Type, b: Type) -> bool
    decreases a,
{
    match (a, b) {
        (Type::Boolean, Type::Boolean) => true,
        (Type::UInt8, Type::UInt8) => true,
        (Type::Int8, Type::Int8) => true,
        (Type::UInt16, Type::UInt16) => true,
        (Type::Int16, Type::Int16) => true,
        (Type::UInt32, Type::UInt32) => true,
        (Type::Int32, Type::Int32) => true,
        (Type::UInt64, Type::UInt64) => true,
        (Type::Int64, Type::Int64) => true,
        (Type::Float32, Type::Float32) => true,
        (Type::Float64, Type::Float64) => true,
        (Type::String, Type::String) => true,
        (Type::Bytes, Type::Bytes) => true,
        (Type::Timestamp, Type::Timestamp) => true,
        (Type::Duration, Type::Duration) => true,
        (Type::Object(x), Type::Object(y)) => x@ == y@,
        (Type::Enum(x), Type::Enum(y)) => x@ == y@,
        (Type::Record(x), Type::Record(y)) => x@ == y@,
        (Type::Error(x), Type::Error(y)) => x@ == y@,
        (Type::CallbackInterface(x), Type::CallbackInterface(y)) => x@ == y@,
        (Type::External(x), Type::External(y)) => x@ == y@,
        (Type::Optional(x), Type::Optional(y)) => type_eq_spec(*x, *y),
        (Type::Sequence(x), Type::Sequence(y)) => type_eq_spec(*x, *y),
        (Type::Mapping(k1, v1), Type::Mapping(k2, v2)) => type_eq_spec(*k1, *k2)
            && type_eq_spec(*v1, *v2),
        _ => false,
    }
}

/// Decides [`type_eq_spec`] on two type values.
pub fn type_eq(a: &Type, b: &Type) -> (r: bool)
    ensures
        r == type_eq_spec(*a, *b),
    decreases *a,
{
    match (a, b) {
        (Type::Boolean, Type::Boolean) => true,
        (Type::UInt8, Type::UInt8) => true,
        (Type::Int8, Type::Int8) => true,
        (Type::UInt16, Type::UInt16) => true,
        (Type::Int16, Type::Int16) => true,
        (Type::UInt32, Type::UInt32) => true,
        (Type::Int32, Type::Int32) => true,
        (Type::UInt64, Type::UInt64) => true,
        (Type::Int64, Type::Int64) => true,
        (Type::Float32, Type::Float32) => true,
        (Type::Float64, Type::Float64) => true,
        (Type::String, Type::String) => true,
        (Type::Bytes, Type::Bytes) => true,
        (Type::Timestamp, Type::Timestamp) => true,
        (Type::Duration, Type::Duration) => true,
        (Type::Object(x), Type::Object(y)) => str_eq(x.as_str(), y.as_str()),
        (Type::Enum(x), Type::Enum(y)) => str_eq(x.as_str(), y.as_str()),
        (Type::Record(x), Type::Record(y)) => str_eq(x.as_str(), y.as_str()),
        (Type::Error(x), Type::Error(y)) => str_eq(x.as_str(), y.as_str()),
        (Type::CallbackInterface(x), Type::CallbackInterface(y)) => str_eq(
            x.as_str(),
            y.as_str(),
        ),
        (Type::External(x), Type::External(y)) => str_eq(x.as_str(), y.as_str()),
        (Type::Optional(x), Type::Optional(y)) => type_eq(&**x, &**y),
        (Type::Sequence(x), Type::Sequence(y)) => type_eq(&**x, &**y),
        (Type::Mapping(k1, v1), Type::Mapping(k2, v2)) => type_eq(&**k1, &**k2) && type_eq(
            &**v1,
            &**v2,
        ),
        _ => false,
    }
}

/// Deep copy of a type value; the copy is structurally equal to the input.
pub fn type_clone(t: &Type) -> (r: Type)
    ensures
        type_eq_spec(r, *t),
    decreases *t,
{
    match t {
        Type::Boolean => Type::Boolean,
        Type::UInt8 => Type::UInt8,
        Type::Int8 => Type::Int8,
        Type::UInt16 => Type::UInt16,
        Type::Int16 => Type::Int16,
        Type::UInt32 => Type::UInt32,
        Type::Int32 => Type::Int32,
        Type::UInt64 => Type::UInt64,
        Type::Int64 => Type::Int64,
        Type::Float32 => Type::Float32,
        Type::Float64 => Type::Float64,
        Type::String => Type::String,
        Type::Bytes => Type::Bytes,
        Type::Timestamp => Type::Timestamp,
        Type::Duration => Type::Duration,
        Type::Object(x) => Type::Object(x.clone()),
        Type::Enum(x) => Type::Enum(x.clone()),
        Type::Record(x) => Type::Record(x.clone()),
        Type::Error(x) => Type::Error(x.clone()),
        Type::CallbackInterface(x) => Type::CallbackInterface(x.clone()),
        Type::External(x) => Type::External(x.clone()),
        Type::Optional(x) => Type::Optional(Box::new(type_clone(&**x))),
        Type::Sequence(x) => Type::Sequence(Box::new(type_clone(&**x))),
        Type::Mapping(k, v) => Type::Mapping(
            Box::new(type_clone(&**k)),
            Box::new(type_clone(&**v)),
        ),
    }
}

impl PartialEq for Type {
    fn eq(&self, other: &Type) -> (r: bool)
        ensures
            r == type_eq_spec(*self, *other),
    {
        type_eq(self, other)
    }
}

impl vstd::std_specs::cmp::PartialEqSpecImpl for Type {
    open spec fn obeys_eq_spec() -> bool {
        true
    }

    open spec fn eq_spec(&self, other: &Type) -> bool {
        type_eq_spec(*self, *other)
    }
}

/// The boundary representation a value takes when it crosses the
/// foreign-function boundary: a native scalar of fixed width, an opaque
/// handle to a heap-owned object, or a serialized buffer of bytes.
#[derive(Debug, Clone, Copy, PartialEq, Eq, Structural)]
pub enum FFIType {
    Int8,
    UInt8,
    Int16,
    UInt16,
    Int32,
    UInt32,
    Int64,
    UInt64,
    Float32,
    Float64,
    RustBuffer,
    ObjectHandle,
}

/// The fixed boundary-representation policy.
///
/// Primitive scalars cross by value at their own width (booleans as a
/// one-byte integer). Strings, bytes, timestamps, durations, structural
/// types, records, errors, and every enum regardless of flatness cross as
/// a serialized buffer. Object and callback-interface references cross as
/// opaque handles.
pub open spec fn spec_ffi_type(t: Type) -> FFIType {
    match t {
        Type::Boolean => FFIType::Int8,
        Type::UInt8 => FFIType::UInt8,
        Type::Int8 => FFIType::Int8,
        Type::UInt16 => FFIType::UInt16,
        Type::Int16 => FFIType::Int16,
        Type::UInt32 => FFIType::UInt32,
        Type::Int32 => FFIType::Int32,
        Type::UInt64 => FFIType::UInt64,
        Type::Int64 => FFIType::Int64,
        Type::Float32 => FFIType::Float32,
        Type::Float64 => FFIType::Float64,
        Type::String => FFIType::RustBuffer,
        Type::Bytes => FFIType::RustBuffer,
        Type::Timestamp => FFIType::RustBuffer,
        Type::Duration => FFIType::RustBuffer,
        Type::Object(_) => FFIType::ObjectHandle,
        Type::Enum(_) => FFIType::RustBuffer,
        Type::Record(_) => FFIType::RustBuffer,
        Type::Error(_) => FFIType::RustBuffer,
        Type::CallbackInterface(_) => FFIType::ObjectHandle,
        Type::External(_) => FFIType::RustBuffer,
        Type::Optional(_) => FFIType::RustBuffer,
        Type::Sequence(_) => FFIType::RustBuffer,
        Type::Mapping(_, _) => FFIType::RustBuffer,
    }
}

/// Derives the boundary representation of one type under the fixed policy.
pub fn ffi_type_of(t: &Type) -> (r: FFIType)
    ensures
        r == spec_ffi_type(*t),
{
    match t {
        Type::Boolean => FFIType::Int8,
        Type::UInt8 => FFIType::UInt8,
        Type::Int8 => FFIType::Int8,
        Type::UInt16 => FFIType::UInt16,
        Type::Int16 => FFIType::Int16,
        Type::UInt32 => FFIType::UInt32,
        Type::Int32 => FFIType::Int32,
        Type::UInt64 => FFIType::UInt64,
        Type::Int64 => FFIType::Int64,
        Type::Float32 => FFIType::Float32,
        Type::Float64 => FFIType::Float64,
        Type::String => FFIType::RustBuffer,
        Type::Bytes => FFIType::RustBuffer,
        Type::Timestamp => FFIType::RustBuffer,
        Type::Duration => FFIType::RustBuffer,
        Type::Object(_) => FFIType::ObjectHandle,
        Type::Enum(_) => FFIType::RustBuffer,
        Type::Record(_) => FFIType::RustBuffer,
        Type::Error(_) => FFIType::RustBuffer,
        Type::CallbackInterface(_) => FFIType::ObjectHandle,
        Type::External(_) => FFIType::RustBuffer,
        Type::Optional(_) => FFIType::RustBuffer,
        Type::Sequence(_) => FFIType::RustBuffer,
        Type::Mapping(_, _) => FFIType::RustBuffer,
    }
}

/// A raw type expression as written in either front end, before the
/// registry has resolved its names.
#[derive(Debug)]
pub enum TypeExpr {
    Named(String),
    Optional(Box<TypeExpr>),
    Sequence(Box<TypeExpr>),
    Mapping(Box<TypeExpr>, Box<TypeExpr>),
}

/// A literal value usable as a field default.
#[derive(Debug, Clone)]
pub enum Literal {
    Boolean(bool),
    Str(String),
    UInt(u64),
}

/// Copies a literal; the copy equals the input.
pub fn literal_clone(l: &Literal) -> (r: Literal)
    ensures
        r == *l,
{
    match l {
        Literal::Boolean(b) => Literal::Boolean(*b),
        Literal::Str(s) => Literal::Str(s.clone()),
        Literal::UInt(v) => Literal::UInt(*v),
    }
}

/// An error raised while building a component interface. Each variant is
/// one class of the error taxonomy and carries the name or description of
/// the offending construct.
#[derive(Debug, Clone)]
pub enum BuildError {
    /// Malformed input for the front-end grammar.
    Syntax(String),
    /// Syntactically valid but semantically unsupported construct.
    UnsupportedConstruct(String),
    /// A name used as a type that no declaration defines.
    Resolution(String),
    /// A structural rule of the model is broken.
    StructuralConstraint(String),
}

impl BuildError {
    /// The name or description of the offending construct.
    pub fn detail(&self) -> (r: &str)
        ensures
            r@ == match *self {
                BuildError::Syntax(s) => s@,
                BuildError::UnsupportedConstruct(s) => s@,
                BuildError::Resolution(s) => s@,
                BuildError::StructuralConstraint(s) => s@,
            },
    {
        match self {
            BuildError::Syntax(s) => s.as_str(),
            BuildError::UnsupportedConstruct(s) => s.as_str(),
            BuildError::Resolution(s) => s.as_str(),
            BuildError::StructuralConstraint(s) => s.as_str(),
        }
    }
}

} // verus!
