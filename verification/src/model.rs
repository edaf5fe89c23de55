//! The front-end-agnostic definitions that make up a component interface:
//! enums with their variants and fields, records, objects, errors, callback
//! interfaces and functions, plus the boundary-level function descriptors.

use vstd::prelude::*;
use crate::types::{Type, FFIType, Literal, spec_ffi_type, ffi_type_of, type_clone, type_eq_spec};

verus! {

/// Builds a vector of references to the elements of `v`, in order.
pub fn ref_vec<'a, T>(v: &'a Vec<T>) -> (r: Vec<&'a T>)
    ensures
        r@.len() == v@.len(),
        forall|i: int| 0 <= i < v@.len() ==> r@[i] == v@[i],
{
    let mut r: Vec<&'a T> = Vec::new();
    let mut i: usize = 0;
    while i < v.len()
        invariant
            i <= v@.len(),
            r@.len() == i,
            forall|j: int| 0 <= j < i ==> r@[j] == v@[j],
        decreases v@.len() - i,
    {
        r.push(&v[i]);
        i += 1;
    }
    r
}

/// Builds a vector of string slices over the strings of `v`, in order.
pub fn str_refs<'a>(v: &'a Vec<String>) -> (r: Vec<&'a str>)
    ensures
        r@.len() == v@.len(),
        forall|i: int| 0 <= i < v@.len() ==> r@[i]@ == v@[i]@,
{
    let mut r: Vec<&'a str> = Vec::new();
    let mut i: usize = 0;
    while i < v.len()
        invariant
            i <= v@.len(),
            r@.len() == i,
            forall|j: int| 0 <= j < i ==> r@[j]@ == v@[j]@,
        decreases v@.len() - i,
    {
        r.push(v[i].as_str());
        i += 1;
    }
    r
}

/// One named, typed field of a record or of an enum variant.
#[derive(Debug)]
pub struct Field {
    pub name: String,
    pub type_: Type,
    pub required: bool,
    pub default: Option<Literal>,
    pub docs: Vec<String>,
}

impl Field {
    pub fn name(&self) -> (r: &str)
        ensures
            r@ == self.name@,
    {
        self.name.as_str()
    }

    /// A copy of the field's resolved type.
    pub fn type_(&self) -> (r: Type)
        ensures
            type_eq_spec(r, self.type_),
    {
        type_clone(&self.type_)
    }

    pub fn docs(&self) -> (r: Vec<&str>)
        ensures
            r@.len() == self.docs@.len(),
            forall|i: int| 0 <= i < self.docs@.len() ==> r@[i]@ == self.docs@[i]@,
    {
        str_refs(&self.docs)
    }
}

/// An individual variant of an enum: a name and zero or more fields.
/// Variant names need not be unique within one enum; duplicates are kept
/// in declaration order.
#[derive(Debug)]
pub struct Variant {
    pub name: String,
    pub fields: Vec<Field>,
    pub docs: Vec<String>,
}

impl Variant {
    pub fn name(&self) -> (r: &str)
        ensures
            r@ == self.name@,
    {
        self.name.as_str()
    }

    pub fn fields(&self) -> (r: Vec<&Field>)
        ensures
            r@.len() == self.fields@.len(),
            forall|i: int| 0 <= i < self.fields@.len() ==> r@[i] == self.fields@[i],
    {
        ref_vec(&self.fields)
    }

    pub fn docs(&self) -> (r: Vec<&str>)
        ensures
            r@.len() == self.docs@.len(),
            forall|i: int| 0 <= i < self.docs@.len() ==> r@[i]@ == self.docs@[i]@,
    {
        str_refs(&self.docs)
    }

    pub fn has_fields(&self) -> (r: bool)
        ensures
            r == (self.fields@.len() != 0),
    {
        self.fields.len() != 0
    }
}

/// An enum with named variants, each of which may carry named, typed
/// fields. Enums cross the foreign-function boundary serialized to a byte
/// buffer, whatever their `flat` flag says.
#[derive(Debug)]
pub struct Enum {
    pub name: String,
    pub variants: Vec<Variant>,
    pub flat: bool,
    pub docs: Vec<String>,
}

/// No variant of the sequence carries a field.
pub open spec fn all_fieldless(vs: Seq<Variant>) -> bool {
    forall|i: int| 0 <= i < vs.len() ==> (#[trigger] vs[i]).fields@.len() == 0
}

/// Appending a variant keeps the sequence fieldless exactly when the
/// sequence was fieldless and the variant carries no field.
pub proof fn lemma_all_fieldless_push(vs: Seq<Variant>, v: Variant)
    ensures
        all_fieldless(vs.push(v)) <==> (all_fieldless(vs) && v.fields@.len() == 0),
{
    assert(vs.push(v)[vs.len() as int] == v);
    if all_fieldless(vs) && v.fields@.len() == 0 {
        assert forall|i: int| 0 <= i < vs.push(v).len() implies (#[trigger] vs.push(v)[i]).fields@.len()
            == 0 by {
            if i < vs.len() {
                assert(vs.push(v)[i] == vs[i]);
            }
        }
    }
    if all_fieldless(vs.push(v)) {
        assert forall|i: int| 0 <= i < vs.len() implies (#[trigger] vs[i]).fields@.len() == 0 by {
            assert(vs.push(v)[i] == vs[i]);
        }
    }
}

/// Every field of every variant of the enum obeys the structural rules of
/// enum variant data: it is no object, carries no default and no required
/// mark.
pub open spec fn enum_fields_ok(e: Enum) -> bool {
    forall|vi: int, fi: int|
        0 <= vi < e.variants@.len() && 0 <= fi < e.variants@[vi].fields@.len() ==> {
            let f = #[trigger] e.variants@[vi].fields@[fi];
            &&& !(f.type_ is Object)
            &&& f.required == false
            &&& f.default is None
        }
}

impl Enum {
    /// The `flat` flag is derived, never declared: it is set exactly when
    /// no variant carries a field.
    pub open spec fn wf(&self) -> bool {
        self.flat <==> all_fieldless(self.variants@)
    }

    pub fn name(&self) -> (r: &str)
        ensures
            r@ == self.name@,
    {
        self.name.as_str()
    }

    pub fn variants(&self) -> (r: Vec<&Variant>)
        ensures
            r@.len() == self.variants@.len(),
            forall|i: int| 0 <= i < self.variants@.len() ==> r@[i] == self.variants@[i],
    {
        ref_vec(&self.variants)
    }

    pub fn is_flat(&self) -> (r: bool)
        ensures
            r == self.flat,
    {
        self.flat
    }

    pub fn docs(&self) -> (r: Vec<&str>)
        ensures
            r@.len() == self.docs@.len(),
            forall|i: int| 0 <= i < self.docs@.len() ==> r@[i]@ == self.docs@[i]@,
    {
        str_refs(&self.docs)
    }
}

/// A record: a named collection of typed fields, serialized as a buffer at
/// the boundary.
#[derive(Debug)]
pub struct Record {
    pub name: String,
    pub fields: Vec<Field>,
    pub docs: Vec<String>,
}

impl Record {
    pub fn name(&self) -> (r: &str)
        ensures
            r@ == self.name@,
    {
        self.name.as_str()
    }

    pub fn fields(&self) -> (r: Vec<&Field>)
        ensures
            r@.len() == self.fields@.len(),
            forall|i: int| 0 <= i < self.fields@.len() ==> r@[i] == self.fields@[i],
    {
        ref_vec(&self.fields)
    }
}

/// An object: a named, heap-owned entity that crosses the boundary as an
/// opaque handle.
#[derive(Debug)]
pub struct Object {
    pub name: String,
    pub docs: Vec<String>,
}

impl Object {
    pub fn name(&self) -> (r: &str)
        ensures
            r@ == self.name@,
    {
        self.name.as_str()
    }
}

/// An error definition: a named set of flat error values.
#[derive(Debug)]
pub struct ErrorDef {
    pub name: String,
    pub values: Vec<String>,
    pub docs: Vec<String>,
}

impl ErrorDef {
    pub fn name(&self) -> (r: &str)
        ensures
            r@ == self.name@,
    {
        self.name.as_str()
    }

    pub fn values(&self) -> (r: Vec<&str>)
        ensures
            r@.len() == self.values@.len(),
            forall|i: int| 0 <= i < self.values@.len() ==> r@[i]@ == self.values@[i]@,
    {
        str_refs(&self.values)
    }
}

/// A callback interface: an interface implemented by the foreign side,
/// crossing the boundary as an opaque handle.
#[derive(Debug)]
pub struct CallbackInterface {
    pub name: String,
    pub docs: Vec<String>,
}

impl CallbackInterface {
    pub fn name(&self) -> (r: &str)
        ensures
            r@ == self.name@,
    {
        self.name.as_str()
    }
}

/// One declared argument of a function.
#[derive(Debug)]
pub struct Argument {
    pub name: String,
    pub type_: Type,
    pub default: Option<Literal>,
}

impl Argument {
    pub fn name(&self) -> (r: &str)
        ensures
            r@ == self.name@,
    {
        self.name.as_str()
    }

    /// A copy of the argument's resolved type.
    pub fn type_(&self) -> (r: Type)
        ensures
            type_eq_spec(r, self.type_),
    {
        type_clone(&self.type_)
    }
}

/// One argument slot of a boundary function descriptor.
#[derive(Debug)]
pub struct FFIArgument {
    pub name: String,
    pub type_: FFIType,
}

impl FFIArgument {
    pub fn name(&self) -> (r: &str)
        ensures
            r@ == self.name@,
    {
        self.name.as_str()
    }

    pub fn type_(&self) -> (r: FFIType)
        ensures
            r == self.type_,
    {
        self.type_
    }
}

/// The boundary-level signature of a function: every argument and the
/// return slot expressed purely in boundary representations.
#[derive(Debug)]
pub struct FFIFunction {
    pub name: String,
    pub arguments: Vec<FFIArgument>,
    pub return_type: Option<FFIType>,
}

impl FFIFunction {
    pub fn name(&self) -> (r: &str)
        ensures
            r@ == self.name@,
    {
        self.name.as_str()
    }

    pub fn arguments(&self) -> (r: Vec<&FFIArgument>)
        ensures
            r@.len() == self.arguments@.len(),
            forall|i: int| 0 <= i < self.arguments@.len() ==> r@[i] == self.arguments@[i],
    {
        ref_vec(&self.arguments)
    }

    pub fn return_type(&self) -> (r: Option<FFIType>)
        ensures
            r == self.return_type,
    {
        match &self.return_type {
            Some(t) => Some(*t),
            None => None,
        }
    }
}

/// A top-level function of the interface, together with its derived
/// boundary descriptor.
#[derive(Debug)]
pub struct Function {
    pub name: String,
    pub arguments: Vec<Argument>,
    pub return_type: Option<Type>,
    pub ffi_func: FFIFunction,
    pub docs: Vec<String>,
}

/// The boundary descriptor of `f` is exactly the one the fixed policy
/// derives from its name, argument types and return type.
pub open spec fn ffi_derived(f: Function) -> bool {
    &&& f.ffi_func.name@ == f.name@
    &&& f.ffi_func.arguments@.len() == f.arguments@.len()
    &&& forall|i: int|
        0 <= i < f.arguments@.len() ==> f.ffi_func.arguments@[i].name@ == f.arguments@[i].name@
            && f.ffi_func.arguments@[i].type_ == spec_ffi_type(f.arguments@[i].type_)
    &&& match f.return_type {
        Some(t) => f.ffi_func.return_type == Some(spec_ffi_type(t)),
        None => f.ffi_func.return_type is None,
    }
}

impl Function {
    pub fn name(&self) -> (r: &str)
        ensures
            r@ == self.name@,
    {
        self.name.as_str()
    }

    pub fn arguments(&self) -> (r: Vec<&Argument>)
        ensures
            r@.len() == self.arguments@.len(),
            forall|i: int| 0 <= i < self.arguments@.len() ==> r@[i] == self.arguments@[i],
    {
        ref_vec(&self.arguments)
    }

    pub fn return_type(&self) -> (r: Option<&Type>)
        ensures
            match r {
                Some(t) => self.return_type matches Some(t2) && t2 == *t,
                None => self.return_type is None,
            },
    {
        self.return_type.as_ref()
    }

    pub fn ffi_func(&self) -> (r: &FFIFunction)
        ensures
            *r == self.ffi_func,
    {
        &self.ffi_func
    }

    pub fn docs(&self) -> (r: Vec<&str>)
        ensures
            r@.len() == self.docs@.len(),
            forall|i: int| 0 <= i < self.docs@.len() ==> r@[i]@ == self.docs@[i]@,
    {
        str_refs(&self.docs)
    }
}

/// Derives the boundary function descriptor for a function with the given
/// name, arguments and return type, mapping every slot through the fixed
/// per-type policy.
pub fn derive_ffi_func(name: &String, args: &Vec<Argument>, return_type: &Option<Type>) -> (r:
    FFIFunction)
    ensures
        r.name@ == name@,
        r.arguments@.len() == args@.len(),
        forall|i: int|
            0 <= i < args@.len() ==> r.arguments@[i].name@ == args@[i].name@
                && r.arguments@[i].type_ == spec_ffi_type(args@[i].type_),
        match *return_type {
            Some(t) => r.return_type == Some(spec_ffi_type(t)),
            None => r.return_type is None,
        },
{
    let mut fargs: Vec<FFIArgument> = Vec::new();
    let mut i: usize = 0;
    while i < args.len()
        invariant
            i <= args@.len(),
            fargs@.len() == i,
            forall|j: int|
                0 <= j < i ==> fargs@[j].name@ == args@[j].name@ && fargs@[j].type_
                    == spec_ffi_type(args@[j].type_),
        decreases args@.len() - i,
    {
        fargs.push(FFIArgument { name: args[i].name.clone(), type_: ffi_type_of(&args[i].type_) });
        i += 1;
    }
    let ret: Option<FFIType> = match return_type {
        Some(t) => Some(ffi_type_of(t)),
        None => None,
    };
    FFIFunction { name: name.clone(), arguments: fargs, return_type: ret }
}

} // verus!
