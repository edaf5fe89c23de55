//! The component interface: the registry of all definitions, the resolver
//! that turns raw type expressions into concrete types, and the recursive
//! containment queries over the finished model.

use vstd::prelude::*;
use crate::text::str_eq;
use crate::types::{Type, TypeExpr, BuildError};
use crate::model::{Enum, Record, Object, ErrorDef, CallbackInterface, Function, ffi_derived,
    enum_fields_ok, ref_vec};

verus! {

/// The kind of one declared name in the interface's flat namespace.
#[derive(Debug, Clone, Copy, PartialEq, Eq, Structural)]
pub enum DeclKind {
    Enum,
    Record,
    Object,
    Error,
    Callback,
    Function,
}

/// One declared name together with its kind.
#[derive(Debug)]
pub struct Decl {
    pub name: String,
    pub kind: DeclKind,
}

/// The kind of the first declaration carrying the given name, if any.
pub open spec fn find_decl(decls: Seq<Decl>, n: Seq<char>) -> Option<DeclKind>
    decreases decls.len(),
{
    if decls.len() == 0 {
        None
    } else if decls[0].name@ == n {
        Some(decls[0].kind)
    } else {
        find_decl(decls.drop_first(), n)
    }
}

/// No two declarations carry the same name.
pub open spec fn names_unique(decls: Seq<Decl>) -> bool {
    forall|i: int, j: int| 0 <= i < j < decls.len() ==> decls[i].name@ != decls[j].name@
}

/// A name is found exactly when some declaration carries it.
pub proof fn lemma_find_decl_some(decls: Seq<Decl>, n: Seq<char>)
    ensures
        find_decl(decls, n) is Some <==> exists|i: int| 0 <= i < decls.len()
            && decls[i].name@ == n,
    decreases decls.len(),
{
    if decls.len() > 0 {
        lemma_find_decl_some(decls.drop_first(), n);
        if decls[0].name@ != n {
            if exists|i: int| 0 <= i < decls.len() && decls[i].name@ == n {
                let i = choose|i: int| 0 <= i < decls.len() && decls[i].name@ == n;
                assert(decls.drop_first()[i - 1].name@ == n);
            }
            if find_decl(decls.drop_first(), n) is Some {
                let i = choose|i: int|
                    0 <= i < decls.drop_first().len() && decls.drop_first()[i].name@ == n;
                assert(decls[i + 1].name@ == n);
            }
        }
    }
}

/// The first enum of the registry carrying the given name, if any.
pub open spec fn find_enum(enums: Seq<Enum>, n: Seq<char>) -> Option<Enum>
    decreases enums.len(),
{
    if enums.len() == 0 {
        None
    } else if enums[0].name@ == n {
        Some(enums[0])
    } else {
        find_enum(enums.drop_first(), n)
    }
}

/// The first record of the registry carrying the given name, if any.
pub open spec fn find_record(records: Seq<Record>, n: Seq<char>) -> Option<Record>
    decreases records.len(),
{
    if records.len() == 0 {
        None
    } else if records[0].name@ == n {
        Some(records[0])
    } else {
        find_record(records.drop_first(), n)
    }
}

/// What a bare name written as a type resolves to: first the built-in
/// primitive names, then a user declaration looked up by name. A name
/// declared as a function, or not declared at all, is no type.
pub open spec fn name_resolves_to(decls: Seq<Decl>, n: Seq<char>, t: Type) -> bool {
    if n == "boolean"@ {
        t is Boolean
    } else if n == "u8"@ {
        t is UInt8
    } else if n == "i8"@ {
        t is Int8
    } else if n == "u16"@ {
        t is UInt16
    } else if n == "i16"@ {
        t is Int16
    } else if n == "u32"@ {
        t is UInt32
    } else if n == "i32"@ {
        t is Int32
    } else if n == "u64"@ {
        t is UInt64
    } else if n == "i64"@ {
        t is Int64
    } else if n == "f32"@ {
        t is Float32
    } else if n == "f64"@ {
        t is Float64
    } else if n == "string"@ {
        t is String
    } else if n == "bytes"@ {
        t is Bytes
    } else if n == "timestamp"@ {
        t is Timestamp
    } else if n == "duration"@ {
        t is Duration
    } else {
        match find_decl(decls, n) {
            Some(DeclKind::Enum) => t matches Type::Enum(m) && m@ == n,
            Some(DeclKind::Record) => t matches Type::Record(m) && m@ == n,
            Some(DeclKind::Object) => t matches Type::Object(m) && m@ == n,
            Some(DeclKind::Error) => t matches Type::Error(m) && m@ == n,
            Some(DeclKind::Callback) => t matches Type::CallbackInterface(m) && m@ == n,
            Some(DeclKind::Function) => false,
            None => false,
        }
    }
}

/// The built-in primitive type names. They shadow user declarations.
pub open spec fn is_builtin_name(n: Seq<char>) -> bool {
    ||| n == "boolean"@
    ||| n == "u8"@
    ||| n == "i8"@
    ||| n == "u16"@
    ||| n == "i16"@
    ||| n == "u32"@
    ||| n == "i32"@
    ||| n == "u64"@
    ||| n == "i64"@
    ||| n == "f32"@
    ||| n == "f64"@
    ||| n == "string"@
    ||| n == "bytes"@
    ||| n == "timestamp"@
    ||| n == "duration"@
}

/// Whether a bare name written as a type resolves at all.
pub open spec fn name_resolvable(decls: Seq<Decl>, n: Seq<char>) -> bool {
    ||| is_builtin_name(n)
    ||| (match find_decl(decls, n) {
        Some(k) => !(k is Function),
        None => false,
    })
}

/// A raw type expression resolves to the given concrete type.
pub open spec fn resolves_to(decls: Seq<Decl>, e: TypeExpr, t: Type) -> bool
    decreases e,
{
    match e {
        TypeExpr::Named(n) => name_resolves_to(decls, n@, t),
        TypeExpr::Optional(ie) => t matches Type::Optional(it) && resolves_to(decls, *ie, *it),
        TypeExpr::Sequence(ie) => t matches Type::Sequence(it) && resolves_to(decls, *ie, *it),
        TypeExpr::Mapping(ke, ve) => t matches Type::Mapping(kt, vt) && resolves_to(
            decls,
            *ke,
            *kt,
        ) && resolves_to(decls, *ve, *vt),
    }
}

/// Whether a raw type expression resolves at all.
pub open spec fn resolvable(decls: Seq<Decl>, e: TypeExpr) -> bool
    decreases e,
{
    match e {
        TypeExpr::Named(n) => name_resolvable(decls, n@),
        TypeExpr::Optional(ie) => resolvable(decls, *ie),
        TypeExpr::Sequence(ie) => resolvable(decls, *ie),
        TypeExpr::Mapping(ke, ve) => resolvable(decls, *ke) && resolvable(decls, *ve),
    }
}

/// A raw type expression stands directly for an object: it is a bare
/// non-builtin name declared as an object. Only such expressions resolve
/// to an object type.
pub open spec fn expr_is_object(decls: Seq<Decl>, e: TypeExpr) -> bool {
    e matches TypeExpr::Named(n) && !is_builtin_name(n@) && find_decl(decls, n@) == Some(
        DeclKind::Object,
    )
}

/// A resolved type is an object exactly when its raw expression is a bare
/// name declared as an object.
pub proof fn lemma_resolved_object(decls: Seq<Decl>, e: TypeExpr, t: Type)
    requires
        resolves_to(decls, e, t),
    ensures
        (t is Object) <==> expr_is_object(decls, e),
{
}

/// The root registry: every definition of the interface, keyed by a unique
/// name in one flat namespace. Built in one two-pass sweep and immutable
/// afterwards; all further access is read-only traversal.
#[derive(Debug)]
pub struct ComponentInterface {
    pub namespace: String,
    pub decls: Vec<Decl>,
    pub enums: Vec<Enum>,
    pub records: Vec<Record>,
    pub objects: Vec<Object>,
    pub errors: Vec<ErrorDef>,
    pub callback_interfaces: Vec<CallbackInterface>,
    pub functions: Vec<Function>,
}

/// How many named lookups a containment traversal may take before it
/// stops: one more than the number of named definitions that can be
/// entered. A chain of distinct named definitions is never longer, so on
/// models without reference cycles the bound is never the reason an
/// unsigned integer or an object goes unfound.
pub open spec fn contains_fuel(ci: ComponentInterface) -> nat {
    (ci.enums@.len() + ci.records@.len() + 1) as nat
}

/// Recursive containment: does `t`, or anything `t` transitively
/// references through structural types, enum variants and record fields,
/// contain an unsigned integer type (`objects == false`) or an object
/// reference (`objects == true`)?
pub open spec fn tc(ci: ComponentInterface, t: Type, fuel: nat, objects: bool) -> bool
    decreases fuel, t,
{
    match t {
        Type::UInt8 => !objects,
        Type::UInt16 => !objects,
        Type::UInt32 => !objects,
        Type::UInt64 => !objects,
        Type::Object(_) => objects,
        Type::Optional(i) => tc(ci, *i, fuel, objects),
        Type::Sequence(i) => tc(ci, *i, fuel, objects),
        Type::Mapping(k, v) => tc(ci, *k, fuel, objects) || tc(ci, *v, fuel, objects),
        Type::Enum(n) => fuel > 0 && match find_enum(ci.enums@, n@) {
            Some(e) => exists|vi: int, fi: int|
                0 <= vi < e.variants@.len() && 0 <= fi < e.variants@[vi].fields@.len() && tc(
                    ci,
                    (#[trigger] e.variants@[vi].fields@[fi]).type_,
                    (fuel - 1) as nat,
                    objects,
                ),
            None => false,
        },
        Type::Record(n) => fuel > 0 && match find_record(ci.records@, n@) {
            Some(rec) => exists|fi: int|
                0 <= fi < rec.fields@.len() && tc(
                    ci,
                    (#[trigger] rec.fields@[fi]).type_,
                    (fuel - 1) as nat,
                    objects,
                ),
            None => false,
        },
        _ => false,
    }
}

/// `t` transitively contains an unsigned integer type.
pub open spec fn spec_type_contains_unsigned(ci: ComponentInterface, t: Type) -> bool {
    tc(ci, t, contains_fuel(ci), false)
}

/// `t` transitively contains an object reference.
pub open spec fn spec_type_contains_objects(ci: ComponentInterface, t: Type) -> bool {
    tc(ci, t, contains_fuel(ci), true)
}

impl ComponentInterface {
    /// The structural invariants of a finished registry: declared names
    /// are unique, every enum's `flat` flag is derived from its variants,
    /// every function carries the boundary descriptor the policy derives,
    /// and no enum variant field is an object or carries a default or a
    /// required mark.
    pub open spec fn wf(&self) -> bool {
        &&& names_unique(self.decls@)
        &&& forall|i: int| 0 <= i < self.enums@.len() ==> (#[trigger] self.enums@[i]).wf()
        &&& forall|i: int|
            0 <= i < self.functions@.len() ==> ffi_derived(#[trigger] self.functions@[i])
        &&& forall|i: int| 0 <= i < self.enums@.len() ==> enum_fields_ok(#[trigger] self.enums@[i])
    }

    pub fn namespace(&self) -> (r: &str)
        ensures
            r@ == self.namespace@,
    {
        self.namespace.as_str()
    }

    /// The kind under which the given name was declared, if any.
    pub fn decl_kind_of(&self, name: &str) -> (r: Option<DeclKind>)
        ensures
            r == find_decl(self.decls@, name@),
    {
        proof {
            assert(self.decls@.skip(0) =~= self.decls@);
        }
        let mut i: usize = 0;
        while i < self.decls.len()
            invariant
                i <= self.decls@.len(),
                find_decl(self.decls@, name@) == find_decl(
                    self.decls@.skip(i as int),
                    name@,
                ),
            decreases self.decls@.len() - i,
        {
            proof {
                assert(self.decls@.skip(i as int)[0] == self.decls@[i as int]);
            }
            if str_eq(self.decls[i].name.as_str(), name) {
                return Some(self.decls[i].kind);
            }
            proof {
                assert(self.decls@.skip(i as int).drop_first() =~= self.decls@.skip(i as int + 1));
            }
            i += 1;
        }
        None
    }

    /// Looks an enum definition up by name.
    pub fn get_enum_definition(&self, name: &str) -> (r: Option<&Enum>)
        ensures
            match r {
                Some(e) => find_enum(self.enums@, name@) == Some(*e) && exists|i: int|
                    0 <= i < self.enums@.len() && self.enums@[i] == *e,
                None => find_enum(self.enums@, name@) is None,
            },
    {
        proof {
            assert(self.enums@.skip(0) =~= self.enums@);
        }
        let mut i: usize = 0;
        while i < self.enums.len()
            invariant
                i <= self.enums@.len(),
                find_enum(self.enums@, name@) == find_enum(self.enums@.skip(i as int), name@),
            decreases self.enums@.len() - i,
        {
            proof {
                assert(self.enums@.skip(i as int)[0] == self.enums@[i as int]);
            }
            if str_eq(self.enums[i].name.as_str(), name) {
                return Some(&self.enums[i]);
            }
            proof {
                assert(self.enums@.skip(i as int).drop_first() =~= self.enums@.skip(i as int + 1));
            }
            i += 1;
        }
        None
    }

    /// Looks a record definition up by name.
    pub fn get_record_definition(&self, name: &str) -> (r: Option<&Record>)
        ensures
            match r {
                Some(rec) => find_record(self.records@, name@) == Some(*rec) && exists|i: int|
                    0 <= i < self.records@.len() && self.records@[i] == *rec,
                None => find_record(self.records@, name@) is None,
            },
    {
        proof {
            assert(self.records@.skip(0) =~= self.records@);
        }
        let mut i: usize = 0;
        while i < self.records.len()
            invariant
                i <= self.records@.len(),
                find_record(self.records@, name@) == find_record(
                    self.records@.skip(i as int),
                    name@,
                ),
            decreases self.records@.len() - i,
        {
            proof {
                assert(self.records@.skip(i as int)[0] == self.records@[i as int]);
            }
            if str_eq(self.records[i].name.as_str(), name) {
                return Some(&self.records[i]);
            }
            proof {
                assert(self.records@.skip(i as int).drop_first() =~= self.records@.skip(
                    i as int + 1,
                ));
            }
            i += 1;
        }
        None
    }

    /// Looks an object definition up by name.
    pub fn get_object_definition(&self, name: &str) -> (r: Option<&Object>)
        ensures
            r matches Some(o) ==> exists|i: int|
                0 <= i < self.objects@.len() && self.objects@[i] == *o && self.objects@[i].name@
                    == name@,
            r is Some <==> exists|i: int|
                0 <= i < self.objects@.len() && (#[trigger] self.objects@[i]).name@ == name@,
    {
        let mut i: usize = 0;
        while i < self.objects.len()
            invariant
                i <= self.objects@.len(),
                forall|j: int| 0 <= j < i ==> (#[trigger] self.objects@[j]).name@ != name@,
            decreases self.objects@.len() - i,
        {
            if str_eq(self.objects[i].name.as_str(), name) {
                return Some(&self.objects[i]);
            }
            i += 1;
        }
        None
    }

    /// Looks an error definition up by name.
    pub fn get_error_definition(&self, name: &str) -> (r: Option<&ErrorDef>)
        ensures
            r matches Some(e) ==> exists|i: int|
                0 <= i < self.errors@.len() && self.errors@[i] == *e && self.errors@[i].name@
                    == name@,
            r is Some <==> exists|i: int|
                0 <= i < self.errors@.len() && (#[trigger] self.errors@[i]).name@ == name@,
    {
        let mut i: usize = 0;
        while i < self.errors.len()
            invariant
                i <= self.errors@.len(),
                forall|j: int| 0 <= j < i ==> (#[trigger] self.errors@[j]).name@ != name@,
            decreases self.errors@.len() - i,
        {
            if str_eq(self.errors[i].name.as_str(), name) {
                return Some(&self.errors[i]);
            }
            i += 1;
        }
        None
    }

    /// Looks a callback interface definition up by name.
    pub fn get_callback_interface_definition(&self, name: &str) -> (r: Option<&CallbackInterface>)
        ensures
            r matches Some(c) ==> exists|i: int|
                0 <= i < self.callback_interfaces@.len() && self.callback_interfaces@[i] == *c
                    && self.callback_interfaces@[i].name@ == name@,
            r is Some <==> exists|i: int|
                0 <= i < self.callback_interfaces@.len() && (#[trigger] self.callback_interfaces@[
                    i
                ]).name@ == name@,
    {
        let mut i: usize = 0;
        while i < self.callback_interfaces.len()
            invariant
                i <= self.callback_interfaces@.len(),
                forall|j: int|
                    0 <= j < i ==> (#[trigger] self.callback_interfaces@[j]).name@ != name@,
            decreases self.callback_interfaces@.len() - i,
        {
            if str_eq(self.callback_interfaces[i].name.as_str(), name) {
                return Some(&self.callback_interfaces[i]);
            }
            i += 1;
        }
        None
    }

    /// Looks a function definition up by name.
    pub fn get_function_definition(&self, name: &str) -> (r: Option<&Function>)
        ensures
            r matches Some(f) ==> exists|i: int|
                0 <= i < self.functions@.len() && self.functions@[i] == *f && self.functions@[
                    i
                ].name@ == name@,
            r is Some <==> exists|i: int|
                0 <= i < self.functions@.len() && (#[trigger] self.functions@[i]).name@ == name@,
    {
        let mut i: usize = 0;
        while i < self.functions.len()
            invariant
                i <= self.functions@.len(),
                forall|j: int| 0 <= j < i ==> (#[trigger] self.functions@[j]).name@ != name@,
            decreases self.functions@.len() - i,
        {
            if str_eq(self.functions[i].name.as_str(), name) {
                return Some(&self.functions[i]);
            }
            i += 1;
        }
        None
    }

    /// All enum definitions, in declaration order.
    pub fn iter_enum_definitions(&self) -> (r: Vec<&Enum>)
        ensures
            r@.len() == self.enums@.len(),
            forall|i: int| 0 <= i < self.enums@.len() ==> r@[i] == self.enums@[i],
    {
        ref_vec(&self.enums)
    }

    /// All record definitions, in declaration order.
    pub fn iter_record_definitions(&self) -> (r: Vec<&Record>)
        ensures
            r@.len() == self.records@.len(),
            forall|i: int| 0 <= i < self.records@.len() ==> r@[i] == self.records@[i],
    {
        ref_vec(&self.records)
    }

    /// All object definitions, in declaration order.
    pub fn iter_object_definitions(&self) -> (r: Vec<&Object>)
        ensures
            r@.len() == self.objects@.len(),
            forall|i: int| 0 <= i < self.objects@.len() ==> r@[i] == self.objects@[i],
    {
        ref_vec(&self.objects)
    }

    /// All error definitions, in declaration order.
    pub fn iter_error_definitions(&self) -> (r: Vec<&ErrorDef>)
        ensures
            r@.len() == self.errors@.len(),
            forall|i: int| 0 <= i < self.errors@.len() ==> r@[i] == self.errors@[i],
    {
        ref_vec(&self.errors)
    }

    /// All callback interface definitions, in declaration order.
    pub fn iter_callback_interface_definitions(&self) -> (r: Vec<&CallbackInterface>)
        ensures
            r@.len() == self.callback_interfaces@.len(),
            forall|i: int|
                0 <= i < self.callback_interfaces@.len() ==> r@[i] == self.callback_interfaces@[i],
    {
        ref_vec(&self.callback_interfaces)
    }

    /// All function definitions, in declaration order.
    pub fn iter_function_definitions(&self) -> (r: Vec<&Function>)
        ensures
            r@.len() == self.functions@.len(),
            forall|i: int| 0 <= i < self.functions@.len() ==> r@[i] == self.functions@[i],
    {
        ref_vec(&self.functions)
    }

    /// Resolves a bare name written as a type: built-in primitive names
    /// first, then user declarations by name. Fails with a resolution
    /// error exactly when the name names no type.
    pub fn resolve_name(&self, name: &str) -> (r: Result<Type, BuildError>)
        ensures
            r matches Ok(t) ==> name_resolves_to(self.decls@, name@, t),
            r is Ok <==> name_resolvable(self.decls@, name@),
            r matches Err(err) ==> err is Resolution,
    {
        if str_eq(name, "boolean") {
            Ok(Type::Boolean)
        } else if str_eq(name, "u8") {
            Ok(Type::UInt8)
        } else if str_eq(name, "i8") {
            Ok(Type::Int8)
        } else if str_eq(name, "u16") {
            Ok(Type::UInt16)
        } else if str_eq(name, "i16") {
            Ok(Type::Int16)
        } else if str_eq(name, "u32") {
            Ok(Type::UInt32)
        } else if str_eq(name, "i32") {
            Ok(Type::Int32)
        } else if str_eq(name, "u64") {
            Ok(Type::UInt64)
        } else if str_eq(name, "i64") {
            Ok(Type::Int64)
        } else if str_eq(name, "f32") {
            Ok(Type::Float32)
        } else if str_eq(name, "f64") {
            Ok(Type::Float64)
        } else if str_eq(name, "string") {
            Ok(Type::String)
        } else if str_eq(name, "bytes") {
            Ok(Type::Bytes)
        } else if str_eq(name, "timestamp") {
            Ok(Type::Timestamp)
        } else if str_eq(name, "duration") {
            Ok(Type::Duration)
        } else {
            match self.decl_kind_of(name) {
                Some(DeclKind::Enum) => Ok(Type::Enum(name.to_owned())),
                Some(DeclKind::Record) => Ok(Type::Record(name.to_owned())),
                Some(DeclKind::Object) => Ok(Type::Object(name.to_owned())),
                Some(DeclKind::Error) => Ok(Type::Error(name.to_owned())),
                Some(DeclKind::Callback) => Ok(
                    Type::CallbackInterface(name.to_owned()),
                ),
                Some(DeclKind::Function) => Err(BuildError::Resolution(name.to_owned())),
                None => Err(BuildError::Resolution(name.to_owned())),
            }
        }
    }

    /// Resolves a raw type expression to a concrete type. Fails with a
    /// resolution error exactly when some name in it names no type.
    pub fn resolve_type_expression(&self, e: &TypeExpr) -> (r: Result<Type, BuildError>)
        ensures
            r matches Ok(t) ==> resolves_to(self.decls@, *e, t),
            r is Ok <==> resolvable(self.decls@, *e),
            r matches Err(err) ==> err is Resolution,
        decreases *e,
    {
        match e {
            TypeExpr::Named(n) => self.resolve_name(n.as_str()),
            TypeExpr::Optional(ie) => match self.resolve_type_expression(&**ie) {
                Ok(t) => Ok(Type::Optional(Box::new(t))),
                Err(err) => Err(err),
            },
            TypeExpr::Sequence(ie) => match self.resolve_type_expression(&**ie) {
                Ok(t) => Ok(Type::Sequence(Box::new(t))),
                Err(err) => Err(err),
            },
            TypeExpr::Mapping(ke, ve) => match self.resolve_type_expression(&**ke) {
                Ok(kt) => match self.resolve_type_expression(&**ve) {
                    Ok(vt) => Ok(Type::Mapping(Box::new(kt), Box::new(vt))),
                    Err(err) => Err(err),
                },
                Err(err) => Err(err),
            },
        }
    }

    /// One step of the containment traversal, bounded by `fuel` named
    /// lookups.
    fn tc_exec(&self, t: &Type, fuel: usize, objects: bool) -> (r: bool)
        ensures
            r == tc(*self, *t, fuel as nat, objects),
        decreases fuel, *t,
    {
        match t {
            Type::UInt8 => !objects,
            Type::UInt16 => !objects,
            Type::UInt32 => !objects,
            Type::UInt64 => !objects,
            Type::Object(_) => objects,
            Type::Optional(i) => self.tc_exec(&**i, fuel, objects),
            Type::Sequence(i) => self.tc_exec(&**i, fuel, objects),
            Type::Mapping(k, v) => self.tc_exec(&**k, fuel, objects) || self.tc_exec(
                &**v,
                fuel,
                objects,
            ),
            Type::Enum(n) => {
                if fuel == 0 {
                    return false;
                }
                match self.get_enum_definition(n.as_str()) {
                    None => false,
                    Some(e) => {
                        let mut vi: usize = 0;
                        while vi < e.variants.len()
                            invariant
                                fuel >= 1,
                                *t == Type::Enum(*n),
                                vi <= e.variants@.len(),
                                find_enum(self.enums@, n@) == Some(*e),
                                forall|a: int, b: int|
                                    0 <= a < vi && 0 <= b < e.variants@[a].fields@.len() ==> !tc(
                                        *self,
                                        (#[trigger] e.variants@[a].fields@[b]).type_,
                                        (fuel - 1) as nat,
                                        objects,
                                    ),
                            decreases e.variants@.len() - vi,
                        {
                            let v = &e.variants[vi];
                            let mut fi: usize = 0;
                            while fi < v.fields.len()
                                invariant
                                    fuel >= 1,
                                    *t == Type::Enum(*n),
                                    vi < e.variants@.len(),
                                    fi <= v.fields@.len(),
                                    find_enum(self.enums@, n@) == Some(*e),
                                    *v == e.variants@[vi as int],
                                    forall|b: int|
                                        0 <= b < fi ==> !tc(
                                            *self,
                                            (#[trigger] v.fields@[b]).type_,
                                            (fuel - 1) as nat,
                                            objects,
                                        ),
                                decreases v.fields@.len() - fi,
                            {
                                if self.tc_exec(&v.fields[fi].type_, fuel - 1, objects) {
                                    proof {
                                        assert(find_enum(self.enums@, n@) matches Some(fe) && tc(
                                            *self,
                                            fe.variants@[vi as int].fields@[fi as int].type_,
                                            (fuel - 1) as nat,
                                            objects,
                                        ));
                                        assert(tc(*self, *t, fuel as nat, objects));
                                    }
                                    return true;
                                }
                                fi += 1;
                            }
                            vi += 1;
                        }
                        false
                    },
                }
            },
            Type::Record(n) => {
                if fuel == 0 {
                    return false;
                }
                match self.get_record_definition(n.as_str()) {
                    None => false,
                    Some(rec) => {
                        let mut fi: usize = 0;
                        while fi < rec.fields.len()
                            invariant
                                fuel >= 1,
                                *t == Type::Record(*n),
                                fi <= rec.fields@.len(),
                                find_record(self.records@, n@) == Some(*rec),
                                forall|b: int|
                                    0 <= b < fi ==> !tc(
                                        *self,
                                        (#[trigger] rec.fields@[b]).type_,
                                        (fuel - 1) as nat,
                                        objects,
                                    ),
                            decreases rec.fields@.len() - fi,
                        {
                            if self.tc_exec(&rec.fields[fi].type_, fuel - 1, objects) {
                                proof {
                                    assert(find_record(self.records@, n@) matches Some(fr) && tc(
                                        *self,
                                        fr.fields@[fi as int].type_,
                                        (fuel - 1) as nat,
                                        objects,
                                    ));
                                    assert(tc(*self, *t, fuel as nat, objects));
                                }
                                return true;
                            }
                            fi += 1;
                        }
                        false
                    },
                }
            },
            _ => false,
        }
    }

    /// Does `type_`, or anything it transitively references, contain an
    /// unsigned integer type? Re-traverses the model on every call.
    pub fn type_contains_unsigned_types(&self, type_: &Type) -> (r: bool)
        requires
            self.enums@.len() + self.records@.len() + 1 <= usize::MAX,
        ensures
            r == spec_type_contains_unsigned(*self, *type_),
    {
        let fuel = self.enums.len() + self.records.len() + 1;
        self.tc_exec(type_, fuel, false)
    }

    /// Does `type_`, or anything it transitively references, contain an
    /// object reference? Re-traverses the model on every call.
    pub fn type_contains_object_references(&self, type_: &Type) -> (r: bool)
        requires
            self.enums@.len() + self.records@.len() + 1 <= usize::MAX,
        ensures
            r == spec_type_contains_objects(*self, *type_),
    {
        let fuel = self.enums.len() + self.records.len() + 1;
        self.tc_exec(type_, fuel, true)
    }
}

impl Enum {
    /// Whether this enum, looked up by its own name in the registry,
    /// transitively references an object.
    pub fn contains_object_references(&self, ci: &ComponentInterface) -> (r: bool)
        requires
            ci.enums@.len() + ci.records@.len() + 1 <= usize::MAX,
        ensures
            r == spec_type_contains_objects(*ci, Type::Enum(self.name)),
    {
        ci.type_contains_object_references(&Type::Enum(self.name.clone()))
    }

    /// True exactly when at least one field, in at least one variant,
    /// resolves directly or through nested structural types to an
    /// unsigned integer type.
    pub fn contains_unsigned_types(&self, ci: &ComponentInterface) -> (r: bool)
        requires
            ci.enums@.len() + ci.records@.len() + 1 <= usize::MAX,
        ensures
            r == exists|vi: int, fi: int|
                0 <= vi < self.variants@.len() && 0 <= fi < self.variants@[vi].fields@.len()
                    && spec_type_contains_unsigned(
                    *ci,
                    (#[trigger] self.variants@[vi].fields@[fi]).type_,
                ),
    {
        let mut vi: usize = 0;
        while vi < self.variants.len()
            invariant
                vi <= self.variants@.len(),
                ci.enums@.len() + ci.records@.len() + 1 <= usize::MAX,
                forall|a: int, b: int|
                    0 <= a < vi && 0 <= b < self.variants@[a].fields@.len()
                        ==> !spec_type_contains_unsigned(
                        *ci,
                        (#[trigger] self.variants@[a].fields@[b]).type_,
                    ),
            decreases self.variants@.len() - vi,
        {
            let v = &self.variants[vi];
            let mut fi: usize = 0;
            while fi < v.fields.len()
                invariant
                    vi < self.variants@.len(),
                    fi <= v.fields@.len(),
                    ci.enums@.len() + ci.records@.len() + 1 <= usize::MAX,
                    *v == self.variants@[vi as int],
                    forall|b: int|
                        0 <= b < fi ==> !spec_type_contains_unsigned(
                            *ci,
                            (#[trigger] v.fields@[b]).type_,
                        ),
                decreases v.fields@.len() - fi,
            {
                if ci.type_contains_unsigned_types(&v.fields[fi].type_) {
                    proof {
                        assert(spec_type_contains_unsigned(
                            *ci,
                            self.variants@[vi as int].fields@[fi as int].type_,
                        ));
                    }
                    return true;
                }
                fi += 1;
            }
            vi += 1;
        }
        false
    }
}

} // verus!
