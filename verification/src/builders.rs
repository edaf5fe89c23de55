//! The definition builders for the interface-definition front end, and the
//! two-pass assembly of a complete component interface: pass one collects
//! every declared name so forward references resolve, pass two converts
//! and validates every definition against the complete name set. The first
//! error aborts the whole build; no partial registry is ever returned.

use vstd::prelude::*;
use crate::text::clone_strings;
use crate::types::{Type, TypeExpr, Literal, BuildError, literal_clone};
use crate::model::{Field, Variant, Enum, Record, Object, ErrorDef, CallbackInterface, Argument,
    Function, ffi_derived, enum_fields_ok, all_fieldless, lemma_all_fieldless_push,
    derive_ffi_func};
use crate::ci::{ComponentInterface, Decl, DeclKind, find_decl, names_unique, lemma_find_decl_some,
    resolves_to, resolvable, expr_is_object, lemma_resolved_object};
use crate::udl::{UdlDefinition, UdlOperation, UdlArgument, UdlDictField, UdlReturnType};
use crate::source::{SourceEnum, convert_source_enum, source_enum_ok, source_enum_matches};

verus! {

/// An argument of a tagged-operations enum member is acceptable as a
/// variant field: single (not variadic), without default value or
/// attributes, with a resolvable type that is no object.
pub open spec fn enum_arg_ok(decls: Seq<Decl>, a: UdlArgument) -> bool {
    &&& !a.variadic
    &&& a.default is None
    &&& !a.has_attributes
    &&& resolvable(decls, a.type_)
    &&& !expr_is_object(decls, a.type_)
}

/// The produced field carries the argument's name and resolved type and
/// nothing else: no object type, no required mark, no default, no
/// documentation.
pub open spec fn enum_field_matches(decls: Seq<Decl>, a: UdlArgument, f: Field) -> bool {
    &&& f.name@ == a.name@
    &&& resolves_to(decls, a.type_, f.type_)
    &&& !(f.type_ is Object)
    &&& f.required == false
    &&& f.default is None
    &&& f.docs@.len() == 0
}

/// An operation member of a tagged-operations enum is acceptable as a
/// variant: no special operation, no stringifier, no method name, a bare
/// identifier as return type (re-purposed as the variant's name), and
/// every argument acceptable as a field.
pub open spec fn enum_op_ok(decls: Seq<Decl>, op: UdlOperation) -> bool {
    &&& op.special is None
    &&& !op.stringifier
    &&& op.name is None
    &&& op.return_type matches UdlReturnType::Expr(TypeExpr::Named(_))
    &&& forall|i: int| 0 <= i < op.args@.len() ==> enum_arg_ok(decls, #[trigger] op.args@[i])
}

/// The produced variant is named after the operation's return-type
/// identifier and carries one converted field per argument, in order.
pub open spec fn enum_variant_matches(decls: Seq<Decl>, op: UdlOperation, v: Variant) -> bool {
    &&& op.return_type matches UdlReturnType::Expr(TypeExpr::Named(n)) && v.name@ == n@
    &&& v.fields@.len() == op.args@.len()
    &&& forall|i: int|
        0 <= i < op.args@.len() ==> enum_field_matches(decls, op.args@[i], #[trigger] v.fields@[i])
    &&& v.docs@.len() == 0
}

/// The class of the error a rejected argument raises, in the order the
/// checks run: variadic first, then an unresolvable type, then an object
/// type, then a default value, then attributes.
pub open spec fn arg_error_is(decls: Seq<Decl>, a: UdlArgument, e: BuildError) -> bool {
    if a.variadic {
        e is UnsupportedConstruct
    } else if !resolvable(decls, a.type_) {
        e is Resolution
    } else if expr_is_object(decls, a.type_) {
        e is StructuralConstraint
    } else if a.default is Some {
        e is UnsupportedConstruct
    } else if a.has_attributes {
        e is UnsupportedConstruct
    } else {
        false
    }
}

/// Converts one argument of a tagged-operations enum member into a variant
/// field. Variadic arguments, default values and attributes are
/// unsupported constructs; an unknown type name is a resolution error; an
/// object type is a structural-constraint error. The type is resolved
/// before defaults and attributes are judged, so an object type outranks
/// them.
pub fn convert_enum_variant_field(ci: &ComponentInterface, a: &UdlArgument) -> (r: Result<
    Field,
    BuildError,
>)
    ensures
        r is Ok <==> enum_arg_ok(ci.decls@, *a),
        r matches Ok(f) ==> enum_field_matches(ci.decls@, *a, f),
        r matches Err(e) ==> arg_error_is(ci.decls@, *a, e),
{
    if a.variadic {
        return Err(BuildError::UnsupportedConstruct("variadic arguments not supported".to_owned()));
    }
    let type_ = match ci.resolve_type_expression(&a.type_) {
        Ok(t) => t,
        Err(e) => {
            return Err(e);
        },
    };
    proof {
        lemma_resolved_object(ci.decls@, a.type_, type_);
    }
    if matches!(&type_, Type::Object(_)) {
        return Err(
            BuildError::StructuralConstraint(
                "objects cannot currently be used in enum variant data".to_owned(),
            ),
        );
    }
    if matches!(&a.default, Some(_)) {
        return Err(
            BuildError::UnsupportedConstruct(
                "enum interface variant fields must not have default values".to_owned(),
            ),
        );
    }
    if a.has_attributes {
        return Err(
            BuildError::UnsupportedConstruct(
                "enum interface variant fields must not have attributes".to_owned(),
            ),
        );
    }
    Ok(Field { name: a.name.clone(), type_, required: false, default: None, docs: Vec::new() })
}

/// The class of the error a rejected operation member raises, in the order
/// the checks run; a bad argument list raises the error of its first
/// unacceptable argument.
pub open spec fn op_error_is(decls: Seq<Decl>, op: UdlOperation, e: BuildError) -> bool {
    if op.special is Some {
        e is UnsupportedConstruct
    } else if op.stringifier {
        e is UnsupportedConstruct
    } else if op.name is Some {
        e is UnsupportedConstruct
    } else if !(op.return_type matches UdlReturnType::Expr(TypeExpr::Named(_))) {
        e is UnsupportedConstruct
    } else {
        exists|k: int|
            0 <= k < op.args@.len() && !enum_arg_ok(decls, #[trigger] op.args@[k]) && (forall|
                j: int,
            | 0 <= j < k ==> enum_arg_ok(decls, op.args@[j])) && arg_error_is(decls, op.args@[k], e)
    }
}

/// Converts one operation member of a tagged-operations enum into a
/// variant. Special operations, stringifiers and method names are
/// unsupported constructs, as is a return type that is no bare identifier;
/// a failing argument list raises the error of its first bad argument.
pub fn convert_enum_variant(ci: &ComponentInterface, op: &UdlOperation) -> (r: Result<
    Variant,
    BuildError,
>)
    ensures
        r is Ok <==> enum_op_ok(ci.decls@, *op),
        r matches Ok(v) ==> enum_variant_matches(ci.decls@, *op, v),
        r matches Err(e) ==> op_error_is(ci.decls@, *op, e),
{
    if matches!(&op.special, Some(_)) {
        return Err(BuildError::UnsupportedConstruct("special operations not supported".to_owned()));
    }
    if op.stringifier {
        return Err(BuildError::UnsupportedConstruct("stringifiers are not supported".to_owned()));
    }
    if matches!(&op.name, Some(_)) {
        return Err(
            BuildError::UnsupportedConstruct(
                "enum interface members must not have a method name".to_owned(),
            ),
        );
    }
    // The member's declared return type doubles as the variant's name.
    let name: String = match &op.return_type {
        UdlReturnType::Expr(TypeExpr::Named(n)) => n.clone(),
        _ => {
            return Err(
                BuildError::UnsupportedConstruct(
                    "enum interface members must have plain identifiers as names".to_owned(),
                ),
            );
        },
    };
    let mut fields: Vec<Field> = Vec::new();
    let mut i: usize = 0;
    while i < op.args.len()
        invariant
            i <= op.args@.len(),
            fields@.len() == i,
            op.special is None,
            !op.stringifier,
            op.name is None,
            op.return_type matches UdlReturnType::Expr(TypeExpr::Named(n2)) && name@ == n2@,
            forall|j: int| 0 <= j < i ==> enum_arg_ok(ci.decls@, #[trigger] op.args@[j]),
            forall|j: int|
                0 <= j < i ==> enum_field_matches(ci.decls@, op.args@[j], #[trigger] fields@[j]),
        decreases op.args@.len() - i,
    {
        let f = convert_enum_variant_field(ci, &op.args[i])?;
        fields.push(f);
        i += 1;
    }
    Ok(Variant { name, fields, docs: Vec::new() })
}

/// The produced enum carries one zero-field variant per listed value, in
/// order, and is flat.
pub open spec fn plain_enum_matches(name: Seq<char>, values: Seq<String>, e: Enum) -> bool {
    &&& e.name@ == name
    &&& e.variants@.len() == values.len()
    &&& forall|i: int|
        0 <= i < values.len() ==> (#[trigger] e.variants@[i]).name@ == values[i]@
            && e.variants@[i].fields@.len() == 0 && e.variants@[i].docs@.len() == 0
    &&& e.flat == true
    &&& e.docs@.len() == 0
}

/// Converts a plain enumeration declaration: each listed value becomes a
/// zero-field variant, duplicates preserved positionally, and the enum is
/// flat.
pub fn convert_plain_enum(name: &String, values: &Vec<String>) -> (r: Enum)
    ensures
        plain_enum_matches(name@, values@, r),
        r.wf(),
        enum_fields_ok(r),
{
    let mut variants: Vec<Variant> = Vec::new();
    let mut i: usize = 0;
    while i < values.len()
        invariant
            i <= values@.len(),
            variants@.len() == i,
            forall|j: int|
                0 <= j < i ==> (#[trigger] variants@[j]).name@ == values@[j]@ && variants@[
                    j
                ].fields@.len() == 0 && variants@[j].docs@.len() == 0,
        decreases values@.len() - i,
    {
        variants.push(Variant { name: values[i].clone(), fields: Vec::new(), docs: Vec::new() });
        i += 1;
    }
    Enum { name: name.clone(), variants, flat: true, docs: Vec::new() }
}

/// A tagged-operations enum converts when it declares no inheritance and
/// every member converts to a variant.
pub open spec fn interface_enum_ok(
    decls: Seq<Decl>,
    inheritance: Option<String>,
    ops: Seq<UdlOperation>,
) -> bool {
    &&& inheritance is None
    &&& forall|i: int| 0 <= i < ops.len() ==> enum_op_ok(decls, #[trigger] ops[i])
}

/// The produced enum carries one converted variant per member, in order,
/// with the `flat` flag derived from the variants.
pub open spec fn interface_enum_matches(
    decls: Seq<Decl>,
    name: Seq<char>,
    ops: Seq<UdlOperation>,
    e: Enum,
) -> bool {
    &&& e.name@ == name
    &&& e.variants@.len() == ops.len()
    &&& forall|i: int|
        0 <= i < ops.len() ==> enum_variant_matches(decls, ops[i], #[trigger] e.variants@[i])
    &&& e.docs@.len() == 0
}

/// The class of the error a rejected tagged-operations enum raises:
/// inheritance first, then the error of the first member that does not
/// convert.
pub open spec fn interface_enum_error_is(
    decls: Seq<Decl>,
    inheritance: Option<String>,
    ops: Seq<UdlOperation>,
    e: BuildError,
) -> bool {
    if inheritance is Some {
        e is StructuralConstraint
    } else {
        exists|k: int|
            0 <= k < ops.len() && !enum_op_ok(decls, #[trigger] ops[k]) && (forall|j: int|
                0 <= j < k ==> enum_op_ok(decls, ops[j])) && op_error_is(decls, ops[k], e)
    }
}

/// Converts an enum expressed as an interface with tagged operations.
/// Inheritance is a structural-constraint error; otherwise the first
/// member that does not convert decides the error.
pub fn convert_interface_enum(
    ci: &ComponentInterface,
    name: &String,
    inheritance: &Option<String>,
    ops: &Vec<UdlOperation>,
) -> (r: Result<Enum, BuildError>)
    ensures
        r is Ok <==> interface_enum_ok(ci.decls@, *inheritance, ops@),
        r matches Ok(e) ==> interface_enum_matches(ci.decls@, name@, ops@, e) && e.wf()
            && enum_fields_ok(e),
        r matches Err(e) ==> interface_enum_error_is(ci.decls@, *inheritance, ops@, e),
{
    if matches!(inheritance, Some(_)) {
        return Err(
            BuildError::StructuralConstraint(
                "interface inheritance is not supported for enum interfaces".to_owned(),
            ),
        );
    }
    let mut variants: Vec<Variant> = Vec::new();
    let mut flat = true;
    let mut i: usize = 0;
    while i < ops.len()
        invariant
            i <= ops@.len(),
            variants@.len() == i,
            inheritance is None,
            forall|j: int| 0 <= j < i ==> enum_op_ok(ci.decls@, #[trigger] ops@[j]),
            forall|j: int|
                0 <= j < i ==> enum_variant_matches(ci.decls@, ops@[j], #[trigger] variants@[j]),
            flat <==> all_fieldless(variants@),
        decreases ops@.len() - i,
    {
        let v = convert_enum_variant(ci, &ops[i])?;
        if v.fields.len() != 0 {
            flat = false;
        }
        proof {
            lemma_all_fieldless_push(variants@, v);
        }
        variants.push(v);
        i += 1;
    }
    let e = Enum { name: name.clone(), variants, flat, docs: Vec::new() };
    proof {
        assert forall|vi: int, fi: int|
            0 <= vi < e.variants@.len() && 0 <= fi < e.variants@[vi].fields@.len() implies {
            let f = #[trigger] e.variants@[vi].fields@[fi];
            &&& !(f.type_ is Object)
            &&& f.required == false
            &&& f.default is None
        } by {
            assert(enum_variant_matches(ci.decls@, ops@[vi], e.variants@[vi]));
            assert(enum_field_matches(ci.decls@, ops@[vi].args@[fi], e.variants@[vi].fields@[fi]));
        }
    }
    Ok(e)
}

/// The produced error definition carries the declared values, in order.
pub open spec fn error_def_matches(name: Seq<char>, values: Seq<String>, e: ErrorDef) -> bool {
    &&& e.name@ == name
    &&& e.values@ == values
    &&& e.docs@.len() == 0
}

/// Converts an error declaration: a named set of flat error values.
pub fn convert_error_def(name: &String, values: &Vec<String>) -> (r: ErrorDef)
    ensures
        error_def_matches(name@, values@, r),
{
    ErrorDef { name: name.clone(), values: clone_strings(values), docs: Vec::new() }
}

/// An argument of a function is acceptable: not variadic, with a
/// resolvable type. Defaults are kept; attributes are ignored.
pub open spec fn fn_arg_ok(decls: Seq<Decl>, a: UdlArgument) -> bool {
    &&& !a.variadic
    &&& resolvable(decls, a.type_)
}

/// The produced argument carries the declared name, resolved type and
/// default value.
pub open spec fn fn_arg_matches(decls: Seq<Decl>, a: UdlArgument, g: Argument) -> bool {
    &&& g.name@ == a.name@
    &&& resolves_to(decls, a.type_, g.type_)
    &&& g.default == a.default
}

/// A namespace operation converts to a function when it is an ordinary
/// named operation whose return and argument types all resolve.
pub open spec fn function_op_ok(decls: Seq<Decl>, op: UdlOperation) -> bool {
    &&& op.special is None
    &&& !op.stringifier
    &&& op.name is Some
    &&& match op.return_type {
        UdlReturnType::Void => true,
        UdlReturnType::Expr(e) => resolvable(decls, e),
    }
    &&& forall|i: int| 0 <= i < op.args@.len() ==> fn_arg_ok(decls, #[trigger] op.args@[i])
}

/// The produced function carries the operation's name, its converted
/// arguments in order, its resolved return slot, and the boundary
/// descriptor the fixed policy derives.
pub open spec fn function_matches(decls: Seq<Decl>, op: UdlOperation, f: Function) -> bool {
    &&& op.name matches Some(n) && f.name@ == n@
    &&& f.arguments@.len() == op.args@.len()
    &&& forall|i: int|
        0 <= i < op.args@.len() ==> fn_arg_matches(decls, op.args@[i], #[trigger] f.arguments@[i])
    &&& match op.return_type {
        UdlReturnType::Void => f.return_type is None,
        UdlReturnType::Expr(e) => f.return_type matches Some(t) && resolves_to(decls, e, t),
    }
    &&& ffi_derived(f)
    &&& f.docs@.len() == 0
}

/// Converts one namespace operation into a function and derives its
/// boundary descriptor. Special operations, stringifiers, anonymous
/// operations and variadic arguments are unsupported constructs.
pub fn convert_function(ci: &ComponentInterface, op: &UdlOperation) -> (r: Result<
    Function,
    BuildError,
>)
    ensures
        r is Ok <==> function_op_ok(ci.decls@, *op),
        r matches Ok(f) ==> function_matches(ci.decls@, *op, f),
        r matches Err(e) ==> (e is UnsupportedConstruct || e is Resolution),
        op.special is Some ==> (r matches Err(e) && e is UnsupportedConstruct),
        op.special is None && op.stringifier ==> (r matches Err(e) && e is UnsupportedConstruct),
        op.special is None && !op.stringifier && op.name is None ==> (r matches Err(e)
            && e is UnsupportedConstruct),
{
    if matches!(&op.special, Some(_)) {
        return Err(BuildError::UnsupportedConstruct("special operations not supported".to_owned()));
    }
    if op.stringifier {
        return Err(BuildError::UnsupportedConstruct("stringifiers are not supported".to_owned()));
    }
    let name: String = match &op.name {
        Some(n) => n.clone(),
        None => {
            return Err(
                BuildError::UnsupportedConstruct(
                    "namespace operations must have a name".to_owned(),
                ),
            );
        },
    };
    let return_type: Option<Type> = match &op.return_type {
        UdlReturnType::Void => None,
        UdlReturnType::Expr(e) => {
            match ci.resolve_type_expression(e) {
                Ok(t) => Some(t),
                Err(err) => {
                    return Err(err);
                },
            }
        },
    };
    let mut arguments: Vec<Argument> = Vec::new();
    let mut i: usize = 0;
    while i < op.args.len()
        invariant
            i <= op.args@.len(),
            arguments@.len() == i,
            op.special is None,
            !op.stringifier,
            op.name matches Some(n2) && name@ == n2@,
            match op.return_type {
                UdlReturnType::Void => return_type is None,
                UdlReturnType::Expr(e) => return_type matches Some(t) && resolves_to(
                    ci.decls@,
                    e,
                    t,
                ),
            },
            forall|j: int| 0 <= j < i ==> fn_arg_ok(ci.decls@, #[trigger] op.args@[j]),
            forall|j: int|
                0 <= j < i ==> fn_arg_matches(ci.decls@, op.args@[j], #[trigger] arguments@[j]),
        decreases op.args@.len() - i,
    {
        let a = &op.args[i];
        if a.variadic {
            return Err(
                BuildError::UnsupportedConstruct("variadic arguments not supported".to_owned()),
            );
        }
        let type_ = match ci.resolve_type_expression(&a.type_) {
            Ok(t) => t,
            Err(err) => {
                return Err(err);
            },
        };
        let default: Option<Literal> = match &a.default {
            Some(l) => Some(literal_clone(l)),
            None => None,
        };
        arguments.push(Argument { name: a.name.clone(), type_, default });
        i += 1;
    }
    let ffi_func = derive_ffi_func(&name, &arguments, &return_type);
    Ok(Function { name, arguments, return_type, ffi_func, docs: Vec::new() })
}

/// A dictionary field is acceptable when its type resolves.
pub open spec fn dict_field_ok(decls: Seq<Decl>, df: UdlDictField) -> bool {
    resolvable(decls, df.type_)
}

/// The produced record field carries the declared name, resolved type,
/// required mark and default value.
pub open spec fn dict_field_matches(decls: Seq<Decl>, df: UdlDictField, f: Field) -> bool {
    &&& f.name@ == df.name@
    &&& resolves_to(decls, df.type_, f.type_)
    &&& f.required == df.required
    &&& f.default == df.default
    &&& f.docs@.len() == 0
}

/// The produced record carries one converted field per declared field, in
/// order.
pub open spec fn record_matches(
    decls: Seq<Decl>,
    name: Seq<char>,
    dfs: Seq<UdlDictField>,
    r: Record,
) -> bool {
    &&& r.name@ == name
    &&& r.fields@.len() == dfs.len()
    &&& forall|i: int|
        0 <= i < dfs.len() ==> dict_field_matches(decls, dfs[i], #[trigger] r.fields@[i])
    &&& r.docs@.len() == 0
}

/// Converts a dictionary declaration into a record definition.
pub fn convert_dictionary(
    ci: &ComponentInterface,
    name: &String,
    dfs: &Vec<UdlDictField>,
) -> (r: Result<Record, BuildError>)
    ensures
        r is Ok <==> (forall|i: int| 0 <= i < dfs@.len() ==> dict_field_ok(
            ci.decls@,
            #[trigger] dfs@[i],
        )),
        r matches Ok(rec) ==> record_matches(ci.decls@, name@, dfs@, rec),
        r matches Err(e) ==> e is Resolution,
{
    let mut fields: Vec<Field> = Vec::new();
    let mut i: usize = 0;
    while i < dfs.len()
        invariant
            i <= dfs@.len(),
            fields@.len() == i,
            forall|j: int| 0 <= j < i ==> dict_field_ok(ci.decls@, #[trigger] dfs@[j]),
            forall|j: int|
                0 <= j < i ==> dict_field_matches(ci.decls@, dfs@[j], #[trigger] fields@[j]),
        decreases dfs@.len() - i,
    {
        let df = &dfs[i];
        let type_ = match ci.resolve_type_expression(&df.type_) {
            Ok(t) => t,
            Err(err) => {
                return Err(err);
            },
        };
        let default: Option<Literal> = match &df.default {
            Some(l) => Some(literal_clone(l)),
            None => None,
        };
        fields.push(
            Field { name: df.name.clone(), type_, required: df.required, default, docs: Vec::new() },
        );
        i += 1;
    }
    Ok(Record { name: name.clone(), fields, docs: Vec::new() })
}

/// Declares one name in the flat namespace. A second declaration of the
/// same name is a structural-constraint error and leaves the table
/// unchanged.
fn add_decl(decls: &mut Vec<Decl>, name: &String, kind: DeclKind) -> (r: Result<(), BuildError>)
    requires
        names_unique(old(decls)@),
    ensures
        names_unique(final(decls)@),
        r is Ok ==> final(decls)@ == old(decls)@.push(Decl { name: *name, kind }),
        r matches Err(e) ==> final(decls)@ == old(decls)@ && e is StructuralConstraint,
        r is Ok <==> find_decl(old(decls)@, name@) is None,
{
    let ghost pre = decls@;
    proof {
        assert(decls@.skip(0) =~= decls@);
    }
    let mut i: usize = 0;
    while i < decls.len()
        invariant
            i <= decls@.len(),
            decls@ == pre,
            pre == old(decls)@,
            names_unique(decls@),
            find_decl(decls@, name@) == find_decl(decls@.skip(i as int), name@),
        decreases decls@.len() - i,
    {
        proof {
            assert(decls@.skip(i as int)[0] == decls@[i as int]);
        }
        if crate::text::str_eq(decls[i].name.as_str(), name.as_str()) {
            return Err(BuildError::StructuralConstraint(name.clone()));
        }
        proof {
            assert(decls@.skip(i as int).drop_first() =~= decls@.skip(i as int + 1));
        }
        i += 1;
    }
    proof {
        lemma_find_decl_some(pre, name@);
    }
    decls.push(Decl { name: name.clone(), kind });
    proof {
        assert forall|a: int, b: int| 0 <= a < b < decls@.len() implies decls@[a].name@ != decls@[
            b
        ].name@ by {
            if b < pre.len() {
                assert(decls@[a] == pre[a] && decls@[b] == pre[b]);
            } else {
                assert(decls@[a] == pre[a]);
                assert(decls@[b].name@ == name@);
                assert(!(exists|k: int| 0 <= k < pre.len() && pre[k].name@ == name@));
            }
        }
        assert(decls@ =~= pre.push(Decl { name: *name, kind }));
    }
    Ok(())
}


/// The declaration one operation member contributes to the flat
/// namespace: its name, as a function, when it has one.
pub open spec fn op_decls(op: UdlOperation) -> Seq<Decl> {
    match op.name {
        Some(n) => seq![Decl { name: n, kind: DeclKind::Function }],
        None => Seq::empty(),
    }
}

/// The declarations the operation members from index `k` on contribute.
pub open spec fn ops_decls_from(ops: Seq<UdlOperation>, k: int) -> Seq<Decl>
    decreases ops.len() - k,
{
    if k < 0 || k >= ops.len() {
        Seq::empty()
    } else {
        op_decls(ops[k]) + ops_decls_from(ops, k + 1)
    }
}

/// The declarations one definition contributes to the flat namespace.
pub open spec fn def_decls(d: UdlDefinition) -> Seq<Decl> {
    match d {
        UdlDefinition::Namespace { operations, .. } => ops_decls_from(operations@, 0),
        UdlDefinition::EnumDef { name, is_error, .. } => seq![
            Decl {
                name,
                kind: if is_error {
                    DeclKind::Error
                } else {
                    DeclKind::Enum
                },
            },
        ],
        UdlDefinition::Interface { name, is_enum, .. } => seq![
            Decl {
                name,
                kind: if is_enum {
                    DeclKind::Enum
                } else {
                    DeclKind::Object
                },
            },
        ],
        UdlDefinition::Dictionary { name, .. } => seq![Decl { name, kind: DeclKind::Record }],
        UdlDefinition::Callback { name, .. } => seq![Decl { name, kind: DeclKind::Callback }],
    }
}

/// The declarations the definitions from index `i` on contribute.
pub open spec fn udl_decls_from(defs: Seq<UdlDefinition>, i: int) -> Seq<Decl>
    decreases defs.len() - i,
{
    if i < 0 || i >= defs.len() {
        Seq::empty()
    } else {
        def_decls(defs[i]) + udl_decls_from(defs, i + 1)
    }
}

/// The declarations the native enums from index `k` on contribute.
pub open spec fn source_decls_from(ses: Seq<SourceEnum>, k: int) -> Seq<Decl>
    decreases ses.len() - k,
{
    if k < 0 || k >= ses.len() {
        Seq::empty()
    } else {
        seq![Decl { name: ses[k].name, kind: DeclKind::Enum }] + source_decls_from(ses, k + 1)
    }
}

/// The complete name table pass one builds: every declaration of every
/// definition, in declaration order, the native enums last.
pub open spec fn all_decls(defs: Seq<UdlDefinition>, ses: Seq<SourceEnum>) -> Seq<Decl> {
    udl_decls_from(defs, 0) + source_decls_from(ses, 0)
}

/// Whether one definition adds a member to the registry collection of the
/// given kind.
pub open spec fn makes_kind(d: UdlDefinition, k: DeclKind) -> bool {
    match d {
        UdlDefinition::Namespace { .. } => false,
        UdlDefinition::EnumDef { is_error, .. } => if is_error {
            k is Error
        } else {
            k is Enum
        },
        UdlDefinition::Interface { is_enum, .. } => if is_enum {
            k is Enum
        } else {
            k is Object
        },
        UdlDefinition::Dictionary { .. } => k is Record,
        UdlDefinition::Callback { .. } => k is Callback,
    }
}

/// How many of the first `i` definitions add a member of the given kind.
pub open spec fn count_kind(defs: Seq<UdlDefinition>, i: int, k: DeclKind) -> int
    decreases i,
{
    if i <= 0 {
        0
    } else {
        count_kind(defs, i - 1, k) + (if makes_kind(defs[i - 1], k) {
            1int
        } else {
            0int
        })
    }
}

pub proof fn lemma_count_kind_mono(defs: Seq<UdlDefinition>, i: int, j: int, k: DeclKind)
    requires
        0 <= i <= j,
    ensures
        count_kind(defs, i, k) <= count_kind(defs, j, k),
    decreases j - i,
{
    if i < j {
        lemma_count_kind_mono(defs, i, j - 1, k);
    }
}

pub proof fn lemma_count_kind_nonneg(defs: Seq<UdlDefinition>, i: int, k: DeclKind)
    ensures
        count_kind(defs, i, k) >= 0,
    decreases i,
{
    if i > 0 {
        lemma_count_kind_nonneg(defs, i - 1, k);
    }
}

pub proof fn lemma_count_kind_lt(defs: Seq<UdlDefinition>, j: int, i: int, k: DeclKind)
    requires
        0 <= j < i,
        makes_kind(defs[j], k),
    ensures
        0 <= count_kind(defs, j, k) < count_kind(defs, i, k),
{
    lemma_count_kind_nonneg(defs, j, k);
    assert(count_kind(defs, j + 1, k) == count_kind(defs, j, k) + 1);
    lemma_count_kind_mono(defs, j + 1, i, k);
}

/// How many of the first `i` definitions are namespaces.
pub open spec fn n_namespaces(defs: Seq<UdlDefinition>, i: int) -> int
    decreases i,
{
    if i <= 0 {
        0
    } else {
        n_namespaces(defs, i - 1) + (if defs[i - 1] is Namespace {
            1int
        } else {
            0int
        })
    }
}

pub proof fn lemma_n_namespaces_mono(defs: Seq<UdlDefinition>, i: int, j: int)
    requires
        0 <= i <= j,
    ensures
        n_namespaces(defs, i) <= n_namespaces(defs, j),
    decreases j - i,
{
    if i < j {
        lemma_n_namespaces_mono(defs, i, j - 1);
    }
}

/// The operation members of the namespaces among the first `i`
/// definitions, in order.
pub open spec fn ns_ops(defs: Seq<UdlDefinition>, i: int) -> Seq<UdlOperation>
    decreases i,
{
    if i <= 0 {
        Seq::empty()
    } else {
        ns_ops(defs, i - 1) + (match defs[i - 1] {
            UdlDefinition::Namespace { operations, .. } => operations@,
            _ => Seq::empty(),
        })
    }
}

/// The name of the last namespace among the first `i` definitions, or the
/// empty name when there is none.
pub open spec fn ns_name(defs: Seq<UdlDefinition>, i: int) -> Seq<char>
    decreases i,
{
    if i <= 0 {
        Seq::empty()
    } else {
        match defs[i - 1] {
            UdlDefinition::Namespace { name, .. } => name@,
            _ => ns_name(defs, i - 1),
        }
    }
}

/// One definition converts against the complete name table.
pub open spec fn def_ok(decls: Seq<Decl>, d: UdlDefinition) -> bool {
    match d {
        UdlDefinition::Namespace { operations, .. } => forall|k: int|
            0 <= k < operations@.len() ==> function_op_ok(decls, #[trigger] operations@[k]),
        UdlDefinition::EnumDef { .. } => true,
        UdlDefinition::Interface { is_enum, inheritance, operations, .. } => if is_enum {
            interface_enum_ok(decls, inheritance, operations@)
        } else {
            inheritance is None
        },
        UdlDefinition::Dictionary { fields, .. } => forall|k: int|
            0 <= k < fields@.len() ==> dict_field_ok(decls, #[trigger] fields@[k]),
        UdlDefinition::Callback { .. } => true,
    }
}

/// The whole build succeeds: at most one namespace, no name declared
/// twice, and every definition converts against the complete name table.
pub open spec fn build_ok(defs: Seq<UdlDefinition>, ses: Seq<SourceEnum>) -> bool {
    &&& n_namespaces(defs, defs.len() as int) <= 1
    &&& names_unique(all_decls(defs, ses))
    &&& forall|i: int| 0 <= i < defs.len() ==> def_ok(all_decls(defs, ses), #[trigger] defs[i])
    &&& forall|k: int|
        0 <= k < ses.len() ==> source_enum_ok(all_decls(defs, ses), #[trigger] ses[k])
}

/// Definition `i`'s conversion stands at its slot of the right registry
/// collection: the slot's index counts the earlier definitions of the same
/// kind, so order is declaration order.
pub open spec fn def_placed(
    decls: Seq<Decl>,
    defs: Seq<UdlDefinition>,
    i: int,
    enums: Seq<Enum>,
    records: Seq<Record>,
    objects: Seq<Object>,
    errors: Seq<ErrorDef>,
    callbacks: Seq<CallbackInterface>,
) -> bool {
    match defs[i] {
        UdlDefinition::Namespace { .. } => true,
        UdlDefinition::EnumDef { name, values, is_error } => if is_error {
            error_def_matches(name@, values@, errors[count_kind(defs, i, DeclKind::Error)])
        } else {
            plain_enum_matches(name@, values@, enums[count_kind(defs, i, DeclKind::Enum)])
        },
        UdlDefinition::Interface { name, is_enum, inheritance, operations } => if is_enum {
            interface_enum_matches(
                decls,
                name@,
                operations@,
                enums[count_kind(defs, i, DeclKind::Enum)],
            )
        } else {
            &&& inheritance is None
            &&& objects[count_kind(defs, i, DeclKind::Object)].name@ == name@
            &&& objects[count_kind(defs, i, DeclKind::Object)].docs@.len() == 0
        },
        UdlDefinition::Dictionary { name, fields } => record_matches(
            decls,
            name@,
            fields@,
            records[count_kind(defs, i, DeclKind::Record)],
        ),
        UdlDefinition::Callback { name, .. } => {
            &&& callbacks[count_kind(defs, i, DeclKind::Callback)].name@ == name@
            &&& callbacks[count_kind(defs, i, DeclKind::Callback)].docs@.len() == 0
        },
    }
}

/// Extending the registry collections beyond the slots the first `i`
/// definitions use leaves every earlier placement intact.
proof fn lemma_def_placed_stable(
    decls: Seq<Decl>,
    defs: Seq<UdlDefinition>,
    i: int,
    enums0: Seq<Enum>,
    records0: Seq<Record>,
    objects0: Seq<Object>,
    errors0: Seq<ErrorDef>,
    callbacks0: Seq<CallbackInterface>,
    enums1: Seq<Enum>,
    records1: Seq<Record>,
    objects1: Seq<Object>,
    errors1: Seq<ErrorDef>,
    callbacks1: Seq<CallbackInterface>,
)
    requires
        0 <= i <= defs.len(),
        forall|j: int|
            0 <= j < i ==> #[trigger] def_placed(
                decls,
                defs,
                j,
                enums0,
                records0,
                objects0,
                errors0,
                callbacks0,
            ),
        enums0.len() >= count_kind(defs, i, DeclKind::Enum),
        records0.len() >= count_kind(defs, i, DeclKind::Record),
        objects0.len() >= count_kind(defs, i, DeclKind::Object),
        errors0.len() >= count_kind(defs, i, DeclKind::Error),
        callbacks0.len() >= count_kind(defs, i, DeclKind::Callback),
        enums1.len() >= enums0.len(),
        records1.len() >= records0.len(),
        objects1.len() >= objects0.len(),
        errors1.len() >= errors0.len(),
        callbacks1.len() >= callbacks0.len(),
        forall|m: int| 0 <= m < enums0.len() ==> enums1[m] == enums0[m],
        forall|m: int| 0 <= m < records0.len() ==> records1[m] == records0[m],
        forall|m: int| 0 <= m < objects0.len() ==> objects1[m] == objects0[m],
        forall|m: int| 0 <= m < errors0.len() ==> errors1[m] == errors0[m],
        forall|m: int| 0 <= m < callbacks0.len() ==> callbacks1[m] == callbacks0[m],
    ensures
        forall|j: int|
            0 <= j < i ==> #[trigger] def_placed(
                decls,
                defs,
                j,
                enums1,
                records1,
                objects1,
                errors1,
                callbacks1,
            ),
{
    assert forall|j: int| 0 <= j < i implies #[trigger] def_placed(
        decls,
        defs,
        j,
        enums1,
        records1,
        objects1,
        errors1,
        callbacks1,
    ) by {
        assert(def_placed(decls, defs, j, enums0, records0, objects0, errors0, callbacks0));
        match defs[j] {
            UdlDefinition::EnumDef { is_error, .. } => {
                if is_error {
                    lemma_count_kind_lt(defs, j, i, DeclKind::Error);
                    assert(errors1[count_kind(defs, j, DeclKind::Error)] == errors0[count_kind(
                        defs,
                        j,
                        DeclKind::Error,
                    )]);
                } else {
                    lemma_count_kind_lt(defs, j, i, DeclKind::Enum);
                    assert(enums1[count_kind(defs, j, DeclKind::Enum)] == enums0[count_kind(
                        defs,
                        j,
                        DeclKind::Enum,
                    )]);
                }
            },
            UdlDefinition::Interface { is_enum, .. } => {
                if is_enum {
                    lemma_count_kind_lt(defs, j, i, DeclKind::Enum);
                    assert(enums1[count_kind(defs, j, DeclKind::Enum)] == enums0[count_kind(
                        defs,
                        j,
                        DeclKind::Enum,
                    )]);
                } else {
                    lemma_count_kind_lt(defs, j, i, DeclKind::Object);
                    assert(objects1[count_kind(defs, j, DeclKind::Object)] == objects0[count_kind(
                        defs,
                        j,
                        DeclKind::Object,
                    )]);
                }
            },
            UdlDefinition::Dictionary { .. } => {
                lemma_count_kind_lt(defs, j, i, DeclKind::Record);
                assert(records1[count_kind(defs, j, DeclKind::Record)] == records0[count_kind(
                    defs,
                    j,
                    DeclKind::Record,
                )]);
            },
            UdlDefinition::Callback { .. } => {
                lemma_count_kind_lt(defs, j, i, DeclKind::Callback);
                assert(callbacks1[count_kind(defs, j, DeclKind::Callback)] == callbacks0[
                    count_kind(defs, j, DeclKind::Callback)]);
            },
            _ => {},
        }
    }
}

impl ComponentInterface {
    /// Builds a component interface from parsed interface-definition
    /// declarations and native enum declarations combined. Pass one
    /// collects every declared name, so forward references resolve; pass
    /// two converts and validates every definition against the complete
    /// name set. The build succeeds exactly when at most one namespace is
    /// declared, no name is declared twice, and every definition converts;
    /// the registry then holds exactly the conversions, in declaration
    /// order, the native enums last. The first error aborts the build.
    #[verifier::rlimit(80)]
    pub fn from_parts(udl_defs: &Vec<UdlDefinition>, source_enums: &Vec<SourceEnum>) -> (r: Result<
        ComponentInterface,
        BuildError,
    >)
        ensures
            r is Ok <==> build_ok(udl_defs@, source_enums@),
            r matches Ok(ci) ==> {
                &&& ci.wf()
                &&& ci.decls@ == all_decls(udl_defs@, source_enums@)
                &&& ci.namespace@ == ns_name(udl_defs@, udl_defs@.len() as int)
                &&& ci.enums@.len() == count_kind(udl_defs@, udl_defs@.len() as int, DeclKind::Enum)
                    + source_enums@.len()
                &&& ci.records@.len() == count_kind(
                    udl_defs@,
                    udl_defs@.len() as int,
                    DeclKind::Record,
                )
                &&& ci.objects@.len() == count_kind(
                    udl_defs@,
                    udl_defs@.len() as int,
                    DeclKind::Object,
                )
                &&& ci.errors@.len() == count_kind(
                    udl_defs@,
                    udl_defs@.len() as int,
                    DeclKind::Error,
                )
                &&& ci.callback_interfaces@.len() == count_kind(
                    udl_defs@,
                    udl_defs@.len() as int,
                    DeclKind::Callback,
                )
                &&& ci.functions@.len() == ns_ops(udl_defs@, udl_defs@.len() as int).len()
                &&& forall|j: int|
                    0 <= j < udl_defs@.len() ==> #[trigger] def_placed(
                        ci.decls@,
                        udl_defs@,
                        j,
                        ci.enums@,
                        ci.records@,
                        ci.objects@,
                        ci.errors@,
                        ci.callback_interfaces@,
                    )
                &&& forall|k: int|
                    0 <= k < ci.functions@.len() ==> function_matches(
                        ci.decls@,
                        ns_ops(udl_defs@, udl_defs@.len() as int)[k],
                        #[trigger] ci.functions@[k],
                    )
                &&& forall|k: int|
                    0 <= k < source_enums@.len() ==> source_enum_matches(
                        ci.decls@,
                        #[trigger] source_enums@[k],
                        ci.enums@[count_kind(udl_defs@, udl_defs@.len() as int, DeclKind::Enum)
                            + k],
                    )
            },
    {
        let ghost defs = udl_defs@;
        let ghost ses = source_enums@;
        let ghost dlen = udl_defs@.len() as int;
        let mut ci = ComponentInterface {
            namespace: String::new(),
            decls: Vec::new(),
            enums: Vec::new(),
            records: Vec::new(),
            objects: Vec::new(),
            errors: Vec::new(),
            callback_interfaces: Vec::new(),
            functions: Vec::new(),
        };
        let mut have_namespace = false;
        proof {
            assert(Seq::<Decl>::empty() + (udl_decls_from(defs, 0) + source_decls_from(ses, 0))
                =~= all_decls(defs, ses));
        }
        // Pass one: collect every declared name, with its kind.
        let mut i: usize = 0;
        while i < udl_defs.len()
            invariant
                defs == udl_defs@,
                ses == source_enums@,
                dlen == defs.len() as int,
                i <= defs.len(),
                names_unique(ci.decls@),
                ci.enums@.len() == 0,
                ci.records@.len() == 0,
                ci.objects@.len() == 0,
                ci.errors@.len() == 0,
                ci.callback_interfaces@.len() == 0,
                ci.functions@.len() == 0,
                all_decls(defs, ses) == ci.decls@ + (udl_decls_from(defs, i as int)
                    + source_decls_from(ses, 0)),
                0 <= n_namespaces(defs, i as int) <= 1,
                have_namespace == (n_namespaces(defs, i as int) == 1),
                ci.namespace@ == ns_name(defs, i as int),
            decreases defs.len() - i,
        {
            proof {
                assert(udl_decls_from(defs, i as int) == def_decls(defs[i as int])
                    + udl_decls_from(defs, i as int + 1));
            }
            match &udl_defs[i] {
                UdlDefinition::Namespace { name, operations } => {
                    proof {
                        assert(n_namespaces(defs, i as int + 1) == n_namespaces(defs, i as int)
                            + 1);
                    }
                    if have_namespace {
                        proof {
                            lemma_n_namespaces_mono(defs, i as int + 1, dlen);
                        }
                        return Err(
                            BuildError::StructuralConstraint(
                                "duplicate namespace definition".to_owned(),
                            ),
                        );
                    }
                    have_namespace = true;
                    ci.namespace = name.clone();
                    proof {
                        assert(n_namespaces(defs, i as int) == 0);
                        assert(def_decls(defs[i as int]) == ops_decls_from(operations@, 0));
                        assert(ci.decls@ + (ops_decls_from(operations@, 0) + (udl_decls_from(
                            defs,
                            i as int + 1,
                        ) + source_decls_from(ses, 0))) =~= ci.decls@ + (udl_decls_from(
                            defs,
                            i as int,
                        ) + source_decls_from(ses, 0)));
                    }
                    let mut k: usize = 0;
                    while k < operations.len()
                        invariant
                            defs == udl_defs@,
                            ses == source_enums@,
                            dlen == defs.len() as int,
                            i < defs.len(),
                            k <= operations@.len(),
                            names_unique(ci.decls@),
                            ci.enums@.len() == 0,
                            ci.records@.len() == 0,
                            ci.objects@.len() == 0,
                            ci.errors@.len() == 0,
                            ci.callback_interfaces@.len() == 0,
                            ci.functions@.len() == 0,
                            have_namespace,
                            n_namespaces(defs, i as int) == 0,
                            defs[i as int] matches UdlDefinition::Namespace {
                                name: n0,
                                operations: ops0,
                            } && ops0 == *operations && n0 == *name && ci.namespace@ == n0@,
                            all_decls(defs, ses) == ci.decls@ + (ops_decls_from(
                                operations@,
                                k as int,
                            ) + (udl_decls_from(defs, i as int + 1) + source_decls_from(ses, 0))),
                        decreases operations@.len() - k,
                    {
                        proof {
                            assert(ops_decls_from(operations@, k as int) == op_decls(
                                operations@[k as int],
                            ) + ops_decls_from(operations@, k as int + 1));
                        }
                        match &operations[k].name {
                            Some(n) => {
                                proof {
                                    assert(op_decls(operations@[k as int]) =~= seq![
                                        Decl { name: *n, kind: DeclKind::Function },
                                    ]);
                                }
                                let ghost pre = ci.decls@;
                                let ghost d = Decl { name: *n, kind: DeclKind::Function };
                                match add_decl(&mut ci.decls, n, DeclKind::Function) {
                                    Ok(_) => {
                                        proof {
                                            assert(ci.decls@ =~= pre + seq![d]);
                                            assert(ci.decls@ + (ops_decls_from(
                                                operations@,
                                                k as int + 1,
                                            ) + (udl_decls_from(defs, i as int + 1)
                                                + source_decls_from(ses, 0))) =~= pre + (
                                            ops_decls_from(operations@, k as int) + (
                                            udl_decls_from(defs, i as int + 1)
                                                + source_decls_from(ses, 0))));
                                        }
                                    },
                                    Err(e) => {
                                        proof {
                                            lemma_find_decl_some(pre, n@);
                                            let k0 = choose|k0: int|
                                                0 <= k0 < pre.len() && pre[k0].name@ == n@;
                                            let all = all_decls(defs, ses);
                                            let pos = pre.len() as int;
                                            assert(all[k0] == pre[k0]);
                                            assert(all[pos] == (ops_decls_from(
                                                operations@,
                                                k as int,
                                            ) + (udl_decls_from(defs, i as int + 1)
                                                + source_decls_from(ses, 0)))[0]);
                                            assert(all[pos] == d);
                                            assert(!names_unique(all));
                                        }
                                        return Err(e);
                                    },
                                }
                            },
                            None => {
                                proof {
                                    assert(op_decls(operations@[k as int])
                                        =~= Seq::<Decl>::empty());
                                    assert(ci.decls@ + (ops_decls_from(operations@, k as int + 1)
                                        + (udl_decls_from(defs, i as int + 1)
                                        + source_decls_from(ses, 0))) =~= ci.decls@ + (
                                    ops_decls_from(operations@, k as int) + (udl_decls_from(
                                        defs,
                                        i as int + 1,
                                    ) + source_decls_from(ses, 0))));
                                }
                            },
                        }
                        k += 1;
                    }
                    proof {
                        assert(ops_decls_from(operations@, operations@.len() as int)
                            =~= Seq::<Decl>::empty());
                        assert(ci.decls@ + (udl_decls_from(defs, i as int + 1)
                            + source_decls_from(ses, 0)) =~= ci.decls@ + (ops_decls_from(
                            operations@,
                            operations@.len() as int,
                        ) + (udl_decls_from(defs, i as int + 1) + source_decls_from(ses, 0))));
                        assert(ns_name(defs, i as int + 1) == name@);
                        assert(n_namespaces(defs, i as int + 1) == 1);
                    }
                },
                UdlDefinition::EnumDef { name, is_error, .. } => {
                    let kind = if *is_error {
                        DeclKind::Error
                    } else {
                        DeclKind::Enum
                    };
                    proof {
                        assert(def_decls(defs[i as int]) =~= seq![Decl { name: *name, kind }]);
                        assert(n_namespaces(defs, i as int + 1) == n_namespaces(defs, i as int));
                        assert(ns_name(defs, i as int + 1) == ns_name(defs, i as int));
                    }
                    let ghost pre = ci.decls@;
                    let ghost d = Decl { name: *name, kind };
                    match add_decl(&mut ci.decls, name, kind) {
                        Ok(_) => {
                            proof {
                                assert(ci.decls@ =~= pre + seq![d]);
                                assert(ci.decls@ + (udl_decls_from(defs, i as int + 1)
                                    + source_decls_from(ses, 0)) =~= pre + (udl_decls_from(
                                    defs,
                                    i as int,
                                ) + source_decls_from(ses, 0)));
                            }
                        },
                        Err(e) => {
                            proof {
                                lemma_find_decl_some(pre, name@);
                                let k0 = choose|k0: int|
                                    0 <= k0 < pre.len() && pre[k0].name@ == name@;
                                let all = all_decls(defs, ses);
                                let pos = pre.len() as int;
                                assert(all[k0] == pre[k0]);
                                assert(all[pos] == (udl_decls_from(defs, i as int)
                                    + source_decls_from(ses, 0))[0]);
                                assert(all[pos] == d);
                                assert(!names_unique(all));
                            }
                            return Err(e);
                        },
                    }
                },
                UdlDefinition::Interface { name, is_enum, .. } => {
                    let kind = if *is_enum {
                        DeclKind::Enum
                    } else {
                        DeclKind::Object
                    };
                    proof {
                        assert(def_decls(defs[i as int]) =~= seq![Decl { name: *name, kind }]);
                        assert(n_namespaces(defs, i as int + 1) == n_namespaces(defs, i as int));
                        assert(ns_name(defs, i as int + 1) == ns_name(defs, i as int));
                    }
                    let ghost pre = ci.decls@;
                    let ghost d = Decl { name: *name, kind };
                    match add_decl(&mut ci.decls, name, kind) {
                        Ok(_) => {
                            proof {
                                assert(ci.decls@ =~= pre + seq![d]);
                                assert(ci.decls@ + (udl_decls_from(defs, i as int + 1)
                                    + source_decls_from(ses, 0)) =~= pre + (udl_decls_from(
                                    defs,
                                    i as int,
                                ) + source_decls_from(ses, 0)));
                            }
                        },
                        Err(e) => {
                            proof {
                                lemma_find_decl_some(pre, name@);
                                let k0 = choose|k0: int|
                                    0 <= k0 < pre.len() && pre[k0].name@ == name@;
                                let all = all_decls(defs, ses);
                                let pos = pre.len() as int;
                                assert(all[k0] == pre[k0]);
                                assert(all[pos] == (udl_decls_from(defs, i as int)
                                    + source_decls_from(ses, 0))[0]);
                                assert(all[pos] == d);
                                assert(!names_unique(all));
                            }
                            return Err(e);
                        },
                    }
                },
                UdlDefinition::Dictionary { name, .. } => {
                    proof {
                        assert(def_decls(defs[i as int]) =~= seq![
                            Decl { name: *name, kind: DeclKind::Record },
                        ]);
                        assert(n_namespaces(defs, i as int + 1) == n_namespaces(defs, i as int));
                        assert(ns_name(defs, i as int + 1) == ns_name(defs, i as int));
                    }
                    let ghost pre = ci.decls@;
                    let ghost d = Decl { name: *name, kind: DeclKind::Record };
                    match add_decl(&mut ci.decls, name, DeclKind::Record) {
                        Ok(_) => {
                            proof {
                                assert(ci.decls@ =~= pre + seq![d]);
                                assert(ci.decls@ + (udl_decls_from(defs, i as int + 1)
                                    + source_decls_from(ses, 0)) =~= pre + (udl_decls_from(
                                    defs,
                                    i as int,
                                ) + source_decls_from(ses, 0)));
                            }
                        },
                        Err(e) => {
                            proof {
                                lemma_find_decl_some(pre, name@);
                                let k0 = choose|k0: int|
                                    0 <= k0 < pre.len() && pre[k0].name@ == name@;
                                let all = all_decls(defs, ses);
                                let pos = pre.len() as int;
                                assert(all[k0] == pre[k0]);
                                assert(all[pos] == (udl_decls_from(defs, i as int)
                                    + source_decls_from(ses, 0))[0]);
                                assert(all[pos] == d);
                                assert(!names_unique(all));
                            }
                            return Err(e);
                        },
                    }
                },
                UdlDefinition::Callback { name, .. } => {
                    proof {
                        assert(def_decls(defs[i as int]) =~= seq![
                            Decl { name: *name, kind: DeclKind::Callback },
                        ]);
                        assert(n_namespaces(defs, i as int + 1) == n_namespaces(defs, i as int));
                        assert(ns_name(defs, i as int + 1) == ns_name(defs, i as int));
                    }
                    let ghost pre = ci.decls@;
                    let ghost d = Decl { name: *name, kind: DeclKind::Callback };
                    match add_decl(&mut ci.decls, name, DeclKind::Callback) {
                        Ok(_) => {
                            proof {
                                assert(ci.decls@ =~= pre + seq![d]);
                                assert(ci.decls@ + (udl_decls_from(defs, i as int + 1)
                                    + source_decls_from(ses, 0)) =~= pre + (udl_decls_from(
                                    defs,
                                    i as int,
                                ) + source_decls_from(ses, 0)));
                            }
                        },
                        Err(e) => {
                            proof {
                                lemma_find_decl_some(pre, name@);
                                let k0 = choose|k0: int|
                                    0 <= k0 < pre.len() && pre[k0].name@ == name@;
                                let all = all_decls(defs, ses);
                                let pos = pre.len() as int;
                                assert(all[k0] == pre[k0]);
                                assert(all[pos] == (udl_decls_from(defs, i as int)
                                    + source_decls_from(ses, 0))[0]);
                                assert(all[pos] == d);
                                assert(!names_unique(all));
                            }
                            return Err(e);
                        },
                    }
                },
            }
            i += 1;
        }
        proof {
            assert(udl_decls_from(defs, dlen) =~= Seq::<Decl>::empty());
            assert(ci.decls@ + source_decls_from(ses, 0) =~= ci.decls@ + (udl_decls_from(
                defs,
                dlen,
            ) + source_decls_from(ses, 0)));
        }
        let mut i: usize = 0;
        while i < source_enums.len()
            invariant
                defs == udl_defs@,
                ses == source_enums@,
                dlen == defs.len() as int,
                i <= ses.len(),
                names_unique(ci.decls@),
                ci.enums@.len() == 0,
                ci.records@.len() == 0,
                ci.objects@.len() == 0,
                ci.errors@.len() == 0,
                ci.callback_interfaces@.len() == 0,
                ci.functions@.len() == 0,
                all_decls(defs, ses) == ci.decls@ + source_decls_from(ses, i as int),
                n_namespaces(defs, dlen) <= 1,
                ci.namespace@ == ns_name(defs, dlen),
            decreases ses.len() - i,
        {
            proof {
                assert(source_decls_from(ses, i as int) == seq![
                    Decl { name: ses[i as int].name, kind: DeclKind::Enum },
                ] + source_decls_from(ses, i as int + 1));
            }
            let ghost pre = ci.decls@;
            let ghost d = Decl { name: ses[i as int].name, kind: DeclKind::Enum };
            match add_decl(&mut ci.decls, &source_enums[i].name, DeclKind::Enum) {
                Ok(_) => {
                    proof {
                        assert(ci.decls@ =~= pre + seq![d]);
                        assert(ci.decls@ + source_decls_from(ses, i as int + 1) =~= pre
                            + source_decls_from(ses, i as int));
                    }
                },
                Err(e) => {
                    proof {
                        lemma_find_decl_some(pre, ses[i as int].name@);
                        let k0 = choose|k0: int|
                            0 <= k0 < pre.len() && pre[k0].name@ == ses[i as int].name@;
                        let all = all_decls(defs, ses);
                        let pos = pre.len() as int;
                        assert(all[k0] == pre[k0]);
                        assert(all[pos] == source_decls_from(ses, i as int)[0]);
                        assert(all[pos] == d);
                        assert(!names_unique(all));
                    }
                    return Err(e);
                },
            }
            i += 1;
        }
        proof {
            assert(source_decls_from(ses, ses.len() as int) =~= Seq::<Decl>::empty());
            assert(ci.decls@ + source_decls_from(ses, ses.len() as int) =~= ci.decls@);
            assert(ci.decls@ == all_decls(defs, ses));
        }
        // Pass two: convert and validate every definition against the
        // complete name set.
        let mut i: usize = 0;
        while i < udl_defs.len()
            invariant
                defs == udl_defs@,
                ses == source_enums@,
                dlen == defs.len() as int,
                i <= defs.len(),
                ci.decls@ == all_decls(defs, ses),
                names_unique(ci.decls@),
                n_namespaces(defs, dlen) <= 1,
                ci.namespace@ == ns_name(defs, dlen),
                ci.enums@.len() == count_kind(defs, i as int, DeclKind::Enum),
                ci.records@.len() == count_kind(defs, i as int, DeclKind::Record),
                ci.objects@.len() == count_kind(defs, i as int, DeclKind::Object),
                ci.errors@.len() == count_kind(defs, i as int, DeclKind::Error),
                ci.callback_interfaces@.len() == count_kind(defs, i as int, DeclKind::Callback),
                ci.functions@.len() == ns_ops(defs, i as int).len(),
                forall|j: int|
                    0 <= j < ci.enums@.len() ==> (#[trigger] ci.enums@[j]).wf() && enum_fields_ok(
                        ci.enums@[j],
                    ),
                forall|j: int| 0 <= j < i ==> def_ok(ci.decls@, #[trigger] defs[j]),
                forall|j: int|
                    0 <= j < i ==> #[trigger] def_placed(
                        ci.decls@,
                        defs,
                        j,
                        ci.enums@,
                        ci.records@,
                        ci.objects@,
                        ci.errors@,
                        ci.callback_interfaces@,
                    ),
                forall|k: int|
                    0 <= k < ci.functions@.len() ==> function_matches(
                        ci.decls@,
                        ns_ops(defs, i as int)[k],
                        #[trigger] ci.functions@[k],
                    ),
            decreases defs.len() - i,
        {
            let ghost enums0 = ci.enums@;
            let ghost records0 = ci.records@;
            let ghost objects0 = ci.objects@;
            let ghost errors0 = ci.errors@;
            let ghost callbacks0 = ci.callback_interfaces@;
            proof {
                assert(count_kind(defs, i as int + 1, DeclKind::Enum) == count_kind(
                    defs,
                    i as int,
                    DeclKind::Enum,
                ) + (if makes_kind(defs[i as int], DeclKind::Enum) {
                    1int
                } else {
                    0int
                }));
            }
            match &udl_defs[i] {
                UdlDefinition::Namespace { operations, .. } => {
                    let ghost fbase = ns_ops(defs, i as int);
                    let mut k: usize = 0;
                    while k < operations.len()
                        invariant
                            defs == udl_defs@,
                            ses == source_enums@,
                            i < defs.len(),
                            k <= operations@.len(),
                            ci.decls@ == all_decls(defs, ses),
                            names_unique(ci.decls@),
                            n_namespaces(defs, dlen) <= 1,
                            ci.namespace@ == ns_name(defs, dlen),
                            ci.enums@ == enums0,
                            ci.records@ == records0,
                            ci.objects@ == objects0,
                            ci.errors@ == errors0,
                            ci.callback_interfaces@ == callbacks0,
                            enums0.len() == count_kind(defs, i as int, DeclKind::Enum),
                            records0.len() == count_kind(defs, i as int, DeclKind::Record),
                            objects0.len() == count_kind(defs, i as int, DeclKind::Object),
                            errors0.len() == count_kind(defs, i as int, DeclKind::Error),
                            callbacks0.len() == count_kind(defs, i as int, DeclKind::Callback),
                            forall|j: int|
                                0 <= j < ci.enums@.len() ==> (#[trigger] ci.enums@[j]).wf()
                                    && enum_fields_ok(ci.enums@[j]),
                            forall|j: int| 0 <= j < i ==> def_ok(ci.decls@, #[trigger] defs[j]),
                            forall|j: int|
                                0 <= j < i ==> #[trigger] def_placed(
                                    ci.decls@,
                                    defs,
                                    j,
                                    ci.enums@,
                                    ci.records@,
                                    ci.objects@,
                                    ci.errors@,
                                    ci.callback_interfaces@,
                                ),
                            defs[i as int] matches UdlDefinition::Namespace {
                                operations: ops0,
                                ..
                            } && ops0 == *operations,
                            fbase == ns_ops(defs, i as int),
                            ci.functions@.len() == fbase.len() + k,
                            forall|m: int|
                                0 <= m < fbase.len() ==> function_matches(
                                    ci.decls@,
                                    fbase[m],
                                    #[trigger] ci.functions@[m],
                                ),
                            forall|m: int|
                                0 <= m < k ==> function_op_ok(
                                    ci.decls@,
                                    #[trigger] operations@[m],
                                ),
                            forall|m: int|
                                0 <= m < k ==> function_matches(
                                    ci.decls@,
                                    operations@[m],
                                    #[trigger] ci.functions@[fbase.len() + m],
                                ),
                        decreases operations@.len() - k,
                    {
                        let f = match convert_function(&ci, &operations[k]) {
                            Ok(f) => f,
                            Err(e) => {
                                proof {
                                    assert(!function_op_ok(ci.decls@, operations@[k as int]));
                                    assert(!def_ok(ci.decls@, defs[i as int]));
                                }
                                return Err(e);
                            },
                        };
                        ci.functions.push(f);
                        k += 1;
                    }
                    proof {
                        assert(ns_ops(defs, i as int + 1) == fbase + operations@);
                        assert forall|m: int| 0 <= m < ns_ops(defs, i as int + 1).len() implies
                            function_matches(
                            ci.decls@,
                            ns_ops(defs, i as int + 1)[m],
                            #[trigger] ci.functions@[m],
                        ) by {
                            if m < fbase.len() {
                                assert(ns_ops(defs, i as int + 1)[m] == fbase[m]);
                            } else {
                                assert(ns_ops(defs, i as int + 1)[m] == operations@[m
                                    - fbase.len()]);
                                assert(function_matches(
                                    ci.decls@,
                                    operations@[m - fbase.len()],
                                    ci.functions@[fbase.len() + (m - fbase.len())],
                                ));
                            }
                        }
                        assert(def_ok(ci.decls@, defs[i as int]));
                        lemma_def_placed_stable(
                            ci.decls@,
                            defs,
                            i as int,
                            enums0,
                            records0,
                            objects0,
                            errors0,
                            callbacks0,
                            ci.enums@,
                            ci.records@,
                            ci.objects@,
                            ci.errors@,
                            ci.callback_interfaces@,
                        );
                    }
                },
                UdlDefinition::EnumDef { name, values, is_error } => {
                    if *is_error {
                        let e = convert_error_def(name, values);
                        ci.errors.push(e);
                    } else {
                        let e = convert_plain_enum(name, values);
                        ci.enums.push(e);
                    }
                    proof {
                        lemma_def_placed_stable(
                            ci.decls@,
                            defs,
                            i as int,
                            enums0,
                            records0,
                            objects0,
                            errors0,
                            callbacks0,
                            ci.enums@,
                            ci.records@,
                            ci.objects@,
                            ci.errors@,
                            ci.callback_interfaces@,
                        );
                        assert(def_placed(
                            ci.decls@,
                            defs,
                            i as int,
                            ci.enums@,
                            ci.records@,
                            ci.objects@,
                            ci.errors@,
                            ci.callback_interfaces@,
                        ));
                    }
                },
                UdlDefinition::Interface { name, is_enum, inheritance, operations } => {
                    if *is_enum {
                        let e = match convert_interface_enum(&ci, name, inheritance, operations) {
                            Ok(e) => e,
                            Err(err) => {
                                proof {
                                    assert(!def_ok(ci.decls@, defs[i as int]));
                                }
                                return Err(err);
                            },
                        };
                        ci.enums.push(e);
                    } else {
                        if matches!(inheritance, Some(_)) {
                            proof {
                                assert(!def_ok(ci.decls@, defs[i as int]));
                            }
                            return Err(
                                BuildError::StructuralConstraint(
                                    "interface inheritance is not supported".to_owned(),
                                ),
                            );
                        }
                        ci.objects.push(Object { name: name.clone(), docs: Vec::new() });
                    }
                    proof {
                        lemma_def_placed_stable(
                            ci.decls@,
                            defs,
                            i as int,
                            enums0,
                            records0,
                            objects0,
                            errors0,
                            callbacks0,
                            ci.enums@,
                            ci.records@,
                            ci.objects@,
                            ci.errors@,
                            ci.callback_interfaces@,
                        );
                        assert(def_placed(
                            ci.decls@,
                            defs,
                            i as int,
                            ci.enums@,
                            ci.records@,
                            ci.objects@,
                            ci.errors@,
                            ci.callback_interfaces@,
                        ));
                    }
                },
                UdlDefinition::Dictionary { name, fields } => {
                    let rec = match convert_dictionary(&ci, name, fields) {
                        Ok(rec) => rec,
                        Err(err) => {
                            proof {
                                assert(!def_ok(ci.decls@, defs[i as int]));
                            }
                            return Err(err);
                        },
                    };
                    ci.records.push(rec);
                    proof {
                        lemma_def_placed_stable(
                            ci.decls@,
                            defs,
                            i as int,
                            enums0,
                            records0,
                            objects0,
                            errors0,
                            callbacks0,
                            ci.enums@,
                            ci.records@,
                            ci.objects@,
                            ci.errors@,
                            ci.callback_interfaces@,
                        );
                        assert(def_placed(
                            ci.decls@,
                            defs,
                            i as int,
                            ci.enums@,
                            ci.records@,
                            ci.objects@,
                            ci.errors@,
                            ci.callback_interfaces@,
                        ));
                    }
                },
                UdlDefinition::Callback { name, .. } => {
                    ci.callback_interfaces.push(
                        CallbackInterface { name: name.clone(), docs: Vec::new() },
                    );
                    proof {
                        lemma_def_placed_stable(
                            ci.decls@,
                            defs,
                            i as int,
                            enums0,
                            records0,
                            objects0,
                            errors0,
                            callbacks0,
                            ci.enums@,
                            ci.records@,
                            ci.objects@,
                            ci.errors@,
                            ci.callback_interfaces@,
                        );
                        assert(def_placed(
                            ci.decls@,
                            defs,
                            i as int,
                            ci.enums@,
                            ci.records@,
                            ci.objects@,
                            ci.errors@,
                            ci.callback_interfaces@,
                        ));
                    }
                },
            }
            i += 1;
        }
        let ghost base = ci.enums@.len() as int;
        proof {
            lemma_count_kind_nonneg(defs, dlen, DeclKind::Enum);
        }
        let mut i: usize = 0;
        while i < source_enums.len()
            invariant
                defs == udl_defs@,
                ses == source_enums@,
                dlen == defs.len() as int,
                i <= ses.len(),
                ci.decls@ == all_decls(defs, ses),
                names_unique(ci.decls@),
                n_namespaces(defs, dlen) <= 1,
                ci.namespace@ == ns_name(defs, dlen),
                base == count_kind(defs, dlen, DeclKind::Enum),
                0 <= base,
                ci.enums@.len() == base + i,
                ci.records@.len() == count_kind(defs, dlen, DeclKind::Record),
                ci.objects@.len() == count_kind(defs, dlen, DeclKind::Object),
                ci.errors@.len() == count_kind(defs, dlen, DeclKind::Error),
                ci.callback_interfaces@.len() == count_kind(defs, dlen, DeclKind::Callback),
                ci.functions@.len() == ns_ops(defs, dlen).len(),
                forall|j: int|
                    0 <= j < ci.enums@.len() ==> (#[trigger] ci.enums@[j]).wf() && enum_fields_ok(
                        ci.enums@[j],
                    ),
                forall|j: int| 0 <= j < dlen ==> def_ok(ci.decls@, #[trigger] defs[j]),
                forall|j: int|
                    0 <= j < dlen ==> #[trigger] def_placed(
                        ci.decls@,
                        defs,
                        j,
                        ci.enums@,
                        ci.records@,
                        ci.objects@,
                        ci.errors@,
                        ci.callback_interfaces@,
                    ),
                forall|k: int|
                    0 <= k < ci.functions@.len() ==> function_matches(
                        ci.decls@,
                        ns_ops(defs, dlen)[k],
                        #[trigger] ci.functions@[k],
                    ),
                forall|k: int|
                    0 <= k < i ==> source_enum_ok(ci.decls@, #[trigger] ses[k]),
                forall|k: int|
                    0 <= k < i ==> source_enum_matches(
                        ci.decls@,
                        ses[k],
                        #[trigger] ci.enums@[base + k],
                    ),
            decreases ses.len() - i,
        {
            let ghost enums0 = ci.enums@;
            let e = match convert_source_enum(&ci, &source_enums[i]) {
                Ok(e) => e,
                Err(err) => {
                    proof {
                        assert(!source_enum_ok(ci.decls@, ses[i as int]));
                    }
                    return Err(err);
                },
            };
            ci.enums.push(e);
            proof {
                lemma_def_placed_stable(
                    ci.decls@,
                    defs,
                    dlen,
                    enums0,
                    ci.records@,
                    ci.objects@,
                    ci.errors@,
                    ci.callback_interfaces@,
                    ci.enums@,
                    ci.records@,
                    ci.objects@,
                    ci.errors@,
                    ci.callback_interfaces@,
                );
                assert(ci.enums@[base + i as int] == e);
                assert forall|k: int| 0 <= k < i + 1 implies source_enum_matches(
                    ci.decls@,
                    ses[k],
                    #[trigger] ci.enums@[base + k],
                ) by {
                    if k < i {
                        assert(source_enum_matches(ci.decls@, ses[k], enums0[base + k]));
                        assert(ci.enums@[base + k] == enums0[base + k]);
                    }
                }
            }
            i += 1;
        }
        proof {
            assert(build_ok(defs, ses));
        }
        Ok(ci)
    }

    /// Builds a component interface from interface-definition source text
    /// alone: parse, then the two-pass build.
    pub fn from_webidl(idl: &str) -> (r: Result<ComponentInterface, BuildError>)
        ensures
            r matches Ok(ci) ==> ci.wf(),
    {
        let defs = match crate::udl::parse_udl(idl) {
            Ok(defs) => defs,
            Err(e) => {
                return Err(e);
            },
        };
        let none: Vec<SourceEnum> = Vec::new();
        ComponentInterface::from_parts(&defs, &none)
    }
}

} // verus!
