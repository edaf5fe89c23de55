//! The annotated-source front end: native declarations discovered in
//! annotated source, given here as plain values, and their conversion into
//! validated enum definitions. Unit variants become zero-field variants;
//! variants with unnamed positional fields, and variants with an explicit
//! discriminant value, are rejected.

use vstd::prelude::*;
use crate::text::clone_strings;
use crate::types::{Type, TypeExpr, BuildError};
use crate::model::{Field, Variant, Enum, all_fieldless, enum_fields_ok, lemma_all_fieldless_push};
use crate::ci::{ComponentInterface, resolves_to, resolvable, expr_is_object, lemma_resolved_object};

verus! {

/// One named field of a native enum variant.
#[derive(Debug)]
pub struct SourceField {
    pub name: String,
    pub type_: TypeExpr,
    pub docs: Vec<String>,
}

/// The fields of one native enum variant: none, unnamed positional ones,
/// or named ones.
#[derive(Debug)]
pub enum SourceFields {
    Unit,
    Unnamed,
    Named(Vec<SourceField>),
}

/// One variant of a native enum declaration.
#[derive(Debug)]
pub struct SourceVariant {
    pub name: String,
    pub has_discriminant: bool,
    pub fields: SourceFields,
    pub docs: Vec<String>,
}

/// One native enum declaration, as the annotated-source front end found it.
#[derive(Debug)]
pub struct SourceEnum {
    pub name: String,
    pub variants: Vec<SourceVariant>,
    pub docs: Vec<String>,
}

/// A native field is acceptable as a variant field: its type resolves and
/// is no object.
pub open spec fn source_field_ok(decls: Seq<crate::ci::Decl>, f: SourceField) -> bool {
    &&& resolvable(decls, f.type_)
    &&& !expr_is_object(decls, f.type_)
}

/// The produced field carries the native field's name, resolved type and
/// documentation; it is never an object, never required, never defaulted.
pub open spec fn source_field_matches(decls: Seq<crate::ci::Decl>, sf: SourceField, f: Field) -> bool {
    &&& f.name@ == sf.name@
    &&& resolves_to(decls, sf.type_, f.type_)
    &&& !(f.type_ is Object)
    &&& f.required == false
    &&& f.default is None
    &&& f.docs@ == sf.docs@
}

/// A native variant is acceptable: no explicit discriminant, and unit or
/// named fields only, each acceptable.
pub open spec fn source_variant_ok(decls: Seq<crate::ci::Decl>, v: SourceVariant) -> bool {
    &&& !v.has_discriminant
    &&& match v.fields {
        SourceFields::Unit => true,
        SourceFields::Unnamed => false,
        SourceFields::Named(fs) => forall|i: int|
            0 <= i < fs@.len() ==> source_field_ok(decls, #[trigger] fs@[i]),
    }
}

/// The produced variant carries the native variant's name, documentation
/// and converted fields, in order.
pub open spec fn source_variant_matches(
    decls: Seq<crate::ci::Decl>,
    sv: SourceVariant,
    v: Variant,
) -> bool {
    &&& v.name@ == sv.name@
    &&& v.docs@ == sv.docs@
    &&& match sv.fields {
        SourceFields::Unit => v.fields@.len() == 0,
        SourceFields::Unnamed => false,
        SourceFields::Named(fs) => v.fields@.len() == fs@.len() && forall|i: int|
            0 <= i < fs@.len() ==> source_field_matches(decls, fs@[i], #[trigger] v.fields@[i]),
    }
}

/// The class of the error a rejected native field raises: an unresolvable
/// type first, then an object type.
pub open spec fn source_field_error_is(decls: Seq<crate::ci::Decl>, sf: SourceField, e: BuildError) -> bool {
    if !resolvable(decls, sf.type_) {
        e is Resolution
    } else if expr_is_object(decls, sf.type_) {
        e is StructuralConstraint
    } else {
        false
    }
}

/// Converts one named native field into a variant field. Fails with a
/// resolution error when the type name is unknown, and with a structural
/// error when the type is an object.
pub fn convert_source_field(ci: &ComponentInterface, sf: &SourceField) -> (r: Result<
    Field,
    BuildError,
>)
    ensures
        r is Ok <==> source_field_ok(ci.decls@, *sf),
        r matches Ok(f) ==> source_field_matches(ci.decls@, *sf, f),
        r matches Err(e) ==> source_field_error_is(ci.decls@, *sf, e),
{
    let type_ = match ci.resolve_type_expression(&sf.type_) {
        Ok(t) => t,
        Err(e) => {
            return Err(e);
        },
    };
    proof {
        lemma_resolved_object(ci.decls@, sf.type_, type_);
    }
    if matches!(&type_, Type::Object(_)) {
        return Err(
            BuildError::StructuralConstraint(
                "objects cannot be used in enum variant data".to_owned(),
            ),
        );
    }
    Ok(
        Field {
            name: sf.name.clone(),
            type_,
            required: false,
            default: None,
            docs: clone_strings(&sf.docs),
        },
    )
}

/// The class of the error a rejected native variant raises, in the order
/// the checks run: an explicit discriminant first, then unnamed positional
/// fields, then the error of the first unacceptable named field.
pub open spec fn source_variant_error_is(
    decls: Seq<crate::ci::Decl>,
    sv: SourceVariant,
    e: BuildError,
) -> bool {
    if sv.has_discriminant {
        e is UnsupportedConstruct
    } else {
        match sv.fields {
            SourceFields::Unit => false,
            SourceFields::Unnamed => e is UnsupportedConstruct,
            SourceFields::Named(fs) => exists|k: int|
                0 <= k < fs@.len() && !source_field_ok(decls, #[trigger] fs@[k]) && (forall|j: int|
                    0 <= j < k ==> source_field_ok(decls, fs@[j])) && source_field_error_is(
                    decls,
                    fs@[k],
                    e,
                ),
        }
    }
}

/// Converts one native variant. An explicit discriminant and unnamed
/// positional fields are unsupported constructs; otherwise the first
/// unacceptable field decides the error.
pub fn convert_source_variant(ci: &ComponentInterface, sv: &SourceVariant) -> (r: Result<
    Variant,
    BuildError,
>)
    ensures
        r is Ok <==> source_variant_ok(ci.decls@, *sv),
        r matches Ok(v) ==> source_variant_matches(ci.decls@, *sv, v),
        r matches Err(e) ==> source_variant_error_is(ci.decls@, *sv, e),
{
    if sv.has_discriminant {
        return Err(
            BuildError::UnsupportedConstruct("explicit enum discriminants are not supported".to_owned()),
        );
    }
    match &sv.fields {
        SourceFields::Unit => Ok(
            Variant { name: sv.name.clone(), fields: Vec::new(), docs: clone_strings(&sv.docs) },
        ),
        SourceFields::Unnamed => Err(
            BuildError::UnsupportedConstruct("enum variants can only have named fields".to_owned()),
        ),
        SourceFields::Named(fs) => {
            let mut fields: Vec<Field> = Vec::new();
            let mut i: usize = 0;
            while i < fs.len()
                invariant
                    i <= fs@.len(),
                    fields@.len() == i,
                    !sv.has_discriminant,
                    sv.fields matches SourceFields::Named(fs2) && fs2 == *fs,
                    forall|j: int| 0 <= j < i ==> source_field_ok(ci.decls@, #[trigger] fs@[j]),
                    forall|j: int|
                        0 <= j < i ==> source_field_matches(
                            ci.decls@,
                            fs@[j],
                            #[trigger] fields@[j],
                        ),
                decreases fs@.len() - i,
            {
                let f = convert_source_field(ci, &fs[i])?;
                proof {
                    assert(source_field_ok(ci.decls@, fs@[i as int]));
                    assert(source_field_matches(ci.decls@, fs@[i as int], f));
                }
                fields.push(f);
                i += 1;
            }
            Ok(Variant { name: sv.name.clone(), fields, docs: clone_strings(&sv.docs) })
        },
    }
}

/// A native enum is acceptable when each of its variants is.
pub open spec fn source_enum_ok(decls: Seq<crate::ci::Decl>, se: SourceEnum) -> bool {
    forall|i: int| 0 <= i < se.variants@.len() ==> source_variant_ok(decls, #[trigger] se.variants@[i])
}

/// The produced enum carries the native enum's name and documentation and
/// its converted variants, in order, with the `flat` flag derived.
pub open spec fn source_enum_matches(decls: Seq<crate::ci::Decl>, se: SourceEnum, e: Enum) -> bool {
    &&& e.name@ == se.name@
    &&& e.docs@ == se.docs@
    &&& e.variants@.len() == se.variants@.len()
    &&& forall|i: int|
        0 <= i < se.variants@.len() ==> source_variant_matches(
            decls,
            se.variants@[i],
            #[trigger] e.variants@[i],
        )
}

/// The class of the error a rejected native enum raises: the error of the
/// first variant that does not convert.
pub open spec fn source_enum_error_is(decls: Seq<crate::ci::Decl>, se: SourceEnum, e: BuildError) -> bool {
    exists|k: int|
        0 <= k < se.variants@.len() && !source_variant_ok(decls, #[trigger] se.variants@[k]) && (
        forall|j: int| 0 <= j < k ==> source_variant_ok(decls, se.variants@[j]))
            && source_variant_error_is(decls, se.variants@[k], e)
}

/// Converts one native enum declaration into an enum definition; the
/// `flat` flag is computed from the converted variants. The first variant
/// that does not convert decides the error.
pub fn convert_source_enum(ci: &ComponentInterface, se: &SourceEnum) -> (r: Result<
    Enum,
    BuildError,
>)
    ensures
        r is Ok <==> source_enum_ok(ci.decls@, *se),
        r matches Ok(e) ==> source_enum_matches(ci.decls@, *se, e) && e.wf() && enum_fields_ok(e),
        r matches Err(e) ==> source_enum_error_is(ci.decls@, *se, e),
{
    let mut variants: Vec<Variant> = Vec::new();
    let mut flat = true;
    let mut i: usize = 0;
    while i < se.variants.len()
        invariant
            i <= se.variants@.len(),
            variants@.len() == i,
            forall|j: int|
                0 <= j < i ==> source_variant_ok(ci.decls@, #[trigger] se.variants@[j]),
            forall|j: int|
                0 <= j < i ==> source_variant_matches(
                    ci.decls@,
                    se.variants@[j],
                    #[trigger] variants@[j],
                ),
            flat <==> all_fieldless(variants@),
        decreases se.variants@.len() - i,
    {
        let v = convert_source_variant(ci, &se.variants[i])?;
        if v.fields.len() != 0 {
            flat = false;
        }
        proof {
            lemma_all_fieldless_push(variants@, v);
        }
        variants.push(v);
        i += 1;
    }
    let e = Enum { name: se.name.clone(), variants, flat, docs: clone_strings(&se.docs) };
    proof {
        assert forall|vi: int, fi: int|
            0 <= vi < e.variants@.len() && 0 <= fi < e.variants@[vi].fields@.len() implies {
            let f = #[trigger] e.variants@[vi].fields@[fi];
            &&& !(f.type_ is Object)
            &&& f.required == false
            &&& f.default is None
        } by {
            assert(source_variant_matches(ci.decls@, se.variants@[vi], e.variants@[vi]));
            match se.variants@[vi].fields {
                SourceFields::Named(fs) => {
                    assert(source_field_matches(ci.decls@, fs@[fi], e.variants@[vi].fields@[fi]));
                },
                _ => {},
            }
        }
    }
    Ok(e)
}

} // verus!
