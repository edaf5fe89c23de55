//! Library-wide laws, stated and proved over the model.

use vstd::prelude::*;
use crate::types::{Type, FFIType, spec_ffi_type};
use crate::model::{Enum, Function, ffi_derived, enum_fields_ok};
use crate::ci::ComponentInterface;

verus! {

/// For any well-formed enum, the flat flag is true exactly when every
/// variant has zero fields, and false exactly when at least one variant
/// has a field.
pub proof fn law_flat_iff_fieldless(e: &Enum)
    requires
        e.wf(),
    ensures
        e.flat <==> (forall|i: int|
            0 <= i < e.variants@.len() ==> (#[trigger] e.variants@[i]).fields@.len() == 0),
        !e.flat <==> (exists|i: int|
            0 <= i < e.variants@.len() && (#[trigger] e.variants@[i]).fields@.len() > 0),
{
}

/// An enum type crosses the foreign-function boundary as a serialized
/// buffer, never as a bare scalar — whatever its flat flag says.
pub proof fn law_enum_crosses_as_buffer(t: Type)
    requires
        t is Enum,
    ensures
        spec_ffi_type(t) == FFIType::RustBuffer,
{
}

/// In a function whose boundary descriptor the fixed policy derived, every
/// argument slot whose declared type is an enum, and an enum-typed return
/// slot, carries the serialized-buffer representation.
pub proof fn law_function_enum_slots_are_buffers(f: &Function)
    requires
        ffi_derived(*f),
    ensures
        forall|i: int|
            0 <= i < f.arguments@.len() && (#[trigger] f.arguments@[i]).type_ is Enum
                ==> f.ffi_func.arguments@[i].type_ == FFIType::RustBuffer,
        (f.return_type matches Some(t) && t is Enum) ==> f.ffi_func.return_type == Some(
            FFIType::RustBuffer,
        ),
{
}

/// In a finished component interface, every function's enum-typed argument
/// and return slots cross as serialized buffers.
pub proof fn law_interface_enum_slots_are_buffers(ci: &ComponentInterface)
    requires
        ci.wf(),
    ensures
        forall|k: int, i: int|
            0 <= k < ci.functions@.len() && 0 <= i < ci.functions@[k].arguments@.len() && (
            #[trigger] ci.functions@[k].arguments@[i]).type_ is Enum ==> ci.functions@[
                k
            ].ffi_func.arguments@[i].type_ == FFIType::RustBuffer,
        forall|k: int|
            0 <= k < ci.functions@.len() && ((#[trigger] ci.functions@[k]).return_type matches Some(
                t,
            ) && t is Enum) ==> ci.functions@[k].ffi_func.return_type == Some(FFIType::RustBuffer),
{
    assert forall|k: int, i: int|
        0 <= k < ci.functions@.len() && 0 <= i < ci.functions@[k].arguments@.len() && (
        #[trigger] ci.functions@[k].arguments@[i]).type_ is Enum implies ci.functions@[
        k
    ].ffi_func.arguments@[i].type_ == FFIType::RustBuffer by {
        assert(ffi_derived(ci.functions@[k]));
    }
    assert forall|k: int|
        0 <= k < ci.functions@.len() && ((#[trigger] ci.functions@[k]).return_type matches Some(t)
            && t is Enum) implies ci.functions@[k].ffi_func.return_type == Some(
        FFIType::RustBuffer,
    ) by {
        assert(ffi_derived(ci.functions@[k]));
    }
}

/// A finished component interface holds no enum whose variant data
/// includes an object type; such input never builds.
pub proof fn law_no_objects_in_enum_variant_data(ci: &ComponentInterface)
    requires
        ci.wf(),
    ensures
        forall|i: int, vi: int, fi: int|
            0 <= i < ci.enums@.len() && 0 <= vi < ci.enums@[i].variants@.len() && 0 <= fi
                < ci.enums@[i].variants@[vi].fields@.len() ==> !((
            #[trigger] ci.enums@[i].variants@[vi].fields@[fi]).type_ is Object),
{
    assert forall|i: int, vi: int, fi: int|
        0 <= i < ci.enums@.len() && 0 <= vi < ci.enums@[i].variants@.len() && 0 <= fi < ci.enums@[
        i
    ].variants@[vi].fields@.len() implies !((
    #[trigger] ci.enums@[i].variants@[vi].fields@[fi]).type_ is Object) by {
        assert(enum_fields_ok(ci.enums@[i]));
    }
}

/// A flat, well-formed enum carries no variant data at all, so none of its
/// variant data contains an unsigned integer type.
pub proof fn law_flat_enum_contains_no_unsigned(e: &Enum, ci: &ComponentInterface)
    requires
        e.wf(),
        e.flat,
    ensures
        !(exists|vi: int, fi: int|
            0 <= vi < e.variants@.len() && 0 <= fi < e.variants@[vi].fields@.len()
                && crate::ci::spec_type_contains_unsigned(
                *ci,
                (#[trigger] e.variants@[vi].fields@[fi]).type_,
            )),
{
    assert forall|vi: int| 0 <= vi < e.variants@.len() implies (#[trigger] e.variants@[
        vi
    ]).fields@.len() == 0 by {
        assert(crate::model::all_fieldless(e.variants@));
    }
}

} // verus!
