use uniffi_bindgen::ci::ComponentInterface;
use uniffi_bindgen::source::{SourceEnum, SourceVariant, SourceFields, SourceField};
use uniffi_bindgen::types::{Type, FFIType, BuildError, TypeExpr, Literal};

#[test]
fn dictionary_fields_keep_defaults_and_required_marks() {
    const UDL: &str = r#"
        namespace test {};
        dictionary Settings {
            u32 retries = 4;
            string label = "none";
            boolean verbose = true;
            required i64 offset;
        };
    "#;
    let ci = ComponentInterface::from_webidl(UDL).unwrap();
    let r = ci.get_record_definition("Settings").unwrap();
    let fields = r.fields();
    assert!(matches!(fields[0].default, Some(Literal::UInt(4))));
    assert!(matches!(&fields[1].default, Some(Literal::Str(s)) if s == "none"));
    assert!(matches!(fields[2].default, Some(Literal::Boolean(true))));
    assert!(fields[3].default.is_none());
    assert!(fields[3].required);
    assert!(!fields[0].required);
}

#[test]
fn enum_variant_argument_attributes_fail_as_unsupported() {
    const UDL: &str = r#"
        namespace test {};
        [Enum]
        interface Shape {
            Holds([ByRef] u32 size);
        };
    "#;
    let err = ComponentInterface::from_webidl(UDL).unwrap_err();
    assert!(matches!(err, BuildError::UnsupportedConstruct(_)));
}

#[test]
fn object_in_enum_variant_data_fails_structurally() {
    const UDL: &str = r#"
        namespace test {};
        interface Obj {};
        [Enum]
        interface Shape {
            Holds(Obj o);
        };
    "#;
    let err = ComponentInterface::from_webidl(UDL).unwrap_err();
    assert!(matches!(err, BuildError::StructuralConstraint(_)));
}

#[test]
fn variadic_enum_variant_argument_fails_as_unsupported() {
    const UDL: &str = r#"
        namespace test {};
        [Enum]
        interface Shape {
            Holds(u32... sizes);
        };
    "#;
    let err = ComponentInterface::from_webidl(UDL).unwrap_err();
    assert!(matches!(err, BuildError::UnsupportedConstruct(_)));
}

#[test]
fn object_typed_field_outranks_its_default_value() {
    // The field's type is resolved before its default is judged, so an
    // object-typed field that also carries a default fails structurally.
    const UDL: &str = r#"
        namespace test {};
        interface Obj {};
        [Enum]
        interface Shape {
            Holds(Obj o = 4);
        };
    "#;
    let err = ComponentInterface::from_webidl(UDL).unwrap_err();
    assert!(matches!(err, BuildError::StructuralConstraint(_)));
}

#[test]
fn enum_variant_default_value_fails_as_unsupported() {
    const UDL: &str = r#"
        namespace test {};
        [Enum]
        interface Shape {
            Holds(u32 size = 4);
        };
    "#;
    let err = ComponentInterface::from_webidl(UDL).unwrap_err();
    assert!(matches!(err, BuildError::UnsupportedConstruct(_)));
}

#[test]
fn enum_interface_inheritance_fails_structurally() {
    const UDL: &str = r#"
        namespace test {};
        [Enum]
        interface Shape : Base {
            Zero();
        };
    "#;
    let err = ComponentInterface::from_webidl(UDL).unwrap_err();
    assert!(matches!(err, BuildError::StructuralConstraint(_)));
}

#[test]
fn unknown_type_name_fails_as_resolution_error() {
    const UDL: &str = r#"
        namespace test {
            void f(Missing m);
        };
    "#;
    let err = ComponentInterface::from_webidl(UDL).unwrap_err();
    assert!(matches!(err, BuildError::Resolution(_)));
}

#[test]
fn duplicate_definition_name_fails() {
    const UDL: &str = r#"
        namespace test {};
        enum Thing { "a" };
        dictionary Thing { u32 x; };
    "#;
    let err = ComponentInterface::from_webidl(UDL).unwrap_err();
    assert!(matches!(err, BuildError::StructuralConstraint(_)));
    assert_eq!(err.detail(), "Thing");
}

#[test]
fn malformed_source_fails_with_syntax_error() {
    let err = ComponentInterface::from_webidl("namespace test {").unwrap_err();
    assert!(matches!(err, BuildError::Syntax(_)));
    let err = ComponentInterface::from_webidl("enum E ###").unwrap_err();
    assert!(matches!(err, BuildError::Syntax(_)));
}

#[test]
fn structural_types_resolve_through_the_registry() {
    const UDL: &str = r#"
        namespace test {};
        dictionary Extras {
            string? note;
            sequence<u32> sizes;
            record<string, i64> counters;
            required boolean ready;
        };
    "#;
    let ci = ComponentInterface::from_webidl(UDL).unwrap();
    let r = ci.get_record_definition("Extras").unwrap();
    let fields = r.fields();
    assert_eq!(fields.len(), 4);
    assert_eq!(fields[0].name(), "note");
    assert_eq!(fields[0].type_(), Type::Optional(Box::new(Type::String)));
    assert_eq!(fields[1].type_(), Type::Sequence(Box::new(Type::UInt32)));
    assert_eq!(
        fields[2].type_(),
        Type::Mapping(Box::new(Type::String), Box::new(Type::Int64))
    );
    assert_eq!(fields[3].type_(), Type::Boolean);
}

#[test]
fn boundary_representations_follow_the_fixed_policy() {
    const UDL: &str = r#"
        namespace test {
            u32 scalar(boolean b, f64 x);
            string text(Obj o, CB cb, Extras e);
        };
        interface Obj {};
        callback interface CB {};
        dictionary Extras { u32 x; };
    "#;
    let ci = ComponentInterface::from_webidl(UDL).unwrap();
    let f = ci.get_function_definition("scalar").unwrap();
    assert_eq!(f.ffi_func().arguments()[0].type_(), FFIType::Int8);
    assert_eq!(f.ffi_func().arguments()[1].type_(), FFIType::Float64);
    assert!(matches!(f.ffi_func().return_type(), Some(FFIType::UInt32)));
    let g = ci.get_function_definition("text").unwrap();
    assert_eq!(g.ffi_func().arguments()[0].type_(), FFIType::ObjectHandle);
    assert_eq!(g.ffi_func().arguments()[1].type_(), FFIType::ObjectHandle);
    assert_eq!(g.ffi_func().arguments()[2].type_(), FFIType::RustBuffer);
    assert!(matches!(g.ffi_func().return_type(), Some(FFIType::RustBuffer)));
    assert_eq!(g.ffi_func().name(), "text");
    assert_eq!(g.ffi_func().arguments()[0].name(), "o");
}

#[test]
fn contains_unsigned_types_sees_through_nesting() {
    const UDL: &str = r#"
        namespace test {};
        dictionary Holder { sequence<u64> xs; };
        [Enum]
        interface Direct { A(u32 n); };
        [Enum]
        interface Nested { A(Holder h); };
        [Enum]
        interface Clean { A(string s); B(i32 n); };
        enum Flat { "a", "b" };
    "#;
    let ci = ComponentInterface::from_webidl(UDL).unwrap();
    let direct = ci.get_enum_definition("Direct").unwrap();
    assert!(direct.contains_unsigned_types(&ci));
    let nested = ci.get_enum_definition("Nested").unwrap();
    assert!(nested.contains_unsigned_types(&ci));
    let clean = ci.get_enum_definition("Clean").unwrap();
    assert!(!clean.contains_unsigned_types(&ci));
    let flat = ci.get_enum_definition("Flat").unwrap();
    assert!(!flat.contains_unsigned_types(&ci));
    assert!(ci.type_contains_unsigned_types(&Type::Optional(Box::new(Type::UInt8))));
    assert!(!ci.type_contains_unsigned_types(&Type::Int64));
}

#[test]
fn contains_object_references_sees_through_records() {
    const UDL: &str = r#"
        namespace test {};
        interface Obj {};
        dictionary Holder { Obj o; };
        [Enum]
        interface Touches { A(Holder h); };
        [Enum]
        interface Clean { A(u32 n); };
    "#;
    let ci = ComponentInterface::from_webidl(UDL).unwrap();
    let touches = ci.get_enum_definition("Touches").unwrap();
    assert!(touches.contains_object_references(&ci));
    let clean = ci.get_enum_definition("Clean").unwrap();
    assert!(!clean.contains_object_references(&ci));
    assert!(ci.type_contains_object_references(&Type::Sequence(Box::new(Type::Object(
        "Obj".into()
    )))));
}

#[test]
fn error_and_callback_definitions_are_registered() {
    const UDL: &str = r#"
        namespace test {};
        [Error]
        enum Failure { "NotFound", "Broken" };
        callback interface Watcher {};
    "#;
    let ci = ComponentInterface::from_webidl(UDL).unwrap();
    let e = ci.get_error_definition("Failure").unwrap();
    assert_eq!(e.name(), "Failure");
    assert_eq!(e.values(), vec!["NotFound", "Broken"]);
    assert!(ci.get_callback_interface_definition("Watcher").is_some());
    assert!(ci.get_enum_definition("Failure").is_none());
    assert_eq!(ci.namespace(), "test");
    assert_eq!(ci.iter_error_definitions().len(), 1);
    assert_eq!(ci.iter_callback_interface_definitions().len(), 1);
    assert_eq!(ci.iter_enum_definitions().len(), 0);
}

#[test]
fn objects_and_records_are_registered_in_order() {
    const UDL: &str = r#"
        namespace test {};
        interface First {};
        interface Second {};
        dictionary Data { u32 x; };
    "#;
    let ci = ComponentInterface::from_webidl(UDL).unwrap();
    let objects = ci.iter_object_definitions();
    assert_eq!(objects.len(), 2);
    assert_eq!(objects[0].name(), "First");
    assert_eq!(objects[1].name(), "Second");
    assert_eq!(ci.iter_record_definitions().len(), 1);
    assert!(ci.get_object_definition("Second").is_some());
    assert!(ci.get_object_definition("Third").is_none());
}

fn unit_variant(name: &str) -> SourceVariant {
    SourceVariant {
        name: name.to_string(),
        has_discriminant: false,
        fields: SourceFields::Unit,
        docs: Vec::new(),
    }
}

#[test]
fn source_enum_with_discriminant_fails_as_unsupported() {
    let bad = SourceEnum {
        name: "Numbered".to_string(),
        variants: vec![SourceVariant {
            name: "A".to_string(),
            has_discriminant: true,
            fields: SourceFields::Unit,
            docs: Vec::new(),
        }],
        docs: Vec::new(),
    };
    let err = ComponentInterface::from_parts(&Vec::new(), &vec![bad]).unwrap_err();
    assert!(matches!(err, BuildError::UnsupportedConstruct(_)));
}

#[test]
fn source_enum_with_positional_fields_fails_as_unsupported() {
    let bad = SourceEnum {
        name: "Tupled".to_string(),
        variants: vec![SourceVariant {
            name: "A".to_string(),
            has_discriminant: false,
            fields: SourceFields::Unnamed,
            docs: Vec::new(),
        }],
        docs: Vec::new(),
    };
    let err = ComponentInterface::from_parts(&Vec::new(), &vec![bad]).unwrap_err();
    assert!(matches!(err, BuildError::UnsupportedConstruct(_)));
}

#[test]
fn source_enums_convert_with_derived_flatness_and_docs() {
    let with_data = SourceEnum {
        name: "Status".to_string(),
        variants: vec![
            unit_variant("Idle"),
            SourceVariant {
                name: "Busy".to_string(),
                has_discriminant: false,
                fields: SourceFields::Named(vec![SourceField {
                    name: "count".to_string(),
                    type_: TypeExpr::Named("u32".to_string()),
                    docs: Vec::new(),
                }]),
                docs: vec!["The busy case.".to_string()],
            },
        ],
        docs: vec!["A status.".to_string()],
    };
    let plain = SourceEnum {
        name: "Toggle".to_string(),
        variants: vec![unit_variant("On"), unit_variant("Off")],
        docs: Vec::new(),
    };
    let ci = ComponentInterface::from_parts(&Vec::new(), &vec![with_data, plain]).unwrap();
    let status = ci.get_enum_definition("Status").unwrap();
    assert!(!status.is_flat());
    assert!(status.variants()[1].has_fields());
    assert!(!status.variants()[0].has_fields());
    assert_eq!(status.variants()[1].fields()[0].name(), "count");
    assert_eq!(status.variants()[1].fields()[0].type_(), Type::UInt32);
    assert_eq!(status.variants()[1].docs(), vec!["The busy case."]);
    assert_eq!(status.docs(), vec!["A status."]);
    assert!(status.contains_unsigned_types(&ci));
    let toggle = ci.get_enum_definition("Toggle").unwrap();
    assert!(toggle.is_flat());
    assert!(!toggle.contains_unsigned_types(&ci));
}

#[test]
fn source_enum_can_reference_idl_declarations() {
    const UDL: &str = r#"
        namespace test {};
        dictionary Payload { string body; };
    "#;
    let defs_enum = SourceEnum {
        name: "Message".to_string(),
        variants: vec![SourceVariant {
            name: "Full".to_string(),
            has_discriminant: false,
            fields: SourceFields::Named(vec![SourceField {
                name: "payload".to_string(),
                type_: TypeExpr::Named("Payload".to_string()),
                docs: Vec::new(),
            }]),
            docs: Vec::new(),
        }],
        docs: Vec::new(),
    };
    let parsed = uniffi_bindgen::udl::parse_udl(UDL).unwrap();
    let ci = ComponentInterface::from_parts(&parsed, &vec![defs_enum]).unwrap();
    let m = ci.get_enum_definition("Message").unwrap();
    assert_eq!(
        m.variants()[0].fields()[0].type_(),
        Type::Record("Payload".into())
    );
}
