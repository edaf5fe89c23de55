use uniffi_bindgen::ci::ComponentInterface;
use uniffi_bindgen::types::{Type, FFIType};

#[test]
fn test_duplicate_variants() {
    const UDL: &str = r#"
        namespace test{};
        // Weird, but currently allowed!
        // We should probably disallow this...
        enum Testing { "one", "two", "one" };
    "#;
    let ci = ComponentInterface::from_webidl(UDL).unwrap();
    assert_eq!(ci.iter_enum_definitions().len(), 1);
    assert_eq!(
        ci.get_enum_definition("Testing").unwrap().variants().len(),
        3
    );
}

#[test]
fn test_associated_data() {
    const UDL: &str = r##"
        namespace test {
            void takes_an_enum(TestEnum e);
            void takes_an_enum_with_data(TestEnumWithData ed);
            TestEnum returns_an_enum();
            TestEnumWithData returns_an_enum_with_data();
        };

        enum TestEnum { "one", "two" };

        [Enum]
        interface TestEnumWithData {
            Zero();
            One(u32 first);
            Two(u32 first, string second);
        };

        [Enum]
        interface TestEnumWithoutData {
            One();
            Two();
        };
    "##;
    let ci = ComponentInterface::from_webidl(UDL).unwrap();
    assert_eq!(ci.iter_enum_definitions().len(), 3);
    assert_eq!(ci.iter_function_definitions().len(), 4);

    // The "flat" enum with no associated data.
    let e = ci.get_enum_definition("TestEnum").unwrap();
    assert!(e.is_flat());
    assert_eq!(e.variants().len(), 2);
    assert_eq!(
        e.variants().iter().map(|v| v.name()).collect::<Vec<_>>(),
        vec!["one", "two"]
    );
    assert_eq!(e.variants()[0].fields().len(), 0);
    assert_eq!(e.variants()[1].fields().len(), 0);

    // The enum with associated data.
    let ed = ci.get_enum_definition("TestEnumWithData").unwrap();
    assert!(!ed.is_flat());
    assert_eq!(ed.variants().len(), 3);
    assert_eq!(
        ed.variants().iter().map(|v| v.name()).collect::<Vec<_>>(),
        vec!["Zero", "One", "Two"]
    );
    assert_eq!(ed.variants()[0].fields().len(), 0);
    assert_eq!(
        ed.variants()[1]
            .fields()
            .iter()
            .map(|f| f.name())
            .collect::<Vec<_>>(),
        vec!["first"]
    );
    assert_eq!(
        ed.variants()[1]
            .fields()
            .iter()
            .map(|f| f.type_())
            .collect::<Vec<_>>(),
        vec![Type::UInt32]
    );
    assert_eq!(
        ed.variants()[2]
            .fields()
            .iter()
            .map(|f| f.name())
            .collect::<Vec<_>>(),
        vec!["first", "second"]
    );
    assert_eq!(
        ed.variants()[2]
            .fields()
            .iter()
            .map(|f| f.type_())
            .collect::<Vec<_>>(),
        vec![Type::UInt32, Type::String]
    );

    // The enum declared via an interface, but with no associated data.
    // The flat flag is derived from the variants, so it is set here.
    let ewd = ci.get_enum_definition("TestEnumWithoutData").unwrap();
    assert!(ewd.is_flat());
    assert_eq!(ewd.variants().len(), 2);
    assert_eq!(
        ewd.variants().iter().map(|v| v.name()).collect::<Vec<_>>(),
        vec!["One", "Two"]
    );
    assert_eq!(ewd.variants()[0].fields().len(), 0);
    assert_eq!(ewd.variants()[1].fields().len(), 0);

    // Flat enums pass over the FFI as bytebuffers.
    let farg = ci.get_function_definition("takes_an_enum").unwrap();
    assert_eq!(farg.arguments()[0].type_(), Type::Enum("TestEnum".into()));
    assert_eq!(farg.ffi_func().arguments()[0].type_(), FFIType::RustBuffer);
    let fret = ci.get_function_definition("returns_an_enum").unwrap();
    assert!(matches!(fret.return_type(), Some(Type::Enum(nm)) if nm == "TestEnum"));
    assert!(matches!(
        fret.ffi_func().return_type(),
        Some(FFIType::RustBuffer)
    ));

    // Enums with associated data pass over the FFI as bytebuffers.
    let farg = ci
        .get_function_definition("takes_an_enum_with_data")
        .unwrap();
    assert_eq!(
        farg.arguments()[0].type_(),
        Type::Enum("TestEnumWithData".into())
    );
    assert_eq!(farg.ffi_func().arguments()[0].type_(), FFIType::RustBuffer);
    let fret = ci
        .get_function_definition("returns_an_enum_with_data")
        .unwrap();
    assert!(matches!(fret.return_type(), Some(Type::Enum(nm)) if nm == "TestEnumWithData"));
    assert!(matches!(
        fret.ffi_func().return_type(),
        Some(FFIType::RustBuffer)
    ));
}
