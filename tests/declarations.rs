use openapi_alors::generate::impls::{sanitize, Error};
use openapi_alors::generate::types::{
    ContainerAttributes, DataEnumFields, DataEnumVariant, FieldAttributes, FieldName,
    PlainEnumVariant, RustType, StructField, TypeIdent, TypeName, VariantAttributes,
};

fn type_ident(s: &str) -> TypeIdent {
    TypeIdent::try_from(s).expect("a valid type identifier")
}

fn field_name(s: &str) -> FieldName {
    FieldName::try_from(s).expect("a valid field name")
}

fn type_expr(s: &str) -> TypeName {
    TypeName::try_from(s).expect("a valid type")
}

fn field(name: &str, ty: &str) -> StructField {
    StructField {
        name: field_name(name),
        attributes: FieldAttributes { rename: None },
        field_type: type_expr(ty),
        optional: false,
    }
}

#[test]
fn simple_struct() {
    let schemas = vec![RustType::Struct {
        name: type_ident("Foo"),
        fields: vec![field("one", "String"), field("two", "std::path::PathBuf")],
        attributes: ContainerAttributes { rename: None, untagged: false },
    }];
    assert_eq!(schemas[0].name(), "Foo");
    match &schemas[0] {
        RustType::Struct { fields, .. } => {
            assert_eq!(fields[0].name.ident, "one");
            assert_eq!(fields[0].field_type.ident, "String");
            assert_eq!(fields[1].name.ident, "two");
            assert_eq!(fields[1].field_type.ident, "std::path::PathBuf");
        }
        _ => unreachable!(),
    }
}

#[test]
fn plain_enum() {
    let schemas = vec![RustType::PlainEnum {
        name: type_ident("Foo"),
        variants: vec![PlainEnumVariant {
            name: type_ident("Bar"),
            attributes: VariantAttributes { rename: None },
        }],
        attributes: ContainerAttributes { rename: None, untagged: false },
    }];
    assert_eq!(schemas[0].name(), "Foo");
    match &schemas[0] {
        RustType::PlainEnum { variants, .. } => assert_eq!(variants[0].name.ident, "Bar"),
        _ => unreachable!(),
    }
}

#[test]
fn data_enum() {
    let schemas = vec![RustType::DataEnum {
        name: type_ident("Foo"),
        variants: vec![
            DataEnumVariant {
                name: type_ident("Bar"),
                attributes: VariantAttributes { rename: None },
                fields: DataEnumFields::Named {
                    fields: vec![field("one", "String"), field("two", "std::path::PathBuf")],
                },
            },
            DataEnumVariant {
                name: type_ident("Baz"),
                attributes: VariantAttributes { rename: None },
                fields: DataEnumFields::Unnamed {
                    fields: vec![type_expr("std::borrow::Cow<'static, str>")],
                },
            },
        ],
        attributes: ContainerAttributes { rename: None, untagged: false },
    }];
    assert_eq!(schemas[0].name(), "Foo");
    match &schemas[0] {
        RustType::DataEnum { variants, .. } => {
            assert_eq!(variants.len(), 2);
            match &variants[1].fields {
                DataEnumFields::Unnamed { fields } => {
                    assert_eq!(fields[0].ident, "std::borrow::Cow<'static, str>")
                }
                _ => panic!("expected unnamed fields"),
            }
        }
        _ => unreachable!(),
    }
}

#[test]
fn type_identifiers_are_camel_cased() {
    let t = type_ident("pet_store/order@v2");
    assert_eq!(t.raw, "pet_store/order@v2");
    assert_eq!(t.ident, "PetStoreOrderatV2");
    assert_eq!(type_ident("Foo::bar").ident, "FooBar");
}

#[test]
fn field_names_are_snake_cased() {
    let f = field_name("petName");
    assert_eq!(f.raw, "petName");
    assert_eq!(f.ident, "pet_name");
    assert_eq!(field_name("match").ident, "r#match");
}

#[test]
fn invalid_names_are_refused() {
    match TypeIdent::try_from("123") {
        Err(Error::SynError { token }) => assert_eq!(token, "123"),
        Ok(t) => panic!("accepted {:?}", t),
    }
    assert!(TypeName::try_from("not a type!").is_err());
    assert!(TypeName::try_from("Vec<Option<u64>>").is_ok());
}

#[test]
fn sanitize_replaces_at_and_slash() {
    assert_eq!(sanitize("a@b/c"), "aat_b_c");
    assert_eq!(sanitize("plain"), "plain");
    assert_eq!(sanitize(""), "");
}

#[test]
fn default_attributes_are_empty() {
    let c = ContainerAttributes::default();
    assert!(c.rename.is_none() && !c.untagged);
    assert!(VariantAttributes::default().rename.is_none());
    assert!(FieldAttributes::default().rename.is_none());
}
