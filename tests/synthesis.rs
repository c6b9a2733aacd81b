use openapi_alors::document::{
    AdditionalProperties, ApiDocument, ArrayType, Components, ObjectType, ReferenceOr, Schema,
    SchemaKind, StringType, Type,
};
use openapi_alors::generate::build_types;
use openapi_alors::generate::collect::Types;
use openapi_alors::generate::types::{DataEnumFields, RustType, StructField};

fn string_schema(literals: &[&str]) -> Schema {
    Schema {
        schema_kind: SchemaKind::Type(Type::String(StringType {
            enumeration: literals.iter().map(|l| l.to_string()).collect(),
        })),
    }
}

fn object_schema(properties: Vec<(&str, ReferenceOr<Box<Schema>>)>, required: &[&str]) -> Schema {
    Schema {
        schema_kind: SchemaKind::Type(Type::Object(ObjectType {
            properties: properties.into_iter().map(|(n, s)| (n.to_string(), s)).collect(),
            required: required.iter().map(|r| r.to_string()).collect(),
            additional_properties: None,
        })),
    }
}

fn inline(s: Schema) -> ReferenceOr<Box<Schema>> {
    ReferenceOr::Item(Box::new(s))
}

fn reference(r: &str) -> ReferenceOr<Box<Schema>> {
    ReferenceOr::Reference { reference: r.to_string() }
}

fn document(schemas: Vec<(&str, Schema)>) -> ApiDocument {
    ApiDocument {
        paths: Vec::new(),
        components: Some(Components {
            schemas: schemas.into_iter().map(|(n, s)| (n.to_string(), ReferenceOr::Item(s))).collect(),
        }),
    }
}

fn synthesize(doc: &ApiDocument) -> Types {
    match build_types(doc) {
        Ok(t) => t,
        Err(e) => panic!("synthesis failed: {:?}", e),
    }
}

fn struct_fields(t: &RustType) -> &Vec<StructField> {
    match t {
        RustType::Struct { fields, .. } => fields,
        other => panic!("not a struct: {:?}", other),
    }
}

fn find<'a>(types: &'a Types, name: &str) -> &'a RustType {
    types.entries().iter().find(|t| t.name() == name).expect("declaration missing")
}

#[test]
fn simple_schema() {
    let doc = document(vec![("Foo", object_schema(vec![("bar", inline(string_schema(&[])))], &[]))]);
    let types = synthesize(&doc);
    assert_eq!(types.entries().len(), 1);
    let foo = find(&types, "Foo");
    let fields = struct_fields(foo);
    assert_eq!(fields.len(), 1);
    assert_eq!(fields[0].name.ident, "bar");
    assert_eq!(fields[0].field_type.ident, "String");
    assert_eq!(fields[0].attributes.rename.as_deref(), Some("bar"));
    // `bar` is not listed as required, so it is optional.
    assert!(fields[0].optional);
    match foo {
        RustType::Struct { attributes, .. } => {
            assert_eq!(attributes.rename.as_deref(), Some("Foo"));
            assert!(!attributes.untagged);
        }
        _ => unreachable!(),
    }
}

#[test]
fn required_field_is_not_optional() {
    let doc = document(vec![(
        "Foo",
        object_schema(
            vec![("bar", inline(string_schema(&[]))), ("baz", inline(string_schema(&[])))],
            &["bar"],
        ),
    )]);
    let types = synthesize(&doc);
    let fields = struct_fields(find(&types, "Foo"));
    assert_eq!(fields.len(), 2);
    assert!(!fields[0].optional);
    assert!(fields[1].optional);
}

#[test]
fn nested_schema() {
    let inner = object_schema(vec![("baz", inline(string_schema(&[])))], &[]);
    let doc = document(vec![("Foo", object_schema(vec![("bar", inline(inner))], &[]))]);
    let types = synthesize(&doc);
    assert_eq!(types.entries().len(), 2);
    let foo_fields = struct_fields(find(&types, "Foo"));
    assert_eq!(foo_fields.len(), 1);
    assert_eq!(foo_fields[0].field_type.ident, "FooBar");
    let nested = find(&types, "FooBar");
    match nested {
        RustType::Struct { name, attributes, .. } => {
            assert_eq!(name.raw, "Foo::bar");
            assert_eq!(attributes.rename.as_deref(), Some("Foo::bar"));
        }
        _ => panic!("nested declaration is not a struct"),
    }
    let nested_fields = struct_fields(nested);
    assert_eq!(nested_fields.len(), 1);
    assert_eq!(nested_fields[0].name.ident, "baz");
    assert_eq!(nested_fields[0].field_type.ident, "String");
}

#[test]
fn string_enum() {
    let doc = document(vec![(
        "Foo",
        object_schema(vec![("bar", inline(string_schema(&["lorem", "ipsum", "dolor"])))], &[]),
    )]);
    let types = synthesize(&doc);
    assert_eq!(types.entries().len(), 2);
    assert_eq!(struct_fields(find(&types, "Foo"))[0].field_type.ident, "FooBar");
    match find(&types, "FooBar") {
        RustType::PlainEnum { variants, attributes, .. } => {
            let names: Vec<&str> = variants.iter().map(|v| v.name.ident.as_str()).collect();
            assert_eq!(names, vec!["Lorem", "Ipsum", "Dolor"]);
            let renames: Vec<Option<&str>> =
                variants.iter().map(|v| v.attributes.rename.as_deref()).collect();
            assert_eq!(renames, vec![Some("lorem"), Some("ipsum"), Some("dolor")]);
            assert!(attributes.rename.is_none());
        }
        other => panic!("not a plain enum: {:?}", other),
    }
}

#[test]
fn schema_ref() {
    let bar = object_schema(
        vec![("baz", inline(Schema { schema_kind: SchemaKind::Type(Type::Integer) }))],
        &[],
    );
    let doc = document(vec![
        ("Foo", object_schema(vec![("bar", reference("#/components/schemas/Bar"))], &[])),
        ("Bar", bar),
    ]);
    let types = synthesize(&doc);
    let names: Vec<String> = types.entries().iter().map(|t| t.name()).collect();
    assert_eq!(names, vec!["Foo".to_string(), "Bar".to_string()]);
    let foo_fields = struct_fields(find(&types, "Foo"));
    assert_eq!(foo_fields[0].field_type.ident, "Bar");
    let bar_fields = struct_fields(find(&types, "Bar"));
    assert_eq!(bar_fields[0].field_type.ident, "u64");
}

#[test]
fn reference_outside_components_is_unsupported() {
    let doc = document(vec![(
        "Foo",
        object_schema(vec![("bar", reference("#/paths/pets"))], &[]),
    )]);
    match build_types(&doc) {
        Err(openapi_alors::generate::Error::SchemaError {
            source:
                openapi_alors::schemas::Error::CannotUnref {
                    source: openapi_alors::unref::Error::UnsupportedReference { reference },
                },
        }) => assert_eq!(reference.components(), vec!["paths", "pets"]),
        other => panic!("expected an unsupported reference, got {:?}", other),
    }
}

#[test]
fn empty_enumeration_gives_text_type() {
    let doc = document(vec![("Foo", object_schema(vec![("bar", inline(string_schema(&[])))], &[]))]);
    let types = synthesize(&doc);
    assert_eq!(types.entries().len(), 1);
    assert_eq!(struct_fields(find(&types, "Foo"))[0].field_type.ident, "String");
}

#[test]
fn primitive_and_container_field_types() {
    let number = Schema { schema_kind: SchemaKind::Type(Type::Number) };
    let boolean = Schema { schema_kind: SchemaKind::Type(Type::Boolean) };
    let list = Schema {
        schema_kind: SchemaKind::Type(Type::Array(ArrayType {
            items: inline(Schema { schema_kind: SchemaKind::Type(Type::Integer) }),
        })),
    };
    let list_of_refs = Schema {
        schema_kind: SchemaKind::Type(Type::Array(ArrayType { items: reference("#/components/schemas/Bar") })),
    };
    let free_map = Schema {
        schema_kind: SchemaKind::Type(Type::Object(ObjectType {
            properties: Vec::new(),
            required: Vec::new(),
            additional_properties: Some(AdditionalProperties::Any(true)),
        })),
    };
    let typed_map = Schema {
        schema_kind: SchemaKind::Type(Type::Object(ObjectType {
            properties: Vec::new(),
            required: Vec::new(),
            additional_properties: Some(AdditionalProperties::Schema(Box::new(ReferenceOr::Item(
                Schema { schema_kind: SchemaKind::Type(Type::Boolean) },
            )))),
        })),
    };
    let open = Schema { schema_kind: SchemaKind::Any };
    let doc = document(vec![
        (
            "Foo",
            object_schema(
                vec![
                    ("number", inline(number)),
                    ("flag", inline(boolean)),
                    ("list", inline(list)),
                    ("refs", inline(list_of_refs)),
                    ("free", inline(free_map)),
                    ("typed", inline(typed_map)),
                    ("open", inline(open)),
                ],
                &[],
            ),
        ),
        ("Bar", object_schema(Vec::new(), &[])),
    ]);
    let types = synthesize(&doc);
    let fields = struct_fields(find(&types, "Foo"));
    let kinds: Vec<&str> = fields.iter().map(|f| f.field_type.ident.as_str()).collect();
    assert_eq!(
        kinds,
        vec![
            "f64",
            "bool",
            "Vec<u64>",
            "Vec<Bar>",
            "std::collections::BTreeMap<String, serde_json::Value>",
            "std::collections::BTreeMap<String, bool>",
            "serde_json::Value",
        ]
    );
    assert!(struct_fields(find(&types, "Bar")).is_empty());
}

#[test]
fn one_of_gives_untagged_enum() {
    let union = Schema {
        schema_kind: SchemaKind::OneOf {
            one_of: vec![
                ReferenceOr::Item(string_schema(&[])),
                ReferenceOr::Reference { reference: "#/components/schemas/Bar".to_string() },
                ReferenceOr::Item(object_schema(vec![("x", inline(string_schema(&[])))], &[])),
            ],
        },
    };
    let doc = document(vec![
        ("Foo", object_schema(vec![("choice", inline(union))], &[])),
        ("Bar", object_schema(Vec::new(), &[])),
    ]);
    let types = synthesize(&doc);
    assert_eq!(struct_fields(find(&types, "Foo"))[0].field_type.ident, "FooChoice");
    match find(&types, "FooChoice") {
        RustType::DataEnum { variants, attributes, .. } => {
            assert!(attributes.untagged);
            let names: Vec<&str> = variants.iter().map(|v| v.name.ident.as_str()).collect();
            assert_eq!(names, vec!["Variant0", "Variant1", "Variant2"]);
            let wrapped: Vec<String> = variants
                .iter()
                .map(|v| match &v.fields {
                    DataEnumFields::Unnamed { fields } => fields[0].ident.clone(),
                    DataEnumFields::Named { .. } => panic!("named fields"),
                })
                .collect();
            assert_eq!(wrapped, vec!["String", "Bar", "FooChoiceVariant2"]);
        }
        other => panic!("not a data enum: {:?}", other),
    }
    assert_eq!(struct_fields(find(&types, "FooChoiceVariant2"))[0].name.ident, "x");
}

#[test]
fn duplicate_names_keep_the_first_declaration() {
    // `Foo::bar` and the top-level `FooBar` both sanitize to `FooBar`.
    let doc = document(vec![
        ("Foo", object_schema(vec![("bar", inline(string_schema(&["a"])))], &[])),
        ("FooBar", object_schema(vec![("z", inline(string_schema(&[])))], &[])),
    ]);
    let types = synthesize(&doc);
    let names: Vec<String> = types.entries().iter().map(|t| t.name()).collect();
    assert_eq!(names, vec!["FooBar".to_string(), "Foo".to_string()]);
    assert!(matches!(find(&types, "FooBar"), RustType::PlainEnum { .. }));
}

#[test]
fn keyword_property_becomes_raw_identifier() {
    let doc = document(vec![(
        "Foo",
        object_schema(vec![("type", inline(string_schema(&[]))), ("@id", inline(string_schema(&[])))], &[]),
    )]);
    let types = synthesize(&doc);
    let fields = struct_fields(find(&types, "Foo"));
    assert_eq!(fields[0].name.ident, "r#type");
    assert_eq!(fields[0].attributes.rename.as_deref(), Some("type"));
    assert_eq!(fields[1].name.ident, "at_id");
    assert_eq!(fields[1].attributes.rename.as_deref(), Some("@id"));
}

#[test]
fn invalid_identifier_is_a_template_error() {
    let doc = document(vec![("Foo", object_schema(vec![("bar", inline(string_schema(&["1st"])))], &[]))]);
    match build_types(&doc) {
        Err(openapi_alors::generate::Error::BuildRustError {
            source: openapi_alors::generate::collect::Error::TemplateError { source },
        }) => match source {
            openapi_alors::generate::impls::Error::SynError { token } => assert_eq!(token, "1st"),
        },
        other => panic!("expected a template error, got {:?}", other),
    }
}

#[test]
fn reference_to_responses_is_refused_by_discovery() {
    let doc = ApiDocument {
        paths: Vec::new(),
        components: Some(Components {
            schemas: vec![(
                "Foo".to_string(),
                ReferenceOr::Item(object_schema(vec![("bar", reference("#/components/responses/X"))], &[])),
            )],
        }),
    };
    match build_types(&doc) {
        Err(openapi_alors::generate::Error::SchemaError { .. }) => {}
        other => panic!("expected discovery to refuse the reference, got {:?}", other),
    }
}

#[test]
fn every_field_keeps_its_raw_name() {
    let inner = object_schema(
        vec![("Some-Name", inline(string_schema(&[]))), ("@type", inline(string_schema(&["x-y", "z"])))],
        &["Some-Name"],
    );
    let doc = document(vec![(
        "Outer",
        object_schema(vec![("innerThing", inline(inner)), ("list/items", inline(string_schema(&[])))], &[]),
    )]);
    let types = synthesize(&doc);
    assert_eq!(types.entries().len(), 3);
    for t in types.entries() {
        match t {
            RustType::Struct { fields, .. } => {
                for f in fields {
                    assert_eq!(f.attributes.rename.as_deref(), Some(f.name.raw.as_str()));
                }
            }
            RustType::PlainEnum { variants, .. } => {
                for v in variants {
                    assert_eq!(v.attributes.rename.as_deref(), Some(v.name.raw.as_str()));
                }
            }
            RustType::DataEnum { .. } => {}
        }
    }
    let inner_fields = struct_fields(find(&types, "OuterInnerThing"));
    assert_eq!(inner_fields[0].name.ident, "some_name");
    assert!(!inner_fields[0].optional);
    assert_eq!(inner_fields[1].name.ident, "at_type");
    assert!(inner_fields[1].optional);
}
