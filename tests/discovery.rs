use openapi_alors::collect_schemas;
use openapi_alors::document::{
    ApiDocument, ArrayType, Components, MediaType, ObjectType, Operation, PathItem, ReferenceOr,
    Response, Responses, Schema, SchemaKind, StringType, Type,
};
use openapi_alors::json_pointer::JsonPointer;
use openapi_alors::schemas::Error;
use openapi_alors::Unref;

fn text() -> Schema {
    Schema { schema_kind: SchemaKind::Type(Type::String(StringType { enumeration: Vec::new() })) }
}

fn object(properties: Vec<(&str, ReferenceOr<Box<Schema>>)>) -> Schema {
    Schema {
        schema_kind: SchemaKind::Type(Type::Object(ObjectType {
            properties: properties.into_iter().map(|(n, s)| (n.to_string(), s)).collect(),
            required: Vec::new(),
            additional_properties: None,
        })),
    }
}

fn with_components(entries: Vec<(&str, ReferenceOr<Schema>)>) -> ApiDocument {
    ApiDocument {
        paths: Vec::new(),
        components: Some(Components {
            schemas: entries.into_iter().map(|(n, s)| (n.to_string(), s)).collect(),
        }),
    }
}

fn reference(r: &str) -> ReferenceOr<Schema> {
    ReferenceOr::Reference { reference: r.to_string() }
}

fn json_response(schema: ReferenceOr<Schema>) -> ReferenceOr<Response> {
    ReferenceOr::Item(Response {
        content: vec![("application/json".to_string(), MediaType { schema: Some(schema) })],
    })
}

fn operation(id: Option<&str>, status: &str, schema: ReferenceOr<Schema>) -> Operation {
    Operation {
        operation_id: id.map(|s| s.to_string()),
        responses: Responses {
            default: None,
            responses: vec![(status.to_string(), json_response(schema))],
        },
    }
}

fn keys(doc: &ApiDocument) -> Vec<String> {
    collect_schemas(doc).expect("discovery failed").keys()
}

#[test]
fn pointer_components() {
    let p = JsonPointer::from_str("#/components/schemas/Pet").expect("a valid pointer");
    assert_eq!(p.components(), vec!["components", "schemas", "Pet"]);
    let q = JsonPointer::from_str("#/a//b/").expect("a valid pointer");
    assert_eq!(q.components(), vec!["a", "", "b", ""]);
}

#[test]
fn pointer_without_marker_is_refused() {
    match JsonPointer::from_str("components/schemas/Pet") {
        Err(openapi_alors::json_pointer::ParseJsonPointerError::NotRelative { original }) => {
            assert_eq!(original, "components/schemas/Pet")
        }
        Ok(p) => panic!("accepted {:?}", p),
    }
    assert!(JsonPointer::from_str("#").is_err());
    assert!(JsonPointer::from_str("").is_err());
}

#[test]
fn components_and_nested_properties_are_registered() {
    let doc = with_components(vec![(
        "Foo",
        ReferenceOr::Item(object(vec![(
            "bar",
            ReferenceOr::Item(Box::new(object(vec![("baz", ReferenceOr::Item(Box::new(text())))]))),
        )])),
    )]);
    assert_eq!(keys(&doc), vec!["Foo", "Foo.bar", "Foo.bar.baz"]);
}

#[test]
fn operations_are_named_by_identifier_or_path() {
    let item = PathItem {
        get: Some(operation(Some("listPets"), "200", ReferenceOr::Item(text()))),
        put: None,
        post: Some(operation(None, "201", ReferenceOr::Item(text()))),
        delete: None,
    };
    let doc = ApiDocument { paths: vec![("/pets".to_string(), ReferenceOr::Item(item))], components: None };
    assert_eq!(keys(&doc), vec!["listPets.200.application/json", "/pets.201.application/json"]);
}

#[test]
fn referenced_response_schemas_are_not_registered_at_the_use_site() {
    let item = PathItem {
        get: Some(operation(Some("getPet"), "200", reference("#/components/schemas/Pet"))),
        put: None,
        post: None,
        delete: None,
    };
    let doc = ApiDocument {
        paths: vec![("/pet".to_string(), ReferenceOr::Item(item))],
        components: Some(Components { schemas: vec![("Pet".to_string(), ReferenceOr::Item(text()))] }),
    };
    assert_eq!(keys(&doc), vec!["Pet"]);
}

#[test]
fn default_response_shares_the_operation_namespace() {
    let op = Operation {
        operation_id: Some("op".to_string()),
        responses: Responses { default: Some(json_response(ReferenceOr::Item(text()))), responses: Vec::new() },
    };
    let item = PathItem { get: None, put: Some(op), post: None, delete: None };
    let doc = ApiDocument { paths: vec![("/x".to_string(), ReferenceOr::Item(item))], components: None };
    assert_eq!(keys(&doc), vec!["op.application/json"]);
}

#[test]
fn members_and_items_share_the_parent_identifier() {
    let union = Schema {
        schema_kind: SchemaKind::OneOf { one_of: vec![ReferenceOr::Item(text()), ReferenceOr::Item(object(vec![("x", ReferenceOr::Item(Box::new(text())))]))] },
    };
    let list = Schema {
        schema_kind: SchemaKind::Type(Type::Array(ArrayType { items: ReferenceOr::Item(Box::new(text())) })),
    };
    let doc = with_components(vec![("U", ReferenceOr::Item(union)), ("L", ReferenceOr::Item(list))]);
    assert_eq!(keys(&doc), vec!["U", "U.x", "L"]);
}

#[test]
fn reference_entries_of_components_are_skipped() {
    let doc = with_components(vec![
        ("Alias", reference("#/components/schemas/Pet")),
        ("Pet", ReferenceOr::Item(text())),
    ]);
    assert_eq!(keys(&doc), vec!["Pet"]);
}

#[test]
fn discovery_twice_gives_the_same_registry() {
    let doc = with_components(vec![
        ("A", ReferenceOr::Item(object(vec![("b", ReferenceOr::Item(Box::new(text())))]))),
        ("C", ReferenceOr::Item(text())),
    ]);
    let first = collect_schemas(&doc).expect("discovery failed");
    let second = collect_schemas(&doc).expect("discovery failed");
    assert_eq!(first.keys(), second.keys());
    assert_eq!(first.len(), second.len());
    for i in 0..first.len() {
        assert!(std::ptr::eq(first.entry(i).data, second.entry(i).data));
    }
}

#[test]
fn unsupported_reference_aborts_discovery() {
    let doc = with_components(vec![(
        "Foo",
        ReferenceOr::Item(object(vec![("bar", ReferenceOr::Reference { reference: "#/paths/~1pets".to_string() })])),
    )]);
    match collect_schemas(&doc) {
        Err(Error::CannotUnref { source: openapi_alors::unref::Error::UnsupportedReference { reference } }) => {
            assert_eq!(reference.components(), vec!["paths", "~1pets"])
        }
        other => panic!("expected an unsupported reference, got {:?}", other.map(|s| s.keys())),
    }
}

#[test]
fn follower_errors() {
    let no_components = ApiDocument { paths: Vec::new(), components: None };
    let r = reference("#/components/schemas/Pet");
    assert!(matches!(
        r.unref(&no_components),
        Err(openapi_alors::unref::Error::NoComponentsDefinedInSchema { .. })
    ));
    let doc = with_components(vec![("Pet", ReferenceOr::Item(text()))]);
    assert!(matches!(
        reference("#/components/schemas/Dog").unref(&doc),
        Err(openapi_alors::unref::Error::ReferenceNotFound { .. })
    ));
    assert!(matches!(
        reference("components/schemas/Pet").unref(&doc),
        Err(openapi_alors::unref::Error::InvalidJsonPointer { .. })
    ));
    assert!(reference("#/components/schemas/Pet").unref(&doc).is_ok());
}

#[test]
fn chained_references_are_followed() {
    let doc = with_components(vec![
        ("A", reference("#/components/schemas/B")),
        ("B", reference("#/components/schemas/C")),
        ("C", ReferenceOr::Item(object(Vec::new()))),
    ]);
    let start = reference("#/components/schemas/A");
    let target = start.unref(&doc).expect("resolves");
    assert!(matches!(target.schema_kind, SchemaKind::Type(Type::Object(_))));
}

#[test]
fn cyclic_references_are_refused() {
    let doc = with_components(vec![
        ("A", reference("#/components/schemas/B")),
        ("B", reference("#/components/schemas/A")),
    ]);
    assert!(matches!(
        reference("#/components/schemas/A").unref(&doc),
        Err(openapi_alors::unref::Error::CyclicReference { .. })
    ));
}

#[test]
fn inline_item_is_its_own_target() {
    let doc = ApiDocument { paths: Vec::new(), components: None };
    let item = ReferenceOr::Item(text());
    let target = item.unref(&doc).expect("an inline item");
    assert!(std::ptr::eq(target, match &item {
        ReferenceOr::Item(s) => s,
        _ => unreachable!(),
    }));
}
