//! An API description document, as far as type synthesis reads it.
//!
//! Maps keep their entries in document order as `(key, value)` pairs.
use vstd::prelude::*;

verus! {

/// Either an inline item or a same-document reference to one.
#[derive(Debug)]
pub enum ReferenceOr<T> {
    Reference { reference: String },
    Item(T),
}

#[derive(Debug)]
pub struct ApiDocument {
    pub paths: Vec<(String, ReferenceOr<PathItem>)>,
    pub components: Option<Components>,
}

#[derive(Debug)]
pub struct Components {
    pub schemas: Vec<(String, ReferenceOr<Schema>)>,
}

/// The operations of one path that discovery visits.
#[derive(Debug)]
pub struct PathItem {
    pub get: Option<Operation>,
    pub put: Option<Operation>,
    pub post: Option<Operation>,
    pub delete: Option<Operation>,
}

#[derive(Debug)]
pub struct Operation {
    pub operation_id: Option<String>,
    pub responses: Responses,
}

#[derive(Debug)]
pub struct Responses {
    pub default: Option<ReferenceOr<Response>>,
    pub responses: Vec<(String, ReferenceOr<Response>)>,
}

#[derive(Debug)]
pub struct Response {
    /// Media types by content type.
    pub content: Vec<(String, MediaType)>,
}

#[derive(Debug)]
pub struct MediaType {
    pub schema: Option<ReferenceOr<Schema>>,
}

#[derive(Debug)]
pub struct Schema {
    pub schema_kind: SchemaKind,
}

#[derive(Debug)]
pub enum SchemaKind {
    Type(Type),
    OneOf { one_of: Vec<ReferenceOr<Schema>> },
    AllOf { all_of: Vec<ReferenceOr<Schema>> },
    AnyOf { any_of: Vec<ReferenceOr<Schema>> },
    /// A schema whose shape is left open.
    Any,
}

#[derive(Debug)]
pub enum Type {
    String(StringType),
    Number,
    Integer,
    Object(ObjectType),
    Array(ArrayType),
    Boolean,
}

#[derive(Debug)]
pub struct StringType {
    pub enumeration: Vec<String>,
}

#[derive(Debug)]
pub struct ObjectType {
    pub properties: Vec<(String, ReferenceOr<Box<Schema>>)>,
    pub required: Vec<String>,
    pub additional_properties: Option<AdditionalProperties>,
}

#[derive(Debug)]
pub enum AdditionalProperties {
    Any(bool),
    Schema(Box<ReferenceOr<Schema>>),
}

#[derive(Debug)]
pub struct ArrayType {
    pub items: ReferenceOr<Box<Schema>>,
}

} // verus!
