//! Synthesis of Rust type declarations from the schemas of an OpenAPI
//! document: discovery of every schema under a namespaced identifier, then
//! a type model of structs and enumerations ready for rendering.
pub mod document;
pub mod generate;
pub mod json_pointer;
pub mod namespace;
pub mod schemas;
pub mod text;
pub mod unref;

pub use schemas::collect_schemas;
pub use unref::Unref;
