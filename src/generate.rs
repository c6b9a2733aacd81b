//! Type synthesis: from discovered schemas to declarations of a target
//! language.
use vstd::prelude::*;
use crate::document::ApiDocument;
use crate::generate::collect::{build, registry_after, registry_failure, Types};
use crate::schemas::{self, collect_schemas, discover, Discovery};

pub mod collect;
pub mod impls;
mod syntax;
pub mod types;

verus! {

#[allow(inconsistent_fields)]
#[derive(Debug)]
pub enum Error {
    SchemaError { source: schemas::Error },
    BuildRustError { source: collect::Error },
    /// Rendering the declarations or formatting them failed.
    Rustfmt { info: String },
    Unimplemented { info: String },
}

/// Discovers the schemas of `source` and synthesizes their declarations.
pub fn build_types(source: &ApiDocument) -> (r: Result<Types, Error>)
    ensures
        match discover(*source) {
            Discovery::Done(reg) => {
                &&& r is Ok <==> registry_failure(reg) is None
                &&& r matches Ok(types) ==> types@ == registry_after(reg, Seq::empty())
                &&& r matches Err(e) ==> e matches Error::BuildRustError { source }
                    && registry_failure(reg) == Some(source.failure())
            },
            failure => r matches Err(Error::SchemaError { source }) && source.failure() == failure,
        },
{
    let schemas = match collect_schemas(source) {
        Ok(s) => s,
        Err(source) => {
            return Err(Error::SchemaError { source });
        },
    };
    match build(&schemas) {
        Ok(types) => Ok(types),
        Err(source) => Err(Error::BuildRustError { source }),
    }
}

} // verus!
