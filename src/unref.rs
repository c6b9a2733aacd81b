//! Following same-document references to the schemas they denote.
//!
//! Only pointers into `components.schemas` are followed. An entry there may
//! itself be a reference; a chain passes at most one reference per entry,
//! so a longer one is cyclic and refused.
use vstd::prelude::*;
use crate::document::{ApiDocument, ReferenceOr, Schema};
use crate::json_pointer::{pointer_components, JsonPointer, ParseJsonPointerError};
use crate::text::text_eq;

verus! {

#[derive(Debug)]
pub enum Error {
    InvalidJsonPointer { source: ParseJsonPointerError },
    UnsupportedReference { reference: JsonPointer },
    NoComponentsDefinedInSchema { reference: JsonPointer },
    ReferenceNotFound { reference: JsonPointer },
    /// A chain of references among `components.schemas` that never reaches
    /// a schema.
    CyclicReference { reference: JsonPointer },
}

/// What following a reference comes to.
pub enum Resolution {
    Found(Schema),
    InvalidPointer(Seq<char>),
    Unsupported(Seq<Seq<char>>),
    NoComponents(Seq<Seq<char>>),
    NotFound(Seq<Seq<char>>),
    Cyclic(Seq<Seq<char>>),
}

impl Error {
    pub open spec fn resolution(&self) -> Resolution {
        match self {
            Error::InvalidJsonPointer { source } => Resolution::InvalidPointer(source.refused_text()),
            Error::UnsupportedReference { reference } => Resolution::Unsupported(reference@),
            Error::NoComponentsDefinedInSchema { reference } => Resolution::NoComponents(reference@),
            Error::ReferenceNotFound { reference } => Resolution::NotFound(reference@),
            Error::CyclicReference { reference } => Resolution::Cyclic(reference@),
        }
    }
}

pub open spec fn result_resolution(r: Result<&Schema, Error>) -> Resolution {
    match r {
        Ok(s) => Resolution::Found(*s),
        Err(e) => e.resolution(),
    }
}

/// The first entry of `entries` under `name`.
pub open spec fn lookup(entries: Seq<(String, ReferenceOr<Schema>)>, name: Seq<char>) -> Option<
    ReferenceOr<Schema>,
>
    decreases entries.len(),
{
    if entries.len() == 0 {
        None
    } else if entries[0].0@ == name {
        Some(entries[0].1)
    } else {
        lookup(entries.drop_first(), name)
    }
}

/// Whether `ptr` addresses an entry of `components.schemas`.
pub open spec fn is_schema_pointer(ptr: Seq<Seq<char>>) -> bool {
    ptr.len() == 3 && ptr[0] == "components"@ && ptr[1] == "schemas"@
}

/// The number of references that a chain may pass before it counts as a
/// cycle: one for each entry of `components.schemas`.
pub open spec fn hop_budget(doc: ApiDocument) -> nat {
    match doc.components {
        Some(c) => c.schemas@.len(),
        None => 0,
    }
}

/// Follows the pointer `ptr` in `doc`, passing at most `hops` further
/// references.
pub open spec fn resolve_spec(doc: ApiDocument, ptr: Seq<Seq<char>>, hops: nat) -> Resolution
    decreases hops,
{
    if !is_schema_pointer(ptr) {
        Resolution::Unsupported(ptr)
    } else {
        match doc.components {
            None => Resolution::NoComponents(ptr),
            Some(c) => match lookup(c.schemas@, ptr[2]) {
                None => Resolution::NotFound(ptr),
                Some(ReferenceOr::Item(s)) => Resolution::Found(s),
                Some(ReferenceOr::Reference { reference }) => match pointer_components(
                    reference@,
                ) {
                    None => Resolution::InvalidPointer(reference@),
                    Some(next) => if hops == 0 {
                        Resolution::Cyclic(next)
                    } else {
                        resolve_spec(doc, next, (hops - 1) as nat)
                    },
                },
            },
        }
    }
}

/// What the reference written `reference` denotes in `doc`.
pub open spec fn reference_target(doc: ApiDocument, reference: Seq<char>) -> Resolution {
    match pointer_components(reference) {
        None => Resolution::InvalidPointer(reference),
        Some(ptr) => resolve_spec(doc, ptr, hop_budget(doc)),
    }
}

/// Resolves a schema reference against the whole document.
pub trait Unref {
    spec fn target(&self, all: ApiDocument) -> Resolution;

    fn unref<'a>(&'a self, all: &'a ApiDocument) -> (r: Result<&'a Schema, Error>)
        ensures
            result_resolution(r) == self.target(*all),
    ;
}

impl Unref for ReferenceOr<Schema> {
    open spec fn target(&self, all: ApiDocument) -> Resolution {
        match self {
            ReferenceOr::Item(s) => Resolution::Found(*s),
            ReferenceOr::Reference { reference } => reference_target(all, reference@),
        }
    }

    fn unref<'a>(&'a self, all: &'a ApiDocument) -> (r: Result<&'a Schema, Error>) {
        match self {
            ReferenceOr::Item(x) => Ok(x),
            ReferenceOr::Reference { reference } => follow(reference.as_str(), all),
        }
    }
}

impl Unref for ReferenceOr<Box<Schema>> {
    open spec fn target(&self, all: ApiDocument) -> Resolution {
        match self {
            ReferenceOr::Item(s) => Resolution::Found(**s),
            ReferenceOr::Reference { reference } => reference_target(all, reference@),
        }
    }

    fn unref<'a>(&'a self, all: &'a ApiDocument) -> (r: Result<&'a Schema, Error>) {
        match self {
            ReferenceOr::Item(x) => Ok(&**x),
            ReferenceOr::Reference { reference } => follow(reference.as_str(), all),
        }
    }
}

fn follow<'a>(reference: &str, all: &'a ApiDocument) -> (r: Result<&'a Schema, Error>)
    ensures
        result_resolution(r) == reference_target(*all, reference@),
{
    match JsonPointer::from_str(reference) {
        Err(source) => Err(Error::InvalidJsonPointer { source }),
        Ok(pointer) => {
            let budget = match &all.components {
                Some(c) => c.schemas.len(),
                None => 0,
            };
            resolve(pointer, all, budget)
        },
    }
}

fn find_schema<'a>(entries: &'a Vec<(String, ReferenceOr<Schema>)>, name: &str) -> (r: Option<
    &'a ReferenceOr<Schema>,
>)
    ensures
        match r {
            Some(e) => lookup(entries@, name@) == Some(*e),
            None => lookup(entries@, name@) is None,
        },
{
    let mut i: usize = 0;
    assert(entries@.subrange(0, entries@.len() as int) =~= entries@);
    while i < entries.len()
        invariant
            i <= entries@.len(),
            lookup(
                entries@,
                name@) == lookup(entries@.subrange(i as int, entries@.len() as int),
                name@,
            ),
        decreases entries@.len() - i,
    {
        let ghost rest = entries@.subrange(i as int, entries@.len() as int);
        assert(rest.drop_first() =~= entries@.subrange(i + 1, entries@.len() as int));
        if text_eq(entries[i].0.as_str(), name) {
            return Some(&entries[i].1);
        }
        i = i + 1;
    }
    None
}

/// Follows `reference` through `components.schemas`, passing at most
/// `hops` further references.
fn resolve<'a>(
    reference: JsonPointer,
    all: &'a ApiDocument,
    hops: usize,
) -> (r: Result<&'a Schema, Error>)
    ensures
        result_resolution(r) == resolve_spec(*all, reference@, hops as nat),
    decreases hops,
{
    let parts = reference.components();
    proof {
        reveal_strlit("components");
        reveal_strlit("schemas");
        assert(parts@.len() == reference@.len());
    }
    if parts.len() != 3 || !text_eq(parts[0], "components") || !text_eq(parts[1], "schemas") {
        proof {
            if parts@.len() == 3 {
                assert(parts@[0]@ == reference@[0]);
                assert(parts@[1]@ == reference@[1]);
            }
        }
        return Err(Error::UnsupportedReference { reference });
    }
    assert(parts@[2]@ == reference@[2]);
    let components = match &all.components {
        Some(c) => c,
        None => {
            return Err(Error::NoComponentsDefinedInSchema { reference });
        },
    };
    match find_schema(&components.schemas, parts[2]) {
        None => Err(Error::ReferenceNotFound { reference }),
        Some(ReferenceOr::Item(schema)) => Ok(schema),
        Some(ReferenceOr::Reference { reference: next }) => {
            match JsonPointer::from_str(next.as_str()) {
                Err(source) => Err(Error::InvalidJsonPointer { source }),
                Ok(pointer) => {
                    if hops == 0 {
                        Err(Error::CyclicReference { reference: pointer })
                    } else {
                        resolve(pointer, all, hops - 1)
                    }
                },
            }
        },
    }
}

} // verus!
