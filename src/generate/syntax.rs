//! What identifiers and type expressions look like, as `heck` and `syn` see
//! them.
use vstd::prelude::*;

verus! {

/// The text that `heck`'s camel case conversion makes of `s`.
pub uninterp spec fn camel_case_of(s: Seq<char>) -> Seq<char>;

/// The text that `heck`'s snake case conversion makes of `s`.
pub uninterp spec fn snake_case_of(s: Seq<char>) -> Seq<char>;

/// Whether `syn` parses `s` as a single identifier.
pub uninterp spec fn parses_as_ident(s: Seq<char>) -> bool;

/// Whether `syn` parses `s` as a type.
pub uninterp spec fn parses_as_type(s: Seq<char>) -> bool;

/// Relies on `heck::CamelCase::to_camel_case`; the result depends on the text
/// alone.
#[verifier::external_body]
pub(crate) fn to_camel_case(s: &str) -> (r: String)
    ensures
        r@ == camel_case_of(s@),
{
    heck::CamelCase::to_camel_case(s)
}

/// Relies on `heck::SnakeCase::to_snake_case`; the result depends on the text
/// alone.
#[verifier::external_body]
pub(crate) fn to_snake_case(s: &str) -> (r: String)
    ensures
        r@ == snake_case_of(s@),
{
    heck::SnakeCase::to_snake_case(s)
}

/// Relies on `syn::parse_str::<syn::Ident>`: it succeeds exactly when the text
/// is one identifier.
#[verifier::external_body]
pub(crate) fn parse_ident(s: &str) -> (r: bool)
    ensures
        r == parses_as_ident(s@),
{
    syn::parse_str::<syn::Ident>(s).is_ok()
}

/// Relies on `syn::parse_str::<syn::Type>`: it succeeds exactly when the text
/// is a type.
#[verifier::external_body]
pub(crate) fn parse_type(s: &str) -> (r: bool)
    ensures
        r == parses_as_type(s@),
{
    syn::parse_str::<syn::Type>(s).is_ok()
}

} // verus!
