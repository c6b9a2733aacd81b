//! Naming contexts: paths of segments held in a persistent `im::Vector`.
use vstd::prelude::*;
use im::Vector;

verus! {

#[verifier::external_type_specification]
#[verifier::external_body]
#[verifier::reject_recursive_types(A)]
pub struct ExVector<A>(im::Vector<A>);

/// The segments that a namespace holds, front to back.
pub uninterp spec fn namespace_items(v: Vector<String>) -> Seq<Seq<char>>;

/// Relies on `im::Vector::unit`: a vector holding exactly `segment`.
#[verifier::external_body]
pub(crate) fn unit_namespace(segment: String) -> (r: Vector<String>)
    ensures
        namespace_items(r) == seq![segment@],
{
    Vector::unit(segment)
}

/// Relies on `Clone` for `im::Vector`: the same elements in the same order.
#[verifier::external_body]
pub(crate) fn clone_namespace(v: &Vector<String>) -> (r: Vector<String>)
    ensures
        namespace_items(r) == namespace_items(*v),
{
    v.clone()
}

/// Relies on `im::Vector::push_back`: `segment` is appended at the back.
#[verifier::external_body]
pub(crate) fn push_segment(v: &mut Vector<String>, segment: String)
    ensures
        namespace_items(*final(v)) == namespace_items(*old(v)).push(segment@),
{
    v.push_back(segment)
}

/// Relies on `im::Vector::pop_back`: `None` on an empty vector, else the last
/// element, which is removed.
#[verifier::external_body]
pub(crate) fn pop_segment(v: &mut Vector<String>) -> (r: Option<String>)
    ensures
        namespace_items(*old(v)).len() == 0 ==> r is None && namespace_items(*final(v))
            == namespace_items(*old(v)),
        namespace_items(*old(v)).len() > 0 ==> (r matches Some(s) && s@ == namespace_items(
            *old(v),
        ).last()),
        namespace_items(*old(v)).len() > 0 ==> namespace_items(*final(v)) == namespace_items(
            *old(v),
        ).drop_last(),
{
    v.pop_back()
}

/// Relies on `PartialEq` for `im::Vector`: equal lengths and equal elements
/// in order.
#[verifier::external_body]
pub(crate) fn namespace_eq(a: &Vector<String>, b: &Vector<String>) -> (r: bool)
    ensures
        r == (namespace_items(*a) == namespace_items(*b)),
{
    a == b
}

/// Relies on `im::Vector::iter`: the elements front to back.
#[verifier::external_body]
pub(crate) fn namespace_segments(v: &Vector<String>) -> (r: Vec<String>)
    ensures
        r@.map_values(|s: String| s@) == namespace_items(*v),
{
    v.iter().cloned().collect()
}

} // verus!
