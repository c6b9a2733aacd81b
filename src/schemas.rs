//! Schema discovery: a depth-first walk over the document that gives every
//! schema it meets a namespaced identifier.
//!
//! Operations are visited in document order of their paths, methods in the
//! order GET, PUT, POST, DELETE, responses with the default first, then
//! `components.schemas`. A reference met inside a schema is resolved, so
//! that a broken one stops the walk, but its target is not walked again at
//! that place: it is registered once at its own `components.schemas` entry.
//! Walking only inline schemas also keeps cyclic references from looping.
use vstd::prelude::*;
use im::Vector;
use crate::document::{
    AdditionalProperties, ApiDocument, Components, MediaType, Operation, PathItem, ReferenceOr,
    Response, Responses, Schema, SchemaKind, Type,
};
use crate::namespace::{
    clone_namespace, namespace_eq, namespace_items, namespace_segments,
    pop_segment, push_segment, unit_namespace,
};
use crate::unref::{self, reference_target, Resolution, Unref};

verus! {

broadcast use vstd::std_specs::vec::axiom_vec_index_decreases;

/// A namespace, a leaf name and the schema registered under them.
pub type Registered = Seq<(Seq<Seq<char>>, Seq<char>, Schema)>;

/// What a walk comes to: the registrations, in order, or the failure that
/// stopped it.
pub enum Discovery {
    Done(Registered),
    NoName(Seq<Seq<char>>),
    Unresolved(Resolution),
}

/// Whether `reg` already holds an entry under `ns` and `name`.
pub open spec fn is_registered(reg: Registered, ns: Seq<Seq<char>>, name: Seq<char>) -> bool {
    exists|i: int| 0 <= i < reg.len() && (#[trigger] reg[i]).0 == ns && reg[i].1 == name
}

/// Registration keeps the first schema seen under an identifier.
pub open spec fn register(
    reg: Registered,
    ns: Seq<Seq<char>>,
    name: Seq<char>,
    s: Schema,
) -> Registered {
    if is_registered(reg, ns, name) {
        reg
    } else {
        reg.push((ns, name, s))
    }
}

pub open spec fn check_reference(
    doc: ApiDocument,
    reference: Seq<char>,
    reg: Registered,
) -> Discovery {
    match reference_target(doc, reference) {
        Resolution::Found(_) => Discovery::Done(reg),
        other => Discovery::Unresolved(other),
    }
}

/// Registers `s` under the last segment of `ns`, then walks its members,
/// properties, additional properties and items.
pub open spec fn visit_schema(
    doc: ApiDocument,
    s: Schema,
    ns: Seq<Seq<char>>,
    reg: Registered,
) -> Discovery
    decreases s,
{
    if ns.len() == 0 {
        Discovery::NoName(ns)
    } else {
        let reg1 = register(reg, ns.drop_last(), ns.last(), s);
        match s.schema_kind {
            SchemaKind::OneOf { one_of } => visit_members(doc, one_of@, ns, reg1),
            SchemaKind::AllOf { all_of } => visit_members(doc, all_of@, ns, reg1),
            SchemaKind::AnyOf { any_of } => visit_members(doc, any_of@, ns, reg1),
            SchemaKind::Type(Type::Object(obj)) => match visit_props(doc, obj.properties@, ns, reg1) {
                Discovery::Done(reg2) => match obj.additional_properties {
                    Some(AdditionalProperties::Schema(r)) => visit_ref(doc, *r, ns, reg2),
                    _ => Discovery::Done(reg2),
                },
                other => other,
            },
            SchemaKind::Type(Type::Array(a)) => visit_box_ref(doc, a.items, ns, reg1),
            _ => Discovery::Done(reg1),
        }
    }
}

pub open spec fn visit_ref(
    doc: ApiDocument,
    r: ReferenceOr<Schema>,
    ns: Seq<Seq<char>>,
    reg: Registered,
) -> Discovery
    decreases r,
{
    match r {
        ReferenceOr::Item(s) => visit_schema(doc, s, ns, reg),
        ReferenceOr::Reference { reference } => check_reference(doc, reference@, reg),
    }
}

pub open spec fn visit_box_ref(
    doc: ApiDocument,
    r: ReferenceOr<Box<Schema>>,
    ns: Seq<Seq<char>>,
    reg: Registered,
) -> Discovery
    decreases r,
{
    match r {
        ReferenceOr::Item(s) => visit_schema(doc, *s, ns, reg),
        ReferenceOr::Reference { reference } => check_reference(doc, reference@, reg),
    }
}

/// Members of a composite schema share their parent's namespace.
pub open spec fn visit_members(
    doc: ApiDocument,
    ms: Seq<ReferenceOr<Schema>>,
    ns: Seq<Seq<char>>,
    reg: Registered,
) -> Discovery
    decreases ms,
{
    if ms.len() == 0 {
        Discovery::Done(reg)
    } else {
        match visit_ref(doc, ms[0], ns, reg) {
            Discovery::Done(reg2) => visit_members(doc, ms.drop_first(), ns, reg2),
            other => other,
        }
    }
}

/// Each property is named after its key, inside its parent's namespace.
pub open spec fn visit_props(
    doc: ApiDocument,
    ps: Seq<(String, ReferenceOr<Box<Schema>>)>,
    ns: Seq<Seq<char>>,
    reg: Registered,
) -> Discovery
    decreases ps,
{
    if ps.len() == 0 {
        Discovery::Done(reg)
    } else {
        match visit_box_ref(doc, ps[0].1, ns.push(ps[0].0@), reg) {
            Discovery::Done(reg2) => visit_props(doc, ps.drop_first(), ns, reg2),
            other => other,
        }
    }
}


/// Only an inline schema is walked at a media type: a referenced one is
/// registered at its own `components.schemas` entry.
pub open spec fn visit_media(
    doc: ApiDocument,
    mt: MediaType,
    ns: Seq<Seq<char>>,
    reg: Registered,
) -> Discovery {
    match mt.schema {
        Some(ReferenceOr::Item(s)) => visit_schema(doc, s, ns, reg),
        _ => Discovery::Done(reg),
    }
}

pub open spec fn visit_contents(
    doc: ApiDocument,
    content: Seq<(String, MediaType)>,
    ns: Seq<Seq<char>>,
    reg: Registered,
) -> Discovery
    decreases content.len(),
{
    if content.len() == 0 {
        Discovery::Done(reg)
    } else {
        match visit_media(doc, content[0].1, ns.push(content[0].0@), reg) {
            Discovery::Done(reg2) => visit_contents(doc, content.drop_first(), ns, reg2),
            other => other,
        }
    }
}

pub open spec fn visit_response(
    doc: ApiDocument,
    r: ReferenceOr<Response>,
    ns: Seq<Seq<char>>,
    reg: Registered,
) -> Discovery {
    match r {
        ReferenceOr::Item(resp) => visit_contents(doc, resp.content@, ns, reg),
        _ => Discovery::Done(reg),
    }
}

pub open spec fn visit_named_responses(
    doc: ApiDocument,
    rs: Seq<(String, ReferenceOr<Response>)>,
    ns: Seq<Seq<char>>,
    reg: Registered,
) -> Discovery
    decreases rs.len(),
{
    if rs.len() == 0 {
        Discovery::Done(reg)
    } else {
        match visit_response(doc, rs[0].1, ns.push(rs[0].0@), reg) {
            Discovery::Done(reg2) => visit_named_responses(doc, rs.drop_first(), ns, reg2),
            other => other,
        }
    }
}

/// The default response shares the operation's namespace; the others are
/// named after their status.
pub open spec fn visit_responses(
    doc: ApiDocument,
    rs: Responses,
    ns: Seq<Seq<char>>,
    reg: Registered,
) -> Discovery {
    let first = match rs.default {
        Some(r) => visit_response(doc, r, ns, reg),
        None => Discovery::Done(reg),
    };
    match first {
        Discovery::Done(reg2) => visit_named_responses(doc, rs.responses@, ns, reg2),
        other => other,
    }
}

/// The namespace of an operation: its identifier where it has one, else the
/// namespace of its path.
pub open spec fn operation_namespace(op: Operation, ns: Seq<Seq<char>>) -> Seq<Seq<char>> {
    match op.operation_id {
        Some(id) => seq![id@],
        None => ns,
    }
}

pub open spec fn visit_operation(
    doc: ApiDocument,
    op: Option<Operation>,
    ns: Seq<Seq<char>>,
    reg: Registered,
) -> Discovery {
    match op {
        Some(op) => visit_responses(doc, op.responses, operation_namespace(op, ns), reg),
        None => Discovery::Done(reg),
    }
}

pub open spec fn visit_path_item(
    doc: ApiDocument,
    item: ReferenceOr<PathItem>,
    ns: Seq<Seq<char>>,
    reg: Registered,
) -> Discovery {
    match item {
        ReferenceOr::Item(pi) => match visit_operation(doc, pi.get, ns, reg) {
            Discovery::Done(r1) => match visit_operation(doc, pi.put, ns, r1) {
                Discovery::Done(r2) => match visit_operation(doc, pi.post, ns, r2) {
                    Discovery::Done(r3) => visit_operation(doc, pi.delete, ns, r3),
                    other => other,
                },
                other => other,
            },
            other => other,
        },
        _ => Discovery::Done(reg),
    }
}

pub open spec fn visit_paths(
    doc: ApiDocument,
    paths: Seq<(String, ReferenceOr<PathItem>)>,
    reg: Registered,
) -> Discovery
    decreases paths.len(),
{
    if paths.len() == 0 {
        Discovery::Done(reg)
    } else {
        match visit_path_item(doc, paths[0].1, seq![paths[0].0@], reg) {
            Discovery::Done(reg2) => visit_paths(doc, paths.drop_first(), reg2),
            other => other,
        }
    }
}

/// Every inline entry of `components.schemas` is registered at the top
/// level under its key; reference entries are skipped.
pub open spec fn visit_components(
    doc: ApiDocument,
    entries: Seq<(String, ReferenceOr<Schema>)>,
    reg: Registered,
) -> Discovery
    decreases entries.len(),
{
    if entries.len() == 0 {
        Discovery::Done(reg)
    } else {
        let first = match entries[0].1 {
            ReferenceOr::Item(s) => visit_schema(doc, s, seq![entries[0].0@], reg),
            _ => Discovery::Done(reg),
        };
        match first {
            Discovery::Done(reg2) => visit_components(doc, entries.drop_first(), reg2),
            other => other,
        }
    }
}

/// The whole walk over `doc`: its paths, then its components.
pub open spec fn discover(doc: ApiDocument) -> Discovery {
    match visit_paths(doc, doc.paths@, Seq::empty()) {
        Discovery::Done(reg) => match doc.components {
            Some(c) => visit_components(doc, c.schemas@, reg),
            None => Discovery::Done(reg),
        },
        other => other,
    }
}

/// Identifies a discovered schema: a namespace and a leaf name.
#[derive(Debug)]
pub struct Identifier {
    pub namespace: Vector<String>,
    pub name: String,
}

/// A schema of the document and the identifier it was registered under.
#[derive(Debug)]
pub struct SchemaEntry<'a> {
    pub id: Identifier,
    pub data: &'a Schema,
}

pub open spec fn entry_view<'a>(e: SchemaEntry<'a>) -> (Seq<Seq<char>>, Seq<char>, Schema) {
    (namespace_items(e.id.namespace), e.id.name@, *e.data)
}

/// The registry of discovered schemas, in the order of their discovery,
/// one entry per identifier.
#[derive(Debug)]
pub struct Schemas<'a> {
    data: Vec<SchemaEntry<'a>>,
}

impl<'a> View for Schemas<'a> {
    type V = Registered;

    closed spec fn view(&self) -> Registered {
        self.data@.map_values(|e: SchemaEntry<'a>| entry_view(e))
    }
}

#[derive(Debug)]
pub enum Error {
    CannotInferNameFromNamespace { namespace: Vector<String> },
    CannotUnref { source: unref::Error },
}

impl Error {
    pub open spec fn failure(&self) -> Discovery {
        match self {
            Error::CannotInferNameFromNamespace { namespace } => Discovery::NoName(
                namespace_items(*namespace),
            ),
            Error::CannotUnref { source } => Discovery::Unresolved(source.resolution()),
        }
    }
}

/// Whether `r`, with `reg` the registrations after it, is what the walk `d`
/// describes.
pub open spec fn outcome(r: Result<(), Error>, reg: Registered, d: Discovery) -> bool {
    match r {
        Ok(_) => d == Discovery::Done(reg),
        Err(e) => d == e.failure(),
    }
}

impl<'a> Schemas<'a> {
    pub fn new() -> (r: Schemas<'a>)
        ensures
            r@ == Seq::<(Seq<Seq<char>>, Seq<char>, Schema)>::empty(),
    {
        let r = Schemas { data: Vec::new() };
        assert(r@ =~= Seq::<(Seq<Seq<char>>, Seq<char>, Schema)>::empty());
        r
    }

    pub fn len(&self) -> (r: usize)
        ensures
            r == self@.len(),
    {
        self.data.len()
    }

    pub fn entry(&self, i: usize) -> (r: &SchemaEntry<'a>)
        requires
            i < self@.len(),
        ensures
            entry_view(*r) == self@[i as int],
    {
        &self.data[i]
    }

    /// Registers `data` under `namespace` and `name` unless an entry is
    /// there already.
    fn insert(&mut self, namespace: Vector<String>, name: String, data: &'a Schema)
        ensures
            final(self)@ == register(old(self)@, namespace_items(namespace), name@, *data),
    {
        let ghost ns = namespace_items(namespace);
        let mut i: usize = 0;
        while i < self.data.len()
            invariant
                i <= self.data@.len(),
                self@ == old(self)@,
                ns == namespace_items(namespace),
                forall|j: int|
                    0 <= j < i ==> !((#[trigger] self@[j]).0 == ns && self@[j].1 == name@),
            decreases self.data@.len() - i,
        {
            let e = &self.data[i];
            assert(self@[i as int] == entry_view(*e));
            let same_namespace = namespace_eq(&e.id.namespace, &namespace);
            let same_name = e.id.name.eq(&name);
            if same_namespace && same_name {
                assert(self@[i as int].0 == ns && self@[i as int].1 == name@);
                assert(is_registered(self@, ns, name@));
                return;
            }
            i = i + 1;
        }
        assert(!is_registered(self@, ns, name@)) by {
            assert(forall|j: int| 0 <= j < self@.len() ==> !((#[trigger] self@[j]).0 == ns && self@[j].1 == name@));
        }
        let ghost before = self@;
        self.data.push(SchemaEntry { id: Identifier { namespace, name }, data });
        assert(self@ =~= before.push((ns, name@, *data)));
    }
}

/// Where a walk stands: the namespace so far and the whole document.
pub struct VisitorContext<'a> {
    pub namespace: Vector<String>,
    pub all: &'a ApiDocument,
}

impl<'a> VisitorContext<'a> {
    /// The context one segment deeper.
    pub fn sub_namespace(&self, path: &str) -> (r: Self)
        ensures
            namespace_items(r.namespace) == namespace_items(self.namespace).push(path@),
            r.all == self.all,
    {
        let mut namespace = clone_namespace(&self.namespace);
        push_segment(&mut namespace, path.to_owned());
        VisitorContext { namespace, all: self.all }
    }

    /// The context of an operation: a fresh namespace named after its
    /// identifier, where it has one.
    pub fn maybe_replace_namespace(&self, path: Option<&String>) -> (r: Self)
        ensures
            namespace_items(r.namespace) == match path {
                Some(p) => seq![p@],
                None => namespace_items(self.namespace),
            },
            r.all == self.all,
    {
        match path {
            Some(p) => VisitorContext { namespace: unit_namespace(p.clone()), all: self.all },
            None => VisitorContext { namespace: clone_namespace(&self.namespace), all: self.all },
        }
    }
}

fn collect_json_schema<'a>(
    s: &'a Schema,
    store: &mut Schemas<'a>,
    context: &VisitorContext<'a>,
) -> (r: Result<(), Error>)
    ensures
        outcome(
            r,
            final(store)@,
            visit_schema(*context.all, *s, namespace_items(context.namespace), old(store)@),
        ),
    decreases s,
{
    let mut inner = clone_namespace(&context.namespace);
    let name = match pop_segment(&mut inner) {
        Some(name) => name,
        None => {
            return Err(Error::CannotInferNameFromNamespace { namespace: clone_namespace(&context.namespace) });
        },
    };
    store.insert(inner, name, s);
    match &s.schema_kind {
        SchemaKind::OneOf { one_of } => collect_members(one_of, store, context),
        SchemaKind::AllOf { all_of } => collect_members(all_of, store, context),
        SchemaKind::AnyOf { any_of } => collect_members(any_of, store, context),
        SchemaKind::Type(Type::Object(obj)) => {
            match collect_properties(&obj.properties, store, context) {
                Ok(()) => {},
                Err(e) => {
                    return Err(e);
                },
            }
            match &obj.additional_properties {
                Some(AdditionalProperties::Schema(r)) => collect_ref(&**r, store, context),
                _ => Ok(()),
            }
        },
        SchemaKind::Type(Type::Array(a)) => collect_box_ref(&a.items, store, context),
        _ => Ok(()),
    }
}

fn collect_ref<'a>(
    r: &'a ReferenceOr<Schema>,
    store: &mut Schemas<'a>,
    context: &VisitorContext<'a>,
) -> (res: Result<(), Error>)
    ensures
        outcome(
            res,
            final(store)@,
            visit_ref(*context.all, *r, namespace_items(context.namespace), old(store)@),
        ),
    decreases r,
{
    match r {
        ReferenceOr::Item(s) => collect_json_schema(s, store, context),
        ReferenceOr::Reference { .. } => match r.unref(context.all) {
            Ok(_) => Ok(()),
            Err(source) => Err(Error::CannotUnref { source }),
        },
    }
}

fn collect_box_ref<'a>(
    r: &'a ReferenceOr<Box<Schema>>,
    store: &mut Schemas<'a>,
    context: &VisitorContext<'a>,
) -> (res: Result<(), Error>)
    ensures
        outcome(
            res,
            final(store)@,
            visit_box_ref(*context.all, *r, namespace_items(context.namespace), old(store)@),
        ),
    decreases r,
{
    match r {
        ReferenceOr::Item(s) => collect_json_schema(&**s, store, context),
        ReferenceOr::Reference { .. } => match r.unref(context.all) {
            Ok(_) => Ok(()),
            Err(source) => Err(Error::CannotUnref { source }),
        },
    }
}

fn collect_members<'a>(
    ms: &'a Vec<ReferenceOr<Schema>>,
    store: &mut Schemas<'a>,
    context: &VisitorContext<'a>,
) -> (r: Result<(), Error>)
    ensures
        outcome(
            r,
            final(store)@,
            visit_members(*context.all, ms@, namespace_items(context.namespace), old(store)@),
        ),
    decreases ms,
{
    let ghost ns = namespace_items(context.namespace);
    let ghost doc = *context.all;
    let mut i: usize = 0;
    assert(ms@.subrange(0, ms@.len() as int) =~= ms@);
    while i < ms.len()
        invariant
            i <= ms@.len(),
            ns == namespace_items(context.namespace),
            doc == *context.all,
            visit_members(
                doc,
                ms@,
                ns,
                old(store)@) == visit_members(doc,
                ms@.subrange(i as int, ms@.len() as int),
                ns,
                store@,
            ),
        decreases ms@.len() - i,
    {
        let ghost rest = ms@.subrange(i as int, ms@.len() as int);
        assert(rest.drop_first() =~= ms@.subrange(i + 1, ms@.len() as int));
        assert(rest[0] == ms@[i as int]);
        match collect_ref(&ms[i], store, context) {
            Ok(()) => {},
            Err(e) => {
                return Err(e);
            },
        }
        i = i + 1;
    }
    Ok(())
}

fn collect_properties<'a>(
    ps: &'a Vec<(String, ReferenceOr<Box<Schema>>)>,
    store: &mut Schemas<'a>,
    context: &VisitorContext<'a>,
) -> (r: Result<(), Error>)
    ensures
        outcome(
            r,
            final(store)@,
            visit_props(*context.all, ps@, namespace_items(context.namespace), old(store)@),
        ),
    decreases ps,
{
    let ghost ns = namespace_items(context.namespace);
    let ghost doc = *context.all;
    let mut i: usize = 0;
    assert(ps@.subrange(0, ps@.len() as int) =~= ps@);
    while i < ps.len()
        invariant
            i <= ps@.len(),
            ns == namespace_items(context.namespace),
            doc == *context.all,
            visit_props(
                doc,
                ps@,
                ns,
                old(store)@) == visit_props(doc,
                ps@.subrange(i as int, ps@.len() as int),
                ns,
                store@,
            ),
        decreases ps@.len() - i,
    {
        let ghost rest = ps@.subrange(i as int, ps@.len() as int);
        assert(rest.drop_first() =~= ps@.subrange(i + 1, ps@.len() as int));
        assert(rest[0] == ps@[i as int]);
        let (name, prop) = &ps[i];
        proof {
            assert(decreases_to!(ps => ps[i as int]));
        }
        match collect_box_ref(prop, store, &context.sub_namespace(name.as_str())) {
            Ok(()) => {},
            Err(e) => {
                return Err(e);
            },
        }
        i = i + 1;
    }
    Ok(())
}

fn collect_media<'a>(
    mt: &'a MediaType,
    store: &mut Schemas<'a>,
    context: &VisitorContext<'a>,
) -> (r: Result<(), Error>)
    ensures
        outcome(
            r,
            final(store)@,
            visit_media(*context.all, *mt, namespace_items(context.namespace), old(store)@),
        ),
{
    match &mt.schema {
        Some(ReferenceOr::Item(item)) => collect_json_schema(item, store, context),
        _ => Ok(()),
    }
}

#[verifier::loop_isolation(false)]
fn collect_response<'a>(
    r: &'a ReferenceOr<Response>,
    store: &mut Schemas<'a>,
    context: &VisitorContext<'a>,
) -> (res: Result<(), Error>)
    ensures
        outcome(
            res,
            final(store)@,
            visit_response(*context.all, *r, namespace_items(context.namespace), old(store)@),
        ),
{
    let resp = match r {
        ReferenceOr::Item(resp) => resp,
        _ => {
            return Ok(());
        },
    };
    let ghost ns = namespace_items(context.namespace);
    let ghost doc = *context.all;
    let content = &resp.content;
    let mut i: usize = 0;
    assert(content@.subrange(0, content@.len() as int) =~= content@);
    while i < content.len()
        invariant
            i <= content@.len(),
            ns == namespace_items(context.namespace),
            doc == *context.all,
            visit_contents(
                doc,
                content@,
                ns,
                old(store)@) == visit_contents(doc,
                content@.subrange(i as int, content@.len() as int),
                ns,
                store@,
            ),
        decreases content@.len() - i,
    {
        let ghost rest = content@.subrange(i as int, content@.len() as int);
        assert(rest.drop_first() =~= content@.subrange(i + 1, content@.len() as int));
        assert(rest[0] == content@[i as int]);
        let (name, media) = &content[i];
        match collect_media(media, store, &context.sub_namespace(name.as_str())) {
            Ok(()) => {},
            Err(e) => {
                return Err(e);
            },
        }
        i = i + 1;
    }
    Ok(())
}

#[verifier::loop_isolation(false)]
fn collect_responses<'a>(
    rs: &'a Responses,
    store: &mut Schemas<'a>,
    context: &VisitorContext<'a>,
) -> (r: Result<(), Error>)
    ensures
        outcome(
            r,
            final(store)@,
            visit_responses(*context.all, *rs, namespace_items(context.namespace), old(store)@),
        ),
{
    let ghost ns = namespace_items(context.namespace);
    let ghost doc = *context.all;
    if let Some(res) = &rs.default {
        match collect_response(res, store, context) {
            Ok(()) => {},
            Err(e) => {
                return Err(e);
            },
        }
    }
    let ghost start = store@;
    assert(visit_responses(doc, *rs, ns, old(store)@) == visit_named_responses(doc, rs.responses@, ns, start));
    let named = &rs.responses;
    let mut i: usize = 0;
    assert(named@.subrange(0, named@.len() as int) =~= named@);
    while i < named.len()
        invariant
            i <= named@.len(),
            ns == namespace_items(context.namespace),
            doc == *context.all,
            visit_named_responses(
                doc,
                named@,
                ns,
                start) == visit_named_responses(doc,
                named@.subrange(i as int, named@.len() as int),
                ns,
                store@,
            ),
        decreases named@.len() - i,
    {
        let ghost rest = named@.subrange(i as int, named@.len() as int);
        assert(rest.drop_first() =~= named@.subrange(i + 1, named@.len() as int));
        assert(rest[0] == named@[i as int]);
        let (status, response) = &named[i];
        match collect_response(response, store, &context.sub_namespace(status.as_str())) {
            Ok(()) => {},
            Err(e) => {
                return Err(e);
            },
        }
        i = i + 1;
    }
    Ok(())
}

fn collect_operation<'a>(
    op: &'a Option<Operation>,
    store: &mut Schemas<'a>,
    context: &VisitorContext<'a>,
) -> (r: Result<(), Error>)
    ensures
        outcome(
            r,
            final(store)@,
            visit_operation(*context.all, *op, namespace_items(context.namespace), old(store)@),
        ),
{
    match op {
        Some(op) => collect_responses(&op.responses, store, &context.maybe_replace_namespace(op.operation_id.as_ref())),
        None => Ok(()),
    }
}

fn collect_path_item<'a>(
    item: &'a ReferenceOr<PathItem>,
    store: &mut Schemas<'a>,
    context: &VisitorContext<'a>,
) -> (r: Result<(), Error>)
    ensures
        outcome(
            r,
            final(store)@,
            visit_path_item(*context.all, *item, namespace_items(context.namespace), old(store)@),
        ),
{
    let pi = match item {
        ReferenceOr::Item(pi) => pi,
        _ => {
            return Ok(());
        },
    };
    match collect_operation(&pi.get, store, context) {
        Ok(()) => {},
        Err(e) => {
            return Err(e);
        },
    }
    match collect_operation(&pi.put, store, context) {
        Ok(()) => {},
        Err(e) => {
            return Err(e);
        },
    }
    match collect_operation(&pi.post, store, context) {
        Ok(()) => {},
        Err(e) => {
            return Err(e);
        },
    }
    collect_operation(&pi.delete, store, context)
}

#[verifier::loop_isolation(false)]
fn collect_paths<'a>(all: &'a ApiDocument, store: &mut Schemas<'a>) -> (r: Result<(), Error>)
    ensures
        outcome(r, final(store)@, visit_paths(*all, all.paths@, old(store)@)),
{
    let paths = &all.paths;
    let mut i: usize = 0;
    assert(paths@.subrange(0, paths@.len() as int) =~= paths@);
    while i < paths.len()
        invariant
            i <= paths@.len(),
            visit_paths(
                *all,
                paths@,
                old(store)@) == visit_paths(*all,
                paths@.subrange(i as int, paths@.len() as int),
                store@,
            ),
        decreases paths@.len() - i,
    {
        let ghost rest = paths@.subrange(i as int, paths@.len() as int);
        assert(rest.drop_first() =~= paths@.subrange(i + 1, paths@.len() as int));
        assert(rest[0] == paths@[i as int]);
        let (path, item) = &paths[i];
        let context = VisitorContext { namespace: unit_namespace(path.clone()), all };
        match collect_path_item(item, store, &context) {
            Ok(()) => {},
            Err(e) => {
                return Err(e);
            },
        }
        i = i + 1;
    }
    Ok(())
}

#[verifier::loop_isolation(false)]
fn collect_components<'a>(
    components: &'a Components,
    all: &'a ApiDocument,
    store: &mut Schemas<'a>,
) -> (r: Result<(), Error>)
    ensures
        outcome(r, final(store)@, visit_components(*all, components.schemas@, old(store)@)),
{
    let entries = &components.schemas;
    let mut i: usize = 0;
    assert(entries@.subrange(0, entries@.len() as int) =~= entries@);
    while i < entries.len()
        invariant
            i <= entries@.len(),
            visit_components(
                *all,
                entries@,
                old(store)@) == visit_components(*all,
                entries@.subrange(i as int, entries@.len() as int),
                store@,
            ),
        decreases entries@.len() - i,
    {
        let ghost rest = entries@.subrange(i as int, entries@.len() as int);
        assert(rest.drop_first() =~= entries@.subrange(i + 1, entries@.len() as int));
        assert(rest[0] == entries@[i as int]);
        let (name, schema) = &entries[i];
        if let ReferenceOr::Item(schema) = schema {
            let context = VisitorContext { namespace: unit_namespace(name.clone()), all };
            match collect_json_schema(schema, store, &context) {
                Ok(()) => {},
                Err(e) => {
                    return Err(e);
                },
            }
        }
        i = i + 1;
    }
    Ok(())
}

/// Whether `r` is what discovery over `doc` comes to.
pub open spec fn discovered(doc: ApiDocument, r: Result<Schemas, Error>) -> bool {
    match r {
        Ok(s) => discover(doc) == Discovery::Done(s@),
        Err(e) => discover(doc) == e.failure(),
    }
}

/// Walks the whole document and registers every schema it meets.
pub fn collect_schemas<'a>(input: &'a ApiDocument) -> (r: Result<Schemas<'a>, Error>)
    ensures
        discovered(*input, r),
{
    let mut store = Schemas::new();
    match collect_paths(input, &mut store) {
        Ok(()) => {},
        Err(e) => {
            return Err(e);
        },
    }
    if let Some(components) = &input.components {
        match collect_components(components, input, &mut store) {
            Ok(()) => {},
            Err(e) => {
                return Err(e);
            },
        }
    }
    Ok(store)
}

/// The namespace segments, each followed by a `.`.
pub open spec fn dotted_prefix(ns: Seq<Seq<char>>) -> Seq<char>
    decreases ns.len(),
{
    if ns.len() == 0 {
        Seq::empty()
    } else {
        dotted_prefix(ns.drop_last()) + ns.last() + seq!['.']
    }
}

/// The fully qualified key of an identifier: its namespace segments and its
/// name, joined by `.`.
pub open spec fn qualified_name(ns: Seq<Seq<char>>, name: Seq<char>) -> Seq<char> {
    dotted_prefix(ns) + name
}

impl Identifier {
    pub fn to_string(&self) -> (r: String)
        ensures
            r@ == qualified_name(namespace_items(self.namespace), self.name@),
    {
        let segments = namespace_segments(&self.namespace);
        let ghost ns = namespace_items(self.namespace);
        let mut out = String::new();
        let mut i: usize = 0;
        proof {
            reveal_strlit(".");
        }
        while i < segments.len()
            invariant
                i <= segments@.len(),
                segments@.map_values(|s: String| s@) == ns,
                out@ == dotted_prefix(ns.subrange(0, i as int)),
                ".".view() == seq!['.'],
            decreases segments@.len() - i,
        {
            assert(ns.subrange(0, i + 1).drop_last() =~= ns.subrange(0, i as int));
            assert(ns[i as int] == segments@[i as int]@);
            out.append(segments[i].as_str());
            out.append(".");
            assert(out@ =~= dotted_prefix(ns.subrange(0, i + 1)));
            i = i + 1;
        }
        assert(ns.subrange(0, i as int) =~= ns);
        out.append(self.name.as_str());
        out
    }
}

impl<'a> Schemas<'a> {
    /// The fully qualified key of every entry, in registry order.
    pub fn keys(&self) -> (r: Vec<String>)
        ensures
            r@.len() == self@.len(),
            forall|i: int|
                0 <= i < self@.len() ==> (#[trigger] r@[i])@ == qualified_name(self@[i].0, self@[i].1),
    {
        let mut r: Vec<String> = Vec::new();
        let mut i: usize = 0;
        while i < self.data.len()
            invariant
                i <= self@.len(),
                r@.len() == i,
                forall|j: int|
                    0 <= j < i ==> (#[trigger] r@[j])@ == qualified_name(self@[j].0, self@[j].1),
            decreases self@.len() - i,
        {
            assert(self@[i as int] == entry_view(self.data@[i as int]));
            r.push(self.data[i].id.to_string());
            i = i + 1;
        }
        r
    }
}

/// Discovery is a function of the document: two runs over the same document
/// register the same identifiers with the same schemas in the same order, or
/// fail with the same failure.
pub proof fn lemma_discovery_idempotent(
    doc: ApiDocument,
    first: Result<Schemas, Error>,
    second: Result<Schemas, Error>,
)
    requires
        discovered(doc, first),
        discovered(doc, second),
    ensures
        first is Ok <==> second is Ok,
        first is Ok ==> first->Ok_0@ == second->Ok_0@,
        first is Err ==> first->Err_0.failure() == second->Err_0.failure(),
{
}

} // verus!
