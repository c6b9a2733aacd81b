//! The type model builder: declarations for every top-level object schema,
//! and, transitively, for the nested schemas it needs.
//!
//! Only entries registered under the empty namespace (those of
//! `components.schemas`) are synthesized from the registry; nested schemas
//! are reached through their parents and named `<parent>::<field>`. A
//! reference stands for the declaration of the schema it names, never for an
//! inline copy of it. A declaration under a name already taken is dropped:
//! the first one stays.
use vstd::prelude::*;
use crate::document::{
    AdditionalProperties, ArrayType, ObjectType, ReferenceOr, Schema, SchemaKind, StringType, Type,
};
use crate::generate::impls::{
    self, field_ident_text, type_ident_text, valid_field_name, valid_type_ident,
};
use crate::generate::syntax::parses_as_type;
use crate::generate::types::{
    decl_name, ContainerAttributes, ContainerView, DataEnumFields, DataEnumVariant, DataVariantView,
    DeclView, FieldAttributes, FieldName, FieldView, FieldsView, IdentView, PlainEnumVariant,
    PlainVariantView, RustType, StructField, TypeIdent, TypeName, VariantAttributes,
};
use crate::json_pointer::{pointer_components, JsonPointer, ParseJsonPointerError};
use crate::namespace::namespace_segments;
use crate::schemas::{entry_view, Registered, Schemas};
use crate::text::text_eq;
use crate::unref::is_schema_pointer;

verus! {

broadcast use vstd::std_specs::vec::axiom_vec_index_decreases;

#[allow(inconsistent_fields)]
#[derive(Debug)]
pub enum Error {
    TemplateError { source: impls::Error },
    InvalidJsonPointer { source: ParseJsonPointerError },
    UnsupportedReference { reference: JsonPointer },
}

/// Why synthesis stopped: a name that makes no identifier or type, a
/// reference that is no pointer, or one outside `components.schemas`.
pub enum Failure {
    Template(Seq<char>),
    InvalidPointer(Seq<char>),
    Unsupported(Seq<Seq<char>>),
}

impl Error {
    pub open spec fn failure(&self) -> Failure {
        match self {
            Error::TemplateError { source } => Failure::Template(source.token()),
            Error::InvalidJsonPointer { source } => Failure::InvalidPointer(source.refused_text()),
            Error::UnsupportedReference { reference } => Failure::Unsupported(reference@),
        }
    }
}

/// The first of two failures, in the order the steps are taken.
pub open spec fn first(a: Option<Failure>, b: Option<Failure>) -> Option<Failure> {
    if a is Some {
        a
    } else {
        b
    }
}

/// Whether `r` succeeds exactly when `f` is `None`, and otherwise fails
/// with `f`.
pub open spec fn fails_as<T>(r: Result<T, Error>, f: Option<Failure>) -> bool {
    match r {
        Ok(_) => f is None,
        Err(e) => f == Some(e.failure()),
    }
}

pub open spec fn ident_failure(raw: Seq<char>) -> Option<Failure> {
    if valid_type_ident(raw) {
        None
    } else {
        Some(Failure::Template(raw))
    }
}

pub open spec fn field_name_failure(raw: Seq<char>) -> Option<Failure> {
    if valid_field_name(raw) {
        None
    } else {
        Some(Failure::Template(raw))
    }
}

pub open spec fn type_failure(text: Seq<char>) -> Option<Failure> {
    if parses_as_type(text) {
        None
    } else {
        Some(Failure::Template(text))
    }
}

/// Whether some declaration in `v` is named `n`.
pub open spec fn declares(v: Seq<DeclView>, n: Seq<char>) -> bool {
    exists|i: int| 0 <= i < v.len() && decl_name(#[trigger] v[i]) == n
}

/// No two declarations share a name.
pub open spec fn distinct_names(v: Seq<DeclView>) -> bool {
    forall|i: int, j: int|
        0 <= i < v.len() && 0 <= j < v.len() && i != j ==> decl_name(#[trigger] v[i])
            != decl_name(#[trigger] v[j])
}

/// `v` followed by `t`, unless a declaration of that name is there already.
pub open spec fn insert_first(v: Seq<DeclView>, t: DeclView) -> Seq<DeclView> {
    if declares(v, decl_name(t)) {
        v
    } else {
        v.push(t)
    }
}

/// Whether `after` keeps every declaration of `before`, in place.
pub open spec fn extends(before: Seq<DeclView>, after: Seq<DeclView>) -> bool {
    before.len() <= after.len() && after.subrange(0, before.len() as int) == before
}

/// The synthesized declarations, in the order of their synthesis, one per
/// name: a later declaration under a name already taken is dropped.
#[derive(Debug)]
pub struct Types {
    entries: Vec<RustType>,
}

impl View for Types {
    type V = Seq<DeclView>;

    closed spec fn view(&self) -> Seq<DeclView> {
        self.entries@.map_values(|t: RustType| t@)
    }
}

impl Types {
    pub fn new() -> (r: Types)
        ensures
            r@ == Seq::<DeclView>::empty(),
    {
        let r = Types { entries: Vec::new() };
        assert(r@ =~= Seq::<DeclView>::empty());
        r
    }

    pub fn entries(&self) -> (r: &Vec<RustType>)
        ensures
            r@.map_values(|t: RustType| t@) == self@,
    {
        &self.entries
    }

    /// Adds `t` unless a declaration of the same name is there already; the
    /// first one stays.
    pub(crate) fn insert(&mut self, t: RustType)
        requires
            distinct_names(old(self)@),
        ensures
            final(self)@ == insert_first(old(self)@, t@),
            distinct_names(final(self)@),
            extends(old(self)@, final(self)@),
            declares(final(self)@, decl_name(t@)),
    {
        let name = t.name();
        let mut i: usize = 0;
        while i < self.entries.len()
            invariant
                i <= self@.len(),
                self@ == old(self)@,
                distinct_names(self@),
                name@ == decl_name(t@),
                forall|j: int| 0 <= j < i ==> decl_name(#[trigger] self@[j]) != name@,
            decreases self@.len() - i,
        {
            let other = self.entries[i].name();
            assert(self@[i as int] == self.entries@[i as int]@);
            if other.eq(&name) {
                assert(decl_name(self@[i as int]) == name@);
                assert(self@.subrange(0, self@.len() as int) =~= self@);
                return;
            }
            i = i + 1;
        }
        let ghost before = self@;
        let ghost tv = t@;
        self.entries.push(t);
        assert(self@ =~= before.push(tv));
        assert(self@.subrange(0, before.len() as int) =~= before);
        assert(decl_name(self@[before.len() as int]) == decl_name(tv));
    }
}

/// The name of a nested schema: its parent's name, `::`, its own.
pub open spec fn nested_name(parent: Seq<char>, name: Seq<char>) -> Seq<char> {
    parent + "::"@ + name
}

/// The entry of `components.schemas` that the reference written `reference`
/// names, where it names one.
pub open spec fn ref_target_name(reference: Seq<char>) -> Option<Seq<char>> {
    match pointer_components(reference) {
        Some(p) => if is_schema_pointer(p) {
            Some(p[2])
        } else {
            None
        },
        None => None,
    }
}

/// How turning the reference written `reference` into a type fails, if it
/// does.
pub open spec fn ref_failure(reference: Seq<char>) -> Option<Failure> {
    match pointer_components(reference) {
        None => Some(Failure::InvalidPointer(reference)),
        Some(p) => if !is_schema_pointer(p) {
            Some(Failure::Unsupported(p))
        } else {
            ident_failure(p[2])
        },
    }
}

/// The type a reference stands for: the declaration of the schema it names.
pub open spec fn ref_text(reference: Seq<char>) -> Seq<char> {
    type_ident_text(ref_target_name(reference)->Some_0)
}

fn type_name_from_ref(r: &str) -> (res: Result<TypeIdent, Error>)
    ensures
        fails_as(res, ref_failure(r@)),
        res matches Ok(t) ==> t.ident@ == ref_text(r@) && t.raw@ == ref_target_name(r@)->Some_0,
{
    let reference = match JsonPointer::from_str(r) {
        Ok(p) => p,
        Err(source) => {
            return Err(Error::InvalidJsonPointer { source });
        },
    };
    let parts = reference.components();
    proof {
        reveal_strlit("components");
        reveal_strlit("schemas");
        assert(parts@.len() == reference@.len());
    }
    if parts.len() != 3 || !text_eq(parts[0], "components") || !text_eq(parts[1], "schemas") {
        proof {
            if parts@.len() == 3 {
                assert(parts@[0]@ == reference@[0]);
                assert(parts@[1]@ == reference@[1]);
            }
        }
        return Err(Error::UnsupportedReference { reference });
    }
    assert(parts@[2]@ == reference@[2]);
    match TypeIdent::try_from(parts[2]) {
        Ok(t) => Ok(t),
        Err(source) => Err(Error::TemplateError { source }),
    }
}

/// The identifier made of `raw` for a type, beside `raw`.
pub open spec fn ident_view(raw: Seq<char>) -> IdentView {
    IdentView { raw, ident: type_ident_text(raw) }
}

/// The unit variant for the literal `lit`, renamed to it.
pub open spec fn plain_variant_decl(lit: Seq<char>) -> PlainVariantView {
    PlainVariantView { name: ident_view(lit), rename: Some(lit) }
}

/// The plain enumeration named after `name` with one unit variant per
/// literal, each renamed to its literal.
pub open spec fn plain_enum_decl(name: Seq<char>, literals: Seq<String>) -> DeclView {
    DeclView::PlainEnum {
        name: ident_view(name),
        variants: Seq::new(literals.len(), |i: int| plain_variant_decl(literals[i]@)),
        attributes: ContainerView { rename: None, untagged: false },
    }
}

pub open spec fn literals_failure(literals: Seq<String>) -> Option<Failure>
    decreases literals.len(),
{
    if literals.len() == 0 {
        None
    } else {
        first(ident_failure(literals[0]@), literals_failure(literals.drop_first()))
    }
}

fn nested_string_enum(name: &str, variants: &Vec<String>) -> (r: Result<RustType, Error>)
    ensures
        fails_as(r, first(ident_failure(name@), literals_failure(variants@))),
        r matches Ok(t) ==> t@ == plain_enum_decl(name@, variants@),
{
    let enum_name = match TypeIdent::try_from(name) {
        Ok(t) => t,
        Err(source) => {
            return Err(Error::TemplateError { source });
        },
    };
    let mut out: Vec<PlainEnumVariant> = Vec::new();
    let mut i: usize = 0;
    assert(variants@.subrange(0, variants@.len() as int) =~= variants@);
    while i < variants.len()
        invariant
            i <= variants@.len(),
            out@.len() == i,
            valid_type_ident(name@),
            literals_failure(variants@) == literals_failure(
                variants@.subrange(i as int, variants@.len() as int),
            ),
            forall|j: int|
                0 <= j < i ==> (#[trigger] out@[j])@ == plain_variant_decl(variants@[j]@),
        decreases variants@.len() - i,
    {
        let ghost rest = variants@.subrange(i as int, variants@.len() as int);
        assert(rest.drop_first() =~= variants@.subrange(i + 1, variants@.len() as int));
        assert(rest[0] == variants@[i as int]);
        let t = &variants[i];
        let ident = match TypeIdent::try_from(t.as_str()) {
            Ok(ident) => ident,
            Err(source) => {
                assert(literals_failure(rest) == Some(Failure::Template(t@)));
                return Err(Error::TemplateError { source });
            },
        };
        out.push(PlainEnumVariant { name: ident, attributes: VariantAttributes { rename: Some(t.clone()) } });
        i = i + 1;
    }
    assert(variants@.subrange(i as int, variants@.len() as int).len() == 0);
    let r = RustType::PlainEnum { name: enum_name, variants: out, attributes: ContainerAttributes::default() };
    assert(r@ == plain_enum_decl(name@, variants@)) by {
        assert(out@.map_values(|v: PlainEnumVariant| v@) =~= Seq::new(
            variants@.len(),
            |i: int| plain_variant_decl(variants@[i]@),
        ));
    }
    Ok(r)
}

pub proof fn lemma_extends_refl(a: Seq<DeclView>)
    ensures
        extends(a, a),
{
    assert(a.subrange(0, a.len() as int) =~= a);
}

pub proof fn lemma_extends_trans(a: Seq<DeclView>, b: Seq<DeclView>, c: Seq<DeclView>)
    requires
        extends(a, b),
        extends(b, c),
    ensures
        extends(a, c),
{
    assert(c.subrange(0, a.len() as int) =~= b.subrange(0, a.len() as int));
}

pub open spec fn digit_char(d: nat) -> char {
    if d == 0 {
        '0'
    } else if d == 1 {
        '1'
    } else if d == 2 {
        '2'
    } else if d == 3 {
        '3'
    } else if d == 4 {
        '4'
    } else if d == 5 {
        '5'
    } else if d == 6 {
        '6'
    } else if d == 7 {
        '7'
    } else if d == 8 {
        '8'
    } else {
        '9'
    }
}

/// The decimal digits of `n`.
pub open spec fn decimal(n: nat) -> Seq<char>
    decreases n,
{
    if n < 10 {
        seq![digit_char(n)]
    } else {
        decimal(n / 10).push(digit_char(n % 10))
    }
}

fn digit_text(d: usize) -> (r: &'static str)
    requires
        d < 10,
    ensures
        r@ == seq![digit_char(d as nat)],
{
    proof {
        reveal_strlit("0");
        reveal_strlit("1");
        reveal_strlit("2");
        reveal_strlit("3");
        reveal_strlit("4");
        reveal_strlit("5");
        reveal_strlit("6");
        reveal_strlit("7");
        reveal_strlit("8");
        reveal_strlit("9");
    }
    if d == 0 {
        "0"
    } else if d == 1 {
        "1"
    } else if d == 2 {
        "2"
    } else if d == 3 {
        "3"
    } else if d == 4 {
        "4"
    } else if d == 5 {
        "5"
    } else if d == 6 {
        "6"
    } else if d == 7 {
        "7"
    } else if d == 8 {
        "8"
    } else {
        "9"
    }
}

fn decimal_text(n: usize) -> (r: String)
    ensures
        r@ == decimal(n as nat),
    decreases n,
{
    if n < 10 {
        digit_text(n).to_owned()
    } else {
        let mut r = decimal_text(n / 10);
        r.append(digit_text(n % 10));
        r
    }
}

/// The name of the variant at `i` of a union enumeration.
pub open spec fn variant_name(i: nat) -> Seq<char> {
    "Variant"@ + decimal(i)
}

/// The type that the nested schema `s`, named `name` inside `parent`,
/// stands for.
pub open spec fn nested_text(parent: Seq<char>, name: Seq<char>, s: Schema) -> Seq<char>
    decreases s,
{
    let full = nested_name(parent, name);
    match s.schema_kind {
        SchemaKind::Type(Type::String(st)) => if st.enumeration@.len() == 0 {
            "String"@
        } else {
            type_ident_text(full)
        },
        SchemaKind::Type(Type::Number) => "f64"@,
        SchemaKind::Type(Type::Integer) => "u64"@,
        SchemaKind::Type(Type::Boolean) => "bool"@,
        SchemaKind::Type(Type::Object(obj)) => if obj.properties@.len() == 0 {
            match obj.additional_properties {
                Some(AdditionalProperties::Any(_)) => "std::collections::BTreeMap<String, serde_json::Value>"@,
                Some(AdditionalProperties::Schema(r)) => "std::collections::BTreeMap<String, "@ + match *r {
                    ReferenceOr::Reference { reference } => ref_text(reference@),
                    ReferenceOr::Item(inner) => nested_text(full, "Additional"@, inner),
                } + ">"@,
                None => type_ident_text(full),
            }
        } else {
            type_ident_text(full)
        },
        SchemaKind::Type(Type::Array(a)) => "Vec<"@ + match a.items {
            ReferenceOr::Reference { reference } => ref_text(reference@),
            ReferenceOr::Item(b) => nested_text(parent, name, *b),
        } + ">"@,
        SchemaKind::OneOf { .. } => type_ident_text(full),
        _ => "serde_json::Value"@,
    }
}

/// The type of the field made of property `name` of the struct `full`.
pub open spec fn field_text(
    full: Seq<char>,
    name: Seq<char>,
    r: ReferenceOr<Box<Schema>>,
) -> Seq<char> {
    match r {
        ReferenceOr::Reference { reference } => ref_text(reference@),
        ReferenceOr::Item(b) => nested_text(full, name, *b),
    }
}

/// The type that member `m` at `i` of the union enumeration `n` wraps.
pub open spec fn member_text(n: Seq<char>, i: nat, m: ReferenceOr<Schema>) -> Seq<char> {
    match m {
        ReferenceOr::Reference { reference } => ref_text(reference@),
        ReferenceOr::Item(s) => nested_text(n, variant_name(i), s),
    }
}

/// How synthesizing the nested schema `s`, named `name` inside `parent`,
/// fails, if it does: the first name that makes no identifier or type, or
/// the first reference that names no entry of `components.schemas`.
pub open spec fn nested_failure(parent: Seq<char>, name: Seq<char>, s: Schema) -> Option<Failure>
    decreases s,
{
    let full = nested_name(parent, name);
    match s.schema_kind {
        SchemaKind::Type(Type::String(st)) => if st.enumeration@.len() == 0 {
            None
        } else {
            first(ident_failure(full), literals_failure(st.enumeration@))
        },
        SchemaKind::Type(Type::Object(obj)) => if obj.properties@.len() == 0 {
            match obj.additional_properties {
                Some(AdditionalProperties::Any(_)) => None,
                Some(AdditionalProperties::Schema(r)) => match *r {
                    ReferenceOr::Reference { reference } => ref_failure(reference@),
                    ReferenceOr::Item(inner) => nested_failure(full, "Additional"@, inner),
                },
                None => first(props_failure(full, obj.properties@), ident_failure(full)),
            }
        } else {
            first(props_failure(full, obj.properties@), ident_failure(full))
        },
        SchemaKind::Type(Type::Array(a)) => match a.items {
            ReferenceOr::Reference { reference } => ref_failure(reference@),
            ReferenceOr::Item(b) => nested_failure(parent, name, *b),
        },
        SchemaKind::OneOf { one_of } => first(
            ident_failure(full),
            members_failure(type_ident_text(full), one_of@, 0),
        ),
        _ => None,
    }
}

pub open spec fn field_failure(
    full: Seq<char>,
    name: Seq<char>,
    r: ReferenceOr<Box<Schema>>,
) -> Option<Failure>
    decreases r,
{
    let inner = match r {
        ReferenceOr::Reference { reference } => ref_failure(reference@),
        ReferenceOr::Item(b) => nested_failure(full, name, *b),
    };
    first(inner, first(field_name_failure(name), type_failure(field_text(full, name, r))))
}

pub open spec fn props_failure(
    full: Seq<char>,
    ps: Seq<(String, ReferenceOr<Box<Schema>>)>,
) -> Option<Failure>
    decreases ps,
{
    if ps.len() == 0 {
        None
    } else {
        first(field_failure(full, ps[0].0@, ps[0].1), props_failure(full, ps.drop_first()))
    }
}

pub open spec fn member_failure(n: Seq<char>, i: nat, m: ReferenceOr<Schema>) -> Option<Failure>
    decreases m,
{
    let inner = match m {
        ReferenceOr::Reference { reference } => ref_failure(reference@),
        ReferenceOr::Item(s) => nested_failure(n, variant_name(i), s),
    };
    first(inner, first(ident_failure(variant_name(i)), type_failure(member_text(n, i, m))))
}

pub open spec fn members_failure(
    n: Seq<char>,
    ms: Seq<ReferenceOr<Schema>>,
    i: nat,
) -> Option<Failure>
    decreases ms,
{
    if ms.len() == 0 {
        None
    } else {
        first(member_failure(n, i, ms[0]), members_failure(n, ms.drop_first(), i + 1))
    }
}

/// How synthesizing the struct for `obj`, named `full`, fails, if it does:
/// its fields first, then its own name.
pub open spec fn struct_failure(full: Seq<char>, obj: ObjectType) -> Option<Failure> {
    first(props_failure(full, obj.properties@), ident_failure(full))
}

pub open spec fn is_required(required: Seq<String>, name: Seq<char>) -> bool {
    exists|j: int| 0 <= j < required.len() && (#[trigger] required[j])@ == name
}

/// The field made of property `name` of the struct `full`: renamed to the
/// property's name, and optional as given.
pub open spec fn field_decl(
    full: Seq<char>,
    name: Seq<char>,
    r: ReferenceOr<Box<Schema>>,
    optional: bool,
) -> FieldView {
    FieldView {
        name: IdentView { raw: name, ident: field_ident_text(name) },
        rename: Some(name),
        field_type: IdentView { raw: field_text(full, name, r), ident: field_text(full, name, r) },
        optional,
    }
}

/// The field made of the property at `i` of `obj`, optional exactly when
/// `obj` does not require it.
pub open spec fn property_field(full: Seq<char>, obj: ObjectType, i: int) -> FieldView {
    field_decl(
        full,
        obj.properties@[i].0@,
        obj.properties@[i].1,
        !is_required(obj.required@, obj.properties@[i].0@),
    )
}

/// The struct named after `full` with one field per property of `obj`, in
/// order.
pub open spec fn struct_decl(full: Seq<char>, obj: ObjectType) -> DeclView {
    DeclView::Struct {
        name: ident_view(full),
        fields: Seq::new(obj.properties@.len(), |i: int| property_field(full, obj, i)),
        attributes: ContainerView { rename: Some(full), untagged: false },
    }
}

/// The variant at `i` of the union enumeration `n`, wrapping the type of
/// member `m`.
pub open spec fn variant_decl(n: Seq<char>, i: nat, m: ReferenceOr<Schema>) -> DataVariantView {
    DataVariantView {
        name: ident_view(variant_name(i)),
        rename: None,
        fields: FieldsView::Unnamed(
            seq![IdentView { raw: member_text(n, i, m), ident: member_text(n, i, m) }],
        ),
    }
}

/// The untagged union enumeration named after `full` with one variant per
/// member of `ms`.
pub open spec fn union_decl(full: Seq<char>, ms: Seq<ReferenceOr<Schema>>) -> DeclView {
    DeclView::DataEnum {
        name: ident_view(full),
        variants: Seq::new(ms.len(), |i: int| variant_decl(type_ident_text(full), i as nat, ms[i])),
        attributes: ContainerView { rename: None, untagged: true },
    }
}

/// The declarations after synthesizing the nested schema `s`, named `name`
/// inside `parent`, with `reg` before: the declarations it needs, inner ones
/// first, each added unless its name is taken.
pub open spec fn nested_after(
    parent: Seq<char>,
    name: Seq<char>,
    s: Schema,
    reg: Seq<DeclView>,
) -> Seq<DeclView>
    decreases s,
{
    let full = nested_name(parent, name);
    match s.schema_kind {
        SchemaKind::Type(Type::String(st)) => if st.enumeration@.len() == 0 {
            reg
        } else {
            insert_first(reg, plain_enum_decl(full, st.enumeration@))
        },
        SchemaKind::Type(Type::Object(obj)) => if obj.properties@.len() == 0 {
            match obj.additional_properties {
                Some(AdditionalProperties::Any(_)) => reg,
                Some(AdditionalProperties::Schema(r)) => match *r {
                    ReferenceOr::Reference { .. } => reg,
                    ReferenceOr::Item(inner) => nested_after(full, "Additional"@, inner, reg),
                },
                None => insert_first(props_after(full, obj.properties@, reg), struct_decl(full, obj)),
            }
        } else {
            insert_first(props_after(full, obj.properties@, reg), struct_decl(full, obj))
        },
        SchemaKind::Type(Type::Array(a)) => match a.items {
            ReferenceOr::Reference { .. } => reg,
            ReferenceOr::Item(b) => nested_after(parent, name, *b, reg),
        },
        SchemaKind::OneOf { one_of } => insert_first(
            members_after(type_ident_text(full), one_of@, 0, reg),
            union_decl(full, one_of@),
        ),
        _ => reg,
    }
}

pub open spec fn field_after(
    full: Seq<char>,
    name: Seq<char>,
    r: ReferenceOr<Box<Schema>>,
    reg: Seq<DeclView>,
) -> Seq<DeclView>
    decreases r,
{
    match r {
        ReferenceOr::Reference { .. } => reg,
        ReferenceOr::Item(b) => nested_after(full, name, *b, reg),
    }
}

pub open spec fn props_after(
    full: Seq<char>,
    ps: Seq<(String, ReferenceOr<Box<Schema>>)>,
    reg: Seq<DeclView>,
) -> Seq<DeclView>
    decreases ps,
{
    if ps.len() == 0 {
        reg
    } else {
        props_after(full, ps.drop_first(), field_after(full, ps[0].0@, ps[0].1, reg))
    }
}

pub open spec fn member_after(
    n: Seq<char>,
    i: nat,
    m: ReferenceOr<Schema>,
    reg: Seq<DeclView>,
) -> Seq<DeclView>
    decreases m,
{
    match m {
        ReferenceOr::Reference { .. } => reg,
        ReferenceOr::Item(s) => nested_after(n, variant_name(i), s, reg),
    }
}

pub open spec fn members_after(
    n: Seq<char>,
    ms: Seq<ReferenceOr<Schema>>,
    i: nat,
    reg: Seq<DeclView>,
) -> Seq<DeclView>
    decreases ms,
{
    if ms.len() == 0 {
        reg
    } else {
        members_after(n, ms.drop_first(), i + 1, member_after(n, i, ms[0], reg))
    }
}

/// The declarations after synthesizing the struct for `obj`, named `full`:
/// those its fields need, then the struct itself.
pub open spec fn struct_after(
    full: Seq<char>,
    obj: ObjectType,
    reg: Seq<DeclView>,
) -> Seq<DeclView> {
    insert_first(props_after(full, obj.properties@, reg), struct_decl(full, obj))
}

fn nested_name_text(parent: &str, name: &str) -> (r: String)
    ensures
        r@ == nested_name(parent@, name@),
{
    let mut r = String::from_str(parent);
    r.append("::");
    r.append(name);
    r
}

fn required_contains(required: &Vec<String>, name: &str) -> (r: bool)
    ensures
        r == is_required(required@, name@),
{
    let mut i: usize = 0;
    while i < required.len()
        invariant
            i <= required@.len(),
            forall|j: int| 0 <= j < i ==> (#[trigger] required@[j])@ != name@,
        decreases required@.len() - i,
    {
        if text_eq(required[i].as_str(), name) {
            return true;
        }
        i = i + 1;
    }
    false
}

/// Synthesizes the nested schema `schema`, named `schema_name` inside
/// `parent_name`, and returns the type that stands for it. Declarations it
/// needs are added to `types`.
fn build_nested_schema(
    parent_name: &str,
    schema_name: &str,
    schema: &Schema,
    types: &mut Types,
) -> (r: Result<String, Error>)
    requires
        distinct_names(old(types)@),
    ensures
        distinct_names(final(types)@),
        extends(old(types)@, final(types)@),
        fails_as(r, nested_failure(parent_name@, schema_name@, *schema)),
        r matches Ok(n) ==> n@ == nested_text(parent_name@, schema_name@, *schema),
        r is Ok ==> final(types)@ == nested_after(parent_name@, schema_name@, *schema, old(types)@),
    decreases schema,
{
    proof {
        lemma_extends_refl(types@);
    }
    let name = nested_name_text(parent_name, schema_name);
    match &schema.schema_kind {
        SchemaKind::Type(Type::String(StringType { enumeration })) => {
            if enumeration.len() == 0 {
                Ok("String".to_owned())
            } else {
                let new_enum = match nested_string_enum(name.as_str(), enumeration) {
                    Ok(t) => t,
                    Err(e) => {
                        return Err(e);
                    },
                };
                let new_enum_name = new_enum.name();
                types.insert(new_enum);
                Ok(new_enum_name)
            }
        },
        SchemaKind::Type(Type::Number) => Ok("f64".to_owned()),
        SchemaKind::Type(Type::Integer) => Ok("u64".to_owned()),
        SchemaKind::Type(Type::Boolean) => Ok("bool".to_owned()),
        SchemaKind::Type(Type::Object(obj)) => {
            if obj.properties.len() == 0 {
                match &obj.additional_properties {
                    Some(AdditionalProperties::Any(_)) => {
                        return Ok("std::collections::BTreeMap<String, serde_json::Value>".to_owned());
                    },
                    Some(AdditionalProperties::Schema(r)) => {
                        let value_type_name = match &**r {
                            ReferenceOr::Reference { reference } => match type_name_from_ref(reference.as_str()) {
                                Ok(t) => t.ident,
                                Err(e) => {
                                    return Err(e);
                                },
                            },
                            ReferenceOr::Item(inner) => match build_nested_schema(name.as_str(), "Additional", inner, types) {
                                Ok(n) => n,
                                Err(e) => {
                                    return Err(e);
                                },
                            },
                        };
                        let mut t = String::from_str("std::collections::BTreeMap<String, ");
                        t.append(value_type_name.as_str());
                        t.append(">");
                        return Ok(t);
                    },
                    None => {},
                }
            }
            let t = match struct_type(name.as_str(), obj, types) {
                Ok(t) => t,
                Err(e) => {
                    return Err(e);
                },
            };
            let n = t.name();
            let ghost before = types@;
            types.insert(t);
            proof {
                lemma_extends_trans(old(types)@, before, types@);
            }
            Ok(n)
        },
        SchemaKind::Type(Type::Array(ArrayType { items })) => {
            let nested_schema_name = match items {
                ReferenceOr::Reference { reference } => match type_name_from_ref(reference.as_str()) {
                    Ok(t) => t.ident,
                    Err(e) => {
                        return Err(e);
                    },
                },
                ReferenceOr::Item(b) => match build_nested_schema(parent_name, schema_name, &**b, types) {
                    Ok(n) => n,
                    Err(e) => {
                        return Err(e);
                    },
                },
            };
            let mut t = String::from_str("Vec<");
            t.append(nested_schema_name.as_str());
            t.append(">");
            Ok(t)
        },
        SchemaKind::OneOf { one_of } => {
            let t = match union_enum(name.as_str(), one_of, types) {
                Ok(t) => t,
                Err(e) => {
                    return Err(e);
                },
            };
            let n = t.name();
            let ghost before = types@;
            types.insert(t);
            proof {
                lemma_extends_trans(old(types)@, before, types@);
            }
            Ok(n)
        },
        _ => Ok("serde_json::Value".to_owned()),
    }
}

/// The field made of property `name` of the struct `parent_name`.
fn struct_field(
    parent_name: &str,
    name: &str,
    input: &ReferenceOr<Box<Schema>>,
    optional: bool,
    types: &mut Types,
) -> (r: Result<StructField, Error>)
    requires
        distinct_names(old(types)@),
    ensures
        distinct_names(final(types)@),
        extends(old(types)@, final(types)@),
        fails_as(r, field_failure(parent_name@, name@, *input)),
        r matches Ok(f) ==> f@ == field_decl(parent_name@, name@, *input, optional),
        r is Ok ==> final(types)@ == field_after(parent_name@, name@, *input, old(types)@),
    decreases input,
{
    proof {
        lemma_extends_refl(types@);
    }
    let type_text = match input {
        ReferenceOr::Reference { reference } => match type_name_from_ref(reference.as_str()) {
            Ok(t) => t.ident,
            Err(e) => {
                return Err(e);
            },
        },
        ReferenceOr::Item(schema) => match build_nested_schema(parent_name, name, &**schema, types) {
            Ok(n) => n,
            Err(e) => {
                return Err(e);
            },
        },
    };
    let field_name = match FieldName::try_from(name) {
        Ok(f) => f,
        Err(source) => {
            return Err(Error::TemplateError { source });
        },
    };
    let field_type = match TypeName::try_from(type_text.as_str()) {
        Ok(t) => t,
        Err(source) => {
            return Err(Error::TemplateError { source });
        },
    };
    Ok(StructField {
        name: field_name,
        attributes: FieldAttributes { rename: Some(name.to_owned()) },
        field_type,
        optional,
    })
}

/// The struct made of the object schema `obj`, named `schema_name`; the
/// declarations its fields need are added to `types`.
#[verifier::loop_isolation(false)]
fn struct_type(
    schema_name: &str,
    obj: &ObjectType,
    types: &mut Types,
) -> (r: Result<RustType, Error>)
    requires
        distinct_names(old(types)@),
    ensures
        distinct_names(final(types)@),
        extends(old(types)@, final(types)@),
        fails_as(r, struct_failure(schema_name@, *obj)),
        r matches Ok(t) ==> t@ == struct_decl(schema_name@, *obj),
        r is Ok ==> final(types)@ == props_after(schema_name@, obj.properties@, old(types)@),
    decreases obj,
{
    proof {
        lemma_extends_refl(types@);
    }
    let properties = &obj.properties;
    let mut fields: Vec<StructField> = Vec::new();
    let mut i: usize = 0;
    assert(properties@.subrange(0, properties@.len() as int) =~= properties@);
    while i < properties.len()
        invariant
            i <= properties@.len(),
            fields@.len() == i,
            distinct_names(types@),
            extends(old(types)@, types@),
            props_failure(schema_name@, properties@) == props_failure(
                schema_name@,
                properties@.subrange(i as int, properties@.len() as int),
            ),
            props_after(schema_name@, properties@, old(types)@) == props_after(
                schema_name@,
                properties@.subrange(i as int, properties@.len() as int),
                types@,
            ),
            forall|j: int|
                0 <= j < i ==> (#[trigger] fields@[j])@ == property_field(schema_name@, *obj, j),
        decreases properties@.len() - i,
    {
        let ghost rest = properties@.subrange(i as int, properties@.len() as int);
        assert(rest.drop_first() =~= properties@.subrange(i + 1, properties@.len() as int));
        assert(rest[0] == properties@[i as int]);
        let (prop_name, prop) = &properties[i];
        let optional = !required_contains(&obj.required, prop_name.as_str());
        let ghost before = types@;
        let field = match struct_field(schema_name, prop_name.as_str(), prop, optional, types) {
            Ok(f) => f,
            Err(e) => {
                proof {
                    lemma_extends_trans(old(types)@, before, types@);
                }
                return Err(e);
            },
        };
        proof {
            lemma_extends_trans(old(types)@, before, types@);
        }
        fields.push(field);
        i = i + 1;
    }
    let name = match TypeIdent::try_from(schema_name) {
        Ok(t) => t,
        Err(source) => {
            return Err(Error::TemplateError { source });
        },
    };
    let r = RustType::Struct {
        name,
        fields,
        attributes: ContainerAttributes { rename: Some(schema_name.to_owned()), untagged: false },
    };
    assert(r@ == struct_decl(schema_name@, *obj)) by {
        assert(fields@.map_values(|f: StructField| f@) =~= Seq::new(
            obj.properties@.len(),
            |i: int| property_field(schema_name@, *obj, i),
        ));
    }
    assert(properties@.subrange(i as int, properties@.len() as int).len() == 0);
    Ok(r)
}

/// Synthesizes the struct for `obj`, named `schema_name`, adds it to
/// `types` unless a declaration of that name is there, and returns its
/// name.
fn build_struct_schema(
    schema_name: &str,
    obj: &ObjectType,
    types: &mut Types,
) -> (r: Result<String, Error>)
    requires
        distinct_names(old(types)@),
    ensures
        distinct_names(final(types)@),
        extends(old(types)@, final(types)@),
        fails_as(r, struct_failure(schema_name@, *obj)),
        r matches Ok(n) ==> n@ == type_ident_text(schema_name@),
        r is Ok ==> final(types)@ == struct_after(schema_name@, *obj, old(types)@),
{
    let t = match struct_type(schema_name, obj, types) {
        Ok(t) => t,
        Err(e) => {
            return Err(e);
        },
    };
    let name = t.name();
    let ghost before = types@;
    types.insert(t);
    proof {
        lemma_extends_trans(old(types)@, before, types@);
    }
    Ok(name)
}

/// The untagged union enumeration made of the members `one_of`, named
/// `name`; the declarations its members need are added to `types`.
#[verifier::loop_isolation(false)]
fn union_enum(
    name: &str,
    one_of: &Vec<ReferenceOr<Schema>>,
    types: &mut Types,
) -> (r: Result<RustType, Error>)
    requires
        distinct_names(old(types)@),
    ensures
        distinct_names(final(types)@),
        extends(old(types)@, final(types)@),
        fails_as(
            r,
            first(ident_failure(name@), members_failure(type_ident_text(name@), one_of@, 0)),
        ),
        r matches Ok(t) ==> t@ == union_decl(name@, one_of@),
        r is Ok ==> final(types)@ == members_after(type_ident_text(name@), one_of@, 0, old(types)@),
    decreases one_of,
{
    proof {
        lemma_extends_refl(types@);
    }
    let enum_name = match TypeIdent::try_from(name) {
        Ok(t) => t,
        Err(source) => {
            return Err(Error::TemplateError { source });
        },
    };
    let n = enum_name.ident.clone();
    let mut variants: Vec<DataEnumVariant> = Vec::new();
    let mut i: usize = 0;
    assert(one_of@.subrange(0, one_of@.len() as int) =~= one_of@);
    while i < one_of.len()
        invariant
            i <= one_of@.len(),
            n@ == type_ident_text(name@),
            variants@.len() == i,
            distinct_names(types@),
            extends(old(types)@, types@),
            members_failure(n@, one_of@, 0) == members_failure(
                n@,
                one_of@.subrange(i as int, one_of@.len() as int),
                i as nat,
            ),
            members_after(n@, one_of@, 0, old(types)@) == members_after(
                n@,
                one_of@.subrange(i as int, one_of@.len() as int),
                i as nat,
                types@,
            ),
            forall|j: int|
                0 <= j < i ==> (#[trigger] variants@[j])@ == variant_decl(n@, j as nat, one_of@[j]),
        decreases one_of@.len() - i,
    {
        let ghost rest = one_of@.subrange(i as int, one_of@.len() as int);
        assert(rest.drop_first() =~= one_of@.subrange(i + 1, one_of@.len() as int));
        assert(rest[0] == one_of@[i as int]);
        let mut vname = String::from_str("Variant");
        vname.append(decimal_text(i).as_str());
        assert(vname@ == variant_name(i as nat));
        let ghost before = types@;
        proof {
            lemma_extends_refl(before);
        }
        let nested_schema_name = match &one_of[i] {
            ReferenceOr::Reference { reference } => match type_name_from_ref(reference.as_str()) {
                Ok(t) => t.ident,
                Err(e) => {
                    assert(member_failure(n@, i as nat, one_of@[i as int]) == Some(e.failure()));
                    assert(members_failure(n@, rest, i as nat) == Some(e.failure()));
                    return Err(e);
                },
            },
            ReferenceOr::Item(schema) => match build_nested_schema(n.as_str(), vname.as_str(), schema, types) {
                Ok(s) => s,
                Err(e) => {
                    assert(member_failure(n@, i as nat, one_of@[i as int]) == Some(e.failure()));
                    assert(members_failure(n@, rest, i as nat) == Some(e.failure()));
                    proof {
                        lemma_extends_trans(old(types)@, before, types@);
                    }
                    return Err(e);
                },
            },
        };
        proof {
            lemma_extends_trans(old(types)@, before, types@);
        }
        assert(nested_schema_name@ == member_text(n@, i as nat, one_of@[i as int]));
        let variant_ident = match TypeIdent::try_from(vname.as_str()) {
            Ok(t) => t,
            Err(source) => {
                assert(!valid_type_ident(variant_name(i as nat)));
                assert(member_failure(n@, i as nat, one_of@[i as int]) == Some(Failure::Template(vname@)));
                assert(members_failure(n@, rest, i as nat) == Some(Failure::Template(vname@)));
                return Err(Error::TemplateError { source });
            },
        };
        let wrapped = match TypeName::try_from(nested_schema_name.as_str()) {
            Ok(t) => t,
            Err(source) => {
                assert(!parses_as_type(member_text(n@, i as nat, one_of@[i as int])));
                assert(member_failure(n@, i as nat, one_of@[i as int]) == Some(
                    Failure::Template(nested_schema_name@),
                ));
                assert(members_failure(n@, rest, i as nat) == Some(Failure::Template(nested_schema_name@)));
                return Err(Error::TemplateError { source });
            },
        };
        assert(member_after(n@, i as nat, one_of@[i as int], before) == types@);
        assert(members_after(n@, rest, i as nat, before) == members_after(
            n@,
            rest.drop_first(),
            (i + 1) as nat,
            types@,
        ));
        let ghost wrapped_view = wrapped@;
        let mut fields: Vec<TypeName> = Vec::new();
        fields.push(wrapped);
        assert(fields@.map_values(|t: TypeName| t@) =~= seq![wrapped_view]);
        let variant = DataEnumVariant {
            name: variant_ident,
            attributes: VariantAttributes::default(),
            fields: DataEnumFields::Unnamed { fields },
        };
        assert(variant@ == variant_decl(n@, i as nat, one_of@[i as int]));
        variants.push(variant);
        assert(member_failure(n@, i as nat, one_of@[i as int]) is None);
        assert(members_failure(n@, rest, i as nat) == members_failure(
            n@,
            rest.drop_first(),
            (i + 1) as nat,
        ));
        i = i + 1;
    }
    let r = RustType::DataEnum {
        name: enum_name,
        variants,
        attributes: ContainerAttributes { rename: None, untagged: true },
    };
    assert(r@ == union_decl(name@, one_of@)) by {
        assert(variants@.map_values(|v: DataEnumVariant| v@) =~= Seq::new(
            one_of@.len(),
            |i: int| variant_decl(type_ident_text(name@), i as nat, one_of@[i]),
        ));
    }
    assert(one_of@.subrange(i as int, one_of@.len() as int).len() == 0);
    Ok(r)
}

/// Whether a registry entry is synthesized as a struct of its own: an object
/// schema registered at the top level.
pub open spec fn top_level_object(e: (Seq<Seq<char>>, Seq<char>, Schema)) -> bool {
    e.0.len() == 0 && e.2.schema_kind matches SchemaKind::Type(Type::Object(_))
}

/// How synthesizing the registry entry `e` fails, if it does.
pub open spec fn entry_failure(e: (Seq<Seq<char>>, Seq<char>, Schema)) -> Option<Failure> {
    if top_level_object(e) {
        struct_failure(e.1, e.2.schema_kind->Type_0->Object_0)
    } else {
        None
    }
}

/// How synthesizing the entries of `entries` in order fails, if it does:
/// the first entry that fails.
pub open spec fn registry_failure(entries: Registered) -> Option<Failure>
    decreases entries.len(),
{
    if entries.len() == 0 {
        None
    } else {
        first(entry_failure(entries[0]), registry_failure(entries.drop_first()))
    }
}

/// The declarations after synthesizing the registry entry `e`.
pub open spec fn entry_after(
    e: (Seq<Seq<char>>, Seq<char>, Schema),
    reg: Seq<DeclView>,
) -> Seq<DeclView> {
    if top_level_object(e) {
        struct_after(e.1, e.2.schema_kind->Type_0->Object_0, reg)
    } else {
        reg
    }
}

/// The declarations after synthesizing every entry of `entries` in order.
pub open spec fn registry_after(entries: Registered, reg: Seq<DeclView>) -> Seq<DeclView>
    decreases entries.len(),
{
    if entries.len() == 0 {
        reg
    } else {
        registry_after(entries.drop_first(), entry_after(entries[0], reg))
    }
}

/// Synthesizes a struct for every top-level object schema of the registry,
/// in registry order, with the declarations they need.
pub fn build(schemas: &Schemas) -> (r: Result<Types, Error>)
    ensures
        fails_as(r, registry_failure(schemas@)),
        r matches Ok(types) ==> types@ == registry_after(schemas@, Seq::empty()),
        r matches Ok(types) ==> distinct_names(types@),
{
    let mut res = Types::new();
    let mut i: usize = 0;
    assert(schemas@.subrange(0, schemas@.len() as int) =~= schemas@);
    while i < schemas.len()
        invariant
            i <= schemas@.len(),
            distinct_names(res@),
            registry_failure(schemas@) == registry_failure(
                schemas@.subrange(i as int, schemas@.len() as int),
            ),
            registry_after(schemas@, Seq::empty()) == registry_after(
                schemas@.subrange(i as int, schemas@.len() as int),
                res@,
            ),
        decreases schemas@.len() - i,
    {
        let ghost rest = schemas@.subrange(i as int, schemas@.len() as int);
        assert(rest.drop_first() =~= schemas@.subrange(i + 1, schemas@.len() as int));
        assert(rest[0] == schemas@[i as int]);
        let entry = schemas.entry(i);
        let segments = namespace_segments(&entry.id.namespace);
        assert(entry_view(*entry) == schemas@[i as int]);
        if segments.len() == 0 {
            assert(segments@.map_values(|s: String| s@).len() == segments@.len());
            if let SchemaKind::Type(Type::Object(obj)) = &entry.data.schema_kind {
                match build_struct_schema(entry.id.name.as_str(), obj, &mut res) {
                    Ok(_) => {},
                    Err(e) => {
                        assert(entry_failure(schemas@[i as int]) == Some(e.failure()));
                        return Err(e);
                    },
                }
            }
        }
        i = i + 1;
    }
    Ok(res)
}

/// A string schema without an enumeration always stands for the primitive
/// text type, wherever it is a field, and adds no declaration: it never
/// becomes a plain enumeration.
pub proof fn lemma_empty_enumeration_is_text(
    full: Seq<char>,
    name: Seq<char>,
    b: Box<Schema>,
    reg: Seq<DeclView>,
)
    requires
        b.schema_kind matches SchemaKind::Type(Type::String(st)) && st.enumeration@.len() == 0,
    ensures
        field_text(full, name, ReferenceOr::Item(b)) == "String"@,
        field_after(full, name, ReferenceOr::Item(b), reg) == reg,
{
}

/// A synthesized struct keeps, for each field, the raw name of the property
/// it was made of, whatever identifier the field got; and a field is
/// optional exactly when its property is not required.
pub proof fn lemma_struct_fields_round_trip(full: Seq<char>, obj: ObjectType, i: int)
    requires
        0 <= i < obj.properties@.len(),
    ensures
        struct_decl(full, obj) matches DeclView::Struct { fields, .. } && {
            let f = fields[i];
            &&& f.rename == Some(obj.properties@[i].0@)
            &&& f.name.raw == obj.properties@[i].0@
            &&& (f.optional <==> !is_required(obj.required@, obj.properties@[i].0@))
        },
{
}

/// A synthesized plain enumeration has one unit variant per literal, each
/// renamed to its literal.
pub proof fn lemma_plain_enum_variants(name: Seq<char>, literals: Seq<String>, i: int)
    requires
        0 <= i < literals.len(),
    ensures
        plain_enum_decl(name, literals) matches DeclView::PlainEnum { variants, .. } && {
            &&& variants.len() == literals.len()
            &&& variants[i].rename == Some(literals[i]@)
        },
{
}

/// Whether a declaration keeps the raw name of every field and every unit
/// variant as its rename.
pub open spec fn keeps_raw_names(d: DeclView) -> bool {
    match d {
        DeclView::Struct { fields, .. } => forall|i: int|
            0 <= i < fields.len() ==> (#[trigger] fields[i]).rename == Some(fields[i].name.raw),
        DeclView::PlainEnum { variants, .. } => forall|i: int|
            0 <= i < variants.len() ==> (#[trigger] variants[i]).rename == Some(variants[i].name.raw),
        DeclView::DataEnum { .. } => true,
    }
}

pub open spec fn all_keep_raw_names(reg: Seq<DeclView>) -> bool {
    forall|i: int| 0 <= i < reg.len() ==> keeps_raw_names(#[trigger] reg[i])
}

proof fn lemma_insert_keeps(reg: Seq<DeclView>, d: DeclView)
    requires
        all_keep_raw_names(reg),
        keeps_raw_names(d),
    ensures
        all_keep_raw_names(insert_first(reg, d)),
{
    if !declares(reg, decl_name(d)) {
        assert forall|i: int| 0 <= i < reg.push(d).len() implies keeps_raw_names(#[trigger] reg.push(d)[i]) by {
            if i < reg.len() {
                assert(reg.push(d)[i] == reg[i]);
            }
        }
    }
}

proof fn lemma_nested_keeps(parent: Seq<char>, name: Seq<char>, s: Schema, reg: Seq<DeclView>)
    requires
        all_keep_raw_names(reg),
    ensures
        all_keep_raw_names(nested_after(parent, name, s, reg)),
    decreases s,
{
    let full = nested_name(parent, name);
    match s.schema_kind {
        SchemaKind::Type(Type::String(st)) => {
            if st.enumeration@.len() > 0 {
                lemma_insert_keeps(reg, plain_enum_decl(full, st.enumeration@));
            }
        },
        SchemaKind::Type(Type::Object(obj)) => {
            if obj.properties@.len() == 0 && obj.additional_properties is Some {
                if let Some(AdditionalProperties::Schema(r)) = obj.additional_properties {
                    if let ReferenceOr::Item(inner) = *r {
                        lemma_nested_keeps(full, "Additional"@, inner, reg);
                    }
                }
            } else {
                lemma_props_keep(full, obj.properties@, reg);
                lemma_insert_keeps(props_after(full, obj.properties@, reg), struct_decl(full, obj));
            }
        },
        SchemaKind::Type(Type::Array(a)) => {
            if let ReferenceOr::Item(b) = a.items {
                lemma_nested_keeps(parent, name, *b, reg);
            }
        },
        SchemaKind::OneOf { one_of } => {
            lemma_members_keep(type_ident_text(full), one_of@, 0, reg);
            lemma_insert_keeps(members_after(type_ident_text(full), one_of@, 0, reg), union_decl(full, one_of@));
        },
        _ => {},
    }
}

proof fn lemma_field_keeps(
    full: Seq<char>,
    name: Seq<char>,
    r: ReferenceOr<Box<Schema>>,
    reg: Seq<DeclView>,
)
    requires
        all_keep_raw_names(reg),
    ensures
        all_keep_raw_names(field_after(full, name, r, reg)),
    decreases r,
{
    if let ReferenceOr::Item(b) = r {
        lemma_nested_keeps(full, name, *b, reg);
    }
}

proof fn lemma_props_keep(
    full: Seq<char>,
    ps: Seq<(String, ReferenceOr<Box<Schema>>)>,
    reg: Seq<DeclView>,
)
    requires
        all_keep_raw_names(reg),
    ensures
        all_keep_raw_names(props_after(full, ps, reg)),
    decreases ps,
{
    if ps.len() > 0 {
        lemma_field_keeps(full, ps[0].0@, ps[0].1, reg);
        lemma_props_keep(full, ps.drop_first(), field_after(full, ps[0].0@, ps[0].1, reg));
    }
}

proof fn lemma_member_keeps(n: Seq<char>, i: nat, m: ReferenceOr<Schema>, reg: Seq<DeclView>)
    requires
        all_keep_raw_names(reg),
    ensures
        all_keep_raw_names(member_after(n, i, m, reg)),
    decreases m,
{
    if let ReferenceOr::Item(s) = m {
        lemma_nested_keeps(n, variant_name(i), s, reg);
    }
}

proof fn lemma_members_keep(n: Seq<char>, ms: Seq<ReferenceOr<Schema>>, i: nat, reg: Seq<DeclView>)
    requires
        all_keep_raw_names(reg),
    ensures
        all_keep_raw_names(members_after(n, ms, i, reg)),
    decreases ms,
{
    if ms.len() > 0 {
        lemma_member_keeps(n, i, ms[0], reg);
        lemma_members_keep(n, ms.drop_first(), i + 1, member_after(n, i, ms[0], reg));
    }
}

proof fn lemma_registry_keeps(entries: Registered, reg: Seq<DeclView>)
    requires
        all_keep_raw_names(reg),
    ensures
        all_keep_raw_names(registry_after(entries, reg)),
    decreases entries.len(),
{
    if entries.len() > 0 {
        let e = entries[0];
        if top_level_object(e) {
            let obj = e.2.schema_kind->Type_0->Object_0;
            lemma_props_keep(e.1, obj.properties@, reg);
            lemma_insert_keeps(props_after(e.1, obj.properties@, reg), struct_decl(e.1, obj));
        }
        lemma_registry_keeps(entries.drop_first(), entry_after(e, reg));
    }
}

/// Every field of every struct that synthesis declares, and every unit
/// variant of every plain enumeration, carries the raw name it was made of
/// as its rename, whatever identifier it got.
pub proof fn lemma_raw_names_recoverable(schemas: Registered)
    ensures
        all_keep_raw_names(registry_after(schemas, Seq::empty())),
{
    lemma_registry_keeps(schemas, Seq::empty());
}

} // verus!
