//! The intermediate representation of synthesized declarations.
use vstd::prelude::*;

verus! {

#[derive(Debug)]
#[allow(inconsistent_fields)]
pub enum RustType {
    PlainEnum { name: TypeIdent, variants: Vec<PlainEnumVariant>, attributes: ContainerAttributes },
    DataEnum { name: TypeIdent, variants: Vec<DataEnumVariant>, attributes: ContainerAttributes },
    Struct { name: TypeIdent, fields: Vec<StructField>, attributes: ContainerAttributes },
}

#[derive(Debug)]
pub struct PlainEnumVariant {
    pub name: TypeIdent,
    pub attributes: VariantAttributes,
}

#[derive(Debug)]
pub struct DataEnumVariant {
    pub name: TypeIdent,
    pub attributes: VariantAttributes,
    pub fields: DataEnumFields,
}

#[derive(Debug)]
#[allow(inconsistent_fields)]
pub enum DataEnumFields {
    Named { fields: Vec<StructField> },
    Unnamed { fields: Vec<TypeName> },
}

#[derive(Debug)]
pub struct StructField {
    pub name: FieldName,
    pub attributes: FieldAttributes,
    pub field_type: TypeName,
    pub optional: bool,
}

/// A type-like identifier and the raw name it was made from.
#[derive(Debug)]
pub struct TypeIdent {
    pub raw: String,
    pub ident: String,
}

/// A field-like identifier and the raw name it was made from.
#[derive(Debug)]
pub struct FieldName {
    pub raw: String,
    pub ident: String,
}

/// The text of a type expression, such as `Vec<String>`.
#[derive(Debug)]
pub struct TypeName {
    pub raw: String,
    pub ident: String,
}

#[derive(Debug)]
pub struct ContainerAttributes {
    pub rename: Option<String>,
    pub untagged: bool,
}

#[derive(Debug)]
pub struct VariantAttributes {
    pub rename: Option<String>,
}

#[derive(Debug)]
pub struct FieldAttributes {
    pub rename: Option<String>,
}

impl Default for ContainerAttributes {
    fn default() -> (r: Self)
        ensures
            r.rename is None,
            !r.untagged,
    {
        ContainerAttributes { rename: None, untagged: false }
    }
}

impl Default for VariantAttributes {
    fn default() -> (r: Self)
        ensures
            r.rename is None,
    {
        VariantAttributes { rename: None }
    }
}

impl Default for FieldAttributes {
    fn default() -> (r: Self)
        ensures
            r.rename is None,
    {
        FieldAttributes { rename: None }
    }
}

/// An identifier as text: the raw name and the identifier made of it.
pub struct IdentView {
    pub raw: Seq<char>,
    pub ident: Seq<char>,
}

pub struct FieldView {
    pub name: IdentView,
    pub rename: Option<Seq<char>>,
    pub field_type: IdentView,
    pub optional: bool,
}

pub struct PlainVariantView {
    pub name: IdentView,
    pub rename: Option<Seq<char>>,
}

pub enum FieldsView {
    Named(Seq<FieldView>),
    Unnamed(Seq<IdentView>),
}

pub struct DataVariantView {
    pub name: IdentView,
    pub rename: Option<Seq<char>>,
    pub fields: FieldsView,
}

pub struct ContainerView {
    pub rename: Option<Seq<char>>,
    pub untagged: bool,
}

/// A declaration as text.
#[allow(inconsistent_fields)]
pub enum DeclView {
    PlainEnum { name: IdentView, variants: Seq<PlainVariantView>, attributes: ContainerView },
    DataEnum { name: IdentView, variants: Seq<DataVariantView>, attributes: ContainerView },
    Struct { name: IdentView, fields: Seq<FieldView>, attributes: ContainerView },
}

pub open spec fn rename_view(r: Option<String>) -> Option<Seq<char>> {
    match r {
        Some(s) => Some(s@),
        None => None,
    }
}

impl View for TypeIdent {
    type V = IdentView;

    open spec fn view(&self) -> IdentView {
        IdentView { raw: self.raw@, ident: self.ident@ }
    }
}

impl View for FieldName {
    type V = IdentView;

    open spec fn view(&self) -> IdentView {
        IdentView { raw: self.raw@, ident: self.ident@ }
    }
}

impl View for TypeName {
    type V = IdentView;

    open spec fn view(&self) -> IdentView {
        IdentView { raw: self.raw@, ident: self.ident@ }
    }
}

impl View for ContainerAttributes {
    type V = ContainerView;

    open spec fn view(&self) -> ContainerView {
        ContainerView { rename: rename_view(self.rename), untagged: self.untagged }
    }
}

impl View for StructField {
    type V = FieldView;

    open spec fn view(&self) -> FieldView {
        FieldView {
            name: self.name@,
            rename: rename_view(self.attributes.rename),
            field_type: self.field_type@,
            optional: self.optional,
        }
    }
}

impl View for PlainEnumVariant {
    type V = PlainVariantView;

    open spec fn view(&self) -> PlainVariantView {
        PlainVariantView { name: self.name@, rename: rename_view(self.attributes.rename) }
    }
}

impl View for DataEnumFields {
    type V = FieldsView;

    open spec fn view(&self) -> FieldsView {
        match self {
            DataEnumFields::Named { fields } => FieldsView::Named(
                fields@.map_values(|f: StructField| f@),
            ),
            DataEnumFields::Unnamed { fields } => FieldsView::Unnamed(
                fields@.map_values(|t: TypeName| t@),
            ),
        }
    }
}

impl View for DataEnumVariant {
    type V = DataVariantView;

    open spec fn view(&self) -> DataVariantView {
        DataVariantView {
            name: self.name@,
            rename: rename_view(self.attributes.rename),
            fields: self.fields@,
        }
    }
}

impl View for RustType {
    type V = DeclView;

    open spec fn view(&self) -> DeclView {
        match self {
            RustType::PlainEnum { name, variants, attributes } => DeclView::PlainEnum {
                name: name@,
                variants: variants@.map_values(|v: PlainEnumVariant| v@),
                attributes: attributes@,
            },
            RustType::DataEnum { name, variants, attributes } => DeclView::DataEnum {
                name: name@,
                variants: variants@.map_values(|v: DataEnumVariant| v@),
                attributes: attributes@,
            },
            RustType::Struct { name, fields, attributes } => DeclView::Struct {
                name: name@,
                fields: fields@.map_values(|f: StructField| f@),
                attributes: attributes@,
            },
        }
    }
}

/// The identifier a declaration is emitted under.
pub open spec fn decl_name(d: DeclView) -> Seq<char> {
    match d {
        DeclView::PlainEnum { name, .. } => name.ident,
        DeclView::DataEnum { name, .. } => name.ident,
        DeclView::Struct { name, .. } => name.ident,
    }
}

} // verus!
