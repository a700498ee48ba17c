//! The record definition that generation starts from, as it arrives from whoever
//! read the source text: a name, the attributes in source order, and the fields.

use vstd::prelude::*;

verus! {

/// Where an attribute stands relative to the item it belongs to.
#[derive(Clone, Copy, Debug, PartialEq, Eq, Structural)]
pub enum AttrStyle {
    /// Before the item: `#[...]`.
    Outer,
    /// Inside the item: `#![...]`.
    Inner,
}

/// One entry of an attribute's parenthesised list.
#[derive(Clone, Debug, PartialEq, Eq)]
pub enum NestedMeta {
    /// `key = "value"`, the value being a string literal.
    NameValue { key: String, value: String },
    /// A bare word, like the `C` of `repr(C)`.
    Word { name: String },
    /// Any other entry: a literal, a nested list, a value that is no string.
    Other,
}

/// A `NestedMeta` as plain values.
pub enum NestedMetaView {
    NameValue { key: Seq<char>, value: Seq<char> },
    Word { name: Seq<char> },
    Other,
}

impl View for NestedMeta {
    type V = NestedMetaView;

    open spec fn view(&self) -> NestedMetaView {
        match self {
            NestedMeta::NameValue { key, value } => NestedMetaView::NameValue {
                key: key@,
                value: value@,
            },
            NestedMeta::Word { name } => NestedMetaView::Word { name: name@ },
            NestedMeta::Other => NestedMetaView::Other,
        }
    }
}

/// What follows an attribute's path.
#[derive(Clone, Debug, PartialEq, Eq)]
pub enum Meta {
    /// Nothing: `#[path]`.
    Path,
    /// A parenthesised list: `#[path(entry, entry)]`.
    List { nested: Vec<NestedMeta> },
    /// A single value: `#[path = value]`.
    NameValue,
    /// Tokens of none of these three forms.
    Invalid,
}

/// A `Meta` as plain values.
pub enum MetaView {
    Path,
    List { nested: Seq<NestedMetaView> },
    NameValue,
    Invalid,
}

impl View for Meta {
    type V = MetaView;

    open spec fn view(&self) -> MetaView {
        match self {
            Meta::Path => MetaView::Path,
            Meta::List { nested } => MetaView::List {
                nested: nested@.map_values(|n: NestedMeta| n@),
            },
            Meta::NameValue => MetaView::NameValue,
            Meta::Invalid => MetaView::Invalid,
        }
    }
}

/// One attribute of the record.
#[derive(Clone, Debug, PartialEq, Eq)]
pub struct Attribute {
    pub style: AttrStyle,
    /// The attribute's path as written, its segments joined by `::`.
    pub path: String,
    pub meta: Meta,
}

/// An `Attribute` as plain values.
pub struct AttributeView {
    pub style: AttrStyle,
    pub path: Seq<char>,
    pub meta: MetaView,
}

impl View for Attribute {
    type V = AttributeView;

    open spec fn view(&self) -> AttributeView {
        AttributeView { style: self.style, path: self.path@, meta: self.meta@ }
    }
}

/// One field of the record.
#[derive(Clone, Debug, PartialEq, Eq)]
pub struct Field {
    /// The field's name; `None` for a positional field.
    pub name: Option<String>,
    /// The declared type as written.
    pub ty: String,
    /// How many bytes a value of the declared type occupies. The four integer
    /// kinds have their own width, whatever this says.
    pub size: usize,
}

/// A `Field` as plain values.
pub struct FieldView {
    pub name: Option<Seq<char>>,
    pub ty: Seq<char>,
    pub size: nat,
}

impl View for Field {
    type V = FieldView;

    open spec fn view(&self) -> FieldView {
        FieldView {
            name: match self.name {
                Some(n) => Some(n@),
                None => None,
            },
            ty: self.ty@,
            size: self.size as nat,
        }
    }
}

/// The fields of a struct, by the way they are written.
#[derive(Clone, Debug, PartialEq, Eq)]
pub enum Fields {
    /// `struct S { a: A, b: B }`
    Named(Vec<Field>),
    /// `struct S(A, B);`
    Unnamed(Vec<Field>),
    /// `struct S;`
    Unit,
}

/// A `Fields` as plain values.
pub enum FieldsView {
    Named(Seq<FieldView>),
    Unnamed(Seq<FieldView>),
    Unit,
}

impl View for Fields {
    type V = FieldsView;

    open spec fn view(&self) -> FieldsView {
        match self {
            Fields::Named(fields) => FieldsView::Named(fields@.map_values(|f: Field| f@)),
            Fields::Unnamed(fields) => FieldsView::Unnamed(fields@.map_values(|f: Field| f@)),
            Fields::Unit => FieldsView::Unit,
        }
    }
}

/// What kind of item the definition is.
#[derive(Clone, Debug, PartialEq, Eq)]
pub enum Data {
    Struct(Fields),
    Enum,
    Union,
}

/// A `Data` as plain values.
pub enum DataView {
    Struct(FieldsView),
    Enum,
    Union,
}

impl View for Data {
    type V = DataView;

    open spec fn view(&self) -> DataView {
        match self {
            Data::Struct(fields) => DataView::Struct(fields@),
            Data::Enum => DataView::Enum,
            Data::Union => DataView::Union,
        }
    }
}

/// A whole definition: the input of one generation.
#[derive(Clone, Debug, PartialEq, Eq)]
pub struct Definition {
    pub name: String,
    /// Every attribute on the item, in source order.
    pub attrs: Vec<Attribute>,
    pub data: Data,
}

/// A `Definition` as plain values.
pub struct DefinitionView {
    pub name: Seq<char>,
    pub attrs: Seq<AttributeView>,
    pub data: DataView,
}

impl View for Definition {
    type V = DefinitionView;

    open spec fn view(&self) -> DefinitionView {
        DefinitionView {
            name: self.name@,
            attrs: self.attrs@.map_values(|a: Attribute| a@),
            data: self.data@,
        }
    }
}

} // verus!
