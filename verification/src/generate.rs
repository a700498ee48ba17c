//! The layout generator: from a record definition to the overlay type, or to the
//! reason why there is none.

use crate::accessor::{match_endian, synthesized, AccessorKind, AccessorPair, AccessorPairView};
use crate::classify::{classify, kind_of, TypeKind};
use crate::config::{
    attribute_rejected, extract_meta, lemma_resolves_unless_rejected, resolved, ConfigError, Endian,
};
use crate::layout::{field_views, FieldSchema, FieldSchemaView};
use crate::schema::{
    Attribute, AttributeView, Data, DataView, Definition, DefinitionView, Field, FieldView, Fields,
    FieldsView, Meta, MetaView, NestedMeta, NestedMetaView,
};
use crate::text::{copied, same_text};
use vstd::prelude::*;

verus! {

/// Why a definition is no record that an overlay can be laid over.
#[derive(Clone, Copy, Debug, PartialEq, Eq, Structural)]
pub enum SchemaError {
    /// No attribute `repr(C)`: the layout of the record is not fixed.
    NoFixedLayout,
    /// The definition is an enum or a union.
    NotAStruct,
    /// The struct is a tuple struct or a unit struct.
    UnnamedFields,
    /// The field at this position, counted from zero, has no name.
    UnnamedField { field: usize },
}

/// Why generation was abandoned.
#[derive(Clone, Copy, Debug, PartialEq, Eq, Structural)]
pub enum Error {
    Config(ConfigError),
    Schema(SchemaError),
}

/// The generated type: two views of one storage, the record itself and a byte
/// array of the record's size, with a getter and a setter for every field.
#[derive(Clone, Debug, PartialEq, Eq)]
pub struct Overlay {
    /// The name of the generated type.
    pub name: String,
    /// The name of the record that it overlays.
    pub structure: String,
    /// The byte order that the record asks for.
    pub endian: Endian,
    /// The record's fields in declaration order.
    pub fields: Vec<FieldSchema>,
    /// The accessors of each field, in the order of `fields`.
    pub accessors: Vec<AccessorPair>,
}

/// An `Overlay` as plain values.
pub struct OverlayView {
    pub name: Seq<char>,
    pub structure: Seq<char>,
    pub endian: Endian,
    pub fields: Seq<FieldSchemaView>,
    pub accessors: Seq<AccessorPairView>,
}

impl View for Overlay {
    type V = OverlayView;

    open spec fn view(&self) -> OverlayView {
        OverlayView {
            name: self.name@,
            structure: self.structure@,
            endian: self.endian,
            fields: field_views(self.fields@),
            accessors: self.accessors@.map_values(|p: AccessorPair| p@),
        }
    }
}

/// Whether an attribute says that the record's layout is fixed: `repr(C)`,
/// exactly.
pub open spec fn is_layout_marker(a: AttributeView) -> bool {
    &&& a.path == "repr"@
    &&& a.meta matches MetaView::List { nested }
    &&& nested.len() == 1
    &&& nested[0] matches NestedMetaView::Word { name }
    &&& name == "C"@
}

/// Whether one of the attributes is the layout marker.
pub open spec fn has_layout_marker(attrs: Seq<AttributeView>) -> bool {
    exists|i: int| 0 <= i < attrs.len() && is_layout_marker(#[trigger] attrs[i])
}

/// Whether `k` is the position of the first attribute that is no attribute.
pub open spec fn is_first_invalid(attrs: Seq<AttributeView>, k: int) -> bool {
    &&& 0 <= k < attrs.len()
    &&& attrs[k].meta is Invalid
    &&& forall|i: int| 0 <= i < k ==> !((#[trigger] attrs[i]).meta is Invalid)
}

/// Whether every attribute is well formed.
pub open spec fn all_valid(attrs: Seq<AttributeView>) -> bool {
    forall|i: int| 0 <= i < attrs.len() ==> !((#[trigger] attrs[i]).meta is Invalid)
}

/// Whether `k` is the position of the first field without a name.
pub open spec fn is_first_unnamed(fields: Seq<FieldView>, k: int) -> bool {
    &&& 0 <= k < fields.len()
    &&& fields[k].name is None
    &&& forall|i: int| 0 <= i < k ==> (#[trigger] fields[i]).name is Some
}

/// Whether every field has a name.
pub open spec fn all_named(fields: Seq<FieldView>) -> bool {
    forall|i: int| 0 <= i < fields.len() ==> (#[trigger] fields[i]).name is Some
}

/// A named field as the overlay sees it.
pub open spec fn schema_of(field: FieldView) -> FieldSchemaView {
    FieldSchemaView {
        name: field.name->0,
        ty: field.ty,
        kind: kind_of(field.ty),
        size: field.size,
    }
}

/// The overlay of a record with the fields `fields`, all of them named, under a
/// resolved name and byte order.
pub open spec fn overlay_of(
    name: Seq<char>,
    endian: Endian,
    structure: Seq<char>,
    fields: Seq<FieldView>,
) -> OverlayView {
    OverlayView {
        name,
        structure,
        endian,
        fields: Seq::new(fields.len(), |i: int| schema_of(fields[i])),
        accessors: Seq::new(
            fields.len(),
            |i: int| synthesized(fields[i].name->0, fields[i].ty, endian),
        ),
    }
}

/// Whether generation from `def` ends in the error `e`. The checks come in this
/// order, and the first that fails decides: every attribute is well formed; one
/// of them is the layout marker; the configuration resolves; the definition is a
/// struct; its fields are written with names; each of them has one.
pub open spec fn aborts_with(def: DefinitionView, e: Error) -> bool {
    if !all_valid(def.attrs) {
        e matches Error::Config(ConfigError::InvalidAttribute { attr }) && is_first_invalid(
            def.attrs,
            attr as int,
        )
    } else if !has_layout_marker(def.attrs) {
        e == Error::Schema(SchemaError::NoFixedLayout)
    } else if resolved(def) is Err {
        e == Error::Config(resolved(def)->Err_0)
    } else {
        match def.data {
            DataView::Struct(FieldsView::Named(fields)) => {
                &&& !all_named(fields)
                &&& e matches Error::Schema(SchemaError::UnnamedField { field })
                &&& is_first_unnamed(fields, field as int)
            },
            DataView::Struct(_) => e == Error::Schema(SchemaError::UnnamedFields),
            _ => e == Error::Schema(SchemaError::NotAStruct),
        }
    }
}

/// Whether generation from `def` emits the overlay `o`.
pub open spec fn emits(def: DefinitionView, o: OverlayView) -> bool {
    &&& all_valid(def.attrs)
    &&& has_layout_marker(def.attrs)
    &&& resolved(def) matches Ok(cfg)
    &&& def.data matches DataView::Struct(FieldsView::Named(fields))
    &&& all_named(fields)
    &&& o == overlay_of(cfg.output_name, cfg.endian, def.name, fields)
}

/// Whether generation from `def` emits anything.
pub open spec fn accepted(def: DefinitionView) -> bool {
    &&& all_valid(def.attrs)
    &&& has_layout_marker(def.attrs)
    &&& resolved(def) is Ok
    &&& def.data matches DataView::Struct(FieldsView::Named(fields))
    &&& all_named(fields)
}

fn is_marker(attribute: &Attribute) -> (marker: bool)
    ensures
        marker == is_layout_marker(attribute@),
{
    if !same_text(attribute.path.as_str(), "repr") {
        return false;
    }
    match &attribute.meta {
        Meta::List { nested } => {
            if nested.len() != 1 {
                return false;
            }
            match &nested[0] {
                NestedMeta::Word { name } => same_text(name.as_str(), "C"),
                _ => false,
            }
        },
        _ => false,
    }
}

/// Generates the overlay type of a record.
///
/// Either a complete overlay is emitted or an error says why none is: there is
/// nothing in between.
#[verifier::loop_isolation(false)]
pub fn no_copy(input: &Definition) -> (r: Result<Overlay, Error>)
    ensures
        match r {
            Ok(overlay) => emits(input@, overlay@),
            Err(e) => aborts_with(input@, e),
        },
        r is Ok <==> accepted(input@),
{
    let mut marked = false;
    let mut i: usize = 0;
    while i < input.attrs.len()
        invariant
            i <= input.attrs.len(),
            forall|k: int| 0 <= k < i ==> !((#[trigger] input@.attrs[k]).meta is Invalid),
            marked <==> exists|k: int| 0 <= k < i && is_layout_marker(#[trigger] input@.attrs[k]),
        decreases input.attrs.len() - i,
    {
        let attribute = &input.attrs[i];
        if let Meta::Invalid = attribute.meta {
            assert(is_first_invalid(input@.attrs, i as int));
            return Err(Error::Config(ConfigError::InvalidAttribute { attr: i }));
        }
        if is_marker(attribute) {
            marked = true;
        }
        i += 1;
    }
    if !marked {
        return Err(Error::Schema(SchemaError::NoFixedLayout));
    }
    let cfg = match extract_meta(input) {
        Ok(cfg) => cfg,
        Err(e) => {
            return Err(Error::Config(e));
        },
    };
    let named = match &input.data {
        Data::Struct(Fields::Named(named)) => named,
        Data::Struct(_) => {
            return Err(Error::Schema(SchemaError::UnnamedFields));
        },
        _ => {
            return Err(Error::Schema(SchemaError::NotAStruct));
        },
    };
    let ghost field_views = named@.map_values(|f: Field| f@);
    let mut fields: Vec<FieldSchema> = Vec::new();
    let mut accessors: Vec<AccessorPair> = Vec::new();
    let mut k: usize = 0;
    while k < named.len()
        invariant
            k <= named.len(),
            field_views == named@.map_values(|f: Field| f@),
            fields@.len() == k,
            accessors@.len() == k,
            forall|j: int| 0 <= j < k ==> (#[trigger] field_views[j]).name is Some,
            forall|j: int| 0 <= j < k ==> (#[trigger] fields@[j])@ == schema_of(field_views[j]),
            forall|j: int|
                0 <= j < k ==> (#[trigger] accessors@[j])@ == synthesized(
                    field_views[j].name->0,
                    field_views[j].ty,
                    cfg.endian,
                ),
        decreases named.len() - k,
    {
        let field = &named[k];
        match match_endian(field, cfg.endian) {
            Some(pair) => {
                fields.push(
                    FieldSchema {
                        name: copied(pair.getter.field_name.as_str()),
                        ty: copied(field.ty.as_str()),
                        kind: classify(field.ty.as_str()),
                        size: field.size,
                    },
                );
                accessors.push(pair);
            },
            None => {
                assert(is_first_unnamed(field_views, k as int));
                return Err(Error::Schema(SchemaError::UnnamedField { field: k }));
            },
        }
        k += 1;
    }
    let overlay = Overlay {
        name: cfg.output_name,
        structure: copied(input.name.as_str()),
        endian: cfg.endian,
        fields,
        accessors,
    };
    proof {
        let expected = overlay_of(cfg@.output_name, cfg@.endian, input@.name, field_views);
        assert(overlay@.fields =~= expected.fields);
        assert(overlay@.accessors =~= expected.accessors);
    }
    Ok(overlay)
}

/// How many of the first `upto` fields are integers.
pub open spec fn integer_count(fields: Seq<FieldSchemaView>, upto: nat) -> nat
    decreases upto,
{
    if upto == 0 {
        0
    } else {
        integer_count(fields, (upto - 1) as nat) + if fields[upto - 1].kind != TypeKind::Opaque {
            1nat
        } else {
            0nat
        }
    }
}

/// How many of the first `upto` fields are opaque.
pub open spec fn opaque_count(fields: Seq<FieldSchemaView>, upto: nat) -> nat
    decreases upto,
{
    if upto == 0 {
        0
    } else {
        opaque_count(fields, (upto - 1) as nat) + if fields[upto - 1].kind == TypeKind::Opaque {
            1nat
        } else {
            0nat
        }
    }
}

proof fn lemma_counts_add_up(fields: Seq<FieldSchemaView>, upto: nat)
    ensures
        integer_count(fields, upto) + opaque_count(fields, upto) == upto,
    decreases upto,
{
    if upto > 0 {
        lemma_counts_add_up(fields, (upto - 1) as nat);
    }
}

/// An emitted overlay has one getter and one setter for every field of the
/// record, integer or opaque, and no others. They are named `get_` and `set_`
/// followed by the field's name, take and return the field's declared type, and
/// convert exactly where the field is an integer and the record names a byte
/// order.
pub proof fn lemma_one_pair_per_field(def: DefinitionView, overlay: OverlayView)
    requires
        emits(def, overlay),
    ensures
        overlay.accessors.len() == integer_count(overlay.fields, overlay.fields.len())
            + opaque_count(overlay.fields, overlay.fields.len()),
        overlay.accessors.len() == overlay.fields.len(),
        forall|i: int|
            0 <= i < overlay.fields.len() ==> {
                let field = #[trigger] overlay.fields[i];
                let pair = overlay.accessors[i];
                &&& pair.getter.kind == AccessorKind::Getter
                &&& pair.setter.kind == AccessorKind::Setter
                &&& pair.getter.name == "get_"@ + field.name
                &&& pair.setter.name == "set_"@ + field.name
                &&& pair.getter.field_name == field.name
                &&& pair.setter.field_name == field.name
                &&& pair.getter.ty == field.ty
                &&& pair.setter.ty == field.ty
                &&& pair.getter.order == pair.setter.order
                &&& pair.getter.uses_conversion() <==> field.kind != TypeKind::Opaque
                    && overlay.endian != Endian::Native
            },
{
    lemma_counts_add_up(overlay.fields, overlay.fields.len());
}

/// Generation ends in one of two ways and never in both: an overlay is emitted
/// or an error is raised, and what is emitted or raised is determined by the
/// definition.
pub proof fn lemma_emitted_or_aborted(
    def: DefinitionView,
    o1: OverlayView,
    o2: OverlayView,
    e1: Error,
    e2: Error,
)
    ensures
        !(emits(def, o1) && aborts_with(def, e1)),
        emits(def, o1) ==> accepted(def),
        aborts_with(def, e1) ==> !accepted(def),
        emits(def, o1) && emits(def, o2) ==> o1 == o2,
        aborts_with(def, e1) && aborts_with(def, e2) ==> e1 == e2,
{
}

/// Fatal cases: one rejected attribute, a struct written without field names, or
/// one field without a name is enough for nothing to be emitted, whatever else
/// the definition holds.
pub proof fn lemma_fatal_cases(def: DefinitionView)
    ensures
        (exists|k: int| 0 <= k < def.attrs.len() && attribute_rejected(#[trigger] def.attrs[k]))
            ==> !accepted(def),
        def.data matches DataView::Struct(FieldsView::Unnamed(_)) ==> !accepted(def),
        def.data matches DataView::Struct(FieldsView::Named(fields)) && (exists|i: int|
            0 <= i < fields.len() && (#[trigger] fields[i]).name is None) ==> !accepted(def),
        !accepted(def) ==> forall|o: OverlayView| !emits(def, o),
{
    lemma_resolves_unless_rejected(def);
}

/// What the user is told of each error.
pub open spec fn message_of(e: Error) -> Seq<char> {
    match e {
        Error::Config(ConfigError::InvalidAttribute { .. }) => "Provided attribute not valid"@,
        Error::Config(ConfigError::InnerAttribute { .. }) => "Only outer attributes allowed here"@,
        Error::Config(ConfigError::NotAList { .. }) =>
            "Outer attribute must be in the form #[nocopy_macro(key = \"value\")]"@,
        Error::Config(ConfigError::MalformedEntry { .. }) => "Malformed macro attribute"@,
        Error::Config(ConfigError::UnknownKey { .. }) => "Unrecognized macro attribute key"@,
        Error::Config(ConfigError::UnknownEndian { .. }) => "Unrecognized \"endian\" option"@,
        Error::Schema(SchemaError::NoFixedLayout) =>
            "Struct must be marked as #[repr(C)] to be used with this derive"@,
        Error::Schema(SchemaError::NotAStruct) => "This macro only supports structs"@,
        Error::Schema(SchemaError::UnnamedFields) =>
            "This macro only supports structs with named fields"@,
        Error::Schema(SchemaError::UnnamedField { .. }) => "All struct fields must be named"@,
    }
}

impl Error {
    /// What to tell the user.
    pub fn message(&self) -> (text: &'static str)
        ensures
            text@ == message_of(*self),
    {
        match self {
            Error::Config(ConfigError::InvalidAttribute { .. }) => "Provided attribute not valid",
            Error::Config(ConfigError::InnerAttribute { .. }) =>
                "Only outer attributes allowed here",
            Error::Config(ConfigError::NotAList { .. }) =>
                "Outer attribute must be in the form #[nocopy_macro(key = \"value\")]",
            Error::Config(ConfigError::MalformedEntry { .. }) => "Malformed macro attribute",
            Error::Config(ConfigError::UnknownKey { .. }) => "Unrecognized macro attribute key",
            Error::Config(ConfigError::UnknownEndian { .. }) => "Unrecognized \"endian\" option",
            Error::Schema(SchemaError::NoFixedLayout) =>
                "Struct must be marked as #[repr(C)] to be used with this derive",
            Error::Schema(SchemaError::NotAStruct) => "This macro only supports structs",
            Error::Schema(SchemaError::UnnamedFields) =>
                "This macro only supports structs with named fields",
            Error::Schema(SchemaError::UnnamedField { .. }) => "All struct fields must be named",
        }
    }
}

impl Overlay {
    /// The position of the first field called `name`, if there is one.
    pub fn field_index(&self, name: &str) -> (r: Option<usize>)
        ensures
            match r {
                Some(i) => {
                    &&& i < self@.fields.len()
                    &&& self@.fields[i as int].name == name@
                    &&& forall|j: int| 0 <= j < i ==> (#[trigger] self@.fields[j]).name != name@
                },
                None => forall|j: int|
                    0 <= j < self@.fields.len() ==> (#[trigger] self@.fields[j]).name != name@,
            },
    {
        let mut i: usize = 0;
        while i < self.fields.len()
            invariant
                i <= self.fields.len(),
                forall|j: int| 0 <= j < i ==> (#[trigger] self@.fields[j]).name != name@,
            decreases self.fields.len() - i,
        {
            if same_text(self.fields[i].name.as_str(), name) {
                return Some(i);
            }
            i += 1;
        }
        None
    }
}

} // verus!
