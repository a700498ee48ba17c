//! The accessor synthesizer: for each named field a getter and a setter, named
//! after the field, that convert between the wire order and the host's where the
//! record asks for it and the field is an integer.

use crate::classify::{classify, kind_of, TypeKind};
use crate::config::Endian;
use crate::schema::{Field, FieldView};
use crate::text::{copied, joined};
use vstd::prelude::*;

verus! {

/// Which of a field's two operations an accessor is.
#[derive(Clone, Copy, Debug, PartialEq, Eq, Structural)]
pub enum AccessorKind {
    Getter,
    Setter,
}

/// One generated operation on one field.
#[derive(Clone, Debug, PartialEq, Eq)]
pub struct GeneratedAccessor {
    /// The field that the operation reads or writes.
    pub field_name: String,
    /// The operation's own name.
    pub name: String,
    /// The type of the value that a getter returns and a setter takes: the
    /// field's declared type.
    pub ty: String,
    pub kind: AccessorKind,
    /// The byte order in which the field is stored. `Native` says that the
    /// stored bits pass through as they are.
    pub order: Endian,
}

/// A `GeneratedAccessor` as plain values.
pub struct GeneratedAccessorView {
    pub field_name: Seq<char>,
    pub name: Seq<char>,
    pub ty: Seq<char>,
    pub kind: AccessorKind,
    pub order: Endian,
}

impl View for GeneratedAccessor {
    type V = GeneratedAccessorView;

    open spec fn view(&self) -> GeneratedAccessorView {
        GeneratedAccessorView {
            field_name: self.field_name@,
            name: self.name@,
            ty: self.ty@,
            kind: self.kind,
            order: self.order,
        }
    }
}

impl GeneratedAccessorView {
    /// Whether the operation converts between byte orders at all.
    pub open spec fn uses_conversion(self) -> bool {
        self.order != Endian::Native
    }
}

impl GeneratedAccessor {
    /// Whether the operation converts between byte orders at all.
    pub fn uses_conversion(&self) -> (uses: bool)
        ensures
            uses == self@.uses_conversion(),
    {
        match self.order {
            Endian::Native => false,
            _ => true,
        }
    }
}

/// The two operations of one field.
#[derive(Clone, Debug, PartialEq, Eq)]
pub struct AccessorPair {
    pub getter: GeneratedAccessor,
    pub setter: GeneratedAccessor,
}

/// An `AccessorPair` as plain values.
pub struct AccessorPairView {
    pub getter: GeneratedAccessorView,
    pub setter: GeneratedAccessorView,
}

impl View for AccessorPair {
    type V = AccessorPairView;

    open spec fn view(&self) -> AccessorPairView {
        AccessorPairView { getter: self.getter@, setter: self.setter@ }
    }
}

/// The name of the getter of the field `field`.
pub open spec fn getter_name(field: Seq<char>) -> Seq<char> {
    "get_"@ + field
}

/// The name of the setter of the field `field`.
pub open spec fn setter_name(field: Seq<char>) -> Seq<char> {
    "set_"@ + field
}

/// The getter and the setter of the field `ident` of type `ty`, under the names
/// given, for a field stored in the order `order`.
pub open spec fn pair_of(
    ident: Seq<char>,
    get_ident: Seq<char>,
    set_ident: Seq<char>,
    ty: Seq<char>,
    order: Endian,
) -> AccessorPairView {
    AccessorPairView {
        getter: GeneratedAccessorView {
            field_name: ident,
            name: get_ident,
            ty,
            kind: AccessorKind::Getter,
            order,
        },
        setter: GeneratedAccessorView {
            field_name: ident,
            name: set_ident,
            ty,
            kind: AccessorKind::Setter,
            order,
        },
    }
}

/// The order in which a field of kind `kind` is stored in a record that asks for
/// `endian`: the record's order for the integers, none for the rest.
pub open spec fn stored_order(kind: TypeKind, endian: Endian) -> Endian {
    if kind == TypeKind::Opaque {
        Endian::Native
    } else {
        endian
    }
}

/// The accessors of the field `name` of declared type `ty` in a record that asks
/// for `endian`.
pub open spec fn synthesized(name: Seq<char>, ty: Seq<char>, endian: Endian) -> AccessorPairView {
    pair_of(name, getter_name(name), setter_name(name), ty, stored_order(kind_of(ty), endian))
}

fn accessor_pair(ident: &str, get_ident: &str, set_ident: &str, ty: &str, order: Endian) -> (pair:
    AccessorPair)
    ensures
        pair@ == pair_of(ident@, get_ident@, set_ident@, ty@, order),
{
    AccessorPair {
        getter: GeneratedAccessor {
            field_name: copied(ident),
            name: copied(get_ident),
            ty: copied(ty),
            kind: AccessorKind::Getter,
            order,
        },
        setter: GeneratedAccessor {
            field_name: copied(ident),
            name: copied(set_ident),
            ty: copied(ty),
            kind: AccessorKind::Setter,
            order,
        },
    }
}

/// The accessors of an integer field stored most significant byte first.
pub fn big_endian(ident: &str, get_ident: &str, set_ident: &str, ty: &str) -> (pair: AccessorPair)
    ensures
        pair@ == pair_of(ident@, get_ident@, set_ident@, ty@, Endian::Big),
{
    accessor_pair(ident, get_ident, set_ident, ty, Endian::Big)
}

/// The accessors of an integer field stored least significant byte first.
pub fn little_endian(ident: &str, get_ident: &str, set_ident: &str, ty: &str) -> (pair:
    AccessorPair)
    ensures
        pair@ == pair_of(ident@, get_ident@, set_ident@, ty@, Endian::Little),
{
    accessor_pair(ident, get_ident, set_ident, ty, Endian::Little)
}

/// The accessors of a field whose stored bits pass through unconverted.
pub fn native_endian(ident: &str, get_ident: &str, set_ident: &str, ty: &str) -> (pair:
    AccessorPair)
    ensures
        pair@ == pair_of(ident@, get_ident@, set_ident@, ty@, Endian::Native),
{
    accessor_pair(ident, get_ident, set_ident, ty, Endian::Native)
}

/// Whether `r` is what synthesis owes for the field `field` under `endian`: the
/// pair for a named field, nothing for a positional one.
pub open spec fn synthesis_is(r: Option<AccessorPair>, field: FieldView, endian: Endian) -> bool {
    match r {
        Some(pair) => field.name is Some && pair@ == synthesized(field.name->0, field.ty, endian),
        None => field.name is None,
    }
}

/// Synthesizes the accessors of one field: `get_` and `set_` followed by the
/// field's name. An integer field follows the record's byte order; any other
/// field passes through. A positional field has no accessors.
pub fn match_endian(named_field: &Field, endian: Endian) -> (r: Option<AccessorPair>)
    ensures
        synthesis_is(r, named_field@, endian),
{
    let ident = match &named_field.name {
        Some(idt) => idt,
        None => {
            return None;
        },
    };
    let get_ident = joined("get_", ident.as_str());
    let set_ident = joined("set_", ident.as_str());
    let ty = named_field.ty.as_str();
    let pair = match classify(ty) {
        TypeKind::Opaque => native_endian(ident.as_str(), get_ident.as_str(), set_ident.as_str(), ty),
        _ => match endian {
            Endian::Big => big_endian(ident.as_str(), get_ident.as_str(), set_ident.as_str(), ty),
            Endian::Little => little_endian(
                ident.as_str(),
                get_ident.as_str(),
                set_ident.as_str(),
                ty,
            ),
            Endian::Native => native_endian(
                ident.as_str(),
                get_ident.as_str(),
                set_ident.as_str(),
                ty,
            ),
        },
    };
    Some(pair)
}

} // verus!
