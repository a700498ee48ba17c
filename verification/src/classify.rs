//! The field classifier: which declared types take part in byte-order conversion.

use vstd::prelude::*;
use crate::text::same_text;

verus! {

/// What a field's declared type is to the accessors: one of the four unsigned
/// integers of fixed width, or anything else.
#[derive(Clone, Copy, Debug, PartialEq, Eq, Structural)]
pub enum TypeKind {
    U8,
    U16,
    U32,
    U64,
    Opaque,
}

/// The kind that a declared type name stands for. Only the bare names `u8`, `u16`,
/// `u32` and `u64` are integers; every other text is opaque.
pub open spec fn kind_of(ty: Seq<char>) -> TypeKind {
    if ty == "u8"@ {
        TypeKind::U8
    } else if ty == "u16"@ {
        TypeKind::U16
    } else if ty == "u32"@ {
        TypeKind::U32
    } else if ty == "u64"@ {
        TypeKind::U64
    } else {
        TypeKind::Opaque
    }
}

/// Classifies a field by its declared type name.
pub fn classify(ty: &str) -> (kind: TypeKind)
    ensures
        kind == kind_of(ty@),
{
    if same_text(ty, "u8") {
        TypeKind::U8
    } else if same_text(ty, "u16") {
        TypeKind::U16
    } else if same_text(ty, "u32") {
        TypeKind::U32
    } else if same_text(ty, "u64") {
        TypeKind::U64
    } else {
        TypeKind::Opaque
    }
}

} // verus!
