//! Where each field lies in the storage: the fields follow one another in
//! declaration order, each as wide as its kind or its declared size says.

use crate::classify::TypeKind;
use vstd::prelude::*;

verus! {

/// One field of the record as the overlay sees it.
#[derive(Clone, Debug, PartialEq, Eq)]
pub struct FieldSchema {
    pub name: String,
    /// The declared type as written.
    pub ty: String,
    pub kind: TypeKind,
    /// The size that the definition gave for the declared type, in bytes.
    pub size: usize,
}

/// A `FieldSchema` as plain values.
pub struct FieldSchemaView {
    pub name: Seq<char>,
    pub ty: Seq<char>,
    pub kind: TypeKind,
    pub size: nat,
}

impl View for FieldSchema {
    type V = FieldSchemaView;

    open spec fn view(&self) -> FieldSchemaView {
        FieldSchemaView { name: self.name@, ty: self.ty@, kind: self.kind, size: self.size as nat }
    }
}

/// The fields of an overlay as plain values.
pub open spec fn field_views(fields: Seq<FieldSchema>) -> Seq<FieldSchemaView> {
    fields.map_values(|f: FieldSchema| f@)
}

impl FieldSchemaView {
    /// The number of bytes that the field occupies: the width of its integer
    /// kind, or the declared size of any other type.
    pub open spec fn width(self) -> nat {
        match self.kind {
            TypeKind::U8 => 1,
            TypeKind::U16 => 2,
            TypeKind::U32 => 4,
            TypeKind::U64 => 8,
            TypeKind::Opaque => self.size,
        }
    }
}

impl FieldSchema {
    /// The number of bytes that the field occupies.
    pub fn width(&self) -> (w: usize)
        ensures
            w == self@.width(),
    {
        match self.kind {
            TypeKind::U8 => 1,
            TypeKind::U16 => 2,
            TypeKind::U32 => 4,
            TypeKind::U64 => 8,
            TypeKind::Opaque => self.size,
        }
    }
}

/// The offset of field `i`: the widths of the fields before it, added up. With
/// `i` the number of fields, the size of the whole storage.
pub open spec fn offset_of(fields: Seq<FieldSchemaView>, i: nat) -> nat
    decreases i,
{
    if i == 0 {
        0
    } else {
        offset_of(fields, (i - 1) as nat) + fields[i - 1].width()
    }
}

/// The size of the storage of a record with these fields.
pub open spec fn storage_size(fields: Seq<FieldSchemaView>) -> nat {
    offset_of(fields, fields.len())
}

/// A field ends where the next one begins, and later fields lie behind earlier
/// ones.
pub proof fn lemma_offsets_ordered(fields: Seq<FieldSchemaView>, i: nat, j: nat)
    requires
        i < j <= fields.len(),
    ensures
        offset_of(fields, i) + fields[i as int].width() <= offset_of(fields, j),
    decreases j,
{
    if i + 1 < j {
        lemma_offsets_ordered(fields, i, (j - 1) as nat);
    }
}

/// Every field lies within the storage.
pub proof fn lemma_field_in_storage(fields: Seq<FieldSchemaView>, i: nat)
    requires
        i < fields.len(),
    ensures
        offset_of(fields, i) + fields[i as int].width() <= storage_size(fields),
{
    lemma_offsets_ordered(fields, i, fields.len());
}

/// The offsets of all the fields and the size of the storage, where that size is
/// a length that a buffer can have.
pub fn field_offsets(fields: &Vec<FieldSchema>) -> (r: Option<(Vec<usize>, usize)>)
    ensures
        match r {
            Some((offsets, size)) => {
                &&& size == storage_size(field_views(fields@))
                &&& offsets@.len() == fields@.len()
                &&& forall|i: int|
                    0 <= i < offsets@.len() ==> #[trigger] offsets@[i] == offset_of(
                        field_views(fields@),
                        i as nat,
                    )
            },
            None => storage_size(field_views(fields@)) > usize::MAX,
        },
{
    let ghost views = field_views(fields@);
    let mut offsets: Vec<usize> = Vec::new();
    let mut at: usize = 0;
    let mut k: usize = 0;
    while k < fields.len()
        invariant
            k <= fields.len(),
            views == field_views(fields@),
            at == offset_of(views, k as nat),
            offsets@.len() == k,
            forall|i: int| 0 <= i < k ==> #[trigger] offsets@[i] == offset_of(views, i as nat),
        decreases fields.len() - k,
    {
        offsets.push(at);
        match at.checked_add(fields[k].width()) {
            Some(next) => {
                at = next;
            },
            None => {
                proof {
                    lemma_field_in_storage(views, k as nat);
                }
                return None;
            },
        }
        k += 1;
    }
    Some((offsets, at))
}

} // verus!
