//! An instance of an overlay: a byte buffer of exactly the record's size, whose
//! fields are read and written in place.

use crate::classify::TypeKind;
use crate::codec::{
    be_bytes, decode, decoded, encode, encoded, host_order, le_bytes, lemma_decode_encoded,
    lemma_decoded_below_limit, lemma_encode_decoded, lemma_encoded_len, lemma_limit_values,
    ByteOrder,
};
use crate::config::Endian;
use crate::generate::{Overlay, OverlayView};
use crate::layout::{
    field_offsets, lemma_field_in_storage, lemma_offsets_ordered, offset_of, storage_size,
    FieldSchema, FieldSchemaView,
};
use vstd::prelude::*;
use vstd::slice::{slice_subrange, slice_to_vec};

verus! {

/// The value of one field, in host order.
#[derive(Clone, Debug, PartialEq, Eq)]
pub enum Value {
    U8(u8),
    U16(u16),
    U32(u32),
    U64(u64),
    /// The bytes of a field that is no integer, as they are stored.
    Opaque(Vec<u8>),
}

/// A `Value` as plain values.
pub enum ValueView {
    U8(u8),
    U16(u16),
    U32(u32),
    U64(u64),
    Opaque(Seq<u8>),
}

impl View for Value {
    type V = ValueView;

    open spec fn view(&self) -> ValueView {
        match self {
            Value::U8(v) => ValueView::U8(*v),
            Value::U16(v) => ValueView::U16(*v),
            Value::U32(v) => ValueView::U32(*v),
            Value::U64(v) => ValueView::U64(*v),
            Value::Opaque(raw) => ValueView::Opaque(raw@),
        }
    }
}

/// Why a field was not written.
#[derive(Clone, Copy, Debug, PartialEq, Eq, Structural)]
pub enum AccessError {
    /// The overlay has no field at that position.
    NoSuchField,
    /// The value is not of the field's kind, or not of its size.
    Mismatch,
}

/// The order in which the integers of a record are stored on a machine of the
/// order `host`.
pub open spec fn wire_order(endian: Endian, host: ByteOrder) -> ByteOrder {
    match endian {
        Endian::Big => ByteOrder::Big,
        Endian::Little => ByteOrder::Little,
        Endian::Native => host,
    }
}

/// Whether `v` is a value that the field can hold.
pub open spec fn fits(v: ValueView, field: FieldSchemaView) -> bool {
    match v {
        ValueView::U8(_) => field.kind == TypeKind::U8,
        ValueView::U16(_) => field.kind == TypeKind::U16,
        ValueView::U32(_) => field.kind == TypeKind::U32,
        ValueView::U64(_) => field.kind == TypeKind::U64,
        ValueView::Opaque(raw) => field.kind == TypeKind::Opaque && raw.len() == field.size,
    }
}

/// The bytes that stand in storage for `v`, integers being stored in `order`.
pub open spec fn stored(v: ValueView, order: ByteOrder) -> Seq<u8> {
    match v {
        ValueView::U8(x) => encoded(x as nat, 1, order),
        ValueView::U16(x) => encoded(x as nat, 2, order),
        ValueView::U32(x) => encoded(x as nat, 4, order),
        ValueView::U64(x) => encoded(x as nat, 8, order),
        ValueView::Opaque(raw) => raw,
    }
}

/// The value that the bytes `raw` of a field of kind `kind` stand for, integers
/// being stored in `order`.
pub open spec fn value_in(raw: Seq<u8>, kind: TypeKind, order: ByteOrder) -> ValueView {
    match kind {
        TypeKind::U8 => ValueView::U8(decoded(raw, order) as u8),
        TypeKind::U16 => ValueView::U16(decoded(raw, order) as u16),
        TypeKind::U32 => ValueView::U32(decoded(raw, order) as u32),
        TypeKind::U64 => ValueView::U64(decoded(raw, order) as u64),
        TypeKind::Opaque => ValueView::Opaque(raw),
    }
}

/// `bytes` with `raw` written over the positions from `at` on, and no other
/// position touched.
pub open spec fn written(bytes: Seq<u8>, at: nat, raw: Seq<u8>) -> Seq<u8> {
    Seq::new(
        bytes.len(),
        |j: int|
            if at <= j < at + raw.len() {
                raw[j - at]
            } else {
                bytes[j]
            },
    )
}

/// An overlay instance as plain values.
pub struct BufferView {
    pub overlay: OverlayView,
    /// The byte order of the machine that the instance lives on.
    pub host: ByteOrder,
    /// The raw view: the storage, byte by byte.
    pub bytes: Seq<u8>,
}

impl BufferView {
    /// Whether the storage has exactly the record's size.
    pub open spec fn well_sized(self) -> bool {
        self.bytes.len() == storage_size(self.overlay.fields)
    }

    /// The number of fields.
    pub open spec fn field_count(self) -> nat {
        self.overlay.fields.len()
    }

    /// Field `i` of the record.
    pub open spec fn field(self, i: int) -> FieldSchemaView {
        self.overlay.fields[i]
    }

    /// Where field `i` begins.
    pub open spec fn offset(self, i: int) -> nat {
        offset_of(self.overlay.fields, i as nat)
    }

    /// The order in which the integers of this instance are stored.
    pub open spec fn order(self) -> ByteOrder {
        wire_order(self.overlay.endian, self.host)
    }

    /// The bytes of field `i` as the raw view shows them.
    pub open spec fn raw(self, i: int) -> Seq<u8> {
        self.bytes.subrange(
            self.offset(i) as int,
            (self.offset(i) + self.field(i).width()) as int,
        )
    }

    /// What the getter of field `i` returns.
    pub open spec fn value(self, i: int) -> ValueView {
        value_in(self.raw(i), self.field(i).kind, self.order())
    }

    /// The instance after the setter of field `i` took `v`.
    pub open spec fn with_value(self, i: int, v: ValueView) -> BufferView {
        BufferView {
            overlay: self.overlay,
            host: self.host,
            bytes: written(self.bytes, self.offset(i), stored(v, self.order())),
        }
    }
}

/// An instance of an overlay. The bytes that it was made from are its storage:
/// every getter reads them and every setter writes them, in place.
#[derive(Clone, Debug)]
pub struct Buffer<'a> {
    overlay: &'a Overlay,
    host: ByteOrder,
    offsets: Vec<usize>,
    bytes: Vec<u8>,
}

impl<'a> View for Buffer<'a> {
    type V = BufferView;

    closed spec fn view(&self) -> BufferView {
        BufferView { overlay: self.overlay@, host: self.host, bytes: self.bytes@ }
    }
}

fn store(bytes: &mut Vec<u8>, at: usize, raw: &Vec<u8>)
    requires
        at + raw@.len() <= old(bytes)@.len(),
    ensures
        final(bytes)@ == written(old(bytes)@, at as nat, raw@),
{
    let n: usize = bytes.len();
    let mut k: usize = 0;
    while k < raw.len()
        invariant
            n == bytes@.len(),
            k <= raw@.len(),
            at + raw@.len() <= bytes@.len(),
            bytes@.len() == old(bytes)@.len(),
            forall|j: int|
                0 <= j < bytes@.len() ==> bytes@[j] == if at <= j < at + k {
                    raw@[j - at]
                } else {
                    old(bytes)@[j]
                },
        decreases raw@.len() - k,
    {
        bytes.set(at + k, raw[k]);
        k += 1;
    }
    assert(bytes@ =~= written(old(bytes)@, at as nat, raw@));
}

fn order_of(endian: Endian, host: ByteOrder) -> (order: ByteOrder)
    ensures
        order == wire_order(endian, host),
{
    match endian {
        Endian::Big => ByteOrder::Big,
        Endian::Little => ByteOrder::Little,
        Endian::Native => host,
    }
}

fn holds(field: &FieldSchema, value: &Value) -> (ok: bool)
    ensures
        ok == fits(value@, field@),
{
    match value {
        Value::U8(_) => field.kind == TypeKind::U8,
        Value::U16(_) => field.kind == TypeKind::U16,
        Value::U32(_) => field.kind == TypeKind::U32,
        Value::U64(_) => field.kind == TypeKind::U64,
        Value::Opaque(raw) => field.kind == TypeKind::Opaque && raw.len() == field.size,
    }
}

fn to_bytes(value: Value, order: ByteOrder) -> (raw: Vec<u8>)
    ensures
        raw@ == stored(value@, order),
{
    match value {
        Value::U8(x) => encode(x as u64, 1, order),
        Value::U16(x) => encode(x as u64, 2, order),
        Value::U32(x) => encode(x as u64, 4, order),
        Value::U64(x) => encode(x, 8, order),
        Value::Opaque(raw) => raw,
    }
}

fn from_bytes(raw: &[u8], kind: TypeKind, order: ByteOrder) -> (value: Value)
    requires
        kind == TypeKind::U8 ==> raw@.len() == 1,
        kind == TypeKind::U16 ==> raw@.len() == 2,
        kind == TypeKind::U32 ==> raw@.len() == 4,
        kind == TypeKind::U64 ==> raw@.len() == 8,
    ensures
        value@ == value_in(raw@, kind, order),
{
    proof {
        lemma_limit_values();
        lemma_decoded_below_limit(raw@, order);
    }
    match kind {
        TypeKind::U8 => Value::U8(decode(raw, order) as u8),
        TypeKind::U16 => Value::U16(decode(raw, order) as u16),
        TypeKind::U32 => Value::U32(decode(raw, order) as u32),
        TypeKind::U64 => Value::U64(decode(raw, order)),
        TypeKind::Opaque => Value::Opaque(slice_to_vec(raw)),
    }
}

impl<'a> Buffer<'a> {
    /// What holds of every instance: the storage has the record's size, and the
    /// offset of each field is at hand.
    pub closed spec fn wf(&self) -> bool {
        &&& self@.well_sized()
        &&& self.bytes@.len() <= usize::MAX
        &&& self.offsets@.len() == self@.field_count()
        &&& forall|i: int|
            0 <= i < self.offsets@.len() ==> #[trigger] self.offsets@[i] == self@.offset(i)
    }

    /// The storage of an instance has the record's size.
    pub proof fn lemma_well_sized(&self)
        requires
            self.wf(),
        ensures
            self@.well_sized(),
    {
    }

    /// Makes an instance over `buffer` for a machine of the byte order `host`.
    /// The buffer has to be exactly as long as the record's storage.
    pub fn with_host(overlay: &'a Overlay, buffer: Vec<u8>, host: ByteOrder) -> (r: Option<
        Buffer<'a>,
    >)
        ensures
            r is Some <==> buffer@.len() == storage_size(overlay@.fields),
            r matches Some(b) ==> b.wf() && b@ == (BufferView {
                overlay: overlay@,
                host,
                bytes: buffer@,
            }),
    {
        let given: usize = buffer.len();
        match field_offsets(&overlay.fields) {
            Some((offsets, size)) => {
                if given == size {
                    Some(Buffer { overlay, host, offsets, bytes: buffer })
                } else {
                    None
                }
            },
            None => None,
        }
    }

    /// Makes an instance over `buffer` for the machine that runs the program.
    /// The buffer has to be exactly as long as the record's storage.
    pub fn new_buffer(overlay: &'a Overlay, buffer: Vec<u8>) -> (r: Option<Buffer<'a>>)
        ensures
            r is Some <==> buffer@.len() == storage_size(overlay@.fields),
            r matches Some(b) ==> b.wf() && b@.overlay == overlay@ && b@.bytes == buffer@,
    {
        Buffer::with_host(overlay, buffer, host_order())
    }

    /// The storage as it is now.
    pub fn as_buffer(&self) -> (bytes: &[u8])
        ensures
            bytes@ == self@.bytes,
    {
        self.bytes.as_slice()
    }

    /// The overlay that this is an instance of.
    pub fn overlay(&self) -> (overlay: &'a Overlay)
        ensures
            overlay@ == self@.overlay,
    {
        self.overlay
    }

    /// The byte order of the machine that the instance was made for.
    pub fn host(&self) -> (host: ByteOrder)
        ensures
            host == self@.host,
    {
        self.host
    }

    /// The getter of the field at position `field`: its value in host order, or
    /// nothing where the record has no such field.
    pub fn get(&self, field: usize) -> (r: Option<Value>)
        requires
            self.wf(),
        ensures
            r is Some <==> field < self@.field_count(),
            r matches Some(v) ==> v@ == self@.value(field as int),
    {
        if field >= self.overlay.fields.len() {
            return None;
        }
        let schema = &self.overlay.fields[field];
        let at: usize = self.offsets[field];
        proof {
            lemma_field_in_storage(self@.overlay.fields, field as nat);
        }
        let raw = slice_subrange(self.bytes.as_slice(), at, at + schema.width());
        Some(from_bytes(raw, schema.kind, order_of(self.overlay.endian, self.host)))
    }

    /// The setter of the field at position `field`: writes `value`, given in
    /// host order, over the field's bytes. Nothing is written where the record
    /// has no such field or the value is not one that the field holds.
    pub fn set(&mut self, field: usize, value: Value) -> (r: Result<(), AccessError>)
        requires
            old(self).wf(),
        ensures
            final(self).wf(),
            match r {
                Ok(_) => {
                    &&& field < old(self)@.field_count()
                    &&& fits(value@, old(self)@.field(field as int))
                    &&& final(self)@ == old(self)@.with_value(field as int, value@)
                },
                Err(AccessError::NoSuchField) => {
                    &&& field >= old(self)@.field_count()
                    &&& final(self)@ == old(self)@
                },
                Err(AccessError::Mismatch) => {
                    &&& field < old(self)@.field_count()
                    &&& !fits(value@, old(self)@.field(field as int))
                    &&& final(self)@ == old(self)@
                },
            },
    {
        if field >= self.overlay.fields.len() {
            return Err(AccessError::NoSuchField);
        }
        let schema = &self.overlay.fields[field];
        if !holds(schema, &value) {
            return Err(AccessError::Mismatch);
        }
        let at: usize = self.offsets[field];
        let order = order_of(self.overlay.endian, self.host);
        let ghost v = value@;
        let raw = to_bytes(value, order);
        proof {
            lemma_field_in_storage(self@.overlay.fields, field as nat);
            match v {
                ValueView::U8(x) => lemma_encoded_len(x as nat, 1, order),
                ValueView::U16(x) => lemma_encoded_len(x as nat, 2, order),
                ValueView::U32(x) => lemma_encoded_len(x as nat, 4, order),
                ValueView::U64(x) => lemma_encoded_len(x as nat, 8, order),
                ValueView::Opaque(raw) => {},
            }
        }
        store(&mut self.bytes, at, &raw);
        Ok(())
    }
}

/// The number that an integer value is; zero for an opaque one.
pub open spec fn number(v: ValueView) -> nat {
    match v {
        ValueView::U8(x) => x as nat,
        ValueView::U16(x) => x as nat,
        ValueView::U32(x) => x as nat,
        ValueView::U64(x) => x as nat,
        ValueView::Opaque(_) => 0,
    }
}

proof fn lemma_stored_width(v: ValueView, field: FieldSchemaView, order: ByteOrder)
    requires
        fits(v, field),
    ensures
        stored(v, order).len() == field.width(),
{
    lemma_encoded_len(number(v), field.width(), order);
}

/// What a setter wrote lies in the raw view exactly where the field lies.
pub proof fn lemma_set_writes_the_field(b: BufferView, i: int, v: ValueView)
    requires
        b.well_sized(),
        0 <= i < b.field_count(),
        fits(v, b.field(i)),
    ensures
        b.with_value(i, v).well_sized(),
        b.with_value(i, v).raw(i) == stored(v, b.order()),
{
    lemma_field_in_storage(b.overlay.fields, i as nat);
    lemma_stored_width(v, b.field(i), b.order());
    assert(b.with_value(i, v).raw(i) =~= stored(v, b.order()));
}

/// Round trip: the getter of a field returns what its setter just took,
/// whatever the byte order of the record and of the machine.
pub proof fn lemma_get_after_set(b: BufferView, i: int, v: ValueView)
    requires
        b.well_sized(),
        0 <= i < b.field_count(),
        fits(v, b.field(i)),
    ensures
        b.with_value(i, v).value(i) == v,
{
    lemma_set_writes_the_field(b, i, v);
    if !(v is Opaque) {
        lemma_limit_values();
        lemma_decode_encoded(number(v), b.field(i).width(), b.order());
    }
}

/// Byte order: after the setter of an integer field took a number, the raw view
/// shows at the field's place the number's big-endian encoding where the record
/// asks for big, its little-endian encoding where it asks for little, and its
/// encoding in the machine's own order where it asks for neither. An opaque
/// value is shown as it was given.
pub proof fn lemma_set_stores_in_order(b: BufferView, i: int, v: ValueView)
    requires
        b.well_sized(),
        0 <= i < b.field_count(),
        fits(v, b.field(i)),
    ensures
        v matches ValueView::Opaque(raw) ==> b.with_value(i, v).raw(i) == raw,
        !(v is Opaque) ==> b.with_value(i, v).raw(i) == match b.overlay.endian {
            Endian::Big => be_bytes(number(v), b.field(i).width()),
            Endian::Little => le_bytes(number(v), b.field(i).width()),
            Endian::Native => encoded(number(v), b.field(i).width(), b.host),
        },
{
    lemma_set_writes_the_field(b, i, v);
}

/// Aliasing: a setter changes no byte outside its field, and neither the length
/// of the storage nor anything else of the instance.
pub proof fn lemma_set_touches_one_field(b: BufferView, i: int, v: ValueView)
    requires
        b.well_sized(),
        0 <= i < b.field_count(),
        fits(v, b.field(i)),
    ensures
        b.with_value(i, v).overlay == b.overlay,
        b.with_value(i, v).host == b.host,
        b.with_value(i, v).bytes.len() == b.bytes.len(),
        forall|j: int|
            0 <= j < b.bytes.len() && !(b.offset(i) <= j < b.offset(i) + b.field(i).width())
                ==> b.with_value(i, v).bytes[j] == b.bytes[j],
{
    lemma_stored_width(v, b.field(i), b.order());
}

/// A setter leaves the value of every other field as it was.
pub proof fn lemma_set_keeps_other_fields(b: BufferView, i: int, v: ValueView, other: int)
    requires
        b.well_sized(),
        0 <= i < b.field_count(),
        0 <= other < b.field_count(),
        other != i,
        fits(v, b.field(i)),
    ensures
        b.with_value(i, v).value(other) == b.value(other),
{
    lemma_stored_width(v, b.field(i), b.order());
    lemma_field_in_storage(b.overlay.fields, i as nat);
    lemma_field_in_storage(b.overlay.fields, other as nat);
    if other < i {
        lemma_offsets_ordered(b.overlay.fields, other as nat, i as nat);
    } else {
        lemma_offsets_ordered(b.overlay.fields, i as nat, other as nat);
    }
    assert(b.with_value(i, v).raw(other) =~= b.raw(other));
}

/// What a getter returns is a value that the field holds, and giving it back to
/// the setter changes nothing.
pub proof fn lemma_set_after_get(b: BufferView, i: int)
    requires
        b.well_sized(),
        0 <= i < b.field_count(),
    ensures
        fits(b.value(i), b.field(i)),
        b.with_value(i, b.value(i)) == b,
{
    lemma_field_in_storage(b.overlay.fields, i as nat);
    lemma_limit_values();
    lemma_decoded_below_limit(b.raw(i), b.order());
    lemma_encode_decoded(b.raw(i), b.order());
    assert(stored(b.value(i), b.order()) == b.raw(i));
    assert(b.with_value(i, b.value(i)).bytes =~= b.bytes);
}

} // verus!
