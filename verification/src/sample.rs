//! The bytes of one sample: how the values of the fields are encoded, and
//! that a decoder that knows the types of the fields reads them back.

use crate::le::{
    from_le16, from_le32, from_le64, i16_bits, i16_le, i16_of_bits, i32_bits, i32_le,
    i32_of_bits, i64_bits, i64_le, i64_of_bits, i8_bits, i8_byte, i8_of_bits, le16, le32, le64,
    lemma_le16_round_trip, lemma_le32_round_trip, lemma_le64_round_trip, u16_le, u32_le, u64_le,
};
use crate::schema::{
    total_width, types_of, types_width, FieldInfo, PrimitiveKind, ULogType,
};
use crate::types::EncodeError;
use crate::wire::append;
use vstd::prelude::*;

verus! {

/// The value of a primitive field. `F32` and `F64` hold the IEEE 754 bit
/// pattern of the number, as `to_bits` gives it.
#[derive(Debug, Clone, Copy, PartialEq, Eq, Structural)]
pub enum ScalarValue {
    U8(u8),
    I8(i8),
    U16(u16),
    I16(i16),
    U32(u32),
    I32(i32),
    U64(u64),
    I64(i64),
    F32(u32),
    F64(u64),
    Bool(bool),
}

impl ScalarValue {
    /// The kind of the value.
    pub open spec fn kind(self) -> PrimitiveKind {
        match self {
            ScalarValue::U8(_) => PrimitiveKind::U8,
            ScalarValue::I8(_) => PrimitiveKind::I8,
            ScalarValue::U16(_) => PrimitiveKind::U16,
            ScalarValue::I16(_) => PrimitiveKind::I16,
            ScalarValue::U32(_) => PrimitiveKind::U32,
            ScalarValue::I32(_) => PrimitiveKind::I32,
            ScalarValue::U64(_) => PrimitiveKind::U64,
            ScalarValue::I64(_) => PrimitiveKind::I64,
            ScalarValue::F32(_) => PrimitiveKind::F32,
            ScalarValue::F64(_) => PrimitiveKind::F64,
            ScalarValue::Bool(_) => PrimitiveKind::Bool,
        }
    }

    /// The bytes of the value on the wire: little-endian, a signed number
    /// by its two's complement bit pattern, a truth value as one byte, 1 for
    /// true and 0 for false.
    pub open spec fn bytes(self) -> Seq<u8> {
        match self {
            ScalarValue::U8(v) => seq![v],
            ScalarValue::I8(v) => seq![i8_bits(v)],
            ScalarValue::U16(v) => le16(v),
            ScalarValue::I16(v) => le16(i16_bits(v)),
            ScalarValue::U32(v) => le32(v),
            ScalarValue::I32(v) => le32(i32_bits(v)),
            ScalarValue::U64(v) => le64(v),
            ScalarValue::I64(v) => le64(i64_bits(v)),
            ScalarValue::F32(bits) => le32(bits),
            ScalarValue::F64(bits) => le64(bits),
            ScalarValue::Bool(v) => seq![if v { 1u8 } else { 0u8 }],
        }
    }
}

/// The value of a field: one primitive, or the elements of an array.
#[derive(Debug, Clone, PartialEq, Eq)]
pub enum FieldValue {
    Scalar(ScalarValue),
    Array(Vec<ScalarValue>),
}

/// The value of a field as a mathematical value.
pub enum FieldView {
    Scalar(ScalarValue),
    Array(Seq<ScalarValue>),
}

impl View for FieldValue {
    type V = FieldView;

    open spec fn view(&self) -> FieldView {
        match self {
            FieldValue::Scalar(value) => FieldView::Scalar(*value),
            FieldValue::Array(elems) => FieldView::Array(elems@),
        }
    }
}

/// The bytes of the elements of an array, one element after the other.
pub open spec fn array_bytes(elems: Seq<ScalarValue>) -> Seq<u8>
    decreases elems.len(),
{
    if elems.len() == 0 {
        Seq::empty()
    } else {
        array_bytes(elems.drop_last()) + elems.last().bytes()
    }
}

impl FieldView {
    /// The bytes of the field on the wire.
    pub open spec fn bytes(self) -> Seq<u8> {
        match self {
            FieldView::Scalar(value) => value.bytes(),
            FieldView::Array(elems) => array_bytes(elems),
        }
    }

    /// Whether the value is of the type `ty`: a primitive of its kind, or an
    /// array of its length whose elements are all of its kind.
    pub open spec fn conforms(self, ty: ULogType) -> bool {
        match (self, ty) {
            (FieldView::Scalar(value), ULogType::Scalar { kind }) => value.kind() == kind,
            (FieldView::Array(elems), ULogType::Array { elem_kind, len }) => elems.len() == len
                && forall|i: int|
                0 <= i < elems.len() ==> (#[trigger] elems[i]).kind() == elem_kind,
            _ => false,
        }
    }
}

/// The bytes of one sample: the bytes of its fields in the order of their
/// declaration.
pub open spec fn fields_bytes(values: Seq<FieldView>) -> Seq<u8>
    decreases values.len(),
{
    if values.len() == 0 {
        Seq::empty()
    } else {
        fields_bytes(values.drop_last()) + values.last().bytes()
    }
}

/// The values of the fields as mathematical values.
pub open spec fn views(values: Seq<FieldValue>) -> Seq<FieldView> {
    values.map_values(|value: FieldValue| value@)
}

/// Appends the bytes of `value` to `out`.
fn push_scalar(out: &mut Vec<u8>, value: ScalarValue)
    ensures
        final(out)@ == old(out)@ + value.bytes(),
{
    match value {
        ScalarValue::U8(v) => {
            out.push(v);
            assert(out@ =~= old(out)@ + value.bytes());
        },
        ScalarValue::I8(v) => {
            out.push(i8_byte(v));
            assert(out@ =~= old(out)@ + value.bytes());
        },
        ScalarValue::U16(v) => append(out, u16_le(v).as_slice()),
        ScalarValue::I16(v) => append(out, i16_le(v).as_slice()),
        ScalarValue::U32(v) => append(out, u32_le(v).as_slice()),
        ScalarValue::I32(v) => append(out, i32_le(v).as_slice()),
        ScalarValue::U64(v) => append(out, u64_le(v).as_slice()),
        ScalarValue::I64(v) => append(out, i64_le(v).as_slice()),
        ScalarValue::F32(bits) => append(out, u32_le(bits).as_slice()),
        ScalarValue::F64(bits) => append(out, u64_le(bits).as_slice()),
        ScalarValue::Bool(v) => {
            out.push(if v { 1 } else { 0 });
            assert(out@ =~= old(out)@ + value.bytes());
        },
    }
}

/// The bytes of one sample with these field values.
pub fn encode_values(values: &[FieldValue]) -> (bytes: Vec<u8>)
    ensures
        bytes@ == fields_bytes(views(values@)),
{
    let mut bytes: Vec<u8> = Vec::new();
    let mut i: usize = 0;
    while i < values.len()
        invariant
            i <= values@.len(),
            bytes@ == fields_bytes(views(values@).take(i as int)),
        decreases values@.len() - i,
    {
        let ghost before = bytes@;
        match &values[i] {
            FieldValue::Scalar(value) => push_scalar(&mut bytes, *value),
            FieldValue::Array(elems) => {
                let mut j: usize = 0;
                while j < elems.len()
                    invariant
                        j <= elems@.len(),
                        bytes@ == before + array_bytes(elems@.take(j as int)),
                    decreases elems@.len() - j,
                {
                    let ghost sofar = bytes@;
                    push_scalar(&mut bytes, elems[j]);
                    j += 1;
                    proof {
                        let done = elems@.take(j as int);
                        assert(done.drop_last() =~= elems@.take(j - 1));
                        assert(done.last() == elems@[j - 1]);
                        assert(bytes@ =~= before + array_bytes(done));
                    }
                }
                assert(elems@.take(elems@.len() as int) =~= elems@);
            },
        }
        i += 1;
        proof {
            let done = views(values@).take(i as int);
            assert(done.drop_last() =~= views(values@).take(i - 1));
            assert(done.last() == values@[i - 1]@);
        }
    }
    assert(views(values@).take(values@.len() as int) =~= views(values@));
    bytes
}

/// Writes the bytes of one sample with these field values to the front of
/// `buf` and returns their number, or `BufferOverflow` where `buf` is too
/// short for them.
pub fn encode_fields(values: &[FieldValue], buf: &mut [u8]) -> (written: Result<usize, EncodeError>)
    ensures
        written is Ok <==> fields_bytes(views(values@)).len() <= old(buf)@.len(),
        written is Ok ==> written->Ok_0 == fields_bytes(views(values@)).len() && final(buf)@
            == fields_bytes(views(values@)) + old(buf)@.skip(written->Ok_0 as int),
        written is Err ==> written->Err_0 == EncodeError::BufferOverflow && final(buf)@ == old(
            buf,
        )@,
{
    let bytes = encode_values(values);
    if buf.len() < bytes.len() {
        return Err(EncodeError::BufferOverflow);
    }
    let ghost before = buf@;
    let mut i: usize = 0;
    while i < bytes.len()
        invariant
            i <= bytes@.len(),
            bytes@.len() <= buf@.len(),
            buf@.len() == before.len(),
            forall|k: int| 0 <= k < i ==> buf@[k] == bytes@[k],
            forall|k: int| i <= k < buf@.len() ==> buf@[k] == before[k],
        decreases bytes@.len() - i,
    {
        buf[i] = bytes[i];
        i += 1;
    }
    assert(buf@ =~= bytes@ + before.skip(bytes@.len() as int));
    Ok(bytes.len())
}

/// The value of the kind `kind` that the bytes `b` stand for.
pub open spec fn decode_scalar(kind: PrimitiveKind, b: Seq<u8>) -> ScalarValue {
    match kind {
        PrimitiveKind::U8 => ScalarValue::U8(b[0]),
        PrimitiveKind::I8 => ScalarValue::I8(i8_of_bits(b[0])),
        PrimitiveKind::U16 => ScalarValue::U16(from_le16(b)),
        PrimitiveKind::I16 => ScalarValue::I16(i16_of_bits(from_le16(b))),
        PrimitiveKind::U32 => ScalarValue::U32(from_le32(b)),
        PrimitiveKind::I32 => ScalarValue::I32(i32_of_bits(from_le32(b))),
        PrimitiveKind::U64 => ScalarValue::U64(from_le64(b)),
        PrimitiveKind::I64 => ScalarValue::I64(i64_of_bits(from_le64(b))),
        PrimitiveKind::F32 => ScalarValue::F32(from_le32(b)),
        PrimitiveKind::F64 => ScalarValue::F64(from_le64(b)),
        PrimitiveKind::Bool => ScalarValue::Bool(b[0] != 0),
    }
}

/// The `count` values of the kind `kind` that the bytes `b` stand for.
pub open spec fn decode_array(kind: PrimitiveKind, count: nat, b: Seq<u8>) -> Seq<ScalarValue>
    decreases count,
{
    if count == 0 {
        Seq::empty()
    } else {
        let front = (kind.width() * (count - 1)) as int;
        decode_array(kind, (count - 1) as nat, b.take(front)).push(
            decode_scalar(kind, b.skip(front)),
        )
    }
}

/// The value of the type `ty` that the bytes `b` stand for.
pub open spec fn decode_field(ty: ULogType, b: Seq<u8>) -> FieldView {
    match ty {
        ULogType::Scalar { kind } => FieldView::Scalar(decode_scalar(kind, b)),
        ULogType::Array { elem_kind, len } => FieldView::Array(
            decode_array(elem_kind, len as nat, b),
        ),
    }
}

/// The values of fields of the types `types` that the bytes `b` of one
/// sample stand for.
pub open spec fn decode_fields(types: Seq<ULogType>, b: Seq<u8>) -> Seq<FieldView>
    decreases types.len(),
{
    if types.len() == 0 {
        Seq::empty()
    } else {
        let front = types_width(types.drop_last()) as int;
        decode_fields(types.drop_last(), b.take(front)).push(
            decode_field(types.last(), b.skip(front)),
        )
    }
}

/// The bytes of a primitive value are as many as its kind is wide, and
/// stand for the value.
pub proof fn lemma_scalar_round_trip(value: ScalarValue)
    ensures
        value.bytes().len() == value.kind().width(),
        decode_scalar(value.kind(), value.bytes()) == value,
{
    match value {
        ScalarValue::U16(v) => lemma_le16_round_trip(v),
        ScalarValue::I16(v) => lemma_le16_round_trip(i16_bits(v)),
        ScalarValue::U32(v) => lemma_le32_round_trip(v),
        ScalarValue::I32(v) => lemma_le32_round_trip(i32_bits(v)),
        ScalarValue::F32(v) => lemma_le32_round_trip(v),
        ScalarValue::U64(v) => lemma_le64_round_trip(v),
        ScalarValue::I64(v) => lemma_le64_round_trip(i64_bits(v)),
        ScalarValue::F64(v) => lemma_le64_round_trip(v),
        _ => {},
    }
}

/// The bytes of the elements of an array are as many as the array is wide,
/// and stand for the elements.
pub proof fn lemma_array_round_trip(kind: PrimitiveKind, elems: Seq<ScalarValue>)
    requires
        forall|i: int| 0 <= i < elems.len() ==> (#[trigger] elems[i]).kind() == kind,
    ensures
        array_bytes(elems).len() == kind.width() * elems.len(),
        decode_array(kind, elems.len(), array_bytes(elems)) == elems,
    decreases elems.len(),
{
    if elems.len() > 0 {
        let front = elems.drop_last();
        lemma_array_round_trip(kind, front);
        lemma_scalar_round_trip(elems.last());
        assert(kind.width() * elems.len() == kind.width() * front.len() + kind.width())
            by (nonlinear_arith)
            requires
                elems.len() == front.len() + 1,
        ;
        let b = array_bytes(elems);
        let cut = (kind.width() * front.len()) as int;
        assert(cut == kind.width() * (elems.len() - 1));
        assert(b.take(cut) =~= array_bytes(front));
        assert(b.skip(cut) =~= elems.last().bytes());
        assert(front.push(elems.last()) =~= elems);
    } else {
        assert(decode_array(kind, 0, array_bytes(elems)) =~= elems);
    }
}

/// Decoding gives back what was encoded: the bytes of one sample are as
/// many as its types are wide, and reading them by the types of the fields
/// gives the values of the fields.
pub proof fn lemma_decode_encoded(values: Seq<FieldView>, types: Seq<ULogType>)
    requires
        values.len() == types.len(),
        forall|i: int| 0 <= i < values.len() ==> (#[trigger] values[i]).conforms(types[i]),
    ensures
        fields_bytes(values).len() == types_width(types),
        decode_fields(types, fields_bytes(values)) == values,
    decreases values.len(),
{
    if values.len() > 0 {
        let front = values.drop_last();
        let front_types = types.drop_last();
        assert forall|i: int| 0 <= i < front.len() implies (#[trigger] front[i]).conforms(
            front_types[i],
        ) by {
            assert(values[i].conforms(types[i]));
        }
        lemma_decode_encoded(front, front_types);
        let last = values.last();
        assert(last.conforms(types.last()));
        match last {
            FieldView::Scalar(value) => lemma_scalar_round_trip(value),
            FieldView::Array(elems) => lemma_array_round_trip(
                types.last()->Array_elem_kind,
                elems,
            ),
        }
        assert(last.bytes().len() == types.last().width());
        assert(decode_field(types.last(), last.bytes()) == last);
        let b = fields_bytes(values);
        assert(b == fields_bytes(front) + last.bytes());
        let cut = types_width(front_types) as int;
        assert(b.take(cut) =~= fields_bytes(front));
        assert(b.skip(cut) =~= last.bytes());
        assert(front.push(last) =~= values);
    } else {
        assert(decode_fields(types, fields_bytes(values)) =~= values);
    }
}

/// The types of fields are as wide as the fields.
pub proof fn lemma_types_width(fields: Seq<FieldInfo>)
    ensures
        types_width(types_of(fields)) == total_width(fields),
    decreases fields.len(),
{
    if fields.len() > 0 {
        lemma_types_width(fields.drop_last());
        assert(types_of(fields).drop_last() =~= types_of(fields.drop_last()));
    }
}

/// One sample of a telemetry type has the wire size of the type, and a
/// decoder that reads it by the fields of the type gets the values of the
/// fields back.
pub proof fn lemma_sample_reads_back(fields: Seq<FieldInfo>, values: Seq<FieldView>)
    requires
        values.len() == fields.len(),
        forall|i: int| 0 <= i < values.len() ==> (#[trigger] values[i]).conforms(fields[i].ty),
    ensures
        fields_bytes(values).len() == total_width(fields),
        decode_fields(types_of(fields), fields_bytes(values)) == values,
{
    lemma_types_width(fields);
    assert forall|i: int| 0 <= i < values.len() implies (#[trigger] values[i]).conforms(
        types_of(fields)[i],
    ) by {
        assert(values[i].conforms(fields[i].ty));
    }
    lemma_decode_encoded(values, types_of(fields));
}

/// The time of a sample leads its bytes: where the first field is the
/// `u64` of the time, the first eight bytes of the sample are the time,
/// least significant byte first.
pub proof fn lemma_timestamp_leads(values: Seq<FieldView>, timestamp: u64)
    requires
        values.len() > 0,
        values[0] == FieldView::Scalar(ScalarValue::U64(timestamp)),
    ensures
        fields_bytes(values).len() >= 8,
        fields_bytes(values).take(8) == le64(timestamp),
    decreases values.len(),
{
    if values.len() == 1 {
        assert(values.drop_last() =~= Seq::<FieldView>::empty());
        assert(fields_bytes(values.drop_last()) =~= Seq::<u8>::empty());
        assert(values.last().bytes() == le64(timestamp));
        assert(fields_bytes(values) =~= le64(timestamp));
        assert(fields_bytes(values).take(8) =~= le64(timestamp));
    } else {
        lemma_timestamp_leads(values.drop_last(), timestamp);
        let front = fields_bytes(values.drop_last());
        assert((front + values.last().bytes()).take(8) =~= front.take(8));
    }
}

} // verus!
