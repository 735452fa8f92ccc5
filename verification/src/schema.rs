//! The description of a telemetry type: its fields, the format descriptor
//! that names them and the size of one sample, worked out from the
//! declaration of the type.

use crate::registry::str_eq;
use crate::wire::append;
use vstd::prelude::*;
use vstd::string::StringSliceAdditionalSpecFns;
use vstd::utf8::encode_utf8;

verus! {

/// The primitive types that a field of a telemetry type can have.
#[derive(Debug, Clone, Copy, PartialEq, Eq, Structural)]
pub enum PrimitiveKind {
    U8,
    I8,
    U16,
    I16,
    U32,
    I32,
    U64,
    I64,
    F32,
    F64,
    Bool,
}

impl PrimitiveKind {
    /// The number of bytes of a value of this kind on the wire.
    pub open spec fn width(self) -> nat {
        match self {
            PrimitiveKind::U8 | PrimitiveKind::I8 | PrimitiveKind::Bool => 1,
            PrimitiveKind::U16 | PrimitiveKind::I16 => 2,
            PrimitiveKind::U32 | PrimitiveKind::I32 | PrimitiveKind::F32 => 4,
            PrimitiveKind::U64 | PrimitiveKind::I64 | PrimitiveKind::F64 => 8,
        }
    }

    /// The name of this kind in a format descriptor.
    pub open spec fn format_name(self) -> &'static str {
        match self {
            PrimitiveKind::U8 => "uint8_t",
            PrimitiveKind::I8 => "int8_t",
            PrimitiveKind::U16 => "uint16_t",
            PrimitiveKind::I16 => "int16_t",
            PrimitiveKind::U32 => "uint32_t",
            PrimitiveKind::I32 => "int32_t",
            PrimitiveKind::U64 => "uint64_t",
            PrimitiveKind::I64 => "int64_t",
            PrimitiveKind::F32 => "float",
            PrimitiveKind::F64 => "double",
            PrimitiveKind::Bool => "bool",
        }
    }

    /// The name of this kind in Rust source.
    pub open spec fn rust_name(self) -> &'static str {
        match self {
            PrimitiveKind::U8 => "u8",
            PrimitiveKind::I8 => "i8",
            PrimitiveKind::U16 => "u16",
            PrimitiveKind::I16 => "i16",
            PrimitiveKind::U32 => "u32",
            PrimitiveKind::I32 => "i32",
            PrimitiveKind::U64 => "u64",
            PrimitiveKind::I64 => "i64",
            PrimitiveKind::F32 => "f32",
            PrimitiveKind::F64 => "f64",
            PrimitiveKind::Bool => "bool",
        }
    }

    /// The number of bytes of a value of this kind on the wire.
    pub fn size(self) -> (n: usize)
        ensures
            n == self.width(),
    {
        match self {
            PrimitiveKind::U8 | PrimitiveKind::I8 | PrimitiveKind::Bool => 1,
            PrimitiveKind::U16 | PrimitiveKind::I16 => 2,
            PrimitiveKind::U32 | PrimitiveKind::I32 | PrimitiveKind::F32 => 4,
            PrimitiveKind::U64 | PrimitiveKind::I64 | PrimitiveKind::F64 => 8,
        }
    }

    /// The name of this kind in a format descriptor.
    pub fn ulog_name(self) -> (name: &'static str)
        ensures
            name@ == self.format_name()@,
    {
        match self {
            PrimitiveKind::U8 => "uint8_t",
            PrimitiveKind::I8 => "int8_t",
            PrimitiveKind::U16 => "uint16_t",
            PrimitiveKind::I16 => "int16_t",
            PrimitiveKind::U32 => "uint32_t",
            PrimitiveKind::I32 => "int32_t",
            PrimitiveKind::U64 => "uint64_t",
            PrimitiveKind::I64 => "int64_t",
            PrimitiveKind::F32 => "float",
            PrimitiveKind::F64 => "double",
            PrimitiveKind::Bool => "bool",
        }
    }
}

/// The primitive kind that the Rust type name `name` stands for, or nothing
/// where it names no primitive that a field can have.
pub open spec fn kind_named(name: Seq<char>) -> Option<PrimitiveKind> {
    if name == "u8"@ {
        Some(PrimitiveKind::U8)
    } else if name == "i8"@ {
        Some(PrimitiveKind::I8)
    } else if name == "u16"@ {
        Some(PrimitiveKind::U16)
    } else if name == "i16"@ {
        Some(PrimitiveKind::I16)
    } else if name == "u32"@ {
        Some(PrimitiveKind::U32)
    } else if name == "i32"@ {
        Some(PrimitiveKind::I32)
    } else if name == "u64"@ {
        Some(PrimitiveKind::U64)
    } else if name == "i64"@ {
        Some(PrimitiveKind::I64)
    } else if name == "f32"@ {
        Some(PrimitiveKind::F32)
    } else if name == "f64"@ {
        Some(PrimitiveKind::F64)
    } else if name == "bool"@ {
        Some(PrimitiveKind::Bool)
    } else {
        None
    }
}

/// The primitive kind that the Rust type name `ident` stands for, or nothing
/// where it names no primitive that a field can have.
pub fn primitive_spec(ident: &str) -> (kind: Option<PrimitiveKind>)
    ensures
        kind == kind_named(ident@),
{
    if str_eq(ident, "u8") {
        Some(PrimitiveKind::U8)
    } else if str_eq(ident, "i8") {
        Some(PrimitiveKind::I8)
    } else if str_eq(ident, "u16") {
        Some(PrimitiveKind::U16)
    } else if str_eq(ident, "i16") {
        Some(PrimitiveKind::I16)
    } else if str_eq(ident, "u32") {
        Some(PrimitiveKind::U32)
    } else if str_eq(ident, "i32") {
        Some(PrimitiveKind::I32)
    } else if str_eq(ident, "u64") {
        Some(PrimitiveKind::U64)
    } else if str_eq(ident, "i64") {
        Some(PrimitiveKind::I64)
    } else if str_eq(ident, "f32") {
        Some(PrimitiveKind::F32)
    } else if str_eq(ident, "f64") {
        Some(PrimitiveKind::F64)
    } else if str_eq(ident, "bool") {
        Some(PrimitiveKind::Bool)
    } else {
        None
    }
}

/// Every kind is the kind that its Rust name stands for.
pub proof fn lemma_kind_of_its_name(kind: PrimitiveKind)
    ensures
        kind_named(kind.rust_name()@) == Some(kind),
{
    reveal_strlit("u8");
    reveal_strlit("i8");
    reveal_strlit("u16");
    reveal_strlit("i16");
    reveal_strlit("u32");
    reveal_strlit("i32");
    reveal_strlit("u64");
    reveal_strlit("i64");
    reveal_strlit("f32");
    reveal_strlit("f64");
    reveal_strlit("bool");
    assert("u8"@.len() == 2 && "u8"@[0] == 'u' && "u8"@[1] == '8');
    assert("i8"@.len() == 2 && "i8"@[0] == 'i' && "i8"@[1] == '8');
    assert("u16"@.len() == 3 && "u16"@[0] == 'u' && "u16"@[1] == '1');
    assert("i16"@.len() == 3 && "i16"@[0] == 'i' && "i16"@[1] == '1');
    assert("u32"@.len() == 3 && "u32"@[0] == 'u' && "u32"@[1] == '3');
    assert("i32"@.len() == 3 && "i32"@[0] == 'i' && "i32"@[1] == '3');
    assert("u64"@.len() == 3 && "u64"@[0] == 'u' && "u64"@[1] == '6');
    assert("i64"@.len() == 3 && "i64"@[0] == 'i' && "i64"@[1] == '6');
    assert("f32"@.len() == 3 && "f32"@[0] == 'f' && "f32"@[1] == '3');
    assert("f64"@.len() == 3 && "f64"@[0] == 'f' && "f64"@[1] == '6');
    assert("bool"@.len() == 4);
}

/// The type of a field: a primitive, or an array of primitives of a fixed
/// length.
#[derive(Debug, Clone, Copy, PartialEq, Eq, Structural)]
pub enum ULogType {
    Scalar { kind: PrimitiveKind },
    Array { elem_kind: PrimitiveKind, len: usize },
}

/// The decimal digits of `n`, as ASCII.
pub open spec fn decimal(n: nat) -> Seq<u8>
    decreases n,
{
    if n < 10 {
        seq![(0x30 + n) as u8]
    } else {
        decimal(n / 10) + seq![(0x30 + n % 10) as u8]
    }
}

/// Appends the decimal digits of `n` to `out`.
fn push_decimal(out: &mut Vec<u8>, n: usize)
    ensures
        final(out)@ == old(out)@ + decimal(n as nat),
    decreases n,
{
    if n >= 10 {
        push_decimal(out, n / 10);
    }
    let ghost front = out@;
    out.push(0x30 + (n % 10) as u8);
    assert(out@ =~= front + seq![(0x30 + n % 10) as u8]);
    assert(old(out)@ + decimal(n as nat) =~= out@);
}

impl ULogType {
    /// The number of bytes of a value of this type on the wire.
    pub open spec fn width(self) -> nat {
        match self {
            ULogType::Scalar { kind } => kind.width(),
            ULogType::Array { elem_kind, len } => elem_kind.width() * (len as nat),
        }
    }

    /// The text of this type in a format descriptor: the name of the
    /// primitive, and for an array its length in square brackets behind it.
    pub open spec fn text(self) -> Seq<u8> {
        match self {
            ULogType::Scalar { kind } => kind.format_name().spec_bytes(),
            ULogType::Array { elem_kind, len } => elem_kind.format_name().spec_bytes() + seq![
                0x5bu8,
            ] + decimal(len as nat) + seq![0x5du8],
        }
    }

    /// The number of bytes of a value of this type on the wire, or nothing
    /// where the number does not fit a `usize`.
    pub fn size(&self) -> (n: Option<usize>)
        ensures
            n is Some <==> self.width() <= usize::MAX,
            n is Some ==> n->0 == self.width(),
    {
        match self {
            ULogType::Scalar { kind } => Some(kind.size()),
            ULogType::Array { elem_kind, len } => {
                let n = elem_kind.size().checked_mul(*len);
                n
            },
        }
    }

    /// The text of this type in a format descriptor.
    pub fn format_ulog(&self) -> (text: Vec<u8>)
        ensures
            text@ == self.text(),
    {
        let mut text: Vec<u8> = Vec::new();
        match self {
            ULogType::Scalar { kind } => {
                let name = kind.ulog_name();
                append(&mut text, name.as_bytes());
                assert(text@ =~= self.text());
            },
            ULogType::Array { elem_kind, len } => {
                let name = elem_kind.ulog_name();
                append(&mut text, name.as_bytes());
                text.push(0x5b);
                push_decimal(&mut text, *len);
                text.push(0x5d);
                assert(text@ =~= self.text());
            },
        }
        text
    }
}

/// A field of a telemetry type: its name and its type.
#[derive(Debug, Clone, PartialEq, Eq)]
pub struct FieldInfo {
    pub name: String,
    pub ty: ULogType,
}

impl FieldInfo {
    /// The entry of the field in a format descriptor: its type, a blank, its
    /// name and a semicolon.
    pub open spec fn text(self) -> Seq<u8> {
        self.ty.text() + seq![0x20u8] + encode_utf8(self.name@) + seq![0x3bu8]
    }
}

/// The format descriptor of the fields: their entries, one after the other.
pub open spec fn format_text(fields: Seq<FieldInfo>) -> Seq<u8>
    decreases fields.len(),
{
    if fields.len() == 0 {
        Seq::empty()
    } else {
        format_text(fields.drop_last()) + fields.last().text()
    }
}

/// The number of bytes of one sample: the sum of the widths of the fields.
pub open spec fn total_width(fields: Seq<FieldInfo>) -> nat
    decreases fields.len(),
{
    if fields.len() == 0 {
        0
    } else {
        total_width(fields.drop_last()) + fields.last().ty.width()
    }
}

/// The number of bytes of one sample with fields of these types.
pub open spec fn types_width(types: Seq<ULogType>) -> nat
    decreases types.len(),
{
    if types.len() == 0 {
        0
    } else {
        types_width(types.drop_last()) + types.last().width()
    }
}

/// The format descriptor of a telemetry type with these fields.
pub fn build_format_string(fields: &[FieldInfo]) -> (text: Vec<u8>)
    ensures
        text@ == format_text(fields@),
{
    let mut text: Vec<u8> = Vec::new();
    let mut i: usize = 0;
    while i < fields.len()
        invariant
            i <= fields@.len(),
            text@ == format_text(fields@.take(i as int)),
        decreases fields@.len() - i,
    {
        let ghost before = text@;
        let entry = fields[i].ty.format_ulog();
        append(&mut text, entry.as_slice());
        text.push(0x20);
        append(&mut text, fields[i].name.as_str().as_bytes());
        text.push(0x3b);
        i += 1;
        proof {
            let done = fields@.take(i as int);
            assert(done.drop_last() =~= fields@.take(i - 1));
            assert(done.last() == fields@[i - 1]);
            assert(text@ =~= before + fields@[i - 1].text());
        }
    }
    assert(fields@.take(fields@.len() as int) =~= fields@);
    text
}

/// The number of bytes of one sample of a telemetry type with these fields,
/// or nothing where the number does not fit a `usize`.
pub fn wire_size(fields: &[FieldInfo]) -> (n: Option<usize>)
    ensures
        n is Some <==> total_width(fields@) <= usize::MAX,
        n is Some ==> n->0 == total_width(fields@),
{
    let mut total: usize = 0;
    let mut i: usize = 0;
    while i < fields.len()
        invariant
            i <= fields@.len(),
            total == total_width(fields@.take(i as int)),
        decreases fields@.len() - i,
    {
        let ghost done = fields@.take(i + 1);
        proof {
            assert(done.drop_last() =~= fields@.take(i as int));
            assert(done.last() == fields@[i as int]);
            lemma_total_width_grows(done, fields@);
        }
        let width = match fields[i].ty.size() {
            Some(width) => width,
            None => {
                return None;
            },
        };
        total = match total.checked_add(width) {
            Some(total) => total,
            None => {
                return None;
            },
        };
        i += 1;
    }
    assert(fields@.take(fields@.len() as int) =~= fields@);
    Some(total)
}

/// The fields at the front of a type are no wider than all its fields.
proof fn lemma_total_width_grows(front: Seq<FieldInfo>, all: Seq<FieldInfo>)
    requires
        front.len() <= all.len(),
        front == all.take(front.len() as int),
    ensures
        total_width(front) <= total_width(all),
    decreases all.len(),
{
    if front.len() < all.len() {
        assert(all.drop_last().take(front.len() as int) =~= front);
        lemma_total_width_grows(front, all.drop_last());
    } else {
        assert(front =~= all);
    }
}

/// Why a telemetry type cannot be described.
#[derive(Debug, Clone, Copy, PartialEq, Eq, Structural)]
pub enum SchemaError {
    /// No field is named `timestamp`.
    MissingTimestamp,
    /// The field named `timestamp` is not a `u64`.
    BadTimestampType,
    /// The field named `timestamp` is not the first field.
    TimestampNotFirst,
    /// A field has a type that is neither a primitive nor an array.
    UnsupportedType,
    /// The elements of an array are of no primitive type.
    UnsupportedElement,
    /// The length of an array is no integer literal.
    BadArrayLength,
    /// The type has generic parameters.
    Generics,
    /// The type is no struct.
    NotAStruct,
    /// The fields of the struct have no names.
    UnnamedFields,
    /// The name of the message is given twice.
    DuplicateName,
    /// The name of the message is no string literal.
    BadNameValue,
    /// An attribute has a key other than `name`.
    UnsupportedAttribute,
    /// One sample has more bytes than a `usize` can count.
    SampleTooLarge,
}

/// What the declaration of a field says of its type.
#[derive(Debug, Clone, PartialEq, Eq)]
pub enum TypeShape {
    /// A plain name, such as `u64`.
    Name(String),
    /// An array: the type of its elements, where that is a plain name, and
    /// its length, where that is an integer literal.
    Array { elem: Option<String>, len: Option<usize> },
    /// Anything else.
    Other,
}

/// A field as it is declared: its name and what is written for its type.
#[derive(Debug, Clone, PartialEq, Eq)]
pub struct FieldDecl {
    pub name: String,
    pub shape: TypeShape,
}

/// The type that a declaration stands for, or why it stands for none.
pub open spec fn type_of_shape(shape: TypeShape) -> Result<ULogType, SchemaError> {
    match shape {
        TypeShape::Name(name) => match kind_named(name@) {
            Some(kind) => Ok(ULogType::Scalar { kind }),
            None => Err(SchemaError::UnsupportedType),
        },
        TypeShape::Array { elem: Some(name), len } => match kind_named(name@) {
            Some(elem_kind) => match len {
                Some(len) => Ok(ULogType::Array { elem_kind, len }),
                None => Err(SchemaError::BadArrayLength),
            },
            None => Err(SchemaError::UnsupportedElement),
        },
        TypeShape::Array { elem: None, .. } => Err(SchemaError::UnsupportedElement),
        TypeShape::Other => Err(SchemaError::UnsupportedType),
    }
}

/// The type that a declaration stands for, or why it stands for none.
pub fn type_spec(shape: &TypeShape) -> (ty: Result<ULogType, SchemaError>)
    ensures
        ty == type_of_shape(*shape),
{
    match shape {
        TypeShape::Name(name) => match primitive_spec(name.as_str()) {
            Some(kind) => Ok(ULogType::Scalar { kind }),
            None => Err(SchemaError::UnsupportedType),
        },
        TypeShape::Array { elem, len } => {
            let elem_kind = match elem {
                Some(name) => match primitive_spec(name.as_str()) {
                    Some(elem_kind) => elem_kind,
                    None => {
                        return Err(SchemaError::UnsupportedElement);
                    },
                },
                None => {
                    return Err(SchemaError::UnsupportedElement);
                },
            };
            match len {
                Some(len) => Ok(ULogType::Array { elem_kind, len: *len }),
                None => Err(SchemaError::BadArrayLength),
            }
        },
        TypeShape::Other => Err(SchemaError::UnsupportedType),
    }
}

/// Whether `decl` is a field named `timestamp`.
pub open spec fn is_timestamp(decl: FieldDecl) -> bool {
    decl.name@ == "timestamp"@
}

/// Whether the fields begin as every telemetry type must: with a field
/// named `timestamp` of the type `u64`. Where they do not, the error says
/// whether no field has that name, the field of that name is not the first,
/// or it has another type.
pub open spec fn timestamp_verdict(fields: Seq<FieldDecl>) -> Result<(), SchemaError> {
    if !(exists|i: int| 0 <= i < fields.len() && is_timestamp(#[trigger] fields[i])) {
        Err(SchemaError::MissingTimestamp)
    } else if !is_timestamp(fields[0]) {
        Err(SchemaError::TimestampNotFirst)
    } else if fields[0].shape matches TypeShape::Name(name) && name@ == "u64"@ {
        Ok(())
    } else {
        Err(SchemaError::BadTimestampType)
    }
}

/// Checks that the fields begin with `timestamp: u64`.
pub fn validate_timestamp_field(fields: &[FieldDecl]) -> (verdict: Result<(), SchemaError>)
    ensures
        verdict == timestamp_verdict(fields@),
{
    let mut i: usize = 0;
    let mut found = false;
    while i < fields.len() && !found
        invariant
            i <= fields@.len(),
            forall|k: int| 0 <= k < i ==> !is_timestamp(#[trigger] fields@[k]),
            found ==> i < fields@.len() && is_timestamp(fields@[i as int]),
        decreases fields@.len() - i + if found { 0int } else { 1int },
    {
        if str_eq(fields[i].name.as_str(), "timestamp") {
            found = true;
        } else {
            i += 1;
        }
    }
    if !found {
        return Err(SchemaError::MissingTimestamp);
    }
    if i != 0 {
        return Err(SchemaError::TimestampNotFirst);
    }
    match &fields[0].shape {
        TypeShape::Name(name) => {
            if str_eq(name.as_str(), "u64") {
                Ok(())
            } else {
                Err(SchemaError::BadTimestampType)
            }
        },
        _ => Err(SchemaError::BadTimestampType),
    }
}

/// The field that a declaration stands for, or why it stands for none.
pub fn process_field(decl: &FieldDecl) -> (field: Result<FieldInfo, SchemaError>)
    ensures
        (match field {
            Ok(info) => type_of_shape(decl.shape) == Ok::<ULogType, SchemaError>(info.ty)
                && info.name@ == decl.name@,
            Err(e) => type_of_shape(decl.shape) == Err::<ULogType, SchemaError>(e),
        }),
{
    match type_spec(&decl.shape) {
        Ok(ty) => Ok(FieldInfo { name: decl.name.clone(), ty }),
        Err(e) => Err(e),
    }
}

/// One entry of the attribute of a telemetry type: its key, and its value
/// where that is a string literal.
#[derive(Debug, Clone, PartialEq, Eq)]
pub struct AttrEntry {
    pub key: String,
    pub value: Option<String>,
}

/// What the entries from the first on make of the name of the message, when
/// `chosen` is what the entries before them gave: each entry must have the
/// key `name`, only one may, and its value must be a string literal.
pub open spec fn scan_names(entries: Seq<AttrEntry>, chosen: Option<Seq<char>>) -> Result<
    Option<Seq<char>>,
    SchemaError,
>
    decreases entries.len(),
{
    if entries.len() == 0 {
        Ok(chosen)
    } else if entries[0].key@ != "name"@ {
        Err(SchemaError::UnsupportedAttribute)
    } else if chosen is Some {
        Err(SchemaError::DuplicateName)
    } else if entries[0].value is None {
        Err(SchemaError::BadNameValue)
    } else {
        scan_names(entries.drop_first(), Some(entries[0].value->0@))
    }
}

/// The name of the message of the type `ident` with these attribute
/// entries: the name that an entry gives, else the name of the type.
pub open spec fn name_verdict(ident: Seq<char>, entries: Seq<AttrEntry>) -> Result<
    Seq<char>,
    SchemaError,
> {
    match scan_names(entries, None) {
        Ok(Some(name)) => Ok(name),
        Ok(None) => Ok(ident),
        Err(e) => Err(e),
    }
}

/// The name of the message of the type `ident` with these attribute
/// entries, or why the entries give none.
pub fn extract_ulog_name(ident: &str, entries: &[AttrEntry]) -> (name: Result<String, SchemaError>)
    ensures
        (match name {
            Ok(text) => name_verdict(ident@, entries@) == Ok::<Seq<char>, SchemaError>(text@),
            Err(e) => name_verdict(ident@, entries@) == Err::<Seq<char>, SchemaError>(e),
        }),
{
    let mut chosen: Option<String> = None;
    let mut i: usize = 0;
    assert(entries@.skip(0) =~= entries@);
    while i < entries.len()
        invariant
            i <= entries@.len(),
            scan_names(entries@, None) == scan_names(
                entries@.skip(i as int),
                match chosen {
                    Some(text) => Some(text@),
                    None => None,
                },
            ),
        decreases entries@.len() - i,
    {
        let ghost rest = entries@.skip(i as int);
        assert(rest[0] == entries@[i as int]);
        assert(rest.drop_first() =~= entries@.skip(i + 1));
        if !str_eq(entries[i].key.as_str(), "name") {
            return Err(SchemaError::UnsupportedAttribute);
        }
        if chosen.is_some() {
            return Err(SchemaError::DuplicateName);
        }
        match &entries[i].value {
            Some(text) => {
                chosen = Some(text.clone());
            },
            None => {
                return Err(SchemaError::BadNameValue);
            },
        }
        i += 1;
    }
    assert(entries@.skip(entries@.len() as int).len() == 0);
    match chosen {
        Some(text) => Ok(text),
        None => Ok(ident.to_owned()),
    }
}

/// What follows the name of a declared type.
#[derive(Debug, Clone, PartialEq, Eq)]
pub enum StructBody {
    /// A struct with named fields.
    Named(Vec<FieldDecl>),
    /// A struct whose fields have no names.
    Unnamed,
    /// An enum or a union.
    NotAStruct,
}

/// A type as it is declared.
#[derive(Debug, Clone, PartialEq, Eq)]
pub struct StructDecl {
    pub ident: String,
    pub has_generics: bool,
    pub attrs: Vec<AttrEntry>,
    pub body: StructBody,
}

/// What a telemetry type is on the wire: the name of its message, its
/// fields, its format descriptor and the number of bytes of one sample.
#[derive(Debug, Clone, PartialEq, Eq)]
pub struct Description {
    pub name: String,
    pub fields: Vec<FieldInfo>,
    pub format: Vec<u8>,
    pub wire_size: usize,
}

impl Description {
    /// Whether this is the description of the declared type `decl`: the
    /// declaration is accepted, the fields are the declared fields with
    /// their types, the name is the name that the attribute gives, or else
    /// that of the type, the format is the format descriptor of the fields
    /// and the wire size the sum of their widths.
    pub open spec fn is_of(self, decl: StructDecl) -> bool {
        &&& describe_verdict(decl) is Ok
        &&& decl.body is Named
        &&& describes(self.fields@, decl.body->Named_0@)
        &&& name_verdict(decl.ident@, decl.attrs@) == Ok::<Seq<char>, SchemaError>(self.name@)
        &&& self.format@ == format_text(self.fields@)
        &&& self.wire_size == total_width(self.fields@)
    }
}

/// The types of the declared fields, or the error of the first that stands
/// for no type.
pub open spec fn fields_verdict(decls: Seq<FieldDecl>) -> Result<Seq<ULogType>, SchemaError>
    decreases decls.len(),
{
    if decls.len() == 0 {
        Ok(Seq::empty())
    } else {
        match fields_verdict(decls.drop_last()) {
            Err(e) => Err(e),
            Ok(types) => match type_of_shape(decls.last().shape) {
                Err(e) => Err(e),
                Ok(ty) => Ok(types.push(ty)),
            },
        }
    }
}

/// Whether `fields` are the declared fields `decls` with their types.
pub open spec fn describes(fields: Seq<FieldInfo>, decls: Seq<FieldDecl>) -> bool {
    &&& fields.len() == decls.len()
    &&& forall|i: int|
        0 <= i < fields.len() ==> (#[trigger] fields[i]).name@ == decls[i].name@ && type_of_shape(
            decls[i].shape,
        ) == Ok::<ULogType, SchemaError>(fields[i].ty)
}

/// The fields that the declarations stand for, or the error of the first
/// that stands for none.
pub fn process_fields(decls: &[FieldDecl]) -> (fields: Result<Vec<FieldInfo>, SchemaError>)
    ensures
        (match fields {
            Ok(list) => fields_verdict(decls@) is Ok && describes(list@, decls@),
            Err(e) => fields_verdict(decls@) == Err::<Seq<ULogType>, SchemaError>(e),
        }),
{
    let mut list: Vec<FieldInfo> = Vec::new();
    let mut i: usize = 0;
    while i < decls.len()
        invariant
            i <= decls@.len(),
            fields_verdict(decls@.take(i as int)) is Ok,
            describes(list@, decls@.take(i as int)),
        decreases decls@.len() - i,
    {
        let ghost done = decls@.take(i + 1);
        proof {
            assert(done.drop_last() =~= decls@.take(i as int));
            assert(done.last() == decls@[i as int]);
        }
        match process_field(&decls[i]) {
            Ok(info) => {
                list.push(info);
            },
            Err(e) => {
                proof {
                    lemma_first_error_stays(done, decls@);
                }
                return Err(e);
            },
        }
        i += 1;
    }
    assert(decls@.take(decls@.len() as int) =~= decls@);
    Ok(list)
}

/// An error among the fields at the front is the error of all the fields.
proof fn lemma_first_error_stays(front: Seq<FieldDecl>, all: Seq<FieldDecl>)
    requires
        front.len() <= all.len(),
        front == all.take(front.len() as int),
        fields_verdict(front) is Err,
    ensures
        fields_verdict(all) == fields_verdict(front),
    decreases all.len(),
{
    if front.len() < all.len() {
        assert(all.drop_last().take(front.len() as int) =~= front);
        lemma_first_error_stays(front, all.drop_last());
    } else {
        assert(front =~= all);
    }
}

/// What becomes of a declared type: the first of these that applies. A type
/// with generic parameters, one that is no struct and one whose fields have
/// no names are refused. So is one that does not begin with
/// `timestamp: u64`, one with a field that stands for no type, one whose
/// sample is too large to count, and one whose attribute gives no name.
pub open spec fn describe_verdict(decl: StructDecl) -> Result<(), SchemaError> {
    if decl.has_generics {
        Err(SchemaError::Generics)
    } else {
        match decl.body {
            StructBody::NotAStruct => Err(SchemaError::NotAStruct),
            StructBody::Unnamed => Err(SchemaError::UnnamedFields),
            StructBody::Named(decls) => match timestamp_verdict(decls@) {
                Err(e) => Err(e),
                Ok(_) => match fields_verdict(decls@) {
                    Err(e) => Err(e),
                    Ok(types) => if types_width(types) > usize::MAX {
                        Err(SchemaError::SampleTooLarge)
                    } else {
                        match name_verdict(decl.ident@, decl.attrs@) {
                            Err(e) => Err(e),
                            Ok(_) => Ok(()),
                        }
                    },
                },
            },
        }
    }
}

/// The types of `fields`, in order.
pub open spec fn types_of(fields: Seq<FieldInfo>) -> Seq<ULogType> {
    fields.map_values(|field: FieldInfo| field.ty)
}

/// The fields that describe the declarations have the types that the
/// declarations stand for.
proof fn lemma_described_types(fields: Seq<FieldInfo>, decls: Seq<FieldDecl>)
    requires
        describes(fields, decls),
    ensures
        fields_verdict(decls) == Ok::<Seq<ULogType>, SchemaError>(types_of(fields)),
        types_width(types_of(fields)) == total_width(fields),
    decreases decls.len(),
{
    if decls.len() > 0 {
        assert forall|i: int|
            0 <= i < fields.len() - 1 implies (#[trigger] fields.drop_last()[i]).name@
            == decls.drop_last()[i].name@ && type_of_shape(decls.drop_last()[i].shape) == Ok::<
            ULogType,
            SchemaError,
        >(fields.drop_last()[i].ty) by {
            assert(fields[i].name@ == decls[i].name@);
        }
        lemma_described_types(fields.drop_last(), decls.drop_last());
        assert(fields[fields.len() - 1].name@ == decls[decls.len() - 1].name@);
        assert(types_of(fields).drop_last() =~= types_of(fields.drop_last()));
        assert(types_of(fields.drop_last()).push(fields.last().ty) =~= types_of(fields));
    } else {
        assert(types_of(fields) =~= Seq::<ULogType>::empty());
    }
}

/// Describes a declared type: the name of its message, its fields, its
/// format descriptor and the size of one sample, or why it cannot be a
/// telemetry type.
pub fn describe(decl: &StructDecl) -> (made: Result<Description, SchemaError>)
    ensures
        (match made {
            Ok(description) => description.is_of(*decl),
            Err(e) => describe_verdict(*decl) == Err::<(), SchemaError>(e),
        }),
{
    if decl.has_generics {
        return Err(SchemaError::Generics);
    }
    let decls = match &decl.body {
        StructBody::Named(decls) => decls,
        StructBody::Unnamed => {
            return Err(SchemaError::UnnamedFields);
        },
        StructBody::NotAStruct => {
            return Err(SchemaError::NotAStruct);
        },
    };
    match validate_timestamp_field(decls.as_slice()) {
        Ok(_) => {},
        Err(e) => {
            return Err(e);
        },
    }
    let fields = match process_fields(decls.as_slice()) {
        Ok(fields) => fields,
        Err(e) => {
            return Err(e);
        },
    };
    proof {
        lemma_described_types(fields@, decls@);
    }
    let format = build_format_string(fields.as_slice());
    let size = match wire_size(fields.as_slice()) {
        Some(size) => size,
        None => {
            return Err(SchemaError::SampleTooLarge);
        },
    };
    match extract_ulog_name(decl.ident.as_str(), decl.attrs.as_slice()) {
        Ok(name) => Ok(Description { name, fields, format, wire_size: size }),
        Err(e) => Err(e),
    }
}

/// The entry of the time in a format descriptor: `uint64_t timestamp;`.
pub open spec fn timestamp_entry() -> Seq<u8> {
    PrimitiveKind::U64.format_name().spec_bytes() + seq![0x20u8] + encode_utf8("timestamp"@)
        + seq![0x3bu8]
}

/// The format descriptor of fields begins with the entry of the first
/// field.
pub proof fn lemma_format_begins_with_first_entry(fields: Seq<FieldInfo>)
    requires
        fields.len() > 0,
    ensures
        format_text(fields) == fields[0].text() + format_text(fields.drop_first()),
    decreases fields.len(),
{
    if fields.len() == 1 {
        assert(fields.drop_last() =~= Seq::<FieldInfo>::empty());
        assert(fields.drop_first() =~= Seq::<FieldInfo>::empty());
        assert(format_text(fields) =~= fields[0].text() + format_text(fields.drop_first()));
    } else {
        lemma_format_begins_with_first_entry(fields.drop_last());
        assert(fields.drop_last().drop_first() =~= fields.drop_first().drop_last());
        assert(fields.drop_first().last() == fields.last());
        assert(fields.drop_last()[0] == fields[0]);
        assert(format_text(fields) =~= fields[0].text() + format_text(fields.drop_first()));
    }
}

/// The format descriptor of a type that `describe` accepts begins with the
/// entry of the time, `uint64_t timestamp;`.
pub proof fn lemma_format_begins_with_timestamp(fields: Seq<FieldInfo>, decls: Seq<FieldDecl>)
    requires
        describes(fields, decls),
        timestamp_verdict(decls) is Ok,
    ensures
        format_text(fields).len() >= timestamp_entry().len(),
        format_text(fields).take(timestamp_entry().len() as int) == timestamp_entry(),
{
    let at = choose|i: int| 0 <= i < decls.len() && is_timestamp(#[trigger] decls[i]);
    lemma_kind_of_its_name(PrimitiveKind::U64);
    assert(fields[0].name@ == decls[0].name@);
    assert(fields[0].ty == ULogType::Scalar { kind: PrimitiveKind::U64 });
    lemma_format_begins_with_first_entry(fields);
    assert(fields[0].text() == timestamp_entry());
    assert((fields[0].text() + format_text(fields.drop_first())).take(
        fields[0].text().len() as int,
    ) =~= fields[0].text());
}

} // verus!
