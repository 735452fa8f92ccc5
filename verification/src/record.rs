//! The record: the one value that crosses the queue from producer to exporter.

use crate::le::{i32_bits, i32_le, le32, u32_le};
use crate::types::LogLevel;
use vstd::prelude::*;

verus! {

/// The value of a parameter. `F32` holds the IEEE 754 bit pattern of the
/// number, as `f32::to_bits` gives it.
#[derive(Debug, Clone, Copy, PartialEq, Eq, Structural)]
pub enum ParameterValue {
    I32(i32),
    F32(u32),
}

impl ParameterValue {
    /// The four bytes of the value on the wire, least significant first.
    pub open spec fn le_bytes(self) -> Seq<u8> {
        match self {
            ParameterValue::I32(v) => le32(i32_bits(v)),
            ParameterValue::F32(bits) => le32(bits),
        }
    }

    /// The four bytes of the value, least significant first.
    pub fn to_le_bytes(self) -> (b: [u8; 4])
        ensures
            b@ == self.le_bytes(),
    {
        match self {
            ParameterValue::I32(v) => i32_le(v),
            ParameterValue::F32(bits) => u32_le(bits),
        }
    }
}

/// Which of the three payloads a record carries.
#[derive(Debug, Clone, Copy, PartialEq, Eq, Structural)]
pub enum RecordKind {
    LoggedString,
    Data,
    Parameter,
}

/// What a record says about its bytes.
#[derive(Debug, Clone, Copy, PartialEq, Eq)]
pub enum RecordMeta {
    /// The bytes are the text of a log line.
    LoggedString { level: LogLevel, tag: Option<u16>, ts: u64 },
    /// The bytes are one encoded sample of the topic.
    Data { topic_index: u16, instance: u8, ts: u64 },
    /// The bytes are the key of a parameter.
    Parameter { value: ParameterValue },
}

/// A record as a mathematical value: its metadata and the bytes it holds.
pub struct RecordView {
    pub meta: RecordMeta,
    pub bytes: Seq<u8>,
}

impl RecordView {
    /// Which payload the record carries.
    pub open spec fn kind(self) -> RecordKind {
        match self.meta {
            RecordMeta::LoggedString { .. } => RecordKind::LoggedString,
            RecordMeta::Data { .. } => RecordKind::Data,
            RecordMeta::Parameter { .. } => RecordKind::Parameter,
        }
    }
}

/// `bytes`, cut down to its first `cap` bytes where it is longer.
pub open spec fn truncated(bytes: Seq<u8>, cap: nat) -> Seq<u8> {
    if bytes.len() <= cap {
        bytes
    } else {
        bytes.take(cap as int)
    }
}

/// A record of at most `RECORD_CAP` bytes, held in storage of fixed size.
#[derive(Debug, PartialEq)]
pub struct Record<const RECORD_CAP: usize, const MAX_MULTI_IDS: usize> {
    meta: RecordMeta,
    len: usize,
    buf: [u8; RECORD_CAP],
}

impl<const RECORD_CAP: usize, const MAX_MULTI_IDS: usize> View for Record<
    RECORD_CAP,
    MAX_MULTI_IDS,
> {
    type V = RecordView;

    closed spec fn view(&self) -> RecordView {
        RecordView { meta: self.meta, bytes: self.buf@.take(self.len as int) }
    }
}

impl<const RECORD_CAP: usize, const MAX_MULTI_IDS: usize> Clone for Record<
    RECORD_CAP,
    MAX_MULTI_IDS,
> {
    fn clone(&self) -> (copy: Self)
        ensures
            copy@ == self@,
    {
        proof {
            use_type_invariant(self);
        }
        Record { meta: self.meta, len: self.len, buf: self.buf }
    }
}

/// An array whose first `n` bytes are those of `src` and whose other bytes
/// are zero.
fn filled<const N: usize>(src: &[u8], n: usize) -> (buf: [u8; N])
    requires
        n <= src@.len(),
        n <= N,
    ensures
        buf@.take(n as int) == src@.take(n as int),
{
    let mut buf: [u8; N] = [0u8; N];
    let mut i: usize = 0;
    while i < n
        invariant
            i <= n,
            n <= N,
            n <= src@.len(),
            buf@.len() == N,
            forall|j: int| 0 <= j < i ==> buf@[j] == src@[j],
        decreases n - i,
    {
        buf[i] = src[i];
        i += 1;
    }
    assert(buf@.take(n as int) =~= src@.take(n as int));
    buf
}

impl<const RECORD_CAP: usize, const MAX_MULTI_IDS: usize> Record<RECORD_CAP, MAX_MULTI_IDS> {
    #[verifier::type_invariant]
    spec fn within_bounds(&self) -> bool {
        &&& self.len <= RECORD_CAP
        &&& self.meta is Parameter ==> self.len <= 255
    }

    /// A log line. Text beyond `RECORD_CAP` bytes is cut off.
    pub fn new_log(level: LogLevel, tag: Option<u16>, ts: u64, text: &[u8]) -> (record: Self)
        ensures
            record@.meta == (RecordMeta::LoggedString { level, tag, ts }),
            record@.bytes == truncated(text@, RECORD_CAP as nat),
    {
        let end: usize = if text.len() < RECORD_CAP {
            text.len()
        } else {
            RECORD_CAP
        };
        let buf = filled::<RECORD_CAP>(text, end);
        assert(text@.take(text@.len() as int) =~= text@);
        Record { meta: RecordMeta::LoggedString { level, tag, ts }, len: end, buf }
    }

    /// A sample of `payload.len()` bytes, or nothing where the payload does
    /// not fit the record.
    pub fn new_data(topic_index: u16, instance: u8, ts: u64, payload: &[u8]) -> (made: Option<Self>)
        ensures
            made is Some <==> payload@.len() <= RECORD_CAP,
            made is Some ==> made->0@ == (RecordView {
                meta: RecordMeta::Data { topic_index, instance, ts },
                bytes: payload@,
            }),
    {
        if payload.len() > RECORD_CAP {
            return None;
        }
        let buf = filled::<RECORD_CAP>(payload, payload.len());
        assert(payload@.take(payload@.len() as int) =~= payload@);
        let meta = RecordMeta::Data { topic_index, instance, ts };
        Some(Record { meta, len: payload.len(), buf })
    }

    /// A parameter with its key, or nothing where the key is longer than 255
    /// bytes or does not fit the record.
    pub fn new_parameter(key: &[u8], value: ParameterValue) -> (made: Option<Self>)
        ensures
            made is Some <==> key@.len() <= 255 && key@.len() <= RECORD_CAP,
            made is Some ==> made->0@ == (RecordView {
                meta: RecordMeta::Parameter { value },
                bytes: key@,
            }),
    {
        if key.len() > 255 || key.len() > RECORD_CAP {
            return None;
        }
        let buf = filled::<RECORD_CAP>(key, key.len());
        assert(key@.take(key@.len() as int) =~= key@);
        Some(Record { meta: RecordMeta::Parameter { value }, len: key.len(), buf })
    }

    /// Which payload the record carries.
    pub fn kind(&self) -> (kind: RecordKind)
        ensures
            kind == self@.kind(),
    {
        match self.meta {
            RecordMeta::LoggedString { .. } => RecordKind::LoggedString,
            RecordMeta::Data { .. } => RecordKind::Data,
            RecordMeta::Parameter { .. } => RecordKind::Parameter,
        }
    }

    /// The metadata of the record.
    pub fn meta(&self) -> (meta: RecordMeta)
        ensures
            meta == self@.meta,
    {
        self.meta
    }

    /// The bytes of the record: text, sample or key. There are at most
    /// `RECORD_CAP` of them, and at most 255 in the key of a parameter.
    pub fn bytes(&self) -> (bytes: &[u8])
        ensures
            bytes@ == self@.bytes,
            bytes@.len() <= RECORD_CAP,
            self@.meta is Parameter ==> bytes@.len() <= 255,
    {
        proof {
            use_type_invariant(self);
        }
        let all = self.buf.as_slice();
        let bytes = vstd::slice::slice_subrange(all, 0, self.len);
        assert(bytes@ =~= self.buf@.take(self.len as int));
        bytes
    }
}

} // verus!
