//! The table of message types, fixed before the first record is produced.

use crate::types::ULogData;
use vstd::prelude::*;
use vstd::string::StringSliceAdditionalSpecFns;
use vstd::utf8::encode_utf8_decode_utf8;

verus! {

/// One message type: its name, the format descriptor of its samples and the
/// number of bytes of one encoded sample.
#[derive(Debug, Clone, Copy, PartialEq, Eq)]
pub struct MessageMeta {
    pub name: &'static str,
    pub format: &'static str,
    pub wire_size: usize,
}

/// No two entries have the same name.
pub open spec fn names_unique(entries: Seq<MessageMeta>) -> bool {
    forall|i: int, j: int| 0 <= i < j < entries.len() ==> entries[i].name@ != entries[j].name@
}

/// An ordered table of message types with pairwise different names. The
/// position of an entry is its topic index.
#[derive(Debug, Clone, Copy, PartialEq, Eq)]
pub struct Registry {
    entries: &'static [MessageMeta],
}

impl View for Registry {
    type V = Seq<MessageMeta>;

    closed spec fn view(&self) -> Seq<MessageMeta> {
        self.entries@
    }
}

/// A set of message types, known when the program is built.
pub trait MessageSet: Sized {
    /// The table of the message types of this set.
    fn registry() -> Registry;
}

/// Ties a telemetry type to its place in the table of the message set `R`.
pub trait TopicIndex<R: MessageSet> {
    const INDEX: u16;
}

/// Whether the telemetry type `T` is bound to the topic `index` of the
/// table: the table has an entry there, and the entry has the name, the
/// format and the wire size of `T`.
pub open spec fn topic_bound<T: ULogData>(entries: Seq<MessageMeta>, index: u16) -> bool {
    &&& index < entries.len()
    &&& entries[index as int].name@ == T::NAME@
    &&& entries[index as int].format@ == T::FORMAT@
    &&& entries[index as int].wire_size == T::WIRE_SIZE
}

/// Whether `a` and `b` are the same string.
pub fn str_eq(a: &str, b: &str) -> (same: bool)
    ensures
        same <==> a@ == b@,
{
    let a_bytes = a.as_bytes();
    let b_bytes = b.as_bytes();
    proof {
        encode_utf8_decode_utf8(a@);
        encode_utf8_decode_utf8(b@);
    }
    if a_bytes.len() != b_bytes.len() {
        return false;
    }
    let mut i: usize = 0;
    while i < a_bytes.len()
        invariant
            i <= a_bytes@.len(),
            a_bytes@.len() == b_bytes@.len(),
            a_bytes@ == a.spec_bytes(),
            b_bytes@ == b.spec_bytes(),
            forall|k: int| 0 <= k < i ==> a_bytes@[k] == b_bytes@[k],
        decreases a_bytes@.len() - i,
    {
        if a_bytes[i] != b_bytes[i] {
            return false;
        }
        i += 1;
    }
    assert(a_bytes@ =~= b_bytes@);
    true
}

impl Registry {
    #[verifier::type_invariant]
    spec fn distinct_names(&self) -> bool {
        names_unique(self.entries@)
    }

    /// The table of `entries`, whose names are pairwise different.
    pub fn new(entries: &'static [MessageMeta]) -> (registry: Self)
        requires
            names_unique(entries@),
        ensures
            registry@ == entries@,
    {
        Registry { entries }
    }

    /// The table of `entries`, or nothing where two of them have the same
    /// name.
    pub fn try_new(entries: &'static [MessageMeta]) -> (made: Option<Self>)
        ensures
            made is Some <==> names_unique(entries@),
            made is Some ==> made->0@ == entries@,
    {
        let mut i: usize = 0;
        while i < entries.len()
            invariant
                i <= entries@.len(),
                forall|a: int, b: int|
                    0 <= a < i && a < b < entries@.len() ==> entries@[a].name@ != entries@[b].name@,
            decreases entries@.len() - i,
        {
            let mut j: usize = i + 1;
            while j < entries.len()
                invariant
                    i < entries@.len(),
                    i < j <= entries@.len(),
                    forall|b: int| i < b < j ==> entries@[i as int].name@ != entries@[b].name@,
                decreases entries@.len() - j,
            {
                if str_eq(entries[i].name, entries[j].name) {
                    return None;
                }
                j += 1;
            }
            i += 1;
        }
        Some(Registry { entries })
    }

    /// The entries in the order of their topic indices.
    pub fn entries(&self) -> (entries: &'static [MessageMeta])
        ensures
            entries@ == self@,
            names_unique(self@),
    {
        proof {
            use_type_invariant(self);
        }
        self.entries
    }

    /// The number of entries.
    pub fn len(&self) -> (n: usize)
        ensures
            n == self@.len(),
    {
        self.entries.len()
    }

    /// Whether the table has no entry.
    pub fn is_empty(&self) -> (empty: bool)
        ensures
            empty <==> self@.len() == 0,
    {
        self.entries.len() == 0
    }

    /// Whether the telemetry type `T` is bound to the topic `index`.
    pub fn binds<T: ULogData>(&self, index: u16) -> (bound: bool)
        ensures
            bound <==> topic_bound::<T>(self@, index),
    {
        match self.get(index as usize) {
            Some(entry) => str_eq(entry.name, T::NAME) && str_eq(entry.format, T::FORMAT)
                && entry.wire_size == T::WIRE_SIZE,
            None => false,
        }
    }

    /// The entry at `index`, or nothing where the table has no such entry.
    pub fn get(&self, index: usize) -> (entry: Option<&MessageMeta>)
        ensures
            entry is Some <==> index < self@.len(),
            entry is Some ==> *entry->0 == self@[index as int],
    {
        if index >= self.entries.len() {
            None
        } else {
            Some(&self.entries[index])
        }
    }
}

} // verus!
