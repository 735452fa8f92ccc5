//! The small value types shared by producers and the exporter.

use vstd::prelude::*;

verus! {

/// The eight syslog severities of a log line.
#[derive(Debug, PartialEq, Eq, Copy, Clone, Structural)]
pub enum LogLevel {
    Emerg,
    Alert,
    Crit,
    Error,
    Warning,
    Notice,
    Info,
    Debug,
}

impl LogLevel {
    /// The byte that stands for this level on the wire: the ASCII digit of its
    /// severity, `'0'` for `Emerg` up to `'7'` for `Debug`.
    pub open spec fn wire_byte(self) -> u8 {
        match self {
            LogLevel::Emerg => 0x30,
            LogLevel::Alert => 0x31,
            LogLevel::Crit => 0x32,
            LogLevel::Error => 0x33,
            LogLevel::Warning => 0x34,
            LogLevel::Notice => 0x35,
            LogLevel::Info => 0x36,
            LogLevel::Debug => 0x37,
        }
    }

    /// The ASCII digit of this level.
    pub fn as_u8(self) -> (b: u8)
        ensures
            b == self.wire_byte(),
    {
        match self {
            LogLevel::Emerg => 0x30,
            LogLevel::Alert => 0x31,
            LogLevel::Crit => 0x32,
            LogLevel::Error => 0x33,
            LogLevel::Warning => 0x34,
            LogLevel::Notice => 0x35,
            LogLevel::Info => 0x36,
            LogLevel::Debug => 0x37,
        }
    }
}

/// A log line whose text lives for the whole program.
#[derive(Debug)]
pub struct LoggedString {
    pub level: LogLevel,
    pub tag: Option<u16>,
    pub timestamp: u64,
    pub msg: &'static str,
}

/// The announcement that `msg_id` carries samples of the message `msg_name`
/// for the instance `multi_id`.
#[derive(Debug, Clone)]
pub struct Subscription {
    pub multi_id: u8,
    pub msg_id: u16,
    pub msg_name: &'static str,
}

/// Why a sample could not be encoded or handed on.
#[derive(Debug, Clone, Copy, PartialEq, Eq, Structural)]
pub enum EncodeError {
    BufferOverflow,
    FrameTooLarge,
    InvalidArgument,
    QueueFull,
    TopicRegistryFull,
    TopicConflict,
}

/// Why a queue did not take a record.
#[derive(Debug, Clone, Copy, PartialEq, Eq, Structural)]
pub enum TrySendError {
    Full,
    Closed,
}

/// `count` and one more, as far as a `u32` can count.
pub open spec fn bumped(count: nat) -> nat {
    if count < u32::MAX {
        count + 1
    } else {
        count
    }
}

/// A telemetry type that can be produced as a data record.
///
/// `encode` writes the fields in declaration order, little-endian, with the
/// `timestamp` field in the first eight bytes, and returns how many bytes it
/// wrote, or `BufferOverflow` where `buf` is too short. `FORMAT` is the
/// format descriptor of those bytes and `WIRE_SIZE` their number.
pub trait ULogData {
    const FORMAT: &'static str;

    const NAME: &'static str;

    const WIRE_SIZE: usize;

    fn encode(&self, buf: &mut [u8]) -> Result<usize, EncodeError>;

    fn timestamp(&self) -> u64;
}

} // verus!
