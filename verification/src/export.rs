//! What a step of the exporter reports.

use vstd::prelude::*;

verus! {

/// Whether a poll of the queue found a record.
#[derive(Debug, Clone, Copy, PartialEq, Eq, Structural)]
pub enum ExportStep {
    /// A record was taken from the queue.
    Progressed,
    /// There was nothing to do.
    Idle,
}

/// Why the exporter gave up on a record or on the startup.
#[derive(Debug, Clone, Copy, PartialEq, Eq)]
pub enum ExportError<WriteError> {
    /// The sink refused bytes, with the error of the sink.
    Write(WriteError),
    /// The registry has no entry at the topic index of a sample.
    InvalidTopicIndex,
    /// The instance of a sample is not below the number of instances per topic.
    InvalidMultiId,
    /// The slot of a sample does not fit the message id of a frame.
    TooManyStreams,
    /// A payload is longer than the size field of a frame can say.
    MessageTooLarge,
}

} // verus!
