//! The limits that a pipeline is built with when nothing else is asked for.

use vstd::prelude::*;

verus! {

/// The most bytes of text, payload or key that a record holds.
pub const DEFAULT_RECORD_CAP: usize = 256;

/// The number of instances that a topic can have.
pub const DEFAULT_MAX_MULTI_IDS: usize = 4;

/// The number of slots that can be subscribed.
pub const DEFAULT_MAX_STREAMS: usize = 1024;

} // verus!
