//! A producer/consumer pipeline that emits a ULog byte stream.
//!
//! Producers package log lines, telemetry samples and parameters into bounded
//! [`Record`]s and hand them to a queue without ever blocking. The exporter
//! drains the queue and decides, frame by frame, which bytes go to the sink.
//! The exporter never touches the sink itself: it hands out the bytes of the
//! next frame and is told whether the sink took them.
//!
//! The modules, leaves first:
//!
//! - [`le`], [`types`], [`record`], [`registry`], [`export`], [`config`]: the
//!   values that the pipeline is made of;
//! - [`wire`]: the byte layout of the file header and of every frame;
//! - [`producer`]: the producer and what holds of its reports;
//! - [`machine`]: the exporter as a state machine, in mathematical terms;
//! - [`exporter`]: the exporter itself, which follows the state machine;
//! - [`effect`], [`session`], [`framing`]: what holds of the startup, of a
//!   record, of a whole session and of the bytes on the wire;
//! - [`schema`], [`sample`]: the description of a telemetry type and the
//!   encoding of its samples.

pub mod config;
pub mod effect;
pub mod export;
pub mod exporter;
pub mod framing;
pub mod le;
pub mod machine;
pub mod producer;
pub mod record;
pub mod registry;
pub mod sample;
pub mod schema;
pub mod session;
pub mod types;
pub mod wire;

pub use config::{DEFAULT_MAX_MULTI_IDS, DEFAULT_MAX_STREAMS, DEFAULT_RECORD_CAP};
pub use export::{ExportError, ExportStep};
pub use exporter::{ExportAction, RecordSource, ULogExporter};
pub use producer::{EmitStatus, RecordSink, ULogProducer};
pub use record::{ParameterValue, Record, RecordKind, RecordMeta};
pub use registry::{str_eq, MessageMeta, MessageSet, Registry, TopicIndex};
pub use types::{EncodeError, LogLevel, LoggedString, Subscription, TrySendError, ULogData};
