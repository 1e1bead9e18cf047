//! A logging pipeline: hierarchical loggers, level gating, record
//! construction, filters, dispatch and the decision logic of the output
//! handlers (stream, file, rotating file, batched network, in-memory).
//!
//! Everything that touches the outside world (files, streams, sockets,
//! clocks of the calling thread) is described here as plain values; the
//! crate computes what to do and the embedding program performs it.

pub mod level;
pub mod text;
pub mod record;
pub mod template;
pub mod formatter;
pub mod filter;
pub mod config;
pub mod registry;
pub mod memory;
pub mod rotation;
pub mod sinks;
pub mod network;
pub mod message;
pub mod pipeline;
pub mod payload;
pub mod protobuf;

pub use level::LogLevel;
pub use text::{decimal, decimal_signed};
pub use record::{create_log_record, LogRecord, ThreadInfo, Timestamp};
pub use template::{placeholder_at, render_template, Field, Spot};
pub use formatter::{DefaultFormatter, Formatter, PythonFormatter};
pub use filter::{AllowAllFilter, Filter, FilterRule};
pub use config::Config;
pub use registry::{Logger, LoggerManager};
pub use memory::MemoryHandler;
pub use rotation::{rollover_steps, FileOp, RotationState};
pub use sinks::{ConsoleHandler, FileHandler, FileWrite, RotatingFileHandler, RotatingWrite, StreamDestination, StreamHandler};
pub use network::{validate_batching, BatchConfigError, BatchWorker, BoundedQueue, WorkerAction, WorkerEvent};
pub use message::{format_message, percent_format, LogArg};
pub use pipeline::{Handler, Logging, NetworkHandler, NullHandler, Output, RecordContext};
pub use payload::{otlp_record, record_fields, OtlpRecord, Scalar};
pub use protobuf::{encode_export_request, encode_log_record};
