//! Asynchronous delivery of structured log events to a Loki endpoint.
//!
//! This crate holds the verified core of the pipeline: the event model, the
//! label resolver, the request bodies built from one event, the decisions of
//! the background dispatcher and of the shutdown handle, and the
//! construction-time configuration.
use vstd::prelude::*;

pub mod api;
pub mod builder;
pub mod decimal;
pub mod dispatcher;
pub mod labels;
pub mod level;
pub mod log_event;
pub mod request;
pub mod text;

pub use api::{EntryAdapter, LabelPairAdapter, LevelLabels, PushRequest, PushResponse, StreamAdapter, Timestamp, init_labels};
pub use builder::{BuildError, LoggerConfig, LokiLoggerBuilder, builder};
pub use dispatcher::{Action, DeliveryOutcome, DispatchMessage, Dispatcher, DispatcherState, JoinSlot, delivery_outcome};
pub use labels::{LabelSet, build_labels};
pub use level::{Level, LevelFilter};
pub use log_event::{KvCollector, LokiLogEvent, collect};
pub use request::{LokiRequest, LokiStream, LokiValue, entry_of};

verus! {

} // verus!
