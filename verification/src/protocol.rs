//! The application protocol and its in-process adapter.
//!
//! Every request crosses the JSON boundary before it reaches the funnel: its size is checked on
//! the bytes, it is decoded strictly, and the answer is encoded again.
pub mod adapter;
pub mod answer_laws;
pub mod event;
pub mod form_laws;
pub mod handle;
pub mod laws;
pub mod number_laws;
pub mod numbers;
pub mod project;
pub mod route_laws;
pub mod stream;
pub mod subscription;
pub mod translate;
pub mod types;
pub mod wire;

use vstd::prelude::*;

verus! {

/// The version of the protocol.
pub const PROTOCOL_VERSION: u32 = 1;

/// The version of the command payloads.
pub const PAYLOAD_SCHEMA_VERSION: u32 = 1;

/// The version of the receipts.
pub const RECEIPT_VERSION: u32 = 1;

/// The version of the events.
pub const EVENT_VERSION: u32 = 1;

/// The most bytes of an encoded command.
pub const MAX_COMMAND_BYTES: usize = 1_048_576;

/// The most bytes of a frame.
pub const MAX_FRAME_BYTES: usize = 1_052_672;

/// The most bytes of a frame that holds no command.
pub const MAX_CONTROL_FRAME_BYTES: usize = 16_384;

/// The most bytes of an encoded command payload.
pub const MAX_PAYLOAD_BYTES: usize = 262_144;

/// The most characters of an error detail.
pub const MAX_ERROR_DETAIL_CHARS: usize = 512;

/// The most bytes of an encoded event.
pub const MAX_EVENT_BYTES: usize = 65_536;

/// The most bytes of the payload of an event.
pub const MAX_EVENT_PAYLOAD_BYTES: usize = 16_384;

/// The most events that a subscription queues.
pub const DEFAULT_DURABLE_QUEUE_CAPACITY: usize = 1024;

/// The most progress events that are queued.
pub const DEFAULT_PROGRESS_QUEUE_CAPACITY: usize = 256;

/// The most events of one resume.
pub const MAX_RESUME_EVENTS: usize = 1024;

/// The most bytes of one resume.
pub const MAX_RESUME_BYTES: usize = MAX_FRAME_BYTES;

/// The most open subscriptions.
pub const MAX_DURABLE_SUBSCRIPTIONS: usize = 64;

/// The most bytes that all subscriptions together queue.
pub const MAX_DURABLE_SUBSCRIPTION_BYTES: usize = 16_777_216;

/// How long events are kept.
pub const DEFAULT_MAX_AGE_SECONDS: u64 = 1_209_600;

/// How many events are kept.
pub const DEFAULT_MAX_EVENTS_PER_PROJECT: u64 = 1_000_000;

} // verus!
