//! Durable job-queue core for a local media-production tool.
//!
//! The library holds the verified heart of the application: the ordered job
//! queue with its status/retry state machine, the textual on-disk encoding of
//! the queue, the pause gate and wake signal that drive the single background
//! worker, the registry of the one currently running external operation, the
//! watch-trigger job synthesis, the language-code table, and the pure
//! helpers of the render pipeline.
//!
//! File and process I/O, the async runtime, and the external renderer and
//! uploader live outside the library and exchange plain values with it.

pub mod codec;
pub mod queue;
pub mod registry;
pub mod schema;
pub mod language;
pub mod media;
mod text;
pub mod watch;
pub mod worker;
