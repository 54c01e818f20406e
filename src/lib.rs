//! Streaming capture from a memory-mapped video device: format negotiation,
//! the buffer pool that mirrors the driver's buffers, and the lease protocol
//! that hands one dequeued buffer to the caller and returns it afterwards.
//!
//! The device calls themselves are made by the caller; this library decides
//! which call comes next and what its answer means.
pub mod describe;
pub mod error;
pub mod format;
pub mod negotiate;
pub mod pool;
pub mod session;

pub use error::Error;
pub use format::{Config, Field, FormatInfo, IntervalInfo, IntervalReply, ResolutionInfo, SizeReply};
pub use negotiate::{format_verdict, interval_verdict, FormatRequest};
pub use pool::{BufferPool, Slot};
pub use session::{Action, Event, Lease, Phase, Plan, Session};
