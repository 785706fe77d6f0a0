//! The decisions behind the async extensions: what a context future yields
//! when its inner future completes, how a retry loop proceeds, how timeouts
//! and async validations are reported. Awaiting, sleeping and timers are left
//! to the caller.
pub mod context_future;
pub mod pipeline;
pub mod retry;
pub mod tally;
pub mod timeout;
pub mod tracing_context;
pub mod validation;

pub use context_future::ContextFuture;
pub use pipeline::AsyncErrorPipeline;
pub use retry::{retry_step, FixedDelay, RetryPolicy, RetryResult, RetryStep};
pub use tally::RetryTally;
pub use timeout::{TimeoutError, TimeoutResult};
pub use tracing_context::{span_context, SpanInfo};
pub use validation::{validation_step, ValidationCollector};
