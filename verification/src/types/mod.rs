//! Error types and utilities.
pub mod accumulator;
pub mod aliases;
pub mod composable_error;
pub mod error_context;
pub mod error_formatter;
pub mod error_pipeline;
pub mod fingerprint;
pub mod fingerprint_order;
pub mod format_laws;
pub mod lazy_context;
pub mod legacy;
pub mod marked_error;
pub mod pipeline_ops;
pub mod retry;
pub mod small_vec;

pub use aliases::{BoxedComposableError, BoxedComposableResult, BoxedResult, ComposableResult, ErrorVec};
pub use accumulator::Accumulator;
pub use composable_error::ComposableError;
pub use error_context::{ContextView, ErrorContext, ErrorContextBuilder, GroupContext, GroupView, Location};
pub use error_formatter::{ErrorFormatBuilder, ErrorFormatConfig, ErrorFormatter};
pub use error_pipeline::ErrorPipeline;
pub use fingerprint::FingerprintConfig;
pub use lazy_context::{LazyContext, LazyGroupContext};
pub use marked_error::MarkedError;
pub use retry::RetryOps;
