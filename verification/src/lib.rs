//! Composable, structured error handling: error contexts, composable errors,
//! error pipelines, validation accumulation and retry classification.
pub mod text;
pub mod types;
pub mod traits;
pub mod validation;
pub mod convert;
pub mod context;
pub mod async_ext;
pub mod tower;
pub mod io_transient;

pub use context::{
    accumulate_context, context_accumulator, context_fn, error_pipeline, extract_context, format_error_chain, with_context,
    with_context_result,
};
pub use convert::{
    collect_errors, composable_to_core, core_to_composable, flatten_composable_result, result_to_validation,
    split_validation_errors, validation_to_result, wrap_in_composable_result, wrap_in_composable_result_boxed,
    SplitValidationIter,
};
pub use traits::{
    BoxedResultExt, ErrorCategory, ErrorOps, FmapError, IntoErrorContext, ResultExt, TransientError, TransientErrorExt,
    WithError,
};
pub use types::{
    BoxedComposableError, BoxedComposableResult, BoxedResult, ComposableError, ComposableResult, ErrorContext,
    ErrorFormatConfig, ErrorPipeline, ErrorVec, GroupContext, LazyContext, LazyGroupContext, Location,
};
pub use validation::{ErrorsIter, ErrorsIterMut, IntoIter, Iter, IterMut, Validation};
