//! Retry metadata hints on a pipeline.
//!
//! [`RetryOps`] does not retry anything: it attaches hints (as context
//! metadata) for downstream retry logic to read.
use crate::text::{decimal, duration_debug, duration_debug_text, u32_to_decimal};
use crate::traits::TransientError;
use crate::types::error_context::{ContextView, ErrorContext};
use crate::types::error_pipeline::{metadata_context, ErrorPipeline};
use vstd::prelude::*;

verus! {

/// `"max_retries_hint"`
pub open spec fn max_retries_key() -> Seq<char> {
    seq!['m', 'a', 'x', '_', 'r', 'e', 't', 'r', 'i', 'e', 's', '_', 'h', 'i', 'n', 't']
}

/// `"retry_after_hint"`
pub open spec fn retry_after_key() -> Seq<char> {
    seq!['r', 'e', 't', 'r', 'y', '_', 'a', 'f', 't', 'e', 'r', '_', 'h', 'i', 'n', 't']
}

/// Retry metadata hints builder over a pipeline.
pub struct RetryOps<T, E> {
    pub(crate) pipeline: ErrorPipeline<T, E>,
}

impl<T, E> RetryOps<T, E> {
    /// The wrapped pipeline.
    pub closed spec fn pipeline_value(&self) -> ErrorPipeline<T, E> {
        self.pipeline
    }

    pub(crate) fn new(pipeline: ErrorPipeline<T, E>) -> (r: Self)
        ensures
            r.pipeline_value() == pipeline,
    {
        RetryOps { pipeline }
    }

    /// On error, records the metadata `max_retries_hint=N`.
    pub fn max_retries(self, count: u32) -> (r: Self)
        ensures
            r.pipeline_value().outcome() == self.pipeline_value().outcome(),
            self.pipeline_value().outcome() is Ok ==> r.pipeline_value().pending() == self.pipeline_value().pending(),
            self.pipeline_value().outcome() is Err ==> r.pipeline_value().pending()
                == self.pipeline_value().pending().push(metadata_context(max_retries_key(), decimal(count as nat))),
    {
        let digits = u32_to_decimal(count);
        proof { reveal_strlit("max_retries_hint"); }
        let ctx = ErrorContext::metadata("max_retries_hint", digits.as_str());
        assert("max_retries_hint"@ =~= max_retries_key());
        let p = self.pipeline.with_context(ctx);
        proof {
            if self.pipeline_value().outcome() is Err {
                assert(p.pending() =~= self.pipeline_value().pending().push(
                    metadata_context(max_retries_key(), decimal(count as nat))));
            }
        }
        RetryOps { pipeline: p }
    }

    /// On error, records the metadata `retry_after_hint=<duration>`, the
    /// duration in its `Debug` rendering.
    pub fn after_hint(self, duration: core::time::Duration) -> (r: Self)
        ensures
            r.pipeline_value().outcome() == self.pipeline_value().outcome(),
            self.pipeline_value().outcome() is Ok ==> r.pipeline_value().pending() == self.pipeline_value().pending(),
            self.pipeline_value().outcome() is Err ==> r.pipeline_value().pending().drop_last()
                == self.pipeline_value().pending()
                && r.pipeline_value().pending().len() == self.pipeline_value().pending().len() + 1
                && r.pipeline_value().pending().last() == metadata_context(retry_after_key(), duration_debug(duration)),
    {
        let text = duration_debug_text(duration);
        proof { reveal_strlit("retry_after_hint"); }
        let ctx = ErrorContext::metadata("retry_after_hint", text.as_str());
        assert("retry_after_hint"@ =~= retry_after_key());
        let p = self.pipeline.with_context(ctx);
        proof {
            if self.pipeline_value().outcome() is Err {
                assert(p.pending().last() == metadata_context(retry_after_key(), text@));
            }
        }
        RetryOps { pipeline: p }
    }

    /// Returns the pipeline with the hints attached.
    pub fn to_error_pipeline(self) -> (r: ErrorPipeline<T, E>)
        ensures
            r == self.pipeline_value(),
    {
        self.pipeline
    }
}

impl<T, E: TransientError> RetryOps<T, E> {
    /// Whether the error is transient (false on success).
    pub fn is_transient(&self) -> (r: bool)
        requires
            self.pipeline_value().outcome() matches Err(e) ==> e.classify_ready(),
        ensures
            match self.pipeline_value().outcome() {
                Ok(_) => !r,
                Err(e) => e.transient_outcome(r),
            },
    {
        self.pipeline.is_transient()
    }
}

} // verus!
