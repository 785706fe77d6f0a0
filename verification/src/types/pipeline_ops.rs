//! Error operations on a pipeline, as a separate builder.
use crate::traits::TransientError;
use crate::types::error_context::ContextView;
use crate::types::error_pipeline::ErrorPipeline;
use vstd::prelude::*;

verus! {

/// A wrapper exposing the recovery operations of a pipeline.
pub struct PipelineErrorOps<T, E> {
    pub(crate) pipeline: ErrorPipeline<T, E>,
}

impl<T, E> PipelineErrorOps<T, E> {
    /// The wrapped pipeline.
    pub closed spec fn pipeline_value(&self) -> ErrorPipeline<T, E> {
        self.pipeline
    }

    /// Wraps a pipeline.
    pub fn new(pipeline: ErrorPipeline<T, E>) -> (r: Self)
        ensures
            r.pipeline_value() == pipeline,
    {
        PipelineErrorOps { pipeline }
    }

    /// [`ErrorPipeline::recover`] on the wrapped pipeline.
    pub fn recover<F: FnOnce(E) -> Result<T, E>>(self, recovery: F) -> (r: Self)
        requires
            self.pipeline_value().outcome() matches Err(e) ==> recovery.requires((e,)),
        ensures
            match self.pipeline_value().outcome() {
                Ok(v) => r.pipeline_value().outcome() == Ok::<T, E>(v)
                    && r.pipeline_value().pending() == self.pipeline_value().pending(),
                Err(e) => recovery.ensures((e,), r.pipeline_value().outcome())
                    && (r.pipeline_value().outcome() is Ok ==> r.pipeline_value().pending() == Seq::<ContextView>::empty())
                    && (r.pipeline_value().outcome() is Err ==> r.pipeline_value().pending() == self.pipeline_value().pending()),
            },
    {
        PipelineErrorOps { pipeline: self.pipeline.recover(recovery) }
    }

    /// [`ErrorPipeline::fallback`] on the wrapped pipeline.
    pub fn fallback(self, value: T) -> (r: Self)
        ensures
            match self.pipeline_value().outcome() {
                Ok(v) => r.pipeline_value().outcome() == Ok::<T, E>(v)
                    && r.pipeline_value().pending() == self.pipeline_value().pending(),
                Err(_) => r.pipeline_value().outcome() == Ok::<T, E>(value)
                    && r.pipeline_value().pending() == Seq::<ContextView>::empty(),
            },
    {
        PipelineErrorOps { pipeline: self.pipeline.fallback(value) }
    }
}

impl<T, E: TransientError> PipelineErrorOps<T, E> {
    /// [`ErrorPipeline::recover_transient`] on the wrapped pipeline.
    pub fn recover_transient<F: FnOnce(E) -> Result<T, E>>(self, recovery: F) -> (r: Self)
        requires
            self.pipeline_value().outcome() matches Err(e) ==> e.classify_ready() && recovery.requires((e,)),
        ensures
            match self.pipeline_value().outcome() {
                Ok(v) => r.pipeline_value().outcome() == Ok::<T, E>(v)
                    && r.pipeline_value().pending() == self.pipeline_value().pending(),
                Err(e) => {
                    ||| (e.transient_outcome(false) && r.pipeline_value().outcome() == Err::<T, E>(e)
                        && r.pipeline_value().pending() == self.pipeline_value().pending())
                    ||| (e.transient_outcome(true) && recovery.ensures((e,), r.pipeline_value().outcome())
                        && (r.pipeline_value().outcome() is Ok ==> r.pipeline_value().pending() == Seq::<ContextView>::empty())
                        && (r.pipeline_value().outcome() is Err ==> r.pipeline_value().pending() == self.pipeline_value().pending()))
                },
            },
    {
        PipelineErrorOps { pipeline: self.pipeline.recover_transient(recovery) }
    }
}

} // verus!
