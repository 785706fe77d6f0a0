//! Helpers for attaching context to errors, and a simple context pipeline.
//!
//! The [`ErrorPipeline`] of this module keeps its pending contexts whatever
//! happens to the result, and its `finish` boxes the error.
use crate::traits::IntoErrorContext;
use crate::types::composable_error::{context_views, ComposableError};
use crate::types::error_context::{ContextView, ErrorContext};
use crate::types::error_formatter::{builder_text, default_config};
use crate::tower::wrapped_with_clone;
use vstd::prelude::*;

verus! {

/// Wraps `error` into a composable error carrying `context`.
pub fn with_context<E, C: IntoErrorContext>(error: E, context: C) -> (r: ComposableError<E>)
    requires
        context.convert_ready(),
    ensures
        r.core_value() == error,
        r.code() == None::<u32>,
        r.contexts().len() == 1,
        context.converts_to(r.contexts()[0]),
{
    ComposableError::new(error).with_context(context)
}

/// Wraps the error of `result` into a boxed composable error carrying `context`.
pub fn with_context_result<T, E, C: IntoErrorContext>(result: Result<T, E>, context: C) -> (r: Result<T, Box<ComposableError<E>>>)
    requires
        result is Err ==> context.convert_ready(),
    ensures
        match result {
            Ok(t) => r == Ok::<T, Box<ComposableError<E>>>(t),
            Err(e) => r matches Err(c) && c.core_value() == e && c.code() == None::<u32>
                && c.contexts().len() == 1 && context.converts_to(c.contexts()[0]),
        },
{
    match result {
        Ok(t) => Ok(t),
        Err(e) => Err(Box::new(with_context(e, context))),
    }
}

/// Converts every item into a context, in order.
fn convert_all<C: IntoErrorContext>(items: Vec<C>) -> (r: Vec<ErrorContext>)
    requires
        forall|i: int| 0 <= i < items@.len() ==> (#[trigger] items@[i]).convert_ready(),
    ensures
        r@.len() == items@.len(),
        forall|i: int| 0 <= i < items@.len() ==> (#[trigger] items@[i]).converts_to(r@[i]@),
{
    let ghost orig = items@;
    let mut items = items;
    let mut rest: Vec<C> = Vec::new();
    while items.len() > 0
        invariant
            orig == items@ + rest@.reverse(),
        decreases items@.len(),
    {
        let ghost before = items@;
        let ghost rest_before = rest@;
        let x = items.pop().unwrap();
        rest.push(x);
        assert(before =~= items@.push(x));
        assert(rest@.reverse() =~= seq![x] + rest_before.reverse());
        assert(orig =~= items@ + rest@.reverse());
    }
    let n = rest.len();
    assert(rest@.reverse() =~= orig.subrange(0, n as int));
    let mut out: Vec<ErrorContext> = Vec::new();
    while rest.len() > 0
        invariant
            n == orig.len(),
            out@.len() + rest@.len() == n,
            forall|i: int| 0 <= i < orig.len() ==> (#[trigger] orig[i]).convert_ready(),
            forall|i: int| 0 <= i < out@.len() ==> (#[trigger] orig[i]).converts_to(out@[i]@),
            rest@.reverse() =~= orig.subrange(out@.len() as int, n as int),
        decreases rest@.len(),
    {
        let ghost k = out@.len();
        let ghost rest_before = rest@;
        let x = rest.pop().unwrap();
        assert(x == orig[k as int]) by {
            assert(rest_before.reverse()[0] == rest_before.last());
        }
        out.push(x.into_error_context());
        assert(rest@.reverse() =~= orig.subrange(out@.len() as int, n as int)) by {
            assert(rest_before =~= rest@.push(x));
            assert(rest_before.reverse() =~= seq![x] + rest@.reverse());
            assert(orig.subrange(k as int, n as int).drop_first() =~= orig.subrange(k + 1int, n as int));
            assert(rest@.reverse() =~= rest_before.reverse().drop_first());
        }
    }
    out
}

/// Whether every clone of `context` may be converted into a context.
pub open spec fn clones_ready<C: IntoErrorContext + Clone>(context: &C) -> bool {
    forall|c: C| cloned::<C>(*context, c) ==> #[trigger] c.convert_ready()
}

/// Whether `c` is a clone of `context`, over references.
pub open spec fn clone_of<C: Clone>(context: &C, c: &C) -> bool {
    cloned::<C>(*context, *c)
}

/// [`wrapped_with_clone`] over references.
pub open spec fn wraps_clone_of<E, C: IntoErrorContext + Clone>(ce: &ComposableError<E>, error: &E, context: &C) -> bool {
    wrapped_with_clone(*ce, *error, *context)
}

/// A function wrapping any error into a composable error carrying a clone
/// of `context`.
pub fn context_fn<E, C: IntoErrorContext + Clone>(context: C) -> (r: impl Fn(E) -> ComposableError<E>)
    requires
        forall|c: C| cloned::<C>(context, c) ==> #[trigger] c.convert_ready(),
    ensures
        forall|e: E| #[trigger] r.requires((e,)),
        forall|e: E, ce: ComposableError<E>| #[trigger] r.ensures((e,), ce) ==> wrapped_with_clone(ce, e, context),
{
    let f = move |error: E| -> (ce: ComposableError<E>)
        requires
            clones_ready(&context),
        ensures
            wraps_clone_of(&ce, &error, &context),
    {
        let c = context.clone();
        assert(clone_of(&context, &c));
        let ce = with_context(error, c);
        ce
    };
    f
}

/// Whether converting some clone of `context` may produce `ctx`.
pub open spec fn clone_converts_to<C: IntoErrorContext + Clone>(context: C, ctx: ContextView) -> bool {
    exists|c: C| #[trigger] cloned::<C>(context, c) && c.converts_to(ctx)
}

/// Whether every clone of every context in `contexts` may be converted.
pub open spec fn all_clones_ready<C: IntoErrorContext + Clone>(contexts: &Vec<C>) -> bool {
    forall|i: int, c: C| #![trigger contexts@[i], c.convert_ready()] 0 <= i < contexts@.len() && cloned::<C>(contexts@[i], c) ==> c.convert_ready()
}

/// Whether `ce` is `error` carrying, in order, contexts that converting some
/// clones of `contexts` may produce.
pub open spec fn accumulates_clones<E, C: IntoErrorContext + Clone>(ce: &ComposableError<E>, error: &E, contexts: &Vec<C>) -> bool {
    &&& ce.core_value() == *error
    &&& ce.code() == None::<u32>
    &&& ce.contexts().len() == contexts@.len()
    &&& forall|i: int| 0 <= i < contexts@.len() ==> #[trigger] clone_converts_to(contexts@[i], ce.contexts()[i])
}

/// A function wrapping any error into a composable error carrying clones of
/// all of `contexts`, in order.
pub fn context_accumulator<E, C: IntoErrorContext + Clone>(contexts: Vec<C>) -> (r: impl Fn(E) -> ComposableError<E>)
    requires
        all_clones_ready(&contexts),
    ensures
        forall|e: E| #[trigger] r.requires((e,)),
        forall|e: E, ce: ComposableError<E>| #[trigger] r.ensures((e,), ce) ==> accumulates_clones(&ce, &e, &contexts),
{
    let f = move |error: E| -> (ce: ComposableError<E>)
        requires
            all_clones_ready(&contexts),
        ensures
            accumulates_clones(&ce, &error, &contexts),
    {
        let copies = contexts.clone();
        assert forall|i: int| 0 <= i < copies@.len() implies (#[trigger] copies@[i]).convert_ready() by {
            assert(cloned::<C>(contexts@[i], copies@[i]));
        }
        let ce = accumulate_context(error, copies);
        assert forall|i: int| 0 <= i < contexts@.len() implies #[trigger] clone_converts_to(contexts@[i], ce.contexts()[i]) by {
            assert(cloned::<C>(contexts@[i], copies@[i]));
            assert(copies@[i].converts_to(ce.contexts()[i]));
        }
        ce
    };
    f
}

/// Wraps `error` with all of `contexts` attached, in order.
pub fn accumulate_context<E, C: IntoErrorContext>(error: E, contexts: Vec<C>) -> (r: ComposableError<E>)
    requires
        forall|i: int| 0 <= i < contexts@.len() ==> (#[trigger] contexts@[i]).convert_ready(),
    ensures
        r.core_value() == error,
        r.code() == None::<u32>,
        r.contexts().len() == contexts@.len(),
        forall|i: int| 0 <= i < contexts@.len() ==> (#[trigger] contexts@[i]).converts_to(r.contexts()[i]),
{
    let converted = convert_all(contexts);
    ComposableError::new(error).with_contexts(converted)
}

/// The error chain in the default format; `core_message` is the rendered core error.
pub fn format_error_chain<E>(error: &ComposableError<E>, core_message: &str) -> (r: String)
    ensures
        r@ == builder_text(default_config(), error.contexts(), false, core_message@, error.code()),
{
    error.error_chain(core_message)
}

/// Copies of the contexts of `error`, most recent first.
pub fn extract_context<E>(error: &ComposableError<E>) -> (r: Vec<ErrorContext>)
    ensures
        context_views(r@) == error.contexts().reverse(),
{
    error.context()
}

/// A result with contexts pending for its error.
pub struct ErrorPipeline<T, E> {
    result: Result<T, E>,
    pending_contexts: Vec<ErrorContext>,
}

impl<T, E> ErrorPipeline<T, E> {
    /// The current result.
    pub closed spec fn outcome(&self) -> Result<T, E> {
        self.result
    }

    /// The contexts pending for the error, oldest first.
    pub closed spec fn pending(&self) -> Seq<ContextView> {
        context_views(self.pending_contexts@)
    }

    /// Creates a pipeline from a `Result`.
    pub fn new(result: Result<T, E>) -> (r: Self)
        ensures
            r.outcome() == result,
            r.pending() == Seq::<ContextView>::empty(),
    {
        let r = ErrorPipeline { result, pending_contexts: Vec::new() };
        assert(r.pending() =~= Seq::<ContextView>::empty());
        r
    }

    /// Records a context for the error; does nothing on success.
    pub fn with_context<C: IntoErrorContext>(self, context: C) -> (r: Self)
        requires
            self.outcome() is Err ==> context.convert_ready(),
        ensures
            r.outcome() == self.outcome(),
            self.outcome() is Ok ==> r.pending() == self.pending(),
            self.outcome() is Err ==> r.pending().len() == self.pending().len() + 1
                && r.pending().drop_last() == self.pending()
                && context.converts_to(r.pending().last()),
    {
        if self.result.is_ok() {
            return self;
        }
        let mut s = self;
        let ctx = context.into_error_context();
        s.pending_contexts.push(ctx);
        assert(s.pending().drop_last() =~= self.pending());
        s
    }

    /// Transforms the error; pending contexts are kept.
    pub fn map_error<F: FnOnce(E) -> NewE, NewE>(self, f: F) -> (r: ErrorPipeline<T, NewE>)
        requires
            self.outcome() matches Err(e) ==> f.requires((e,)),
        ensures
            r.pending() == self.pending(),
            match self.outcome() {
                Ok(v) => r.outcome() == Ok::<T, NewE>(v),
                Err(e) => r.outcome() matches Err(e2) && f.ensures((e,), e2),
            },
    {
        let result = match self.result {
            Ok(v) => Ok(v),
            Err(e) => Err(f(e)),
        };
        ErrorPipeline { result, pending_contexts: self.pending_contexts }
    }

    /// Tries to recover from the error; pending contexts are kept either way.
    pub fn recover<F: FnOnce(E) -> Result<T, E>>(self, recovery: F) -> (r: Self)
        requires
            self.outcome() matches Err(e) ==> recovery.requires((e,)),
        ensures
            r.pending() == self.pending(),
            match self.outcome() {
                Ok(v) => r.outcome() == Ok::<T, E>(v),
                Err(e) => recovery.ensures((e,), r.outcome()),
            },
    {
        let result = match self.result {
            Ok(v) => Ok(v),
            Err(e) => recovery(e),
        };
        ErrorPipeline { result, pending_contexts: self.pending_contexts }
    }

    /// Chains a fallible operation on the success value.
    pub fn and_then<U, F: FnOnce(T) -> Result<U, E>>(self, f: F) -> (r: ErrorPipeline<U, E>)
        requires
            self.outcome() matches Ok(v) ==> f.requires((v,)),
        ensures
            r.pending() == self.pending(),
            match self.outcome() {
                Ok(v) => f.ensures((v,), r.outcome()),
                Err(e) => r.outcome() == Err::<U, E>(e),
            },
    {
        let result = match self.result {
            Ok(v) => f(v),
            Err(e) => Err(e),
        };
        ErrorPipeline { result, pending_contexts: self.pending_contexts }
    }

    /// Transforms the success value.
    pub fn map<U, F: FnOnce(T) -> U>(self, f: F) -> (r: ErrorPipeline<U, E>)
        requires
            self.outcome() matches Ok(v) ==> f.requires((v,)),
        ensures
            r.pending() == self.pending(),
            match self.outcome() {
                Ok(v) => r.outcome() matches Ok(u) && f.ensures((v,), u),
                Err(e) => r.outcome() == Err::<U, E>(e),
            },
    {
        let result = match self.result {
            Ok(v) => Ok(f(v)),
            Err(e) => Err(e),
        };
        ErrorPipeline { result, pending_contexts: self.pending_contexts }
    }

    /// Finishes into a boxed composable result carrying the pending contexts.
    pub fn finish(self) -> (r: Result<T, Box<ComposableError<E>>>)
        ensures
            match self.outcome() {
                Ok(v) => r == Ok::<T, Box<ComposableError<E>>>(v),
                Err(e) => r matches Err(c) && c.core_value() == e && c.contexts() == self.pending()
                    && c.code() == None::<u32>,
            },
    {
        match self.finish_without_box() {
            Ok(v) => Ok(v),
            Err(c) => Err(Box::new(c)),
        }
    }

    /// Finishes into a composable result carrying the pending contexts.
    pub fn finish_without_box(self) -> (r: Result<T, ComposableError<E>>)
        ensures
            match self.outcome() {
                Ok(v) => r == Ok::<T, ComposableError<E>>(v),
                Err(e) => r matches Err(c) && c.core_value() == e && c.contexts() == self.pending()
                    && c.code() == None::<u32>,
            },
    {
        match self.result {
            Ok(v) => Ok(v),
            Err(e) => {
                let c = ComposableError::new(e).with_contexts(self.pending_contexts);
                assert(c.contexts() =~= self.pending());
                Err(c)
            },
        }
    }
}

/// Starts a pipeline from `result`.
pub fn error_pipeline<T, E>(result: Result<T, E>) -> (r: ErrorPipeline<T, E>)
    ensures
        r.outcome() == result,
        r.pending() == Seq::<ContextView>::empty(),
{
    ErrorPipeline::new(result)
}

} // verus!
