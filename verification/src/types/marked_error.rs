//! An error wrapper that classifies its error as transient through a closure.
use crate::traits::TransientError;
use vstd::prelude::*;

verus! {

/// An error paired with a classifier closure deciding whether it is transient.
pub struct MarkedError<E, F> {
    pub(crate) inner: E,
    pub(crate) classifier: F,
}

impl<E, F> MarkedError<E, F> {
    /// The wrapped error.
    pub closed spec fn inner_value(&self) -> E {
        self.inner
    }

    /// The classifier closure.
    pub closed spec fn classifier_value(&self) -> F {
        self.classifier
    }

    /// Pairs an error with its classifier.
    pub(crate) fn new(inner: E, classifier: F) -> (r: Self)
        ensures
            r.inner_value() == inner,
            r.classifier_value() == classifier,
    {
        MarkedError { inner, classifier }
    }

    /// Returns a reference to the inner error.
    pub fn inner(&self) -> (r: &E)
        ensures
            *r == self.inner_value(),
    {
        &self.inner
    }

    /// Consumes the marked error, returning the inner error.
    pub fn into_inner(self) -> (r: E)
        ensures
            r == self.inner_value(),
    {
        self.inner
    }

    /// Returns a reference to the classifier closure.
    pub fn classifier(&self) -> (r: &F)
        ensures
            *r == self.classifier_value(),
    {
        &self.classifier
    }
}

impl<E, F: Fn(&E) -> bool> TransientError for MarkedError<E, F> {
    open spec fn classify_ready(&self) -> bool {
        self.classifier_value().requires((&self.inner_value(),))
    }

    open spec fn transient_outcome(&self, answer: bool) -> bool {
        self.classifier_value().ensures((&self.inner_value(),), answer)
    }

    /// Asks the classifier about the wrapped error.
    fn is_transient(&self) -> (r: bool) {
        (self.classifier)(&self.inner)
    }
}

/// A marked error made around error `x` with classifier `f` answers
/// `is_transient` as `f` answers for `&x`: it may be asked when `f` may be
/// called on `&x`, and an answer it may give is exactly one `f` may give.
pub proof fn lemma_marked_error_asks_its_classifier<E, F: Fn(&E) -> bool>(
    m: MarkedError<E, F>,
    x: E,
    f: F,
    answer: bool,
)
    requires
        m.inner_value() == x,
        m.classifier_value() == f,
    ensures
        m.classify_ready() == f.requires((&x,)),
        m.transient_outcome(answer) == f.ensures((&x,), answer),
{
}

} // verus!
