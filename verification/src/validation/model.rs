//! Applicative-style validation that accumulates errors instead of failing fast.
use vstd::prelude::*;

verus! {

/// Either a valid value, or the errors collected so far.
#[derive(Clone, PartialEq, PartialOrd, Eq, Ord, Debug, Hash)]
pub enum Validation<E, A> {
    Valid(A),
    Invalid(Vec<E>),
}

/// The error list of a validation (empty when valid).
pub open spec fn errors_of<E, A>(v: Validation<E, A>) -> Seq<E> {
    match v {
        Validation::Valid(_) => Seq::empty(),
        Validation::Invalid(es) => es@,
    }
}

impl<E, A> Validation<E, A> {
    /// Creates a valid value.
    pub fn valid(value: A) -> (r: Self)
        ensures
            r == Validation::<E, A>::Valid(value),
    {
        Validation::Valid(value)
    }

    /// Creates an invalid value from a single error.
    pub fn invalid(error: E) -> (r: Self)
        ensures
            r matches Validation::Invalid(es) && es@ == seq![error],
    {
        let mut es = Vec::new();
        es.push(error);
        assert(es@ =~= seq![error]);
        Validation::Invalid(es)
    }

    /// Creates an invalid value holding all of `errors`, in order.
    pub fn invalid_many(errors: Vec<E>) -> (r: Self)
        ensures
            r matches Validation::Invalid(es) && es@ == errors@,
    {
        Validation::Invalid(errors)
    }

    /// Returns `true` if the validation holds a value.
    pub fn is_valid(&self) -> (r: bool)
        ensures
            r == (*self is Valid),
    {
        match self {
            Validation::Valid(_) => true,
            Validation::Invalid(_) => false,
        }
    }

    /// Returns `true` if the validation holds errors.
    pub fn is_invalid(&self) -> (r: bool)
        ensures
            r == (*self is Invalid),
    {
        !self.is_valid()
    }

    /// Maps the valid value; errors are kept unchanged.
    pub fn map<B, F: FnOnce(A) -> B>(self, f: F) -> (r: Validation<E, B>)
        requires
            self matches Validation::Valid(a) ==> f.requires((a,)),
        ensures
            match self {
                Validation::Valid(a) => r matches Validation::Valid(b) && f.ensures((a,), b),
                Validation::Invalid(es) => r matches Validation::Invalid(es2) && es2@ == es@,
            },
    {
        match self {
            Validation::Valid(value) => Validation::Valid(f(value)),
            Validation::Invalid(errors) => Validation::Invalid(errors),
        }
    }

    /// Chains a further validation step on a valid value.
    pub fn and_then<B, F: FnOnce(A) -> Validation<E, B>>(self, f: F) -> (r: Validation<E, B>)
        requires
            self matches Validation::Valid(a) ==> f.requires((a,)),
        ensures
            match self {
                Validation::Valid(a) => f.ensures((a,), r),
                Validation::Invalid(es) => r matches Validation::Invalid(es2) && es2@ == es@,
            },
    {
        match self {
            Validation::Valid(value) => f(value),
            Validation::Invalid(errors) => Validation::Invalid(errors),
        }
    }

    /// Calls `op` with the errors when invalid; a valid value is kept.
    pub fn or_else<F: FnOnce(Vec<E>) -> Validation<E, A>>(self, op: F) -> (r: Validation<E, A>)
        requires
            self matches Validation::Invalid(es) ==> op.requires((es,)),
        ensures
            match self {
                Validation::Valid(a) => r == Validation::<E, A>::Valid(a),
                Validation::Invalid(es) => op.ensures((es,), r),
            },
    {
        match self {
            Validation::Valid(value) => Validation::Valid(value),
            Validation::Invalid(errors) => op(errors),
        }
    }

    /// Combines two validations: both values when both are valid, otherwise
    /// the errors of both, those of `self` first.
    pub fn zip<B>(self, other: Validation<E, B>) -> (r: Validation<E, (A, B)>)
        ensures
            match (self, other) {
                (Validation::Valid(a), Validation::Valid(b)) => r == Validation::<E, (A, B)>::Valid((a, b)),
                _ => r matches Validation::Invalid(es) && es@ == errors_of(self) + errors_of(other),
            },
    {
        match (self, other) {
            (Validation::Valid(a), Validation::Valid(b)) => Validation::Valid((a, b)),
            (Validation::Invalid(e), Validation::Valid(_)) => {
                assert(e@ + Seq::<E>::empty() =~= e@);
                Validation::Invalid(e)
            },
            (Validation::Valid(_), Validation::Invalid(e)) => {
                assert(Seq::<E>::empty() + e@ =~= e@);
                Validation::Invalid(e)
            },
            (Validation::Invalid(e1), Validation::Invalid(e2)) => {
                let mut e1 = e1;
                let mut e2 = e2;
                e1.append(&mut e2);
                Validation::Invalid(e1)
            },
        }
    }

    /// Maps every error with `f`; a valid value is kept.
    pub fn map_err<G, F: Fn(E) -> G>(self, f: F) -> (r: Validation<G, A>)
        requires
            forall|i: int| 0 <= i < errors_of(self).len() ==> f.requires((#[trigger] errors_of(self)[i],)),
        ensures
            match self {
                Validation::Valid(a) => r == Validation::<G, A>::Valid(a),
                Validation::Invalid(es) => r matches Validation::Invalid(gs) && gs@.len() == es@.len()
                    && forall|i: int| 0 <= i < es@.len() ==> f.ensures((es@[i],), #[trigger] gs@[i]),
            },
    {
        match self {
            Validation::Valid(value) => Validation::Valid(value),
            Validation::Invalid(errors) => {
                assert(forall|i: int| 0 <= i < errors@.len() ==> f.requires((#[trigger] errors@[i],))) by {
                    assert(errors_of(self) == errors@);
                }
                Validation::Invalid(map_vec(errors, f))
            },
        }
    }

    /// Converts into a `Result` keeping all errors.
    pub fn to_result(self) -> (r: Result<A, Vec<E>>)
        ensures
            match self {
                Validation::Valid(a) => r == Ok::<A, Vec<E>>(a),
                Validation::Invalid(es) => r == Err::<A, Vec<E>>(es),
            },
    {
        match self {
            Validation::Valid(value) => Ok(value),
            Validation::Invalid(errors) => Err(errors),
        }
    }

    /// Wraps a `Result`, turning an error into a single-error validation.
    pub fn from_result(result: Result<A, E>) -> (r: Self)
        ensures
            match result {
                Ok(a) => r == Validation::<E, A>::Valid(a),
                Err(e) => r matches Validation::Invalid(es) && es@ == seq![e],
            },
    {
        match result {
            Ok(value) => Validation::Valid(value),
            Err(error) => Self::invalid(error),
        }
    }

    /// The errors, if invalid.
    pub fn into_errors(self) -> (r: Option<Vec<E>>)
        ensures
            match self {
                Validation::Valid(_) => r is None,
                Validation::Invalid(es) => r == Some(es),
            },
    {
        match self {
            Validation::Valid(_) => None,
            Validation::Invalid(errors) => Some(errors),
        }
    }

    /// The value, if valid.
    pub fn into_value(self) -> (r: Option<A>)
        ensures
            match self {
                Validation::Valid(a) => r == Some(a),
                Validation::Invalid(_) => r is None,
            },
    {
        match self {
            Validation::Valid(value) => Some(value),
            Validation::Invalid(_) => None,
        }
    }
}

/// Maps every item of `items` with `f`, in order.
pub fn map_vec<E, G, F: Fn(E) -> G>(items: Vec<E>, f: F) -> (r: Vec<G>)
    requires
        forall|i: int| 0 <= i < items@.len() ==> f.requires((#[trigger] items@[i],)),
    ensures
        r@.len() == items@.len(),
        forall|i: int| 0 <= i < items@.len() ==> f.ensures((items@[i],), #[trigger] r@[i]),
{
    let ghost orig = items@;
    let mut items = items;
    let mut rest: Vec<E> = Vec::new();
    while items.len() > 0
        invariant
            orig == items@ + rest@.reverse(),
        decreases items@.len(),
    {
        let ghost before = items@;
        let ghost rest_before = rest@;
        let x = items.pop().unwrap();
        rest.push(x);
        assert(before =~= items@.push(x));
        assert(rest@.reverse() =~= seq![x] + rest_before.reverse());
        assert(orig =~= items@ + rest@.reverse());
    }
    let n = rest.len();
    assert(rest@.reverse() =~= orig.subrange(0, n as int));
    let mut out: Vec<G> = Vec::new();
    while rest.len() > 0
        invariant
            n == orig.len(),
            out@.len() + rest@.len() == n,
            forall|i: int| 0 <= i < orig.len() ==> f.requires((#[trigger] orig[i],)),
            forall|i: int| 0 <= i < out@.len() ==> f.ensures((orig[i],), #[trigger] out@[i]),
            rest@.reverse() =~= orig.subrange(out@.len() as int, n as int),
        decreases rest@.len(),
    {
        let ghost k = out@.len();
        let ghost rest_before = rest@;
        let x = rest.pop().unwrap();
        assert(x == orig[k as int]) by {
            assert(rest_before.reverse()[0] == rest_before.last());
        }
        let y = f(x);
        out.push(y);
        assert(rest@.reverse() =~= orig.subrange(out@.len() as int, n as int)) by {
            assert(rest_before =~= rest@.push(x));
            assert(rest_before.reverse() =~= seq![x] + rest@.reverse());
            assert(orig.subrange(k as int, n as int).drop_first() =~= orig.subrange(k + 1int, n as int));
            assert(rest@.reverse() =~= rest_before.reverse().drop_first());
        }
    }
    out
}

} // verus!
