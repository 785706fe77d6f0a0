//! Composable error type with structured context and error codes.
//!
//! [`ComposableError`] wraps a core error together with a stack of
//! [`ErrorContext`] entries (oldest first in storage, most recent first when
//! read back) and an optional numeric code.
use crate::text::hex16;
use crate::traits::IntoErrorContext;
use crate::types::error_formatter::{
    builder_text, chain_items, default_config, string_views, ErrorFormatBuilder, ErrorFormatConfig, ErrorFormatter,
    FormatConfigView,
};
use crate::types::fingerprint::{default_fingerprint, fingerprint_of, FingerprintConfig};
use crate::types::error_context::{ContextView, ErrorContext};
use vstd::prelude::*;

verus! {

/// The views of a sequence of contexts.
pub open spec fn context_views(cs: Seq<ErrorContext>) -> Seq<ContextView> {
    cs.map_values(|c: ErrorContext| c@)
}

/// Error wrapper that stores the core error plus structured contexts and an optional code.
#[derive(Debug, PartialEq, Eq)]
pub struct ComposableError<E> {
    pub(crate) core_error: E,
    pub(crate) context: Vec<ErrorContext>,
    pub(crate) error_code: Option<u32>,
}

impl<E> ComposableError<E> {
    /// The wrapped core error.
    pub closed spec fn core_value(&self) -> E {
        self.core_error
    }

    /// The attached contexts, in the order they were attached (oldest first).
    pub closed spec fn contexts(&self) -> Seq<ContextView> {
        context_views(self.context@)
    }

    /// The error code, if any.
    pub closed spec fn code(&self) -> Option<u32> {
        self.error_code
    }

    /// Unfolds the abstract parts into the stored fields.
    pub(crate) proof fn lemma_parts(&self)
        ensures
            self.core_value() == self.core_error,
            self.contexts() == context_views(self.context@),
            self.code() == self.error_code,
    {
    }

    /// Creates a composable error without context or code.
    pub fn new(error: E) -> (r: Self)
        ensures
            r.core_value() == error,
            r.contexts() == Seq::<ContextView>::empty(),
            r.code() == None::<u32>,
    {
        let r = ComposableError { core_error: error, context: Vec::new(), error_code: None };
        assert(r.contexts() =~= Seq::<ContextView>::empty());
        r
    }

    /// Creates a composable error with a pre-set error code.
    pub fn with_code(error: E, code: u32) -> (r: Self)
        ensures
            r.core_value() == error,
            r.contexts() == Seq::<ContextView>::empty(),
            r.code() == Some(code),
    {
        let r = ComposableError { core_error: error, context: Vec::new(), error_code: Some(code) };
        assert(r.contexts() =~= Seq::<ContextView>::empty());
        r
    }

    /// Adds a single context entry produced by `IntoErrorContext`.
    pub fn with_context<C: IntoErrorContext>(self, ctx: C) -> (r: Self)
        requires
            ctx.convert_ready(),
        ensures
            r.core_value() == self.core_value(),
            r.code() == self.code(),
            r.contexts().len() == self.contexts().len() + 1,
            r.contexts().drop_last() == self.contexts(),
            ctx.converts_to(r.contexts().last()),
    {
        let mut s = self;
        let c = ctx.into_error_context();
        s.context.push(c);
        assert(s.contexts().drop_last() =~= self.contexts());
        s
    }

    /// Appends the given contexts, in order, to the context stack.
    pub fn with_contexts(self, contexts: Vec<ErrorContext>) -> (r: Self)
        ensures
            r.core_value() == self.core_value(),
            r.code() == self.code(),
            r.contexts() == self.contexts() + context_views(contexts@),
    {
        let mut s = self;
        let mut more = contexts;
        s.context.append(&mut more);
        assert(s.contexts() =~= self.contexts() + context_views(contexts@));
        s
    }

    /// Returns a reference to the underlying error.
    pub fn core_error(&self) -> (r: &E)
        ensures
            *r == self.core_value(),
    {
        &self.core_error
    }

    /// Returns copies of the contexts, most recent first.
    pub fn context(&self) -> (r: Vec<ErrorContext>)
        ensures
            context_views(r@) == self.contexts().reverse(),
    {
        let mut r: Vec<ErrorContext> = Vec::new();
        let n = self.context.len();
        let mut i = n;
        while i > 0
            invariant
                i <= n,
                n == self.context@.len(),
                r@.len() == n - i,
                forall|j: int| 0 <= j < n - i ==> (#[trigger] r@[j])@ == self.context@[n - 1 - j]@,
            decreases i,
        {
            i = i - 1;
            let c = self.context[i].duplicate();
            r.push(c);
        }
        assert(context_views(r@) =~= self.contexts().reverse());
        r
    }

    /// Consumes the composable error, returning the underlying core error.
    pub fn into_core(self) -> (r: E)
        ensures
            r == self.core_value(),
    {
        self.core_error
    }

    /// Borrows the contexts, most recent first.
    pub fn context_iter(&self) -> (r: Vec<&ErrorContext>)
        ensures
            r@.map_values(|c: &ErrorContext| c@) == self.contexts().reverse(),
    {
        let mut r: Vec<&ErrorContext> = Vec::new();
        let n = self.context.len();
        let mut i = n;
        while i > 0
            invariant
                i <= n,
                n == self.context@.len(),
                r@.len() == n - i,
                forall|j: int| 0 <= j < n - i ==> (#[trigger] r@[j])@ == self.context@[n - 1 - j]@,
            decreases i,
        {
            i = i - 1;
            r.push(&self.context[i]);
        }
        assert(r@.map_values(|c: &ErrorContext| c@) =~= self.contexts().reverse());
        r
    }

    /// Returns the optional error code.
    pub fn error_code(&self) -> (r: Option<u32>)
        ensures
            r == self.code(),
    {
        self.error_code
    }

    /// Sets (or overrides) the error code.
    pub fn set_code(self, code: u32) -> (r: Self)
        ensures
            r.core_value() == self.core_value(),
            r.contexts() == self.contexts(),
            r.code() == Some(code),
    {
        let mut s = self;
        s.error_code = Some(code);
        s
    }

    /// Maps the core error type while preserving context and code.
    pub fn map_core<F: FnOnce(E) -> T, T>(self, f: F) -> (r: ComposableError<T>)
        requires
            f.requires((self.core_value(),)),
        ensures
            f.ensures((self.core_value(),), r.core_value()),
            r.contexts() == self.contexts(),
            r.code() == self.code(),
    {
        ComposableError { core_error: f(self.core_error), context: self.context, error_code: self.error_code }
    }
}

impl<E> ComposableError<E> {
    /// Returns a builder for customizing the error formatting.
    pub fn fmt(&self) -> (r: ErrorFormatBuilder<'_, E>)
        ensures
            r.settings() == default_config(),
            !r.reversed(),
            r.target() == *self,
    {
        ErrorFormatBuilder::new(self)
    }

    /// Formats the error with a builder configured by `f`; `core_message` is
    /// the rendered core error.
    pub fn format_with<'a, F>(&'a self, f: F, core_message: &str) -> (r: String)
        where
            F: FnOnce(ErrorFormatBuilder<'a, E>) -> ErrorFormatBuilder<'a, E>,
        requires
            forall|b: ErrorFormatBuilder<'a, E>|
                b.settings() == default_config() && !b.reversed() && b.target() == *self ==> #[trigger] f.requires((b,)),
        ensures
            exists|b: ErrorFormatBuilder<'a, E>, c: ErrorFormatBuilder<'a, E>|
                b.settings() == default_config() && !b.reversed() && b.target() == *self
                && #[trigger] f.ensures((b,), c)
                && r@ == builder_text(c.settings(), c.target().contexts(), c.reversed(), core_message@, c.target().code()),
    {
        let builder = self.fmt();
        let configured = f(builder);
        configured.render(core_message)
    }

    /// Formats the chain (contexts most recent first, then the core message)
    /// with a custom formatter; `core_message` is the rendered core error.
    pub fn error_chain_with<F: ErrorFormatter>(&self, formatter: F, core_message: &str) -> (r: String)
        ensures
            exists|items: Vec<String>| string_views(items@) == chain_items(self.contexts(), false, core_message@)
                && #[trigger] call_ensures(F::format_chain, (&formatter, &items), r),
    {
        let n = self.context.len();
        let ghost expected = chain_items(self.contexts(), false, core_message@);
        let mut items: Vec<String> = Vec::new();
        let mut i: usize = 0;
        while i < n
            invariant
                i <= n,
                n == self.context@.len(),
                expected == chain_items(self.contexts(), false, core_message@),
                items@.len() == i,
                forall|j: int| 0 <= j < i ==> (#[trigger] items@[j])@ == expected[j],
            decreases n - i,
        {
            items.push(self.context[n - 1 - i].message());
            i = i + 1;
        }
        items.push(crate::text::string_of(core_message));
        assert(items@.map_values(|s: String| s@) =~= expected);
        formatter.format_chain(&items)
    }

    /// The complete error chain in the default format; `core_message` is the
    /// rendered core error.
    pub fn error_chain(&self, core_message: &str) -> (r: String)
        ensures
            r@ == builder_text(default_config(), self.contexts(), false, core_message@, self.code()),
    {
        self.fmt().render(core_message)
    }

    /// What `Display` shows: the default chain, or the cascaded layout in
    /// alternate mode; `core_message` is the rendered core error.
    pub fn display_text(&self, core_message: &str, alternate: bool) -> (r: String)
        ensures
            r@ == builder_text(
                if alternate { FormatConfigView { separator: seq!['\n'], multiline: true, cascade: true, ..default_config() } } else { default_config() },
                self.contexts(), false, core_message@, self.code()),
    {
        if !alternate {
            self.fmt().render(core_message)
        } else {
            self.fmt().cascaded().render(core_message)
        }
    }

    /// The fingerprint with the default configuration (tags, code, message);
    /// `core_message` is the rendered core error.
    pub fn fingerprint(&self, core_message: &str) -> (r: u64)
        ensures
            r == fingerprint_of(default_fingerprint(), self.contexts(), self.code(), core_message@),
    {
        self.compute_fingerprint(core_message)
    }

    /// The default fingerprint as sixteen lower-case hexadecimal digits.
    pub fn fingerprint_hex(&self, core_message: &str) -> (r: String)
        ensures
            r@ == hex16(fingerprint_of(default_fingerprint(), self.contexts(), self.code(), core_message@)),
    {
        let fp = self.fingerprint(core_message);
        crate::text::u64_to_hex16(fp)
    }

    fn compute_fingerprint(&self, core_message: &str) -> (r: u64)
        ensures
            r == fingerprint_of(default_fingerprint(), self.contexts(), self.code(), core_message@),
    {
        self.fingerprint_config().compute(core_message)
    }

    /// A fingerprint configuration for this error, with the defaults.
    pub fn fingerprint_config(&self) -> (r: FingerprintConfig<'_, E>)
        ensures
            r.settings() == default_fingerprint(),
            r.target() == *self,
    {
        FingerprintConfig::new(self)
    }
}

impl<E> From<E> for ComposableError<E> {
    /// Wraps `error` with no context and no code.
    fn from(error: E) -> (r: Self)
        ensures
            r.core_value() == error,
            r.contexts() == Seq::<ContextView>::empty(),
            r.code() == None::<u32>,
    {
        ComposableError::new(error)
    }
}

/// Contracts learn what `from` gives from its own `ensures` above; no
/// spec-level constructor is offered, so the generic conversion spec is
/// declared as not followed.
impl<E> vstd::std_specs::convert::FromSpecImpl<E> for ComposableError<E> {
    open spec fn obeys_from_spec() -> bool {
        false
    }

    open spec fn from_spec(v: E) -> Self {
        vstd::pervasive::arbitrary()
    }
}

} // verus!
