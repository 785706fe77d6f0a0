//! The earlier, separator-only formatter for composable errors.
use crate::text::{join, string_of, u32_to_decimal};
use crate::types::composable_error::{context_views, ComposableError};
use crate::types::error_formatter::{
    arrow, builder_text, chain_items, code_text, default_config, lemma_default_layout_is_join,
};
use vstd::prelude::*;

verus! {

/// What the separator-only formatter renders: the chain items joined by the
/// separator, then the code when shown and present.
pub open spec fn legacy_text(sep: Seq<char>, cs: Seq<crate::types::error_context::ContextView>, reversed: bool,
    show_code: bool, core: Seq<char>, code: Option<u32>) -> Seq<char>
{
    join(chain_items(cs, reversed, core), sep)
        + (if show_code && code is Some { code_text(code->0) } else { Seq::empty() })
}

/// Separator-only formatter for composable errors.
pub struct LegacyErrorFormatter<'a, E> {
    pub(crate) error: &'a ComposableError<E>,
    pub(crate) separator: &'a str,
    pub(crate) reverse_context: bool,
    pub(crate) show_code: bool,
}

impl<'a, E> LegacyErrorFormatter<'a, E> {
    /// The separator in use.
    pub closed spec fn separator_text(&self) -> Seq<char> {
        self.separator@
    }

    /// Whether contexts are shown oldest first.
    pub closed spec fn reversed(&self) -> bool {
        self.reverse_context
    }

    /// Whether the code is shown.
    pub closed spec fn code_shown(&self) -> bool {
        self.show_code
    }

    /// The error being formatted.
    pub closed spec fn target(&self) -> ComposableError<E> {
        *self.error
    }

    /// A formatter with `" -> "`, most recent context first, code shown.
    pub(crate) fn new(error: &'a ComposableError<E>) -> (r: Self)
        ensures
            r.separator_text() == seq![' ', '-', '>', ' '],
            !r.reversed(),
            r.code_shown(),
            r.target() == *error,
    {
        proof { reveal_strlit(" -> "); }
        let r = LegacyErrorFormatter { error, separator: " -> ", reverse_context: false, show_code: true };
        assert(r.separator_text() =~= seq![' ', '-', '>', ' ']);
        r
    }

    /// Sets the separator between items.
    pub fn with_separator(self, separator: &'a str) -> (r: Self)
        ensures
            r.separator_text() == separator@,
            r.reversed() == self.reversed(),
            r.code_shown() == self.code_shown(),
            r.target() == self.target(),
    {
        let mut s = self;
        s.separator = separator;
        s
    }

    /// Shows contexts oldest first when `reverse` holds.
    pub fn reverse_context(self, reverse: bool) -> (r: Self)
        ensures
            r.separator_text() == self.separator_text(),
            r.reversed() == reverse,
            r.code_shown() == self.code_shown(),
            r.target() == self.target(),
    {
        let mut s = self;
        s.reverse_context = reverse;
        s
    }

    /// Whether to include the error code.
    pub fn show_code(self, show: bool) -> (r: Self)
        ensures
            r.separator_text() == self.separator_text(),
            r.reversed() == self.reversed(),
            r.code_shown() == show,
            r.target() == self.target(),
    {
        let mut s = self;
        s.show_code = show;
        s
    }

    /// Renders the error; `core_message` is the rendered core error.
    pub fn render(&self, core_message: &str) -> (r: String)
        ensures
            r@ == legacy_text(self.separator_text(), self.target().contexts(), self.reversed(), self.code_shown(),
                core_message@, self.target().code()),
    {
        proof { self.error.lemma_parts(); }
        let ctxs = &self.error.context;
        let ghost cs = context_views(ctxs@);
        let ghost items = chain_items(cs, self.reverse_context, core_message@);
        let n = ctxs.len();
        let mut out = String::new();
        let mut i: usize = 0;
        while i < n
            invariant
                i <= n,
                n == ctxs@.len(),
                cs == context_views(ctxs@),
                items == chain_items(cs, self.reverse_context, core_message@),
                out@ == join(items.take(i as int), self.separator@),
            decreases n - i,
        {
            assert(items.take(i + 1).drop_last() =~= items.take(i as int));
            if i > 0 {
                out.append(self.separator);
            }
            let idx = if self.reverse_context { i } else { n - 1 - i };
            let m = ctxs[idx].message();
            out.append(m.as_str());
            i = i + 1;
        }
        assert(items.take(n + 1).drop_last() =~= items.take(n as int));
        if n > 0 {
            out.append(self.separator);
        }
        out.append(core_message);
        assert(items.take(n + 1) =~= items);
        if self.show_code {
            match self.error.error_code {
                Some(code) => {
                    proof { reveal_strlit(" (code: "); reveal_strlit(")"); }
                    out.append(" (code: ");
                    let digits = u32_to_decimal(code);
                    out.append(digits.as_str());
                    out.append(")");
                    assert(out@ =~= join(items, self.separator@) + code_text(code));
                },
                None => {
                    assert(out@ =~= out@ + Seq::<char>::empty());
                },
            }
        } else {
            assert(out@ =~= out@ + Seq::<char>::empty());
        }
        out
    }
}

impl<E> ComposableError<E> {
    /// The separator-only formatter for this error.
    pub fn legacy_fmt(&self) -> (r: LegacyErrorFormatter<'_, E>)
        ensures
            r.separator_text() == seq![' ', '-', '>', ' '],
            !r.reversed(),
            r.code_shown(),
            r.target() == *self,
    {
        LegacyErrorFormatter::new(self)
    }
}

/// The separator-only formatter at its defaults (`" -> "`, newest first,
/// code shown) renders exactly what the default format builder renders.
pub proof fn lemma_legacy_defaults_match_builder(
    cs: Seq<crate::types::error_context::ContextView>,
    core: Seq<char>,
    code: Option<u32>,
)
    ensures
        legacy_text(arrow(), cs, false, true, core, code) == builder_text(default_config(), cs, false, core, code),
{
    lemma_default_layout_is_join(chain_items(cs, false, core));
}

} // verus!
