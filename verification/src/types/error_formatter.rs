//! Error chain formatting.
//!
//! A chain is the list of rendered items (contexts, then the core error) that
//! a formatter turns into one string. [`ErrorFormatConfig`] is the
//! configurable formatter: a linear layout with optional prefixes and
//! suffixes, a tree layout, or an indented cascade.
use crate::text::{concat_all, decimal, join, string_of, u32_to_decimal};
use crate::types::composable_error::{ComposableError, context_views};
use crate::types::error_context::{ContextView, ErrorContext, message_text};
use vstd::prelude::*;

verus! {

/// The contents of a sequence of strings.
pub open spec fn string_views(v: Seq<String>) -> Seq<Seq<char>> {
    v.map_values(|s: String| s@)
}

/// Trait for customizing error chain formatting.
///
/// By default an item is formatted as itself, the separator is `" -> "`, and
/// a chain is its items, each formatted by `format_item`, joined by
/// `separator`.
pub trait ErrorFormatter {
    /// Formats one item of the chain.
    fn format_item(&self, item: &str) -> (r: String)
        default_ensures
            r@ == item@,
    {
        string_of(item)
    }

    /// The separator placed between items.
    fn separator(&self) -> (r: &str)
        default_ensures
            r@ == arrow(),
    {
        proof { reveal_strlit(" -> "); }
        let sep = " -> ";
        assert(sep@ =~= arrow());
        sep
    }

    /// Formats a whole chain of rendered items.
    fn format_chain(&self, items: &Vec<String>) -> (r: String)
        default_ensures
            exists|sep: &str, ins: Seq<&str>, outs: Seq<String>|
                #![trigger call_ensures(Self::separator, (self,), sep), ins.len(), string_views(outs)]
                call_ensures(Self::separator, (self,), sep)
                && ins.len() == items@.len() && outs.len() == items@.len()
                && (forall|i: int| 0 <= i < items@.len() ==> (#[trigger] ins[i])@ == items@[i]@
                    && call_ensures(Self::format_item, (self, ins[i]), outs[i]))
                && r@ == join(string_views(outs), sep@),
    {
        let sep = self.separator();
        let mut out = String::new();
        let ghost mut ins: Seq<&str> = Seq::empty();
        let ghost mut outs: Seq<String> = Seq::empty();
        let mut i: usize = 0;
        while i < items.len()
            invariant
                i <= items@.len(),
                call_ensures(Self::separator, (self,), sep),
                ins.len() == i,
                outs.len() == i,
                forall|j: int| 0 <= j < i ==> (#[trigger] ins[j])@ == items@[j]@
                    && call_ensures(Self::format_item, (self, ins[j]), outs[j]),
                out@ == join(string_views(outs), sep@),
            decreases items@.len() - i,
        {
            let piece = items[i].as_str();
            let formatted = self.format_item(piece);
            if i > 0 {
                out.append(sep);
            }
            out.append(formatted.as_str());
            proof {
                let old_outs = outs;
                ins = ins.push(piece);
                outs = outs.push(formatted);
                assert(string_views(outs).drop_last() =~= string_views(old_outs));
                if i == 0 {
                    assert(string_views(outs) =~= seq![formatted@]);
                }
            }
            i = i + 1;
        }
        assert(call_ensures(Self::separator, (self,), sep) && ins.len() == items@.len()
            && string_views(outs) == string_views(outs));
        out
    }
}

/// Configuration-based error formatter.
#[derive(Debug, PartialEq, Eq)]
pub struct ErrorFormatConfig {
    pub separator: String,
    pub context_prefix: Option<String>,
    pub context_suffix: Option<String>,
    pub root_prefix: Option<String>,
    pub root_suffix: Option<String>,
    pub multiline: bool,
    pub indent: String,
    pub show_code: bool,
    pub cascade: bool,
}

/// Abstract value of an [`ErrorFormatConfig`].
pub struct FormatConfigView {
    pub separator: Seq<char>,
    pub context_prefix: Option<Seq<char>>,
    pub context_suffix: Option<Seq<char>>,
    pub root_prefix: Option<Seq<char>>,
    pub root_suffix: Option<Seq<char>>,
    pub multiline: bool,
    pub indent: Seq<char>,
    pub show_code: bool,
    pub cascade: bool,
}

pub open spec fn opt_view(o: Option<String>) -> Option<Seq<char>> {
    match o {
        Some(s) => Some(s@),
        None => None,
    }
}

impl View for ErrorFormatConfig {
    type V = FormatConfigView;

    open spec fn view(&self) -> FormatConfigView {
        FormatConfigView {
            separator: self.separator@,
            context_prefix: opt_view(self.context_prefix),
            context_suffix: opt_view(self.context_suffix),
            root_prefix: opt_view(self.root_prefix),
            root_suffix: opt_view(self.root_suffix),
            multiline: self.multiline,
            indent: self.indent@,
            show_code: self.show_code,
            cascade: self.cascade,
        }
    }
}

/// `" -> "`
pub open spec fn arrow() -> Seq<char> {
    seq![' ', '-', '>', ' ']
}

/// The default configuration: `" -> "` separator, no prefixes or suffixes,
/// single line, two-space indent, codes shown, no cascade.
pub open spec fn default_config() -> FormatConfigView {
    FormatConfigView {
        separator: arrow(),
        context_prefix: None,
        context_suffix: None,
        root_prefix: None,
        root_suffix: None,
        multiline: false,
        indent: seq![' ', ' '],
        show_code: true,
        cascade: false,
    }
}

/// The text of an optional piece (empty when absent).
pub open spec fn opt_text(o: Option<Seq<char>>) -> Seq<char> {
    match o {
        Some(s) => s,
        None => Seq::empty(),
    }
}

/// The prefix of an item: the root prefix (falling back to the context
/// prefix) for the last item, the context prefix otherwise.
pub open spec fn prefix_for(c: FormatConfigView, is_last: bool) -> Option<Seq<char>> {
    if is_last && c.root_prefix is Some { c.root_prefix } else { c.context_prefix }
}

/// The suffix of an item, chosen like the prefix.
pub open spec fn suffix_for(c: FormatConfigView, is_last: bool) -> Option<Seq<char>> {
    if is_last && c.root_suffix is Some { c.root_suffix } else { c.context_suffix }
}

/// `s` repeated `k` times.
pub open spec fn repeat(s: Seq<char>, k: nat) -> Seq<char>
    decreases k,
{
    if k == 0 { Seq::empty() } else { repeat(s, (k - 1) as nat) + s }
}

/// `"\u{250c} "`: the head of a tree.
pub open spec fn tree_head() -> Seq<char> {
    seq!['\u{250c}', ' ']
}

pub open spec fn tree_piece(c: FormatConfigView, items: Seq<Seq<char>>, i: int) -> Seq<char> {
    if i == 0 {
        tree_head() + items[0]
    } else {
        c.separator + opt_text(prefix_for(c, i == items.len() - 1)) + items[i]
    }
}

pub open spec fn cascade_piece(c: FormatConfigView, items: Seq<Seq<char>>, i: int) -> Seq<char> {
    if i == 0 {
        items[0]
    } else {
        c.separator + repeat(c.indent, i as nat) + items[i]
    }
}

pub open spec fn linear_piece(c: FormatConfigView, items: Seq<Seq<char>>, i: int) -> Seq<char> {
    let is_last = i == items.len() - 1;
    (if i > 0 { c.separator } else { Seq::empty() }) + opt_text(prefix_for(c, is_last)) + items[i]
        + opt_text(suffix_for(c, is_last))
}

/// Tree layout: the first item after a tree head, every later item on its own
/// separator with its prefix.
pub open spec fn tree_text(c: FormatConfigView, items: Seq<Seq<char>>) -> Seq<char> {
    concat_all(Seq::new(items.len(), |i: int| tree_piece(c, items, i)))
}

/// Cascade layout: item `i` after the separator and `i` indents.
pub open spec fn cascade_text(c: FormatConfigView, items: Seq<Seq<char>>) -> Seq<char> {
    concat_all(Seq::new(items.len(), |i: int| cascade_piece(c, items, i)))
}

/// Linear layout: items between separators, each with its prefix and suffix.
pub open spec fn linear_text(c: FormatConfigView, items: Seq<Seq<char>>) -> Seq<char> {
    concat_all(Seq::new(items.len(), |i: int| linear_piece(c, items, i)))
}

/// The chain as a configuration formats it: empty for no items, the tree
/// layout when multiline with a context prefix, else the cascade when
/// enabled, else the linear layout.
pub open spec fn config_chain_text(c: FormatConfigView, items: Seq<Seq<char>>) -> Seq<char> {
    if items.len() == 0 {
        Seq::empty()
    } else if c.multiline && c.context_prefix is Some {
        tree_text(c, items)
    } else if c.cascade {
        cascade_text(c, items)
    } else {
        linear_text(c, items)
    }
}

/// One item as a configuration formats it: context prefix, item, context suffix.
pub open spec fn config_item_text(c: FormatConfigView, item: Seq<char>) -> Seq<char> {
    opt_text(c.context_prefix) + item + opt_text(c.context_suffix)
}

impl Default for ErrorFormatConfig {
    fn default() -> (r: Self)
        ensures
            r@ == default_config(),
    {
        proof {
            reveal_strlit(" -> ");
            reveal_strlit("  ");
        }
        let r = ErrorFormatConfig {
            separator: string_of(" -> "),
            context_prefix: None,
            context_suffix: None,
            root_prefix: None,
            root_suffix: None,
            multiline: false,
            indent: string_of("  "),
            show_code: true,
            cascade: false,
        };
        assert(r.separator@ =~= arrow());
        assert(r.indent@ =~= seq![' ', ' ']);
        r
    }
}

/// Appends the optional piece, if any.
fn push_opt(acc: &mut String, piece: &Option<String>)
    ensures
        final(acc)@ == old(acc)@ + opt_text(opt_view(*piece)),
{
    match piece {
        Some(p) => acc.append(p.as_str()),
        None => {
            assert(old(acc)@ + Seq::<char>::empty() =~= old(acc)@);
        },
    }
}

proof fn lemma_concat_step(pieces: Seq<Seq<char>>, i: int)
    requires
        0 <= i < pieces.len(),
    ensures
        concat_all(pieces.take(i + 1)) == concat_all(pieces.take(i)) + pieces[i],
{
    assert(pieces.take(i + 1).drop_last() =~= pieces.take(i));
}

impl ErrorFormatConfig {
    /// Tree-style formatting with box-drawing characters.
    pub fn pretty() -> (r: Self)
        ensures
            r@ == (FormatConfigView {
                separator: seq!['\n'],
                context_prefix: Some(seq!['\u{251c}', '\u{2500}', ' ']),
                root_prefix: Some(seq!['\u{2514}', '\u{2500}', ' ']),
                multiline: true,
                ..default_config()
            }),
    {
        proof {
            reveal_strlit("\n");
            reveal_strlit("\u{251c}\u{2500} ");
            reveal_strlit("\u{2514}\u{2500} ");
        }
        let mut r = Self::default();
        r.separator = string_of("\n");
        r.context_prefix = Some(string_of("\u{251c}\u{2500} "));
        r.root_prefix = Some(string_of("\u{2514}\u{2500} "));
        r.multiline = true;
        assert(r.separator@ =~= seq!['\n']);
        assert(opt_view(r.context_prefix)->0 =~= seq!['\u{251c}', '\u{2500}', ' ']);
        assert(opt_view(r.root_prefix)->0 =~= seq!['\u{2514}', '\u{2500}', ' ']);
        r
    }

    /// Indented cascade formatting.
    pub fn cascaded() -> (r: Self)
        ensures
            r@ == (FormatConfigView { separator: seq!['\n'], multiline: true, cascade: true, ..default_config() }),
    {
        proof { reveal_strlit("\n"); }
        let mut r = Self::default();
        r.separator = string_of("\n");
        r.multiline = true;
        r.cascade = true;
        assert(r.separator@ =~= seq!['\n']);
        r
    }

    /// Single line with `" | "` between items.
    pub fn compact() -> (r: Self)
        ensures
            r@ == (FormatConfigView { separator: seq![' ', '|', ' '], ..default_config() }),
    {
        proof { reveal_strlit(" | "); }
        let mut r = Self::default();
        r.separator = string_of(" | ");
        assert(r.separator@ =~= seq![' ', '|', ' ']);
        r
    }

    /// The default layout without the error code.
    pub fn no_code() -> (r: Self)
        ensures
            r@ == (FormatConfigView { show_code: false, ..default_config() }),
    {
        let mut r = Self::default();
        r.show_code = false;
        r
    }

    fn get_prefix(&self, is_last: bool) -> (r: &Option<String>)
        ensures
            opt_view(*r) == prefix_for(self@, is_last),
    {
        if is_last && self.root_prefix.is_some() { &self.root_prefix } else { &self.context_prefix }
    }

    fn get_suffix(&self, is_last: bool) -> (r: &Option<String>)
        ensures
            opt_view(*r) == suffix_for(self@, is_last),
    {
        if is_last && self.root_suffix.is_some() { &self.root_suffix } else { &self.context_suffix }
    }

    fn format_multiline_tree(&self, items: &Vec<String>) -> (r: String)
        requires
            items@.len() >= 1,
        ensures
            r@ == tree_text(self@, string_views(items@)),
    {
        let ghost iv = string_views(items@);
        let ghost pieces = Seq::new(iv.len(), |i: int| tree_piece(self@, iv, i));
        let len = items.len();
        let mut result = string_of("\u{250c} ");
        proof { reveal_strlit("\u{250c} "); }
        result.append(items[0].as_str());
        proof { lemma_concat_step(pieces, 0); assert(pieces.take(0) =~= Seq::<Seq<char>>::empty()); }
        let mut i: usize = 1;
        while i < len
            invariant
                1 <= i <= len,
                len == items@.len(),
                iv == string_views(items@),
                pieces == Seq::new(iv.len(), |i: int| tree_piece(self@, iv, i)),
                result@ == concat_all(pieces.take(i as int)),
            decreases len - i,
        {
            result.append(self.separator.as_str());
            let is_last = i == len - 1;
            push_opt(&mut result, self.get_prefix(is_last));
            result.append(items[i].as_str());
            proof { lemma_concat_step(pieces, i as int); }
            i = i + 1;
        }
        assert(pieces.take(len as int) =~= pieces);
        result
    }

    fn format_cascade(&self, items: &Vec<String>) -> (r: String)
        ensures
            r@ == cascade_text(self@, string_views(items@)),
    {
        let ghost iv = string_views(items@);
        let ghost pieces = Seq::new(iv.len(), |i: int| cascade_piece(self@, iv, i));
        let len = items.len();
        let mut result = String::new();
        let mut i: usize = 0;
        while i < len
            invariant
                i <= len,
                len == items@.len(),
                iv == string_views(items@),
                pieces == Seq::new(iv.len(), |i: int| cascade_piece(self@, iv, i)),
                result@ == concat_all(pieces.take(i as int)),
            decreases len - i,
        {
            let ghost before = result@;
            if i > 0 {
                result.append(self.separator.as_str());
                let mut k: usize = 0;
                while k < i
                    invariant
                        k <= i,
                        result@ == before + self@.separator + repeat(self@.indent, k as nat),
                    decreases i - k,
                {
                    result.append(self.indent.as_str());
                    k = k + 1;
                }
            }
            result.append(items[i].as_str());
            proof { lemma_concat_step(pieces, i as int); }
            i = i + 1;
        }
        assert(pieces.take(len as int) =~= pieces);
        result
    }

    fn format_linear(&self, items: &Vec<String>) -> (r: String)
        requires
            items@.len() >= 1,
        ensures
            r@ == linear_text(self@, string_views(items@)),
    {
        let ghost iv = string_views(items@);
        let ghost pieces = Seq::new(iv.len(), |i: int| linear_piece(self@, iv, i));
        let len = items.len();
        let last_idx = len - 1;
        let mut result = String::new();
        let mut i: usize = 0;
        while i < len
            invariant
                i <= len,
                len == items@.len(),
                last_idx == len - 1,
                iv == string_views(items@),
                pieces == Seq::new(iv.len(), |i: int| linear_piece(self@, iv, i)),
                result@ == concat_all(pieces.take(i as int)),
            decreases len - i,
        {
            let ghost before = result@;
            if i > 0 {
                result.append(self.separator.as_str());
            } else {
                assert(before + Seq::<char>::empty() =~= before);
            }
            let is_last = i == last_idx;
            push_opt(&mut result, self.get_prefix(is_last));
            result.append(items[i].as_str());
            push_opt(&mut result, self.get_suffix(is_last));
            proof {
                lemma_concat_step(pieces, i as int);
                assert(result@ =~= before + pieces[i as int]);
            }
            i = i + 1;
        }
        assert(pieces.take(len as int) =~= pieces);
        result
    }
}

impl ErrorFormatter for ErrorFormatConfig {
    /// The item between the context prefix and suffix.
    fn format_item(&self, item: &str) -> (r: String)
        ensures
            r@ == config_item_text(self@, item@),
    {
        let mut result = String::new();
        push_opt(&mut result, &self.context_prefix);
        result.append(item);
        push_opt(&mut result, &self.context_suffix);
        assert(result@ =~= config_item_text(self@, item@));
        result
    }

    /// The configured separator.
    fn separator(&self) -> (r: &str)
        ensures
            r@ == self@.separator,
    {
        self.separator.as_str()
    }

    /// The chain in the configured layout.
    fn format_chain(&self, items: &Vec<String>) -> (r: String)
        ensures
            r@ == config_chain_text(self@, string_views(items@)),
    {
        if items.len() == 0 {
            return String::new();
        }
        if self.multiline && self.context_prefix.is_some() {
            self.format_multiline_tree(items)
        } else if self.cascade {
            self.format_cascade(items)
        } else {
            self.format_linear(items)
        }
    }
}

/// `" (code: N)"`
pub open spec fn code_text(code: u32) -> Seq<char> {
    seq![' ', '(', 'c', 'o', 'd', 'e', ':', ' '] + decimal(code as nat) + seq![')']
}

/// The rendered chain items of an error: its contexts' messages (most recent
/// first, or oldest first when `reversed`), then the core message.
pub open spec fn chain_items(cs: Seq<ContextView>, reversed: bool, core: Seq<char>) -> Seq<Seq<char>> {
    let ordered = if reversed { cs } else { cs.reverse() };
    ordered.map_values(|c: ContextView| message_text(c)).push(core)
}

/// What a format builder renders: the chain formatted by its configuration,
/// followed by the code when shown and present.
pub open spec fn builder_text(c: FormatConfigView, cs: Seq<ContextView>, reversed: bool, core: Seq<char>, code: Option<u32>) -> Seq<char> {
    config_chain_text(c, chain_items(cs, reversed, core))
        + (if c.show_code && code is Some { code_text(code->0) } else { Seq::empty() })
}

/// Builder for customizing error display output.
pub struct ErrorFormatBuilder<'a, E> {
    pub(crate) error: &'a ComposableError<E>,
    pub(crate) config: ErrorFormatConfig,
    pub(crate) reverse_context: bool,
}

impl<'a, E> ErrorFormatBuilder<'a, E> {
    /// The configuration in use.
    pub closed spec fn settings(&self) -> FormatConfigView {
        self.config@
    }

    /// Whether contexts are shown oldest first.
    pub closed spec fn reversed(&self) -> bool {
        self.reverse_context
    }

    /// The error being formatted.
    pub closed spec fn target(&self) -> ComposableError<E> {
        *self.error
    }

    /// A builder with the default configuration, most recent context first.
    pub fn new(error: &'a ComposableError<E>) -> (r: Self)
        ensures
            r.settings() == default_config(),
            !r.reversed(),
            r.target() == *error,
    {
        ErrorFormatBuilder { error, config: ErrorFormatConfig::default(), reverse_context: false }
    }

    /// Sets the separator between items.
    pub fn with_separator(self, separator: &str) -> (r: Self)
        ensures
            r.settings() == (FormatConfigView { separator: separator@, ..self.settings() }),
            r.reversed() == self.reversed(),
            r.target() == self.target(),
    {
        let mut s = self;
        s.config.separator = string_of(separator);
        s
    }

    /// Shows contexts oldest first when `reverse` holds.
    pub fn reverse_context(self, reverse: bool) -> (r: Self)
        ensures
            r.settings() == self.settings(),
            r.reversed() == reverse,
            r.target() == self.target(),
    {
        let mut s = self;
        s.reverse_context = reverse;
        s
    }

    /// Whether to include the error code.
    pub fn show_code(self, show: bool) -> (r: Self)
        ensures
            r.settings() == (FormatConfigView { show_code: show, ..self.settings() }),
            r.reversed() == self.reversed(),
            r.target() == self.target(),
    {
        let mut s = self;
        s.config.show_code = show;
        s
    }

    /// Switches to the tree configuration.
    pub fn pretty(self) -> (r: Self)
        ensures
            r.settings() == ErrorFormatConfig::pretty_view(),
            r.reversed() == self.reversed(),
            r.target() == self.target(),
    {
        let mut s = self;
        s.config = ErrorFormatConfig::pretty();
        s
    }

    /// Switches to the compact configuration.
    pub fn compact(self) -> (r: Self)
        ensures
            r.settings() == (FormatConfigView { separator: seq![' ', '|', ' '], ..default_config() }),
            r.reversed() == self.reversed(),
            r.target() == self.target(),
    {
        let mut s = self;
        s.config = ErrorFormatConfig::compact();
        s
    }

    /// Turns the cascade layout on or off; turning it on also makes the
    /// output multiline and replaces a default `" -> "` separator by a newline.
    pub fn cascade(self, enabled: bool) -> (r: Self)
        ensures
            r.settings() == (if enabled {
                FormatConfigView {
                    cascade: true,
                    multiline: true,
                    separator: if self.settings().separator == arrow() { seq!['\n'] } else { self.settings().separator },
                    ..self.settings()
                }
            } else {
                FormatConfigView { cascade: false, ..self.settings() }
            }),
            r.reversed() == self.reversed(),
            r.target() == self.target(),
    {
        let mut s = self;
        s.config.cascade = enabled;
        if enabled {
            s.config.multiline = true;
            proof { reveal_strlit(" -> "); reveal_strlit("\n"); }
            let default_sep = string_of(" -> ");
            assert(default_sep@ =~= arrow());
            if s.config.separator == default_sep {
                s.config.separator = string_of("\n");
                assert(s.config.separator@ =~= seq!['\n']);
            }
        }
        s
    }

    /// Switches to the cascade configuration.
    pub fn cascaded(self) -> (r: Self)
        ensures
            r.settings() == (FormatConfigView { separator: seq!['\n'], multiline: true, cascade: true, ..default_config() }),
            r.reversed() == self.reversed(),
            r.target() == self.target(),
    {
        let mut s = self;
        s.config = ErrorFormatConfig::cascaded();
        s
    }

    /// Renders the error; `core_message` is the rendered core error.
    pub fn render(&self, core_message: &str) -> (r: String)
        ensures
            r@ == builder_text(self.settings(), self.target().contexts(), self.reversed(), core_message@,
                self.target().code()),
    {
        proof { self.error.lemma_parts(); }
        let ctxs = &self.error.context;
        let ghost cs = context_views(ctxs@);
        let ghost expected = chain_items(cs, self.reverse_context, core_message@);
        let n = ctxs.len();
        let mut items: Vec<String> = Vec::new();
        let mut i: usize = 0;
        while i < n
            invariant
                i <= n,
                n == ctxs@.len(),
                cs == context_views(ctxs@),
                expected == chain_items(cs, self.reverse_context, core_message@),
                items@.len() == i,
                forall|j: int| 0 <= j < i ==> (#[trigger] items@[j])@ == expected[j],
            decreases n - i,
        {
            let idx = if self.reverse_context { i } else { n - 1 - i };
            items.push(ctxs[idx].message());
            i = i + 1;
        }
        items.push(string_of(core_message));
        assert(string_views(items@) =~= expected);
        let mut out = self.config.format_chain(&items);
        if self.config.show_code {
            match self.error.error_code {
                Some(code) => {
                    proof { reveal_strlit(" (code: "); reveal_strlit(")"); }
                    out.append(" (code: ");
                    let digits = u32_to_decimal(code);
                    out.append(digits.as_str());
                    out.append(")");
                    assert(out@ =~= config_chain_text(self.settings(), expected) + code_text(code));
                },
                None => {
                    assert(out@ =~= out@ + Seq::<char>::empty());
                },
            }
        } else {
            assert(out@ =~= out@ + Seq::<char>::empty());
        }
        out
    }
}

impl ErrorFormatConfig {
    /// The tree configuration.
    pub open spec fn pretty_view() -> FormatConfigView {
        FormatConfigView {
            separator: seq!['\n'],
            context_prefix: Some(seq!['\u{251c}', '\u{2500}', ' ']),
            root_prefix: Some(seq!['\u{2514}', '\u{2500}', ' ']),
            multiline: true,
            ..default_config()
        }
    }
}


/// Joining `a` in front of a non-empty `rest` puts one separator between them.
pub proof fn lemma_join_prepend(a: Seq<char>, rest: Seq<Seq<char>>, sep: Seq<char>)
    requires
        rest.len() > 0,
    ensures
        join(seq![a] + rest, sep) == a + sep + join(rest, sep),
    decreases rest.len(),
{
    let all = seq![a] + rest;
    if rest.len() == 1 {
        assert(all.drop_last() =~= seq![a]);
        assert(join(seq![a], sep) == a);
        assert(all.last() == rest[0]);
        assert(join(all, sep) == join(all.drop_last(), sep) + sep + all.last());
        assert(join(rest, sep) == rest[0]);
    } else {
        lemma_join_prepend(a, rest.drop_last(), sep);
        assert(all.drop_last() =~= seq![a] + rest.drop_last());
        assert(all.last() == rest.last());
        assert(join(all, sep) =~= a + sep + join(rest, sep));
    }
}

/// The default configuration lays a chain out as its items joined by `" -> "`.
pub proof fn lemma_default_layout_is_join(items: Seq<Seq<char>>)
    ensures
        config_chain_text(default_config(), items) == join(items, arrow()),
    decreases items.len(),
{
    let c = default_config();
    let n = items.len();
    if n == 0 {
        return;
    }
    let pieces = Seq::new(n, |i: int| linear_piece(c, items, i));
    if n == 1 {
        assert(pieces.drop_last() =~= Seq::<Seq<char>>::empty());
        assert(pieces[0] =~= items[0]);
        assert(concat_all(pieces) == concat_all(pieces.drop_last()) + pieces.last());
        assert(concat_all(pieces) =~= items[0]);
        assert(config_chain_text(c, items) == linear_text(c, items));
    } else {
        let front = items.drop_last();
        lemma_default_layout_is_join(front);
        let front_pieces = Seq::new((n - 1) as nat, |i: int| linear_piece(c, front, i));
        assert(pieces.drop_last() =~= front_pieces);
        assert(pieces.last() =~= arrow() + items.last());
        assert(concat_all(pieces) =~= concat_all(front_pieces) + arrow() + items.last());
        assert(config_chain_text(c, items) == linear_text(c, items));
        assert(config_chain_text(c, front) == linear_text(c, front));
        assert(join(items, arrow()) == join(front, arrow()) + arrow() + items.last());
    }
}

/// An error chain in the default format reads the contexts most recent
/// first, then the core message, all joined by `" -> "`; the code, when
/// present, follows.
pub proof fn lemma_default_chain_reads_newest_first(cs: Seq<ContextView>, core: Seq<char>, code: Option<u32>)
    ensures
        builder_text(default_config(), cs, false, core, code)
            == join(cs.reverse().map_values(|c: ContextView| message_text(c)).push(core), arrow())
            + (if code is Some { code_text(code->0) } else { Seq::empty() }),
{
    lemma_default_layout_is_join(chain_items(cs, false, core));
}

/// Attaching one more context puts its message at the front of the default
/// chain: the new chain is that message, `" -> "`, then the chain before.
pub proof fn lemma_new_context_leads_chain(cs: Seq<ContextView>, ctx: ContextView, core: Seq<char>, code: Option<u32>)
    ensures
        builder_text(default_config(), cs.push(ctx), false, core, code)
            == message_text(ctx) + arrow() + builder_text(default_config(), cs, false, core, code),
{
    let items = chain_items(cs, false, core);
    let more = chain_items(cs.push(ctx), false, core);
    assert(more =~= seq![message_text(ctx)] + items);
    lemma_default_layout_is_join(items);
    lemma_default_layout_is_join(more);
    lemma_join_prepend(message_text(ctx), items, arrow());
    let tail = if code is Some { code_text(code->0) } else { Seq::<char>::empty() };
    assert(message_text(ctx) + arrow() + join(items, arrow()) + tail
        =~= message_text(ctx) + arrow() + (join(items, arrow()) + tail));
}

} // verus!
