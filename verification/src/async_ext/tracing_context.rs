//! The context recorded for an error raised inside a tracing span.
use crate::text::{join, join_strings, string_of};
use crate::types::error_context::{empty_group, ContextView, ErrorContext, GroupView};
use vstd::prelude::*;

verus! {

/// What is read from a span's metadata.
pub struct SpanInfo {
    /// The span's name
    pub name: String,
    /// The span's target (module path)
    pub target: String,
    /// The span's level, as text
    pub level: String,
    /// The names of the span's fields
    pub fields: Vec<String>,
}

/// `"in unknown span"`
pub open spec fn unknown_span_text() -> Seq<char> {
    seq!['i', 'n', ' ', 'u', 'n', 'k', 'n', 'o', 'w', 'n', ' ', 's', 'p', 'a', 'n']
}

/// The context for a span: the name as tag, the target and level as
/// metadata, and the field names (comma separated) as metadata when there
/// are any; for a span without metadata, `in unknown span`.
pub open spec fn span_context_view(info: Option<(Seq<char>, Seq<char>, Seq<char>, Seq<Seq<char>>)>) -> ContextView {
    match info {
        None => ContextView::Simple(unknown_span_text()),
        Some((name, target, level, fields)) => {
            let base = seq![(seq!['t', 'a', 'r', 'g', 'e', 't'], target), (seq!['l', 'e', 'v', 'e', 'l'], level)];
            ContextView::Group(GroupView {
                tags: seq![name],
                metadata: if fields.len() > 0 {
                    base.push((seq!['f', 'i', 'e', 'l', 'd', 's'], join(fields, seq![',', ' '])))
                } else {
                    base
                },
                ..empty_group()
            })
        },
    }
}

/// The parts of a span info.
pub open spec fn span_info_view(info: Option<SpanInfo>) -> Option<(Seq<char>, Seq<char>, Seq<char>, Seq<Seq<char>>)> {
    match info {
        None => None,
        Some(i) => Some((i.name@, i.target@, i.level@, i.fields@.map_values(|p: String| p@))),
    }
}

/// The context recorded for an error raised in a span with `info` (`None`
/// when the span has no metadata).
pub fn span_context(info: Option<SpanInfo>) -> (r: ErrorContext)
    ensures
        r@ == span_context_view(span_info_view(info)),
{
    match info {
        None => {
            proof { reveal_strlit("in unknown span"); }
            let r = ErrorContext::new("in unknown span");
            assert("in unknown span"@ =~= unknown_span_text());
            r
        },
        Some(i) => {
            proof {
                reveal_strlit("target");
                reveal_strlit("level");
                reveal_strlit("fields");
                reveal_strlit(", ");
            }
            let mut builder = ErrorContext::builder().tag(i.name.as_str());
            builder = builder.metadata("target", i.target.as_str());
            builder = builder.metadata("level", i.level.as_str());
            assert("target"@ =~= seq!['t', 'a', 'r', 'g', 'e', 't']);
            assert("level"@ =~= seq!['l', 'e', 'v', 'e', 'l']);
            if i.fields.len() > 0 {
                let joined = join_strings(&i.fields, ", ");
                assert(", "@ =~= seq![',', ' ']);
                assert("fields"@ =~= seq!['f', 'i', 'e', 'l', 'd', 's']);
                builder = builder.metadata("fields", joined.as_str());
            }
            let r = builder.build();
            proof {
                let fv = i.fields@.map_values(|p: String| p@);
                let expected = span_context_view(Some((i.name@, i.target@, i.level@, fv)));
                let gv = match r@ { ContextView::Group(g) => g, _ => empty_group() };
                let ge = match expected { ContextView::Group(g) => g, _ => empty_group() };
                assert(gv.tags =~= ge.tags);
                assert(gv.metadata =~= ge.metadata);
                assert(gv == ge);
            }
            r
        },
    }
}

} // verus!
