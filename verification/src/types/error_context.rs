//! Rich, structured metadata for error contexts.
//!
//! An [`ErrorContext`] is either a free-form message (`Simple`) or a group
//! combining an optional message, an optional source location, tags and
//! key/value metadata (`Group`). [`ErrorContext::message`] renders either
//! kind as one human-readable line.
use crate::text::{decimal, join, join_strings, string_of, u32_to_decimal};
use crate::types::small_vec::{MetaVec, TagVec};
use vstd::prelude::*;

verus! {

/// Source file and line number where an error occurred.
#[derive(Debug, PartialEq, Eq, Hash)]
pub struct Location {
    /// Source file path
    pub file: String,
    /// Line number in the source file
    pub line: u32,
}

/// A rich context containing multiple pieces of information.
#[derive(Debug, PartialEq, Eq, Hash)]
pub struct GroupContext {
    /// Optional message describing this context
    pub message: Option<String>,
    /// Optional source location where the error occurred
    pub location: Option<Location>,
    /// Tags for categorizing and filtering errors
    pub tags: TagVec,
    /// Arbitrary key-value metadata pairs
    pub metadata: MetaVec,
}

/// Structured metadata attached to a composable error.
#[derive(Debug, PartialEq, Eq, Hash)]
pub enum ErrorContext {
    /// A plain text message describing the error context.
    Simple(String),
    /// A rich context containing multiple pieces of information.
    Group(Box<GroupContext>),
}

/// Abstract value of a [`GroupContext`]: every field by its content.
pub struct GroupView {
    pub message: Option<Seq<char>>,
    pub location: Option<(Seq<char>, u32)>,
    pub tags: Seq<Seq<char>>,
    pub metadata: Seq<(Seq<char>, Seq<char>)>,
}

/// Abstract value of an [`ErrorContext`].
pub enum ContextView {
    Simple(Seq<char>),
    Group(GroupView),
}

impl View for Location {
    type V = (Seq<char>, u32);

    open spec fn view(&self) -> (Seq<char>, u32) {
        (self.file@, self.line)
    }
}

pub open spec fn opt_string_view(o: Option<String>) -> Option<Seq<char>> {
    match o {
        Some(s) => Some(s@),
        None => None,
    }
}

pub open spec fn opt_location_view(o: Option<Location>) -> Option<(Seq<char>, u32)> {
    match o {
        Some(l) => Some(l@),
        None => None,
    }
}

impl View for GroupContext {
    type V = GroupView;

    open spec fn view(&self) -> GroupView {
        GroupView {
            message: opt_string_view(self.message),
            location: opt_location_view(self.location),
            tags: self.tags@,
            metadata: self.metadata@,
        }
    }
}

impl View for ErrorContext {
    type V = ContextView;

    open spec fn view(&self) -> ContextView {
        match self {
            ErrorContext::Simple(s) => ContextView::Simple(s@),
            ErrorContext::Group(g) => ContextView::Group(g@),
        }
    }
}

/// The group view with no message, no location, no tags and no metadata.
pub open spec fn empty_group() -> GroupView {
    GroupView {
        message: None,
        location: None,
        tags: Seq::empty(),
        metadata: Seq::empty(),
    }
}

/// `"at "`
pub open spec fn at_prefix() -> Seq<char> {
    seq!['a', 't', ' ']
}

/// `", "`
pub open spec fn comma_sep() -> Seq<char> {
    seq![',', ' ']
}

/// `"[a, b]"` for tags `a`, `b`.
pub open spec fn tags_text(tags: Seq<Seq<char>>) -> Seq<char> {
    seq!['['] + join(tags, comma_sep()) + seq![']']
}

/// `"at file:line"`.
pub open spec fn location_text(file: Seq<char>, line: u32) -> Seq<char> {
    at_prefix() + file + seq![':'] + decimal(line as nat)
}

/// `"key=value"`.
pub open spec fn pair_text(kv: (Seq<char>, Seq<char>)) -> Seq<char> {
    kv.0 + seq!['='] + kv.1
}

/// `"(k1=v1, k2=v2)"`.
pub open spec fn metadata_text(meta: Seq<(Seq<char>, Seq<char>)>) -> Seq<char> {
    seq!['('] + join(meta.map_values(|kv: (Seq<char>, Seq<char>)| pair_text(kv)), comma_sep()) + seq![')']
}

/// The parts a group context renders to, in order: tags, location (with the
/// message attached after a colon when both are present), the message on its
/// own when there is no location, and metadata. Absent pieces contribute no part.
pub open spec fn group_parts(g: GroupView) -> Seq<Seq<char>> {
    let tag_part: Seq<Seq<char>> = if g.tags.len() > 0 { seq![tags_text(g.tags)] } else { Seq::empty() };
    let loc_part: Seq<Seq<char>> = match g.location {
        Some(loc) => match g.message {
            Some(m) => seq![location_text(loc.0, loc.1) + seq![':', ' '] + m],
            None => seq![location_text(loc.0, loc.1)],
        },
        None => match g.message {
            Some(m) => seq![m],
            None => Seq::empty(),
        },
    };
    let meta_part: Seq<Seq<char>> = if g.metadata.len() > 0 { seq![metadata_text(g.metadata)] } else { Seq::empty() };
    tag_part + loc_part + meta_part
}

/// The rendered text of a context: a simple message as is, a group as its
/// parts joined by single spaces.
pub open spec fn message_text(c: ContextView) -> Seq<char> {
    match c {
        ContextView::Simple(s) => s,
        ContextView::Group(g) => join(group_parts(g), seq![' ']),
    }
}

impl Location {
    /// A copy of this location.
    pub fn duplicate(&self) -> (r: Location)
        ensures
            r@ == self@,
    {
        Location { file: self.file.clone(), line: self.line }
    }
}

impl GroupContext {
    /// A group context with no message, location, tags or metadata.
    pub fn empty() -> (r: GroupContext)
        ensures
            r@ == empty_group(),
    {
        GroupContext { message: None, location: None, tags: TagVec::new(), metadata: MetaVec::new() }
    }

    /// A copy of this group context.
    pub fn duplicate(&self) -> (r: GroupContext)
        ensures
            r@ == self@,
    {
        let message = match &self.message {
            Some(m) => Some(m.clone()),
            None => None,
        };
        let location = match &self.location {
            Some(l) => Some(l.duplicate()),
            None => None,
        };
        GroupContext { message, location, tags: self.tags.duplicate(), metadata: self.metadata.duplicate() }
    }
}

impl GroupContext {
    /// The tags, in the order they were added.
    pub fn tag_list(&self) -> (r: Vec<String>)
        ensures
            r@.map_values(|t: String| t@) == self.tags@,
    {
        let mut r: Vec<String> = Vec::new();
        let mut i: usize = 0;
        while i < self.tags.len()
            invariant
                i <= self.tags@.len(),
                r@.len() == i,
                forall|j: int| 0 <= j < i ==> #[trigger] r@[j]@ == self.tags@[j],
            decreases self.tags@.len() - i,
        {
            let t = self.tags.get(i).clone();
            r.push(t);
            i = i + 1;
        }
        assert(r@.map_values(|t: String| t@) =~= self.tags@);
        r
    }

    /// The metadata pairs, in the order they were added.
    pub fn metadata_list(&self) -> (r: Vec<(String, String)>)
        ensures
            r@.map_values(|kv: (String, String)| (kv.0@, kv.1@)) == self.metadata@,
    {
        let mut r: Vec<(String, String)> = Vec::new();
        let mut i: usize = 0;
        while i < self.metadata.len()
            invariant
                i <= self.metadata@.len(),
                r@.len() == i,
                forall|j: int| 0 <= j < i ==> (#[trigger] r@[j]).0@ == self.metadata@[j].0 && r@[j].1@ == self.metadata@[j].1,
            decreases self.metadata@.len() - i,
        {
            let (k, v) = self.metadata.get(i);
            r.push((k.clone(), v.clone()));
            i = i + 1;
        }
        assert(r@.map_values(|kv: (String, String)| (kv.0@, kv.1@)) =~= self.metadata@);
        r
    }

    /// A group context made of the given parts, tags and metadata in order.
    pub fn from_parts(
        message: Option<String>,
        location: Option<Location>,
        tags: Vec<String>,
        metadata: Vec<(String, String)>,
    ) -> (r: GroupContext)
        ensures
            r@ == (GroupView {
                message: opt_string_view(message),
                location: opt_location_view(location),
                tags: tags@.map_values(|t: String| t@),
                metadata: metadata@.map_values(|kv: (String, String)| (kv.0@, kv.1@)),
            }),
    {
        let mut g = GroupContext { message, location, tags: TagVec::new(), metadata: MetaVec::new() };
        let mut i: usize = 0;
        while i < tags.len()
            invariant
                i <= tags@.len(),
                g.tags@.len() == i,
                forall|k: int| 0 <= k < i ==> #[trigger] g.tags@[k] == tags@[k]@,
                g.message == message,
                g.location == location,
                g.metadata@ == Seq::<(Seq<char>, Seq<char>)>::empty(),
            decreases tags@.len() - i,
        {
            g.tags.push(tags[i].clone());
            i = i + 1;
        }
        assert(g.tags@ =~= tags@.map_values(|t: String| t@));
        let mut j: usize = 0;
        while j < metadata.len()
            invariant
                j <= metadata@.len(),
                g.tags@ == tags@.map_values(|t: String| t@),
                g.message == message,
                g.location == location,
                g.metadata@.len() == j,
                forall|k: int| 0 <= k < j ==> (#[trigger] g.metadata@[k]).0 == metadata@[k].0@
                    && g.metadata@[k].1 == metadata@[k].1@,
            decreases metadata@.len() - j,
        {
            let (k, v) = &metadata[j];
            g.metadata.push(k.clone(), v.clone());
            j = j + 1;
        }
        assert(g.metadata@ =~= metadata@.map_values(|kv: (String, String)| (kv.0@, kv.1@)));
        g
    }
}

/// Appends `part` with `sep` in front of it unless `acc` is still empty.
fn append_joined(acc: &mut String, first: bool, part: &str, sep: &str)
    ensures
        final(acc)@ == if first { old(acc)@ + part@ } else { old(acc)@ + sep@ + part@ },
{
    if !first {
        acc.append(sep);
    }
    acc.append(part);
}

fn tags_to_text(tags: &TagVec) -> (r: String)
    ensures
        r@ == tags_text(tags@),
{
    let mut r = string_of("[");
    let mut i: usize = 0;
    let ghost items = tags@;
    proof { reveal_strlit("["); }
    while i < tags.len()
        invariant
            i <= items.len(),
            items == tags@,
            r@ == seq!['['] + join(items.take(i as int), comma_sep()),
        decreases items.len() - i,
    {
        proof { reveal_strlit(", "); }
        assert(items.take(i + 1).drop_last() == items.take(i as int));
        let ghost before = r@;
        append_joined(&mut r, i == 0, tags.get(i).as_str(), ", ");
        if i > 0 {
            assert(r@ == seq!['['] + (join(items.take(i as int), comma_sep()) + comma_sep() + items[i as int]));
        } else {
            assert(join(items.take(1), comma_sep()) == items[0]);
        }
        i = i + 1;
    }
    proof { reveal_strlit("]"); }
    assert(items.take(items.len() as int) == items);
    r.append("]");
    r
}

fn metadata_to_text(meta: &MetaVec) -> (r: String)
    ensures
        r@ == metadata_text(meta@),
{
    let ghost items = meta@;
    let ghost texts = items.map_values(|kv: (Seq<char>, Seq<char>)| pair_text(kv));
    let mut r = string_of("(");
    proof { reveal_strlit("("); }
    let mut i: usize = 0;
    while i < meta.len()
        invariant
            i <= items.len(),
            items == meta@,
            texts == items.map_values(|kv: (Seq<char>, Seq<char>)| pair_text(kv)),
            r@ == seq!['('] + join(texts.take(i as int), comma_sep()),
        decreases items.len() - i,
    {
        proof { reveal_strlit(", "); reveal_strlit("="); }
        assert(texts.take(i + 1).drop_last() == texts.take(i as int));
        let (k, v) = meta.get(i);
        let mut kv = k.clone();
        kv.append("=");
        kv.append(v.as_str());
        assert(kv@ == texts[i as int]);
        append_joined(&mut r, i == 0, kv.as_str(), ", ");
        if i > 0 {
            assert(r@ == seq!['('] + (join(texts.take(i as int), comma_sep()) + comma_sep() + texts[i as int]));
        } else {
            assert(join(texts.take(1), comma_sep()) == texts[0]);
        }
        i = i + 1;
    }
    proof { reveal_strlit(")"); }
    assert(texts.take(items.len() as int) == texts);
    r.append(")");
    r
}

impl ErrorContext {
    /// Creates a plain message context.
    pub fn new(message: &str) -> (r: ErrorContext)
        ensures
            r@ == ContextView::Simple(message@),
    {
        ErrorContext::Simple(string_of(message))
    }

    /// Captures the file/line pair where an error occurred.
    pub fn location(file: &str, line: u32) -> (r: ErrorContext)
        ensures
            r@ == ContextView::Group((GroupView { location: Some((file@, line)), ..empty_group() })),
    {
        let mut g = GroupContext::empty();
        g.location = Some(Location { file: string_of(file), line });
        ErrorContext::Group(Box::new(g))
    }

    /// Annotates the error with a short tag (e.g. `auth`, `cache`).
    pub fn tag(tag: &str) -> (r: ErrorContext)
        ensures
            r@ == ContextView::Group((GroupView { tags: seq![tag@], ..empty_group() })),
    {
        let mut g = GroupContext::empty();
        g.tags.push(string_of(tag));
        ErrorContext::Group(Box::new(g))
    }

    /// Adds arbitrary key/value metadata for downstream logging/filters.
    pub fn metadata(key: &str, value: &str) -> (r: ErrorContext)
        ensures
            r@ == ContextView::Group((GroupView { metadata: seq![(key@, value@)], ..empty_group() })),
    {
        let mut g = GroupContext::empty();
        g.metadata.push(string_of(key), string_of(value));
        ErrorContext::Group(Box::new(g))
    }

    /// A copy of this context.
    pub fn duplicate(&self) -> (r: ErrorContext)
        ensures
            r@ == self@,
    {
        match self {
            ErrorContext::Simple(s) => ErrorContext::Simple(s.clone()),
            ErrorContext::Group(g) => ErrorContext::Group(Box::new(g.duplicate())),
        }
    }

    /// Renders the context as a human-friendly string.
    ///
    /// A simple context renders as its message. A group renders its tags as
    /// `[a, b]`, its location as `at file:line` (followed by `: message` when it
    /// also has a message), its message on its own when it has no location, and
    /// its metadata as `(k=v, ...)`, the present parts separated by spaces.
    pub fn message(&self) -> (r: String)
        ensures
            r@ == message_text(self@),
    {
        match self {
            ErrorContext::Simple(s) => s.clone(),
            ErrorContext::Group(g) => Self::group_message(g),
        }
    }

    fn group_message(g: &GroupContext) -> (r: String)
        ensures
            r@ == join(group_parts(g@), seq![' ']),
    {
        let ghost gv = g@;
        let mut parts: Vec<String> = Vec::new();
        let ghost mut expected: Seq<Seq<char>> = Seq::empty();
        if g.tags.len() > 0 {
            parts.push(tags_to_text(&g.tags));
        }
        let ghost tag_part: Seq<Seq<char>> = if gv.tags.len() > 0 { seq![tags_text(gv.tags)] } else { Seq::empty() };
        assert(parts@.map_values(|p: String| p@) == tag_part);
        let ghost loc_part: Seq<Seq<char>> = match gv.location {
            Some(loc) => match gv.message {
                Some(m) => seq![location_text(loc.0, loc.1) + seq![':', ' '] + m],
                None => seq![location_text(loc.0, loc.1)],
            },
            None => match gv.message {
                Some(m) => seq![m],
                None => Seq::empty(),
            },
        };
        match &g.location {
            Some(loc) => {
                let mut s = string_of("at ");
                proof { reveal_strlit("at "); reveal_strlit(":"); }
                s.append(loc.file.as_str());
                s.append(":");
                let line = u32_to_decimal(loc.line);
                s.append(line.as_str());
                assert(s@ == location_text(loc.file@, loc.line));
                assert(s@.subrange(0, 3) == at_prefix());
                let ghost before = parts@;
                parts.push(s);
                assert(parts@.map_values(|p: String| p@) == before.map_values(|p: String| p@).push(location_text(loc.file@, loc.line)));
                match &g.message {
                    Some(msg) => {
                        let ghost mid = parts@;
                        Self::add_message_to_parts(&mut parts, msg.as_str(), true);
                        assert(parts@.drop_last() == mid.drop_last());
                        assert(mid.drop_last() == before);
                        assert(parts@.map_values(|p: String| p@) == before.map_values(|p: String| p@).push(location_text(loc.file@, loc.line) + seq![':', ' '] + msg@));
                    },
                    None => {},
                }
            },
            None => {
                match &g.message {
                    Some(msg) => {
                        let ghost before = parts@;
                        Self::add_message_to_parts(&mut parts, msg.as_str(), false);
                        assert(parts@.map_values(|p: String| p@) == before.map_values(|p: String| p@).push(msg@));
                    },
                    None => {},
                }
            },
        }
        assert(parts@.map_values(|p: String| p@) == tag_part + loc_part);
        if g.metadata.len() > 0 {
            parts.push(metadata_to_text(&g.metadata));
        }
        assert(parts@.map_values(|p: String| p@) == group_parts(gv));
        let sp = " ";
        proof { reveal_strlit(" "); }
        assert(sp@ == seq![' ']);
        join_strings(&parts, sp)
    }

    /// Appends `msg` to the last part when `has_location` holds and that part
    /// begins with `"at "`; otherwise pushes `msg` as a part of its own.
    fn add_message_to_parts(parts: &mut Vec<String>, msg: &str, has_location: bool)
        ensures
            ({
                let merge = has_location && old(parts)@.len() > 0
                    && old(parts)@.last()@.len() >= 3
                    && old(parts)@.last()@.subrange(0, 3) == at_prefix();
                if merge {
                    final(parts)@.len() == old(parts)@.len()
                    && final(parts)@.drop_last() == old(parts)@.drop_last()
                    && final(parts)@.last()@ == old(parts)@.last()@ + seq![':', ' '] + msg@
                } else {
                    final(parts)@ == old(parts)@.push(final(parts)@.last())
                    && final(parts)@.last()@ == msg@
                }
            }),
    {
        let n = parts.len();
        let should_merge = has_location && n > 0 && starts_with_at(parts[n - 1].as_str());
        if should_merge {
            let mut last = parts.pop().unwrap();
            proof { reveal_strlit(": "); }
            last.append(": ");
            last.append(msg);
            parts.push(last);
        } else {
            parts.push(string_of(msg));
        }
    }
}

/// Whether `s` begins with `"at "`.
fn starts_with_at(s: &str) -> (r: bool)
    ensures
        r == (s@.len() >= 3 && s@.subrange(0, 3) == at_prefix()),
{
    let n = s.unicode_len();
    if n < 3 {
        return false;
    }
    let r = s.get_char(0) == 'a' && s.get_char(1) == 't' && s.get_char(2) == ' ';
    assert(r ==> s@.subrange(0, 3) =~= at_prefix());
    assert(s@.subrange(0, 3) == at_prefix() ==> s@[0] == 'a' && s@[1] == 't' && s@[2] == ' ');
    r
}

/// Builder for creating complex [`ErrorContext::Group`] entries.
#[derive(Debug)]
pub struct ErrorContextBuilder {
    context: GroupContext,
}

impl View for ErrorContextBuilder {
    type V = GroupView;

    closed spec fn view(&self) -> GroupView {
        self.context@
    }
}

impl ErrorContextBuilder {
    /// Creates a new builder holding an empty group.
    pub fn new() -> (r: ErrorContextBuilder)
        ensures
            r@ == empty_group(),
    {
        ErrorContextBuilder { context: GroupContext::empty() }
    }

    /// Sets (or replaces) the message for this context.
    pub fn message(self, msg: &str) -> (r: ErrorContextBuilder)
        ensures
            r@ == (GroupView { message: Some(msg@), ..self@ }),
    {
        let mut s = self;
        s.context.message = Some(string_of(msg));
        s
    }

    /// Sets (or replaces) the source location for this context.
    pub fn location(self, file: &str, line: u32) -> (r: ErrorContextBuilder)
        ensures
            r@ == (GroupView { location: Some((file@, line)), ..self@ }),
    {
        let mut s = self;
        s.context.location = Some(Location { file: string_of(file), line });
        s
    }

    /// Adds a tag to this context.
    pub fn tag(self, tag: &str) -> (r: ErrorContextBuilder)
        ensures
            r@ == (GroupView { tags: self@.tags.push(tag@), ..self@ }),
    {
        let mut s = self;
        s.context.tags.push(string_of(tag));
        s
    }

    /// Adds a metadata key-value pair to this context.
    pub fn metadata(self, key: &str, value: &str) -> (r: ErrorContextBuilder)
        ensures
            r@ == (GroupView { metadata: self@.metadata.push((key@, value@)), ..self@ }),
    {
        let mut s = self;
        s.context.metadata.push(string_of(key), string_of(value));
        s
    }

    /// Builds the final [`ErrorContext::Group`].
    pub fn build(self) -> (r: ErrorContext)
        ensures
            r@ == ContextView::Group(self@),
    {
        ErrorContext::Group(Box::new(self.context))
    }
}

impl ErrorContext {
    /// Creates a new [`ErrorContextBuilder`] for constructing complex contexts.
    pub fn builder() -> (r: ErrorContextBuilder)
        ensures
            r@ == empty_group(),
    {
        ErrorContextBuilder::new()
    }

    /// Creates a group context builder initialized with a message.
    pub fn group(message: &str) -> (r: ErrorContextBuilder)
        ensures
            r@ == (GroupView { message: Some(message@), ..empty_group() }),
    {
        ErrorContextBuilder::new().message(message)
    }
}

} // verus!
