//! Gathering the inline content of a paragraph. Text tokens become text inlines; a text token
//! that continues the text before a run of index markers (which have no width) is merged into
//! that text instead, so that a marker inside a word does not split it. When the paragraph is
//! closed, its blank inlines at either end are dropped, and it spans its first to its last
//! inline.
//!
//! Inlines other than text carry a payload of any type `I`: what they are does not matter
//! here, only whether they are index markers.

use vstd::prelude::*;
use vstd::string::*;
use crate::evaluator::context::{EvalContext, NodeId};
use crate::project::source_set::SourceId;
use crate::strs::{str_trim, to_owned_string, trim_chars};
use crate::syntax::span::Span;

verus! {

/// What an inline is: text, an index marker, or anything else.
#[derive(Debug, Clone, PartialEq)]
pub enum InlineKind<I> {
    /// Running text.
    Text(String),
    /// An index marker, which has no width.
    Index(I),
    /// Any other inline.
    Other(I),
}

/// An inline with its node id.
#[derive(Debug, Clone, PartialEq)]
pub struct Inline<I> {
    /// The node id.
    pub id: NodeId,
    /// What the inline is.
    pub kind: InlineKind<I>,
}

/// The text of a text inline.
pub open spec fn inline_text<I>(x: Inline<I>) -> Seq<char> {
    match x.kind {
        InlineKind::Text(t) => t@,
        _ => Seq::empty(),
    }
}

/// The inlines of a paragraph being gathered: where the last text inline stands and where its
/// text ends, and the position at which a text token continues it across index markers.
#[derive(Debug)]
pub struct InlineSink<I> {
    inlines: Vec<Inline<I>>,
    last_text: Option<(usize, u32)>,
    armed_gap: Option<u32>,
}

impl<I> InlineSink<I> {
    /// The inlines gathered so far.
    pub closed spec fn spec_inlines(&self) -> Seq<Inline<I>> {
        self.inlines@
    }

    /// The position of the last text inline and the end of its text, while nothing else
    /// followed it.
    pub closed spec fn spec_last_text(&self) -> Option<(usize, u32)> {
        self.last_text
    }

    /// Where a text token must start to continue the last text across index markers.
    pub closed spec fn spec_armed_gap(&self) -> Option<u32> {
        self.armed_gap
    }

    /// The last text position is a text inline.
    pub open spec fn wf(&self) -> bool {
        self.spec_last_text() matches Some((at, _)) ==> at < self.spec_inlines().len()
            && self.spec_inlines()[at as int].kind is Text
    }

    /// An empty sink.
    pub fn new() -> (s: Self)
        ensures
            s.wf(),
            s.spec_inlines().len() == 0,
            s.spec_last_text() is None,
            s.spec_armed_gap() is None,
    {
        InlineSink { inlines: Vec::new(), last_text: None, armed_gap: None }
    }

    /// Adds a text token of `text` at `span`: merged into the last text inline when the token
    /// starts where index markers after it ended, a new text inline (with a new id) otherwise.
    pub fn push_text_token(&mut self, ctx: &mut EvalContext, span: Span, text: &str)
        requires
            old(self).wf(),
            old(ctx).spec_spans().len() < usize::MAX,
            forall|j: int| 0 <= j < old(self).spec_inlines().len() ==> old(ctx).has(#[trigger] old(self).spec_inlines()[j].id),
        ensures
            final(self).wf(),
            final(self).spec_armed_gap() is None,
            final(ctx).spec_source_id() == old(ctx).spec_source_id(),
            forall|j: int| 0 <= j < final(self).spec_inlines().len() ==> final(ctx).has(#[trigger] final(self).spec_inlines()[j].id),
            text_pushed(*old(self), *final(self), old(ctx).spec_spans(), final(ctx).spec_spans(), old(ctx).spec_source_id(), span, text@),
    {
        match (self.last_text, self.armed_gap) {
            (Some((at, _)), Some(gap)) => {
                if gap == span.start {
                    let id = self.inlines[at].id;
                    let mut merged = match &self.inlines[at].kind {
                        InlineKind::Text(t) => t.clone(),
                        _ => String::new(),
                    };
                    merged.append(text);
                    let ghost before = self.inlines@;
                    self.inlines.set(at, Inline { id, kind: InlineKind::Text(merged) });
                    let start = ctx.span_of(id).start;
                    ctx.set_span(id, Span { start, end: span.end });
                    self.last_text = Some((at, span.end));
                    self.armed_gap = None;
                    proof {
                        assert forall|j: int| 0 <= j < self.inlines@.len() implies ctx.has(#[trigger] self.inlines@[j].id) by {
                            if j != at {
                                assert(self.inlines@[j] == before[j]);
                            }
                        }
                    }
                    return;
                }
            },
            _ => {},
        }
        let id = ctx.allocate(span);
        let ghost before = self.inlines@;
        self.inlines.push(Inline { id, kind: InlineKind::Text(to_owned_string(text)) });
        self.last_text = Some(((self.inlines.len() - 1), span.end));
        self.armed_gap = None;
        assert(self.inlines@.drop_last() =~= before);
    }

    /// Adds the result `inline` of an inline command at `span`. An index marker keeps the text
    /// before it open: a text token may continue it from the marker's end when the marker
    /// starts where that text (or the previous marker) ended. Anything else closes it.
    pub fn push_inline_result(&mut self, span: Span, inline: Inline<I>)
        requires
            old(self).wf(),
        ensures
            final(self).wf(),
            result_pushed(*old(self), *final(self), span, inline),
    {
        match inline.kind {
            InlineKind::Index(_) => {
                let continues = match self.armed_gap {
                    Some(gap) => gap == span.start,
                    None => match self.last_text {
                        Some((_, end)) => end == span.start,
                        None => false,
                    },
                };
                self.armed_gap = if continues {
                    Some(span.end)
                } else {
                    None
                };
            },
            _ => {
                self.last_text = None;
                self.armed_gap = None;
            },
        }
        self.inlines.push(inline);
    }

    /// Adds an inline that is neither a text token nor a command's result; it closes the text
    /// before it.
    pub fn push(&mut self, inline: Inline<I>)
        ensures
            final(self).wf(),
            final(self).spec_inlines() == old(self).spec_inlines().push(inline),
            final(self).spec_last_text() is None,
            final(self).spec_armed_gap() is None,
    {
        self.last_text = None;
        self.armed_gap = None;
        self.inlines.push(inline);
    }

    /// The inlines gathered so far.
    pub fn inlines(&self) -> (r: &Vec<Inline<I>>)
        ensures
            r@ == self.spec_inlines(),
    {
        &self.inlines
    }

    /// The inlines gathered, leaving the sink empty.
    pub fn take(&mut self) -> (v: Vec<Inline<I>>)
        ensures
            v@ == old(self).spec_inlines(),
            final(self).wf(),
            final(self).spec_inlines().len() == 0,
            final(self).spec_last_text() is None,
            final(self).spec_armed_gap() is None,
    {
        self.last_text = None;
        self.armed_gap = None;
        let mut out: Vec<Inline<I>> = Vec::new();
        std::mem::swap(&mut out, &mut self.inlines);
        out
    }
}

/// What adding a text token of `text` at `span` does: when the token starts where the index
/// markers after the last text inline ended, the text joins that inline and its span reaches
/// the token's end; otherwise a new text inline is added with the next id.
pub open spec fn text_pushed<I>(
    before: InlineSink<I>,
    after: InlineSink<I>,
    spans_before: Seq<Span>,
    spans_after: Seq<Span>,
    source_id: SourceId,
    span: Span,
    text: Seq<char>,
) -> bool {
    match (before.spec_last_text(), before.spec_armed_gap()) {
        (Some((at, _)), Some(gap)) if gap == span.start => {
            let old_x = before.spec_inlines()[at as int];
            &&& after.spec_inlines().len() == before.spec_inlines().len()
            &&& forall|j: int| 0 <= j < before.spec_inlines().len() && j != at ==> #[trigger] after.spec_inlines()[j]
                == before.spec_inlines()[j]
            &&& after.spec_inlines()[at as int].id == old_x.id
            &&& after.spec_inlines()[at as int].kind is Text
            &&& inline_text(after.spec_inlines()[at as int]) == inline_text(old_x) + text
            &&& spans_after == spans_before.update(
                old_x.id.index as int,
                Span { start: spans_before[old_x.id.index as int].start, end: span.end },
            )
            &&& after.spec_last_text() == Some((at, span.end))
        },
        _ => {
            &&& after.spec_inlines().len() == before.spec_inlines().len() + 1
            &&& after.spec_inlines().drop_last() == before.spec_inlines()
            &&& after.spec_inlines().last().id == (NodeId {
                source_id: source_id,
                index: spans_before.len() as usize,
            })
            &&& after.spec_inlines().last().kind is Text
            &&& inline_text(after.spec_inlines().last()) == text
            &&& spans_after == spans_before.push(span)
            &&& after.spec_last_text() == Some((before.spec_inlines().len() as usize, span.end))
        },
    }
}

/// What adding the result `inline` of an inline command at `span` does: the inline is
/// appended; an index marker keeps the text before it open (a text token may continue it from
/// the marker's end when the marker starts where that text, or the previous marker, ended);
/// anything else closes it.
pub open spec fn result_pushed<I>(before: InlineSink<I>, after: InlineSink<I>, span: Span, inline: Inline<I>) -> bool {
    &&& after.spec_inlines() == before.spec_inlines().push(inline)
    &&& match inline.kind {
        InlineKind::Index(_) => {
            &&& after.spec_last_text() == before.spec_last_text()
            &&& after.spec_armed_gap() == if (match before.spec_armed_gap() {
                Some(gap) => gap == span.start,
                None => before.spec_last_text() matches Some((_, end)) && end == span.start,
            }) {
                Some(span.end)
            } else {
                None
            }
        },
        _ => after.spec_last_text() is None && after.spec_armed_gap() is None,
    }
}

/// An inline that holds nothing but white space.
pub open spec fn is_blank<I>(x: Inline<I>) -> bool {
    x.kind is Text && trim_chars(inline_text(x)).len() == 0
}

/// `s` without its leading blank inlines.
pub open spec fn drop_leading_blanks<I>(s: Seq<Inline<I>>) -> Seq<Inline<I>>
    decreases s.len(),
{
    if s.len() > 0 && is_blank(s[0]) {
        drop_leading_blanks(s.drop_first())
    } else {
        s
    }
}

/// `s` without its trailing blank inlines.
pub open spec fn drop_trailing_blanks<I>(s: Seq<Inline<I>>) -> Seq<Inline<I>>
    decreases s.len(),
{
    if s.len() > 0 && is_blank(s.last()) {
        drop_trailing_blanks(s.drop_last())
    } else {
        s
    }
}

/// `s` without the blank inlines at either end.
pub open spec fn trim_blanks<I>(s: Seq<Inline<I>>) -> Seq<Inline<I>> {
    drop_trailing_blanks(drop_leading_blanks(s))
}

/// Whether `x` holds nothing but white space.
pub fn inline_is_blank<I>(x: &Inline<I>) -> (b: bool)
    ensures
        b == is_blank(*x),
{
    match &x.kind {
        InlineKind::Text(t) => str_trim(t.as_str()).is_empty(),
        _ => false,
    }
}

/// A paragraph being gathered: the id reserved for it, and its inlines.
///
/// The id is reserved before the first inline is evaluated, so that ids follow the order of
/// the source; a paragraph that turns out blank leaves its id unused.
#[derive(Debug)]
pub struct ParagraphBuffer<I> {
    id: Option<NodeId>,
    sink: InlineSink<I>,
}

impl<I> ParagraphBuffer<I> {
    /// The id reserved for the paragraph, if any.
    pub closed spec fn spec_id(&self) -> Option<NodeId> {
        self.id
    }

    /// The inline sink.
    pub closed spec fn spec_sink(&self) -> InlineSink<I> {
        self.sink
    }

    /// The inlines gathered so far.
    pub open spec fn spec_inlines(&self) -> Seq<Inline<I>> {
        self.spec_sink().spec_inlines()
    }

    /// The sink is well formed, and an id is reserved once an inline is gathered.
    pub open spec fn wf(&self) -> bool {
        &&& self.spec_sink().wf()
        &&& self.spec_inlines().len() > 0 ==> self.spec_id() is Some
    }

    /// The reserved id and every gathered inline were issued by `ctx`.
    pub open spec fn issued_by(&self, ctx: &EvalContext) -> bool {
        &&& self.spec_id() matches Some(id) ==> ctx.has(id)
        &&& forall|j: int| 0 <= j < self.spec_inlines().len() ==> ctx.has(#[trigger] self.spec_inlines()[j].id)
    }

    /// An empty paragraph with no id reserved.
    pub fn new() -> (b: Self)
        ensures
            b.wf(),
            b.spec_id() is None,
            b.spec_inlines().len() == 0,
            b.spec_sink().spec_last_text() is None,
            b.spec_sink().spec_armed_gap() is None,
    {
        ParagraphBuffer { id: None, sink: InlineSink::new() }
    }

    /// Reserves an id for the paragraph at the start of `span`, unless one is reserved.
    pub fn reserve(&mut self, ctx: &mut EvalContext, span: Span)
        requires
            old(self).wf(),
            old(ctx).spec_spans().len() < usize::MAX,
        ensures
            final(self).wf(),
            final(self).spec_sink() == old(self).spec_sink(),
            final(ctx).spec_source_id() == old(ctx).spec_source_id(),
            old(self).spec_id() is Some ==> final(self).spec_id() == old(self).spec_id()
                && final(ctx).spec_spans() == old(ctx).spec_spans(),
            old(self).spec_id() is None ==> final(self).spec_id() == Some(NodeId {
                source_id: old(ctx).spec_source_id(),
                index: old(ctx).spec_spans().len() as usize,
            }) && final(ctx).spec_spans() == old(ctx).spec_spans().push(Span { start: span.start, end: span.start }),
    {
        if self.id.is_none() {
            self.id = Some(ctx.allocate(Span { start: span.start, end: span.start }));
        }
    }

    /// Adds a text token of `text` at `span` (see [`InlineSink::push_text_token`]).
    pub fn push_text_token(&mut self, ctx: &mut EvalContext, span: Span, text: &str)
        requires
            old(self).wf(),
            old(self).spec_id() is Some,
            old(self).issued_by(old(ctx)),
            old(ctx).spec_spans().len() < usize::MAX,
        ensures
            final(self).wf(),
            final(self).spec_id() == old(self).spec_id(),
            final(self).issued_by(final(ctx)),
            final(ctx).spec_source_id() == old(ctx).spec_source_id(),
            final(ctx).spec_spans().len() >= old(ctx).spec_spans().len(),
            text_pushed(
                old(self).spec_sink(),
                final(self).spec_sink(),
                old(ctx).spec_spans(),
                final(ctx).spec_spans(),
                old(ctx).spec_source_id(),
                span,
                text@,
            ),
    {
        self.sink.push_text_token(ctx, span, text);
    }

    /// Adds the result `inline` of an inline command at `span` (see
    /// [`InlineSink::push_inline_result`]).
    pub fn push_inline_result(&mut self, span: Span, inline: Inline<I>)
        requires
            old(self).wf(),
            old(self).spec_id() is Some,
        ensures
            final(self).wf(),
            final(self).spec_id() == old(self).spec_id(),
            result_pushed(old(self).spec_sink(), final(self).spec_sink(), span, inline),
    {
        self.sink.push_inline_result(span, inline);
    }

    /// Adds any other inline; it closes the text before it.
    pub fn push(&mut self, inline: Inline<I>)
        requires
            old(self).wf(),
            old(self).spec_id() is Some,
        ensures
            final(self).wf(),
            final(self).spec_id() == old(self).spec_id(),
            final(self).spec_inlines() == old(self).spec_inlines().push(inline),
            final(self).spec_sink().spec_last_text() is None,
            final(self).spec_sink().spec_armed_gap() is None,
    {
        self.sink.push(inline);
    }

    /// Whether the paragraph holds anything but white space.
    pub fn has_content(&self) -> (b: bool)
        ensures
            b == exists|j: int| 0 <= j < self.spec_inlines().len() && !is_blank(#[trigger] self.spec_inlines()[j]),
    {
        let inlines = self.sink.inlines();
        let n = inlines.len();
        let mut i: usize = 0;
        while i < n
            invariant
                inlines@ == self.spec_inlines(),
                n == self.spec_inlines().len(),
                i <= n,
                forall|j: int| 0 <= j < i ==> is_blank(#[trigger] self.spec_inlines()[j]),
            decreases n - i,
        {
            if !inline_is_blank(&inlines[i]) {
                return true;
            }
            i = i + 1;
        }
        false
    }

    /// Closes the paragraph. Its blank inlines at either end are dropped; if anything is left,
    /// the paragraph is returned with its reserved id, and that id is given the span from the
    /// start of its first inline to the end of its last. The buffer is left empty, with no id
    /// reserved.
    pub fn flush(&mut self, ctx: &mut EvalContext) -> (r: Option<(NodeId, Vec<Inline<I>>)>)
        requires
            old(self).wf(),
            old(self).issued_by(old(ctx)),
        ensures
            final(self).wf(),
            final(self).spec_id() is None,
            final(self).spec_inlines().len() == 0,
            final(self).spec_sink().spec_last_text() is None,
            final(self).spec_sink().spec_armed_gap() is None,
            final(ctx).spec_source_id() == old(ctx).spec_source_id(),
            ({
                let kept = trim_blanks(old(self).spec_inlines());
                if kept.len() == 0 {
                    r is None && final(ctx).spec_spans() == old(ctx).spec_spans()
                } else {
                    let id = old(self).spec_id()->0;
                    &&& r matches Some((rid, v)) && rid == id && v@ == kept
                    &&& final(ctx).spec_spans() == old(ctx).spec_spans().update(
                        id.index as int,
                        Span {
                            start: old(ctx).spec_spans()[kept[0].id.index as int].start,
                            end: old(ctx).spec_spans()[kept.last().id.index as int].end,
                        },
                    )
                }
            }),
    {
        let reserved = self.id;
        self.id = None;
        let mut v = self.sink.take();
        let ghost all = v@;
        let n = v.len();
        let mut a: usize = 0;
        assert(all.subrange(0, n as int) =~= all);
        while a < n
            invariant
                v@ == all,
                n == all.len(),
                a <= n,
                drop_leading_blanks(all) == drop_leading_blanks(all.subrange(a as int, n as int)),
            ensures
                a <= n,
                a < n ==> !is_blank(all[a as int]),
                drop_leading_blanks(all) == drop_leading_blanks(all.subrange(a as int, n as int)),
            decreases n - a,
        {
            if !inline_is_blank(&v[a]) {
                break;
            }
            proof {
                let s = all.subrange(a as int, n as int);
                assert(s.drop_first() =~= all.subrange(a + 1, n as int));
            }
            a = a + 1;
        }
        proof {
            let s = all.subrange(a as int, n as int);
            assert(drop_leading_blanks(s) == s);
        }
        let mut b: usize = n;
        while b > a
            invariant
                v@ == all,
                n == all.len(),
                a <= b <= n,
                trim_blanks(all) == drop_trailing_blanks(all.subrange(a as int, b as int)),
            ensures
                a <= b <= n,
                b > a ==> !is_blank(all[b - 1]),
                trim_blanks(all) == drop_trailing_blanks(all.subrange(a as int, b as int)),
            decreases b - a,
        {
            if !inline_is_blank(&v[b - 1]) {
                break;
            }
            proof {
                let s = all.subrange(a as int, b as int);
                assert(s.last() == all[b - 1]);
                assert(s.drop_last() =~= all.subrange(a as int, b - 1));
            }
            b = b - 1;
        }
        proof {
            let s = all.subrange(a as int, b as int);
            if b > a {
                assert(s.last() == all[b - 1]);
            }
            assert(drop_trailing_blanks(s) == s);
        }
        if b == a {
            return None;
        }
        let id = match reserved {
            Some(id) => id,
            None => {
                proof {
                    assert(all.len() == 0);
                }
                return None;
            },
        };
        v.truncate(b);
        let kept = v.split_off(a);
        let start = ctx.span_of(kept[0].id).start;
        let end = ctx.span_of(kept[kept.len() - 1].id).end;
        proof {
            assert(kept@ == all.subrange(a as int, b as int));
            assert(kept@[0] == all[a as int]);
            assert(kept@.last() == all[b - 1]);
        }
        ctx.set_span(id, Span { start, end });
        Some((id, kept))
    }
}

/// What evaluating one child of a block gave, as the paragraph being gathered takes it.
#[derive(Debug)]
pub enum Evaluated<I, B> {
    /// A text token, which may join the text before an index marker.
    TextToken(String),
    /// An inline made from a token, or an inline formula.
    Leaf(Inline<I>),
    /// A blank line: the paragraph ends.
    ParagraphBreak,
    /// The inline an inline command gave.
    InlineResult(Inline<I>),
    /// The blocks a block command or an environment gave.
    Blocks(Vec<B>),
    /// The marker of a paragraph that is not indented.
    NoIndent(Inline<I>),
}

/// A block of the evaluated document: a paragraph with its id and inlines, or another block.
#[derive(Debug)]
pub enum BlockNode<I, B> {
    /// A paragraph.
    Paragraph(NodeId, Vec<Inline<I>>),
    /// Any other block.
    Node(B),
}

/// `out` holds the paragraph that closing `inlines` under `id` gives, if any, then `blocks`.
pub open spec fn closed_then<I, B>(inlines: Seq<Inline<I>>, id: Option<NodeId>, blocks: Seq<B>, out: Seq<BlockNode<I, B>>) -> bool {
    let kept = trim_blanks(inlines);
    let para: int = if kept.len() == 0 { 0 } else { 1 };
    &&& out.len() == para + blocks.len()
    &&& para == 1 ==> (out[0] matches BlockNode::Paragraph(pid, v) && Some(pid) == id && v@ == kept)
    &&& forall|j: int| 0 <= j < blocks.len() ==> #[trigger] out[para + j] == BlockNode::<I, B>::Node(blocks[j])
}

/// Whether the inlines hold anything but white space.
pub open spec fn has_content_spec<I>(inlines: Seq<Inline<I>>) -> bool {
    exists|j: int| 0 <= j < inlines.len() && !is_blank(#[trigger] inlines[j])
}

impl<I> ParagraphBuffer<I> {
    /// Takes what evaluating the child at `span` gave, and appends to `out` the blocks that are
    /// complete. A text token, a leaf, an inline result or an unindented-paragraph marker goes
    /// into the paragraph; a blank line closes it; blocks close it and follow it. A marker of
    /// an unindented paragraph after content is refused, with its span, and nothing changes.
    pub fn accept<B>(
        &mut self,
        ctx: &mut EvalContext,
        span: Span,
        evaluated: Evaluated<I, B>,
        out: &mut Vec<BlockNode<I, B>>,
    ) -> (r: Result<(), Span>)
        requires
            old(self).wf(),
            old(self).issued_by(old(ctx)),
            old(ctx).spec_spans().len() < usize::MAX,
            match evaluated {
                Evaluated::ParagraphBreak => true,
                Evaluated::Blocks(_) => true,
                Evaluated::TextToken(_) => old(self).spec_id() is Some,
                Evaluated::Leaf(x) => old(self).spec_id() is Some && old(ctx).has(x.id),
                Evaluated::InlineResult(x) => old(self).spec_id() is Some && old(ctx).has(x.id),
                Evaluated::NoIndent(x) => old(self).spec_id() is Some && old(ctx).has(x.id),
            },
        ensures
            final(self).wf(),
            final(self).issued_by(final(ctx)),
            final(ctx).spec_source_id() == old(ctx).spec_source_id(),
            final(ctx).spec_spans().len() >= old(ctx).spec_spans().len(),
            match evaluated {
                Evaluated::TextToken(t) => {
                    &&& r is Ok
                    &&& final(out)@ == old(out)@
                    &&& final(self).spec_id() == old(self).spec_id()
                    &&& text_pushed(
                        old(self).spec_sink(),
                        final(self).spec_sink(),
                        old(ctx).spec_spans(),
                        final(ctx).spec_spans(),
                        old(ctx).spec_source_id(),
                        span,
                        t@,
                    )
                },
                Evaluated::Leaf(x) => {
                    &&& r is Ok
                    &&& final(out)@ == old(out)@
                    &&& final(self).spec_id() == old(self).spec_id()
                    &&& final(self).spec_inlines() == old(self).spec_inlines().push(x)
                    &&& final(self).spec_sink().spec_last_text() is None
                    &&& final(self).spec_sink().spec_armed_gap() is None
                    &&& final(ctx).spec_spans() == old(ctx).spec_spans()
                },
                Evaluated::InlineResult(x) => {
                    &&& r is Ok
                    &&& final(out)@ == old(out)@
                    &&& final(self).spec_id() == old(self).spec_id()
                    &&& result_pushed(old(self).spec_sink(), final(self).spec_sink(), span, x)
                    &&& final(ctx).spec_spans() == old(ctx).spec_spans()
                },
                Evaluated::NoIndent(x) => {
                    &&& final(out)@ == old(out)@
                    &&& final(ctx).spec_spans() == old(ctx).spec_spans()
                    &&& final(self).spec_id() == old(self).spec_id()
                    &&& if has_content_spec(old(self).spec_inlines()) {
                        &&& r == Err::<(), Span>(span)
                        &&& final(self).spec_sink() == old(self).spec_sink()
                    } else {
                        &&& r is Ok
                        &&& final(self).spec_inlines() == old(self).spec_inlines().push(x)
                        &&& final(self).spec_sink().spec_last_text() is None
                        &&& final(self).spec_sink().spec_armed_gap() is None
                    }
                },
                Evaluated::ParagraphBreak => {
                    &&& r is Ok
                    &&& final(self).spec_id() is None
                    &&& final(self).spec_inlines().len() == 0
                    &&& final(out)@.subrange(0, old(out)@.len() as int) == old(out)@
                    &&& closed_then(
                        old(self).spec_inlines(),
                        old(self).spec_id(),
                        Seq::<B>::empty(),
                        final(out)@.subrange(old(out)@.len() as int, final(out)@.len() as int),
                    )
                },
                Evaluated::Blocks(v) => {
                    &&& r is Ok
                    &&& final(self).spec_id() is None
                    &&& final(self).spec_inlines().len() == 0
                    &&& final(out)@.subrange(0, old(out)@.len() as int) == old(out)@
                    &&& closed_then(
                        old(self).spec_inlines(),
                        old(self).spec_id(),
                        v@,
                        final(out)@.subrange(old(out)@.len() as int, final(out)@.len() as int),
                    )
                },
            },
    {
        match evaluated {
            Evaluated::TextToken(t) => {
                self.push_text_token(ctx, span, t.as_str());
                Ok(())
            },
            Evaluated::Leaf(x) => {
                self.push(x);
                Ok(())
            },
            Evaluated::InlineResult(x) => {
                self.push_inline_result(span, x);
                Ok(())
            },
            Evaluated::NoIndent(x) => {
                if self.has_content() {
                    return Err(span);
                }
                self.push(x);
                Ok(())
            },
            Evaluated::ParagraphBreak => {
                let ghost before = out@;
                let closed = self.flush(ctx);
                if let Some((id, inlines)) = closed {
                    out.push(BlockNode::Paragraph(id, inlines));
                }
                proof {
                    assert(out@.subrange(0, before.len() as int) =~= before);
                }
                Ok(())
            },
            Evaluated::Blocks(v) => {
                let ghost before = out@;
                let ghost blocks = v@;
                let ghost kept = trim_blanks(self.spec_inlines());
                let closed = self.flush(ctx);
                if let Some((id, inlines)) = closed {
                    out.push(BlockNode::Paragraph(id, inlines));
                }
                let ghost mid = out@;
                let mut v = v;
                let mut rest: Vec<BlockNode<I, B>> = Vec::new();
                while v.len() > 0
                    invariant
                        v@ == blocks.subrange(0, blocks.len() - rest@.len()),
                        rest@.len() <= blocks.len(),
                        forall|j: int| 0 <= j < rest@.len() ==> #[trigger] rest@[j] == BlockNode::<I, B>::Node(
                            blocks[blocks.len() - 1 - j],
                        ),
                    decreases v@.len(),
                {
                    let b = v.pop().unwrap();
                    rest.push(BlockNode::Node(b));
                }
                let mut k: usize = rest.len();
                while k > 0
                    invariant
                        k <= blocks.len(),
                        rest@.len() == k,
                        out@.len() == mid.len() + (blocks.len() - k),
                        out@.subrange(0, mid.len() as int) == mid,
                        forall|j: int| 0 <= j < rest@.len() ==> #[trigger] rest@[j] == BlockNode::<I, B>::Node(
                            blocks[blocks.len() - 1 - j],
                        ),
                        forall|j: int| 0 <= j < blocks.len() - k ==> #[trigger] out@[mid.len() + j] == BlockNode::<I, B>::Node(
                            blocks[j],
                        ),
                    decreases k,
                {
                    let b = rest.pop().unwrap();
                    k = k - 1;
                    out.push(b);
                }
                proof {
                    assert(out@.subrange(0, before.len() as int) =~= before);
                    let tail = out@.subrange(before.len() as int, out@.len() as int);
                    let para: int = if kept.len() == 0 { 0 } else { 1 };
                    assert(mid.len() == before.len() + para);
                    assert forall|j: int| 0 <= j < blocks.len() implies #[trigger] tail[para + j]
                        == BlockNode::<I, B>::Node(blocks[j]) by {
                        assert(tail[para + j] == out@[mid.len() + j]);
                    }
                    if para == 1 {
                        assert(tail[0] == out@[before.len() as int]);
                        assert(out@[before.len() as int] == mid[before.len() as int]);
                    }
                }
                Ok(())
            },
        }
    }
}

} // verus!
