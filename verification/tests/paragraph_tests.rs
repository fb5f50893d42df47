use seiran_compiler::evaluator::context::{EvalContext, NodeId};
use seiran_compiler::evaluator::paragraph::{BlockNode, Evaluated, Inline, InlineKind, InlineSink, ParagraphBuffer};
use seiran_compiler::project::path_resolver::PathResolver;
use seiran_compiler::project::source_set::SourceId;
use seiran_compiler::syntax::span::Span;

fn text_of(x: &Inline<()>) -> &str {
    match &x.kind {
        InlineKind::Text(t) => t.as_str(),
        _ => panic!("not a text inline"),
    }
}

#[test]
fn text_split_by_an_index_marker_is_joined_again() {
    // A\index{k}V
    let resolver = PathResolver::new("");
    let mut ctx = EvalContext::new(SourceId::new(0), &resolver);
    let mut sink: InlineSink<()> = InlineSink::new();
    sink.push_text_token(&mut ctx, Span::new(0, 1), "A");
    let marker = ctx.allocate(Span::new(1, 10));
    sink.push_inline_result(Span::new(1, 10), Inline { id: marker, kind: InlineKind::Index(()) });
    sink.push_text_token(&mut ctx, Span::new(10, 11), "V");
    let inlines = sink.take();
    assert_eq!(inlines.len(), 2);
    assert_eq!(text_of(&inlines[0]), "AV");
    assert_eq!(ctx.span_of(inlines[0].id), Span::new(0, 11));
    assert!(matches!(inlines[1].kind, InlineKind::Index(())));
    assert!(sink.inlines().is_empty());
}

#[test]
fn consecutive_index_markers_keep_the_text_open() {
    // A\index{a}\index{b}V
    let resolver = PathResolver::new("");
    let mut ctx = EvalContext::new(SourceId::new(0), &resolver);
    let mut sink: InlineSink<()> = InlineSink::new();
    sink.push_text_token(&mut ctx, Span::new(0, 1), "A");
    let m1 = ctx.allocate(Span::new(1, 10));
    sink.push_inline_result(Span::new(1, 10), Inline { id: m1, kind: InlineKind::Index(()) });
    let m2 = ctx.allocate(Span::new(10, 19));
    sink.push_inline_result(Span::new(10, 19), Inline { id: m2, kind: InlineKind::Index(()) });
    sink.push_text_token(&mut ctx, Span::new(19, 20), "V");
    let inlines = sink.take();
    assert_eq!(inlines.len(), 3);
    assert_eq!(text_of(&inlines[0]), "AV");
}

#[test]
fn space_after_an_index_marker_stops_the_join() {
    // A\index{k} V
    let resolver = PathResolver::new("");
    let mut ctx = EvalContext::new(SourceId::new(0), &resolver);
    let mut sink: InlineSink<()> = InlineSink::new();
    sink.push_text_token(&mut ctx, Span::new(0, 1), "A");
    let marker = ctx.allocate(Span::new(1, 10));
    sink.push_inline_result(Span::new(1, 10), Inline { id: marker, kind: InlineKind::Index(()) });
    let space = ctx.allocate(Span::new(10, 11));
    sink.push(Inline { id: space, kind: InlineKind::Text(" ".to_string()) });
    sink.push_text_token(&mut ctx, Span::new(11, 12), "V");
    let inlines = sink.take();
    assert_eq!(inlines.len(), 4);
    assert_eq!(text_of(&inlines[0]), "A");
    assert_eq!(text_of(&inlines[3]), "V");
    assert_eq!(ctx.span_of(inlines[0].id), Span::new(0, 1));
}

#[test]
fn text_before_a_marker_with_a_gap_is_not_joined() {
    // "A \index{k}V": the marker does not start where the text ended
    let resolver = PathResolver::new("");
    let mut ctx = EvalContext::new(SourceId::new(0), &resolver);
    let mut sink: InlineSink<()> = InlineSink::new();
    sink.push_text_token(&mut ctx, Span::new(0, 1), "A");
    let marker = ctx.allocate(Span::new(2, 11));
    sink.push_inline_result(Span::new(2, 11), Inline { id: marker, kind: InlineKind::Index(()) });
    sink.push_text_token(&mut ctx, Span::new(11, 12), "V");
    assert_eq!(sink.take().len(), 3);
}

#[test]
fn other_inline_result_closes_the_text() {
    let resolver = PathResolver::new("");
    let mut ctx = EvalContext::new(SourceId::new(0), &resolver);
    let mut sink: InlineSink<()> = InlineSink::new();
    sink.push_text_token(&mut ctx, Span::new(0, 1), "A");
    let other = ctx.allocate(Span::new(1, 9));
    sink.push_inline_result(Span::new(1, 9), Inline { id: other, kind: InlineKind::Other(()) });
    sink.push_text_token(&mut ctx, Span::new(9, 10), "V");
    assert_eq!(sink.take().len(), 3);
}

#[test]
fn paragraph_drops_blank_inlines_at_both_ends_and_spans_what_is_left() {
    // " hi there "
    let resolver = PathResolver::new("");
    let mut ctx = EvalContext::new(SourceId::new(0), &resolver);
    let mut para: ParagraphBuffer<()> = ParagraphBuffer::new();
    para.reserve(&mut ctx, Span::new(0, 1));
    let lead = ctx.allocate(Span::new(0, 1));
    para.push(Inline { id: lead, kind: InlineKind::Text(" ".to_string()) });
    assert!(!para.has_content());
    para.reserve(&mut ctx, Span::new(1, 3));
    para.push_text_token(&mut ctx, Span::new(1, 3), "hi");
    assert!(para.has_content());
    let mid = ctx.allocate(Span::new(3, 4));
    para.push(Inline { id: mid, kind: InlineKind::Text(" ".to_string()) });
    para.push_text_token(&mut ctx, Span::new(4, 9), "there");
    let tail = ctx.allocate(Span::new(9, 10));
    para.push(Inline { id: tail, kind: InlineKind::Text(" ".to_string()) });
    let (id, inlines) = para.flush(&mut ctx).unwrap();
    assert_eq!(id.index, 0);
    assert_eq!(inlines.len(), 3);
    assert_eq!(text_of(&inlines[0]), "hi");
    assert_eq!(text_of(&inlines[1]), " ");
    assert_eq!(text_of(&inlines[2]), "there");
    assert_eq!(ctx.span_of(id), Span::new(1, 9));
    assert!(!para.has_content());
}

#[test]
fn blank_paragraph_is_not_emitted() {
    let resolver = PathResolver::new("");
    let mut ctx = EvalContext::new(SourceId::new(0), &resolver);
    let mut para: ParagraphBuffer<()> = ParagraphBuffer::new();
    para.reserve(&mut ctx, Span::new(5, 6));
    let ws = ctx.allocate(Span::new(5, 6));
    para.push(Inline { id: ws, kind: InlineKind::Text("\n".to_string()) });
    assert!(para.flush(&mut ctx).is_none());
    assert_eq!(ctx.span_of(NodeId { source_id: SourceId::new(0), index: 0 }), Span::new(5, 5));
}

#[test]
fn a_new_paragraph_reserves_a_fresh_id_after_a_flush() {
    let resolver = PathResolver::new("");
    let mut ctx = EvalContext::new(SourceId::new(0), &resolver);
    let mut para: ParagraphBuffer<()> = ParagraphBuffer::new();
    para.reserve(&mut ctx, Span::new(0, 1));
    para.push_text_token(&mut ctx, Span::new(0, 1), "a");
    let (first, _) = para.flush(&mut ctx).unwrap();
    para.reserve(&mut ctx, Span::new(3, 4));
    para.push_text_token(&mut ctx, Span::new(3, 4), "b");
    let (second, inlines) = para.flush(&mut ctx).unwrap();
    assert_eq!(first.index, 0);
    assert_eq!(second.index, 2);
    assert_eq!(text_of(&inlines[0]), "b");
    assert_eq!(ctx.span_of(second), Span::new(3, 4));
}

fn leaf(ctx: &mut EvalContext, span: Span, text: &str) -> Evaluated<(), &'static str> {
    let id = ctx.allocate(span);
    Evaluated::Leaf(Inline { id, kind: InlineKind::Text(text.to_string()) })
}

#[test]
fn children_are_structured_into_paragraphs_and_blocks() {
    // "ab \bold{cd}\n\nef" followed by a block command
    let resolver = PathResolver::new("");
    let mut ctx = EvalContext::new(SourceId::new(0), &resolver);
    let mut para: ParagraphBuffer<()> = ParagraphBuffer::new();
    let mut out: Vec<BlockNode<(), &'static str>> = Vec::new();

    para.reserve(&mut ctx, Span::new(0, 2));
    assert!(para.accept(&mut ctx, Span::new(0, 2), Evaluated::TextToken("ab".to_string()), &mut out).is_ok());
    para.reserve(&mut ctx, Span::new(2, 3));
    let ws = leaf(&mut ctx, Span::new(2, 3), " ");
    assert!(para.accept(&mut ctx, Span::new(2, 3), ws, &mut out).is_ok());
    para.reserve(&mut ctx, Span::new(3, 12));
    let bold = ctx.allocate(Span::new(3, 12));
    let result = Evaluated::InlineResult(Inline { id: bold, kind: InlineKind::Other(()) });
    assert!(para.accept(&mut ctx, Span::new(3, 12), result, &mut out).is_ok());
    assert!(para.accept(&mut ctx, Span::new(12, 14), Evaluated::ParagraphBreak, &mut out).is_ok());
    assert_eq!(out.len(), 1);
    match &out[0] {
        BlockNode::Paragraph(id, inlines) => {
            assert_eq!(id.index, 0);
            assert_eq!(inlines.len(), 3);
            assert_eq!(ctx.span_of(*id), Span::new(0, 12));
        },
        BlockNode::Node(_) => panic!("a paragraph was expected"),
    }

    para.reserve(&mut ctx, Span::new(14, 16));
    assert!(para.accept(&mut ctx, Span::new(14, 16), Evaluated::TextToken("ef".to_string()), &mut out).is_ok());
    para.reserve(&mut ctx, Span::new(16, 30));
    assert!(para.accept(&mut ctx, Span::new(16, 30), Evaluated::Blocks(vec!["figure", "table"]), &mut out).is_ok());
    assert_eq!(out.len(), 4);
    match &out[1] {
        BlockNode::Paragraph(_, inlines) => assert_eq!(text_of(&inlines[0]), "ef"),
        BlockNode::Node(_) => panic!("a paragraph was expected"),
    }
    assert!(matches!(out[2], BlockNode::Node("figure")));
    assert!(matches!(out[3], BlockNode::Node("table")));
}

#[test]
fn blocks_after_a_blank_paragraph_come_alone() {
    let resolver = PathResolver::new("");
    let mut ctx = EvalContext::new(SourceId::new(0), &resolver);
    let mut para: ParagraphBuffer<()> = ParagraphBuffer::new();
    let mut out: Vec<BlockNode<(), &'static str>> = Vec::new();
    para.reserve(&mut ctx, Span::new(0, 1));
    let nl = leaf(&mut ctx, Span::new(0, 1), "\n");
    assert!(para.accept(&mut ctx, Span::new(0, 1), nl, &mut out).is_ok());
    assert!(para.accept(&mut ctx, Span::new(1, 9), Evaluated::Blocks(vec!["env"]), &mut out).is_ok());
    assert_eq!(out.len(), 1);
    assert!(matches!(out[0], BlockNode::Node("env")));
}

#[test]
fn noindent_is_refused_after_content_and_accepted_before_it() {
    let resolver = PathResolver::new("");
    let mut ctx = EvalContext::new(SourceId::new(0), &resolver);
    let mut para: ParagraphBuffer<()> = ParagraphBuffer::new();
    let mut out: Vec<BlockNode<(), &'static str>> = Vec::new();
    para.reserve(&mut ctx, Span::new(0, 1));
    let ws = leaf(&mut ctx, Span::new(0, 1), " ");
    assert!(para.accept(&mut ctx, Span::new(0, 1), ws, &mut out).is_ok());
    let marker = ctx.allocate(Span::new(1, 10));
    let first = Evaluated::NoIndent(Inline { id: marker, kind: InlineKind::Other(()) });
    assert!(para.accept(&mut ctx, Span::new(1, 10), first, &mut out).is_ok());
    let again = ctx.allocate(Span::new(10, 19));
    let second = Evaluated::NoIndent(Inline { id: again, kind: InlineKind::Other(()) });
    assert_eq!(para.accept(&mut ctx, Span::new(10, 19), second, &mut out), Err(Span::new(10, 19)));
    assert!(out.is_empty());
}
