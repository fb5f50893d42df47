//! The per-source evaluation context: it issues node ids, records where each node stands in
//! the source, and resolves the paths of external resources written in the source.

use vstd::prelude::*;
use crate::project::path::{ProjectPath, spec_components};
use crate::project::path_resolver::{PathResolver, spec_join};
use crate::project::source_set::SourceId;
use crate::syntax::span::Span;

verus! {

/// The id of a node of the evaluated document: its source and its position in issue order.
#[derive(Debug, Clone, Copy, PartialEq, Eq, Hash, Structural)]
pub struct NodeId {
    /// The source the node comes from.
    pub source_id: SourceId,
    /// The position of the node in the order ids were issued.
    pub index: usize,
}

/// Where the nodes of one source stand: the span of each node, by id.
#[derive(Debug)]
pub struct SourceSpans {
    source_id: SourceId,
    spans: Vec<Span>,
}

impl SourceSpans {
    /// The source the spans belong to.
    pub closed spec fn spec_source_id(&self) -> SourceId {
        self.source_id
    }

    /// The span of each node, in issue order.
    pub closed spec fn spec_spans(&self) -> Seq<Span> {
        self.spans@
    }

    /// `id` was issued for this source.
    pub open spec fn has(&self, id: NodeId) -> bool {
        id.source_id == self.spec_source_id() && id.index < self.spec_spans().len()
    }

    /// The source the spans belong to.
    pub fn source_id(&self) -> (r: SourceId)
        ensures
            r == self.spec_source_id(),
    {
        self.source_id
    }

    /// The span of the node `id`.
    pub fn span_of(&self, id: NodeId) -> (r: Span)
        requires
            self.has(id),
        ensures
            r == self.spec_spans()[id.index as int],
    {
        self.spans[id.index]
    }

    /// The number of nodes.
    pub fn len(&self) -> (n: usize)
        ensures
            n == self.spec_spans().len(),
    {
        self.spans.len()
    }
}

/// The nodes of one source, in document order.
#[derive(Debug)]
pub struct HirGroup<N> {
    /// The source the nodes come from.
    pub source_id: SourceId,
    /// The nodes.
    pub nodes: Vec<N>,
}

/// The evaluated form of one source: its nodes and where they stand.
#[derive(Debug)]
pub struct HirSource<N> {
    /// The nodes.
    pub group: HirGroup<N>,
    /// The span of each node.
    pub spans: SourceSpans,
}

/// The context of evaluating one source: id issue and span recording happen in one call, and
/// external paths are resolved by the project's resolver.
#[derive(Debug)]
pub struct EvalContext<'a> {
    source_id: SourceId,
    spans: Vec<Span>,
    resolver: &'a PathResolver,
}

impl<'a> EvalContext<'a> {
    /// The source being evaluated.
    pub closed spec fn spec_source_id(&self) -> SourceId {
        self.source_id
    }

    /// The spans recorded so far, by issue order.
    pub closed spec fn spec_spans(&self) -> Seq<Span> {
        self.spans@
    }

    /// The base directory of the resolver.
    pub closed spec fn spec_base_dir(&self) -> Seq<char> {
        self.resolver.spec_base_dir()
    }

    /// `id` was issued by this context.
    pub open spec fn has(&self, id: NodeId) -> bool {
        id.source_id == self.spec_source_id() && id.index < self.spec_spans().len()
    }

    /// A context for the source `source_id`, with no id issued yet.
    pub fn new(source_id: SourceId, resolver: &'a PathResolver) -> (c: Self)
        ensures
            c.spec_source_id() == source_id,
            c.spec_spans().len() == 0,
            c.spec_base_dir() == resolver.spec_base_dir(),
    {
        EvalContext { source_id, spans: Vec::new(), resolver }
    }

    /// The normalised project path of a path written in the source: relative paths are taken
    /// under the base directory.
    pub fn resolve_path(&self, path: &str) -> (r: ProjectPath)
        ensures
            r@ == spec_components(spec_join(self.spec_base_dir(), path@)),
    {
        self.resolver.resolve(path)
    }

    /// Issues a new id and records `span` for it.
    pub fn allocate(&mut self, span: Span) -> (id: NodeId)
        requires
            old(self).spec_spans().len() < usize::MAX,
        ensures
            id == (NodeId { source_id: old(self).spec_source_id(), index: old(self).spec_spans().len() as usize }),
            final(self).spec_spans() == old(self).spec_spans().push(span),
            final(self).spec_source_id() == old(self).spec_source_id(),
            final(self).spec_base_dir() == old(self).spec_base_dir(),
    {
        let index = self.spans.len();
        self.spans.push(span);
        NodeId { source_id: self.source_id, index }
    }

    /// Settles the span of an id reserved before its extent was known.
    pub fn set_span(&mut self, id: NodeId, span: Span)
        requires
            old(self).has(id),
        ensures
            final(self).spec_spans() == old(self).spec_spans().update(id.index as int, span),
            final(self).spec_source_id() == old(self).spec_source_id(),
            final(self).spec_base_dir() == old(self).spec_base_dir(),
    {
        self.spans.set(id.index, span);
    }

    /// The span recorded for `id`.
    pub fn span_of(&self, id: NodeId) -> (r: Span)
        requires
            self.has(id),
        ensures
            r == self.spec_spans()[id.index as int],
    {
        self.spans[id.index]
    }

    /// Ends the context: the evaluated nodes, with the source id and the recorded spans.
    pub fn finish<N>(self, nodes: Vec<N>) -> (r: HirSource<N>)
        ensures
            r.group.source_id == self.spec_source_id(),
            r.group.nodes@ == nodes@,
            r.spans.spec_source_id() == self.spec_source_id(),
            r.spans.spec_spans() == self.spec_spans(),
    {
        HirSource {
            group: HirGroup { source_id: self.source_id, nodes },
            spans: SourceSpans { source_id: self.source_id, spans: self.spans },
        }
    }
}

} // verus!
