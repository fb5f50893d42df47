//! The green tree: a lossless concrete syntax tree that keeps every token, trivia included.

use vstd::prelude::*;
use crate::syntax::span::Span;
use crate::syntax::token::{Token, TokenKind};

verus! {

/// The kinds of interior node of the concrete syntax tree.
#[derive(Debug, Clone, Copy, PartialEq, Eq, Hash, Structural)]
pub enum SyntaxKind {
    /// The whole document.
    Root,
    /// A command call `\cmd[opt]{arg}...`.
    CommandCall,
    /// An environment `\begin{name}...\end{name}`.
    Environment,
    /// The `\begin{name}[opt]{arg}` part of an environment.
    EnvironmentBegin,
    /// The body of an environment.
    EnvironmentBody,
    /// The `\end{name}` part of an environment.
    EnvironmentEnd,
    /// An optional argument `[...]`.
    OptArg,
    /// A mandatory argument `{...}`.
    MandatoryArg,
    /// Inline math `$...$`.
    InlineMath,
    /// A group `{...}` inside math.
    MathGroup,
    /// A subscript `_x` / `_{...}`.
    MathSubscript,
    /// A superscript `^x` / `^{...}`.
    MathSuperscript,
}

/// An interior node of the tree.
#[derive(Debug, PartialEq, Eq)]
pub struct GreenNode {
    /// What the node is.
    pub kind: SyntaxKind,
    /// The bytes of the source the node covers.
    pub span: Span,
    /// The children, in source order.
    pub children: Vec<GreenElement>,
}

/// A child of a node: another node or a token.
#[derive(Debug, PartialEq, Eq)]
pub enum GreenElement {
    /// An interior node.
    Node(Box<GreenNode>),
    /// A leaf token.
    Token(Token),
}

/// The tokens under an element, left to right.
pub open spec fn elem_tokens(e: GreenElement) -> Seq<Token>
    decreases e,
{
    match e {
        GreenElement::Token(t) => seq![t],
        GreenElement::Node(n) => seq_tokens(n.children@),
    }
}

/// The tokens under a sequence of elements, left to right.
pub open spec fn seq_tokens(s: Seq<GreenElement>) -> Seq<Token>
    decreases s,
{
    if s.len() == 0 {
        Seq::empty()
    } else {
        seq_tokens(s.drop_last()) + elem_tokens(s.last())
    }
}

/// The tokens under a node, left to right.
pub open spec fn node_tokens(n: GreenNode) -> Seq<Token> {
    seq_tokens(n.children@)
}

/// Every token in `toks` covers whole characters of `src`.
pub open spec fn tokens_wf(toks: Seq<Token>, src: Seq<u8>) -> bool {
    forall|i: int| 0 <= i < toks.len() ==> (#[trigger] toks[i]).wf(src)
}

/// Every token under the node covers whole characters of `src`.
pub open spec fn tree_wf(n: GreenNode, src: Seq<u8>) -> bool {
    tokens_wf(node_tokens(n), src)
}

/// The nodes among a sequence of elements, in order.
pub open spec fn seq_nodes(s: Seq<GreenElement>) -> Seq<GreenNode>
    decreases s.len(),
{
    if s.len() == 0 {
        Seq::empty()
    } else {
        seq_nodes(s.drop_last()) + match s.last() {
            GreenElement::Node(n) => seq![*n],
            GreenElement::Token(_) => Seq::empty(),
        }
    }
}

/// The tokens among a sequence of elements (not those inside nodes), in order.
pub open spec fn seq_direct_tokens(s: Seq<GreenElement>) -> Seq<Token>
    decreases s.len(),
{
    if s.len() == 0 {
        Seq::empty()
    } else {
        seq_direct_tokens(s.drop_last()) + match s.last() {
            GreenElement::Node(_) => Seq::empty(),
            GreenElement::Token(t) => seq![t],
        }
    }
}

/// The nodes of kind `k` among a sequence of elements (not those inside nodes), in order.
pub open spec fn nodes_of_kind(s: Seq<GreenElement>, k: SyntaxKind) -> Seq<GreenNode>
    decreases s.len(),
{
    if s.len() == 0 {
        Seq::empty()
    } else {
        nodes_of_kind(s.drop_last(), k) + match s.last() {
            GreenElement::Node(n) => if n.kind == k { seq![*n] } else { Seq::empty() },
            GreenElement::Token(_) => Seq::empty(),
        }
    }
}

/// The tokens of kind `k` among a sequence of elements (not those inside nodes), in order.
pub open spec fn tokens_of_kind(s: Seq<GreenElement>, k: TokenKind) -> Seq<Token>
    decreases s.len(),
{
    if s.len() == 0 {
        Seq::empty()
    } else {
        tokens_of_kind(s.drop_last(), k) + match s.last() {
            GreenElement::Node(_) => Seq::empty(),
            GreenElement::Token(t) => if t.kind == k { seq![t] } else { Seq::empty() },
        }
    }
}

impl GreenNode {
    /// The node children, in order.
    pub fn child_nodes(&self) -> (r: Vec<&GreenNode>)
        ensures
            r@.unref() == seq_nodes(self.children@),
    {
        let mut r: Vec<&GreenNode> = Vec::new();
        let mut i: usize = 0;
        while i < self.children.len()
            invariant
                0 <= i <= self.children@.len(),
                r@.unref() == seq_nodes(self.children@.subrange(0, i as int)),
            decreases self.children@.len() - i,
        {
            let ghost pre = self.children@.subrange(0, i as int);
            assert(self.children@.subrange(0, i + 1).drop_last() =~= pre);
            match &self.children[i] {
                GreenElement::Node(n) => {
                    r.push(&**n);
                },
                GreenElement::Token(_) => {},
            }
            assert(r@.unref() =~= seq_nodes(self.children@.subrange(0, i + 1)));
            i = i + 1;
        }
        assert(self.children@.subrange(0, i as int) =~= self.children@);
        r
    }

    /// The token children (not those inside child nodes), in order.
    pub fn child_tokens(&self) -> (r: Vec<Token>)
        ensures
            r@ == seq_direct_tokens(self.children@),
    {
        let mut r: Vec<Token> = Vec::new();
        let mut i: usize = 0;
        while i < self.children.len()
            invariant
                0 <= i <= self.children@.len(),
                r@ == seq_direct_tokens(self.children@.subrange(0, i as int)),
            decreases self.children@.len() - i,
        {
            let ghost pre = self.children@.subrange(0, i as int);
            assert(self.children@.subrange(0, i + 1).drop_last() =~= pre);
            match &self.children[i] {
                GreenElement::Node(_) => {},
                GreenElement::Token(t) => {
                    r.push(*t);
                },
            }
            assert(r@ =~= seq_direct_tokens(self.children@.subrange(0, i + 1)));
            i = i + 1;
        }
        assert(self.children@.subrange(0, i as int) =~= self.children@);
        r
    }

    /// The node children of kind `kind`, in order.
    pub fn children_of_kind(&self, kind: SyntaxKind) -> (r: Vec<&GreenNode>)
        ensures
            r@.unref() == nodes_of_kind(self.children@, kind),
    {
        let mut r: Vec<&GreenNode> = Vec::new();
        let mut i: usize = 0;
        while i < self.children.len()
            invariant
                0 <= i <= self.children@.len(),
                r@.unref() == nodes_of_kind(self.children@.subrange(0, i as int), kind),
            decreases self.children@.len() - i,
        {
            let ghost pre = self.children@.subrange(0, i as int);
            assert(self.children@.subrange(0, i + 1).drop_last() =~= pre);
            match &self.children[i] {
                GreenElement::Node(n) => {
                    if n.kind == kind {
                        r.push(&**n);
                    }
                },
                GreenElement::Token(_) => {},
            }
            assert(r@.unref() =~= nodes_of_kind(self.children@.subrange(0, i + 1), kind));
            i = i + 1;
        }
        assert(self.children@.subrange(0, i as int) =~= self.children@);
        r
    }

    /// The first node child of kind `kind`.
    pub fn first_child_of_kind(&self, kind: SyntaxKind) -> (r: Option<&GreenNode>)
        ensures
            nodes_of_kind(self.children@, kind).len() == 0 ==> r is None,
            nodes_of_kind(self.children@, kind).len() > 0 ==> r is Some && *r->Some_0
                == nodes_of_kind(self.children@, kind)[0],
    {
        let v = self.children_of_kind(kind);
        if v.len() > 0 {
            assert(*v@[0] == v@.unref()[0]);
            Some(v[0])
        } else {
            None
        }
    }

    /// The token children (not those inside child nodes) of kind `kind`, in order.
    pub fn tokens_of_kind(&self, kind: TokenKind) -> (r: Vec<Token>)
        ensures
            r@ == tokens_of_kind(self.children@, kind),
    {
        let mut r: Vec<Token> = Vec::new();
        let mut i: usize = 0;
        while i < self.children.len()
            invariant
                0 <= i <= self.children@.len(),
                r@ == tokens_of_kind(self.children@.subrange(0, i as int), kind),
            decreases self.children@.len() - i,
        {
            let ghost pre = self.children@.subrange(0, i as int);
            assert(self.children@.subrange(0, i + 1).drop_last() =~= pre);
            match &self.children[i] {
                GreenElement::Node(_) => {},
                GreenElement::Token(t) => {
                    if t.kind == kind {
                        r.push(*t);
                    }
                },
            }
            assert(r@ =~= tokens_of_kind(self.children@.subrange(0, i + 1), kind));
            i = i + 1;
        }
        assert(self.children@.subrange(0, i as int) =~= self.children@);
        r
    }

    /// The first token child (not inside a child node) of kind `kind`.
    pub fn first_token_of_kind(&self, kind: TokenKind) -> (r: Option<Token>)
        ensures
            tokens_of_kind(self.children@, kind).len() == 0 ==> r is None,
            tokens_of_kind(self.children@, kind).len() > 0 ==> r == Some(
                tokens_of_kind(self.children@, kind)[0],
            ),
    {
        let v = self.tokens_of_kind(kind);
        if v.len() > 0 {
            Some(v[0])
        } else {
            None
        }
    }
}

/// Appending an element appends its tokens.
pub proof fn lemma_seq_tokens_push(s: Seq<GreenElement>, e: GreenElement)
    ensures
        seq_tokens(s.push(e)) == seq_tokens(s) + elem_tokens(e),
{
    assert(s.push(e).drop_last() =~= s);
}

/// Flattening distributes over concatenation.
pub proof fn lemma_seq_tokens_append(a: Seq<GreenElement>, b: Seq<GreenElement>)
    ensures
        seq_tokens(a + b) == seq_tokens(a) + seq_tokens(b),
    decreases b.len(),
{
    if b.len() == 0 {
        assert(a + b =~= a);
        assert(seq_tokens(b) =~= Seq::<Token>::empty());
        assert(seq_tokens(a) + seq_tokens(b) =~= seq_tokens(a));
    } else {
        lemma_seq_tokens_append(a, b.drop_last());
        assert((a + b).drop_last() =~= a + b.drop_last());
        assert((a + b).last() == b.last());
        assert(seq_tokens(a) + (seq_tokens(b.drop_last()) + elem_tokens(b.last())) =~= (seq_tokens(
            a,
        ) + seq_tokens(b.drop_last())) + elem_tokens(b.last()));
    }
}

/// The tokens of the `j`-th element are a contiguous segment of the flattening.
pub proof fn lemma_elem_tokens_segment(s: Seq<GreenElement>, j: int) -> (k: int)
    requires
        0 <= j < s.len(),
    ensures
        0 <= k,
        k + elem_tokens(s[j]).len() <= seq_tokens(s).len(),
        seq_tokens(s).subrange(k, k + elem_tokens(s[j]).len()) == elem_tokens(s[j]),
    decreases s.len(),
{
    let e = s[j];
    if j == s.len() - 1 {
        let k = seq_tokens(s.drop_last()).len() as int;
        assert(seq_tokens(s).subrange(k, k + elem_tokens(e).len()) =~= elem_tokens(e));
        k
    } else {
        let k = lemma_elem_tokens_segment(s.drop_last(), j);
        assert(s.drop_last()[j] == e);
        let pre = seq_tokens(s.drop_last());
        assert(seq_tokens(s) == pre + elem_tokens(s.last()));
        assert(seq_tokens(s).subrange(k, k + elem_tokens(e).len()) =~= pre.subrange(
            k,
            k + elem_tokens(e).len(),
        ));
        k
    }
}

/// A well-formed flattening makes every element's flattening well formed.
pub proof fn lemma_elem_wf(s: Seq<GreenElement>, j: int, src: Seq<u8>)
    requires
        0 <= j < s.len(),
        tokens_wf(seq_tokens(s), src),
    ensures
        tokens_wf(elem_tokens(s[j]), src),
{
    let k = lemma_elem_tokens_segment(s, j);
    let et = elem_tokens(s[j]);
    assert forall|i: int| 0 <= i < et.len() implies (#[trigger] et[i]).wf(src) by {
        assert(et[i] == seq_tokens(s)[k + i]);
    }
}

/// A direct token child of a well-formed sequence is well formed.
pub proof fn lemma_direct_token_wf(s: Seq<GreenElement>, j: int, src: Seq<u8>)
    requires
        0 <= j < s.len(),
        tokens_wf(seq_tokens(s), src),
        s[j] is Token,
    ensures
        s[j]->Token_0.wf(src),
{
    lemma_elem_wf(s, j, src);
    assert(elem_tokens(s[j])[0] == s[j]->Token_0);
}

/// A node child of a well-formed sequence is a well-formed tree.
pub proof fn lemma_node_child_wf(s: Seq<GreenElement>, j: int, src: Seq<u8>)
    requires
        0 <= j < s.len(),
        tokens_wf(seq_tokens(s), src),
        s[j] is Node,
    ensures
        tree_wf(*s[j]->Node_0, src),
{
    lemma_elem_wf(s, j, src);
}

/// The flattening of a sequence is that of all but its last element, then the last element's.
pub proof fn lemma_seq_tokens_wf_split(s: Seq<GreenElement>, src: Seq<u8>)
    requires
        s.len() > 0,
        tokens_wf(seq_tokens(s), src),
    ensures
        tokens_wf(seq_tokens(s.drop_last()), src),
        tokens_wf(elem_tokens(s.last()), src),
{
    let a = seq_tokens(s.drop_last());
    let b = elem_tokens(s.last());
    assert(seq_tokens(s) == a + b);
    assert forall|i: int| 0 <= i < a.len() implies (#[trigger] a[i]).wf(src) by {
        assert(a[i] == seq_tokens(s)[i]);
    }
    assert forall|i: int| 0 <= i < b.len() implies (#[trigger] b[i]).wf(src) by {
        assert(b[i] == seq_tokens(s)[a.len() + i]);
    }
}

/// Every child node of a given kind of a well-formed sequence is a well-formed tree.
pub proof fn lemma_nodes_of_kind_wf(s: Seq<GreenElement>, k: SyntaxKind, i: int, src: Seq<u8>)
    requires
        tokens_wf(seq_tokens(s), src),
        0 <= i < nodes_of_kind(s, k).len(),
    ensures
        tree_wf(nodes_of_kind(s, k)[i], src),
    decreases s.len(),
{
    lemma_seq_tokens_wf_split(s, src);
    let pre = nodes_of_kind(s.drop_last(), k);
    if i < pre.len() {
        lemma_nodes_of_kind_wf(s.drop_last(), k, i, src);
        assert(nodes_of_kind(s, k)[i] == pre[i]);
    }
}

/// Every direct token of a given kind of a well-formed sequence is well formed.
pub proof fn lemma_tokens_of_kind_wf(s: Seq<GreenElement>, k: TokenKind, i: int, src: Seq<u8>)
    requires
        tokens_wf(seq_tokens(s), src),
        0 <= i < tokens_of_kind(s, k).len(),
    ensures
        tokens_of_kind(s, k)[i].wf(src),
        tokens_of_kind(s, k)[i].kind == k,
    decreases s.len(),
{
    lemma_seq_tokens_wf_split(s, src);
    let pre = tokens_of_kind(s.drop_last(), k);
    if i < pre.len() {
        lemma_tokens_of_kind_wf(s.drop_last(), k, i, src);
        assert(tokens_of_kind(s, k)[i] == pre[i]);
    } else {
        assert(elem_tokens(s.last())[0] == s.last()->Token_0);
    }
}

/// The kind of every node returned for a kind is that kind.
pub proof fn lemma_nodes_of_kind_kind(s: Seq<GreenElement>, k: SyntaxKind, i: int)
    requires
        0 <= i < nodes_of_kind(s, k).len(),
    ensures
        nodes_of_kind(s, k)[i].kind == k,
    decreases s.len(),
{
    let pre = nodes_of_kind(s.drop_last(), k);
    if i < pre.len() {
        lemma_nodes_of_kind_kind(s.drop_last(), k, i);
        assert(nodes_of_kind(s, k)[i] == pre[i]);
    }
}

} // verus!
