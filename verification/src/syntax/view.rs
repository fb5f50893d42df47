//! Typed views over green nodes and the text they hold: no separate AST is built.

use vstd::prelude::*;
use vstd::string::*;
use crate::strs::{str_trim, to_owned_string, trim_chars};
use crate::syntax::green::{
    GreenElement, GreenNode, SyntaxKind, elem_tokens, lemma_elem_wf, lemma_nodes_of_kind_wf,
    lemma_tokens_of_kind_wf, nodes_of_kind, tokens_of_kind, tokens_wf, tree_wf,
};
use crate::syntax::span::Span;
use crate::syntax::token::{Token, TokenKind};

verus! {

/// The text a token contributes to extracted text: its source text for text-like tokens, the
/// character after the backslash for an escape, nothing for structural tokens and comments.
pub open spec fn token_piece(src: Seq<u8>, t: Token) -> Seq<char> {
    match t.kind {
        TokenKind::Text | TokenKind::VerbatimText | TokenKind::Whitespace | TokenKind::Newline
        | TokenKind::Comma | TokenKind::Equals | TokenKind::Underscore | TokenKind::Caret
        | TokenKind::Ampersand => t.spec_text(src),
        TokenKind::Escaped => t.spec_tail(src),
        _ => Seq::empty(),
    }
}

/// The extracted text of an element.
pub open spec fn elem_text(src: Seq<u8>, e: GreenElement) -> Seq<char>
    decreases e,
{
    match e {
        GreenElement::Token(t) => token_piece(src, t),
        GreenElement::Node(n) => seq_text(src, n.children@),
    }
}

/// The extracted text of a sequence of elements: the texts of the elements, concatenated.
pub open spec fn seq_text(src: Seq<u8>, s: Seq<GreenElement>) -> Seq<char>
    decreases s,
{
    if s.len() == 0 {
        Seq::empty()
    } else {
        seq_text(src, s.drop_last()) + elem_text(src, s.last())
    }
}

/// The element is a token of kind `k` directly in the sequence.
pub open spec fn is_token_of(e: GreenElement, k: TokenKind) -> bool {
    e is Token && e->Token_0.kind == k
}

/// The segments of `s` between its direct `,` tokens (empty segments kept; nested commas do not
/// split).
pub open spec fn comma_segments(s: Seq<GreenElement>) -> Seq<Seq<GreenElement>>
    decreases s.len(),
{
    if s.len() == 0 {
        seq![Seq::empty()]
    } else {
        let prev = comma_segments(s.drop_last());
        if is_token_of(s.last(), TokenKind::Comma) {
            prev.push(Seq::empty())
        } else {
            prev.update(prev.len() - 1, prev.last().push(s.last()))
        }
    }
}

/// The index of the first direct `=` token of `s`, or -1 when there is none.
pub open spec fn first_equals(s: Seq<GreenElement>) -> int
    decreases s.len(),
{
    if s.len() == 0 {
        -1
    } else {
        let p = first_equals(s.drop_last());
        if p >= 0 {
            p
        } else if is_token_of(s.last(), TokenKind::Equals) {
            s.len() - 1
        } else {
            -1
        }
    }
}

/// The key of an option entry: the text before its first `=` (all of it when there is none),
/// trimmed.
pub open spec fn entry_key(src: Seq<u8>, e: Seq<GreenElement>) -> Seq<char> {
    let k = first_equals(e);
    if k >= 0 {
        trim_chars(seq_text(src, e.subrange(0, k)))
    } else {
        trim_chars(seq_text(src, e))
    }
}

/// The value of an option entry: the text after its first `=`, trimmed; `true` when the entry
/// has no `=` (a bare flag).
pub open spec fn entry_value(src: Seq<u8>, e: Seq<GreenElement>) -> Seq<char> {
    let k = first_equals(e);
    if k >= 0 {
        trim_chars(seq_text(src, e.subrange(k + 1, e.len() as int)))
    } else {
        "true"@
    }
}

/// The key/value pairs of a sequence of option entries, skipping entries whose key is empty.
pub open spec fn entry_pairs(src: Seq<u8>, entries: Seq<Seq<GreenElement>>) -> Seq<(Seq<char>, Seq<char>)>
    decreases entries.len(),
{
    if entries.len() == 0 {
        Seq::empty()
    } else {
        let prev = entry_pairs(src, entries.drop_last());
        let e = entries.last();
        if entry_key(src, e).len() == 0 {
            prev
        } else {
            prev.push((entry_key(src, e), entry_value(src, e)))
        }
    }
}

/// The key/value pairs of an optional argument `[k=v, flag, ...]`.
pub open spec fn key_value_options(src: Seq<u8>, opt_arg: GreenNode) -> Seq<(Seq<char>, Seq<char>)> {
    entry_pairs(src, comma_segments(opt_arg.children@))
}

/// Appending an element appends its text.
pub proof fn lemma_seq_text_push(src: Seq<u8>, s: Seq<GreenElement>, e: GreenElement)
    ensures
        seq_text(src, s.push(e)) == seq_text(src, s) + elem_text(src, e),
{
    assert(s.push(e).drop_last() =~= s);
}

/// Appends the extracted text of `element` to `text`.
fn push_element_text(source: &str, element: &GreenElement, text: &mut String)
    requires
        tokens_wf(elem_tokens(*element), source.spec_bytes()),
    ensures
        final(text)@ == old(text)@ + elem_text(source.spec_bytes(), *element),
    decreases *element,
{
    match element {
        GreenElement::Token(t) => {
            assert(elem_tokens(*element)[0] == *t);
            match t.kind {
                TokenKind::Text | TokenKind::VerbatimText | TokenKind::Whitespace
                | TokenKind::Newline | TokenKind::Comma | TokenKind::Equals
                | TokenKind::Underscore | TokenKind::Caret | TokenKind::Ampersand => {
                    text.append(t.text(source));
                },
                TokenKind::Escaped => {
                    text.append(t.tail(source));
                },
                _ => {
                    assert(text@ =~= text@ + Seq::<char>::empty());
                },
            }
        },
        GreenElement::Node(n) => {
            let inner = extract_text_content(source, n);
            text.append(inner.as_str());
        },
    }
}

/// The text under `node`: the texts of its tokens, without structural tokens and comments, and
/// with escapes reduced to the escaped character.
pub fn extract_text_content(source: &str, node: &GreenNode) -> (r: String)
    requires
        tree_wf(*node, source.spec_bytes()),
    ensures
        r@ == seq_text(source.spec_bytes(), node.children@),
    decreases *node,
{
    let mut text = String::new();
    let mut i: usize = 0;
    while i < node.children.len()
        invariant
            0 <= i <= node.children@.len(),
            tree_wf(*node, source.spec_bytes()),
            text@ == seq_text(source.spec_bytes(), node.children@.subrange(0, i as int)),
        decreases node.children@.len() - i,
    {
        proof {
            lemma_elem_wf(node.children@, i as int, source.spec_bytes());
            lemma_seq_text_push(
                source.spec_bytes(),
                node.children@.subrange(0, i as int),
                node.children@[i as int],
            );
            assert(node.children@.subrange(0, i as int).push(node.children@[i as int])
                =~= node.children@.subrange(0, i + 1));
        }
        push_element_text(source, &node.children[i], &mut text);
        i = i + 1;
    }
    assert(node.children@.subrange(0, i as int) =~= node.children@);
    text
}

/// The texts of the segments of `node`'s children between its direct `,` tokens, untrimmed and
/// with empty segments kept. An escaped `\,` and commas inside nested nodes do not split.
pub fn split_text_on_commas(source: &str, node: &GreenNode) -> (r: Vec<String>)
    requires
        tree_wf(*node, source.spec_bytes()),
    ensures
        r@.len() == comma_segments(node.children@).len(),
        forall|i: int|
            0 <= i < r@.len() ==> (#[trigger] r@[i])@ == seq_text(
                source.spec_bytes(),
                comma_segments(node.children@)[i],
            ),
{
    let ghost src = source.spec_bytes();
    let mut result: Vec<String> = Vec::new();
    let mut current = String::new();
    let mut i: usize = 0;
    proof {
        assert(node.children@.subrange(0, 0) =~= Seq::<GreenElement>::empty());
    }
    while i < node.children.len()
        invariant
            0 <= i <= node.children@.len(),
            tree_wf(*node, src),
            src == source.spec_bytes(),
            result@.len() + 1 == comma_segments(node.children@.subrange(0, i as int)).len(),
            forall|j: int|
                0 <= j < result@.len() ==> (#[trigger] result@[j])@ == seq_text(
                    src,
                    comma_segments(node.children@.subrange(0, i as int))[j],
                ),
            current@ == seq_text(src, comma_segments(node.children@.subrange(0, i as int)).last()),
        decreases node.children@.len() - i,
    {
        let ghost pre = node.children@.subrange(0, i as int);
        let ghost segs = comma_segments(pre);
        proof {
            assert(node.children@.subrange(0, i + 1).drop_last() =~= pre);
            assert(node.children@.subrange(0, i + 1).last() == node.children@[i as int]);
        }
        let is_comma = match &node.children[i] {
            GreenElement::Token(t) => t.kind == TokenKind::Comma,
            GreenElement::Node(_) => false,
        };
        if is_comma {
            let finished = current;
            result.push(finished);
            current = String::new();
            proof {
                let segs2 = comma_segments(node.children@.subrange(0, i + 1));
                assert(segs2 == segs.push(Seq::empty()));
                assert(seq_text(src, Seq::<GreenElement>::empty()) =~= Seq::<char>::empty());
            }
        } else {
            proof {
                lemma_elem_wf(node.children@, i as int, src);
                lemma_seq_text_push(src, segs.last(), node.children@[i as int]);
            }
            push_element_text(source, &node.children[i], &mut current);
        }
        i = i + 1;
    }
    assert(node.children@.subrange(0, i as int) =~= node.children@);
    result.push(current);
    result
}

/// Finishes one option entry: trims its key and, when that key is non-empty, appends the pair
/// (the trimmed value after `=`, or `true` for a bare flag).
fn finish_entry(
    pairs: &mut Vec<(String, String)>,
    key_text: &String,
    value_text: &String,
    seen_eq: bool,
)
    ensures
        ({
            let key = trim_chars(key_text@);
            let value = if seen_eq { trim_chars(value_text@) } else { "true"@ };
            if key.len() == 0 {
                final(pairs)@ == old(pairs)@
            } else {
                &&& final(pairs)@.len() == old(pairs)@.len() + 1
                &&& final(pairs)@.subrange(0, old(pairs)@.len() as int) == old(pairs)@
                &&& final(pairs)@.last().0@ == key
                &&& final(pairs)@.last().1@ == value
            }
        }),
{
    let key = str_trim(key_text.as_str());
    if key.is_empty() {
        return;
    }
    let value = if seen_eq {
        to_owned_string(str_trim(value_text.as_str()))
    } else {
        let t = "true";
        proof {
            reveal_strlit("true");
        }
        to_owned_string(t)
    };
    let ghost before = pairs@;
    pairs.push((to_owned_string(key), value));
    assert(pairs@.subrange(0, before.len() as int) =~= before);
}

/// The `key=value` entries of an optional argument, in source order.
///
/// Entries are separated by the argument's direct `,` tokens, and the first direct `=` of an
/// entry separates key and value; escaped `\,` / `\=`, later `=` and the contents of nested
/// nodes belong to the text. Keys and values are trimmed, an entry without `=` is the flag
/// `(key, "true")`, and entries with an empty key are skipped.
pub fn parse_key_value_options(source: &str, opt_arg: &GreenNode) -> (r: Vec<(String, String)>)
    requires
        tree_wf(*opt_arg, source.spec_bytes()),
    ensures
        r@.len() == key_value_options(source.spec_bytes(), *opt_arg).len(),
        forall|i: int|
            0 <= i < r@.len() ==> ((#[trigger] r@[i]).0@, r@[i].1@) == key_value_options(
                source.spec_bytes(),
                *opt_arg,
            )[i],
{
    let ghost src = source.spec_bytes();
    let ghost ch = opt_arg.children@;
    let mut pairs: Vec<(String, String)> = Vec::new();
    let mut key_text = String::new();
    let mut value_text = String::new();
    let mut seen_eq = false;
    let mut i: usize = 0;
    proof {
        assert(ch.subrange(0, 0) =~= Seq::<GreenElement>::empty());
        assert(seq_text(src, Seq::<GreenElement>::empty()) =~= Seq::<char>::empty());
    }
    while i < opt_arg.children.len()
        invariant
            0 <= i <= ch.len(),
            ch == opt_arg.children@,
            tree_wf(*opt_arg, src),
            src == source.spec_bytes(),
            ({
                let segs = comma_segments(ch.subrange(0, i as int));
                let cur = segs.last();
                let k = first_equals(cur);
                &&& segs.len() >= 1
                &&& seen_eq == (k >= 0)
                &&& k < cur.len()
                &&& key_text@ == (if k >= 0 { seq_text(src, cur.subrange(0, k)) } else { seq_text(src, cur) })
                &&& value_text@ == (if k >= 0 { seq_text(src, cur.subrange(k + 1, cur.len() as int)) } else { Seq::empty() })
                &&& pairs@.len() == entry_pairs(src, segs.drop_last()).len()
                &&& forall|j: int| 0 <= j < pairs@.len() ==> ((#[trigger] pairs@[j]).0@, pairs@[j].1@) == entry_pairs(src, segs.drop_last())[j]
            }),
        decreases ch.len() - i,
    {
        let ghost pre = ch.subrange(0, i as int);
        let ghost segs = comma_segments(pre);
        let ghost cur = segs.last();
        let ghost e = ch[i as int];
        proof {
            assert(ch.subrange(0, i + 1).drop_last() =~= pre);
            assert(ch.subrange(0, i + 1).last() == e);
        }
        let kind = match &opt_arg.children[i] {
            GreenElement::Token(t) => Some(t.kind),
            GreenElement::Node(_) => None,
        };
        if kind == Some(TokenKind::Comma) {
            let ghost before = pairs@;
            finish_entry(&mut pairs, &key_text, &value_text, seen_eq);
            proof {
                let segs2 = comma_segments(ch.subrange(0, i + 1));
                assert(segs2 == segs.push(Seq::empty()));
                assert(segs2.drop_last() =~= segs);
                assert(segs.drop_last().push(cur) =~= segs);
                if first_equals(cur) >= 0 {
                } else {
                    assert(cur.subrange(0, cur.len() as int) =~= cur);
                }
                let ep = entry_pairs(src, segs);
                assert(ep == (if entry_key(src, cur).len() == 0 { entry_pairs(src, segs.drop_last()) } else { entry_pairs(src, segs.drop_last()).push((entry_key(src, cur), entry_value(src, cur))) }));
                assert forall|j: int| 0 <= j < pairs@.len() implies ((#[trigger] pairs@[j]).0@, pairs@[j].1@) == ep[j] by {
                    if j < before.len() {
                        assert(pairs@[j] == pairs@.subrange(0, before.len() as int)[j]);
                    }
                }
                assert(first_equals(Seq::<GreenElement>::empty()) == -1);
            }
            key_text = String::new();
            value_text = String::new();
            seen_eq = false;
        } else {
            proof {
                lemma_elem_wf(ch, i as int, src);
                let segs2 = comma_segments(ch.subrange(0, i + 1));
                let cur2 = cur.push(e);
                assert(segs2 == segs.update(segs.len() - 1, cur2));
                assert(segs2.last() == cur2);
                assert(segs2.drop_last() =~= segs.drop_last());
                assert(cur2.drop_last() =~= cur);
            }
            if !seen_eq && kind == Some(TokenKind::Equals) {
                seen_eq = true;
                proof {
                    let cur2 = cur.push(e);
                    assert(first_equals(cur2) == cur.len());
                    assert(cur2.subrange(0, cur.len() as int) =~= cur);
                    assert(cur2.subrange(cur.len() as int + 1, cur2.len() as int) =~= Seq::<GreenElement>::empty());
                    assert(cur.subrange(0, cur.len() as int) =~= cur);
                }
            } else if !seen_eq {
                proof {
                    let cur2 = cur.push(e);
                    assert(first_equals(cur2) == -1);
                    lemma_seq_text_push(src, cur, e);
                }
                push_element_text(source, &opt_arg.children[i], &mut key_text);
            } else {
                proof {
                    let cur2 = cur.push(e);
                    let k = first_equals(cur);
                    assert(first_equals(cur2) == k);
                    assert(cur2.subrange(0, k) =~= cur.subrange(0, k));
                    assert(cur2.subrange(k + 1, cur2.len() as int) =~= cur.subrange(k + 1, cur.len() as int).push(e));
                    lemma_seq_text_push(src, cur.subrange(k + 1, cur.len() as int), e);
                }
                push_element_text(source, &opt_arg.children[i], &mut value_text);
            }
        }
        i = i + 1;
    }
    let ghost segs = comma_segments(ch);
    let ghost cur = segs.last();
    let ghost before = pairs@;
    proof {
        assert(ch.subrange(0, i as int) =~= ch);
    }
    finish_entry(&mut pairs, &key_text, &value_text, seen_eq);
    proof {
        assert(segs.drop_last().push(cur) =~= segs);
        if first_equals(cur) < 0 {
            assert(cur.subrange(0, cur.len() as int) =~= cur);
        }
        let ep = entry_pairs(src, segs);
        assert forall|j: int| 0 <= j < pairs@.len() implies ((#[trigger] pairs@[j]).0@, pairs@[j].1@) == ep[j] by {
            if j < before.len() {
                assert(pairs@[j] == pairs@.subrange(0, before.len() as int)[j]);
            }
        }
    }
    pairs
}

/// A typed view of a command call node.
pub struct CommandView<'a> {
    node: &'a GreenNode,
    source: &'a str,
    name: &'a str,
}

impl<'a> CommandView<'a> {
    /// The viewed node.
    pub closed spec fn spec_node(&self) -> GreenNode {
        *self.node
    }

    /// The source the node was parsed from.
    pub closed spec fn spec_source(&self) -> &'a str {
        self.source
    }

    /// The command's name.
    pub closed spec fn spec_name(&self) -> Seq<char> {
        self.name@
    }

    /// The viewed node is a well-formed tree of the source.
    pub open spec fn wf(&self) -> bool {
        tree_wf(self.spec_node(), self.spec_source().spec_bytes())
    }

    /// The optional argument of the command, if any.
    pub open spec fn spec_opt_arg(&self) -> Option<GreenNode> {
        let opts = nodes_of_kind(self.spec_node().children@, SyntaxKind::OptArg);
        if opts.len() > 0 {
            Some(opts[0])
        } else {
            None
        }
    }

    /// The mandatory arguments of the command, in order.
    pub open spec fn spec_args(&self) -> Seq<GreenNode> {
        nodes_of_kind(self.spec_node().children@, SyntaxKind::MandatoryArg)
    }

    /// Views `node`, whose first command token gives the command's name.
    pub fn new(node: &'a GreenNode, source: &'a str) -> (v: Self)
        requires
            tree_wf(*node, source.spec_bytes()),
            tokens_of_kind(node.children@, TokenKind::Command).len() > 0,
        ensures
            v.spec_node() == *node,
            v.spec_source() == source,
            v.spec_name() == tokens_of_kind(node.children@, TokenKind::Command)[0].spec_tail(
                source.spec_bytes(),
            ),
            v.wf(),
    {
        let command_token = node.first_token_of_kind(TokenKind::Command);
        match command_token {
            Some(t) => {
                proof {
                    lemma_tokens_of_kind_wf(node.children@, TokenKind::Command, 0, source.spec_bytes());
                }
                let name = t.command_name(source);
                CommandView { node, source, name }
            },
            None => {
                proof {
                    assert(false);
                }
                CommandView { node, source, name: "" }
            },
        }
    }

    /// The source the node was parsed from.
    pub fn source(&self) -> (r: &'a str)
        ensures
            r == self.spec_source(),
    {
        self.source
    }

    /// The command's name, without the leading backslash.
    pub fn name(&self) -> (r: &'a str)
        ensures
            r@ == self.spec_name(),
    {
        self.name
    }

    /// The bytes of the source the command covers.
    pub fn span(&self) -> (r: Span)
        ensures
            r == self.spec_node().span,
    {
        self.node.span
    }

    /// The mandatory arguments `{...}`, in order.
    pub fn args(&self) -> (r: Vec<&'a GreenNode>)
        requires
            self.wf(),
        ensures
            r@.unref() == self.spec_args(),
            forall|i: int|
                0 <= i < r@.len() ==> tree_wf(*(#[trigger] r@[i]), self.spec_source().spec_bytes()),
    {
        let r = self.node.children_of_kind(SyntaxKind::MandatoryArg);
        proof {
            assert forall|i: int|
                0 <= i < r@.len() implies tree_wf(*(#[trigger] r@[i]), self.spec_source().spec_bytes()) by {
                assert(*r@[i] == r@.unref()[i]);
                lemma_nodes_of_kind_wf(
                    self.spec_node().children@,
                    SyntaxKind::MandatoryArg,
                    i,
                    self.spec_source().spec_bytes(),
                );
            }
        }
        r
    }

    /// The optional argument `[...]`, if any.
    pub fn opt_arg(&self) -> (r: Option<&'a GreenNode>)
        requires
            self.wf(),
        ensures
            nodes_of_kind(self.spec_node().children@, SyntaxKind::OptArg).len() == 0 ==> r is None,
            nodes_of_kind(self.spec_node().children@, SyntaxKind::OptArg).len() > 0 ==> r is Some
                && *r->Some_0 == nodes_of_kind(self.spec_node().children@, SyntaxKind::OptArg)[0],
            r matches Some(n) ==> tree_wf(*n, self.spec_source().spec_bytes()),
    {
        let r = self.node.first_child_of_kind(SyntaxKind::OptArg);
        proof {
            if nodes_of_kind(self.spec_node().children@, SyntaxKind::OptArg).len() > 0 {
                lemma_nodes_of_kind_wf(
                    self.spec_node().children@,
                    SyntaxKind::OptArg,
                    0,
                    self.spec_source().spec_bytes(),
                );
            }
        }
        r
    }

    /// The number of mandatory arguments.
    pub fn args_count(&self) -> (n: usize)
        requires
            self.wf(),
        ensures
            n == self.spec_args().len(),
    {
        self.args().len()
    }

    /// The first mandatory argument, if any.
    pub fn first_arg(&self) -> (r: Option<&'a GreenNode>)
        requires
            self.wf(),
        ensures
            self.spec_args().len() == 0 ==> r is None,
            self.spec_args().len() > 0 ==> r is Some && *r->Some_0 == self.spec_args()[0],
            r matches Some(n) ==> tree_wf(*n, self.spec_source().spec_bytes()),
    {
        let r = self.node.first_child_of_kind(SyntaxKind::MandatoryArg);
        proof {
            if self.spec_args().len() > 0 {
                lemma_nodes_of_kind_wf(
                    self.spec_node().children@,
                    SyntaxKind::MandatoryArg,
                    0,
                    self.spec_source().spec_bytes(),
                );
            }
        }
        r
    }

    /// Whether the command has no mandatory argument.
    pub fn args_is_empty(&self) -> (b: bool)
        requires
            self.wf(),
        ensures
            b == (self.spec_args().len() == 0),
    {
        self.args_count() == 0
    }
}

/// The name of an environment: the first text token of the first mandatory argument of its
/// `\begin` part, or the empty text when that argument holds none.
pub open spec fn env_name_of(src: Seq<u8>, begin: GreenNode) -> Seq<char> {
    let name_arg = nodes_of_kind(begin.children@, SyntaxKind::MandatoryArg)[0];
    let texts = tokens_of_kind(name_arg.children@, TokenKind::Text);
    if texts.len() > 0 {
        texts[0].spec_text(src)
    } else {
        Seq::empty()
    }
}

/// A typed view of an environment node.
pub struct EnvironmentView<'a> {
    node: &'a GreenNode,
    source: &'a str,
    begin: &'a GreenNode,
    name: &'a str,
}

impl<'a> EnvironmentView<'a> {
    /// The viewed node.
    pub closed spec fn spec_node(&self) -> GreenNode {
        *self.node
    }

    /// The source the node was parsed from.
    pub closed spec fn spec_source(&self) -> &'a str {
        self.source
    }

    /// The `\begin{...}` part of the environment.
    pub closed spec fn spec_begin(&self) -> GreenNode {
        *self.begin
    }

    /// The environment's name.
    pub closed spec fn spec_name(&self) -> Seq<char> {
        self.name@
    }

    /// The optional argument of the `\begin` part, if any.
    pub open spec fn spec_opt_arg(&self) -> Option<GreenNode> {
        let opts = nodes_of_kind(self.spec_begin().children@, SyntaxKind::OptArg);
        if opts.len() > 0 {
            Some(opts[0])
        } else {
            None
        }
    }

    /// The viewed node is a well-formed tree of the source and its begin part is its first
    /// `EnvironmentBegin` child.
    pub open spec fn wf(&self) -> bool {
        &&& tree_wf(self.spec_node(), self.spec_source().spec_bytes())
        &&& tree_wf(self.spec_begin(), self.spec_source().spec_bytes())
        &&& nodes_of_kind(self.spec_node().children@, SyntaxKind::EnvironmentBegin).len() > 0
        &&& self.spec_begin() == nodes_of_kind(
            self.spec_node().children@,
            SyntaxKind::EnvironmentBegin,
        )[0]
    }

    /// Views `node`, whose first `EnvironmentBegin` child carries the name as its first
    /// mandatory argument.
    pub fn new(node: &'a GreenNode, source: &'a str) -> (v: Self)
        requires
            tree_wf(*node, source.spec_bytes()),
            nodes_of_kind(node.children@, SyntaxKind::EnvironmentBegin).len() > 0,
            nodes_of_kind(
                nodes_of_kind(node.children@, SyntaxKind::EnvironmentBegin)[0].children@,
                SyntaxKind::MandatoryArg,
            ).len() > 0,
        ensures
            v.spec_node() == *node,
            v.spec_source() == source,
            v.spec_name() == env_name_of(source.spec_bytes(), v.spec_begin()),
            v.wf(),
    {
        let ghost src = source.spec_bytes();
        proof {
            lemma_nodes_of_kind_wf(node.children@, SyntaxKind::EnvironmentBegin, 0, src);
        }
        let begin = match node.first_child_of_kind(SyntaxKind::EnvironmentBegin) {
            Some(b) => b,
            None => {
                proof {
                    assert(false);
                }
                node
            },
        };
        proof {
            lemma_nodes_of_kind_wf(begin.children@, SyntaxKind::MandatoryArg, 0, src);
        }
        let name_arg = match begin.first_child_of_kind(SyntaxKind::MandatoryArg) {
            Some(a) => a,
            None => {
                proof {
                    assert(false);
                }
                begin
            },
        };
        let name = match name_arg.first_token_of_kind(TokenKind::Text) {
            Some(t) => {
                proof {
                    lemma_tokens_of_kind_wf(name_arg.children@, TokenKind::Text, 0, src);
                }
                t.text(source)
            },
            None => {
                let e = "";
                proof {
                    reveal_strlit("");
                }
                e
            },
        };
        EnvironmentView { node, source, begin, name }
    }

    /// The source the node was parsed from.
    pub fn source(&self) -> (r: &'a str)
        ensures
            r == self.spec_source(),
    {
        self.source
    }

    /// The environment's name.
    pub fn name(&self) -> (r: &'a str)
        ensures
            r@ == self.spec_name(),
    {
        self.name
    }

    /// The bytes of the source the environment covers.
    pub fn span(&self) -> (r: Span)
        ensures
            r == self.spec_node().span,
    {
        self.node.span
    }

    /// The body of the environment.
    pub fn body(&self) -> (r: Option<&'a GreenNode>)
        requires
            self.wf(),
        ensures
            nodes_of_kind(self.spec_node().children@, SyntaxKind::EnvironmentBody).len() == 0
                ==> r is None,
            nodes_of_kind(self.spec_node().children@, SyntaxKind::EnvironmentBody).len() > 0
                ==> r is Some && *r->Some_0 == nodes_of_kind(
                self.spec_node().children@,
                SyntaxKind::EnvironmentBody,
            )[0],
            r matches Some(n) ==> tree_wf(*n, self.spec_source().spec_bytes()),
    {
        let r = self.node.first_child_of_kind(SyntaxKind::EnvironmentBody);
        proof {
            if nodes_of_kind(self.spec_node().children@, SyntaxKind::EnvironmentBody).len() > 0 {
                lemma_nodes_of_kind_wf(
                    self.spec_node().children@,
                    SyntaxKind::EnvironmentBody,
                    0,
                    self.spec_source().spec_bytes(),
                );
            }
        }
        r
    }

    /// Whether the environment has no mandatory argument besides its name.
    pub fn args_is_empty(&self) -> (b: bool)
        requires
            self.wf(),
        ensures
            b == (nodes_of_kind(self.spec_begin().children@, SyntaxKind::MandatoryArg).len() <= 1),
    {
        self.begin.children_of_kind(SyntaxKind::MandatoryArg).len() <= 1
    }

    /// The optional argument `[...]` of the `\begin` part, if any.
    pub fn opt_arg(&self) -> (r: Option<&'a GreenNode>)
        requires
            self.wf(),
        ensures
            nodes_of_kind(self.spec_begin().children@, SyntaxKind::OptArg).len() == 0 ==> r is None,
            nodes_of_kind(self.spec_begin().children@, SyntaxKind::OptArg).len() > 0 ==> r is Some
                && *r->Some_0 == nodes_of_kind(self.spec_begin().children@, SyntaxKind::OptArg)[0],
            r matches Some(n) ==> tree_wf(*n, self.spec_source().spec_bytes()),
    {
        let r = self.begin.first_child_of_kind(SyntaxKind::OptArg);
        proof {
            if nodes_of_kind(self.spec_begin().children@, SyntaxKind::OptArg).len() > 0 {
                lemma_nodes_of_kind_wf(
                    self.spec_begin().children@,
                    SyntaxKind::OptArg,
                    0,
                    self.spec_source().spec_bytes(),
                );
            }
        }
        r
    }
}

} // verus!
