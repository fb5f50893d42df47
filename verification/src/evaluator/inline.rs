//! What a single token contributes to inline content.

use vstd::prelude::*;
use vstd::string::*;
use crate::strs::to_owned_string;
use crate::syntax::token::{Token, TokenKind};

verus! {

/// Whether `\index` is allowed while arguments are evaluated: only where the content is placed
/// once (the page a marker lands on is the page of the content holding it).
#[derive(Debug, Clone, Copy, PartialEq, Eq, Structural)]
pub enum IndexPolicy {
    /// `\index` is allowed (captions, table body cells; styled text and footnotes inherit).
    Allow,
    /// `\index` is rejected (headings, link texts, table head cells, the word of `\index`).
    Reject,
}

/// An inline element that stands on its own.
#[derive(Debug, Clone, PartialEq, Eq)]
pub enum InlineLeaf {
    /// Text.
    Text(String),
    /// A forced line break.
    LineBreak,
}

/// The inline content of one token.
#[derive(Debug, PartialEq, Eq)]
pub enum TokenInline<'s> {
    /// Text from a text token, which may be merged with neighbouring text across index markers.
    MergeableText(&'s str),
    /// An inline element that is never merged.
    Leaf(InlineLeaf),
    /// A paragraph break (it closes the paragraph in running text and is an error in arguments).
    ParagraphBreak,
}

/// The tokens whose source text becomes text as it is: verbatim text, white space, newlines,
/// and the single-character tokens `_ ^ & , =` left where they have no structural meaning.
pub open spec fn is_literal_text_kind(k: TokenKind) -> bool {
    k == TokenKind::VerbatimText || k == TokenKind::Whitespace || k == TokenKind::Newline
        || k == TokenKind::Comma || k == TokenKind::Equals || k == TokenKind::Underscore
        || k == TokenKind::Caret || k == TokenKind::Ampersand
}

/// The tokens that contribute nothing: structural tokens (command, brackets, `$`), comments,
/// and unrecognised tokens. What they stand for lives in the nodes the parser built.
pub open spec fn is_dropped_kind(k: TokenKind) -> bool {
    k == TokenKind::Command || k == TokenKind::LBrace || k == TokenKind::RBrace
        || k == TokenKind::LBracket || k == TokenKind::RBracket || k == TokenKind::Dollar
        || k == TokenKind::Comment || k == TokenKind::Unknown
}

/// The inline content of `token`: mergeable text for a text token, its source text for the
/// literal kinds, the escaped character for an escape, a line break, a paragraph break, or
/// nothing for the dropped kinds.
pub fn inline_from_token<'s>(source: &'s str, token: &Token) -> (r: Option<TokenInline<'s>>)
    requires
        token.wf(source.spec_bytes()),
    ensures
        token.kind == TokenKind::Text ==> (r matches Some(TokenInline::MergeableText(s))
            && s@ == token.spec_text(source.spec_bytes())),
        is_literal_text_kind(token.kind) ==> (r matches Some(TokenInline::Leaf(InlineLeaf::Text(s)))
            && s@ == token.spec_text(source.spec_bytes())),
        token.kind == TokenKind::Escaped ==> (r matches Some(TokenInline::Leaf(InlineLeaf::Text(s)))
            && s@ == token.spec_tail(source.spec_bytes())),
        token.kind == TokenKind::LineBreak ==> r == Some(TokenInline::Leaf(InlineLeaf::LineBreak)),
        token.kind == TokenKind::ParagraphBreak ==> r == Some(TokenInline::ParagraphBreak),
        is_dropped_kind(token.kind) <==> r is None,
{
    match token.kind {
        TokenKind::Text => Some(TokenInline::MergeableText(token.text(source))),
        TokenKind::VerbatimText | TokenKind::Whitespace | TokenKind::Newline | TokenKind::Comma
        | TokenKind::Equals | TokenKind::Underscore | TokenKind::Caret | TokenKind::Ampersand => {
            Some(TokenInline::Leaf(InlineLeaf::Text(to_owned_string(token.text(source)))))
        },
        TokenKind::Escaped => Some(TokenInline::Leaf(InlineLeaf::Text(to_owned_string(token.tail(source))))),
        TokenKind::LineBreak => Some(TokenInline::Leaf(InlineLeaf::LineBreak)),
        TokenKind::ParagraphBreak => Some(TokenInline::ParagraphBreak),
        TokenKind::Command | TokenKind::LBrace | TokenKind::RBrace | TokenKind::LBracket
        | TokenKind::RBracket | TokenKind::Dollar | TokenKind::Comment | TokenKind::Unknown => None,
    }
}

} // verus!
