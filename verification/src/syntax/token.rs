//! Tokens: a kind and a byte span into the source; the text is never copied into the token.

use vstd::prelude::*;
use vstd::utf8::*;
use vstd::string::*;
use crate::strs::{byte_slice, char_range, range_chars};
use crate::syntax::span::Span;

verus! {

/// The kinds of token a source text is made of.
#[derive(Debug, PartialEq, Eq, Clone, Copy, Hash, Structural)]
pub enum TokenKind {
    /// A command `\name`.
    Command,
    /// `{`
    LBrace,
    /// `}`
    RBrace,
    /// `[`
    LBracket,
    /// `]`
    RBracket,
    /// `$`, which opens and closes inline math.
    Dollar,
    /// `_`, a subscript in math.
    Underscore,
    /// `^`, a superscript in math.
    Caret,
    /// `&`, an alignment or cell separator.
    Ampersand,
    /// `,`, an entry separator in optional arguments.
    Comma,
    /// `=`, the key/value separator in optional arguments.
    Equals,
    /// An escaped character such as `\{`, `\}` or `\$`.
    Escaped,
    /// Plain text.
    Text,
    /// A forced line break `\\`.
    LineBreak,
    /// A paragraph break (an empty line).
    ParagraphBreak,
    /// Horizontal white space.
    Whitespace,
    /// A single newline that does not end a paragraph.
    Newline,
    /// A comment `// ...`.
    Comment,
    /// The raw body of a verbatim region.
    VerbatimText,
    /// A token that could not be recognised.
    Unknown,
}

/// The user-facing rendering of a token kind: the source symbol, or a description that never
/// exposes the variant's identifier.
pub open spec fn token_kind_label(kind: TokenKind) -> Seq<char> {
    match kind {
        TokenKind::Command => "\\<command>"@,
        TokenKind::LBrace => "{"@,
        TokenKind::RBrace => "}"@,
        TokenKind::LBracket => "["@,
        TokenKind::RBracket => "]"@,
        TokenKind::Dollar => "$"@,
        TokenKind::Underscore => "_"@,
        TokenKind::Caret => "^"@,
        TokenKind::Ampersand => "&"@,
        TokenKind::Comma => ","@,
        TokenKind::Equals => "="@,
        TokenKind::Escaped => "<エスケープ文字>"@,
        TokenKind::Text => "<テキスト>"@,
        TokenKind::LineBreak => "\\\\"@,
        TokenKind::ParagraphBreak => "<段落区切り>"@,
        TokenKind::Whitespace => "<空白>"@,
        TokenKind::Newline => "<改行>"@,
        TokenKind::Comment => "<コメント>"@,
        TokenKind::VerbatimText => "<verbatim テキスト>"@,
        TokenKind::Unknown => "<不正なトークン>"@,
    }
}

impl TokenKind {
    /// The user-facing rendering of this kind (what diagnostics print for it).
    pub fn label(self) -> (s: &'static str)
        ensures
            s@ == token_kind_label(self),
    {
        match self {
            TokenKind::Command => "\\<command>",
            TokenKind::LBrace => "{",
            TokenKind::RBrace => "}",
            TokenKind::LBracket => "[",
            TokenKind::RBracket => "]",
            TokenKind::Dollar => "$",
            TokenKind::Underscore => "_",
            TokenKind::Caret => "^",
            TokenKind::Ampersand => "&",
            TokenKind::Comma => ",",
            TokenKind::Equals => "=",
            TokenKind::Escaped => "<エスケープ文字>",
            TokenKind::Text => "<テキスト>",
            TokenKind::LineBreak => "\\\\",
            TokenKind::ParagraphBreak => "<段落区切り>",
            TokenKind::Whitespace => "<空白>",
            TokenKind::Newline => "<改行>",
            TokenKind::Comment => "<コメント>",
            TokenKind::VerbatimText => "<verbatim テキスト>",
            TokenKind::Unknown => "<不正なトークン>",
        }
    }

    /// Whether this kind is trivia: white space, a single newline or a comment.
    pub open spec fn spec_is_trivia(self) -> bool {
        self == TokenKind::Comment || self == TokenKind::Whitespace || self == TokenKind::Newline
    }

    /// Whether this kind is trivia: white space, a single newline or a comment.
    pub fn is_trivia(self) -> (b: bool)
        ensures
            b == self.spec_is_trivia(),
    {
        match self {
            TokenKind::Comment | TokenKind::Whitespace | TokenKind::Newline => true,
            _ => false,
        }
    }
}

/// A token: its kind and the bytes of the source it covers.
#[derive(Debug, Clone, Copy, PartialEq, Eq, Structural)]
pub struct Token {
    /// The kind of the token.
    pub kind: TokenKind,
    /// The bytes of the source the token covers.
    pub span: Span,
}

impl Token {
    /// The token covers whole characters of `src`, and a command or an escape starts with a
    /// one-byte character (the backslash) that can be cut off.
    pub open spec fn wf(self, src: Seq<u8>) -> bool {
        &&& char_range(src, self.span.start as int, self.span.end as int)
        &&& (self.kind == TokenKind::Command || self.kind == TokenKind::Escaped) ==> {
            &&& self.span.start + 1 <= self.span.end
            &&& is_char_boundary(src, self.span.start + 1)
        }
    }

    /// The characters of the source that the token covers.
    pub open spec fn spec_text(self, src: Seq<u8>) -> Seq<char> {
        range_chars(src, self.span.start as int, self.span.end as int)
    }

    /// The characters of the token without its first byte (the backslash of a command or of an
    /// escape).
    pub open spec fn spec_tail(self, src: Seq<u8>) -> Seq<char> {
        range_chars(src, self.span.start + 1, self.span.end as int)
    }

    /// Builds a token.
    pub fn new(kind: TokenKind, span: Span) -> (t: Token)
        ensures
            t.kind == kind,
            t.span == span,
    {
        Token { kind, span }
    }

    /// The part of `source` the token covers.
    pub fn text<'s>(&self, source: &'s str) -> (r: &'s str)
        requires
            char_range(source.spec_bytes(), self.span.start as int, self.span.end as int),
        ensures
            r@ == self.spec_text(source.spec_bytes()),
    {
        byte_slice(source, self.span.start as usize, self.span.end as usize)
    }

    /// The text after the leading backslash of a command or an escape.
    pub fn tail<'s>(&self, source: &'s str) -> (r: &'s str)
        requires
            self.kind == TokenKind::Command || self.kind == TokenKind::Escaped,
            self.wf(source.spec_bytes()),
        ensures
            r@ == self.spec_tail(source.spec_bytes()),
    {
        byte_slice(source, self.span.start as usize + 1, self.span.end as usize)
    }

    /// The name of a command token: its text without the leading `\`.
    pub fn command_name<'s>(&self, source: &'s str) -> (r: &'s str)
        requires
            self.kind == TokenKind::Command,
            self.wf(source.spec_bytes()),
        ensures
            r@ == self.spec_tail(source.spec_bytes()),
    {
        self.tail(source)
    }
}

} // verus!
