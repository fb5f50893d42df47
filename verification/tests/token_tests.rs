use seiran_compiler::syntax::span::Span;
use seiran_compiler::syntax::token::{Token, TokenKind};

#[test]
fn token_kind_is_copy() {
    let kind = TokenKind::Command;
    let kind2 = kind;
    assert_eq!(kind, kind2);
}

#[test]
fn token_text_extracts_from_source() {
    let source = "hello world";
    let token = Token::new(TokenKind::Text, Span::new(0, 5));
    assert_eq!(token.text(source), "hello");
}

#[test]
fn command_name_strips_backslash() {
    let source = r"\bold";
    let token = Token::new(TokenKind::Command, Span::new(0, 5));
    assert_eq!(token.command_name(source), "bold");
}

#[test]
fn display_returns_symbol_for_single_char_tokens() {
    assert_eq!(TokenKind::LBrace.label(), "{");
    assert_eq!(TokenKind::RBrace.label(), "}");
    assert_eq!(TokenKind::LBracket.label(), "[");
    assert_eq!(TokenKind::RBracket.label(), "]");
    assert_eq!(TokenKind::Dollar.label(), "$");
    assert_eq!(TokenKind::Underscore.label(), "_");
    assert_eq!(TokenKind::Caret.label(), "^");
    assert_eq!(TokenKind::Ampersand.label(), "&");
    assert_eq!(TokenKind::Comma.label(), ",");
    assert_eq!(TokenKind::Equals.label(), "=");
}

#[test]
fn display_returns_double_backslash_for_line_break() {
    assert_eq!(TokenKind::LineBreak.label(), "\\\\");
}

#[test]
fn display_does_not_leak_debug_identifiers() {
    let kinds = [
        TokenKind::Command,
        TokenKind::Escaped,
        TokenKind::Text,
        TokenKind::ParagraphBreak,
        TokenKind::Whitespace,
        TokenKind::Newline,
        TokenKind::Comment,
        TokenKind::VerbatimText,
        TokenKind::Unknown,
    ];
    for kind in kinds {
        let display = kind.label().to_string();
        let debug = format!("{kind:?}");
        assert_ne!(display, debug, "{kind:?} の Display は Debug と異なるべき");
    }
}

#[test]
fn escaped_token_tail_drops_the_backslash() {
    let source = r"\$";
    let token = Token::new(TokenKind::Escaped, Span::new(0, 2));
    assert_eq!(token.tail(source), "$");
}

#[test]
fn span_merge_covers_both_spans() {
    let merged = Span::new(3, 5).merge(Span::new(1, 4));
    assert_eq!(merged, Span::new(1, 5));
    assert_eq!(merged.len(), 4);
}
