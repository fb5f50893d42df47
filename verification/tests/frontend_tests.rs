use seiran_compiler::evaluator::arity::{exactly_one_arg, exactly_two_args, no_args};
use seiran_compiler::evaluator::body_scan::strict_command_calls;
use seiran_compiler::evaluator::command::{
    command_kind, expect_bare_command, expected_name, lookup_arg_mode, ArgMode, CommandKind, FontKind, HeadingLevel,
};
use seiran_compiler::evaluator::context::EvalContext;
use seiran_compiler::evaluator::environment::{
    environment_kind, is_trivia_element, lookup_body_mode, BodyMode, EnvironmentKind, GridLayout, GridSpec,
    MathEnvKind, NumberingMode, QuoteKind, RegistryModes, TheoremClass,
};
use seiran_compiler::evaluator::footnote::footnote_command;
use seiran_compiler::evaluator::heading::heading;
use seiran_compiler::evaluator::list::{list, ListParts};
use seiran_compiler::evaluator::context::NodeId;
use seiran_compiler::evaluator::numbering::{
    assign_numbering, into_unnumbered_rows, number_math_grid, parse_math_env_opts, trim_trailing_blank_marker_rows,
    GridRow, RowLabel,
};
use seiran_compiler::evaluator::quote::{quote, QuoteParts};
use seiran_compiler::evaluator::theorem::{theorem, TheoremParts};
use seiran_compiler::evaluator::error::EvalError;
use seiran_compiler::evaluator::inline::{inline_from_token, IndexPolicy, InlineLeaf, TokenInline};
use seiran_compiler::evaluator::placement::Placement;
use seiran_compiler::evaluator::table::{
    collect_table_opts, parse_columns_spec, parse_widths_spec, ColumnAlign, ColumnWidth, TableOpts,
};
use seiran_compiler::evaluator::code_block::{code_block_text, code_command};
use seiran_compiler::evaluator::cite::cite_command;
use seiran_compiler::evaluator::link::{href_command, url_command};
use seiran_compiler::evaluator::opt_args::{
    boolean, collect_command_opt_args, color, expect_no_opt_args, format_expected, length, parse_value, positive_int,
    positive_length, rounded_int, string, Color, FractionPolicy, OptType, OptValue,
};
use seiran_compiler::length::{split_length_literal, Length, LengthUnit};
use seiran_compiler::project::path::ProjectPath;
use seiran_compiler::project::path_resolver::PathResolver;
use seiran_compiler::project::source_set::SourceId;
use seiran_compiler::syntax::green::{GreenElement, GreenNode, SyntaxKind};
use seiran_compiler::syntax::parser::{parse, ParseMode, ParserError};
use seiran_compiler::syntax::span::Span;
use seiran_compiler::syntax::token::{Token, TokenKind};
use seiran_compiler::syntax::view::{
    extract_text_content, parse_key_value_options, split_text_on_commas, CommandView, EnvironmentView,
};

/// Splits a source into tokens as the front end's lexer does, reading raw the first argument
/// of the commands that the registry declares so (`\code`, `\url`, `\href`).
fn lex(source: &str) -> Vec<Token> {
    let mut tokens = Vec::new();
    lex_range(source, 0, source.len(), &mut tokens);
    tokens
}

/// After `\begin` at `i`: when the environment's body is read raw, lexes its `{name}`, an
/// adjacent `[...]`, and the body up to `\end{name}` as one verbatim text; returns where
/// lexing goes on (`i` itself for any other environment).
fn lex_verbatim_environment(source: &str, i: usize, to: usize, tokens: &mut Vec<Token>) -> usize {
    let rest = &source[i..to];
    let Some(close) = rest.find('}') else {
        return i;
    };
    if !rest.starts_with('{') || lookup_body_mode(&rest[1..close]) != BodyMode::Verbatim {
        return i;
    }
    let name = &rest[1..close];
    tokens.push(Token::new(TokenKind::LBrace, Span::new(i as u32, i as u32 + 1)));
    if close > 1 {
        tokens.push(Token::new(TokenKind::Text, Span::new(i as u32 + 1, (i + close) as u32)));
    }
    tokens.push(Token::new(TokenKind::RBrace, Span::new((i + close) as u32, (i + close + 1) as u32)));
    let mut body_start = i + close + 1;
    if source[body_start..to].starts_with('[') {
        if let Some(end) = source[body_start..to].find(']') {
            lex_range(source, body_start, body_start + end + 1, tokens);
            body_start += end + 1;
        }
    }
    let end_marker = format!("\\end{{{name}}}");
    let body_end = source[body_start..to].find(&end_marker).map_or(to, |k| body_start + k);
    if body_end > body_start {
        tokens.push(Token::new(TokenKind::VerbatimText, Span::new(body_start as u32, body_end as u32)));
    }
    body_end
}

/// Lexes `source[from..to]` onto `tokens`, with spans in `source`.
fn lex_range(source: &str, from: usize, to: usize, tokens: &mut Vec<Token>) {
    let bytes = &source.as_bytes()[..to];
    let mut i = from;
    let mut verbatim_next = false;
    let push = |tokens: &mut Vec<Token>, kind: TokenKind, start: usize, end: usize| {
        tokens.push(Token::new(kind, Span::new(start as u32, end as u32)));
    };
    while i < bytes.len() {
        let c = source[i..to].chars().next().unwrap();
        let start = i;
        if verbatim_next && c == '{' {
            verbatim_next = false;
            push(tokens, TokenKind::LBrace, i, i + 1);
            i += 1;
            let body_start = i;
            let mut depth = 0usize;
            while i < bytes.len() && !(bytes[i] == b'}' && depth == 0) {
                match bytes[i] {
                    b'{' => depth += 1,
                    b'}' => depth -= 1,
                    _ => {},
                }
                i += 1;
            }
            if i > body_start {
                push(tokens, TokenKind::VerbatimText, body_start, i);
            }
            continue;
        }
        match c {
            '\\' => {
                let next = source[i + 1..to].chars().next();
                match next {
                    Some(n) if n.is_ascii_alphabetic() => {
                        i += 1;
                        while i < bytes.len() && (bytes[i] as char).is_ascii_alphabetic() {
                            i += 1;
                        }
                        let name = &source[start + 1..i];
                        verbatim_next = lookup_arg_mode(name, 0) == ArgMode::Verbatim;
                        push(tokens, TokenKind::Command, start, i);
                        if name == "begin" {
                            i = lex_verbatim_environment(source, i, to, tokens);
                        }
                    },
                    Some('\\') => {
                        i += 2;
                        push(tokens, TokenKind::LineBreak, start, i);
                    },
                    Some(n) if n.is_ascii_punctuation() => {
                        i += 2;
                        push(tokens, TokenKind::Escaped, start, i);
                    },
                    _ => {
                        i += 1;
                        push(tokens, TokenKind::Unknown, start, i);
                    },
                }
            },
            '{' | '}' | '[' | ']' | '$' | '_' | '^' | '&' | ',' | '=' => {
                let kind = match c {
                    '{' => TokenKind::LBrace,
                    '}' => TokenKind::RBrace,
                    '[' => TokenKind::LBracket,
                    ']' => TokenKind::RBracket,
                    '$' => TokenKind::Dollar,
                    '_' => TokenKind::Underscore,
                    '^' => TokenKind::Caret,
                    '&' => TokenKind::Ampersand,
                    ',' => TokenKind::Comma,
                    _ => TokenKind::Equals,
                };
                i += 1;
                push(tokens, kind, start, i);
            },
            ' ' | '\t' => {
                while i < bytes.len() && (bytes[i] == b' ' || bytes[i] == b'\t') {
                    i += 1;
                }
                push(tokens, TokenKind::Whitespace, start, i);
            },
            '\n' => {
                if source[i + 1..to].starts_with('\n') {
                    while i < bytes.len() && bytes[i] == b'\n' {
                        i += 1;
                    }
                    push(tokens, TokenKind::ParagraphBreak, start, i);
                } else {
                    i += 1;
                    push(tokens, TokenKind::Newline, start, i);
                }
            },
            '/' if source[i..to].starts_with("//") => {
                while i < bytes.len() && bytes[i] != b'\n' {
                    i += 1;
                }
                push(tokens, TokenKind::Comment, start, i);
            },
            _ => {
                while i < bytes.len() {
                    let d = source[i..to].chars().next().unwrap();
                    if "\\{}[]$_^&,= \t\n".contains(d) || source[i..to].starts_with("//") {
                        break;
                    }
                    i += d.len_utf8();
                }
                push(tokens, TokenKind::Text, start, i);
            },
        }
    }
}

fn parse_result(source: &str) -> Result<GreenNode, ParserError> {
    let tokens = lex(source);
    parse(source, &tokens, &RegistryModes)
}

fn parse_source(source: &str) -> GreenNode {
    parse_result(source).expect("the source parses")
}

fn first_command(root: &GreenNode) -> &GreenNode {
    for child in &root.children {
        if let GreenElement::Node(n) = child {
            if n.kind == SyntaxKind::CommandCall {
                return n;
            }
        }
    }
    panic!("no CommandCall node");
}

fn href_url(source: &str) -> String {
    let root = parse_source(source);
    let view = CommandView::new(first_command(&root), source);
    href_command(&view).expect("a well-formed \\href").url
}

fn href_error(source: &str) -> EvalError {
    let root = parse_source(source);
    let view = CommandView::new(first_command(&root), source);
    href_command(&view).expect_err("a malformed \\href")
}

/// Rounds a point value to the nearest scaled point, ties to even.
fn round_to_pt_sp(pt: f64) -> i64 {
    (pt * 65536.0).round_ties_even() as i64
}

/// A length of `value` millimetres, rounded through points to scaled points.
fn mm(value: f32) -> Length {
    Length::from_sp(round_to_pt_sp(f64::from(value) * 72.0 / 25.4))
}

/// A length of `value` centimetres, rounded through points to scaled points.
fn cm(value: f32) -> Length {
    Length::from_sp(round_to_pt_sp(f64::from(value) * 10.0 * 72.0 / 25.4))
}

/// Reads `<num>`, `<num>mm` or `<num>cm` (suffix case-insensitive, bare numbers in mm).
fn read_length(raw: &str) -> Option<Length> {
    let trimmed = raw.trim();
    if trimmed.is_empty() {
        return None;
    }
    let lower = trimmed.to_ascii_lowercase();
    if let Some(stripped) = lower.strip_suffix("mm") {
        let value: f32 = stripped.trim_end().parse().ok()?;
        return Some(mm(value));
    }
    if let Some(stripped) = lower.strip_suffix("cm") {
        let value: f32 = stripped.trim_end().parse().ok()?;
        return Some(cm(value));
    }
    let value: f32 = lower.parse().ok()?;
    Some(mm(value))
}

fn read_int(raw: &str, policy: FractionPolicy) -> Option<u32> {
    let parsed: f64 = raw.trim().parse().ok()?;
    if !parsed.is_finite() || parsed > f64::from(u32::MAX) {
        return None;
    }
    let value = match policy {
        FractionPolicy::Reject if parsed.fract() != 0.0 => return None,
        FractionPolicy::Reject => parsed,
        FractionPolicy::Round => parsed.round(),
    };
    if value < 1.0 {
        return None;
    }
    Some(value as u32)
}

#[test]
fn href_keeps_special_characters_inert_in_the_url_arg() {
    assert_eq!(href_url(r"\href{https://example.com/a_b?x=1&y=2}{ここ}"), "https://example.com/a_b?x=1&y=2");
}

#[test]
fn href_trims_surrounding_whitespace_in_the_url_arg() {
    assert_eq!(href_url(r"\href{  https://example.com  }{ここ}"), "https://example.com");
}

#[test]
fn href_keeps_backslash_inert_in_the_url_arg() {
    assert_eq!(href_url(r"\href{https:\/\/example.com}{ここ}"), r"https:\/\/example.com");
}

#[test]
fn href_takes_url_and_display_text_as_two_mandatory_args() {
    let source = r"\href{https://example.com}{ここ}";
    let root = parse_source(source);
    let view = CommandView::new(first_command(&root), source);

    let parts = href_command(&view).unwrap();

    assert_eq!(parts.url, "https://example.com");
    assert_eq!(parts.display.kind, SyntaxKind::MandatoryArg);
    assert_eq!(&source[parts.display.span.start as usize..parts.display.span.end as usize], "{ここ}");
}

#[test]
fn href_rejects_the_old_opt_url_syntax() {
    let error = href_error(r"\href[url=https:\/\/example.com]{ここ}");

    assert!(matches!(error, EvalError::UnknownOptArgKey { ref key, .. } if key == "url"), "{error:?}");
}

#[test]
fn href_rejects_a_single_argument() {
    let error = href_error(r"\href{表示だけ}");

    assert!(matches!(error, EvalError::MissingCommandArgument { ref name, .. } if name == "href"), "{error:?}");
}

#[test]
fn href_rejects_three_arguments() {
    let error = href_error(r"\href{https://example.com}{ここ}{余分}");

    assert!(matches!(error, EvalError::ExtraCommandArgument { ref name, .. } if name == "href"), "{error:?}");
}

#[test]
fn url_keeps_special_characters_inert() {
    let source = r"\url{https://example.com/a_b?x=1&y=2}";
    let root = parse_source(source);
    let view = CommandView::new(first_command(&root), source);

    assert_eq!(url_command(&view).unwrap().url, "https://example.com/a_b?x=1&y=2");
}

#[test]
fn url_requires_exactly_one_argument() {
    let source = r"\url";
    let root = parse_source(source);
    let view = CommandView::new(first_command(&root), source);

    let error = url_command(&view).unwrap_err();

    assert!(matches!(error, EvalError::MissingCommandArgument { ref name, ref expected, .. }
        if name == "url" && expected == "URI"), "{error:?}");
}

#[test]
fn resolve_path_applies_the_resolver_base_dir() {
    let resolver = PathResolver::new("/project");
    let ctx = EvalContext::new(SourceId::new(0), &resolver);

    assert!(ctx.resolve_path("fig/a.png").same_as(&ProjectPath::new("/project/fig/a.png")));
}

#[test]
fn finish_carries_the_source_id_and_the_spans_of_evaluated_nodes() {
    let resolver = PathResolver::new("");
    let mut ctx = EvalContext::new(SourceId::new(3), &resolver);

    let id = ctx.allocate(Span::new(0, 4));
    let hir = ctx.finish(vec![id]);

    assert_eq!(hir.group.source_id, SourceId::new(3));
    assert_eq!(hir.group.nodes.len(), 1);
    assert_eq!(hir.spans.span_of(id), Span::new(0, 4));
}

#[test]
fn allocated_ids_are_sequential_and_spans_can_be_settled_later() {
    let resolver = PathResolver::new("/p");
    let mut ctx = EvalContext::new(SourceId::new(1), &resolver);

    let parent = ctx.allocate(Span::dummy());
    let child = ctx.allocate(Span::new(2, 5));
    ctx.set_span(parent, Span::new(0, 9));

    assert_eq!(parent.index, 0);
    assert_eq!(child.index, 1);
    assert_eq!(ctx.span_of(parent), Span::new(0, 9));
    assert_eq!(ctx.span_of(child), Span::new(2, 5));
}

#[test]
fn body_mode_is_derived_from_the_registered_kind() {
    assert_eq!(lookup_body_mode("itemize"), BodyMode::Text);
    assert_eq!(lookup_body_mode("align"), BodyMode::Math);
    assert_eq!(lookup_body_mode("code"), BodyMode::Verbatim);
}

#[test]
fn unregistered_environment_falls_back_to_text() {
    assert_eq!(lookup_body_mode("nope"), BodyMode::Text);
}

#[test]
fn theorem_names_carry_their_class_in_the_registry() {
    assert!(matches!(
        environment_kind("lemma"),
        Some(EnvironmentKind::Theorem(class)) if class == TheoremClass::Lemma
    ));
}

#[test]
fn math_grids_carry_their_separators_and_numbering() {
    assert_eq!(
        environment_kind("gather"),
        Some(EnvironmentKind::MathGrid {
            kind: MathEnvKind::Gather,
            spec: GridSpec { allow_row_breaks: true, allow_column_breaks: false },
            numbering: NumberingMode::PerRow,
        })
    );
    assert_eq!(environment_kind("enumerate"), Some(EnvironmentKind::List { ordered: true }));
    assert_eq!(environment_kind("Itemize"), None);
}

#[test]
fn inline_from_token_maps_single_char_tokens_to_their_source_text() {
    let source = "_^&,=";
    let cases = [
        (TokenKind::Underscore, 0u32, "_"),
        (TokenKind::Caret, 1, "^"),
        (TokenKind::Ampersand, 2, "&"),
        (TokenKind::Comma, 3, ","),
        (TokenKind::Equals, 4, "="),
    ];

    for (kind, offset, expected) in cases {
        let token = Token { kind, span: Span::new(offset, offset + 1) };
        let result = inline_from_token(source, &token);

        assert!(
            matches!(result, Some(TokenInline::Leaf(InlineLeaf::Text(ref text))) if text == expected),
            "{kind:?}: {result:?}"
        );
    }
}

#[test]
fn inline_from_token_strips_the_backslash_of_an_escaped_token() {
    let source = r"\$";

    let token = Token { kind: TokenKind::Escaped, span: Span::new(0, 2) };
    let result = inline_from_token(source, &token);

    assert!(matches!(result, Some(TokenInline::Leaf(InlineLeaf::Text(ref text))) if text == "$"), "{result:?}");
}

#[test]
fn inline_from_token_marks_plain_text_as_mergeable() {
    let source = "abc";

    let token = Token { kind: TokenKind::Text, span: Span::new(0, 3) };
    let result = inline_from_token(source, &token);

    assert!(matches!(result, Some(TokenInline::MergeableText("abc"))), "{result:?}");
}

#[test]
fn inline_from_token_drops_structural_tokens() {
    let source = r"\bold{}[]$// x";
    let kinds = [
        TokenKind::Command,
        TokenKind::LBrace,
        TokenKind::RBrace,
        TokenKind::LBracket,
        TokenKind::RBracket,
        TokenKind::Dollar,
        TokenKind::Comment,
        TokenKind::Unknown,
    ];

    for kind in kinds {
        let token = Token { kind, span: Span::new(0, 1) };
        let result = inline_from_token(source, &token);

        assert!(result.is_none(), "{kind:?}: {result:?}");
    }
}

#[test]
fn inline_from_token_turns_breaks_into_their_elements() {
    let source = "\\\\\n\n";
    let line_break = Token { kind: TokenKind::LineBreak, span: Span::new(0, 2) };
    let paragraph_break = Token { kind: TokenKind::ParagraphBreak, span: Span::new(2, 4) };

    assert_eq!(inline_from_token(source, &line_break), Some(TokenInline::Leaf(InlineLeaf::LineBreak)));
    assert_eq!(inline_from_token(source, &paragraph_break), Some(TokenInline::ParagraphBreak));
}

#[test]
fn format_expected_lists_keys_with_types_when_non_empty() {
    let label = string("label");
    let width = length("width");

    assert_eq!(format_expected(&[label.decl(), width.decl()]), "label: string, width: length (mm/cm)");
}

#[test]
fn format_expected_indicates_no_keys_when_empty() {
    assert_eq!(format_expected(&[]), "（このコマンド/環境は任意引数を受け付けません）");
}

#[test]
fn opt_type_display_lists_expected_format() {
    let cases = [
        (OptType::Bool, "boolean"),
        (OptType::String, "string"),
        (OptType::Length, "length (mm/cm)"),
        (OptType::PositiveLength, "positive length"),
        (OptType::PositiveInt, "positive integer"),
        (OptType::RoundedInt, "positive integer"),
        (OptType::Color, "color (#rrggbb)"),
    ];

    for (ty, expected) in cases {
        assert_eq!(ty.label(), expected);
    }
}

fn collect(source: &str, schema: &[seiran_compiler::evaluator::opt_args::OptDecl])
    -> Result<seiran_compiler::evaluator::opt_args::OptArgs, EvalError> {
    let root = parse_source(source);
    let view = CommandView::new(first_command(&root), source);
    collect_command_opt_args(&view, schema, &read_length, &read_int)
}

#[test]
fn collect_returns_string_when_schema_allows() {
    let label = string("label");

    let opts = collect(r"\section[label=foo]{Title}", &[label.decl()]).unwrap();

    assert_eq!(opts.get(label), Some("foo".to_string()));
}

#[test]
fn collect_returns_error_for_unknown_key() {
    let result = collect(r"\section[unknown=v]{Title}", &[]);

    assert!(matches!(result, Err(EvalError::UnknownOptArgKey { ref key, ref expected_keys, .. })
        if key == "unknown" && expected_keys == "（このコマンド/環境は任意引数を受け付けません）"));
}

#[test]
fn collect_returns_error_for_duplicate_bare_key() {
    let draft = boolean("draft");

    let result = collect(r"\section[draft, draft=false]{Title}", &[draft.decl()]);

    assert!(matches!(result, Err(EvalError::DuplicateOptArgKey { ref key, .. }) if key == "draft"));
}

#[test]
fn collect_reports_the_first_failing_entry() {
    let width = length("width");

    let result = collect(r"\section[width=10pt, other=1]{T}", &[width.decl()]);

    assert!(matches!(result, Err(EvalError::InvalidOptArgValue { ref key, ref expected, .. })
        if key == "width" && expected == "length (mm/cm)"), "{result:?}");
}

#[test]
fn collect_reads_bools_case_insensitively_and_bare_keys_as_true() {
    let draft = boolean("draft");
    let numbered = boolean("numbered");

    let opts = collect(r"\section[draft, numbered=FALSE]{T}", &[draft.decl(), numbered.decl()]).unwrap();

    assert_eq!(opts.get(draft), Some(true));
    assert_eq!(opts.get(numbered), Some(false));
}

#[test]
fn collect_rejects_non_positive_lengths_and_integers() {
    let width = positive_length("width");
    let start = positive_int("start");

    assert!(collect(r"\section[width=0mm]{T}", &[width.decl()]).is_err());
    assert!(collect(r"\section[width=-5mm]{T}", &[width.decl()]).is_err());
    assert!(collect(r"\section[start=0]{T}", &[start.decl()]).is_err());
    assert!(collect(r"\section[start=2.5]{T}", &[start.decl()]).is_err());
    let opts = collect(r"\section[width=5cm, start=5]{T}", &[width.decl(), start.decl()]).unwrap();
    assert_eq!(opts.get(width), read_length("5cm"));
    assert_eq!(opts.get(start), Some(5));
}

#[test]
fn collect_rounds_fraction_for_rounded_int() {
    let dpi = rounded_int("dpi");

    let opts = collect(r"\section[dpi=72.5]{T}", &[dpi.decl()]).unwrap();

    assert_eq!(opts.get(dpi), Some(73));
}

#[test]
fn string_values_lose_one_pair_of_surrounding_quotes() {
    let value = parse_value("title", "  \"a, b\"  ", OptType::String, "figure", Span::new(0, 1), &read_length, &read_int);

    assert_eq!(value, Ok(OptValue::String("a, b".to_string())));
    let bare = parse_value("title", "\"", OptType::String, "figure", Span::new(0, 1), &read_length, &read_int);
    assert_eq!(bare, Ok(OptValue::String("\"".to_string())));
}

#[test]
fn colours_are_six_hex_digits_after_a_hash() {
    let key = color("color");
    let opts = collect(r"\color[color=#ccB599]{x}", &[key.decl()]).unwrap();
    assert_eq!(opts.get(key), Some(Color { red: 0xcc, green: 0xb5, blue: 0x99 }));

    for bad in ["ccb599", "#ccb59", "#ccb5990", "#ggb599"] {
        let value = parse_value("color", bad, OptType::Color, "color", Span::new(0, 1), &read_length, &read_int);
        assert!(matches!(value, Err(EvalError::InvalidOptArgValue { ref expected, .. }) if expected == "color (#rrggbb)"), "{bad}");
    }
}

#[test]
fn get_returns_none_for_unspecified_key() {
    let label = string("label");
    let numbered = boolean("numbered");

    let opts = collect(r"\section[label=foo]{T}", &[label.decl(), numbered.decl()]).unwrap();

    assert_eq!(opts.get(numbered), None);
}

#[test]
fn exactly_one_arg_reports_the_command_name_and_expectation_when_missing() {
    let source = r"\ref";
    let root = parse_source(source);
    let view = CommandView::new(first_command(&root), source);

    let result = exactly_one_arg(&view, "ラベル名");

    assert!(matches!(result, Err(EvalError::MissingCommandArgument { ref name, ref expected, .. })
        if name == "ref" && expected == "ラベル名"), "{result:?}");
}

#[test]
fn arity_checks_accept_exactly_the_declared_count() {
    let one = r"\ref{sec:a}";
    let root = parse_source(one);
    let view = CommandView::new(first_command(&root), one);
    assert!(exactly_one_arg(&view, "ラベル名").is_ok());
    assert!(matches!(no_args(&view), Err(EvalError::ExtraCommandArgument { ref name, .. }) if name == "ref"));
    assert!(matches!(exactly_two_args(&view, "2 個"), Err(EvalError::MissingCommandArgument { .. })));

    let two = r"\frac{a}{b}";
    let root = parse_source(two);
    let view = CommandView::new(first_command(&root), two);
    assert!(exactly_two_args(&view, "2 個").is_ok());
    assert!(matches!(exactly_one_arg(&view, "x"), Err(EvalError::ExtraCommandArgument { .. })));

    let none = r"\noindent";
    let root = parse_source(none);
    let view = CommandView::new(first_command(&root), none);
    assert!(no_args(&view).is_ok());
}

fn first_env_body(root: &GreenNode) -> &GreenNode {
    for child in &root.children {
        if let GreenElement::Node(n) = child {
            if n.kind == SyntaxKind::Environment {
                for c in &n.children {
                    if let GreenElement::Node(b) = c {
                        if b.kind == SyntaxKind::EnvironmentBody {
                            return b;
                        }
                    }
                }
            }
        }
    }
    panic!("no environment body");
}

#[test]
fn strict_scan_collects_allowed_commands() {
    let source = "\\begin{itemize}\n\\item{A}\n\\item{B}\n\\end{itemize}";
    let root = parse_source(source);
    let body = first_env_body(&root);

    let views = strict_command_calls(source, &body.children, "itemize", &[("item", ())], "\\item").unwrap();

    let names: Vec<&str> = views.iter().map(|((), view)| view.name()).collect();
    assert_eq!(names, vec!["item", "item"]);
}

#[test]
fn strict_scan_rejects_stray_text() {
    let source = r"\begin{itemize}some text\item{A}\end{itemize}";
    let root = parse_source(source);
    let body = first_env_body(&root);

    let result = strict_command_calls(source, &body.children, "itemize", &[("item", ())], "\\item");

    assert!(matches!(result, Err(EvalError::UnexpectedContentInEnvironment { ref env, .. }) if env == "itemize"));
}

#[test]
fn strict_scan_rejects_disallowed_command() {
    let source = r"\begin{itemize}\bold{x}\end{itemize}";
    let root = parse_source(source);
    let body = first_env_body(&root);

    let result = strict_command_calls(source, &body.children, "itemize", &[("item", ())], "\\item");

    assert!(matches!(result, Err(EvalError::UnexpectedCommandInEnvironment { ref name, .. }) if name == "bold"));
}

#[test]
fn strict_scan_carries_the_kind_of_the_first_matching_entry() {
    let source = "\\begin{table}\\head{a}\\row{b}\\end{table}";
    let root = parse_source(source);
    let body = first_env_body(&root);

    let views = strict_command_calls(source, &body.children, "table", &[("head", 1u8), ("row", 2u8), ("head", 3u8)], "x")
        .unwrap();

    let kinds: Vec<u8> = views.iter().map(|(k, _)| *k).collect();
    assert_eq!(kinds, vec![1, 2]);
}

#[test]
fn empty_input_returns_root() {
  let cst = parse_source("");
  assert_eq!(cst.kind, SyntaxKind::Root);
  assert!(cst.children.is_empty());
}

#[test]
fn plain_text() {
  let cst = parse_source("hello world");
  assert_eq!(cst.kind, SyntaxKind::Root);
  assert_eq!(cst.children.len(), 3);
  assert!(matches!(&cst.children[0], GreenElement::Token(t) if t.kind == TokenKind::Text));
  assert!(matches!(&cst.children[1], GreenElement::Token(t) if t.kind == TokenKind::Whitespace));
  assert!(matches!(&cst.children[2], GreenElement::Token(t) if t.kind == TokenKind::Text));
}

#[test]
fn paragraph_break() {
  let cst = parse_source("first\n\nsecond");
  assert_eq!(cst.children.len(), 3);
  assert!(matches!(&cst.children[1], GreenElement::Token(t) if t.kind == TokenKind::ParagraphBreak));
}

#[test]
fn line_break_token() {
  let cst = parse_source("hello\\\\world");
  assert_eq!(cst.children.len(), 3);
  assert!(matches!(&cst.children[1], GreenElement::Token(t) if t.kind == TokenKind::LineBreak));
}

#[test]
fn escaped_char_is_token() {
  let cst = parse_source("\\{");
  assert_eq!(cst.children.len(), 1);
  assert!(matches!(&cst.children[0], GreenElement::Token(t) if t.kind == TokenKind::Escaped));
}

#[test]
fn comments_are_preserved_in_cst() {
  let cst = parse_source("// comment\nhello");
  let has_comment = cst.children.iter().any(|e| matches!(e, GreenElement::Token(t) if t.kind == TokenKind::Comment));
  let has_text = cst.children.iter().any(|e| matches!(e, GreenElement::Token(t) if t.kind == TokenKind::Text));
  assert!(has_comment);
  assert!(has_text);
}

#[test]
fn command_without_args() {
  let cst = parse_source("\\foo");
  assert_eq!(cst.children.len(), 1);
  if let GreenElement::Node(n) = &cst.children[0] {
    assert_eq!(n.kind, SyntaxKind::CommandCall);
    assert_eq!(n.children.len(), 1);
  } else {
    panic!("CommandCall ノードが期待されます");
  }
}

#[test]
fn command_with_one_required_arg() {
  let cst = parse_source("\\bold{hello}");
  assert_eq!(cst.children.len(), 1);
  if let GreenElement::Node(cmd) = &cst.children[0] {
    assert_eq!(cmd.kind, SyntaxKind::CommandCall);
    let args = cmd.children_of_kind(SyntaxKind::MandatoryArg);
    assert_eq!(args.len(), 1);
  } else {
    panic!("CommandCall ノードが期待されます");
  }
}

#[test]
fn command_with_optional_and_required_args() {
  let cst = parse_source("\\cmd[opt]{arg}");
  if let GreenElement::Node(cmd) = &cst.children[0] {
    let opt_args = cmd.children_of_kind(SyntaxKind::OptArg);
    let req_args = cmd.children_of_kind(SyntaxKind::MandatoryArg);
    assert_eq!(opt_args.len(), 1);
    assert_eq!(req_args.len(), 1);
  } else {
    panic!("CommandCall ノードが期待されます");
  }
}

#[test]
fn simple_environment() {
  let cst = parse_source("\\begin{center}hello\\end{center}");
  assert_eq!(cst.children.len(), 1);
  if let GreenElement::Node(env) = &cst.children[0] {
    assert_eq!(env.kind, SyntaxKind::Environment);
    assert!(env.first_child_of_kind(SyntaxKind::EnvironmentBegin).is_some());
    assert!(env.first_child_of_kind(SyntaxKind::EnvironmentBody).is_some());
    assert!(env.first_child_of_kind(SyntaxKind::EnvironmentEnd).is_some());
  } else {
    panic!("Environment ノードが期待されます");
  }
}

#[test]
fn nested_environments() {
  let cst = parse_source("\\begin{outer}\\begin{inner}text\\end{inner}\\end{outer}");
  if let GreenElement::Node(env) = &cst.children[0] {
    let body = env.first_child_of_kind(SyntaxKind::EnvironmentBody).unwrap();
    let inner_env = body.children_of_kind(SyntaxKind::Environment);
    assert_eq!(inner_env.len(), 1);
  } else {
    panic!("Environment ノードが期待されます");
  }
}

#[test]
fn environment_mismatched_end_is_error() {
  let result = parse_result("\\begin{foo}content\\end{bar}");
  assert!(matches!(result, Err(ParserError::MismatchedEnvironment { .. })));
}

#[test]
fn simple_inline_math() {
  let cst = parse_source("$x$");
  assert_eq!(cst.children.len(), 1);
  if let GreenElement::Node(math) = &cst.children[0] {
    assert_eq!(math.kind, SyntaxKind::InlineMath);
  } else {
    panic!("InlineMath ノードが期待されます");
  }
}

#[test]
fn inline_math_with_group() {
  let cst = parse_source("${x}$");
  if let GreenElement::Node(math) = &cst.children[0] {
    let groups = math.children_of_kind(SyntaxKind::MathGroup);
    assert_eq!(groups.len(), 1);
  } else {
    panic!("InlineMath ノードが期待されます");
  }
}

#[test]
fn bare_group_at_top_level_is_error() {
  let result = parse_result("{hello}");
  assert!(matches!(result, Err(ParserError::BareGroup { .. })));
}

#[test]
fn bare_group_in_paragraph_is_error() {
  let result = parse_result("hello {world}");
  assert!(matches!(result, Err(ParserError::BareGroup { .. })));
}

#[test]
fn bare_group_in_environment_body_is_error() {
  // 注意: `\begin{env}{x}\end{env}` の `{x}` は \begin の追加 mandatory arg として
  // 解釈されるため、本体内 bare group のテストには `text{bare}` のように先頭にテキストを置く。
  let result = parse_result(r"\begin{env}text{bare}\end{env}");
  assert!(matches!(result, Err(ParserError::BareGroup { .. })));
}

#[test]
fn command_argument_brace_is_not_bare_group() {
  let cst = parse_source(r"\bold{hello}");
  if let GreenElement::Node(cmd) = &cst.children[0] {
    assert_eq!(cmd.kind, SyntaxKind::CommandCall);
  } else {
    panic!("CommandCall ノードが期待されます");
  }
}

#[test]
fn unexpected_rbrace_at_top_level() {
  let result = parse_result("}");
  assert!(matches!(
    result,
    Err(ParserError::UnexpectedToken {
      kind: TokenKind::RBrace,
      ..
    })
  ));
}

#[test]
fn unexpected_rbracket_at_top_level() {
  let result = parse_result("]");
  assert!(matches!(
    result,
    Err(ParserError::UnexpectedToken {
      kind: TokenKind::RBracket,
      ..
    })
  ));
}

#[test]
fn stray_rbrace_in_environment_body_is_error_not_hang() {
  // 以前は環境本体で stray `}` が出ると parse_element が消費せず Ok を返し、
  // body ループが進捗ゼロで無限ループしていた。エラーで早期に止まることを確認する。
  let result = parse_result(r"\begin{env}}\end{env}");
  assert!(matches!(
    result,
    Err(ParserError::UnexpectedToken {
      kind: TokenKind::RBrace,
      ..
    })
  ));
}

#[test]
fn stray_rbracket_in_mandatory_arg_is_error_not_hang() {
  // 必須引数 `{...}` の中に stray `]` が出た場合も同様に無限ループしていた。
  let result = parse_result(r"\cmd{abc]def}");
  assert!(matches!(
    result,
    Err(ParserError::UnexpectedToken {
      kind: TokenKind::RBracket,
      ..
    })
  ));
}

#[test]
fn stray_rbrace_in_opt_arg_is_error_not_hang() {
  let result = parse_result(r"\cmd[abc}def]{x}");
  assert!(matches!(
    result,
    Err(ParserError::UnexpectedToken {
      kind: TokenKind::RBrace,
      ..
    })
  ));
}

#[test]
fn unclosed_brace_in_command_arg_returns_unclosed_delimiter() {
  let result = parse_result(r"\cmd{unclosed");
  assert!(matches!(
    result,
    Err(ParserError::UnclosedDelimiter {
      open_kind: TokenKind::LBrace,
      ..
    })
  ));
}

#[test]
fn unclosed_bracket_in_opt_arg_returns_unclosed_delimiter() {
  let result = parse_result(r"\cmd[opt");
  assert!(matches!(
    result,
    Err(ParserError::UnclosedDelimiter {
      open_kind: TokenKind::LBracket,
      ..
    })
  ));
}

#[test]
fn top_level_end_is_stray_end_error() {
  let result = parse_result(r"\end{foo}");
  assert!(matches!(result, Err(ParserError::StrayEnd { .. })));
}

#[test]
fn unexpected_token_error_message_uses_display() {
  let err = parse_result("}").unwrap_err();
  let msg = err.message();
  assert!(msg.contains('}'), "メッセージに '}}' が含まれるべき: {msg}");
  assert!(!msg.contains("RBrace"), "Debug 由来の識別子が漏れている: {msg}");
}

#[test]
fn lone_backslash_at_eof_is_error() {
  let result = parse_result(r"\");
  assert!(matches!(result, Err(ParserError::InvalidBackslash { .. })));
}

#[test]
fn backslash_followed_by_whitespace_is_error() {
  let result = parse_result("hello \\ world");
  assert!(matches!(result, Err(ParserError::InvalidBackslash { .. })));
}

#[test]
fn invalid_backslash_in_math_is_error() {
  let result = parse_result(r"$x \ y$");
  assert!(matches!(result, Err(ParserError::InvalidBackslash { .. })));
}

#[test]
fn environment_without_end_is_error() {
  let result = parse_result(r"\begin{env}body without end");
  assert!(matches!(result, Err(ParserError::UnclosedEnvironment { .. })));
}

#[test]
fn environment_without_end_after_args_is_error() {
  let result = parse_result(r"\begin{env}[opt]body");
  assert!(matches!(result, Err(ParserError::UnclosedEnvironment { .. })));
}

#[test]
fn math_group_unclosed_by_dollar_is_error() {
  let result = parse_result(r"${x$");
  assert!(matches!(result, Err(ParserError::UnclosedMathGroup { .. })));
}

#[test]
fn math_group_unclosed_by_eof_is_error() {
  let result = parse_result(r"${x");
  assert!(matches!(result, Err(ParserError::UnclosedMathGroup { .. })));
}

#[test]
fn span_tracks_command_with_arg() {
  let cst = parse_source("\\bold{text}");
  if let GreenElement::Node(cmd) = &cst.children[0] {
    assert_eq!(cmd.span, Span::new(0, 11));
  }
}

#[test]
fn span_tracks_environment() {
  let cst = parse_source("\\begin{env}body\\end{env}");
  if let GreenElement::Node(env) = &cst.children[0] {
    assert_eq!(env.span, Span::new(0, 24));
  }
}

#[test]
fn span_tracks_inline_math() {
  let cst = parse_source("$x$");
  if let GreenElement::Node(math) = &cst.children[0] {
    assert_eq!(math.span, Span::new(0, 3));
  }
}

#[test]
fn unclosed_inline_math_is_error() {
  let result = parse_result(r"$x");
  assert!(matches!(result, Err(ParserError::UnclosedInlineMath { .. })));
}

#[test]
fn currency_dollar_without_escape_is_error() {
  let result = parse_result(r"price is 100$");
  assert!(matches!(result, Err(ParserError::UnclosedInlineMath { .. })));
}

#[test]
fn bare_lbracket_in_text_is_error() {
  let result = parse_result("hello [world");
  assert!(matches!(result, Err(ParserError::BareBracket { .. })));
}

#[test]
fn escaped_bracket_in_text_is_ok() {
  let cst = parse_source(r"hello \[0\]");
  let has_escaped = cst.children.iter().any(|e| matches!(e, GreenElement::Token(t) if t.kind == TokenKind::Escaped));
  assert!(has_escaped);
}

#[test]
fn bare_lbracket_in_inline_math_is_error() {
  let result = parse_result(r"$[0,1]$");
  assert!(matches!(result, Err(ParserError::BareBracket { .. })));
}

#[test]
fn stray_rbrace_in_inline_math_is_error() {
  let result = parse_result(r"$x}$");
  assert!(matches!(
    result,
    Err(ParserError::UnexpectedToken {
      kind: TokenKind::RBrace,
      ..
    })
  ));
}

#[test]
fn dollar_in_math_environment_is_error() {
  let result = parse_result(r"\begin{equation}$x$\end{equation}");
  assert!(matches!(result, Err(ParserError::DollarInMathMode { .. })));
}

#[test]
fn math_script_without_content_before_dollar_is_error() {
  let result = parse_result(r"$x^$");
  assert!(matches!(
    result,
    Err(ParserError::UnexpectedToken {
      kind: TokenKind::Dollar,
      ..
    })
  ));
}

#[test]
fn math_script_skips_whitespace_before_content() {
  let cst = parse_source(r"$x^ 2$");
  let GreenElement::Node(math) = &cst.children[0] else {
    panic!("InlineMath ノードが期待されます");
  };
  let sups = math.children_of_kind(SyntaxKind::MathSuperscript);
  assert_eq!(sups.len(), 1);
  let content_text =
    sups[0].children.iter().any(|c| matches!(c, GreenElement::Token(t) if t.kind == TokenKind::Text));
  assert!(content_text, "スクリプト内容は Text トークンであるべき");
}

#[test]
fn math_script_invalid_backslash_content_is_error() {
  let result = parse_result("$x^\\ $");
  assert!(matches!(result, Err(ParserError::InvalidBackslash { .. })));
}

#[test]
fn dollar_dollar_returns_error() {
  let result = parse_result("$$");
  assert!(matches!(result, Err(ParserError::DollarDollarNotSupported { .. })));
}

#[test]
fn triple_dollar_returns_error() {
  let result = parse_result("$$$");
  assert!(matches!(result, Err(ParserError::DollarDollarNotSupported { .. })));
}

#[test]
fn dollar_dollar_in_paragraph_returns_error() {
  let result = parse_result("hello $$ world");
  assert!(matches!(result, Err(ParserError::DollarDollarNotSupported { .. })));
}

#[test]
fn underscore_outside_math_is_raw_token() {
  let cst = parse_source("hello_world");
  let kinds: Vec<_> = cst
    .children
    .iter()
    .filter_map(|e| {
      if let GreenElement::Token(t) = e {
        return Some(t.kind);
      }
      return None;
    })
    .collect();
  assert_eq!(kinds, vec![TokenKind::Text, TokenKind::Underscore, TokenKind::Text]);
}

#[test]
fn caret_outside_math_is_raw_token() {
  let cst = parse_source("a^b");
  let kinds: Vec<_> = cst
    .children
    .iter()
    .filter_map(|e| {
      if let GreenElement::Token(t) = e {
        return Some(t.kind);
      }
      return None;
    })
    .collect();
  assert_eq!(kinds, vec![TokenKind::Text, TokenKind::Caret, TokenKind::Text]);
}

#[test]
fn superscript_in_math_creates_node() {
  let cst = parse_source("$x^2$");
  if let GreenElement::Node(math) = &cst.children[0] {
    let sup = math.children_of_kind(SyntaxKind::MathSuperscript);
    assert_eq!(sup.len(), 1);
  } else {
    panic!("InlineMath ノードが期待されます");
  }
}

#[test]
fn subscript_in_math_creates_node() {
  let cst = parse_source("$x_i$");
  if let GreenElement::Node(math) = &cst.children[0] {
    let sub = math.children_of_kind(SyntaxKind::MathSubscript);
    assert_eq!(sub.len(), 1);
  } else {
    panic!("InlineMath ノードが期待されます");
  }
}

#[test]
fn subscript_with_group_in_math() {
  let cst = parse_source("$x_{ij}$");
  if let GreenElement::Node(math) = &cst.children[0] {
    let subs = math.children_of_kind(SyntaxKind::MathSubscript);
    assert_eq!(subs.len(), 1);
    let groups = subs[0].children_of_kind(SyntaxKind::MathGroup);
    assert_eq!(groups.len(), 1);
  } else {
    panic!("InlineMath ノードが期待されます");
  }
}

#[test]
fn subscript_and_superscript_combined() {
  let cst = parse_source("$a_i^2$");
  if let GreenElement::Node(math) = &cst.children[0] {
    let subs = math.children_of_kind(SyntaxKind::MathSubscript);
    let sups = math.children_of_kind(SyntaxKind::MathSuperscript);
    assert_eq!(subs.len(), 1);
    assert_eq!(sups.len(), 1);
  } else {
    panic!("InlineMath ノードが期待されます");
  }
}

#[test]
fn equation_env_body_is_parsed_in_math_mode() {
  let cst = parse_source(r"\begin{equation}x^{ij}\end{equation}");
  let GreenElement::Node(env) = &cst.children[0] else {
    panic!("Environment ノードが期待されます");
  };
  assert_eq!(env.kind, SyntaxKind::Environment);
  let body = env.first_child_of_kind(SyntaxKind::EnvironmentBody).unwrap();
  let sups = body.children_of_kind(SyntaxKind::MathSuperscript);
  assert_eq!(sups.len(), 1, "MathSuperscript が body 直下に出現するはず");
  let groups = sups[0].children_of_kind(SyntaxKind::MathGroup);
  assert_eq!(groups.len(), 1, "MathSuperscript の引数は MathGroup として構造化されるはず");
}

#[test]
fn non_math_env_body_keeps_caret_as_raw_token() {
  let cst = parse_source(r"\begin{itemize}a^b\end{itemize}");
  let GreenElement::Node(env) = &cst.children[0] else {
    panic!("Environment ノードが期待されます");
  };
  let body = env.first_child_of_kind(SyntaxKind::EnvironmentBody).unwrap();
  let sups = body.children_of_kind(SyntaxKind::MathSuperscript);
  assert_eq!(sups.len(), 0, "Text モードでは MathSuperscript 化されない");
  let has_caret = body.children.iter().any(|c| matches!(c, GreenElement::Token(t) if t.kind == TokenKind::Caret));
  assert!(has_caret, "raw Caret トークンとして残っているはず");
}

fn token_node(kind: SyntaxKind, span: Span, children: Vec<GreenElement>) -> GreenNode {
    GreenNode { kind, span, children }
}

#[test]
fn command_view_extracts_name() {
    let source = "\\bold{hello}";
    let cmd_token = Token::new(TokenKind::Command, Span::new(0, 5));
    let text_token = Token::new(TokenKind::Text, Span::new(6, 11));
    let lbrace = Token::new(TokenKind::LBrace, Span::new(5, 6));
    let rbrace = Token::new(TokenKind::RBrace, Span::new(11, 12));
    let arg_node = token_node(
        SyntaxKind::MandatoryArg,
        Span::new(5, 12),
        vec![GreenElement::Token(lbrace), GreenElement::Token(text_token), GreenElement::Token(rbrace)],
    );
    let cmd_node = token_node(
        SyntaxKind::CommandCall,
        Span::new(0, 12),
        vec![GreenElement::Token(cmd_token), GreenElement::Node(Box::new(arg_node))],
    );

    let view = CommandView::new(&cmd_node, source);

    assert_eq!(view.name(), "bold");
    assert_eq!(view.args_count(), 1);
    assert!(view.opt_arg().is_none());
    assert!(!view.args_is_empty());
}

#[test]
fn command_view_no_args() {
    let source = "\\alpha";
    let cmd_token = Token::new(TokenKind::Command, Span::new(0, 6));
    let cmd_node = token_node(SyntaxKind::CommandCall, Span::new(0, 6), vec![GreenElement::Token(cmd_token)]);

    let view = CommandView::new(&cmd_node, source);

    assert_eq!(view.name(), "alpha");
    assert!(view.args_is_empty());
    assert!(view.opt_arg().is_none());
}

#[test]
fn environment_view_extracts_name() {
    let source = "\\begin{center}body\\end{center}";
    let root = parse_source(source);
    let GreenElement::Node(env) = &root.children[0] else {
        panic!("an Environment node");
    };

    let view = EnvironmentView::new(env, source);

    assert_eq!(view.name(), "center");
    assert!(view.body().is_some());
    assert!(view.opt_arg().is_none());
    assert_eq!(view.span(), Span::new(0, 30));
}

#[test]
fn extract_text_content_from_arg() {
    let source = "{hello world}";
    let lbrace = Token::new(TokenKind::LBrace, Span::new(0, 1));
    let text = Token::new(TokenKind::Text, Span::new(1, 12));
    let rbrace = Token::new(TokenKind::RBrace, Span::new(12, 13));
    let node = token_node(
        SyntaxKind::MandatoryArg,
        Span::new(0, 13),
        vec![GreenElement::Token(lbrace), GreenElement::Token(text), GreenElement::Token(rbrace)],
    );

    assert_eq!(extract_text_content(source, &node), "hello world");
}

fn find_opt_arg(node: &GreenNode, container_kind: SyntaxKind) -> Option<&GreenNode> {
    if node.kind == container_kind {
        if let Some(opt) = node.first_child_of_kind(SyntaxKind::OptArg) {
            return Some(opt);
        }
        if let Some(begin) = node.first_child_of_kind(SyntaxKind::EnvironmentBegin) {
            if let Some(opt) = begin.first_child_of_kind(SyntaxKind::OptArg) {
                return Some(opt);
            }
        }
    }
    for child in &node.children {
        if let GreenElement::Node(n) = child {
            if let Some(found) = find_opt_arg(n, container_kind) {
                return Some(found);
            }
        }
    }
    None
}

fn first_opt_arg(root: &GreenNode, container_kind: SyntaxKind) -> &GreenNode {
    find_opt_arg(root, container_kind).expect("an OptArg")
}

#[test]
fn parse_key_value_options_env_optarg_basic() {
    let source = r"\begin{figure}[label=fig:foo, position = h]body\end{figure}";
    let cst = parse_source(source);
    let opt_arg = first_opt_arg(&cst, SyntaxKind::Environment);

    let pairs = parse_key_value_options(source, opt_arg);

    assert_eq!(
        pairs,
        vec![("label".to_string(), "fig:foo".to_string()), ("position".to_string(), "h".to_string())]
    );
}

#[test]
fn parse_key_value_options_command_optarg_basic() {
    let source = r"\image[width=10cm]{img.png}";
    let cst = parse_source(source);
    let opt_arg = first_opt_arg(&cst, SyntaxKind::CommandCall);

    let pairs = parse_key_value_options(source, opt_arg);

    assert_eq!(pairs, vec![("width".to_string(), "10cm".to_string())]);
}

#[test]
fn parse_key_value_options_treats_bare_key_as_boolean_true() {
    let source = r"\cmd[draft, key=val]{x}";
    let cst = parse_source(source);
    let opt_arg = first_opt_arg(&cst, SyntaxKind::CommandCall);

    let pairs = parse_key_value_options(source, opt_arg);

    assert_eq!(pairs, vec![("draft".to_string(), "true".to_string()), ("key".to_string(), "val".to_string())]);
}

#[test]
fn parse_key_value_options_skips_empty_entries() {
    let source = r"\cmd[ , draft , ,key=val]{x}";
    let cst = parse_source(source);
    let opt_arg = first_opt_arg(&cst, SyntaxKind::CommandCall);

    let pairs = parse_key_value_options(source, opt_arg);

    assert_eq!(pairs, vec![("draft".to_string(), "true".to_string()), ("key".to_string(), "val".to_string())]);
}

#[test]
fn extract_text_content_preserves_comma_and_equals() {
    let source = r"\cmd[a=1, b=2]{x}";
    let cst = parse_source(source);
    let opt_arg = first_opt_arg(&cst, SyntaxKind::CommandCall);

    let text = extract_text_content(source, opt_arg);

    assert_eq!(text, "a=1, b=2");
}

#[test]
fn parse_key_value_options_empty_optarg() {
    let source = r"\cmd[]{x}";
    let cst = parse_source(source);
    let opt_arg = first_opt_arg(&cst, SyntaxKind::CommandCall);

    let pairs = parse_key_value_options(source, opt_arg);

    assert!(pairs.is_empty());
}

fn command_pairs(source: &str) -> Vec<(String, String)> {
    let cst = parse_source(source);
    parse_key_value_options(source, first_opt_arg(&cst, SyntaxKind::CommandCall))
}

#[test]
fn parse_key_value_options_keeps_escaped_comma_in_value() {
    let pairs = command_pairs(r"\cmd[title=a\, b, label=x]{y}");

    assert_eq!(pairs, vec![("title".to_string(), "a, b".to_string()), ("label".to_string(), "x".to_string())]);
}

#[test]
fn parse_key_value_options_keeps_escaped_equals_in_value() {
    let pairs = command_pairs(r"\cmd[title=a\=b]{y}");

    assert_eq!(pairs, vec![("title".to_string(), "a=b".to_string())]);
}

#[test]
fn parse_key_value_options_keeps_later_equals_in_value() {
    let pairs = command_pairs(r"\cmd[title=a=b]{y}");

    assert_eq!(pairs, vec![("title".to_string(), "a=b".to_string())]);
}

#[test]
fn parse_key_value_options_keeps_escaped_equals_in_key() {
    let pairs = command_pairs(r"\cmd[a\=b=c]{y}");

    assert_eq!(pairs, vec![("a=b".to_string(), "c".to_string())]);
}

#[test]
fn parse_key_value_options_ignores_comma_nested_in_child_node() {
    let pairs = command_pairs(r"\cmd[title=\bold{a, b}, label=x]{y}");

    assert_eq!(pairs, vec![("title".to_string(), "a, b".to_string()), ("label".to_string(), "x".to_string())]);
}

#[test]
fn parse_key_value_options_treats_quote_as_plain_character() {
    let pairs = command_pairs(r#"\cmd[title="a, b"]{y}"#);

    assert_eq!(pairs, vec![("title".to_string(), "\"a".to_string()), ("b\"".to_string(), "true".to_string())]);
}

#[test]
fn parse_key_value_options_skips_consecutive_and_trailing_commas() {
    let pairs = command_pairs(r"\cmd[a=1,, b=2,]{y}");

    assert_eq!(pairs, vec![("a".to_string(), "1".to_string()), ("b".to_string(), "2".to_string())]);
}

#[test]
fn extract_text_content_still_flattens_escaped_comma() {
    let source = r"\cmd{a\,b, c}";
    let cst = parse_source(source);
    let command = first_command(&cst);
    let view = CommandView::new(command, source);
    let arg = view.first_arg().expect("a mandatory argument");

    assert_eq!(extract_text_content(source, arg), "a,b, c");
}

fn first_arg_segments(source: &str) -> Vec<String> {
    let cst = parse_source(source);
    let command = first_command(&cst);
    let view = CommandView::new(command, source);
    let arg = view.first_arg().expect("a mandatory argument");
    split_text_on_commas(source, arg)
}

#[test]
fn split_text_on_commas_splits_on_structural_comma_without_trimming() {
    assert_eq!(first_arg_segments(r"\cmd{a, b}"), vec!["a".to_string(), " b".to_string()]);
}

#[test]
fn split_text_on_commas_keeps_escaped_comma_in_segment() {
    assert_eq!(first_arg_segments(r"\cmd{a\,b}"), vec!["a,b".to_string()]);
}

#[test]
fn split_text_on_commas_ignores_comma_nested_in_child_node() {
    assert_eq!(first_arg_segments(r"\cmd{\bold{a,b}, c}"), vec!["a,b".to_string(), " c".to_string()]);
}

#[test]
fn split_text_on_commas_keeps_empty_segments() {
    assert_eq!(
        first_arg_segments(r"\cmd{,a,,b,}"),
        vec![String::new(), "a".to_string(), String::new(), "b".to_string(), String::new()]
    );
}

#[test]
fn parse_keeps_every_token_in_source_order() {
    let source = "\\section[label=a]{Title} text $x^{2}_i$\n\n\\begin{equation}a_b\\end{equation} // c";
    let tokens = lex(source);
    let root = parse_result(source).unwrap();

    fn collect(node: &GreenNode, out: &mut Vec<Token>) {
        for child in &node.children {
            match child {
                GreenElement::Token(t) => out.push(*t),
                GreenElement::Node(n) => collect(n, out),
            }
        }
    }
    let mut seen = Vec::new();
    collect(&root, &mut seen);

    assert_eq!(seen, tokens);
    assert_eq!(root.kind, SyntaxKind::Root);
}

#[test]
fn green_node_child_nodes_filters_tokens() {
    let token = Token::new(TokenKind::Text, Span::new(0, 5));
    let child_node = GreenNode { kind: SyntaxKind::CommandCall, span: Span::new(5, 10), children: Vec::new() };
    let node = GreenNode {
        kind: SyntaxKind::Root,
        span: Span::new(0, 10),
        children: vec![GreenElement::Token(token), GreenElement::Node(Box::new(child_node))],
    };

    let nodes = node.child_nodes();

    assert_eq!(nodes.len(), 1);
    assert_eq!(nodes[0].kind, SyntaxKind::CommandCall);
}

#[test]
fn green_node_child_tokens_filters_nodes() {
    let token = Token::new(TokenKind::Text, Span::new(0, 5));
    let child_node = GreenNode { kind: SyntaxKind::CommandCall, span: Span::new(5, 10), children: Vec::new() };
    let node = GreenNode {
        kind: SyntaxKind::Root,
        span: Span::new(0, 10),
        children: vec![GreenElement::Token(token), GreenElement::Node(Box::new(child_node))],
    };

    let tokens = node.child_tokens();

    assert_eq!(tokens.len(), 1);
    assert_eq!(tokens[0].kind, TokenKind::Text);
}

#[test]
fn first_child_of_kind_finds_matching_node() {
    let child = GreenNode { kind: SyntaxKind::MandatoryArg, span: Span::new(5, 10), children: Vec::new() };
    let node = GreenNode {
        kind: SyntaxKind::CommandCall,
        span: Span::new(0, 10),
        children: vec![GreenElement::Node(Box::new(child))],
    };

    assert!(node.first_child_of_kind(SyntaxKind::MandatoryArg).is_some());
    assert!(node.first_child_of_kind(SyntaxKind::OptArg).is_none());
}

#[test]
fn blocks_are_refused_in_inline_places_with_the_command_name() {
    let source = r"\section{Title}";
    let root = parse_source(source);
    let view = CommandView::new(first_command(&root), source);

    assert!(Placement::Block.accept_block(&view).is_ok());
    let refused = Placement::Inline(IndexPolicy::Allow).accept_block(&view);
    assert!(matches!(refused, Err(EvalError::BlockInInline { ref what, span }) if what == r"\section" && span == Span::new(0, 15)));
}

#[test]
fn index_is_refused_only_where_the_policy_rejects_it() {
    let source = r"\index{word}";
    let root = parse_source(source);
    let view = CommandView::new(first_command(&root), source);

    assert!(Placement::Block.accept_index(&view).is_ok());
    assert!(Placement::Inline(IndexPolicy::Allow).accept_index(&view).is_ok());
    assert_eq!(
        Placement::Inline(IndexPolicy::Reject).accept_index(&view),
        Err(EvalError::IndexNotAllowedHere { span: Span::new(0, 12) })
    );
    assert_eq!(Placement::Block.index_policy(), IndexPolicy::Allow);
    assert_eq!(Placement::Inline(IndexPolicy::Reject).index_policy(), IndexPolicy::Reject);
}

fn command_view_test<T>(source: &str, check: impl FnOnce(&CommandView) -> T) -> T {
    let root = parse_source(source);
    let view = CommandView::new(first_command(&root), source);
    check(&view)
}

#[test]
fn exactly_one_arg_returns_the_single_argument() {
    let result = command_view_test(r"\ref{sec:a}", |view| exactly_one_arg(view, "ラベル名").map(|n| n.span));

    assert!(result.is_ok(), "{result:?}");
}

#[test]
fn exactly_one_arg_rejects_a_second_argument() {
    let result = command_view_test(r"\ref{a}{b}", |view| exactly_one_arg(view, "ラベル名").map(|n| n.span));

    assert!(
        matches!(result, Err(EvalError::ExtraCommandArgument { ref name, .. }) if name == "ref"),
        "{result:?}"
    );
}

#[test]
fn exactly_two_args_requires_both() {
    let result = command_view_test(r"\href{https://example.com}", |view| {
        exactly_two_args(view, "2 個（リンク先 URI と表示テキスト）").map(|(a, b)| (a.span, b.span))
    });

    assert!(matches!(result, Err(EvalError::MissingCommandArgument { .. })), "{result:?}");
}

#[test]
fn exactly_two_args_rejects_a_third_argument() {
    let result = command_view_test(r"\href{a}{b}{c}", |view| {
        exactly_two_args(view, "2 個（リンク先 URI と表示テキスト）").map(|(a, b)| (a.span, b.span))
    });

    assert!(matches!(result, Err(EvalError::ExtraCommandArgument { .. })), "{result:?}");
}

#[test]
fn no_args_rejects_a_mandatory_argument() {
    let result = command_view_test(r"\pagebreak{x}", |view| no_args(view));

    assert!(
        matches!(result, Err(EvalError::ExtraCommandArgument { ref name, .. }) if name == "pagebreak"),
        "{result:?}"
    );
}

#[test]
fn opt_args_are_checked_before_the_argument_count() {
    let result = command_view_test(r"\ref[k=v]", |view| {
        expect_no_opt_args(view).and_then(|()| exactly_one_arg(view, "ラベル名").map(|_| ()))
    });

    assert!(matches!(result, Err(EvalError::UnknownOptArgKey { ref key, .. }) if key == "k"), "{result:?}");
}

fn url_of(source: &str) -> String {
    let link = command_view_test(source, |view| url_command(view).expect("a well-formed \\url"));
    assert_eq!(link.text, link.url, "the target is the display text");
    link.url
}

#[test]
fn url_uses_uri_as_display_text() {
    assert_eq!(url_of(r"\url{https://example.com}"), "https://example.com");
}

#[test]
fn url_trims_surrounding_whitespace() {
    assert_eq!(url_of(r"\url{  https://example.com  }"), "https://example.com");
}

#[test]
fn url_keeps_backslash_inert() {
    assert_eq!(url_of(r"\url{https:\/\/example.com}"), r"https:\/\/example.com");
}

#[test]
fn url_rejects_missing_argument() {
    let result = command_view_test(r"\url", |view| url_command(view));

    assert!(matches!(result, Err(EvalError::MissingCommandArgument { ref name, .. }) if name == "url"), "{result:?}");
}

#[test]
fn collect_returns_empty_for_no_opt_args() {
    let label = string("label");

    let opts = collect(r"\bold{x}", &[]).unwrap();

    assert_eq!(opts.get(label), None);
}

#[test]
fn collect_returns_error_for_unknown_boolean_shorthand() {
    let result = collect(r"\section[draft]{Title}", &[]);

    assert!(matches!(result, Err(EvalError::UnknownOptArgKey { ref key, .. }) if key == "draft"));
}

#[test]
fn collect_returns_error_for_duplicate_key() {
    let label = string("label");

    let result = collect(r"\section[label=x, label=y]{Title}", &[label.decl()]);

    assert!(matches!(result, Err(EvalError::DuplicateOptArgKey { ref key, .. }) if key == "label"));
}

#[test]
fn collect_returns_length_with_no_suffix() {
    let width = length("width");

    let opts = collect(r"\section[width=10]{T}", &[width.decl()]).unwrap();

    assert_eq!(opts.get(width), Some(mm(10.0)));
}

#[test]
fn collect_returns_length_with_mm_suffix() {
    let width = length("width");

    let opts = collect(r"\section[width=10mm]{T}", &[width.decl()]).unwrap();

    assert_eq!(opts.get(width), Some(mm(10.0)));
}

#[test]
fn collect_returns_length_with_cm_suffix() {
    let width = length("width");

    let opts = collect(r"\section[width=5cm]{T}", &[width.decl()]).unwrap();

    assert_eq!(opts.get(width), Some(cm(5.0)));
}

#[test]
fn collect_returns_length_case_insensitive_suffix() {
    let width = length("width");

    let opts = collect(r"\section[width=2CM]{T}", &[width.decl()]).unwrap();

    assert_eq!(opts.get(width), Some(cm(2.0)));
}

#[test]
fn collect_returns_error_for_invalid_length_suffix() {
    let width = length("width");

    let result = collect(r"\section[width=10pt]{T}", &[width.decl()]);

    assert!(matches!(result, Err(EvalError::InvalidOptArgValue { ref key, .. }) if key == "width"));
}

#[test]
fn collect_returns_bool_for_bare_key() {
    let draft = boolean("draft");

    let opts = collect(r"\section[draft]{T}", &[draft.decl()]).unwrap();

    assert_eq!(opts.get(draft), Some(true));
}

#[test]
fn collect_returns_bool_for_explicit_false() {
    let draft = boolean("draft");

    let opts = collect(r"\section[draft=false]{T}", &[draft.decl()]).unwrap();

    assert_eq!(opts.get(draft), Some(false));
}

#[test]
fn collect_returns_error_for_bare_key_on_non_bool() {
    let draft = positive_int("draft");

    let result = collect(r"\section[draft]{T}", &[draft.decl()]);

    assert!(matches!(result, Err(EvalError::InvalidOptArgValue { ref key, .. }) if key == "draft"));
}

#[test]
fn collect_returns_error_for_zero_positive_length() {
    let width = positive_length("width");

    let result = collect(r"\section[width=0mm]{T}", &[width.decl()]);

    assert!(matches!(result, Err(EvalError::InvalidOptArgValue { ref expected, .. }) if expected == "positive length"));
}

#[test]
fn collect_returns_error_for_negative_positive_length() {
    let width = positive_length("width");

    let result = collect(r"\section[width=-5mm]{T}", &[width.decl()]);

    assert!(matches!(result, Err(EvalError::InvalidOptArgValue { ref key, .. }) if key == "width"));
}

#[test]
fn collect_returns_positive_length_when_positive() {
    let width = positive_length("width");

    let opts = collect(r"\section[width=5cm]{T}", &[width.decl()]).unwrap();

    assert_eq!(opts.get(width), Some(cm(5.0)));
}

#[test]
fn collect_returns_integer_for_positive_int() {
    let start = positive_int("start");

    let opts = collect(r"\section[start=5]{T}", &[start.decl()]).unwrap();

    assert_eq!(opts.get(start), Some(5));
}

#[test]
fn collect_rejects_out_of_range_values_for_positive_int() {
    let start = positive_int("start");
    for raw in ["0", "-1", "1.5", "4294967296", "foo"] {
        let source = format!(r"\section[start={raw}]{{T}}");

        let result = collect(&source, &[start.decl()]);

        assert!(
            matches!(result, Err(EvalError::InvalidOptArgValue { ref expected, .. }) if expected == "positive integer"),
            "start={raw}"
        );
    }
}

#[test]
fn collect_rejects_out_of_range_values_for_rounded_int() {
    let dpi = rounded_int("dpi");
    for raw in ["0", "0.4", "-150", "4294967295.4"] {
        let source = format!(r"\section[dpi={raw}]{{T}}");

        let result = collect(&source, &[dpi.decl()]);

        assert!(
            matches!(result, Err(EvalError::InvalidOptArgValue { ref expected, .. }) if expected == "positive integer"),
            "dpi={raw}"
        );
    }
}

#[test]
fn get_returns_typed_value_for_declared_key() {
    let label = string("label");
    let width = positive_length("width");

    let opts = collect(r"\section[label=foo, width=5cm]{T}", &[label.decl(), width.decl()]).unwrap();

    assert_eq!(opts.get(label), Some("foo".to_string()));
    assert_eq!(opts.get(width), Some(cm(5.0)));
}

#[test]
fn declared_key_carries_expected_type_into_schema() {
    let dpi = rounded_int("dpi");

    let opts = collect(r"\section[dpi=72.5]{T}", &[dpi.decl()]).unwrap();

    assert_eq!(opts.get(dpi), Some(73));
}

#[test]
fn parse_value_produces_the_variant_declared_by_the_type_tag() {
    let cases = [
        (OptType::Bool, "true", OptValue::Bool(true)),
        (OptType::String, "foo", OptValue::String("foo".to_string())),
        (OptType::Length, "10mm", OptValue::Length(mm(10.0))),
        (OptType::PositiveLength, "10mm", OptValue::Length(mm(10.0))),
        (OptType::PositiveInt, "3", OptValue::Integer(3)),
        (OptType::RoundedInt, "3.4", OptValue::Integer(3)),
        (OptType::Color, "#ff0000", OptValue::Color(Color { red: 0xff, green: 0, blue: 0 })),
    ];

    for (ty, raw, expected) in cases {
        let value = parse_value("k", raw, ty, "cmd", Span::new(0, 1), &read_length, &read_int).unwrap();
        assert_eq!(value, expected, "{}", ty.label());
    }
}

#[test]
fn verbatim_commands_declare_arg_modes_and_others_are_empty() {
    assert_eq!(CommandKind::Code.arg_modes(), &[ArgMode::Verbatim]);
    assert_eq!(CommandKind::Url.arg_modes(), &[ArgMode::Verbatim]);
    assert_eq!(CommandKind::Href.arg_modes(), &[ArgMode::Verbatim, ArgMode::Inherit]);
    assert!(CommandKind::Ref.arg_modes().is_empty(), "宣言のないコマンドは空スライス");
}

#[test]
fn lookup_arg_mode_defaults_to_inherit() {
    assert_eq!(lookup_arg_mode("bold", 0), ArgMode::Inherit);
    assert_eq!(lookup_arg_mode("unknown", 0), ArgMode::Inherit);
    assert_eq!(lookup_arg_mode("alpha", 0), ArgMode::Inherit);
}

#[test]
fn lookup_arg_mode_resolves_per_position() {
    assert_eq!(lookup_arg_mode("href", 0), ArgMode::Verbatim);
    assert_eq!(lookup_arg_mode("href", 1), ArgMode::Inherit);
}

#[test]
fn lookup_arg_mode_beyond_declaration_is_inherit() {
    assert_eq!(lookup_arg_mode("url", 1), ArgMode::Inherit);
    assert_eq!(lookup_arg_mode("href", 2), ArgMode::Inherit);
}

#[test]
fn the_registry_maps_each_command_name_to_its_kind() {
    assert_eq!(command_kind("space"), Some(CommandKind::Space));
    assert_eq!(command_kind("noindent"), Some(CommandKind::NoIndent));
    assert_eq!(command_kind("bold"), Some(CommandKind::StyledText(FontKind::SerifBold)));
    assert_eq!(command_kind("sansbolditalic"), Some(CommandKind::StyledText(FontKind::SansSerifBoldItalic)));
    assert_eq!(command_kind("mono"), Some(CommandKind::StyledText(FontKind::Monospace)));
    assert_eq!(command_kind("color"), Some(CommandKind::ColoredText));
    assert_eq!(command_kind("subparagraph"), Some(CommandKind::Heading(HeadingLevel::Subparagraph)));
    assert_eq!(command_kind("alpha"), None);
    assert_eq!(command_kind("Bold"), None);
    assert_eq!(command_kind(""), None);
}

#[test]
fn every_heading_level_is_registered_under_its_command_name() {
    let levels = [
        (HeadingLevel::Part, "part", "部名"),
        (HeadingLevel::Chapter, "chapter", "章名"),
        (HeadingLevel::Section, "section", "セクション名"),
        (HeadingLevel::Subsection, "subsection", "サブセクション名"),
        (HeadingLevel::Paragraph, "paragraph", "段落名"),
        (HeadingLevel::Subparagraph, "subparagraph", "小節名"),
    ];
    for (level, name, expected) in levels {
        assert_eq!(level.command_name(), name);
        assert_eq!(command_kind(name), Some(CommandKind::Heading(level)));
        assert_eq!(expected_name(level), expected);
    }
}

#[test]
fn bare_commands_refuse_opt_args_before_arguments() {
    assert_eq!(command_view_test(r"\noindent", |view| expect_bare_command(view)), Ok(()));
    assert_eq!(command_view_test(r"\pagebreak[]", |view| expect_bare_command(view)), Ok(()));
    let extra = command_view_test(r"\pagebreak{x}", |view| expect_bare_command(view));
    assert!(matches!(extra, Err(EvalError::ExtraCommandArgument { ref name, .. }) if name == "pagebreak"), "{extra:?}");
    let opt = command_view_test(r"\alpha[k=v]{x}", |view| expect_bare_command(view));
    assert!(matches!(opt, Err(EvalError::UnknownOptArgKey { ref key, .. }) if key == "k"), "{opt:?}");
}

fn table_opts(source: &str) -> Result<TableOpts, EvalError> {
    let root = parse_source(source);
    let GreenElement::Node(env) = &root.children[0] else {
        panic!("an Environment node");
    };
    let view = EnvironmentView::new(env, source);
    collect_table_opts(&view, &read_length, &read_int)
}

#[test]
fn table_options_are_read_back_as_written() {
    let opts = table_opts(r"\begin{table}[columns=left center right, widths=auto 5cm *, label=tab:a, breakable=false]x\end{table}")
        .unwrap();

    assert_eq!(opts, TableOpts {
        columns_spec: Some("left center right".to_string()),
        widths_spec: Some("auto 5cm *".to_string()),
        label: Some("tab:a".to_string()),
        breakable: false,
    });
}

#[test]
fn a_table_is_breakable_unless_told_otherwise() {
    let bare = table_opts(r"\begin{table}x\end{table}").unwrap();
    assert_eq!(bare, TableOpts { columns_spec: None, widths_spec: None, label: None, breakable: true });

    let explicit = table_opts(r"\begin{table}[breakable]x\end{table}").unwrap();
    assert!(explicit.breakable);
}

#[test]
fn table_options_refuse_unknown_keys_and_non_boolean_breakable() {
    let unknown = table_opts(r"\begin{table}[caption=x]x\end{table}");
    assert!(matches!(unknown, Err(EvalError::UnknownOptArgKey { ref key, ref expected_keys, .. })
        if key == "caption" && expected_keys == "columns: string, widths: string, label: string, breakable: boolean"), "{unknown:?}");

    let not_bool = table_opts(r"\begin{table}[breakable=yes]x\end{table}");
    assert!(matches!(not_bool, Err(EvalError::InvalidOptArgValue { ref key, ref expected, .. })
        if key == "breakable" && expected == "boolean"), "{not_bool:?}");
}

fn code_text_result(source: &str) -> Result<String, EvalError> {
    let root = parse_source(source);
    let GreenElement::Node(env) = &root.children[0] else {
        panic!("an Environment node");
    };
    code_block_text(&EnvironmentView::new(env, source))
}

fn code_text(source: &str) -> String {
    code_text_result(source).expect("a well-formed code block")
}

#[test]
fn code_block_keeps_indentation_and_blank_lines() {
    let text = code_text("\\begin{code}\nfn main() {\n\n    let x = 1;\n}\n\\end{code}");

    assert_eq!(text, "fn main() {\n\n    let x = 1;\n}");
}

#[test]
fn code_block_trims_only_one_newline_at_each_edge() {
    let text = code_text("\\begin{code}\n\nbody\n\n\\end{code}");

    assert_eq!(text, "\nbody\n");
}

#[test]
fn code_block_keeps_special_characters_inert() {
    let text = code_text("\\begin{code}\n// $x$ \\alpha {a} _ ^ &\n\\end{code}");

    assert_eq!(text, "// $x$ \\alpha {a} _ ^ &");
}

#[test]
fn code_block_can_be_empty() {
    let text = code_text(r"\begin{code}\end{code}");

    assert_eq!(text, "");
}

#[test]
fn code_block_keeps_indentation_of_the_end_marker_as_a_trailing_line() {
    let text = code_text("\\begin{code}\nbody\n  \\end{code}");

    assert_eq!(text, "body\n  ");
}

#[test]
fn code_block_rejects_language_option() {
    let result = code_text_result("\\begin{code}[language=rust]\nbody\n\\end{code}");

    assert!(
        matches!(result, Err(EvalError::UnknownOptArgKey { ref key, .. }) if key == "language"),
        "{result:?}"
    );
}

#[test]
fn grid_separators_follow_the_cell_layout() {
    assert_eq!(GridSpec::for_layout(GridLayout::Aligned), GridSpec { allow_row_breaks: true, allow_column_breaks: true });
    assert_eq!(GridSpec::for_layout(GridLayout::Centered), GridSpec { allow_row_breaks: true, allow_column_breaks: false });
    assert_eq!(GridSpec::for_layout(GridLayout::Staircase), GridSpec { allow_row_breaks: true, allow_column_breaks: false });
    for name in ["align", "gather", "split", "multiline"] {
        let Some(EnvironmentKind::MathGrid { kind, spec, .. }) = environment_kind(name) else {
            panic!("{name} is a math grid");
        };
        assert_eq!(spec, GridSpec::for_layout(kind.layout()), "{name}");
    }
    assert_eq!(MathEnvKind::Align.layout(), GridLayout::Aligned);
    assert_eq!(MathEnvKind::Gather.layout(), GridLayout::Centered);
    assert_eq!(MathEnvKind::Split.layout(), GridLayout::Aligned);
    assert_eq!(MathEnvKind::Multiline.layout(), GridLayout::Staircase);
}

#[test]
fn trivia_is_whitespace_breaks_and_comments() {
    let source = "a b\n// c\n\nd";
    let tokens = lex(source);
    let kinds: Vec<(TokenKind, bool)> = tokens
        .iter()
        .map(|t| (t.kind, is_trivia_element(&GreenElement::Token(*t))))
        .collect();
    assert_eq!(kinds, vec![
        (TokenKind::Text, false),
        (TokenKind::Whitespace, true),
        (TokenKind::Text, false),
        (TokenKind::Newline, true),
        (TokenKind::Comment, true),
        (TokenKind::ParagraphBreak, true),
        (TokenKind::Text, false),
    ]);
    let root = parse_source(r"\bold{x}");
    assert!(!is_trivia_element(&root.children[0]));
}

fn cite_result(source: &str) -> Result<Vec<String>, EvalError> {
    command_view_test(source, |view| cite_command(view))
}

fn cite_keys(source: &str) -> Vec<String> {
    cite_result(source).expect("a well-formed \\cite")
}

fn cite_is_invalid_argument(source: &str) -> bool {
    matches!(cite_result(source), Err(EvalError::InvalidCommandArgument { ref name, .. }) if name == "cite")
}

#[test]
fn cite_produces_single_key() {
    assert_eq!(cite_keys(r"\cite{rika}"), vec!["rika".to_string()]);
}

#[test]
fn cite_splits_multiple_keys_and_trims() {
    assert_eq!(cite_keys(r"\cite{a, b ,c}"), vec!["a".to_string(), "b".to_string(), "c".to_string()]);
}

#[test]
fn cite_keeps_escaped_comma_in_key() {
    assert_eq!(cite_keys(r"\cite{a\,b}"), vec!["a,b".to_string()]);
}

#[test]
fn cite_splits_on_structural_comma_only() {
    assert_eq!(cite_keys(r"\cite{a\,b, c}"), vec!["a,b".to_string(), "c".to_string()]);
}

#[test]
fn cite_splits_unspaced_keys() {
    assert_eq!(cite_keys(r"\cite{a,b}"), vec!["a".to_string(), "b".to_string()]);
}

#[test]
fn cite_trims_whitespace_and_newline_around_keys() {
    assert_eq!(cite_keys("\\cite{a ,\n b}"), vec!["a".to_string(), "b".to_string()]);
}

#[test]
fn cite_does_not_split_on_comma_in_nested_node() {
    assert_eq!(cite_keys(r"\cite{\bold{a,b}}"), vec!["a,b".to_string()]);
}

#[test]
fn cite_rejects_leading_empty_key() {
    assert!(cite_is_invalid_argument(r"\cite{,a}"));
}

#[test]
fn cite_rejects_consecutive_commas() {
    assert!(cite_is_invalid_argument(r"\cite{a,,b}"));
}

#[test]
fn cite_rejects_empty_argument() {
    assert!(cite_is_invalid_argument(r"\cite{}"));
}

#[test]
fn cite_rejects_missing_argument() {
    assert!(matches!(cite_result(r"\cite"), Err(EvalError::MissingCommandArgument { ref name, .. }) if name == "cite"));
}

#[test]
fn cite_rejects_extra_arguments() {
    assert!(matches!(cite_result(r"\cite{a}{b}"), Err(EvalError::ExtraCommandArgument { ref name, .. }) if name == "cite"));
}

#[test]
fn cite_rejects_empty_key() {
    let result = cite_result(r"\cite{a,}");

    assert!(matches!(result, Err(EvalError::InvalidCommandArgument { ref name, ref reason, .. })
        if name == "cite" && reason == "空の引用キーが含まれています"), "{result:?}");
}

#[test]
fn cite_rejects_opt_args() {
    assert!(matches!(cite_result(r"\cite[k=v]{rika}"), Err(EvalError::UnknownOptArgKey { ref key, .. }) if key == "k"));
}

fn inline_code(source: &str) -> Result<String, EvalError> {
    command_view_test(source, |view| code_command(view))
}

#[test]
fn inline_code_includes_balanced_braces() {
    assert_eq!(inline_code(r"\code{if x { y }}").unwrap(), "if x { y }");
}

#[test]
fn inline_code_keeps_special_characters_inert() {
    assert_eq!(inline_code(r"\code{a // b $c$ \d}").unwrap(), r"a // b $c$ \d");
}

#[test]
fn inline_code_keeps_surrounding_spaces() {
    assert_eq!(inline_code(r"\code{  x  }").unwrap(), "  x  ");
}

#[test]
fn inline_code_can_be_empty() {
    assert_eq!(inline_code(r"\code{}").unwrap(), "");
}

#[test]
fn inline_code_rejects_second_argument() {
    let result = inline_code(r"\code{a}{b}");

    assert!(matches!(result, Err(EvalError::ExtraCommandArgument { ref name, .. }) if name == "code"), "{result:?}");
}

#[test]
fn inline_code_requires_an_argument() {
    let result = inline_code(r"\code");

    assert!(matches!(result, Err(EvalError::MissingCommandArgument { ref name, ref expected, .. })
        if name == "code" && expected == "コード断片"), "{result:?}");
}

#[test]
fn inline_code_rejects_opt_arg() {
    let result = inline_code(r"\code[language=rust]{a}");

    assert!(matches!(result, Err(EvalError::UnknownOptArgKey { ref key, .. }) if key == "language"), "{result:?}");
}

/// The environment nodes directly under the root, in order.
fn environments(root: &GreenNode) -> Vec<&GreenNode> {
    let mut found = Vec::new();
    for child in &root.children {
        if let GreenElement::Node(n) = child {
            if n.kind == SyntaxKind::Environment {
                found.push(&**n);
            }
        }
    }
    found
}

fn nth_list(source: &str, index: usize) -> Result<ListParts<'static>, EvalError> {
    let source: &'static str = Box::leak(source.to_string().into_boxed_str());
    let root: &'static GreenNode = Box::leak(Box::new(parse_source(source)));
    let env = environments(root)[index];
    let view = EnvironmentView::new(env, source);
    let Some(EnvironmentKind::List { ordered }) = environment_kind(view.name()) else {
        panic!("a list environment");
    };
    list(&view, ordered, &read_length, &read_int)
}

fn list_result(source: &str) -> Result<ListParts<'static>, EvalError> {
    nth_list(source, 0)
}

fn nth_theorem(source: &str, index: usize) -> Result<TheoremParts<'static>, EvalError> {
    let source: &'static str = Box::leak(source.to_string().into_boxed_str());
    let root: &'static GreenNode = Box::leak(Box::new(parse_source(source)));
    let env = environments(root)[index];
    let view = EnvironmentView::new(env, source);
    let Some(EnvironmentKind::Theorem(class)) = environment_kind(view.name()) else {
        panic!("a theorem-like environment");
    };
    theorem(&view, class, &read_length, &read_int)
}

fn theorem_result(source: &str) -> Result<TheoremParts<'static>, EvalError> {
    nth_theorem(source, 0)
}

fn quote_result(source: &str) -> Result<QuoteParts<'static>, EvalError> {
    let source: &'static str = Box::leak(source.to_string().into_boxed_str());
    let root: &'static GreenNode = Box::leak(Box::new(parse_source(source)));
    let env = environments(root)[0];
    let view = EnvironmentView::new(env, source);
    let Some(EnvironmentKind::Quote(kind)) = environment_kind(view.name()) else {
        panic!("a quote environment");
    };
    quote(&view, kind)
}

#[test]
fn itemize_rejects_unknown_opt_arg_key() {
    let result = list_result(r"\begin{itemize}[noitemsep]\item{A}\end{itemize}");

    assert!(matches!(result, Err(EvalError::UnknownOptArgKey { ref key, .. }) if key == "noitemsep"));
}

#[test]
fn enumerate_start_option_sets_list_start() {
    let list = list_result(r"\begin{enumerate}[start=5]\item{A}\end{enumerate}").expect("a list");

    assert_eq!(list.start, Some(5));
}

#[test]
fn itemize_rejects_start_opt_arg_key() {
    let result = list_result(r"\begin{itemize}[start=5]\item{A}\end{itemize}");

    assert!(matches!(result, Err(EvalError::UnknownOptArgKey { ref key, .. }) if key == "start"));
}

#[test]
fn enumerate_start_zero_is_invalid() {
    let result = list_result(r"\begin{enumerate}[start=0]\item{A}\end{enumerate}");

    assert!(matches!(result, Err(EvalError::InvalidOptArgValue { ref key, .. }) if key == "start"));
}

#[test]
fn enumerate_start_negative_is_invalid() {
    let result = list_result(r"\begin{enumerate}[start=-1]\item{A}\end{enumerate}");

    assert!(matches!(result, Err(EvalError::InvalidOptArgValue { ref key, .. }) if key == "start"));
}

#[test]
fn enumerate_start_non_integer_is_invalid() {
    let result = list_result(r"\begin{enumerate}[start=1.5]\item{A}\end{enumerate}");

    assert!(matches!(result, Err(EvalError::InvalidOptArgValue { ref key, .. }) if key == "start"));
}

#[test]
fn enumerate_start_non_numeric_is_invalid() {
    let result = list_result(r"\begin{enumerate}[start=foo]\item{A}\end{enumerate}");

    assert!(matches!(result, Err(EvalError::InvalidOptArgValue { ref key, .. }) if key == "start"));
}

#[test]
fn item_marker_option_sets_list_item_marker() {
    let list = list_result(r"\begin{itemize}\item[marker=☆]{A}\end{itemize}").expect("a list");

    assert_eq!(list.items[0].marker, Some("☆".to_string()));
}

#[test]
fn item_marker_option_accepts_empty_string() {
    let list = list_result(r"\begin{itemize}\item[marker=]{A}\end{itemize}").expect("a list");

    assert_eq!(list.items[0].marker, Some(String::new()));
}

#[test]
fn item_rejects_unknown_opt_arg_key_other_than_marker() {
    let result = list_result(r"\begin{itemize}\item[foo=bar]{A}\end{itemize}");

    assert!(matches!(result, Err(EvalError::UnknownOptArgKey { ref key, .. }) if key == "foo"));
}

#[test]
fn itemize_item_gap_option_sets_list_item_gap() {
    let list = list_result(r"\begin{itemize}[item_gap=0]\item{A}\end{itemize}").expect("a list");

    assert_eq!(list.item_gap, Some(mm(0.0)));
}

#[test]
fn enumerate_item_gap_option_combines_with_start() {
    let list = list_result(r"\begin{enumerate}[start=2, item_gap=8mm]\item{A}\end{enumerate}").expect("a list");

    assert_eq!(list.start, Some(2));
    assert_eq!(list.item_gap, Some(mm(8.0)));
}

#[test]
fn item_gap_option_accepts_negative_value() {
    let list = list_result(r"\begin{itemize}\item[item_gap=-1mm]{A}\end{itemize}").expect("a list");

    assert_eq!(list.items[0].item_gap, Some(mm(-1.0)));
}

#[test]
fn list_items_come_in_order_with_their_content() {
    let source = "\\begin{enumerate}\n  \\item{A}\n  \\item[marker=*]{BC}\n\\end{enumerate}";
    let list = list_result(source).expect("a list");

    assert!(list.ordered);
    assert_eq!(list.start, None);
    assert_eq!(list.items.len(), 2);
    assert_eq!(list.items[0].marker, None);
    assert_eq!(list.items[1].marker, Some("*".to_string()));
    let content = list.items[1].content;
    assert_eq!(&source[content.span.start as usize..content.span.end as usize], "{BC}");
}

#[test]
fn list_without_items_is_empty() {
    let list = list_result(r"\begin{itemize}\end{itemize}").expect("a list");

    assert!(!list.ordered);
    assert!(list.items.is_empty());
}

#[test]
fn list_rejects_text_in_its_body() {
    let result = list_result(r"\begin{itemize}\item{A}stray\end{itemize}");

    assert!(matches!(result, Err(EvalError::UnexpectedContentInEnvironment { ref env, ref expected, .. })
        if env == "itemize" && expected == "\\item{...}"), "{result:?}");
}

#[test]
fn list_rejects_another_command_in_its_body() {
    let result = list_result(r"\begin{itemize}\bold{A}\end{itemize}");

    assert!(matches!(result, Err(EvalError::UnexpectedCommandInEnvironment { ref env, ref name, .. })
        if env == "itemize" && name == "bold"), "{result:?}");
}

#[test]
fn list_rejects_an_extra_argument_before_its_body() {
    let result = list_result(r"\begin{itemize}{x}\item{A}\end{itemize}");

    assert!(matches!(result, Err(EvalError::ExtraEnvironmentArgument { ref name, .. }) if name == "itemize"), "{result:?}");
}

#[test]
fn item_needs_exactly_one_argument() {
    let missing = list_result(r"\begin{itemize}\item\end{itemize}");
    assert!(matches!(missing, Err(EvalError::MissingCommandArgument { ref name, ref expected, .. })
        if name == "item" && expected == "項目の内容"), "{missing:?}");

    let extra = list_result(r"\begin{itemize}\item{A}{B}\end{itemize}");
    assert!(matches!(extra, Err(EvalError::ExtraCommandArgument { ref name, .. }) if name == "item"), "{extra:?}");
}

#[test]
fn quote_carries_kind_and_body() {
    let quote = quote_result(r"\begin{quote}引用本文\end{quote}").expect("a quote");

    assert_eq!(quote.kind, QuoteKind::Quote);
    assert!(quote.body.is_some());
}

#[test]
fn quotation_resolves_to_quotation_kind() {
    let quote = quote_result(r"\begin{quotation}引用本文\end{quotation}").expect("a quote");

    assert_eq!(quote.kind, QuoteKind::Quotation);
}

#[test]
fn quote_rejects_extra_argument() {
    let result = quote_result(r"\begin{quote}{余分}本文\end{quote}");

    assert!(matches!(result, Err(EvalError::ExtraEnvironmentArgument { ref name, .. }) if name == "quote"));
}

#[test]
fn quote_rejects_unknown_opt_key() {
    let result = quote_result(r"\begin{quote}[foo=1]本文\end{quote}");

    assert!(matches!(result, Err(EvalError::UnknownOptArgKey { ref key, .. }) if key == "foo"));
}

#[test]
fn theorem_carries_class_and_body_with_no_number() {
    let parts = theorem_result(r"\begin{theorem}本文\end{theorem}").expect("a theorem");

    assert_eq!(parts.class, TheoremClass::Theorem);
    assert!(parts.title.is_none());
    assert!(parts.of.is_none());
    assert!(parts.label.is_none());
    assert!(parts.body.is_some());
}

#[test]
fn proof_class_is_structured() {
    let parts = theorem_result(r"\begin{proof}証明本文\end{proof}").expect("a proof");

    assert_eq!(parts.class, TheoremClass::Proof);
}

#[test]
fn theorem_captures_title() {
    let parts = theorem_result("\\begin{theorem}[title=\"ピタゴラスの定理\"]本文\\end{theorem}").expect("a theorem");

    assert_eq!(parts.title.as_deref(), Some("ピタゴラスの定理"));
}

#[test]
fn theorem_captures_label_without_resolving() {
    let parts = theorem_result(r"\begin{theorem}[label=thm:p]本文\end{theorem}\ref{thm:p}").expect("a theorem");

    assert_eq!(parts.label.as_deref(), Some("thm:p"));
}

#[test]
fn proof_of_captures_target_label_without_resolving() {
    let source = r"\begin{theorem}[label=thm:p]本文\end{theorem}\begin{proof}[of=thm:p]証明\end{proof}";
    let parts = nth_theorem(source, 1).expect("a proof");

    assert_eq!(parts.of.as_deref(), Some("thm:p"));
}

#[test]
fn theorem_rejects_of_key() {
    let result = theorem_result(r"\begin{theorem}[of=thm:p]本文\end{theorem}");

    assert!(matches!(result, Err(EvalError::UnknownOptArgKey { ref key, .. }) if key == "of"));
}

#[test]
fn proof_rejects_label_key() {
    let result = theorem_result(r"\begin{proof}[label=pf:1]証明\end{proof}");

    assert!(matches!(result, Err(EvalError::UnknownOptArgKey { ref key, .. }) if key == "label"));
}

#[test]
fn theorem_rejects_unknown_opt_key() {
    let result = theorem_result(r"\begin{theorem}[foo=1]本文\end{theorem}");

    assert!(matches!(result, Err(EvalError::UnknownOptArgKey { ref key, .. }) if key == "foo"));
}

#[test]
fn duplicate_theorem_label_is_structured_without_error() {
    let source = r"\begin{theorem}[label=dup]A\end{theorem}\begin{lemma}[label=dup]B\end{lemma}";
    let a = nth_theorem(source, 0).expect("a theorem");
    let b = nth_theorem(source, 1).expect("a lemma");

    assert_eq!(a.label.as_deref(), Some("dup"));
    assert_eq!(b.label.as_deref(), Some("dup"));
    assert_eq!(b.class, TheoremClass::Lemma);
}

#[test]
fn footnote_rejects_missing_argument() {
    let source = r"\footnote";
    let root = parse_source(source);
    let view = CommandView::new(first_command(&root), source);

    let result = footnote_command(&view);

    assert!(matches!(result, Err(EvalError::MissingCommandArgument { ref name, .. }) if name == "footnote"));
}

#[test]
fn footnote_rejects_extra_arguments() {
    let source = r"\footnote{a}{b}";
    let root = parse_source(source);
    let view = CommandView::new(first_command(&root), source);

    let result = footnote_command(&view);

    assert!(matches!(result, Err(EvalError::ExtraCommandArgument { ref name, .. }) if name == "footnote"));
}

#[test]
fn footnote_rejects_opt_args() {
    let source = r"\footnote[k=v]{body}";
    let root = parse_source(source);
    let view = CommandView::new(first_command(&root), source);

    let result = footnote_command(&view);

    assert!(matches!(result, Err(EvalError::UnknownOptArgKey { ref key, .. }) if key == "k"));
}

#[test]
fn footnote_hands_back_its_body_argument() {
    let source = r"\footnote{hello}";
    let root = parse_source(source);
    let view = CommandView::new(first_command(&root), source);

    let body = footnote_command(&view).expect("a footnote");

    assert_eq!(&source[body.span.start as usize..body.span.end as usize], "{hello}");
}

#[test]
fn heading_captures_label_and_is_numbered() {
    let source = r"\section[label=sec:foo]{Title}";
    let root = parse_source(source);
    let view = CommandView::new(first_command(&root), source);

    let parts = heading(&view, HeadingLevel::Section, &read_length, &read_int).expect("a heading");

    assert_eq!(parts.level, HeadingLevel::Section);
    assert_eq!(parts.label.as_deref(), Some("sec:foo"));
    assert_eq!(&source[parts.title.span.start as usize..parts.title.span.end as usize], "{Title}");
}

#[test]
fn heading_rejects_unknown_opt_arg_key() {
    let source = r"\section[draft=true]{Title}";
    let root = parse_source(source);
    let view = CommandView::new(first_command(&root), source);

    let result = heading(&view, HeadingLevel::Section, &read_length, &read_int);

    assert!(matches!(result, Err(EvalError::UnknownOptArgKey { ref key, .. }) if key == "draft"));
}

/// Reads `<num>pt`, `<num>mm` or `<num>cm` (a unit is required).
fn parse_length_with_unit(raw: &str) -> Option<Length> {
    let (number, unit) = split_length_literal(raw)?;
    let value: f64 = number.parse().ok()?;
    if !value.is_finite() {
        return None;
    }
    let pt = match unit {
        LengthUnit::Pt => value,
        LengthUnit::Mm => value * 72.0 / 25.4,
        LengthUnit::Cm => value * 10.0 * 72.0 / 25.4,
    };
    Some(Length::from_sp(round_to_pt_sp(pt)))
}

/// Reads a ratio greater than 0 and at most 1.
fn read_ratio(raw: &str) -> Option<f32> {
    let ratio: f32 = raw.parse().ok()?;
    if !(ratio.is_finite() && ratio > 0.0 && ratio <= 1.0) {
        return None;
    }
    Some(ratio)
}

fn with_table_view<T>(f: impl FnOnce(&EnvironmentView) -> T) -> T {
    let source = r"\begin{table}x\end{table}";
    let root = parse_source(source);
    let GreenElement::Node(env) = &root.children[0] else {
        panic!("an Environment node");
    };
    f(&EnvironmentView::new(env, source))
}

#[test]
fn columns_spec_reads_one_alignment_per_word() {
    let aligns = with_table_view(|view| parse_columns_spec("  left center\tright ", view));

    assert_eq!(aligns, Ok(vec![ColumnAlign::Left, ColumnAlign::Center, ColumnAlign::Right]));
}

#[test]
fn columns_spec_refuses_empty_and_unknown_words() {
    for spec in ["", "   ", "left middle", "Left"] {
        let result = with_table_view(|view| parse_columns_spec(spec, view));
        assert!(matches!(result, Err(EvalError::InvalidOptArgValue { ref name, ref key, ref expected, .. })
            if name == "table" && key == "columns" && expected == "left / center / right の空白区切り"), "{spec:?}: {result:?}");
    }
}

#[test]
fn widths_spec_reads_auto_flex_lengths_and_ratios() {
    let widths = with_table_view(|view| parse_widths_spec("auto 5cm 0.3 * 1", view, &parse_length_with_unit, &read_ratio));

    assert_eq!(widths, Ok(vec![
        ColumnWidth::Auto,
        ColumnWidth::Fixed(cm(5.0)),
        ColumnWidth::Ratio(0.3),
        ColumnWidth::Flex,
        ColumnWidth::Ratio(1.0),
    ]));
}

#[test]
fn widths_spec_refuses_non_positive_lengths_and_out_of_range_ratios() {
    for spec in ["", "0mm", "-2cm", "1.5", "0", "auto wide"] {
        let result = with_table_view(|view| parse_widths_spec(spec, view, &parse_length_with_unit, &read_ratio));
        assert!(matches!(result, Err(EvalError::InvalidOptArgValue { ref name, ref key, .. })
            if name == "table" && key == "widths"), "{spec:?}: {result:?}");
    }
}

fn row(index: usize, blank: bool, notag: Option<(u32, u32)>, label: Option<&str>) -> GridRow<&'static str> {
    GridRow {
        id: NodeId { source_id: SourceId::new(0), index },
        cells: if blank { vec![" "] } else { vec!["a", "b"] },
        blank,
        notag_span: notag.map(|(s, e)| Span::new(s, e)),
        label: label.map(|name| RowLabel { name: name.to_string(), span: Span::new(index as u32 * 10, index as u32 * 10 + 5) }),
    }
}

fn with_math_view<T>(source: &str, f: impl FnOnce(&EnvironmentView) -> T) -> T {
    let root = parse_source(source);
    let GreenElement::Node(env) = &root.children[0] else {
        panic!("an Environment node");
    };
    f(&EnvironmentView::new(env, source))
}

#[test]
fn math_env_options_default_to_numbered_without_label() {
    let opts = with_math_view(r"\begin{align}a\end{align}", |view| {
        parse_math_env_opts(view, NumberingMode::PerRow, &read_length, &read_int)
    });
    assert_eq!(opts, Ok((true, None)));

    let opts = with_math_view(r"\begin{split}[label=eq:s]a\end{split}", |view| {
        parse_math_env_opts(view, NumberingMode::SingleEnv, &read_length, &read_int)
    });
    assert_eq!(opts, Ok((true, Some("eq:s".to_string()))));
}

#[test]
fn align_rejects_env_level_label_opt_arg() {
    let result = with_math_view(r"\begin{align}[label=eq:foo]a &= b\end{align}", |view| {
        parse_math_env_opts(view, NumberingMode::PerRow, &read_length, &read_int)
    });

    assert!(matches!(result, Err(EvalError::UnknownOptArgKey { ref key, .. }) if key == "label"));
}

#[test]
fn split_numbered_false_with_label_errors() {
    let result = with_math_view(r"\begin{split}[numbered=false, label=eq:s]a &= b\end{split}", |view| {
        parse_math_env_opts(view, NumberingMode::SingleEnv, &read_length, &read_int)
    });

    assert!(matches!(result, Err(EvalError::LabelRequiresNumbering { ref name, .. }) if name == "split"));
}

#[test]
fn trailing_blank_rows_are_dropped_unless_they_carry_a_marker() {
    let mut grid = vec![row(0, false, None, None), row(1, true, None, None), row(2, true, None, None)];
    assert_eq!(trim_trailing_blank_marker_rows(&mut grid), Ok(()));
    assert_eq!(grid.len(), 1);

    let mut grid = vec![row(0, false, None, None), row(1, true, Some((7, 13)), None)];
    assert_eq!(trim_trailing_blank_marker_rows(&mut grid), Err(EvalError::NotagNotAtRowEnd { span: Span::new(7, 13) }));

    let mut grid = vec![row(0, false, None, None), row(1, true, None, Some("eq:x"))];
    assert_eq!(trim_trailing_blank_marker_rows(&mut grid), Err(EvalError::RowLabelNotAtRowEnd { span: Span::new(10, 15) }));
}

#[test]
fn per_row_numbering_skips_notag_rows_and_keeps_labels() {
    with_math_view(r"\begin{align}a\end{align}", |view| {
        let grid = vec![row(0, false, None, Some("eq:a")), row(1, false, Some((3, 9)), None), row(2, false, None, None)];
        let (rows, env_numbered) = assign_numbering(grid, NumberingMode::PerRow, true, view).expect("numbered rows");
        assert!(!env_numbered);
        assert_eq!(rows.iter().map(|r| r.numbered).collect::<Vec<_>>(), vec![true, false, true]);
        assert_eq!(rows[0].label.as_ref().map(|l| l.name.as_str()), Some("eq:a"));
        assert_eq!(rows[1].id.index, 1);
        assert_eq!(rows[2].cells, vec!["a", "b"]);
    });
}

#[test]
fn per_row_label_on_an_unnumbered_row_errors() {
    with_math_view(r"\begin{align}a\end{align}", |view| {
        let grid = vec![row(0, false, None, None), row(1, false, Some((3, 9)), Some("eq:x"))];
        let result = assign_numbering(grid, NumberingMode::PerRow, true, view);
        assert!(matches!(result, Err(EvalError::LabelRequiresNumbering { ref name, span }) if name == "align" && span == Span::new(10, 15)));

        let grid = vec![row(0, false, None, Some("eq:y"))];
        let result = assign_numbering(grid, NumberingMode::PerRow, false, view);
        assert!(matches!(result, Err(EvalError::LabelRequiresNumbering { ref name, .. }) if name == "align"));
    });
}

#[test]
fn single_env_numbering_numbers_the_block_only() {
    with_math_view(r"\begin{split}a\end{split}", |view| {
        let grid = vec![row(0, false, None, None), row(1, false, None, None)];
        let (rows, env_numbered) = assign_numbering(grid, NumberingMode::SingleEnv, true, view).expect("rows");
        assert!(env_numbered);
        assert!(rows.iter().all(|r| !r.numbered && r.label.is_none()));

        let (_, env_numbered) = assign_numbering(Vec::<GridRow<&str>>::new(), NumberingMode::SingleEnv, true, view).expect("rows");
        assert!(!env_numbered);
    });
}

#[test]
fn math_grid_keeps_its_label_only_when_numbered() {
    with_math_view(r"\begin{split}a\end{split}", |view| {
        let grid = vec![row(0, false, None, None), row(1, true, None, None)];
        let block = number_math_grid(view, GridLayout::Aligned, NumberingMode::SingleEnv, true, Some("eq:s".to_string()), grid)
            .expect("a block");
        assert_eq!(block.rows.len(), 1);
        assert!(block.numbered);
        assert_eq!(block.label.as_deref(), Some("eq:s"));

        let block = number_math_grid(view, GridLayout::Aligned, NumberingMode::SingleEnv, true, Some("eq:s".to_string()),
            vec![row(0, true, None, None)]).expect("a block");
        assert!(block.rows.is_empty());
        assert!(!block.numbered);
        assert_eq!(block.label, None);
    });
}

#[test]
fn notag_in_an_unnumbered_grid_errors() {
    with_math_view(r"\begin{align}a\end{align}", |view| {
        let grid = vec![row(0, false, Some((4, 10)), None), row(1, false, None, None)];
        let result = number_math_grid(view, GridLayout::Aligned, NumberingMode::PerRow, false, None, grid);
        assert!(matches!(result, Err(EvalError::NotagWithUnnumberedEnv { span }) if span == Span::new(4, 10)));
    });
}

#[test]
fn unnumbered_rows_drop_trailing_blank_rows_with_their_markers() {
    let grid = vec![row(0, false, None, Some("eq:a")), row(1, true, Some((1, 2)), None)];
    let rows = into_unnumbered_rows(grid);

    assert_eq!(rows.len(), 1);
    assert!(!rows[0].numbered);
    assert!(rows[0].label.is_none());
}

#[test]
fn command_call_leaves_the_space_after_its_last_argument() {
    let root = parse_source(r"ab \bold{cd} ef");

    let kinds: Vec<String> = root
        .children
        .iter()
        .map(|c| match c {
            GreenElement::Token(t) => format!("{:?}@{}..{}", t.kind, t.span.start, t.span.end),
            GreenElement::Node(n) => format!("{:?}@{}..{}", n.kind, n.span.start, n.span.end),
        })
        .collect();
    assert_eq!(kinds, vec![
        "Text@0..2".to_string(),
        "Whitespace@2..3".to_string(),
        "CommandCall@3..12".to_string(),
        "Whitespace@12..13".to_string(),
        "Text@13..15".to_string(),
    ]);
}

#[test]
fn command_call_keeps_the_space_after_a_bare_command_and_between_arguments() {
    let root = parse_source(r"\noindent x");
    let GreenElement::Node(call) = &root.children[0] else {
        panic!("a command call first: {root:?}");
    };
    assert_eq!((call.span.start, call.span.end), (0, 10));

    let root = parse_source(r"\href{a} {b} c");
    let GreenElement::Node(call) = &root.children[0] else {
        panic!("a command call first: {root:?}");
    };
    assert_eq!((call.span.start, call.span.end), (0, 12));
}

/// Parses `source` and gives every top-level element an id in a context of its own, as the
/// evaluation of one source does.
fn allocate_top_level(source: &str, source_id: SourceId) -> seiran_compiler::evaluator::context::HirSource<(SyntaxKind, Span)> {
    let resolver = PathResolver::new("");
    let root = parse_source(source);
    let mut ctx = EvalContext::new(source_id, &resolver);
    let mut nodes = Vec::new();
    for child in &root.children {
        if let GreenElement::Node(n) = child {
            let id = ctx.allocate(n.span);
            assert_eq!(ctx.span_of(id), n.span);
            nodes.push((n.kind, n.span));
        }
    }
    ctx.finish(nodes)
}

#[test]
fn source_order_does_not_affect_ids_or_spans() {
    let source_a = "\\section{最初}\n\n本文 A です。";
    let source_b = "\\section{次}\n\n本文 B の $x^{2}$ です。";

    let alone = allocate_top_level(source_b, SourceId::new(1));
    let a_then_b = {
        let _a = allocate_top_level(source_a, SourceId::new(0));
        allocate_top_level(source_b, SourceId::new(1))
    };
    let b_then_a = {
        let b = allocate_top_level(source_b, SourceId::new(1));
        let _a = allocate_top_level(source_a, SourceId::new(0));
        b
    };

    for document in [&a_then_b, &b_then_a] {
        assert_eq!(document.group.source_id, SourceId::new(1));
        assert_eq!(document.group.nodes, alone.group.nodes, "B does not depend on the order of parsing");
        assert_eq!(document.spans.len(), alone.spans.len(), "B's positions do not depend on the order of parsing");
    }
}
