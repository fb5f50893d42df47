//! The parser: builds the lossless green tree from the token stream of a source.
//!
//! Every token, trivia included, ends up in the tree in source order; on a syntax error the
//! parser stops and reports it, without repairing or completing the input.

use vstd::prelude::*;
use vstd::string::*;
use crate::strs::{str_eq, to_owned_string};
use crate::syntax::green::{
    GreenElement, GreenNode, SyntaxKind, elem_tokens, lemma_direct_token_wf, lemma_seq_tokens_push, node_tokens,
    seq_tokens, tokens_wf, tree_wf,
};
use crate::syntax::span::Span;
use crate::syntax::token::{Token, TokenKind, token_kind_label};

verus! {

/// Which lexical reading applies to an environment body or to a nested element.
#[derive(Debug, Clone, Copy, PartialEq, Eq, Structural)]
pub enum ParseMode {
    /// Running text: `$` opens inline math.
    Text,
    /// Math: `^` and `_` are scripts and `{...}` is a math group.
    Math,
}

/// Decides how the body of an environment is read, from the environment's name.
pub trait BodyModes {
    /// The mode of the body of the environment called `name`.
    spec fn spec_body_mode(&self, name: Seq<char>) -> ParseMode;

    /// The mode of the body of the environment called `name` (see [`BodyModes::spec_body_mode`]).
    fn body_mode(&self, name: &str) -> (m: ParseMode)
        ensures
            m == self.spec_body_mode(name@),
    ;
}

/// The body modes that `modes` gives, as a function of the environment's name.
pub open spec fn modes_of<M: BodyModes>(modes: &M) -> spec_fn(Seq<char>) -> ParseMode {
    |n: Seq<char>| modes.spec_body_mode(n)
}

/// A syntax error, with the span it points at.
#[derive(Debug, PartialEq, Eq)]
pub enum ParserError {
    /// The input ended where more was required.
    UnexpectedEof { span: Span },
    /// A token that the grammar does not allow at this place.
    UnexpectedToken { kind: TokenKind, span: Span },
    /// An opening bracket without its closing one.
    UnclosedDelimiter { open_kind: TokenKind, span: Span },
    /// An `\end` without a matching `\begin`.
    StrayEnd { span: Span },
    /// `\begin{expected}` closed by `\end{found}`.
    MismatchedEnvironment { expected: String, found: String, span: Span },
    /// A `\begin{name}` without its `\end`.
    UnclosedEnvironment { name: String, span: Span },
    /// A math group `{` without its `}`.
    UnclosedMathGroup { span: Span },
    /// A backslash that starts neither a command nor an escape.
    InvalidBackslash { span: Span },
    /// A bare `{...}` outside arguments and math.
    BareGroup { span: Span },
    /// `$$`, which the language does not support.
    DollarDollarNotSupported { span: Span },
    /// A `$` without its closing `$`.
    UnclosedInlineMath { span: Span },
    /// A bare `[` outside optional arguments.
    BareBracket { span: Span },
    /// A `$` inside math.
    DollarInMathMode { span: Span },
}

/// What a syntax error says to the user.
pub open spec fn parser_error_message(e: ParserError) -> Seq<char> {
    match e {
        ParserError::UnexpectedEof { .. } => "入力が予期せず終了しました"@,
        ParserError::UnexpectedToken { kind, .. } => "予期しないトークンです: "@ + token_kind_label(kind),
        ParserError::UnclosedDelimiter { open_kind, .. } => "'"@ + token_kind_label(open_kind)
            + "' に対応する閉じ括弧が見つかりません"@,
        ParserError::StrayEnd { .. } => "対応する \\begin のない \\end です"@,
        ParserError::MismatchedEnvironment { expected, found, .. } => "環境名が一致しません: \\begin{"@
            + expected@ + "} に対して \\end{"@ + found@ + "}"@,
        ParserError::UnclosedEnvironment { name, .. } => "環境 '"@ + name@ + "' に対応する \\end が見つかりません"@,
        ParserError::UnclosedMathGroup { .. } => "数式内のグループが閉じられていません"@,
        ParserError::InvalidBackslash { .. } => "不正なバックスラッシュです"@,
        ParserError::BareGroup { .. } => "裸の {...} は構文エラーです"@,
        ParserError::DollarDollarNotSupported { .. } => "$$ は不採用です。ディスプレイ数式は \\begin{equation} を使ってください"@,
        ParserError::UnclosedInlineMath { .. } => "インライン数式が閉じられていません"@,
        ParserError::BareBracket { .. } => "裸の '[' は構文エラーです"@,
        ParserError::DollarInMathMode { .. } => "数式の中で $ は使用できません"@,
    }
}

impl ParserError {
    /// What the error says to the user; a token kind is named by its label, never by its
    /// identifier.
    pub fn message(&self) -> (s: String)
        ensures
            s@ == parser_error_message(*self),
    {
        match self {
            ParserError::UnexpectedEof { .. } => to_owned_string("入力が予期せず終了しました"),
            ParserError::UnexpectedToken { kind, .. } => {
                let mut s = to_owned_string("予期しないトークンです: ");
                s.append(kind.label());
                s
            },
            ParserError::UnclosedDelimiter { open_kind, .. } => {
                let mut s = to_owned_string("'");
                s.append(open_kind.label());
                s.append("' に対応する閉じ括弧が見つかりません");
                s
            },
            ParserError::StrayEnd { .. } => to_owned_string("対応する \\begin のない \\end です"),
            ParserError::MismatchedEnvironment { expected, found, .. } => {
                let mut s = to_owned_string("環境名が一致しません: \\begin{");
                s.append(expected.as_str());
                s.append("} に対して \\end{");
                s.append(found.as_str());
                s.append("}");
                s
            },
            ParserError::UnclosedEnvironment { name, .. } => {
                let mut s = to_owned_string("環境 '");
                s.append(name.as_str());
                s.append("' に対応する \\end が見つかりません");
                s
            },
            ParserError::UnclosedMathGroup { .. } => to_owned_string("数式内のグループが閉じられていません"),
            ParserError::InvalidBackslash { .. } => to_owned_string("不正なバックスラッシュです"),
            ParserError::BareGroup { .. } => to_owned_string("裸の {...} は構文エラーです"),
            ParserError::DollarDollarNotSupported { .. } => to_owned_string(
                "$$ は不採用です。ディスプレイ数式は \\begin{equation} を使ってください",
            ),
            ParserError::UnclosedInlineMath { .. } => to_owned_string("インライン数式が閉じられていません"),
            ParserError::BareBracket { .. } => to_owned_string("裸の '[' は構文エラーです"),
            ParserError::DollarInMathMode { .. } => to_owned_string("数式の中で $ は使用できません"),
        }
    }
}

/// The text of the `Text` tokens directly under a sequence of elements (an environment name).
pub open spec fn direct_text(src: Seq<u8>, s: Seq<GreenElement>) -> Seq<char>
    decreases s.len(),
{
    if s.len() == 0 {
        Seq::empty()
    } else {
        direct_text(src, s.drop_last()) + match s.last() {
            GreenElement::Token(t) => if t.kind == TokenKind::Text {
                t.spec_text(src)
            } else {
                Seq::empty()
            },
            GreenElement::Node(_) => Seq::empty(),
        }
    }
}

/// Concatenation of adjacent ranges of a sequence.
proof fn lemma_sub_concat(s: Seq<Token>, a: int, b: int, c: int)
    requires
        0 <= a <= b <= c <= s.len(),
    ensures
        s.subrange(a, b) + s.subrange(b, c) == s.subrange(a, c),
{
    assert(s.subrange(a, b) + s.subrange(b, c) =~= s.subrange(a, c));
}

/// The tokens of a range of well-formed tokens are well formed.
proof fn lemma_sub_wf(s: Seq<Token>, a: int, b: int, src: Seq<u8>)
    requires
        0 <= a <= b <= s.len(),
        tokens_wf(s, src),
    ensures
        tokens_wf(s.subrange(a, b), src),
{
    assert forall|i: int| 0 <= i < b - a implies (#[trigger] s.subrange(a, b)[i]).wf(src) by {
        assert(s.subrange(a, b)[i] == s[a + i]);
    }
}

/// The flattening of a single-token sequence.
proof fn lemma_single_token(t: Token)
    ensures
        seq_tokens(seq![GreenElement::Token(t)]) == seq![t],
{
    let s = seq![GreenElement::Token(t)];
    assert(s.drop_last() =~= Seq::<GreenElement>::empty());
    assert(s.last() == GreenElement::Token(t));
    assert(elem_tokens(GreenElement::Token(t)) == seq![t]);
    assert(seq_tokens(Seq::<GreenElement>::empty()) =~= Seq::<Token>::empty());
    assert(seq_tokens(s) == seq_tokens(s.drop_last()) + elem_tokens(s.last()));
    assert(Seq::<Token>::empty() + seq![t] =~= seq![t]);
}

/// Kinds that running text holds as plain leaves: anything but a command, `$`, a bracket or
/// brace, or an unrecognised token.
pub open spec fn is_plain_text_kind(k: TokenKind) -> bool {
    !(k == TokenKind::Command || k == TokenKind::Dollar || k == TokenKind::LBrace || k == TokenKind::RBrace
        || k == TokenKind::LBracket || k == TokenKind::RBracket || k == TokenKind::Unknown)
}

/// Every token of `ts` is a plain text token.
pub open spec fn all_plain(ts: Seq<Token>) -> bool {
    forall|i: int| 0 <= i < ts.len() ==> is_plain_text_kind(#[trigger] ts[i].kind)
}

/// The tokens as leaves, in order.
pub open spec fn token_leaves(ts: Seq<Token>) -> Seq<GreenElement> {
    ts.map_values(|t: Token| GreenElement::Token(t))
}

proof fn lemma_token_leaves_concat(s: Seq<Token>, a: int, b: int, c: int)
    requires
        0 <= a <= b <= c <= s.len(),
    ensures
        token_leaves(s.subrange(a, c)) == token_leaves(s.subrange(a, b)) + token_leaves(s.subrange(b, c)),
{
    assert(token_leaves(s.subrange(a, c)) =~= token_leaves(s.subrange(a, b)) + token_leaves(s.subrange(b, c)));
}

/// The first position at or after `p` whose token kind `keep` does not accept (the length of
/// `ts` when there is none).
pub open spec fn run_end(ts: Seq<Token>, p: int, keep: spec_fn(TokenKind) -> bool) -> int
    decreases ts.len() - p,
{
    if 0 <= p < ts.len() && keep(ts[p].kind) {
        run_end(ts, p + 1, keep)
    } else {
        p
    }
}

/// What [`run_end`] gives: every token from `p` up to it is kept, and the token there, if any,
/// is not.
pub proof fn lemma_run_end(ts: Seq<Token>, p: int, keep: spec_fn(TokenKind) -> bool)
    requires
        0 <= p <= ts.len(),
    ensures
        p <= run_end(ts, p, keep) <= ts.len(),
        forall|i: int| p <= i < run_end(ts, p, keep) ==> keep(#[trigger] ts[i].kind),
        run_end(ts, p, keep) < ts.len() ==> !keep(ts[run_end(ts, p, keep)].kind),
    decreases ts.len() - p,
{
    if p < ts.len() && keep(ts[p].kind) {
        lemma_run_end(ts, p + 1, keep);
    }
}

/// The kinds skipped as trivia.
pub open spec fn trivia_kind() -> spec_fn(TokenKind) -> bool {
    |k: TokenKind| k.spec_is_trivia()
}

/// The kinds that parse as a single leaf in `mode`: plain text kinds, except `_` and `^` in
/// math.
pub open spec fn leaf_kind(mode: ParseMode) -> spec_fn(TokenKind) -> bool {
    |k: TokenKind| is_plain_text_kind(k) && (mode == ParseMode::Math ==> k != TokenKind::Underscore && k != TokenKind::Caret)
}

/// The kinds that stand inside math as a single leaf of a group or of inline math: anything but
/// a brace, a bracket, a command, a script mark, `$` or an unrecognised token.
pub open spec fn math_leaf_kind() -> spec_fn(TokenKind) -> bool {
    |k: TokenKind| !(k == TokenKind::LBrace || k == TokenKind::RBrace || k == TokenKind::LBracket
        || k == TokenKind::RBracket || k == TokenKind::Command || k == TokenKind::Underscore
        || k == TokenKind::Caret || k == TokenKind::Dollar || k == TokenKind::Unknown)
}

/// What expecting a token of kind `expected` at position `p` fails with, if it fails:
/// `UnexpectedToken` for another token, `UnexpectedEof` (at `last`) at the end of input.
pub open spec fn expect_error(ts: Seq<Token>, p: int, expected: TokenKind, last: Span) -> Option<ParserError> {
    if p >= ts.len() {
        Some(ParserError::UnexpectedEof { span: last })
    } else if ts[p].kind != expected {
        Some(ParserError::UnexpectedToken { kind: ts[p].kind, span: ts[p].span })
    } else {
        None
    }
}

/// The end of a region opened by `open` at `p` that holds only leaves of `mode` and trivia,
/// just after its closing `close`, if the region is such.
pub open spec fn leaf_region_end(ts: Seq<Token>, p: int, open: TokenKind, close: TokenKind, mode: ParseMode) -> Option<int> {
    let q = run_end(ts, p + 1, leaf_kind(mode));
    if 0 <= p < ts.len() && ts[p].kind == open && q < ts.len() && ts[q].kind == close {
        Some(q + 1)
    } else {
        None
    }
}

/// What parsing a region opened by `open` and closed by `close` at `p` does, as far as it is
/// decided without nesting: when no `open` is there, the error of expecting it; when the region
/// holds only leaves of `mode` and trivia (and `close` is no leaf), it parses up to its
/// closing token, or, with no closing token before the end of input, is refused as unclosed.
pub open spec fn delimited_outcome(
    ts: Seq<Token>,
    p: int,
    last: Span,
    open: TokenKind,
    close: TokenKind,
    mode: ParseMode,
    r: Result<int, ParserError>,
) -> bool {
    let q = run_end(ts, p + 1, leaf_kind(mode));
    match expect_error(ts, p, open, last) {
        Some(e) => r == Err::<int, ParserError>(e),
        None => !leaf_kind(mode)(close) ==> {
            &&& (q < ts.len() && ts[q].kind == close) ==> r == Ok::<int, ParserError>(q + 1)
            &&& q == ts.len() ==> r == Err::<int, ParserError>(ParserError::UnclosedDelimiter { open_kind: open, span: ts[p].span })
        },
    }
}

/// What parsing a math group at `p` does, as far as it is decided without nesting: when no
/// `{` is there, the error of expecting it; when the group holds only single leaves of math, it
/// parses up to its `}`, or, at a `$` or the end of input first, is refused as unclosed.
pub open spec fn math_group_outcome(ts: Seq<Token>, p: int, last: Span, r: Result<int, ParserError>) -> bool {
    let q = run_end(ts, p + 1, math_leaf_kind());
    match expect_error(ts, p, TokenKind::LBrace, last) {
        Some(e) => r == Err::<int, ParserError>(e),
        None => {
            &&& (q < ts.len() && ts[q].kind == TokenKind::RBrace) ==> r == Ok::<int, ParserError>(q + 1)
            &&& (q == ts.len() || ts[q].kind == TokenKind::Dollar) ==> r == Err::<int, ParserError>(
                ParserError::UnclosedMathGroup { span: ts[p].span },
            )
        },
    }
}

/// What parsing inline math whose body starts at `p` (after the `$` at `open`) does, as far as
/// it is decided without nesting: a body of single leaves of math ends at the next `$`, and is
/// refused as unclosed when the input ends first.
pub open spec fn inline_math_outcome(ts: Seq<Token>, p: int, open: Span, r: Result<int, ParserError>) -> bool {
    let q = run_end(ts, p, math_leaf_kind());
    &&& (q < ts.len() && ts[q].kind == TokenKind::Dollar) ==> r == Ok::<int, ParserError>(q + 1)
    &&& q == ts.len() ==> r == Err::<int, ParserError>(ParserError::UnclosedInlineMath { span: open })
}

/// What parsing one item of math at `p` does, as far as it is decided without nesting: a
/// single leaf (or a `$`) is taken alone; an unrecognised token, a `[`, a `]` or a `}` is
/// refused; a `{` is a math group (see [`math_group_outcome`]); `_` or `^` is a script (see
/// [`math_script_outcome`]); a command with arguments of leaves ends where they end (see
/// [`call_end`]).
pub open spec fn math_atom_outcome(ts: Seq<Token>, p: int, last: Span, r: Result<int, ParserError>) -> bool {
    let k = ts[p].kind;
    if math_leaf_kind()(k) || k == TokenKind::Dollar {
        r == Ok::<int, ParserError>(p + 1)
    } else if k == TokenKind::Unknown {
        r == Err::<int, ParserError>(ParserError::InvalidBackslash { span: ts[p].span })
    } else if k == TokenKind::LBracket {
        r == Err::<int, ParserError>(ParserError::BareBracket { span: ts[p].span })
    } else if k == TokenKind::RBracket || k == TokenKind::RBrace {
        r == Err::<int, ParserError>(ParserError::UnexpectedToken { kind: k, span: ts[p].span })
    } else if k == TokenKind::LBrace {
        math_group_outcome(ts, p, last, r)
    } else if k == TokenKind::Underscore || k == TokenKind::Caret {
        math_script_outcome(ts, p, r)
    } else {
        call_end(ts, p + 1, ParseMode::Math) matches Some(e) ==> r == Ok::<int, ParserError>(e)
    }
}

/// What parsing a script whose mark (`_` or `^`) is at `p` does, as far as it is decided
/// without nesting: after the mark and any trivia, the end of input, an unrecognised token, a
/// `$`, a closing bracket or brace or a paragraph break is refused; a `{` is a math group (see
/// [`math_group_outcome`]); a command with arguments of leaves ends where they end (see
/// [`call_end`]); any other token is the script's only item.
pub open spec fn math_script_outcome(ts: Seq<Token>, p: int, r: Result<int, ParserError>) -> bool {
    let t = run_end(ts, p + 1, trivia_kind());
    if t >= ts.len() {
        r == Err::<int, ParserError>(ParserError::UnexpectedEof { span: ts[t - 1].span })
    } else {
        let k = ts[t].kind;
        if k == TokenKind::Unknown {
            r == Err::<int, ParserError>(ParserError::InvalidBackslash { span: ts[t].span })
        } else if k == TokenKind::Dollar || k == TokenKind::RBrace || k == TokenKind::RBracket
            || k == TokenKind::ParagraphBreak {
            r == Err::<int, ParserError>(ParserError::UnexpectedToken { kind: k, span: ts[t].span })
        } else if k == TokenKind::LBrace {
            math_group_outcome(ts, t, ts[t - 1].span, r)
        } else if k == TokenKind::Command {
            call_end(ts, t + 1, ParseMode::Math) matches Some(e) ==> r == Ok::<int, ParserError>(e)
        } else {
            r == Ok::<int, ParserError>(t + 1)
        }
    }
}

/// Where the arguments of a command call starting at `p` end (after any trivia that follows
/// them), when each argument holds only leaves and trivia: optional arguments `[...]` (read as
/// text, allowed while `opts`) and then mandatory arguments `{...}` (read in `mode`). `None`
/// when an argument is not such.
pub open spec fn leaf_args_end(ts: Seq<Token>, p: int, mode: ParseMode, opts: bool) -> Option<int>
    decreases ts.len() - p,
{
    if !(0 <= p <= ts.len()) {
        None
    } else {
        let t = run_end(ts, p, trivia_kind());
        proof {
            lemma_run_end(ts, p, trivia_kind());
            if t < ts.len() {
                lemma_run_end(ts, t + 1, leaf_kind(ParseMode::Text));
                lemma_run_end(ts, t + 1, leaf_kind(mode));
            }
        }
        if opts && t < ts.len() && ts[t].kind == TokenKind::LBracket {
            match leaf_region_end(ts, t, TokenKind::LBracket, TokenKind::RBracket, ParseMode::Text) {
                Some(e) => leaf_args_end(ts, e, mode, true),
                None => None,
            }
        } else if t < ts.len() && ts[t].kind == TokenKind::LBrace {
            match leaf_region_end(ts, t, TokenKind::LBrace, TokenKind::RBrace, mode) {
                Some(e) => leaf_args_end(ts, e, mode, false),
                None => None,
            }
        } else {
            Some(t)
        }
    }
}

/// Where a command call whose command token ends at `p` ends, when each of its arguments
/// holds only leaves and trivia (see [`call_args_end`]): a command without arguments ends after
/// the trivia that follows it. `None` when an argument is not such.
pub open spec fn call_end(ts: Seq<Token>, p: int, mode: ParseMode) -> Option<int> {
    let t = run_end(ts, p, trivia_kind());
    if t < ts.len() && (ts[t].kind == TokenKind::LBracket || ts[t].kind == TokenKind::LBrace) {
        call_args_end(ts, t, mode, true)
    } else {
        Some(t)
    }
}

/// Where the arguments of a command call, the first of which opens at `t`, end: optional
/// arguments `[...]` (read as text, allowed while `opts`) and then mandatory arguments `{...}`
/// (read in `mode`), each holding only leaves and trivia. Trivia between two arguments belongs
/// to the call; the call ends right after its last argument. `None` when an argument is not
/// such.
pub open spec fn call_args_end(ts: Seq<Token>, t: int, mode: ParseMode, opts: bool) -> Option<int>
    decreases ts.len() - t,
{
    if !(0 <= t < ts.len()) {
        None
    } else {
        let is_opt = opts && ts[t].kind == TokenKind::LBracket;
        let region = if is_opt {
            leaf_region_end(ts, t, TokenKind::LBracket, TokenKind::RBracket, ParseMode::Text)
        } else if ts[t].kind == TokenKind::LBrace {
            leaf_region_end(ts, t, TokenKind::LBrace, TokenKind::RBrace, mode)
        } else {
            None
        };
        match region {
            None => None,
            Some(e) => {
                proof {
                    lemma_run_end(ts, t + 1, leaf_kind(ParseMode::Text));
                    lemma_run_end(ts, t + 1, leaf_kind(mode));
                    lemma_run_end(ts, e, trivia_kind());
                }
                let t2 = run_end(ts, e, trivia_kind());
                if t2 < ts.len() && ((is_opt && ts[t2].kind == TokenKind::LBracket) || ts[t2].kind == TokenKind::LBrace) {
                    call_args_end(ts, t2, mode, is_opt)
                } else {
                    Some(e)
                }
            },
        }
    }
}

/// A run is not lengthened by starting it again where it ended.
proof fn lemma_run_end_again(ts: Seq<Token>, p: int, keep: spec_fn(TokenKind) -> bool)
    requires
        0 <= p <= ts.len(),
    ensures
        run_end(ts, run_end(ts, p, keep), keep) == run_end(ts, p, keep),
{
    lemma_run_end(ts, p, keep);
}

/// Trivia before the arguments does not change where they end.
proof fn lemma_leaf_args_after_trivia(ts: Seq<Token>, p: int, mode: ParseMode, opts: bool)
    requires
        0 <= p <= ts.len(),
    ensures
        leaf_args_end(ts, run_end(ts, p, trivia_kind()), mode, opts) == leaf_args_end(ts, p, mode, opts),
{
    lemma_run_end(ts, p, trivia_kind());
    lemma_run_end_again(ts, p, trivia_kind());
}

/// The text of the `Text` tokens of `ts`, in order.
pub open spec fn tokens_text(src: Seq<u8>, ts: Seq<Token>) -> Seq<char>
    decreases ts.len(),
{
    if ts.len() == 0 {
        Seq::empty()
    } else {
        tokens_text(src, ts.drop_last()) + if ts.last().kind == TokenKind::Text {
            ts.last().spec_text(src)
        } else {
            Seq::empty()
        }
    }
}

/// The text directly under leaves is that of their `Text` tokens.
proof fn lemma_direct_text_of_leaves(src: Seq<u8>, ts: Seq<Token>)
    ensures
        direct_text(src, token_leaves(ts)) == tokens_text(src, ts),
    decreases ts.len(),
{
    if ts.len() > 0 {
        lemma_direct_text_of_leaves(src, ts.drop_last());
        assert(token_leaves(ts).drop_last() =~= token_leaves(ts.drop_last()));
    } else {
        assert(token_leaves(ts) =~= Seq::<GreenElement>::empty());
    }
}

/// For an environment whose `\begin` has been read up to `p`: when its name argument and its
/// arguments hold only leaves and trivia, where the name argument ends, where the arguments end
/// (where the body starts), and where the run of leaves of the body ends, the body being read in
/// the mode `modes` gives for the environment's name.
pub open spec fn leaf_environment_body(
    ts: Seq<Token>,
    src: Seq<u8>,
    p: int,
    modes: spec_fn(Seq<char>) -> ParseMode,
) -> Option<(int, int, int)> {
    match leaf_region_end(ts, p, TokenKind::LBrace, TokenKind::RBrace, ParseMode::Text) {
        None => None,
        Some(n1) => match leaf_args_end(ts, n1, ParseMode::Text, true) {
            None => None,
            Some(b) => Some((n1, b, run_end(ts, b, leaf_kind(modes(tokens_text(src, ts.subrange(p, n1))))))),
        },
    }
}

/// What parsing an environment whose `\begin` has been read up to `p` does, as far as it is
/// decided without nesting (see [`leaf_environment_body`]): a body that runs to the end of
/// input is refused as unclosed; a body that ends at `\end` with a name argument of leaves
/// parses up to that argument's end when both names agree, and is refused as mismatched when
/// they do not.
pub open spec fn environment_outcome(
    ts: Seq<Token>,
    src: Seq<u8>,
    p: int,
    modes: spec_fn(Seq<char>) -> ParseMode,
    begin: Span,
    r: Result<int, ParserError>,
) -> bool {
    match leaf_environment_body(ts, src, p, modes) {
        None => true,
        Some((n1, b, q)) => {
            let name = tokens_text(src, ts.subrange(p, n1));
            &&& q == ts.len() ==> (r matches Err(ParserError::UnclosedEnvironment { name: nm, span })
                && nm@ == name && span == begin)
            &&& (q < ts.len() && ts[q].kind == TokenKind::Command && ts[q].spec_tail(src) == "end"@) ==> match leaf_region_end(
                ts,
                q + 1,
                TokenKind::LBrace,
                TokenKind::RBrace,
                ParseMode::Text,
            ) {
                Some(e) => {
                    let end_name = tokens_text(src, ts.subrange(q + 1, e));
                    if name == end_name {
                        r == Ok::<int, ParserError>(e)
                    } else {
                        r matches Err(ParserError::MismatchedEnvironment { expected, found, .. })
                            && expected@ == name && found@ == end_name
                    }
                },
                None => true,
            }
        },
    }
}

/// The node kind of the element that starts with the token at `t` in `mode`, or `None` when
/// the token is a leaf of its own.
pub open spec fn element_node_kind(ts: Seq<Token>, src: Seq<u8>, t: int, mode: ParseMode) -> Option<SyntaxKind> {
    let k = ts[t].kind;
    if k == TokenKind::Command {
        if ts[t].spec_tail(src) == "begin"@ {
            Some(SyntaxKind::Environment)
        } else {
            Some(SyntaxKind::CommandCall)
        }
    } else if k == TokenKind::Dollar {
        Some(SyntaxKind::InlineMath)
    } else if k == TokenKind::LBrace {
        Some(SyntaxKind::MathGroup)
    } else if k == TokenKind::Underscore && mode == ParseMode::Math {
        Some(SyntaxKind::MathSubscript)
    } else if k == TokenKind::Caret && mode == ParseMode::Math {
        Some(SyntaxKind::MathSuperscript)
    } else {
        None
    }
}

/// What parsing one element at `p` in `mode` does, `r` being the result and `q` the position
/// reached: leading trivia is kept; at the end of input nothing more happens. Otherwise, by the
/// kind of the next token: `\begin` opens an environment (see [`environment_outcome`]), a stray
/// `\end` is refused, any other command is a call (see [`call_end`]); `$` opens inline math
/// in text (see [`inline_math_outcome`]) unless a second `$` follows at once, and is refused in
/// math; `{` is a math group in math (see [`math_group_outcome`]) and refused in text; `_` and
/// `^` are scripts in math (see [`math_script_outcome`]) and leaves in text; `[` is refused; a
/// closer equal to `closer` is left for the caller and any other closer is refused; an
/// unrecognised token is refused; any other token is a leaf. A refused token is consumed.
pub open spec fn element_outcome(
    ts: Seq<Token>,
    src: Seq<u8>,
    modes: spec_fn(Seq<char>) -> ParseMode,
    p: int,
    mode: ParseMode,
    closer: Option<TokenKind>,
    r: Result<(), ParserError>,
    q: int,
) -> bool {
    let t = run_end(ts, p, trivia_kind());
    let res = reached(r, q);
    if t >= ts.len() {
        r is Ok && q == t
    } else {
        let k = ts[t].kind;
        let sp = ts[t].span;
        if k == TokenKind::Command {
            if ts[t].spec_tail(src) == "begin"@ {
                environment_outcome(ts, src, t + 1, modes, sp, res)
            } else if ts[t].spec_tail(src) == "end"@ {
                r == Err::<(), ParserError>(ParserError::StrayEnd { span: sp }) && q == t + 1
            } else {
                call_end(ts, t + 1, mode) matches Some(e) ==> res == Ok::<int, ParserError>(e)
            }
        } else if k == TokenKind::Dollar {
            if mode == ParseMode::Text {
                if t + 1 < ts.len() && ts[t + 1].kind == TokenKind::Dollar {
                    r == Err::<(), ParserError>(ParserError::DollarDollarNotSupported { span: sp.spec_merge(ts[t + 1].span) })
                        && q == t + 2
                } else {
                    inline_math_outcome(ts, t + 1, sp, res)
                }
            } else {
                r == Err::<(), ParserError>(ParserError::DollarInMathMode { span: sp }) && q == t + 1
            }
        } else if k == TokenKind::LBrace {
            if mode == ParseMode::Math {
                math_group_outcome(ts, t, sp, res)
            } else {
                r == Err::<(), ParserError>(ParserError::BareGroup { span: sp }) && q == t + 1
            }
        } else if k == TokenKind::Underscore || k == TokenKind::Caret {
            if mode == ParseMode::Math {
                math_script_outcome(ts, t, res)
            } else {
                r is Ok && q == t + 1
            }
        } else if k == TokenKind::LBracket {
            r == Err::<(), ParserError>(ParserError::BareBracket { span: sp }) && q == t + 1
        } else if k == TokenKind::RBrace || k == TokenKind::RBracket {
            if closer == Some(k) {
                r is Ok && q == t
            } else {
                r == Err::<(), ParserError>(ParserError::UnexpectedToken { kind: k, span: sp }) && q == t + 1
            }
        } else if k == TokenKind::Unknown {
            r == Err::<(), ParserError>(ParserError::InvalidBackslash { span: sp }) && q == t + 1
        } else {
            r is Ok && q == t + 1
        }
    }
}

/// What the top level of the input does at its first token that is no leaf of running text:
/// the element there has an outcome (see [`element_outcome`]); when that outcome is an error,
/// it is the error of the whole parse, and otherwise the element takes at least that token.
pub open spec fn first_element_decides(
    ts: Seq<Token>,
    src: Seq<u8>,
    modes: spec_fn(Seq<char>) -> ParseMode,
    r: Result<GreenNode, ParserError>,
) -> bool {
    let t = run_end(ts, 0, leaf_kind(ParseMode::Text));
    t < ts.len() ==> exists|re: Result<(), ParserError>, q: int| {
        &&& #[trigger] element_outcome(ts, src, modes, t, ParseMode::Text, None, re, q)
        &&& re matches Err(e) ==> r == Err::<GreenNode, ParserError>(e)
        &&& re is Ok ==> q > t
    }
}

/// The outcome of a parse as the position reached or the error.
pub open spec fn reached<T>(r: Result<T, ParserError>, pos: int) -> Result<int, ParserError> {
    match r {
        Ok(_) => Ok(pos),
        Err(e) => Err(e),
    }
}

/// The parser's state: the source, its tokens and the position of the next token.
struct Parser<'a, M: BodyModes> {
    source: &'a str,
    tokens: &'a [Token],
    pos: usize,
    last_span: Span,
    modes: &'a M,
}

impl<'a, M: BodyModes> Parser<'a, M> {
    /// The position is within the tokens and every token covers whole characters of the source.
    spec fn inv(&self) -> bool {
        &&& self.pos <= self.tokens@.len()
        &&& tokens_wf(self.tokens@, self.source.spec_bytes())
    }

    /// The input of `self` is that of `other`.
    spec fn same_input(&self, other: &Self) -> bool {
        &&& self.source == other.source
        &&& self.tokens == other.tokens
        &&& self.modes == other.modes
    }

    /// The tokens `[a, b)` of the input.
    spec fn consumed(&self, a: int, b: int) -> Seq<Token> {
        self.tokens@.subrange(a, b)
    }

    fn new(source: &'a str, tokens: &'a [Token], modes: &'a M) -> (p: Self)
        requires
            tokens_wf(tokens@, source.spec_bytes()),
        ensures
            p.inv(),
            p.pos == 0,
            p.source == source,
            p.tokens == tokens,
            p.modes == modes,
    {
        Parser { source, tokens, pos: 0, last_span: Span::dummy(), modes }
    }

    /// Consumes and returns the next token.
    fn next_token(&mut self) -> (t: Token)
        requires
            old(self).inv(),
            old(self).pos < old(self).tokens@.len(),
        ensures
            final(self).inv(),
            final(self).same_input(old(self)),
            final(self).pos == old(self).pos + 1,
            t == old(self).tokens@[old(self).pos as int],
            t.wf(old(self).source.spec_bytes()),
            final(self).last_span == t.span,
    {
        let t = self.tokens[self.pos];
        self.pos = self.pos + 1;
        self.last_span = t.span;
        t
    }

    /// The next token, without consuming it.
    fn peek_token(&self) -> (t: Option<Token>)
        requires
            self.inv(),
        ensures
            self.pos < self.tokens@.len() ==> t == Some(self.tokens@[self.pos as int]),
            self.pos == self.tokens@.len() ==> t is None,
    {
        if self.pos < self.tokens.len() {
            Some(self.tokens[self.pos])
        } else {
            None
        }
    }

    /// The kind of the next token, without consuming it.
    fn peek_kind(&self) -> (k: Option<TokenKind>)
        requires
            self.inv(),
        ensures
            self.pos < self.tokens@.len() ==> k == Some(self.tokens@[self.pos as int].kind),
            self.pos == self.tokens@.len() ==> k is None,
    {
        if self.pos < self.tokens.len() {
            Some(self.tokens[self.pos].kind)
        } else {
            None
        }
    }

    /// Consumes white space, newlines and comments, keeping them as children.
    fn skip_trivia(&mut self, children: &mut Vec<GreenElement>)
        requires
            old(self).inv(),
        ensures
            final(self).inv(),
            final(self).same_input(old(self)),
            old(self).pos <= final(self).pos,
            final(self).pos == run_end(old(self).tokens@, old(self).pos as int, trivia_kind()),
            final(self).last_span == (if final(self).pos == old(self).pos { old(self).last_span } else { old(self).tokens@[final(self).pos - 1].span }),
            final(self).pos == final(self).tokens@.len() || !final(self).tokens@[final(self).pos as int].kind.spec_is_trivia(),
            seq_tokens(final(children)@) == seq_tokens(old(children)@) + old(self).consumed(
                old(self).pos as int,
                final(self).pos as int,
            ),
            final(children)@ == old(children)@ + token_leaves(old(self).consumed(old(self).pos as int, final(self).pos as int)),
    {
        let ghost start = self.pos;
        let ghost start_children = children@;
        loop
            invariant
                self.inv(),
                self.same_input(old(self)),
                start == old(self).pos,
                start_children == old(children)@,
                start <= self.pos,
                run_end(self.tokens@, self.pos as int, trivia_kind()) == run_end(self.tokens@, start as int, trivia_kind()),
                self.last_span == (if self.pos == start { old(self).last_span } else { self.tokens@[self.pos - 1].span }),
                seq_tokens(children@) == seq_tokens(start_children) + self.consumed(
                    start as int,
                    self.pos as int,
                ),
                children@ == start_children + token_leaves(self.consumed(start as int, self.pos as int)),
            ensures
                self.inv(),
                self.same_input(old(self)),
                start <= self.pos,
                self.pos == run_end(self.tokens@, start as int, trivia_kind()),
                self.last_span == (if self.pos == start { old(self).last_span } else { self.tokens@[self.pos - 1].span }),
                self.pos == self.tokens@.len() || !self.tokens@[self.pos as int].kind.spec_is_trivia(),
                seq_tokens(children@) == seq_tokens(start_children) + self.consumed(
                    start as int,
                    self.pos as int,
                ),
                children@ == start_children + token_leaves(self.consumed(start as int, self.pos as int)),
            decreases self.tokens@.len() - self.pos,
        {
            match self.peek_kind() {
                Some(k) => {
                    if !k.is_trivia() {
                        break;
                    }
                },
                None => {
                    break;
                },
            }
            let ghost p = self.pos;
            let token = self.next_token();
            proof {
                lemma_seq_tokens_push(children@, GreenElement::Token(token));
                lemma_sub_concat(self.tokens@, start as int, p as int, self.pos as int);
                assert(self.consumed(p as int, self.pos as int) =~= seq![token]);
                assert(seq_tokens(children@) + seq![token] == seq_tokens(start_children)
                    + self.consumed(start as int, self.pos as int));
                assert(token_leaves(self.consumed(start as int, self.pos as int)) =~= token_leaves(
                    self.consumed(start as int, p as int)).push(GreenElement::Token(token)));
            }
            children.push(GreenElement::Token(token));
        }
        proof {
            assert(self.consumed(start as int, self.pos as int) == old(self).consumed(start as int, self.pos as int));
        }
    }

    /// Parses the whole input into the root node.
    fn parse_root(&mut self) -> (r: Result<GreenNode, ParserError>)
        requires
            old(self).inv(),
            old(self).pos == 0,
        ensures
            final(self).inv(),
            r matches Ok(n) ==> n.kind == SyntaxKind::Root && node_tokens(n) == old(self).tokens@,
            all_plain(old(self).tokens@) ==> (r matches Ok(n) && n.children@ == token_leaves(old(self).tokens@)),
            first_element_decides(old(self).tokens@, old(self).source.spec_bytes(), modes_of(old(self).modes), r),
    {
        let ghost ts = self.tokens@;
        let ghost src = self.source.spec_bytes();
        let ghost t0 = run_end(ts, 0, leaf_kind(ParseMode::Text));
        let ghost mut seen = false;
        let ghost mut wq: int = 0;
        proof {
            lemma_run_end(ts, 0, leaf_kind(ParseMode::Text));
        }
        let mut children: Vec<GreenElement> = Vec::new();
        proof {
            assert(seq_tokens(children@) =~= self.consumed(0, 0));
            assert(children@ =~= token_leaves(self.consumed(0, 0)));
        }
        loop
            invariant_except_break
                self.inv(),
                self.same_input(old(self)),
                seq_tokens(children@) == self.consumed(0, self.pos as int),
                all_plain(self.tokens@) ==> children@ == token_leaves(self.consumed(0, self.pos as int)),
                ts == self.tokens@,
                src == self.source.spec_bytes(),
                t0 == run_end(ts, 0, leaf_kind(ParseMode::Text)),
                0 <= t0 <= ts.len(),
                forall|i: int| 0 <= i < t0 ==> leaf_kind(ParseMode::Text)(#[trigger] ts[i].kind),
                t0 < ts.len() ==> !leaf_kind(ParseMode::Text)(ts[t0].kind),
                !seen ==> self.pos <= t0,
                seen ==> t0 < ts.len() && element_outcome(ts, src, modes_of(self.modes), t0, ParseMode::Text, None, Ok(()), wq)
                    && wq > t0,
            ensures
                self.inv(),
                self.same_input(old(self)),
                self.pos == self.tokens@.len(),
                !seen ==> self.pos <= t0,
                seen ==> t0 < ts.len() && element_outcome(ts, src, modes_of(self.modes), t0, ParseMode::Text, None, Ok(()), wq)
                    && wq > t0,
                seq_tokens(children@) == self.consumed(0, self.pos as int),
                all_plain(self.tokens@) ==> children@ == token_leaves(self.consumed(0, self.pos as int)),
            decreases self.tokens@.len() - self.pos,
        {
            let ghost p0 = self.pos;
            self.skip_trivia(&mut children);
            proof {
                lemma_sub_concat(self.tokens@, 0, p0 as int, self.pos as int);
                lemma_token_leaves_concat(self.tokens@, 0, p0 as int, self.pos as int);
                lemma_run_end(ts, p0 as int, trivia_kind());
                if !seen && self.pos > t0 {
                    assert(trivia_kind()(ts[t0].kind));
                }
            }
            if self.pos >= self.tokens.len() {
                break;
            }
            let ghost p1 = self.pos;
            proof {
                if !seen && self.pos > t0 {
                    assert(trivia_kind()(ts[t0].kind));
                }
                if !seen && self.pos < t0 {
                    assert(leaf_kind(ParseMode::Text)(ts[self.pos as int].kind));
                }
            }
            let elem = self.parse_element(&mut children, ParseMode::Text, None);
            proof {
                if !seen && p1 == t0 {
                    assert(run_end(ts, p1 as int, trivia_kind()) == p1);
                }
            }
            match elem {
                Ok(()) => {},
                Err(e) => {
                    proof {
                        if t0 < ts.len() && !seen {
                            assert(element_outcome(ts, src, modes_of(self.modes), t0, ParseMode::Text, None, Err(e), self.pos as int));
                        }
                    }
                    return Err(e);
                },
            }
            proof {
                lemma_sub_concat(self.tokens@, 0, p1 as int, self.pos as int);
                lemma_token_leaves_concat(self.tokens@, 0, p1 as int, self.pos as int);
                if !seen && p1 == t0 {
                    seen = true;
                    wq = self.pos as int;
                }
            }
        }
        proof {
            assert(self.consumed(0, self.pos as int) =~= self.tokens@);
        }
        let end = self.last_span.end;
        let r = Ok(GreenNode { kind: SyntaxKind::Root, span: Span::new(0, end), children });
        proof {
            if t0 < ts.len() {
                assert(seen);
                assert(element_outcome(ts, src, modes_of(self.modes), t0, ParseMode::Text, None, Ok(()), wq));
            }
        }
        r
    }

    /// Parses one element and appends it to `children`. A closing bracket equal to
    /// `expected_closer` is left for the caller.
    fn parse_element(
        &mut self,
        children: &mut Vec<GreenElement>,
        mode: ParseMode,
        expected_closer: Option<TokenKind>,
    ) -> (r: Result<(), ParserError>)
        requires
            old(self).inv(),
        ensures
            final(self).inv(),
            final(self).same_input(old(self)),
            old(self).pos <= final(self).pos,
            r is Ok ==> seq_tokens(final(children)@) == seq_tokens(old(children)@) + old(self).consumed(old(self).pos as int, final(self).pos as int),
            r is Ok && old(self).pos < old(self).tokens@.len() && !old(self).tokens@[old(self).pos as int].kind.spec_is_trivia() && expected_closer != Some(
                old(self).tokens@[old(self).pos as int].kind,
            ) ==> old(self).pos < final(self).pos,
            old(self).pos < old(self).tokens@.len() && leaf_kind(mode)(old(self).tokens@[old(self).pos as int].kind)
                && !old(self).tokens@[old(self).pos as int].kind.spec_is_trivia() ==> r is Ok && final(self).pos == old(self).pos + 1
                && final(children)@ == old(children)@.push(GreenElement::Token(old(self).tokens@[old(self).pos as int])),
            mode == ParseMode::Text && all_plain(old(self).tokens@) ==> (r is Ok && final(children)@ == old(children)@
                + token_leaves(old(self).consumed(old(self).pos as int, final(self).pos as int))),
            element_outcome(old(self).tokens@, old(self).source.spec_bytes(), modes_of(old(self).modes),
                old(self).pos as int, mode, expected_closer, r,
                final(self).pos as int),
            ({
                let ts = old(self).tokens@;
                let t = run_end(ts, old(self).pos as int, trivia_kind());
                r is Ok && t < ts.len() && final(self).pos > t ==> {
                    &&& final(children)@.len() == old(children)@.len() + (t - old(self).pos) + 1
                    &&& final(children)@.subrange(0, old(children)@.len() + (t - old(self).pos))
                        == old(children)@ + token_leaves(ts.subrange(old(self).pos as int, t))
                    &&& match element_node_kind(ts, old(self).source.spec_bytes(), t, mode) {
                        Some(kind) => final(children)@.last() matches GreenElement::Node(n) && n.kind == kind,
                        None => final(children)@.last() == GreenElement::Token(ts[t]),
                    }
                }
            }),
        decreases old(self).tokens@.len() - old(self).pos, 1nat,
    {
        let ghost p0 = self.pos;
        self.skip_trivia(children);
        let ghost p1 = self.pos;
        let ghost mid_children = children@;
        let kind = match self.peek_kind() {
            Some(k) => k,
            None => {
                return Ok(());
            },
        };
        let ghost elem: GreenElement;
        match kind {
            TokenKind::Command => {
                let token = self.next_token();
                let name = token.command_name(self.source);
                if str_eq(name, "begin") {
                    let env = self.parse_environment(token)?;
                    proof {
                        elem = GreenElement::Node(Box::new(env));
                    }
                    children.push(GreenElement::Node(Box::new(env)));
                } else if str_eq(name, "end") {
                    return Err(ParserError::StrayEnd { span: token.span });
                } else {
                    let cmd = self.parse_command_call(token, mode)?;
                    proof {
                        elem = GreenElement::Node(Box::new(cmd));
                    }
                    children.push(GreenElement::Node(Box::new(cmd)));
                }
            },
            TokenKind::Dollar => {
                if mode == ParseMode::Text {
                    let first_dollar = self.next_token();
                    if self.peek_kind() == Some(TokenKind::Dollar) {
                        let second_dollar = self.next_token();
                        return Err(
                            ParserError::DollarDollarNotSupported {
                                span: first_dollar.span.merge(second_dollar.span),
                            },
                        );
                    }
                    let math = self.parse_inline_math(first_dollar)?;
                    proof {
                        elem = GreenElement::Node(Box::new(math));
                    }
                    children.push(GreenElement::Node(Box::new(math)));
                } else {
                    let token = self.next_token();
                    return Err(ParserError::DollarInMathMode { span: token.span });
                }
            },
            TokenKind::LBrace => {
                if mode == ParseMode::Math {
                    let group = self.parse_math_group()?;
                    proof {
                        elem = GreenElement::Node(Box::new(group));
                    }
                    children.push(GreenElement::Node(Box::new(group)));
                } else {
                    let token = self.next_token();
                    return Err(ParserError::BareGroup { span: token.span });
                }
            },
            TokenKind::Underscore | TokenKind::Caret => {
                if mode == ParseMode::Math {
                    let script_kind = if kind == TokenKind::Underscore {
                        SyntaxKind::MathSubscript
                    } else {
                        SyntaxKind::MathSuperscript
                    };
                    let script = self.parse_math_script(script_kind)?;
                    proof {
                        elem = GreenElement::Node(Box::new(script));
                    }
                    children.push(GreenElement::Node(Box::new(script)));
                } else {
                    let token = self.next_token();
                    proof {
                        elem = GreenElement::Token(token);
                        assert(self.consumed(p1 as int, self.pos as int) =~= seq![token]);
                    }
                    children.push(GreenElement::Token(token));
                }
            },
            TokenKind::LBracket => {
                let token = self.next_token();
                return Err(ParserError::BareBracket { span: token.span });
            },
            TokenKind::RBrace | TokenKind::RBracket => {
                if expected_closer == Some(kind) {
                    proof {
                        assert(self.consumed(p0 as int, p1 as int) =~= old(self).consumed(
                            p0 as int,
                            self.pos as int,
                        ));
                    }
                    return Ok(());
                }
                let token = self.next_token();
                return Err(ParserError::UnexpectedToken { kind: token.kind, span: token.span });
            },
            TokenKind::Unknown => {
                let token = self.next_token();
                return Err(ParserError::InvalidBackslash { span: token.span });
            },
            _ => {
                let token = self.next_token();
                proof {
                    elem = GreenElement::Token(token);
                    assert(self.consumed(p1 as int, self.pos as int) =~= seq![token]);
                }
                children.push(GreenElement::Token(token));
            },
        }
        proof {
            lemma_seq_tokens_push(mid_children, elem);
            assert(children@ == mid_children.push(elem));
            assert(elem_tokens(elem) == self.consumed(p1 as int, self.pos as int));
            lemma_sub_concat(self.tokens@, p0 as int, p1 as int, self.pos as int);
            if mode == ParseMode::Text && all_plain(old(self).tokens@) {
                assert(self.pos == p1 + 1);
                assert(elem == GreenElement::Token(self.tokens@[p1 as int]));
                assert(self.consumed(p1 as int, self.pos as int) =~= seq![self.tokens@[p1 as int]]);
                lemma_token_leaves_concat(self.tokens@, p0 as int, p1 as int, self.pos as int);
                assert(token_leaves(seq![self.tokens@[p1 as int]]) =~= seq![elem]);
                assert(children@ =~= old(children)@ + token_leaves(old(self).consumed(p0 as int, self.pos as int)));
            }
        }
        Ok(())
    }

    /// The text of the `Text` tokens directly under a mandatory argument (an environment name).
    fn extract_text_from_arg(&self, arg_node: &GreenNode) -> (s: String)
        requires
            tree_wf(*arg_node, self.source.spec_bytes()),
        ensures
            s@ == direct_text(self.source.spec_bytes(), arg_node.children@),
    {
        let mut text = String::new();
        let mut i: usize = 0;
        while i < arg_node.children.len()
            invariant
                0 <= i <= arg_node.children@.len(),
                tree_wf(*arg_node, self.source.spec_bytes()),
                text@ == direct_text(
                    self.source.spec_bytes(),
                    arg_node.children@.subrange(0, i as int),
                ),
            decreases arg_node.children@.len() - i,
        {
            assert(arg_node.children@.subrange(0, i + 1).drop_last() =~= arg_node.children@.subrange(
                0,
                i as int,
            ));
            match &arg_node.children[i] {
                GreenElement::Token(t) => {
                    if t.kind == TokenKind::Text {
                        proof {
                            lemma_direct_token_wf(arg_node.children@, i as int, self.source.spec_bytes());
                        }
                        text.append(t.text(self.source));
                    }
                },
                GreenElement::Node(_) => {},
            }
            i = i + 1;
        }
        assert(arg_node.children@.subrange(0, i as int) =~= arg_node.children@);
        text
    }

    /// Parses `\begin{name}[opt]{arg}... body ...\end{name}`; `\begin` has been consumed.
    #[verifier::rlimit(60)]
    fn parse_environment(&mut self, begin_token: Token) -> (r: Result<GreenNode, ParserError>)
        requires
            old(self).inv(),
            old(self).pos >= 1,
            old(self).tokens@[old(self).pos - 1] == begin_token,
        ensures
            final(self).inv(),
            final(self).same_input(old(self)),
            old(self).pos <= final(self).pos,
            r matches Ok(n) ==> n.kind == SyntaxKind::Environment && node_tokens(n) == old(self).consumed(old(self).pos - 1, final(self).pos as int),
            environment_outcome(old(self).tokens@, old(self).source.spec_bytes(), old(self).pos as int,
                modes_of(old(self).modes), begin_token.span, reached(r, final(self).pos as int)),
            r matches Ok(n) ==> {
                &&& n.span == begin_token.span.spec_merge(old(self).tokens@[final(self).pos - 1].span)
                &&& n.children@.len() == 3
                &&& n.children@[0] matches GreenElement::Node(bn) && bn.kind == SyntaxKind::EnvironmentBegin
                &&& n.children@[1] matches GreenElement::Node(bd) && bd.kind == SyntaxKind::EnvironmentBody
                &&& n.children@[2] matches GreenElement::Node(en) && en.kind == SyntaxKind::EnvironmentEnd
            },
            ({
                let ts = old(self).tokens@;
                let src = old(self).source.spec_bytes();
                match leaf_environment_body(ts, src, old(self).pos as int, modes_of(old(self).modes)) {
                    Some((n1, b, q)) => (q < ts.len() && ts[q].kind == TokenKind::Command && ts[q].spec_tail(src) == "end"@)
                        ==> (r matches Ok(n) ==> n.children@[1] matches GreenElement::Node(bd)
                        && bd.children@ == token_leaves(ts.subrange(b, q))),
                    None => true,
                }
            }),
        decreases old(self).tokens@.len() - old(self).pos, 2nat,
    {
        let ghost p0 = self.pos;
        let ghost ts = self.tokens@;
        let ghost src = self.source.spec_bytes();
        let ghost md = modes_of(self.modes);
        let ghost plan = leaf_environment_body(ts, src, p0 as int, md);
        let ghost n1 = plan->Some_0.0;
        let ghost qb = plan->Some_0.2;
        let ghost target = leaf_args_end(ts, n1, ParseMode::Text, true);
        let start_span = begin_token.span;
        let mut begin_children: Vec<GreenElement> = Vec::new();
        begin_children.push(GreenElement::Token(begin_token));
        proof {
            lemma_single_token(begin_token);
            assert(self.consumed(p0 - 1, p0 as int) =~= seq![begin_token]);
        }
        let name_arg = self.parse_mandatory_arg(ParseMode::Text)?;
        proof {
            lemma_sub_wf(self.tokens@, p0 as int, self.pos as int, self.source.spec_bytes());
        }
        let env_name = self.extract_text_from_arg(&name_arg);
        proof {
            if plan is Some {
                lemma_direct_text_of_leaves(src, ts.subrange(p0 as int, n1));
                assert(env_name@ == tokens_text(src, ts.subrange(p0 as int, n1)));
                assert(self.pos == n1);
            }
        }
        proof {
            lemma_seq_tokens_push(begin_children@, GreenElement::Node(Box::new(name_arg)));
            lemma_sub_concat(self.tokens@, p0 - 1, p0 as int, self.pos as int);
        }
        begin_children.push(GreenElement::Node(Box::new(name_arg)));
        let ghost n1x = self.pos;
        self.skip_trivia(&mut begin_children);
        proof {
            lemma_sub_concat(self.tokens@, p0 - 1, p0 as int + 2, self.pos as int);
            lemma_leaf_args_after_trivia(ts, n1x as int, ParseMode::Text, true);
            lemma_run_end_again(ts, n1x as int, trivia_kind());
        }
        while self.peek_kind() == Some(TokenKind::LBracket)
            invariant
                self.inv(),
                self.same_input(old(self)),
                p0 == old(self).pos,
                1 <= p0 < self.pos,
                ts == self.tokens@,
                self.pos == run_end(ts, self.pos as int, trivia_kind()),
                plan == leaf_environment_body(ts, src, p0 as int, md),
                src == self.source.spec_bytes(),
                md == modes_of(self.modes),
                n1 == plan->Some_0.0,
                target == leaf_args_end(ts, n1, ParseMode::Text, true),
                plan is Some ==> target is Some,
                plan is Some ==> leaf_args_end(ts, self.pos as int, ParseMode::Text, true) == target,
                seq_tokens(begin_children@) == self.consumed(p0 - 1, self.pos as int),
            decreases self.tokens@.len() - self.pos,
        {
            let ghost q = self.pos;
            let opt = self.parse_opt_arg()?;
            proof {
                lemma_seq_tokens_push(begin_children@, GreenElement::Node(Box::new(opt)));
                lemma_sub_concat(self.tokens@, p0 - 1, q as int, self.pos as int);
            }
            begin_children.push(GreenElement::Node(Box::new(opt)));
            let ghost q2 = self.pos;
            self.skip_trivia(&mut begin_children);
            proof {
                lemma_sub_concat(self.tokens@, p0 - 1, q2 as int, self.pos as int);
                lemma_leaf_args_after_trivia(ts, q2 as int, ParseMode::Text, true);
                lemma_leaf_args_after_trivia(ts, q2 as int, ParseMode::Text, false);
                lemma_run_end_again(ts, q2 as int, trivia_kind());
            }
        }
        while self.peek_kind() == Some(TokenKind::LBrace)
            invariant
                self.inv(),
                self.same_input(old(self)),
                p0 == old(self).pos,
                1 <= p0 < self.pos,
                ts == self.tokens@,
                self.pos == run_end(ts, self.pos as int, trivia_kind()),
                plan == leaf_environment_body(ts, src, p0 as int, md),
                src == self.source.spec_bytes(),
                md == modes_of(self.modes),
                n1 == plan->Some_0.0,
                target == leaf_args_end(ts, n1, ParseMode::Text, true),
                plan is Some ==> target is Some,
                plan is Some ==> leaf_args_end(ts, self.pos as int, ParseMode::Text, false) == target,
                seq_tokens(begin_children@) == self.consumed(p0 - 1, self.pos as int),
            decreases self.tokens@.len() - self.pos,
        {
            let ghost q = self.pos;
            let arg = self.parse_mandatory_arg(ParseMode::Text)?;
            proof {
                lemma_seq_tokens_push(begin_children@, GreenElement::Node(Box::new(arg)));
                lemma_sub_concat(self.tokens@, p0 - 1, q as int, self.pos as int);
            }
            begin_children.push(GreenElement::Node(Box::new(arg)));
            let ghost q2 = self.pos;
            self.skip_trivia(&mut begin_children);
            proof {
                lemma_sub_concat(self.tokens@, p0 - 1, q2 as int, self.pos as int);
                lemma_leaf_args_after_trivia(ts, q2 as int, ParseMode::Text, true);
                lemma_leaf_args_after_trivia(ts, q2 as int, ParseMode::Text, false);
                lemma_run_end_again(ts, q2 as int, trivia_kind());
            }
        }
        let ghost p_begin = self.pos;
        proof {
            if plan is Some {
                assert(leaf_args_end(ts, self.pos as int, ParseMode::Text, false) == Some(self.pos as int));
                assert(target == Some(p_begin as int));
                lemma_run_end(ts, p_begin as int, leaf_kind(md(env_name@)));
            }
        }
        let ghost leafy = plan is Some && (qb == ts.len() || (ts[qb].kind == TokenKind::Command && ts[qb].spec_tail(src) == "end"@));
        let begin_span = start_span.merge(self.last_span);
        let begin_node = GreenNode {
            kind: SyntaxKind::EnvironmentBegin,
            span: begin_span,
            children: begin_children,
        };
        let mut env_children: Vec<GreenElement> = Vec::new();
        env_children.push(GreenElement::Node(Box::new(begin_node)));
        proof {
            lemma_seq_tokens_push(Seq::<GreenElement>::empty(), GreenElement::Node(Box::new(begin_node)));
            assert(Seq::<GreenElement>::empty().push(GreenElement::Node(Box::new(begin_node)))
                == env_children@);
            assert(seq_tokens(Seq::<GreenElement>::empty()) + node_tokens(begin_node)
                =~= node_tokens(begin_node));
        }

        let body_mode = self.modes.body_mode(env_name.as_str());
        let body_start = match self.peek_token() {
            Some(t) => t.span.start,
            None => self.last_span.end,
        };
        let mut body_children: Vec<GreenElement> = Vec::new();
        proof {
            assert(seq_tokens(body_children@) =~= self.consumed(p_begin as int, p_begin as int));
        }
        loop
            invariant_except_break
                self.inv(),
                self.same_input(old(self)),
                p0 == old(self).pos,
                1 <= p0 < p_begin <= self.pos,
                seq_tokens(body_children@) == self.consumed(p_begin as int, self.pos as int),
                ts == self.tokens@,
                src == self.source.spec_bytes(),
                plan == leaf_environment_body(ts, src, p0 as int, md),
                src == self.source.spec_bytes(),
                md == modes_of(self.modes),
                qb == plan->Some_0.2,
                body_mode == md(env_name@),
                leafy == (plan is Some && (qb == ts.len() || (ts[qb].kind == TokenKind::Command && ts[qb].spec_tail(src) == "end"@))),
                leafy ==> qb == run_end(ts, p_begin as int, leaf_kind(md(env_name@))),
                leafy ==> body_children@ == token_leaves(ts.subrange(p_begin as int, self.pos as int)),
                plan is Some ==> env_name@ == tokens_text(src, ts.subrange(p0 as int, n1)) && p_begin == plan->Some_0.1,
                leafy ==> p_begin <= qb <= ts.len(),
                leafy ==> forall|i: int| p_begin <= i < qb ==> leaf_kind(md(env_name@))(#[trigger] ts[i].kind),
                leafy ==> (qb < ts.len() ==> !leaf_kind(md(env_name@))(ts[qb].kind)),
                leafy ==> self.pos <= qb,
            ensures
                self.inv(),
                self.same_input(old(self)),
                p0 < p_begin <= self.pos,
                seq_tokens(body_children@) == self.consumed(p_begin as int, self.pos as int),
                leafy ==> self.pos == qb,
                leafy ==> body_children@ == token_leaves(ts.subrange(p_begin as int, self.pos as int)),
            decreases self.tokens@.len() - self.pos,
        {
            let ghost q = self.pos;
            self.skip_trivia(&mut body_children);
            proof {
                lemma_sub_concat(self.tokens@, p_begin as int, q as int, self.pos as int);
                lemma_token_leaves_concat(ts, p_begin as int, q as int, self.pos as int);
                lemma_run_end(ts, q as int, trivia_kind());
                if leafy && self.pos > qb {
                    assert(trivia_kind()(ts[qb].kind));
                }
                if leafy && self.pos < qb {
                    assert(leaf_kind(md(env_name@))(ts[self.pos as int].kind));
                }
            }
            if self.pos >= self.tokens.len() {
                break;
            }
            let next = self.tokens[self.pos];
            proof {
                reveal_strlit("end");
            }
            if next.kind == TokenKind::Command {
                proof {
                    assert(self.tokens@[self.pos as int].wf(self.source.spec_bytes()));
                }
                if str_eq(next.command_name(self.source), "end") {
                    break;
                }
            }
            let ghost q2 = self.pos;
            proof {
                if leafy && self.pos < qb {
                    assert(leaf_kind(body_mode)(ts[self.pos as int].kind));
                }
            }
            self.parse_element(&mut body_children, body_mode, None)?;
            proof {
                lemma_sub_concat(self.tokens@, p_begin as int, q2 as int, self.pos as int);
                if leafy {
                    assert(token_leaves(ts.subrange(p_begin as int, self.pos as int)) =~= token_leaves(
                        ts.subrange(p_begin as int, q2 as int)).push(GreenElement::Token(ts[q2 as int])));
                }
            }
        }
        let ghost p_body = self.pos;
        let body_end = match self.peek_token() {
            Some(t) => t.span.start,
            None => self.last_span.end,
        };
        let body_node = GreenNode {
            kind: SyntaxKind::EnvironmentBody,
            span: Span::new(body_start, body_end),
            children: body_children,
        };
        proof {
            lemma_seq_tokens_push(env_children@, GreenElement::Node(Box::new(body_node)));
            lemma_sub_concat(self.tokens@, p0 - 1, p_begin as int, p_body as int);
            if leafy {
                assert(body_node.children@ == token_leaves(ts.subrange(plan->Some_0.1, qb)));
            }
        }
        env_children.push(GreenElement::Node(Box::new(body_node)));

        if self.peek_kind() != Some(TokenKind::Command) {
            return Err(ParserError::UnclosedEnvironment { name: env_name, span: start_span });
        }
        let end_token = self.next_token();
        let mut end_children: Vec<GreenElement> = Vec::new();
        end_children.push(GreenElement::Token(end_token));
        proof {
            lemma_single_token(end_token);
            assert(self.consumed(p_body as int, p_body + 1) =~= seq![end_token]);
        }
        let ghost p_name = self.pos;
        let end_name_arg = self.parse_mandatory_arg(ParseMode::Text)?;
        proof {
            lemma_sub_wf(self.tokens@, p_name as int, self.pos as int, self.source.spec_bytes());
        }
        let end_env_name = self.extract_text_from_arg(&end_name_arg);
        proof {
            if leafy && qb < ts.len() {
                let er = leaf_region_end(ts, qb + 1, TokenKind::LBrace, TokenKind::RBrace, ParseMode::Text);
                if er is Some {
                    lemma_direct_text_of_leaves(src, ts.subrange(qb + 1, er->Some_0));
                    assert(end_env_name@ == tokens_text(src, ts.subrange(qb + 1, er->Some_0)));
                }
            }
        }
        if !(env_name == end_env_name) {
            return Err(
                ParserError::MismatchedEnvironment {
                    expected: env_name,
                    found: end_env_name,
                    span: end_token.span.merge(self.last_span),
                },
            );
        }
        proof {
            lemma_seq_tokens_push(end_children@, GreenElement::Node(Box::new(end_name_arg)));
            lemma_sub_concat(self.tokens@, p_body as int, p_name as int, self.pos as int);
        }
        end_children.push(GreenElement::Node(Box::new(end_name_arg)));
        let end_span = end_token.span.merge(self.last_span);
        let end_node = GreenNode {
            kind: SyntaxKind::EnvironmentEnd,
            span: end_span,
            children: end_children,
        };
        proof {
            lemma_seq_tokens_push(env_children@, GreenElement::Node(Box::new(end_node)));
            lemma_sub_concat(self.tokens@, p0 - 1, p_body as int, self.pos as int);
        }
        env_children.push(GreenElement::Node(Box::new(end_node)));
        let env_span = start_span.merge(self.last_span);
        Ok(GreenNode { kind: SyntaxKind::Environment, span: env_span, children: env_children })
    }

    /// Parses `\cmd[opt]{arg}...`; the command token has been consumed. Mandatory arguments
    /// inherit `mode`; optional arguments are read as text. Trivia right after the command is
    /// part of the call, and so is trivia between arguments; trivia after the last argument is
    /// left to the caller.
    fn parse_command_call(&mut self, cmd_token: Token, mode: ParseMode) -> (r: Result<
        GreenNode,
        ParserError,
    >)
        requires
            old(self).inv(),
            old(self).pos >= 1,
            old(self).tokens@[old(self).pos - 1] == cmd_token,
        ensures
            final(self).inv(),
            final(self).same_input(old(self)),
            old(self).pos <= final(self).pos,
            r matches Ok(n) ==> n.kind == SyntaxKind::CommandCall && node_tokens(n) == old(self).consumed(old(self).pos - 1, final(self).pos as int),
            call_end(old(self).tokens@, old(self).pos as int, mode) matches Some(e) ==> r is Ok && final(self).pos == e,
        decreases old(self).tokens@.len() - old(self).pos, 2nat,
    {
        let ghost p0 = self.pos;
        let ghost ts = self.tokens@;
        let ghost target = call_end(ts, p0 as int, mode);
        let start_span = cmd_token.span;
        let mut children: Vec<GreenElement> = Vec::new();
        children.push(GreenElement::Token(cmd_token));
        proof {
            lemma_single_token(cmd_token);
            assert(self.consumed(p0 - 1, p0 as int) =~= seq![cmd_token]);
        }
        self.skip_trivia(&mut children);
        proof {
            lemma_sub_concat(self.tokens@, p0 - 1, p0 as int, self.pos as int);
        }
        while self.peek_kind() == Some(TokenKind::LBracket)
            invariant
                self.inv(),
                self.same_input(old(self)),
                p0 == old(self).pos,
                1 <= p0 <= self.pos,
                ts == self.tokens@,
                target == call_end(ts, p0 as int, mode),
                target is Some ==> if self.pos < ts.len() && (ts[self.pos as int].kind == TokenKind::LBracket
                    || ts[self.pos as int].kind == TokenKind::LBrace) {
                    call_args_end(ts, self.pos as int, mode, true) == target
                } else {
                    target == Some(self.pos as int)
                },
                seq_tokens(children@) == self.consumed(p0 - 1, self.pos as int),
            decreases self.tokens@.len() - self.pos,
        {
            let ghost q = self.pos;
            let opt = self.parse_opt_arg()?;
            proof {
                lemma_seq_tokens_push(children@, GreenElement::Node(Box::new(opt)));
                lemma_sub_concat(self.tokens@, p0 - 1, q as int, self.pos as int);
            }
            children.push(GreenElement::Node(Box::new(opt)));
            let t = self.trivia_end();
            if t < self.tokens.len() && (self.tokens[t].kind == TokenKind::LBracket || self.tokens[t].kind
                == TokenKind::LBrace) {
                let ghost q2 = self.pos;
                self.skip_trivia(&mut children);
                proof {
                    lemma_sub_concat(self.tokens@, p0 - 1, q2 as int, self.pos as int);
                }
            }
        }
        while self.peek_kind() == Some(TokenKind::LBrace)
            invariant
                self.inv(),
                self.same_input(old(self)),
                p0 == old(self).pos,
                1 <= p0 <= self.pos,
                ts == self.tokens@,
                target == call_end(ts, p0 as int, mode),
                target is Some ==> if self.pos < ts.len() && ts[self.pos as int].kind == TokenKind::LBrace {
                    call_args_end(ts, self.pos as int, mode, false) == target
                } else {
                    target == Some(self.pos as int)
                },
                seq_tokens(children@) == self.consumed(p0 - 1, self.pos as int),
            decreases self.tokens@.len() - self.pos,
        {
            let ghost q = self.pos;
            let arg = self.parse_mandatory_arg(mode)?;
            proof {
                lemma_seq_tokens_push(children@, GreenElement::Node(Box::new(arg)));
                lemma_sub_concat(self.tokens@, p0 - 1, q as int, self.pos as int);
            }
            children.push(GreenElement::Node(Box::new(arg)));
            let t = self.trivia_end();
            if t < self.tokens.len() && self.tokens[t].kind == TokenKind::LBrace {
                let ghost q2 = self.pos;
                self.skip_trivia(&mut children);
                proof {
                    lemma_sub_concat(self.tokens@, p0 - 1, q2 as int, self.pos as int);
                }
            }
        }
        let end = self.last_span;
        Ok(GreenNode { kind: SyntaxKind::CommandCall, span: start_span.merge(end), children })
    }

    /// The position where the run of trivia at the current position ends, without consuming it.
    fn trivia_end(&self) -> (t: usize)
        requires
            self.inv(),
        ensures
            t == run_end(self.tokens@, self.pos as int, trivia_kind()),
    {
        let mut i = self.pos;
        while i < self.tokens.len() && self.tokens[i].kind.is_trivia()
            invariant
                self.pos <= i <= self.tokens@.len(),
                run_end(self.tokens@, i as int, trivia_kind()) == run_end(self.tokens@, self.pos as int, trivia_kind()),
            decreases self.tokens@.len() - i,
        {
            i = i + 1;
        }
        i
    }

    /// Parses a region enclosed by `open_kind` and `close_kind` into a node of `node_kind`.
    fn parse_delimited(
        &mut self,
        open_kind: TokenKind,
        close_kind: TokenKind,
        node_kind: SyntaxKind,
        mode: ParseMode,
    ) -> (r: Result<GreenNode, ParserError>)
        requires
            old(self).inv(),
        ensures
            final(self).inv(),
            final(self).same_input(old(self)),
            old(self).pos <= final(self).pos,
            r matches Ok(n) ==> n.kind == node_kind && old(self).pos + 2 <= final(self).pos
                && node_tokens(n) == old(self).consumed(
                old(self).pos as int,
                final(self).pos as int,
            ),
            delimited_outcome(old(self).tokens@, old(self).pos as int, old(self).last_span, open_kind, close_kind, mode,
                reached(r, final(self).pos as int)),
            leaf_region_end(old(self).tokens@, old(self).pos as int, open_kind, close_kind, mode) matches Some(e)
                ==> r matches Ok(n) && n.children@ == token_leaves(old(self).consumed(old(self).pos as int, e)),
            r is Ok ==> final(self).pos >= 1 && final(self).last_span == old(self).tokens@[final(self).pos - 1].span,
        decreases old(self).tokens@.len() - old(self).pos, 0nat,
    {
        let ghost p0 = self.pos;
        let ghost ts = self.tokens@;
        let ghost q = run_end(ts, p0 + 1, leaf_kind(mode));
        let ghost flat = !leaf_kind(mode)(close_kind) && (q == ts.len() || ts[q].kind == close_kind);
        let open = self.expect(open_kind)?;
        proof {
            lemma_run_end(ts, p0 + 1, leaf_kind(mode));
        }
        let start_span = open.span;
        let mut children: Vec<GreenElement> = Vec::new();
        children.push(GreenElement::Token(open));
        proof {
            lemma_single_token(open);
            assert(self.consumed(p0 as int, p0 + 1) =~= seq![open]);
            assert(children@ =~= token_leaves(ts.subrange(p0 as int, p0 + 1)));
        }
        loop
            invariant_except_break
                self.inv(),
                self.same_input(old(self)),
                p0 == old(self).pos,
                p0 < self.pos,
                ts == self.tokens@,
                q == run_end(ts, p0 + 1, leaf_kind(mode)),
                p0 + 1 <= q <= ts.len(),
                forall|i: int| p0 + 1 <= i < q ==> leaf_kind(mode)(#[trigger] ts[i].kind),
                q < ts.len() ==> !leaf_kind(mode)(ts[q].kind),
                start_span == ts[p0 as int].span,
                p0 < ts.len() && ts[p0 as int].kind == open_kind,
                flat == (!leaf_kind(mode)(close_kind) && (q == ts.len() || ts[q].kind == close_kind)),
                flat ==> self.pos <= q,
                flat ==> children@ == token_leaves(ts.subrange(p0 as int, self.pos as int)),
                seq_tokens(children@) == self.consumed(p0 as int, self.pos as int),
            ensures
                self.inv(),
                self.same_input(old(self)),
                p0 < self.pos < self.tokens@.len(),
                self.tokens@[self.pos as int].kind == close_kind,
                seq_tokens(children@) == self.consumed(p0 as int, self.pos as int),
                flat ==> self.pos == q,
                flat ==> children@ == token_leaves(ts.subrange(p0 as int, self.pos as int)),
            decreases self.tokens@.len() - self.pos,
        {
            let ghost q0 = self.pos;
            self.skip_trivia(&mut children);
            proof {
                lemma_sub_concat(self.tokens@, p0 as int, q0 as int, self.pos as int);
                lemma_token_leaves_concat(ts, p0 as int, q0 as int, self.pos as int);
                lemma_run_end(ts, q0 as int, trivia_kind());
                if flat && self.pos > q {
                    assert(trivia_kind()(ts[q].kind));
                }
            }
            proof {
                if flat && self.pos < q {
                    assert(leaf_kind(mode)(ts[self.pos as int].kind));
                }
            }
            match self.peek_kind() {
                Some(k) => {
                    if k == close_kind {
                        break;
                    }
                },
                None => {
                    return Err(ParserError::UnclosedDelimiter { open_kind, span: start_span });
                },
            }
            let ghost q2 = self.pos;
            self.parse_element(&mut children, mode, Some(close_kind))?;
            proof {
                lemma_sub_concat(self.tokens@, p0 as int, q2 as int, self.pos as int);
                if flat {
                    assert(ts.subrange(p0 as int, self.pos as int) =~= ts.subrange(p0 as int, q2 as int).push(ts[q2 as int]));
                }
            }
        }
        let ghost q3 = self.pos;
        let close = self.next_token();
        proof {
            lemma_seq_tokens_push(children@, GreenElement::Token(close));
            assert(self.consumed(q3 as int, self.pos as int) =~= seq![close]);
            lemma_sub_concat(self.tokens@, p0 as int, q3 as int, self.pos as int);
        }
        children.push(GreenElement::Token(close));
        proof {
            if flat {
                assert(ts.subrange(p0 as int, self.pos as int) =~= ts.subrange(p0 as int, q3 as int).push(close));
            }
        }
        Ok(GreenNode { kind: node_kind, span: start_span.merge(self.last_span), children })
    }

    /// Parses an optional argument `[...]`, always as text.
    fn parse_opt_arg(&mut self) -> (r: Result<GreenNode, ParserError>)
        requires
            old(self).inv(),
        ensures
            final(self).inv(),
            final(self).same_input(old(self)),
            old(self).pos <= final(self).pos,
            r matches Ok(n) ==> n.kind == SyntaxKind::OptArg && old(self).pos + 2 <= final(self).pos
                && node_tokens(n) == old(self).consumed(
                old(self).pos as int,
                final(self).pos as int,
            ),
            delimited_outcome(old(self).tokens@, old(self).pos as int, old(self).last_span, TokenKind::LBracket, TokenKind::RBracket, ParseMode::Text,
                reached(r, final(self).pos as int)),
            leaf_region_end(old(self).tokens@, old(self).pos as int, TokenKind::LBracket, TokenKind::RBracket, ParseMode::Text) matches Some(e)
                ==> r matches Ok(n) && n.children@ == token_leaves(old(self).consumed(old(self).pos as int, e)),
            r is Ok ==> final(self).pos >= 1 && final(self).last_span == old(self).tokens@[final(self).pos - 1].span,
        decreases old(self).tokens@.len() - old(self).pos, 1nat,
    {
        self.parse_delimited(TokenKind::LBracket, TokenKind::RBracket, SyntaxKind::OptArg, ParseMode::Text)
    }

    /// Parses a mandatory argument `{...}` in `mode`.
    fn parse_mandatory_arg(&mut self, mode: ParseMode) -> (r: Result<GreenNode, ParserError>)
        requires
            old(self).inv(),
        ensures
            final(self).inv(),
            final(self).same_input(old(self)),
            old(self).pos <= final(self).pos,
            r matches Ok(n) ==> n.kind == SyntaxKind::MandatoryArg && old(self).pos + 2 <= final(self).pos && node_tokens(n) == old(self).consumed(
                old(self).pos as int,
                final(self).pos as int,
            ),
            delimited_outcome(old(self).tokens@, old(self).pos as int, old(self).last_span, TokenKind::LBrace, TokenKind::RBrace, mode,
                reached(r, final(self).pos as int)),
            leaf_region_end(old(self).tokens@, old(self).pos as int, TokenKind::LBrace, TokenKind::RBrace, mode) matches Some(e)
                ==> r matches Ok(n) && n.children@ == token_leaves(old(self).consumed(old(self).pos as int, e)),
            r is Ok ==> final(self).pos >= 1 && final(self).last_span == old(self).tokens@[final(self).pos - 1].span,
        decreases old(self).tokens@.len() - old(self).pos, 1nat,
    {
        self.parse_delimited(TokenKind::LBrace, TokenKind::RBrace, SyntaxKind::MandatoryArg, mode)
    }

    /// Parses inline math `$...$`; the opening `$` has been consumed.
    fn parse_inline_math(&mut self, dollar_open: Token) -> (r: Result<GreenNode, ParserError>)
        requires
            old(self).inv(),
            old(self).pos >= 1,
            old(self).tokens@[old(self).pos - 1] == dollar_open,
        ensures
            final(self).inv(),
            final(self).same_input(old(self)),
            old(self).pos <= final(self).pos,
            r matches Ok(n) ==> n.kind == SyntaxKind::InlineMath && node_tokens(n) == old(self).consumed(old(self).pos - 1, final(self).pos as int),
            inline_math_outcome(old(self).tokens@, old(self).pos as int, dollar_open.span, reached(r, final(self).pos as int)),
        decreases old(self).tokens@.len() - old(self).pos, 2nat,
    {
        let ghost p0 = self.pos;
        let ghost ts = self.tokens@;
        let ghost q = run_end(ts, p0 as int, math_leaf_kind());
        let ghost flat = q == ts.len() || ts[q].kind == TokenKind::Dollar;
        proof {
            lemma_run_end(ts, p0 as int, math_leaf_kind());
        }
        let start_span = dollar_open.span;
        let mut children: Vec<GreenElement> = Vec::new();
        children.push(GreenElement::Token(dollar_open));
        proof {
            lemma_single_token(dollar_open);
            assert(self.consumed(p0 - 1, p0 as int) =~= seq![dollar_open]);
        }
        loop
            invariant_except_break
                self.inv(),
                self.same_input(old(self)),
                p0 == old(self).pos,
                1 <= p0 <= self.pos,
                ts == self.tokens@,
                start_span == dollar_open.span,
                q == run_end(ts, p0 as int, math_leaf_kind()),
                p0 <= q <= ts.len(),
                forall|i: int| p0 <= i < q ==> math_leaf_kind()(#[trigger] ts[i].kind),
                q < ts.len() ==> !math_leaf_kind()(ts[q].kind),
                flat == (q == ts.len() || ts[q].kind == TokenKind::Dollar),
                flat ==> self.pos <= q,
                seq_tokens(children@) == self.consumed(p0 - 1, self.pos as int),
            ensures
                self.inv(),
                self.same_input(old(self)),
                1 <= p0 <= self.pos,
                seq_tokens(children@) == self.consumed(p0 - 1, self.pos as int),
                flat ==> q < ts.len() && self.pos == q + 1,
            decreases self.tokens@.len() - self.pos,
        {
            if self.pos >= self.tokens.len() {
                return Err(ParserError::UnclosedInlineMath { span: start_span });
            }
            let ghost q0 = self.pos;
            proof {
                if flat && self.pos < q {
                    assert(math_leaf_kind()(ts[self.pos as int].kind));
                }
            }
            if self.tokens[self.pos].kind == TokenKind::Dollar {
                let dollar_close = self.next_token();
                proof {
                    lemma_seq_tokens_push(children@, GreenElement::Token(dollar_close));
                    assert(self.consumed(q0 as int, self.pos as int) =~= seq![dollar_close]);
                    lemma_sub_concat(self.tokens@, p0 - 1, q0 as int, self.pos as int);
                }
                children.push(GreenElement::Token(dollar_close));
                break;
            }
            self.parse_math_atom(&mut children)?;
            proof {
                lemma_sub_concat(self.tokens@, p0 - 1, q0 as int, self.pos as int);
            }
        }
        let math_span = start_span.merge(self.last_span);
        Ok(GreenNode { kind: SyntaxKind::InlineMath, span: math_span, children })
    }

    /// Parses a group `{...}` inside math; it must close before a `$` or the end of input.
    fn parse_math_group(&mut self) -> (r: Result<GreenNode, ParserError>)
        requires
            old(self).inv(),
        ensures
            final(self).inv(),
            final(self).same_input(old(self)),
            old(self).pos <= final(self).pos,
            r matches Ok(n) ==> n.kind == SyntaxKind::MathGroup && old(self).pos < final(self).pos
                && node_tokens(n) == old(self).consumed(
                old(self).pos as int,
                final(self).pos as int,
            ),
            math_group_outcome(old(self).tokens@, old(self).pos as int, old(self).last_span, reached(r, final(self).pos as int)),
        decreases old(self).tokens@.len() - old(self).pos, 0nat,
    {
        let ghost p0 = self.pos;
        let ghost ts = self.tokens@;
        let ghost q = run_end(ts, p0 + 1, math_leaf_kind());
        let ghost flat = q == ts.len() || ts[q].kind == TokenKind::Dollar || ts[q].kind == TokenKind::RBrace;
        let lbrace = self.expect(TokenKind::LBrace)?;
        proof {
            lemma_run_end(ts, p0 + 1, math_leaf_kind());
        }
        let start_span = lbrace.span;
        let mut children: Vec<GreenElement> = Vec::new();
        children.push(GreenElement::Token(lbrace));
        proof {
            lemma_single_token(lbrace);
            assert(self.consumed(p0 as int, p0 + 1) =~= seq![lbrace]);
        }
        loop
            invariant_except_break
                self.inv(),
                self.same_input(old(self)),
                p0 == old(self).pos,
                p0 < self.pos,
                ts == self.tokens@,
                p0 < ts.len() && ts[p0 as int].kind == TokenKind::LBrace,
                start_span == ts[p0 as int].span,
                q == run_end(ts, p0 + 1, math_leaf_kind()),
                p0 + 1 <= q <= ts.len(),
                forall|i: int| p0 + 1 <= i < q ==> math_leaf_kind()(#[trigger] ts[i].kind),
                q < ts.len() ==> !math_leaf_kind()(ts[q].kind),
                flat == (q == ts.len() || ts[q].kind == TokenKind::Dollar || ts[q].kind == TokenKind::RBrace),
                flat ==> self.pos <= q,
                seq_tokens(children@) == self.consumed(p0 as int, self.pos as int),
            ensures
                self.inv(),
                self.same_input(old(self)),
                p0 < self.pos,
                seq_tokens(children@) == self.consumed(p0 as int, self.pos as int),
                flat ==> q < ts.len() && ts[q].kind == TokenKind::RBrace && self.pos == q + 1,
            decreases self.tokens@.len() - self.pos,
        {
            let ghost q0 = self.pos;
            proof {
                if flat && self.pos < q {
                    assert(math_leaf_kind()(ts[self.pos as int].kind));
                }
            }
            match self.peek_kind() {
                Some(TokenKind::RBrace) => {
                    let rbrace = self.next_token();
                    proof {
                        lemma_seq_tokens_push(children@, GreenElement::Token(rbrace));
                        assert(self.consumed(q0 as int, self.pos as int) =~= seq![rbrace]);
                        lemma_sub_concat(self.tokens@, p0 as int, q0 as int, self.pos as int);
                    }
                    children.push(GreenElement::Token(rbrace));
                    break;
                },
                Some(TokenKind::Dollar) | None => {
                    return Err(ParserError::UnclosedMathGroup { span: start_span });
                },
                _ => {
                    self.parse_math_atom(&mut children)?;
                    proof {
                        lemma_sub_concat(self.tokens@, p0 as int, q0 as int, self.pos as int);
                    }
                },
            }
        }
        let group_span = start_span.merge(self.last_span);
        Ok(GreenNode { kind: SyntaxKind::MathGroup, span: group_span, children })
    }

    /// Consumes one item inside math and appends it to `children`.
    fn parse_math_atom(&mut self, children: &mut Vec<GreenElement>) -> (r: Result<(), ParserError>)
        requires
            old(self).inv(),
            old(self).pos < old(self).tokens@.len(),
        ensures
            final(self).inv(),
            final(self).same_input(old(self)),
            old(self).pos <= final(self).pos,
            r is Ok ==> old(self).pos < final(self).pos && seq_tokens(final(children)@)
                == seq_tokens(old(children)@) + old(self).consumed(
                old(self).pos as int,
                final(self).pos as int,
            ),
            math_atom_outcome(old(self).tokens@, old(self).pos as int, old(self).last_span, reached(r, final(self).pos as int)),
        decreases old(self).tokens@.len() - old(self).pos, 1nat,
    {
        let ghost p0 = self.pos;
        let ghost elem: GreenElement;
        let kind = self.tokens[self.pos].kind;
        match kind {
            TokenKind::LBrace => {
                let group = self.parse_math_group()?;
                proof {
                    elem = GreenElement::Node(Box::new(group));
                }
                children.push(GreenElement::Node(Box::new(group)));
            },
            TokenKind::Command => {
                let cmd_token = self.next_token();
                let cmd = self.parse_command_call(cmd_token, ParseMode::Math)?;
                proof {
                    elem = GreenElement::Node(Box::new(cmd));
                }
                children.push(GreenElement::Node(Box::new(cmd)));
            },
            TokenKind::Underscore | TokenKind::Caret => {
                let script_kind = if kind == TokenKind::Underscore {
                    SyntaxKind::MathSubscript
                } else {
                    SyntaxKind::MathSuperscript
                };
                let script = self.parse_math_script(script_kind)?;
                proof {
                    elem = GreenElement::Node(Box::new(script));
                }
                children.push(GreenElement::Node(Box::new(script)));
            },
            TokenKind::Unknown => {
                let token = self.next_token();
                return Err(ParserError::InvalidBackslash { span: token.span });
            },
            TokenKind::LBracket => {
                let token = self.next_token();
                return Err(ParserError::BareBracket { span: token.span });
            },
            TokenKind::RBracket | TokenKind::RBrace => {
                let token = self.next_token();
                return Err(ParserError::UnexpectedToken { kind: token.kind, span: token.span });
            },
            _ => {
                let token = self.next_token();
                proof {
                    elem = GreenElement::Token(token);
                    assert(self.consumed(p0 as int, self.pos as int) =~= seq![token]);
                }
                children.push(GreenElement::Token(token));
            },
        }
        proof {
            lemma_seq_tokens_push(old(children)@, elem);
        }
        Ok(())
    }

    /// Parses a script `_x`, `_{...}`, `^x` or `^{...}` inside math.
    fn parse_math_script(&mut self, kind: SyntaxKind) -> (r: Result<GreenNode, ParserError>)
        requires
            old(self).inv(),
            old(self).pos < old(self).tokens@.len(),
        ensures
            final(self).inv(),
            final(self).same_input(old(self)),
            old(self).pos <= final(self).pos,
            r matches Ok(n) ==> n.kind == kind && old(self).pos < final(self).pos && node_tokens(n)
                == old(self).consumed(old(self).pos as int, final(self).pos as int),
            old(self).tokens@[old(self).pos as int].kind == TokenKind::Underscore || old(self).tokens@[old(self).pos as int].kind == TokenKind::Caret
                ==> math_script_outcome(old(self).tokens@, old(self).pos as int, reached(r, final(self).pos as int)),
        decreases old(self).tokens@.len() - old(self).pos, 0nat,
    {
        let ghost p0 = self.pos;
        let script_token = self.next_token();
        let start_span = script_token.span;
        let mut children: Vec<GreenElement> = Vec::new();
        children.push(GreenElement::Token(script_token));
        proof {
            lemma_single_token(script_token);
            assert(self.consumed(p0 as int, p0 + 1) =~= seq![script_token]);
        }
        self.skip_trivia(&mut children);
        proof {
            lemma_sub_concat(self.tokens@, p0 as int, p0 + 1, self.pos as int);
        }
        let ghost q = self.pos;
        let ghost mid_children = children@;
        let ghost elem: GreenElement;
        if self.pos >= self.tokens.len() {
            return Err(ParserError::UnexpectedEof { span: self.last_span });
        }
        let next_kind = self.tokens[self.pos].kind;
        match next_kind {
            TokenKind::LBrace => {
                let group = self.parse_math_group()?;
                proof {
                    elem = GreenElement::Node(Box::new(group));
                }
                children.push(GreenElement::Node(Box::new(group)));
            },
            TokenKind::Command => {
                let cmd_token = self.next_token();
                let cmd = self.parse_command_call(cmd_token, ParseMode::Math)?;
                proof {
                    elem = GreenElement::Node(Box::new(cmd));
                }
                children.push(GreenElement::Node(Box::new(cmd)));
            },
            TokenKind::Unknown => {
                let token = self.next_token();
                return Err(ParserError::InvalidBackslash { span: token.span });
            },
            TokenKind::Dollar | TokenKind::RBrace | TokenKind::RBracket
            | TokenKind::ParagraphBreak => {
                let span = self.tokens[self.pos].span;
                return Err(ParserError::UnexpectedToken { kind: next_kind, span });
            },
            _ => {
                let token = self.next_token();
                proof {
                    elem = GreenElement::Token(token);
                    assert(self.consumed(q as int, self.pos as int) =~= seq![token]);
                }
                children.push(GreenElement::Token(token));
            },
        }
        proof {
            lemma_seq_tokens_push(mid_children, elem);
            assert(children@ == mid_children.push(elem));
            lemma_sub_concat(self.tokens@, p0 as int, q as int, self.pos as int);
        }
        let end = self.last_span;
        Ok(GreenNode { kind, span: start_span.merge(end), children })
    }

    /// Consumes the next token when it is of kind `expected`.
    fn expect(&mut self, expected: TokenKind) -> (r: Result<Token, ParserError>)
        requires
            old(self).inv(),
        ensures
            final(self).inv(),
            final(self).same_input(old(self)),
            r matches Ok(t) ==> final(self).pos == old(self).pos + 1 && t == old(self).tokens@[old(self).pos as int] && t.kind == expected
                && final(self).last_span == t.span,
            r is Err ==> final(self).pos == old(self).pos && final(self).last_span == old(self).last_span,
            match expect_error(old(self).tokens@, old(self).pos as int, expected, old(self).last_span) {
                Some(e) => r == Err::<Token, ParserError>(e),
                None => r is Ok,
            },
    {
        match self.peek_kind() {
            Some(kind) => {
                if kind == expected {
                    let token = self.next_token();
                    Ok(token)
                } else {
                    let span = self.tokens[self.pos].span;
                    Err(ParserError::UnexpectedToken { kind, span })
                }
            },
            None => Err(ParserError::UnexpectedEof { span: self.last_span }),
        }
    }
}

/// Parses the tokens of `source` into its green tree, reading environment bodies in the mode
/// that `modes` gives for their names.
///
/// On success the tree keeps every token of the input, trivia included, in source order.
/// Plain running text (no command, `$`, bracket, brace or unrecognised token) always parses,
/// each token a leaf of the root.
pub fn parse<M: BodyModes>(source: &str, tokens: &[Token], modes: &M) -> (r: Result<
    GreenNode,
    ParserError,
>)
    requires
        tokens_wf(tokens@, source.spec_bytes()),
    ensures
        r matches Ok(root) ==> {
            &&& root.kind == SyntaxKind::Root
            &&& node_tokens(root) == tokens@
            &&& tree_wf(root, source.spec_bytes())
        },
        all_plain(tokens@) ==> (r matches Ok(root) && root.children@ == token_leaves(tokens@)),
        first_element_decides(tokens@, source.spec_bytes(), modes_of(modes), r),
{
    let mut parser = Parser::new(source, tokens, modes);
    parser.parse_root()
}

} // verus!
