//! The environment registry: each environment name maps to its kind, which carries what
//! differs between names (theorem class, quote kind, ordered list or not, math grid rules), and
//! how an environment's body is read follows from its kind.

use vstd::prelude::*;
use vstd::string::*;
use crate::evaluator::error::EvalError;
use crate::strs::{str_eq, to_owned_string};
use crate::syntax::green::GreenElement;
use crate::syntax::parser::{BodyModes, ParseMode};
use crate::syntax::token::TokenKind;
use crate::syntax::view::EnvironmentView;

verus! {

/// How the body of an environment is read.
#[derive(Debug, Clone, Copy, PartialEq, Eq, Structural)]
pub enum BodyMode {
    /// Running text.
    Text,
    /// Mathematics.
    Math,
    /// Raw text, taken as it is.
    Verbatim,
}

/// The class of a theorem-like environment.
#[derive(Debug, Clone, Copy, PartialEq, Eq, Structural)]
pub enum TheoremClass {
    /// `theorem`
    Theorem,
    /// `lemma`
    Lemma,
    /// `proposition`
    Proposition,
    /// `corollary`
    Corollary,
    /// `definition`
    Definition,
    /// `axiom`
    Axiom,
    /// `example`
    Example,
    /// `remark`
    Remark,
    /// `claim`
    Claim,
    /// `proof`
    Proof,
}

/// The kind of a quotation environment.
#[derive(Debug, Clone, Copy, PartialEq, Eq, Structural)]
pub enum QuoteKind {
    /// `quote`
    Quote,
    /// `quotation`
    Quotation,
}

/// The kind of a math environment split into rows and columns.
#[derive(Debug, Clone, Copy, PartialEq, Eq, Structural)]
pub enum MathEnvKind {
    /// `align`
    Align,
    /// `gather`
    Gather,
    /// `split`
    Split,
    /// `multiline`
    Multiline,
}

/// Which separators a math grid accepts.
#[derive(Debug, Clone, Copy, PartialEq, Eq, Structural)]
pub struct GridSpec {
    /// Whether the row separator `\\` is allowed.
    pub allow_row_breaks: bool,
    /// Whether the column separator `&` is allowed.
    pub allow_column_breaks: bool,
}

/// How the cells of a math grid are placed.
#[derive(Debug, Clone, Copy, PartialEq, Eq, Structural)]
pub enum GridLayout {
    /// In columns aligned at `&` (`align`, `split`).
    Aligned,
    /// Each row centred (`gather`).
    Centered,
    /// The first row to the left, the last to the right (`multiline`).
    Staircase,
}

/// The cell layout of each math grid kind.
pub open spec fn spec_layout(kind: MathEnvKind) -> GridLayout {
    match kind {
        MathEnvKind::Align | MathEnvKind::Split => GridLayout::Aligned,
        MathEnvKind::Gather => GridLayout::Centered,
        MathEnvKind::Multiline => GridLayout::Staircase,
    }
}

impl MathEnvKind {
    /// The cell layout of this kind (see [`spec_layout`]).
    pub fn layout(self) -> (l: GridLayout)
        ensures
            l == spec_layout(self),
    {
        match self {
            MathEnvKind::Align | MathEnvKind::Split => GridLayout::Aligned,
            MathEnvKind::Gather => GridLayout::Centered,
            MathEnvKind::Multiline => GridLayout::Staircase,
        }
    }
}

/// The separators a layout accepts: rows always, columns only where there are columns.
pub open spec fn spec_for_layout(layout: GridLayout) -> GridSpec {
    GridSpec { allow_row_breaks: true, allow_column_breaks: layout == GridLayout::Aligned }
}

impl GridSpec {
    /// The separators `layout` accepts (see [`spec_for_layout`]).
    pub fn for_layout(layout: GridLayout) -> (g: GridSpec)
        ensures
            g == spec_for_layout(layout),
    {
        let allow_column_breaks = match layout {
            GridLayout::Aligned => true,
            GridLayout::Centered | GridLayout::Staircase => false,
        };
        GridSpec { allow_row_breaks: true, allow_column_breaks }
    }
}

/// What a math grid numbers.
#[derive(Debug, Clone, Copy, PartialEq, Eq, Structural)]
pub enum NumberingMode {
    /// Each row (`align`, `gather`).
    PerRow,
    /// The environment as a whole (`split`, `multiline`).
    SingleEnv,
}

/// The kind of an environment, the value of the registry.
#[derive(Debug, Clone, Copy, PartialEq, Eq, Structural)]
pub enum EnvironmentKind {
    /// A list (`itemize`, `enumerate`).
    List { ordered: bool },
    /// A theorem-like environment.
    Theorem(TheoremClass),
    /// A quotation.
    Quote(QuoteKind),
    /// `figure`
    Figure,
    /// `table`
    Table,
    /// `code`, whose body is read raw.
    Code,
    /// `equation`, a single line of mathematics.
    Equation,
    /// A math environment split into rows and columns and numbered.
    MathGrid { kind: MathEnvKind, spec: GridSpec, numbering: NumberingMode },
    /// `cases`
    Cases,
    /// `matrix`
    Matrix,
}

/// How the body of an environment of kind `kind` is read.
pub open spec fn spec_body_mode(kind: EnvironmentKind) -> BodyMode {
    match kind {
        EnvironmentKind::List { .. } | EnvironmentKind::Theorem(_) | EnvironmentKind::Quote(_)
        | EnvironmentKind::Figure | EnvironmentKind::Table => BodyMode::Text,
        EnvironmentKind::Code => BodyMode::Verbatim,
        EnvironmentKind::Equation | EnvironmentKind::MathGrid { .. } | EnvironmentKind::Cases
        | EnvironmentKind::Matrix => BodyMode::Math,
    }
}

impl EnvironmentKind {
    /// How the body of an environment of this kind is read.
    pub fn body_mode(self) -> (m: BodyMode)
        ensures
            m == spec_body_mode(self),
    {
        match self {
            EnvironmentKind::List { .. } | EnvironmentKind::Theorem(_) | EnvironmentKind::Quote(_)
            | EnvironmentKind::Figure | EnvironmentKind::Table => BodyMode::Text,
            EnvironmentKind::Code => BodyMode::Verbatim,
            EnvironmentKind::Equation | EnvironmentKind::MathGrid { .. } | EnvironmentKind::Cases
            | EnvironmentKind::Matrix => BodyMode::Math,
        }
    }
}

/// The registry: the kind registered under `name`, if any.
pub open spec fn registered_kind(name: Seq<char>) -> Option<EnvironmentKind> {
    if name == "itemize"@ {
        Some(EnvironmentKind::List { ordered: false })
    } else if name == "enumerate"@ {
        Some(EnvironmentKind::List { ordered: true })
    } else if name == "equation"@ {
        Some(EnvironmentKind::Equation)
    } else if name == "align"@ {
        Some(EnvironmentKind::MathGrid { kind: MathEnvKind::Align, spec: GridSpec { allow_row_breaks: true, allow_column_breaks: true }, numbering: NumberingMode::PerRow })
    } else if name == "gather"@ {
        Some(EnvironmentKind::MathGrid { kind: MathEnvKind::Gather, spec: GridSpec { allow_row_breaks: true, allow_column_breaks: false }, numbering: NumberingMode::PerRow })
    } else if name == "split"@ {
        Some(EnvironmentKind::MathGrid { kind: MathEnvKind::Split, spec: GridSpec { allow_row_breaks: true, allow_column_breaks: true }, numbering: NumberingMode::SingleEnv })
    } else if name == "multiline"@ {
        Some(EnvironmentKind::MathGrid { kind: MathEnvKind::Multiline, spec: GridSpec { allow_row_breaks: true, allow_column_breaks: false }, numbering: NumberingMode::SingleEnv })
    } else if name == "cases"@ {
        Some(EnvironmentKind::Cases)
    } else if name == "matrix"@ {
        Some(EnvironmentKind::Matrix)
    } else if name == "figure"@ {
        Some(EnvironmentKind::Figure)
    } else if name == "table"@ {
        Some(EnvironmentKind::Table)
    } else if name == "theorem"@ {
        Some(EnvironmentKind::Theorem(TheoremClass::Theorem))
    } else if name == "lemma"@ {
        Some(EnvironmentKind::Theorem(TheoremClass::Lemma))
    } else if name == "proposition"@ {
        Some(EnvironmentKind::Theorem(TheoremClass::Proposition))
    } else if name == "corollary"@ {
        Some(EnvironmentKind::Theorem(TheoremClass::Corollary))
    } else if name == "definition"@ {
        Some(EnvironmentKind::Theorem(TheoremClass::Definition))
    } else if name == "axiom"@ {
        Some(EnvironmentKind::Theorem(TheoremClass::Axiom))
    } else if name == "example"@ {
        Some(EnvironmentKind::Theorem(TheoremClass::Example))
    } else if name == "remark"@ {
        Some(EnvironmentKind::Theorem(TheoremClass::Remark))
    } else if name == "claim"@ {
        Some(EnvironmentKind::Theorem(TheoremClass::Claim))
    } else if name == "proof"@ {
        Some(EnvironmentKind::Theorem(TheoremClass::Proof))
    } else if name == "code"@ {
        Some(EnvironmentKind::Code)
    } else if name == "quote"@ {
        Some(EnvironmentKind::Quote(QuoteKind::Quote))
    } else if name == "quotation"@ {
        Some(EnvironmentKind::Quote(QuoteKind::Quotation))
    } else {
        None
    }
}

/// The kind registered under `name`, if any (see [`registered_kind`]).
pub fn environment_kind(name: &str) -> (r: Option<EnvironmentKind>)
    ensures
        r == registered_kind(name@),
{
    proof {
        reveal_strlit("itemize");
        reveal_strlit("enumerate");
        reveal_strlit("equation");
        reveal_strlit("align");
        reveal_strlit("gather");
        reveal_strlit("split");
        reveal_strlit("multiline");
        reveal_strlit("cases");
        reveal_strlit("matrix");
        reveal_strlit("figure");
        reveal_strlit("table");
        reveal_strlit("theorem");
        reveal_strlit("lemma");
        reveal_strlit("proposition");
        reveal_strlit("corollary");
        reveal_strlit("definition");
        reveal_strlit("axiom");
        reveal_strlit("example");
        reveal_strlit("remark");
        reveal_strlit("claim");
        reveal_strlit("proof");
        reveal_strlit("code");
        reveal_strlit("quote");
        reveal_strlit("quotation");
    }
    if str_eq(name, "itemize") {
        Some(EnvironmentKind::List { ordered: false })
    } else if str_eq(name, "enumerate") {
        Some(EnvironmentKind::List { ordered: true })
    } else if str_eq(name, "equation") {
        Some(EnvironmentKind::Equation)
    } else if str_eq(name, "align") {
        Some(EnvironmentKind::MathGrid { kind: MathEnvKind::Align, spec: GridSpec { allow_row_breaks: true, allow_column_breaks: true }, numbering: NumberingMode::PerRow })
    } else if str_eq(name, "gather") {
        Some(EnvironmentKind::MathGrid { kind: MathEnvKind::Gather, spec: GridSpec { allow_row_breaks: true, allow_column_breaks: false }, numbering: NumberingMode::PerRow })
    } else if str_eq(name, "split") {
        Some(EnvironmentKind::MathGrid { kind: MathEnvKind::Split, spec: GridSpec { allow_row_breaks: true, allow_column_breaks: true }, numbering: NumberingMode::SingleEnv })
    } else if str_eq(name, "multiline") {
        Some(EnvironmentKind::MathGrid { kind: MathEnvKind::Multiline, spec: GridSpec { allow_row_breaks: true, allow_column_breaks: false }, numbering: NumberingMode::SingleEnv })
    } else if str_eq(name, "cases") {
        Some(EnvironmentKind::Cases)
    } else if str_eq(name, "matrix") {
        Some(EnvironmentKind::Matrix)
    } else if str_eq(name, "figure") {
        Some(EnvironmentKind::Figure)
    } else if str_eq(name, "table") {
        Some(EnvironmentKind::Table)
    } else if str_eq(name, "theorem") {
        Some(EnvironmentKind::Theorem(TheoremClass::Theorem))
    } else if str_eq(name, "lemma") {
        Some(EnvironmentKind::Theorem(TheoremClass::Lemma))
    } else if str_eq(name, "proposition") {
        Some(EnvironmentKind::Theorem(TheoremClass::Proposition))
    } else if str_eq(name, "corollary") {
        Some(EnvironmentKind::Theorem(TheoremClass::Corollary))
    } else if str_eq(name, "definition") {
        Some(EnvironmentKind::Theorem(TheoremClass::Definition))
    } else if str_eq(name, "axiom") {
        Some(EnvironmentKind::Theorem(TheoremClass::Axiom))
    } else if str_eq(name, "example") {
        Some(EnvironmentKind::Theorem(TheoremClass::Example))
    } else if str_eq(name, "remark") {
        Some(EnvironmentKind::Theorem(TheoremClass::Remark))
    } else if str_eq(name, "claim") {
        Some(EnvironmentKind::Theorem(TheoremClass::Claim))
    } else if str_eq(name, "proof") {
        Some(EnvironmentKind::Theorem(TheoremClass::Proof))
    } else if str_eq(name, "code") {
        Some(EnvironmentKind::Code)
    } else if str_eq(name, "quote") {
        Some(EnvironmentKind::Quote(QuoteKind::Quote))
    } else if str_eq(name, "quotation") {
        Some(EnvironmentKind::Quote(QuoteKind::Quotation))
    } else {
        None
    }
}

/// How the body of the environment `name` is read; an unregistered environment is read as text.
pub fn lookup_body_mode(name: &str) -> (m: BodyMode)
    ensures
        m == match registered_kind(name@) {
            Some(kind) => spec_body_mode(kind),
            None => BodyMode::Text,
        },
{
    match environment_kind(name) {
        Some(kind) => kind.body_mode(),
        None => BodyMode::Text,
    }
}

/// The kind of the viewed environment, or the error for an unregistered one.
pub fn resolve_environment(view: &EnvironmentView) -> (r: Result<EnvironmentKind, EvalError>)
    ensures
        match registered_kind(view.spec_name()) {
            Some(kind) => r == Ok::<EnvironmentKind, EvalError>(kind),
            None => r matches Err(EvalError::UnknownEnvironment { name, span })
                && name@ == view.spec_name() && span == view.spec_node().span,
        },
{
    match environment_kind(view.name()) {
        Some(kind) => Ok(kind),
        None => Err(EvalError::UnknownEnvironment { name: to_owned_string(view.name()), span: view.span() }),
    }
}

/// The separators the registry gives each math grid are those its cell layout accepts.
pub proof fn law_registered_grids_follow_their_layout(name: Seq<char>)
    ensures
        registered_kind(name) matches Some(EnvironmentKind::MathGrid { kind, spec, .. }) ==> spec == spec_for_layout(spec_layout(kind)),
{
}

/// Whether an element is trivia: whitespace, a line break, a comment or a paragraph break.
pub open spec fn spec_is_trivia(e: GreenElement) -> bool {
    e matches GreenElement::Token(t) && (t.kind == TokenKind::Whitespace || t.kind == TokenKind::Newline
        || t.kind == TokenKind::Comment || t.kind == TokenKind::ParagraphBreak)
}

/// Whether `child` is trivia (see [`spec_is_trivia`]).
pub fn is_trivia_element(child: &GreenElement) -> (b: bool)
    ensures
        b == spec_is_trivia(*child),
{
    match child {
        GreenElement::Token(token) => match token.kind {
            TokenKind::Whitespace | TokenKind::Newline | TokenKind::Comment | TokenKind::ParagraphBreak => true,
            _ => false,
        },
        GreenElement::Node(_) => false,
    }
}

/// The parse modes of environment bodies that the registry gives: math for a body read as
/// mathematics, text for every other body (a raw body reaches the parser already read as one
/// text token).
pub struct RegistryModes;

/// The parse mode of a body read as `m`.
pub open spec fn parse_mode_of(m: BodyMode) -> ParseMode {
    if m == BodyMode::Math {
        ParseMode::Math
    } else {
        ParseMode::Text
    }
}

impl BodyModes for RegistryModes {
    open spec fn spec_body_mode(&self, name: Seq<char>) -> ParseMode {
        parse_mode_of(
            match registered_kind(name) {
                Some(kind) => spec_body_mode(kind),
                None => BodyMode::Text,
            },
        )
    }

    fn body_mode(&self, name: &str) -> (m: ParseMode) {
        match lookup_body_mode(name) {
            BodyMode::Math => ParseMode::Math,
            _ => ParseMode::Text,
        }
    }
}

/// The environment name of each theorem class.
pub open spec fn theorem_env_name(c: TheoremClass) -> Seq<char> {
    match c {
        TheoremClass::Theorem => "theorem"@,
        TheoremClass::Lemma => "lemma"@,
        TheoremClass::Proposition => "proposition"@,
        TheoremClass::Corollary => "corollary"@,
        TheoremClass::Definition => "definition"@,
        TheoremClass::Axiom => "axiom"@,
        TheoremClass::Example => "example"@,
        TheoremClass::Remark => "remark"@,
        TheoremClass::Claim => "claim"@,
        TheoremClass::Proof => "proof"@,
    }
}

/// The environment name of each quotation kind.
pub open spec fn quote_env_name(q: QuoteKind) -> Seq<char> {
    match q {
        QuoteKind::Quote => "quote"@,
        QuoteKind::Quotation => "quotation"@,
    }
}

/// The environment name of each math grid kind.
pub open spec fn grid_env_name(k: MathEnvKind) -> Seq<char> {
    match k {
        MathEnvKind::Align => "align"@,
        MathEnvKind::Gather => "gather"@,
        MathEnvKind::Split => "split"@,
        MathEnvKind::Multiline => "multiline"@,
    }
}

/// The environment name of a list: `enumerate` when ordered, `itemize` otherwise.
pub open spec fn list_env_name(ordered: bool) -> Seq<char> {
    if ordered {
        "enumerate"@
    } else {
        "itemize"@
    }
}

/// What each math grid kind numbers: each row of `align` and `gather`, the whole of `split`
/// and `multiline`.
pub open spec fn grid_numbering(k: MathEnvKind) -> NumberingMode {
    match k {
        MathEnvKind::Align | MathEnvKind::Gather => NumberingMode::PerRow,
        MathEnvKind::Split | MathEnvKind::Multiline => NumberingMode::SingleEnv,
    }
}

/// The name an environment of kind `k` is written with, when the kind determines it.
pub open spec fn kind_env_name(k: EnvironmentKind) -> Seq<char> {
    match k {
        EnvironmentKind::List { ordered } => list_env_name(ordered),
        EnvironmentKind::Theorem(c) => theorem_env_name(c),
        EnvironmentKind::Quote(q) => quote_env_name(q),
        EnvironmentKind::Figure => "figure"@,
        EnvironmentKind::Table => "table"@,
        EnvironmentKind::Code => "code"@,
        EnvironmentKind::Equation => "equation"@,
        EnvironmentKind::MathGrid { kind, .. } => grid_env_name(kind),
        EnvironmentKind::Cases => "cases"@,
        EnvironmentKind::Matrix => "matrix"@,
    }
}

proof fn lemma_theorem_registered(c: TheoremClass)
    ensures
        registered_kind(theorem_env_name(c)) == Some(EnvironmentKind::Theorem(c)),
{
    reveal_strlit("itemize");
    reveal_strlit("enumerate");
    reveal_strlit("equation");
    reveal_strlit("align");
    reveal_strlit("gather");
    reveal_strlit("split");
    reveal_strlit("multiline");
    reveal_strlit("cases");
    reveal_strlit("matrix");
    reveal_strlit("figure");
    reveal_strlit("table");
    reveal_strlit("theorem");
    reveal_strlit("lemma");
    reveal_strlit("proposition");
    reveal_strlit("corollary");
    reveal_strlit("definition");
    reveal_strlit("axiom");
    reveal_strlit("example");
    reveal_strlit("remark");
    reveal_strlit("claim");
    reveal_strlit("proof");
    reveal_strlit("code");
    reveal_strlit("quote");
    reveal_strlit("quotation");
    assert("itemize"@[0] == 'i' && "itemize"@[1] == 't' && "itemize"@[2] == 'e' && "itemize"@.len() == 7);
    assert("enumerate"@[0] == 'e' && "enumerate"@[1] == 'n' && "enumerate"@[2] == 'u' && "enumerate"@.len() == 9);
    assert("equation"@[0] == 'e' && "equation"@[1] == 'q' && "equation"@[2] == 'u' && "equation"@.len() == 8);
    assert("align"@[0] == 'a' && "align"@[1] == 'l' && "align"@[2] == 'i' && "align"@.len() == 5);
    assert("gather"@[0] == 'g' && "gather"@[1] == 'a' && "gather"@[2] == 't' && "gather"@.len() == 6);
    assert("split"@[0] == 's' && "split"@[1] == 'p' && "split"@[2] == 'l' && "split"@.len() == 5);
    assert("multiline"@[0] == 'm' && "multiline"@[1] == 'u' && "multiline"@[2] == 'l' && "multiline"@.len() == 9);
    assert("cases"@[0] == 'c' && "cases"@[1] == 'a' && "cases"@[2] == 's' && "cases"@.len() == 5);
    assert("matrix"@[0] == 'm' && "matrix"@[1] == 'a' && "matrix"@[2] == 't' && "matrix"@.len() == 6);
    assert("figure"@[0] == 'f' && "figure"@[1] == 'i' && "figure"@[2] == 'g' && "figure"@.len() == 6);
    assert("table"@[0] == 't' && "table"@[1] == 'a' && "table"@[2] == 'b' && "table"@.len() == 5);
    assert("theorem"@[0] == 't' && "theorem"@[1] == 'h' && "theorem"@[2] == 'e' && "theorem"@.len() == 7);
    assert("lemma"@[0] == 'l' && "lemma"@[1] == 'e' && "lemma"@[2] == 'm' && "lemma"@.len() == 5);
    assert("proposition"@[0] == 'p' && "proposition"@[1] == 'r' && "proposition"@[2] == 'o' && "proposition"@.len() == 11);
    assert("corollary"@[0] == 'c' && "corollary"@[1] == 'o' && "corollary"@[2] == 'r' && "corollary"@.len() == 9);
    assert("definition"@[0] == 'd' && "definition"@[1] == 'e' && "definition"@[2] == 'f' && "definition"@.len() == 10);
    assert("axiom"@[0] == 'a' && "axiom"@[1] == 'x' && "axiom"@[2] == 'i' && "axiom"@.len() == 5);
    assert("example"@[0] == 'e' && "example"@[1] == 'x' && "example"@[2] == 'a' && "example"@.len() == 7);
    assert("remark"@[0] == 'r' && "remark"@[1] == 'e' && "remark"@[2] == 'm' && "remark"@.len() == 6);
    assert("claim"@[0] == 'c' && "claim"@[1] == 'l' && "claim"@[2] == 'a' && "claim"@.len() == 5);
    assert("proof"@[0] == 'p' && "proof"@[1] == 'r' && "proof"@[2] == 'o' && "proof"@.len() == 5);
    assert("code"@[0] == 'c' && "code"@[1] == 'o' && "code"@[2] == 'd' && "code"@.len() == 4);
    assert("quote"@[0] == 'q' && "quote"@[1] == 'u' && "quote"@[2] == 'o' && "quote"@.len() == 5);
    assert("quotation"@[0] == 'q' && "quotation"@[1] == 'u' && "quotation"@[2] == 'o' && "quotation"@.len() == 9);
    match c {
        TheoremClass::Theorem => {},
        TheoremClass::Lemma => {},
        TheoremClass::Proposition => {},
        TheoremClass::Corollary => {},
        TheoremClass::Definition => {},
        TheoremClass::Axiom => {},
        TheoremClass::Example => {},
        TheoremClass::Remark => {},
        TheoremClass::Claim => {},
        TheoremClass::Proof => {},
    }
}

proof fn lemma_quote_registered(q: QuoteKind)
    ensures
        registered_kind(quote_env_name(q)) == Some(EnvironmentKind::Quote(q)),
{
    reveal_strlit("itemize");
    reveal_strlit("enumerate");
    reveal_strlit("equation");
    reveal_strlit("align");
    reveal_strlit("gather");
    reveal_strlit("split");
    reveal_strlit("multiline");
    reveal_strlit("cases");
    reveal_strlit("matrix");
    reveal_strlit("figure");
    reveal_strlit("table");
    reveal_strlit("theorem");
    reveal_strlit("lemma");
    reveal_strlit("proposition");
    reveal_strlit("corollary");
    reveal_strlit("definition");
    reveal_strlit("axiom");
    reveal_strlit("example");
    reveal_strlit("remark");
    reveal_strlit("claim");
    reveal_strlit("proof");
    reveal_strlit("code");
    reveal_strlit("quote");
    reveal_strlit("quotation");
    assert("itemize"@[0] == 'i' && "itemize"@[1] == 't' && "itemize"@[2] == 'e' && "itemize"@.len() == 7);
    assert("enumerate"@[0] == 'e' && "enumerate"@[1] == 'n' && "enumerate"@[2] == 'u' && "enumerate"@.len() == 9);
    assert("equation"@[0] == 'e' && "equation"@[1] == 'q' && "equation"@[2] == 'u' && "equation"@.len() == 8);
    assert("align"@[0] == 'a' && "align"@[1] == 'l' && "align"@[2] == 'i' && "align"@.len() == 5);
    assert("gather"@[0] == 'g' && "gather"@[1] == 'a' && "gather"@[2] == 't' && "gather"@.len() == 6);
    assert("split"@[0] == 's' && "split"@[1] == 'p' && "split"@[2] == 'l' && "split"@.len() == 5);
    assert("multiline"@[0] == 'm' && "multiline"@[1] == 'u' && "multiline"@[2] == 'l' && "multiline"@.len() == 9);
    assert("cases"@[0] == 'c' && "cases"@[1] == 'a' && "cases"@[2] == 's' && "cases"@.len() == 5);
    assert("matrix"@[0] == 'm' && "matrix"@[1] == 'a' && "matrix"@[2] == 't' && "matrix"@.len() == 6);
    assert("figure"@[0] == 'f' && "figure"@[1] == 'i' && "figure"@[2] == 'g' && "figure"@.len() == 6);
    assert("table"@[0] == 't' && "table"@[1] == 'a' && "table"@[2] == 'b' && "table"@.len() == 5);
    assert("theorem"@[0] == 't' && "theorem"@[1] == 'h' && "theorem"@[2] == 'e' && "theorem"@.len() == 7);
    assert("lemma"@[0] == 'l' && "lemma"@[1] == 'e' && "lemma"@[2] == 'm' && "lemma"@.len() == 5);
    assert("proposition"@[0] == 'p' && "proposition"@[1] == 'r' && "proposition"@[2] == 'o' && "proposition"@.len() == 11);
    assert("corollary"@[0] == 'c' && "corollary"@[1] == 'o' && "corollary"@[2] == 'r' && "corollary"@.len() == 9);
    assert("definition"@[0] == 'd' && "definition"@[1] == 'e' && "definition"@[2] == 'f' && "definition"@.len() == 10);
    assert("axiom"@[0] == 'a' && "axiom"@[1] == 'x' && "axiom"@[2] == 'i' && "axiom"@.len() == 5);
    assert("example"@[0] == 'e' && "example"@[1] == 'x' && "example"@[2] == 'a' && "example"@.len() == 7);
    assert("remark"@[0] == 'r' && "remark"@[1] == 'e' && "remark"@[2] == 'm' && "remark"@.len() == 6);
    assert("claim"@[0] == 'c' && "claim"@[1] == 'l' && "claim"@[2] == 'a' && "claim"@.len() == 5);
    assert("proof"@[0] == 'p' && "proof"@[1] == 'r' && "proof"@[2] == 'o' && "proof"@.len() == 5);
    assert("code"@[0] == 'c' && "code"@[1] == 'o' && "code"@[2] == 'd' && "code"@.len() == 4);
    assert("quote"@[0] == 'q' && "quote"@[1] == 'u' && "quote"@[2] == 'o' && "quote"@.len() == 5);
    assert("quotation"@[0] == 'q' && "quotation"@[1] == 'u' && "quotation"@[2] == 'o' && "quotation"@.len() == 9);
    match q {
        QuoteKind::Quote => {},
        QuoteKind::Quotation => {},
    }
}

proof fn lemma_list_registered(ordered: bool)
    ensures
        registered_kind(list_env_name(ordered)) == Some(EnvironmentKind::List { ordered }),
{
    reveal_strlit("itemize");
    reveal_strlit("enumerate");
    reveal_strlit("equation");
    reveal_strlit("align");
    reveal_strlit("gather");
    reveal_strlit("split");
    reveal_strlit("multiline");
    reveal_strlit("cases");
    reveal_strlit("matrix");
    reveal_strlit("figure");
    reveal_strlit("table");
    reveal_strlit("theorem");
    reveal_strlit("lemma");
    reveal_strlit("proposition");
    reveal_strlit("corollary");
    reveal_strlit("definition");
    reveal_strlit("axiom");
    reveal_strlit("example");
    reveal_strlit("remark");
    reveal_strlit("claim");
    reveal_strlit("proof");
    reveal_strlit("code");
    reveal_strlit("quote");
    reveal_strlit("quotation");
    assert("itemize"@[0] == 'i' && "itemize"@[1] == 't' && "itemize"@[2] == 'e' && "itemize"@.len() == 7);
    assert("enumerate"@[0] == 'e' && "enumerate"@[1] == 'n' && "enumerate"@[2] == 'u' && "enumerate"@.len() == 9);
    assert("equation"@[0] == 'e' && "equation"@[1] == 'q' && "equation"@[2] == 'u' && "equation"@.len() == 8);
    assert("align"@[0] == 'a' && "align"@[1] == 'l' && "align"@[2] == 'i' && "align"@.len() == 5);
    assert("gather"@[0] == 'g' && "gather"@[1] == 'a' && "gather"@[2] == 't' && "gather"@.len() == 6);
    assert("split"@[0] == 's' && "split"@[1] == 'p' && "split"@[2] == 'l' && "split"@.len() == 5);
    assert("multiline"@[0] == 'm' && "multiline"@[1] == 'u' && "multiline"@[2] == 'l' && "multiline"@.len() == 9);
    assert("cases"@[0] == 'c' && "cases"@[1] == 'a' && "cases"@[2] == 's' && "cases"@.len() == 5);
    assert("matrix"@[0] == 'm' && "matrix"@[1] == 'a' && "matrix"@[2] == 't' && "matrix"@.len() == 6);
    assert("figure"@[0] == 'f' && "figure"@[1] == 'i' && "figure"@[2] == 'g' && "figure"@.len() == 6);
    assert("table"@[0] == 't' && "table"@[1] == 'a' && "table"@[2] == 'b' && "table"@.len() == 5);
    assert("theorem"@[0] == 't' && "theorem"@[1] == 'h' && "theorem"@[2] == 'e' && "theorem"@.len() == 7);
    assert("lemma"@[0] == 'l' && "lemma"@[1] == 'e' && "lemma"@[2] == 'm' && "lemma"@.len() == 5);
    assert("proposition"@[0] == 'p' && "proposition"@[1] == 'r' && "proposition"@[2] == 'o' && "proposition"@.len() == 11);
    assert("corollary"@[0] == 'c' && "corollary"@[1] == 'o' && "corollary"@[2] == 'r' && "corollary"@.len() == 9);
    assert("definition"@[0] == 'd' && "definition"@[1] == 'e' && "definition"@[2] == 'f' && "definition"@.len() == 10);
    assert("axiom"@[0] == 'a' && "axiom"@[1] == 'x' && "axiom"@[2] == 'i' && "axiom"@.len() == 5);
    assert("example"@[0] == 'e' && "example"@[1] == 'x' && "example"@[2] == 'a' && "example"@.len() == 7);
    assert("remark"@[0] == 'r' && "remark"@[1] == 'e' && "remark"@[2] == 'm' && "remark"@.len() == 6);
    assert("claim"@[0] == 'c' && "claim"@[1] == 'l' && "claim"@[2] == 'a' && "claim"@.len() == 5);
    assert("proof"@[0] == 'p' && "proof"@[1] == 'r' && "proof"@[2] == 'o' && "proof"@.len() == 5);
    assert("code"@[0] == 'c' && "code"@[1] == 'o' && "code"@[2] == 'd' && "code"@.len() == 4);
    assert("quote"@[0] == 'q' && "quote"@[1] == 'u' && "quote"@[2] == 'o' && "quote"@.len() == 5);
    assert("quotation"@[0] == 'q' && "quotation"@[1] == 'u' && "quotation"@[2] == 'o' && "quotation"@.len() == 9);
    if ordered {} else {}
}

proof fn lemma_grid_registered(g: MathEnvKind)
    ensures
        registered_kind(grid_env_name(g)) matches Some(EnvironmentKind::MathGrid { kind, numbering, .. })
            && kind == g && numbering == grid_numbering(g),
{
    reveal_strlit("itemize");
    reveal_strlit("enumerate");
    reveal_strlit("equation");
    reveal_strlit("align");
    reveal_strlit("gather");
    reveal_strlit("split");
    reveal_strlit("multiline");
    reveal_strlit("cases");
    reveal_strlit("matrix");
    reveal_strlit("figure");
    reveal_strlit("table");
    reveal_strlit("theorem");
    reveal_strlit("lemma");
    reveal_strlit("proposition");
    reveal_strlit("corollary");
    reveal_strlit("definition");
    reveal_strlit("axiom");
    reveal_strlit("example");
    reveal_strlit("remark");
    reveal_strlit("claim");
    reveal_strlit("proof");
    reveal_strlit("code");
    reveal_strlit("quote");
    reveal_strlit("quotation");
    assert("itemize"@[0] == 'i' && "itemize"@[1] == 't' && "itemize"@[2] == 'e' && "itemize"@.len() == 7);
    assert("enumerate"@[0] == 'e' && "enumerate"@[1] == 'n' && "enumerate"@[2] == 'u' && "enumerate"@.len() == 9);
    assert("equation"@[0] == 'e' && "equation"@[1] == 'q' && "equation"@[2] == 'u' && "equation"@.len() == 8);
    assert("align"@[0] == 'a' && "align"@[1] == 'l' && "align"@[2] == 'i' && "align"@.len() == 5);
    assert("gather"@[0] == 'g' && "gather"@[1] == 'a' && "gather"@[2] == 't' && "gather"@.len() == 6);
    assert("split"@[0] == 's' && "split"@[1] == 'p' && "split"@[2] == 'l' && "split"@.len() == 5);
    assert("multiline"@[0] == 'm' && "multiline"@[1] == 'u' && "multiline"@[2] == 'l' && "multiline"@.len() == 9);
    assert("cases"@[0] == 'c' && "cases"@[1] == 'a' && "cases"@[2] == 's' && "cases"@.len() == 5);
    assert("matrix"@[0] == 'm' && "matrix"@[1] == 'a' && "matrix"@[2] == 't' && "matrix"@.len() == 6);
    assert("figure"@[0] == 'f' && "figure"@[1] == 'i' && "figure"@[2] == 'g' && "figure"@.len() == 6);
    assert("table"@[0] == 't' && "table"@[1] == 'a' && "table"@[2] == 'b' && "table"@.len() == 5);
    assert("theorem"@[0] == 't' && "theorem"@[1] == 'h' && "theorem"@[2] == 'e' && "theorem"@.len() == 7);
    assert("lemma"@[0] == 'l' && "lemma"@[1] == 'e' && "lemma"@[2] == 'm' && "lemma"@.len() == 5);
    assert("proposition"@[0] == 'p' && "proposition"@[1] == 'r' && "proposition"@[2] == 'o' && "proposition"@.len() == 11);
    assert("corollary"@[0] == 'c' && "corollary"@[1] == 'o' && "corollary"@[2] == 'r' && "corollary"@.len() == 9);
    assert("definition"@[0] == 'd' && "definition"@[1] == 'e' && "definition"@[2] == 'f' && "definition"@.len() == 10);
    assert("axiom"@[0] == 'a' && "axiom"@[1] == 'x' && "axiom"@[2] == 'i' && "axiom"@.len() == 5);
    assert("example"@[0] == 'e' && "example"@[1] == 'x' && "example"@[2] == 'a' && "example"@.len() == 7);
    assert("remark"@[0] == 'r' && "remark"@[1] == 'e' && "remark"@[2] == 'm' && "remark"@.len() == 6);
    assert("claim"@[0] == 'c' && "claim"@[1] == 'l' && "claim"@[2] == 'a' && "claim"@.len() == 5);
    assert("proof"@[0] == 'p' && "proof"@[1] == 'r' && "proof"@[2] == 'o' && "proof"@.len() == 5);
    assert("code"@[0] == 'c' && "code"@[1] == 'o' && "code"@[2] == 'd' && "code"@.len() == 4);
    assert("quote"@[0] == 'q' && "quote"@[1] == 'u' && "quote"@[2] == 'o' && "quote"@.len() == 5);
    assert("quotation"@[0] == 'q' && "quotation"@[1] == 'u' && "quotation"@[2] == 'o' && "quotation"@.len() == 9);
    match g {
        MathEnvKind::Align => {},
        MathEnvKind::Gather => {},
        MathEnvKind::Split => {},
        MathEnvKind::Multiline => {},
    }
}

proof fn lemma_registered_names(name: Seq<char>)
    ensures
        registered_kind(name) matches Some(k) ==> name == kind_env_name(k),
{
    reveal_strlit("itemize");
    reveal_strlit("enumerate");
    reveal_strlit("equation");
    reveal_strlit("align");
    reveal_strlit("gather");
    reveal_strlit("split");
    reveal_strlit("multiline");
    reveal_strlit("cases");
    reveal_strlit("matrix");
    reveal_strlit("figure");
    reveal_strlit("table");
    reveal_strlit("theorem");
    reveal_strlit("lemma");
    reveal_strlit("proposition");
    reveal_strlit("corollary");
    reveal_strlit("definition");
    reveal_strlit("axiom");
    reveal_strlit("example");
    reveal_strlit("remark");
    reveal_strlit("claim");
    reveal_strlit("proof");
    reveal_strlit("code");
    reveal_strlit("quote");
    reveal_strlit("quotation");
    assert("itemize"@[0] == 'i' && "itemize"@[1] == 't' && "itemize"@[2] == 'e' && "itemize"@.len() == 7);
    assert("enumerate"@[0] == 'e' && "enumerate"@[1] == 'n' && "enumerate"@[2] == 'u' && "enumerate"@.len() == 9);
    assert("equation"@[0] == 'e' && "equation"@[1] == 'q' && "equation"@[2] == 'u' && "equation"@.len() == 8);
    assert("align"@[0] == 'a' && "align"@[1] == 'l' && "align"@[2] == 'i' && "align"@.len() == 5);
    assert("gather"@[0] == 'g' && "gather"@[1] == 'a' && "gather"@[2] == 't' && "gather"@.len() == 6);
    assert("split"@[0] == 's' && "split"@[1] == 'p' && "split"@[2] == 'l' && "split"@.len() == 5);
    assert("multiline"@[0] == 'm' && "multiline"@[1] == 'u' && "multiline"@[2] == 'l' && "multiline"@.len() == 9);
    assert("cases"@[0] == 'c' && "cases"@[1] == 'a' && "cases"@[2] == 's' && "cases"@.len() == 5);
    assert("matrix"@[0] == 'm' && "matrix"@[1] == 'a' && "matrix"@[2] == 't' && "matrix"@.len() == 6);
    assert("figure"@[0] == 'f' && "figure"@[1] == 'i' && "figure"@[2] == 'g' && "figure"@.len() == 6);
    assert("table"@[0] == 't' && "table"@[1] == 'a' && "table"@[2] == 'b' && "table"@.len() == 5);
    assert("theorem"@[0] == 't' && "theorem"@[1] == 'h' && "theorem"@[2] == 'e' && "theorem"@.len() == 7);
    assert("lemma"@[0] == 'l' && "lemma"@[1] == 'e' && "lemma"@[2] == 'm' && "lemma"@.len() == 5);
    assert("proposition"@[0] == 'p' && "proposition"@[1] == 'r' && "proposition"@[2] == 'o' && "proposition"@.len() == 11);
    assert("corollary"@[0] == 'c' && "corollary"@[1] == 'o' && "corollary"@[2] == 'r' && "corollary"@.len() == 9);
    assert("definition"@[0] == 'd' && "definition"@[1] == 'e' && "definition"@[2] == 'f' && "definition"@.len() == 10);
    assert("axiom"@[0] == 'a' && "axiom"@[1] == 'x' && "axiom"@[2] == 'i' && "axiom"@.len() == 5);
    assert("example"@[0] == 'e' && "example"@[1] == 'x' && "example"@[2] == 'a' && "example"@.len() == 7);
    assert("remark"@[0] == 'r' && "remark"@[1] == 'e' && "remark"@[2] == 'm' && "remark"@.len() == 6);
    assert("claim"@[0] == 'c' && "claim"@[1] == 'l' && "claim"@[2] == 'a' && "claim"@.len() == 5);
    assert("proof"@[0] == 'p' && "proof"@[1] == 'r' && "proof"@[2] == 'o' && "proof"@.len() == 5);
    assert("code"@[0] == 'c' && "code"@[1] == 'o' && "code"@[2] == 'd' && "code"@.len() == 4);
    assert("quote"@[0] == 'q' && "quote"@[1] == 'u' && "quote"@[2] == 'o' && "quote"@.len() == 5);
    assert("quotation"@[0] == 'q' && "quotation"@[1] == 'u' && "quotation"@[2] == 'o' && "quotation"@.len() == 9);
}

/// Each environment name is registered under the kind it names: every theorem class, quotation
/// kind and list is registered under its own name, every math grid kind under its name with
/// the numbering that kind has, and a registered name is the name of the kind registered under
/// it. So two names never share a theorem class, and no class is registered twice.
pub proof fn law_environment_names_name_their_kind(name: Seq<char>, other: Seq<char>, c: TheoremClass, q: QuoteKind, ordered: bool, g: MathEnvKind)
    ensures
        registered_kind(theorem_env_name(c)) == Some(EnvironmentKind::Theorem(c)),
        registered_kind(quote_env_name(q)) == Some(EnvironmentKind::Quote(q)),
        registered_kind(list_env_name(ordered)) == Some(EnvironmentKind::List { ordered }),
        registered_kind(grid_env_name(g)) matches Some(EnvironmentKind::MathGrid { kind, numbering, .. })
            && kind == g && numbering == grid_numbering(g),
        registered_kind(name) matches Some(k) ==> name == kind_env_name(k),
        registered_kind(name) == Some(EnvironmentKind::Theorem(c)) && registered_kind(other) == Some(EnvironmentKind::Theorem(c))
            ==> name == other,
{
    lemma_theorem_registered(c);
    lemma_quote_registered(q);
    lemma_list_registered(ordered);
    lemma_grid_registered(g);
    lemma_registered_names(name);
    lemma_registered_names(other);
}

} // verus!
