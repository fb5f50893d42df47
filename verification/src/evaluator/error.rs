//! Diagnostics of evaluation.

use vstd::prelude::*;
use crate::syntax::span::Span;

verus! {

/// An error found while evaluating a source: the command or environment it concerns, what was
/// wrong, and where.
#[derive(Debug, Clone, PartialEq, Eq)]
pub enum EvalError {
    /// An environment that is not registered.
    UnknownEnvironment { name: String, span: Span },
    /// A mandatory argument is missing; `expected` describes what was expected.
    MissingCommandArgument { name: String, expected: String, span: Span },
    /// More mandatory arguments than the command takes.
    ExtraCommandArgument { name: String, span: Span },
    /// A mandatory argument whose content the command refuses; `reason` says why.
    InvalidCommandArgument { name: String, reason: String, span: Span },
    /// A mandatory argument after the name of an environment that takes none.
    ExtraEnvironmentArgument { name: String, span: Span },
    /// An optional-argument key the command or environment does not accept; `expected_keys`
    /// lists the accepted keys with their types.
    UnknownOptArgKey { name: String, key: String, expected_keys: String, span: Span },
    /// An optional-argument key given twice in one `[...]`.
    DuplicateOptArgKey { name: String, key: String, span: Span },
    /// An optional-argument value that does not have the declared type; `expected` names it.
    InvalidOptArgValue { name: String, key: String, expected: String, span: Span },
    /// Content other than the allowed commands directly in an environment body; `expected`
    /// says what is allowed there.
    UnexpectedContentInEnvironment { env: String, expected: String, span: Span },
    /// A command that is not allowed directly in an environment body.
    UnexpectedCommandInEnvironment { env: String, name: String, expected: String, span: Span },
    /// A command that produces a block where only inline content may stand; `what` names it.
    BlockInInline { what: String, span: Span },
    /// `\index` where its content could be placed more than once.
    IndexNotAllowedHere { span: Span },
    /// A label on an equation or a math row that receives no number.
    LabelRequiresNumbering { name: String, span: Span },
    /// `\notag` that does not stand at the end of its row.
    NotagNotAtRowEnd { span: Span },
    /// `\label{...}` that does not stand at the end of its row.
    RowLabelNotAtRowEnd { span: Span },
    /// `\notag` in an environment whose rows are not numbered at all.
    NotagWithUnnumberedEnv { span: Span },
}

/// `e` reports missing arguments of the command `name` at `span`, expecting `expected`.
pub open spec fn is_missing_argument(e: EvalError, name: Seq<char>, expected: Seq<char>, span: Span) -> bool {
    e matches EvalError::MissingCommandArgument { name: n, expected: x, span: s }
        && n@ == name && x@ == expected && s == span
}

/// `e` reports extra arguments of the command `name` at `span`.
pub open spec fn is_extra_argument(e: EvalError, name: Seq<char>, span: Span) -> bool {
    e matches EvalError::ExtraCommandArgument { name: n, span: s } && n@ == name && s == span
}

} // verus!
