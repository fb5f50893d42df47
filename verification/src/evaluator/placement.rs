//! Where a command runs: in the flow of blocks, or where only inline content may stand (the
//! arguments evaluated recursively, table cells). One value carries both whether blocks are
//! accepted and whether `\index` is.

use vstd::prelude::*;
use vstd::string::*;
use crate::evaluator::error::EvalError;
use crate::evaluator::inline::IndexPolicy;
use crate::strs::to_owned_string;
use crate::syntax::view::CommandView;

verus! {

/// The proof that a command may produce a block here; only [`Placement::accept_block`] gives
/// one.
pub struct BlockPermit {
    _private: (),
}

/// The context a command runs in.
#[derive(Debug, Clone, Copy, PartialEq, Eq, Structural)]
pub enum Placement {
    /// The flow of blocks, which accepts blocks.
    Block,
    /// A place for inline content only, with its policy for `\index`.
    Inline(IndexPolicy),
}

impl Placement {
    /// Checks that a command producing a block may run here, before its arguments are looked
    /// at: in an inline place it is refused, naming the command with its backslash.
    pub fn accept_block(self, view: &CommandView) -> (r: Result<BlockPermit, EvalError>)
        ensures
            self is Block <==> r is Ok,
            self is Inline ==> (r matches Err(EvalError::BlockInInline { what, span })
                && what@ == "\\"@ + view.spec_name() && span == view.spec_node().span),
    {
        match self {
            Placement::Inline(_) => {
                let mut what = to_owned_string("\\");
                what.append(view.name());
                Err(EvalError::BlockInInline { what, span: view.span() })
            },
            Placement::Block => Ok(BlockPermit { _private: () }),
        }
    }

    /// Checks that `\index` may run here: it is refused where the content could be placed
    /// more than once.
    pub fn accept_index(self, view: &CommandView) -> (r: Result<(), EvalError>)
        ensures
            self == Placement::Inline(IndexPolicy::Reject) <==> r is Err,
            r matches Err(e) ==> e == (EvalError::IndexNotAllowedHere { span: view.spec_node().span }),
    {
        match self {
            Placement::Inline(IndexPolicy::Reject) => Err(EvalError::IndexNotAllowedHere { span: view.span() }),
            _ => Ok(()),
        }
    }

    /// The `\index` policy handed to arguments that are evaluated in turn: the outer one, so
    /// that nesting cannot lift a refusal; in the flow of blocks, allowed.
    pub fn index_policy(self) -> (p: IndexPolicy)
        ensures
            p == match self {
                Placement::Block => IndexPolicy::Allow,
                Placement::Inline(q) => q,
            },
    {
        match self {
            Placement::Block => IndexPolicy::Allow,
            Placement::Inline(policy) => policy,
        }
    }
}

} // verus!
