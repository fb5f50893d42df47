//! The quotation environments `quote` and `quotation`: no optional argument, no mandatory
//! argument, and a body read as running text. The kind comes from the registry.

use vstd::prelude::*;
use vstd::string::*;
use crate::evaluator::arity::{has_environment_args, is_extra_environment_argument, no_environment_args};
use crate::evaluator::environment::QuoteKind;
use crate::evaluator::error::EvalError;
use crate::evaluator::opt_args::{expect_no_environment_opt_args, is_first_environment_key_refused};
use crate::syntax::green::{nodes_of_kind, GreenNode, SyntaxKind};
use crate::syntax::view::{key_value_options, EnvironmentView};

verus! {

/// A quotation: its kind and its body, if it has one.
#[derive(Debug)]
pub struct QuoteParts<'a> {
    /// `quote` or `quotation`.
    pub kind: QuoteKind,
    /// The body.
    pub body: Option<&'a GreenNode>,
}

/// The environment takes no optional argument (see [`expect_no_environment_opt_args`]).
pub open spec fn no_environment_opt_entries(view: EnvironmentView) -> bool {
    match view.spec_opt_arg() {
        None => true,
        Some(opt) => key_value_options(view.spec_source().spec_bytes(), opt).len() == 0,
    }
}

/// The body of the viewed environment, if it has one.
pub open spec fn spec_body(view: EnvironmentView) -> Option<GreenNode> {
    let bodies = nodes_of_kind(view.spec_node().children@, SyntaxKind::EnvironmentBody);
    if bodies.len() > 0 {
        Some(bodies[0])
    } else {
        None
    }
}

/// A quotation environment of kind `kind`: an optional argument with an entry is refused
/// first, then a mandatory argument; otherwise its body.
pub fn quote<'a>(view: &EnvironmentView<'a>, kind: QuoteKind) -> (r: Result<QuoteParts<'a>, EvalError>)
    requires
        view.wf(),
    ensures
        !no_environment_opt_entries(*view) ==> (r matches Err(e) && is_first_environment_key_refused(*view, e)),
        no_environment_opt_entries(*view) && has_environment_args(*view) ==> (r matches Err(e)
            && is_extra_environment_argument(e, view.spec_name(), view.spec_node().span)),
        no_environment_opt_entries(*view) && !has_environment_args(*view) ==> (r matches Ok(q)
            && q.kind == kind && match q.body {
                Some(b) => spec_body(*view) == Some(*b),
                None => spec_body(*view) is None,
            }),
{
    expect_no_environment_opt_args(view)?;
    no_environment_args(view)?;
    Ok(QuoteParts { kind, body: view.body() })
}

} // verus!
