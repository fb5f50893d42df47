//! Reading the mandatory arguments of a command with a check of their number: none, exactly
//! one, or exactly two. A missing and an extra argument cannot both hold, so the order of the
//! two checks cannot be observed.

use vstd::prelude::*;
use crate::evaluator::error::{EvalError, is_extra_argument, is_missing_argument};
use crate::strs::to_owned_string;
use crate::syntax::green::{nodes_of_kind, GreenNode, SyntaxKind};
use crate::syntax::span::Span;
use crate::syntax::view::{CommandView, EnvironmentView};

verus! {

/// Checks that the command takes no mandatory argument.
pub fn no_args(view: &CommandView) -> (r: Result<(), EvalError>)
    requires
        view.wf(),
    ensures
        r is Ok <==> view.spec_args().len() == 0,
        r matches Err(e) ==> is_extra_argument(e, view.spec_name(), view.spec_node().span),
{
    if !view.args_is_empty() {
        return Err(EvalError::ExtraCommandArgument { name: to_owned_string(view.name()), span: view.span() });
    }
    Ok(())
}

/// Reads exactly one mandatory argument; `expected` describes it in the diagnostic for a
/// missing one.
pub fn exactly_one_arg<'a>(view: &CommandView<'a>, expected: &str) -> (r: Result<&'a GreenNode, EvalError>)
    requires
        view.wf(),
    ensures
        view.spec_args().len() == 0 ==> (r matches Err(e)
            && is_missing_argument(e, view.spec_name(), expected@, view.spec_node().span)),
        view.spec_args().len() > 1 ==> (r matches Err(e)
            && is_extra_argument(e, view.spec_name(), view.spec_node().span)),
        view.spec_args().len() == 1 ==> (r matches Ok(n) && *n == view.spec_args()[0]),
{
    let first_arg = match view.first_arg() {
        Some(a) => a,
        None => {
            return Err(EvalError::MissingCommandArgument {
                name: to_owned_string(view.name()),
                expected: to_owned_string(expected),
                span: view.span(),
            });
        },
    };
    if view.args_count() > 1 {
        return Err(EvalError::ExtraCommandArgument { name: to_owned_string(view.name()), span: view.span() });
    }
    Ok(first_arg)
}

/// Reads exactly two mandatory arguments; `expected` describes them in the diagnostic for
/// missing ones.
pub fn exactly_two_args<'a>(view: &CommandView<'a>, expected: &str) -> (r: Result<
    (&'a GreenNode, &'a GreenNode),
    EvalError,
>)
    requires
        view.wf(),
    ensures
        view.spec_args().len() < 2 ==> (r matches Err(e)
            && is_missing_argument(e, view.spec_name(), expected@, view.spec_node().span)),
        view.spec_args().len() > 2 ==> (r matches Err(e)
            && is_extra_argument(e, view.spec_name(), view.spec_node().span)),
        view.spec_args().len() == 2 ==> (r matches Ok((a, b)) && *a == view.spec_args()[0]
            && *b == view.spec_args()[1]),
{
    let args = view.args();
    if args.len() < 2 {
        return Err(EvalError::MissingCommandArgument {
            name: to_owned_string(view.name()),
            expected: to_owned_string(expected),
            span: view.span(),
        });
    }
    if args.len() > 2 {
        return Err(EvalError::ExtraCommandArgument { name: to_owned_string(view.name()), span: view.span() });
    }
    proof {
        assert(*args@[0] == args@.unref()[0]);
        assert(*args@[1] == args@.unref()[1]);
    }
    Ok((args[0], args[1]))
}

/// The environment's `\begin` part has a mandatory argument besides the name.
pub open spec fn has_environment_args(view: EnvironmentView) -> bool {
    nodes_of_kind(view.spec_begin().children@, SyntaxKind::MandatoryArg).len() > 1
}

/// `e` reports a mandatory argument of the environment `name` at `span`.
pub open spec fn is_extra_environment_argument(e: EvalError, name: Seq<char>, span: Span) -> bool {
    e matches EvalError::ExtraEnvironmentArgument { name: n, span: s } && n@ == name && s == span
}

/// Checks that an environment takes no mandatory argument besides its name.
pub fn no_environment_args(view: &EnvironmentView) -> (r: Result<(), EvalError>)
    requires
        view.wf(),
    ensures
        r is Ok <==> !has_environment_args(*view),
        r matches Err(e) ==> is_extra_environment_argument(e, view.spec_name(), view.spec_node().span),
{
    if !view.args_is_empty() {
        return Err(EvalError::ExtraEnvironmentArgument { name: to_owned_string(view.name()), span: view.span() });
    }
    Ok(())
}

} // verus!
