//! `\footnote{...}`: the argument holds the footnote's inline content, which is read where the
//! footnote stands (an `\index` inside follows the policy of that place).

use vstd::prelude::*;
use vstd::string::*;
use crate::evaluator::error::{EvalError, is_extra_argument, is_missing_argument};
use crate::evaluator::link::no_opt_entries;
use crate::evaluator::opt_args::{expect_no_opt_args, is_first_key_refused};
use crate::strs::to_owned_string;
use crate::syntax::green::GreenNode;
use crate::syntax::view::CommandView;

verus! {

/// `\footnote{...}`: the argument holding the footnote's body. Any optional argument is
/// refused; exactly one mandatory argument is required.
pub fn footnote_command<'a>(view: &CommandView<'a>) -> (r: Result<&'a GreenNode, EvalError>)
    requires
        view.wf(),
    ensures
        !no_opt_entries(*view) ==> (r matches Err(e) && is_first_key_refused(*view, e)),
        no_opt_entries(*view) && view.spec_args().len() == 0 ==> (r matches Err(e)
            && is_missing_argument(e, "footnote"@, "脚注本体"@, view.spec_node().span)),
        no_opt_entries(*view) && view.spec_args().len() > 1 ==> (r matches Err(e)
            && is_extra_argument(e, "footnote"@, view.spec_node().span)),
        no_opt_entries(*view) && view.spec_args().len() == 1 ==> (r matches Ok(body) && *body == view.spec_args()[0]),
{
    proof {
        reveal_strlit("footnote");
        reveal_strlit("脚注本体");
    }
    match expect_no_opt_args(view) {
        Ok(()) => {},
        Err(e) => return Err(e),
    }
    let first_arg = match view.first_arg() {
        Some(a) => a,
        None => {
            return Err(EvalError::MissingCommandArgument {
                name: to_owned_string("footnote"),
                expected: to_owned_string("脚注本体"),
                span: view.span(),
            });
        },
    };
    if view.args_count() > 1 {
        return Err(EvalError::ExtraCommandArgument { name: to_owned_string("footnote"), span: view.span() });
    }
    Ok(first_arg)
}

} // verus!
