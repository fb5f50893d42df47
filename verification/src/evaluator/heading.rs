//! Headings: `\part`, `\chapter`, `\section`, `\subsection`, `\paragraph`, `\subparagraph`.
//! A heading takes an optional `[label=...]` and one mandatory argument, its title; numbering
//! is left to a later stage.

use vstd::prelude::*;
use vstd::string::*;
use crate::evaluator::command::{expected_name, spec_expected_name, spec_heading_name, HeadingLevel};
use crate::evaluator::error::{EvalError, is_extra_argument, is_missing_argument};
use crate::evaluator::opt_args::{collect_command_opt_args, collected, string, FractionPolicy, OptArgs, OptDecl, OptType};
use crate::evaluator::table::value_of;
use crate::length::Length;
use crate::strs::to_owned_string;
use crate::syntax::green::GreenNode;
use crate::syntax::view::CommandView;

verus! {

/// A heading: its level, its label if any, and the argument holding its title.
#[derive(Debug)]
pub struct HeadingParts<'a> {
    /// The level.
    pub level: HeadingLevel,
    /// The `label` value, if given.
    pub label: Option<String>,
    /// The argument whose inline content is the title.
    pub title: &'a GreenNode,
}

/// The only key a heading accepts: `label`, a text.
pub open spec fn label_schema(schema: Seq<OptDecl>) -> bool {
    schema.len() == 1 && schema[0].spec_name() == "label"@ && schema[0].spec_ty() == OptType::String
}

/// A heading of `level`: the optional argument is collected first (see [`collected`]), then
/// exactly one mandatory argument, the title, is required.
pub fn heading<'a, L: Fn(&str) -> Option<Length>, I: Fn(&str, FractionPolicy) -> Option<u32>>(
    view: &CommandView<'a>,
    level: HeadingLevel,
    read_length: &L,
    read_int: &I,
) -> (r: Result<HeadingParts<'a>, EvalError>)
    requires
        view.wf(),
        forall|s: &str| read_length.requires((s,)),
        forall|s: &str, p: FractionPolicy| read_int.requires((s, p)),
    ensures
        exists|schema: Seq<OptDecl>| #[trigger] label_schema(schema) && match r {
            Ok(h) => exists|a: OptArgs| {
                &&& #[trigger] collected(view.spec_source().spec_bytes(), view.spec_name(), view.spec_opt_arg(), schema,
                    *read_length, *read_int, Ok(a))
                &&& h.level == level
                &&& h.label == value_of::<String>(a, "label"@)
                &&& view.spec_args().len() == 1
                &&& *h.title == view.spec_args()[0]
            },
            Err(e) => collected(view.spec_source().spec_bytes(), view.spec_name(), view.spec_opt_arg(), schema,
                *read_length, *read_int, Err(e)) || exists|a: OptArgs| {
                &&& #[trigger] collected(view.spec_source().spec_bytes(), view.spec_name(), view.spec_opt_arg(), schema,
                    *read_length, *read_int, Ok(a))
                &&& view.spec_args().len() == 0 ==> is_missing_argument(e, spec_heading_name(level), spec_expected_name(level), view.spec_node().span)
                &&& view.spec_args().len() > 1 ==> is_extra_argument(e, spec_heading_name(level), view.spec_node().span)
                &&& view.spec_args().len() != 1
            },
        },
{
    let label = string("label");
    proof {
        reveal_strlit("label");
    }
    let schema = [label.decl()];
    assert(label_schema(schema@));
    let opts = collect_command_opt_args(view, &schema, read_length, read_int)?;
    let label_value = opts.get(label);
    let first_arg = match view.first_arg() {
        Some(a) => a,
        None => {
            return Err(EvalError::MissingCommandArgument {
                name: to_owned_string(level.command_name()),
                expected: to_owned_string(expected_name(level)),
                span: view.span(),
            });
        },
    };
    if view.args_count() > 1 {
        return Err(EvalError::ExtraCommandArgument { name: to_owned_string(level.command_name()), span: view.span() });
    }
    Ok(HeadingParts { level, label: label_value, title: first_arg })
}

} // verus!
