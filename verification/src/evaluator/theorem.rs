//! Theorem-like environments (`theorem`, `lemma`, ..., `proof`): an optional title and, but for
//! `proof`, a label; a `proof` names what it proves with `of` instead (it is not numbered, so it
//! takes no label). No mandatory argument is taken; the body is running text. The class comes
//! from the registry.

use vstd::prelude::*;
use vstd::string::*;
use crate::evaluator::arity::{has_environment_args, is_extra_environment_argument, no_environment_args};
use crate::evaluator::environment::TheoremClass;
use crate::evaluator::error::EvalError;
use crate::evaluator::opt_args::{
    collect_environment_opt_args, collected, string, FractionPolicy, OptArgs, OptDecl, OptType,
};
use crate::evaluator::quote::spec_body;
use crate::evaluator::table::value_of;
use crate::length::Length;
use crate::syntax::green::GreenNode;
use crate::syntax::view::EnvironmentView;

verus! {

/// A theorem-like environment: its class, title, label, the label it proves, and its body.
#[derive(Debug)]
pub struct TheoremParts<'a> {
    /// The class.
    pub class: TheoremClass,
    /// The `title` value, if given.
    pub title: Option<String>,
    /// The `label` value, if given (never for a `proof`).
    pub label: Option<String>,
    /// The `of` value of a `proof`, if given.
    pub of: Option<String>,
    /// The body.
    pub body: Option<&'a GreenNode>,
}

/// The keys of the class: `title` and `of` for a `proof`, `title` and `label` otherwise, all
/// texts.
pub open spec fn theorem_schema(class: TheoremClass, schema: Seq<OptDecl>) -> bool {
    &&& schema.len() == 2
    &&& schema[0].spec_name() == "title"@ && schema[0].spec_ty() == OptType::String
    &&& schema[1].spec_name() == (if class == TheoremClass::Proof { "of"@ } else { "label"@ })
    &&& schema[1].spec_ty() == OptType::String
}

/// A theorem-like environment of `class`: the optional argument is collected first (see
/// [`collected`]), then a mandatory argument is refused; otherwise the values and the body.
pub fn theorem<'a, L: Fn(&str) -> Option<Length>, I: Fn(&str, FractionPolicy) -> Option<u32>>(
    view: &EnvironmentView<'a>,
    class: TheoremClass,
    read_length: &L,
    read_int: &I,
) -> (r: Result<TheoremParts<'a>, EvalError>)
    requires
        view.wf(),
        forall|s: &str| read_length.requires((s,)),
        forall|s: &str, p: FractionPolicy| read_int.requires((s, p)),
    ensures
        exists|schema: Seq<OptDecl>| #[trigger] theorem_schema(class, schema) && match r {
            Ok(t) => exists|a: OptArgs| {
                &&& #[trigger] collected(view.spec_source().spec_bytes(), view.spec_name(), view.spec_opt_arg(), schema,
                    *read_length, *read_int, Ok(a))
                &&& !has_environment_args(*view)
                &&& t.class == class
                &&& t.title == value_of::<String>(a, "title"@)
                &&& t.label == value_of::<String>(a, "label"@)
                &&& t.of == value_of::<String>(a, "of"@)
                &&& match t.body {
                    Some(b) => spec_body(*view) == Some(*b),
                    None => spec_body(*view) is None,
                }
            },
            Err(e) => collected(view.spec_source().spec_bytes(), view.spec_name(), view.spec_opt_arg(), schema,
                *read_length, *read_int, Err(e)) || exists|a: OptArgs| {
                &&& #[trigger] collected(view.spec_source().spec_bytes(), view.spec_name(), view.spec_opt_arg(), schema,
                    *read_length, *read_int, Ok(a))
                &&& has_environment_args(*view)
                &&& is_extra_environment_argument(e, view.spec_name(), view.spec_node().span)
            },
        },
{
    let title = string("title");
    let label = string("label");
    let of = string("of");
    proof {
        reveal_strlit("title");
        reveal_strlit("label");
        reveal_strlit("of");
    }
    let second = if class == TheoremClass::Proof {
        of.decl()
    } else {
        label.decl()
    };
    let schema = [title.decl(), second];
    assert(theorem_schema(class, schema@));
    let opts = collect_environment_opt_args(view, &schema, read_length, read_int)?;
    let title_value = opts.get(title);
    let label_value = opts.get(label);
    let of_value = opts.get(of);
    no_environment_args(view)?;
    Ok(TheoremParts { class, title: title_value, label: label_value, of: of_value, body: view.body() })
}

} // verus!
