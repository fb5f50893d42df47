//! `\cite{key}` and `\cite{a,b}`: the keys are the argument's text split at its structural
//! commas (an escaped `\,` belongs to a key, as does a comma inside a nested group), each
//! trimmed. An empty key is refused, so `\cite{}`, `\cite{,a}`, `\cite{a,}` and `\cite{a,,b}`
//! have no reading. Whether a key names an entry is decided later.

use vstd::prelude::*;
use vstd::string::*;
use crate::evaluator::error::{EvalError, is_extra_argument, is_missing_argument};
use crate::evaluator::link::no_opt_entries;
use crate::evaluator::opt_args::{expect_no_opt_args, is_first_key_refused};
use crate::strs::{str_trim, to_owned_string, trim_chars};
use crate::syntax::green::{GreenElement, GreenNode};
use crate::syntax::span::Span;
use crate::syntax::view::{comma_segments, seq_text, split_text_on_commas, CommandView};

verus! {

/// The keys written in the argument `arg`: its comma-separated segments, trimmed.
pub open spec fn cite_keys(src: Seq<u8>, arg: GreenNode) -> Seq<Seq<char>> {
    comma_segments(arg.children@).map_values(|s: Seq<GreenElement>| trim_chars(seq_text(src, s)))
}

/// `e` reports an empty citation key in the `\cite` at `span`.
pub open spec fn is_empty_key_error(e: EvalError, span: Span) -> bool {
    e matches EvalError::InvalidCommandArgument { name, reason, span: s }
        && name@ == "cite"@ && reason@ == "空の引用キーが含まれています"@ && s == span
}

/// `\cite{...}`: the citation keys, in order. Any optional argument is refused, exactly one
/// mandatory argument is required, and no key may be empty.
pub fn cite_command(view: &CommandView) -> (r: Result<Vec<String>, EvalError>)
    requires
        view.wf(),
    ensures
        !no_opt_entries(*view) ==> (r matches Err(e) && is_first_key_refused(*view, e)),
        no_opt_entries(*view) && view.spec_args().len() == 0 ==> (r matches Err(e)
            && is_missing_argument(e, view.spec_name(), "引用キー"@, view.spec_node().span)),
        no_opt_entries(*view) && view.spec_args().len() > 1 ==> (r matches Err(e)
            && is_extra_argument(e, view.spec_name(), view.spec_node().span)),
        no_opt_entries(*view) && view.spec_args().len() == 1 ==> {
            let keys = cite_keys(view.spec_source().spec_bytes(), view.spec_args()[0]);
            if exists|i: int| 0 <= i < keys.len() && (#[trigger] keys[i]).len() == 0 {
                r matches Err(e) && is_empty_key_error(e, view.spec_node().span)
            } else {
                r matches Ok(ks) && ks@.len() == keys.len() && forall|i: int| 0 <= i < keys.len() ==> (#[trigger] ks@[i])@ == keys[i]
            }
        },
{
    let expected = "引用キー";
    proof {
        reveal_strlit("引用キー");
        reveal_strlit("cite");
        reveal_strlit("空の引用キーが含まれています");
    }
    match expect_no_opt_args(view) {
        Ok(()) => {},
        Err(e) => return Err(e),
    }
    let first_arg = match view.first_arg() {
        Some(a) => a,
        None => {
            return Err(EvalError::MissingCommandArgument {
                name: to_owned_string(view.name()),
                expected: to_owned_string(expected),
                span: view.span(),
            });
        },
    };
    if view.args_count() > 1 {
        return Err(EvalError::ExtraCommandArgument { name: to_owned_string(view.name()), span: view.span() });
    }
    let ghost src = view.spec_source().spec_bytes();
    let ghost keys = cite_keys(src, *first_arg);
    let segments = split_text_on_commas(view.source(), first_arg);
    proof {
        assert forall|j: int| 0 <= j < segments@.len() implies trim_chars((#[trigger] segments@[j])@) == keys[j] by {
            assert(keys[j] == trim_chars(seq_text(src, comma_segments(first_arg.children@)[j])));
        }
    }
    let mut out: Vec<String> = Vec::new();
    let mut i: usize = 0;
    while i < segments.len()
        invariant
            0 <= i <= segments@.len(),
            no_opt_entries(*view),
            view.spec_args().len() == 1,
            *first_arg == view.spec_args()[0],
            src == view.spec_source().spec_bytes(),
            keys == cite_keys(src, *first_arg),
            segments@.len() == keys.len(),
            forall|j: int| 0 <= j < segments@.len() ==> trim_chars((#[trigger] segments@[j])@) == keys[j],
            out@.len() == i,
            forall|j: int| 0 <= j < i ==> (#[trigger] out@[j])@ == keys[j] && keys[j].len() > 0,
        decreases segments@.len() - i,
    {
        let key = str_trim(segments[i].as_str());
        if key.is_empty() {
            assert(keys[i as int].len() == 0);
            return Err(EvalError::InvalidCommandArgument {
                name: to_owned_string("cite"),
                reason: to_owned_string("空の引用キーが含まれています"),
                span: view.span(),
            });
        }
        out.push(to_owned_string(key));
        i = i + 1;
    }
    proof {
        assert forall|j: int| 0 <= j < keys.len() implies (#[trigger] keys[j]).len() > 0 by {
            assert((out@[j])@ == keys[j] && keys[j].len() > 0);
        }
    }
    Ok(out)
}

} // verus!
