//! Code as content: the `\code{...}` command and the `code` environment. Both are read raw, so
//! their text is the verbatim text, with no comment, escape, math or group interpreted (a
//! balanced `{}` belongs to the command's text). In the environment, the newline right after
//! `\begin{code}` and the one right before `\end{code}` are there for the source's layout and
//! are dropped; the command keeps its text whole.

use vstd::prelude::*;
use vstd::string::*;
use crate::evaluator::error::{EvalError, is_extra_argument, is_missing_argument};
use crate::evaluator::link::no_opt_entries;
use crate::evaluator::opt_args::{expect_no_environment_opt_args, expect_no_opt_args, spec_format_expected, is_first_key_refused};
use crate::strs::{chars_of, string_push, to_owned_string};
use crate::syntax::green::{nodes_of_kind, SyntaxKind};
use crate::syntax::view::{extract_text_content, key_value_options, seq_text, CommandView, EnvironmentView};

verus! {

/// `s` without one leading newline and one trailing newline, each where present.
pub open spec fn trim_edge_newlines_spec(s: Seq<char>) -> Seq<char> {
    let head = if s.len() > 0 && s[0] == '\n' {
        s.drop_first()
    } else {
        s
    };
    if head.len() > 0 && head.last() == '\n' {
        head.drop_last()
    } else {
        head
    }
}

/// Drops one newline at each edge of `text` (see [`trim_edge_newlines_spec`]): a blank line
/// after the first, or before the last, stays as content.
pub fn trim_edge_newlines(text: &str) -> (r: String)
    ensures
        r@ == trim_edge_newlines_spec(text@),
{
    let cs = chars_of(text);
    let n = cs.len();
    let start: usize = if n > 0 && cs[0] == '\n' {
        1
    } else {
        0
    };
    let end: usize = if n > start && cs[n - 1] == '\n' {
        n - 1
    } else {
        n
    };
    let mut out = String::new();
    let mut i: usize = start;
    while i < end
        invariant
            start <= i <= end <= cs@.len(),
            out@ == cs@.subrange(start as int, i as int),
        decreases end - i,
    {
        string_push(&mut out, cs[i]);
        proof {
            assert(cs@.subrange(start as int, i + 1) =~= cs@.subrange(start as int, i as int).push(cs@[i as int]));
        }
        i = i + 1;
    }
    proof {
        let s = text@;
        let head = if s.len() > 0 && s[0] == '\n' { s.drop_first() } else { s };
        assert(head =~= cs@.subrange(start as int, n as int));
        if head.len() > 0 && head.last() == '\n' {
            assert(head.drop_last() =~= cs@.subrange(start as int, end as int));
        } else {
            assert(head =~= cs@.subrange(start as int, end as int));
        }
    }
    out
}

/// The verbatim text of the body of the viewed environment (empty without a body).
pub open spec fn body_text(view: EnvironmentView) -> Seq<char> {
    let bodies = nodes_of_kind(view.spec_node().children@, SyntaxKind::EnvironmentBody);
    if bodies.len() > 0 {
        seq_text(view.spec_source().spec_bytes(), bodies[0].children@)
    } else {
        Seq::empty()
    }
}

/// The text of a `code` block: no optional argument is accepted (an entry is refused with the
/// error for its first key), and the text is the body's with one newline dropped at each edge.
pub fn code_block_text(view: &EnvironmentView) -> (r: Result<String, EvalError>)
    requires
        view.wf(),
    ensures
        match view.spec_opt_arg() {
            Some(opt) if key_value_options(view.spec_source().spec_bytes(), opt).len() > 0 =>
                r matches Err(EvalError::UnknownOptArgKey { name, key, expected_keys, span })
                    && name@ == view.spec_name()
                    && key@ == key_value_options(view.spec_source().spec_bytes(), opt)[0].0
                    && expected_keys@ == spec_format_expected(Seq::empty()) && span == opt.span,
            _ => r matches Ok(s) && s@ == trim_edge_newlines_spec(body_text(*view)),
        },
{
    expect_no_environment_opt_args(view)?;
    match view.body() {
        Some(body) => {
            let text = extract_text_content(view.source(), body);
            Ok(trim_edge_newlines(text.as_str()))
        },
        None => {
            let empty = String::new();
            proof {
                assert(trim_edge_newlines_spec(Seq::<char>::empty()) =~= Seq::<char>::empty());
            }
            Ok(empty)
        },
    }
}

/// `\code{...}`: the text of its argument, whole. Any optional argument is refused; exactly
/// one mandatory argument is required.
pub fn code_command(view: &CommandView) -> (r: Result<String, EvalError>)
    requires
        view.wf(),
    ensures
        !no_opt_entries(*view) ==> (r matches Err(e) && is_first_key_refused(*view, e)),
        no_opt_entries(*view) && view.spec_args().len() == 0 ==> (r matches Err(e)
            && is_missing_argument(e, "code"@, "コード断片"@, view.spec_node().span)),
        no_opt_entries(*view) && view.spec_args().len() > 1 ==> (r matches Err(e)
            && is_extra_argument(e, "code"@, view.spec_node().span)),
        no_opt_entries(*view) && view.spec_args().len() == 1 ==> (r matches Ok(text)
            && text@ == seq_text(view.spec_source().spec_bytes(), view.spec_args()[0].children@)),
{
    proof {
        reveal_strlit("code");
        reveal_strlit("コード断片");
    }
    match expect_no_opt_args(view) {
        Ok(()) => {},
        Err(e) => return Err(e),
    }
    let first_arg = match view.first_arg() {
        Some(a) => a,
        None => {
            return Err(EvalError::MissingCommandArgument {
                name: to_owned_string("code"),
                expected: to_owned_string("コード断片"),
                span: view.span(),
            });
        },
    };
    if view.args_count() > 1 {
        return Err(EvalError::ExtraCommandArgument { name: to_owned_string("code"), span: view.span() });
    }
    Ok(extract_text_content(view.source(), first_arg))
}

} // verus!
