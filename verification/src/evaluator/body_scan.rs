//! Scanning an environment body (or an argument) that may hold only certain commands and
//! trivia.

use vstd::prelude::*;
use vstd::string::*;
use crate::evaluator::error::EvalError;
use crate::strs::{str_eq, to_owned_string};
use crate::syntax::green::{
    GreenElement, GreenNode, SyntaxKind, lemma_elem_wf, tokens_of_kind, seq_tokens,
    tokens_wf,
};
use crate::syntax::token::TokenKind;
use crate::syntax::view::CommandView;

verus! {

/// The tokens a strict scan passes over: white space, newlines, paragraph breaks, comments, and
/// the braces that delimit an argument.
pub open spec fn is_skipped_token(k: TokenKind) -> bool {
    k == TokenKind::Whitespace || k == TokenKind::Newline || k == TokenKind::ParagraphBreak
        || k == TokenKind::Comment || k == TokenKind::LBrace || k == TokenKind::RBrace
}

/// The node is a command call with its command token.
pub open spec fn is_command_call(n: GreenNode) -> bool {
    n.kind == SyntaxKind::CommandCall && tokens_of_kind(n.children@, TokenKind::Command).len() > 0
}

/// The name of a command call: the text of its command token after the backslash.
pub open spec fn call_name(src: Seq<u8>, n: GreenNode) -> Seq<char> {
    tokens_of_kind(n.children@, TokenKind::Command)[0].spec_tail(src)
}

/// The kind the first entry of `allowed` named `name` carries, if any.
pub open spec fn allowed_kind<K>(allowed: Seq<(&'static str, K)>, name: Seq<char>) -> Option<K>
    decreases allowed.len(),
{
    if allowed.len() == 0 {
        None
    } else if allowed[0].0@ == name {
        Some(allowed[0].1)
    } else {
        allowed_kind(allowed.drop_first(), name)
    }
}

/// The element may stand in a strictly scanned sequence.
pub open spec fn element_accepted<K>(src: Seq<u8>, e: GreenElement, allowed: Seq<(&'static str, K)>) -> bool {
    match e {
        GreenElement::Token(t) => is_skipped_token(t.kind),
        GreenElement::Node(n) => is_command_call(*n) && allowed_kind(allowed, call_name(src, *n)) is Some,
    }
}

/// The command calls of an accepted sequence with their kinds, in order.
pub open spec fn accepted_calls<K>(src: Seq<u8>, s: Seq<GreenElement>, allowed: Seq<(&'static str, K)>) -> Seq<(K, GreenNode)>
    decreases s.len(),
{
    if s.len() == 0 {
        Seq::empty()
    } else {
        let prev = accepted_calls(src, s.drop_last(), allowed);
        match s.last() {
            GreenElement::Node(n) => prev.push((allowed_kind(allowed, call_name(src, *n))->Some_0, *n)),
            GreenElement::Token(_) => prev,
        }
    }
}

/// `err` is the error for the element `e` that may not stand in the scanned sequence of the
/// environment `env`: a command that is not allowed, or any other content.
pub open spec fn is_scan_error(src: Seq<u8>, e: GreenElement, env: Seq<char>, expected: Seq<char>, err: EvalError) -> bool {
    match e {
        GreenElement::Token(t) => err matches EvalError::UnexpectedContentInEnvironment { env: v, expected: x, span }
            && v@ == env && x@ == expected && span == t.span,
        GreenElement::Node(n) => if is_command_call(*n) {
            err matches EvalError::UnexpectedCommandInEnvironment { env: v, name, expected: x, span }
                && v@ == env && name@ == call_name(src, *n) && x@ == expected && span == n.span
        } else {
            err matches EvalError::UnexpectedContentInEnvironment { env: v, expected: x, span }
                && v@ == env && x@ == expected && span == n.span
        },
    }
}

/// The kind `allowed` gives the name `name` (see [`allowed_kind`]).
fn find_allowed<K: Copy>(allowed: &[(&'static str, K)], name: &str) -> (r: Option<K>)
    ensures
        r == allowed_kind(allowed@, name@),
{
    assert(allowed@.skip(0) =~= allowed@);
    let mut i: usize = 0;
    while i < allowed.len()
        invariant
            0 <= i <= allowed@.len(),
            allowed_kind(allowed@, name@) == allowed_kind(allowed@.skip(i as int), name@),
        decreases allowed@.len() - i,
    {
        proof {
            assert(allowed@.skip(i as int)[0] == allowed@[i as int]);
            assert(allowed@.skip(i as int).drop_first() =~= allowed@.skip(i + 1));
        }
        if str_eq(allowed[i].0, name) {
            return Some(allowed[i].1);
        }
        i = i + 1;
    }
    None
}

/// Collects the command calls directly among `children`, each with the kind its name has in
/// `allowed`, passing over trivia and argument braces. The first element that is neither
/// gives the error (see [`is_scan_error`]); `expected` says what is allowed.
pub fn strict_command_calls<'a, K: Copy>(
    source: &'a str,
    children: &'a [GreenElement],
    env_name: &str,
    allowed: &[(&'static str, K)],
    expected: &str,
) -> (r: Result<Vec<(K, CommandView<'a>)>, EvalError>)
    requires
        tokens_wf(seq_tokens(children@), source.spec_bytes()),
    ensures
        match r {
            Ok(views) => {
                &&& forall|i: int| 0 <= i < children@.len() ==> element_accepted(source.spec_bytes(), #[trigger] children@[i], allowed@)
                &&& views@.len() == accepted_calls(source.spec_bytes(), children@, allowed@).len()
                &&& forall|i: int| 0 <= i < views@.len() ==> {
                    &&& (#[trigger] views@[i]).0 == accepted_calls(source.spec_bytes(), children@, allowed@)[i].0
                    &&& views@[i].1.spec_node() == accepted_calls(source.spec_bytes(), children@, allowed@)[i].1
                    &&& views@[i].1.spec_source() == source
                    &&& views@[i].1.wf()
                    &&& views@[i].1.spec_name() == call_name(source.spec_bytes(), views@[i].1.spec_node())
                }
            },
            Err(e) => exists|i: int| 0 <= i < children@.len()
                && (forall|j: int| 0 <= j < i ==> element_accepted(source.spec_bytes(), #[trigger] children@[j], allowed@))
                && !element_accepted(source.spec_bytes(), children@[i], allowed@)
                && is_scan_error(source.spec_bytes(), children@[i], env_name@, expected@, e),
        },
{
    let ghost src = source.spec_bytes();
    let mut views: Vec<(K, CommandView<'a>)> = Vec::new();
    let mut i: usize = 0;
    while i < children.len()
        invariant
            0 <= i <= children@.len(),
            src == source.spec_bytes(),
            tokens_wf(seq_tokens(children@), src),
            forall|j: int| 0 <= j < i ==> element_accepted(src, #[trigger] children@[j], allowed@),
            views@.len() == accepted_calls(src, children@.subrange(0, i as int), allowed@).len(),
            forall|k: int| 0 <= k < views@.len() ==> {
                &&& (#[trigger] views@[k]).0 == accepted_calls(src, children@.subrange(0, i as int), allowed@)[k].0
                &&& views@[k].1.spec_node() == accepted_calls(src, children@.subrange(0, i as int), allowed@)[k].1
                &&& views@[k].1.spec_source() == source
                &&& views@[k].1.wf()
                &&& views@[k].1.spec_name() == call_name(src, views@[k].1.spec_node())
            },
        decreases children@.len() - i,
    {
        proof {
            lemma_elem_wf(children@, i as int, src);
            assert(children@.subrange(0, i + 1).drop_last() =~= children@.subrange(0, i as int));
            assert(children@.subrange(0, i + 1).last() == children@[i as int]);
        }
        match &children[i] {
            GreenElement::Token(token) => {
                match token.kind {
                    TokenKind::Whitespace | TokenKind::Newline | TokenKind::ParagraphBreak
                    | TokenKind::Comment | TokenKind::LBrace | TokenKind::RBrace => {},
                    _ => {
                        return Err(EvalError::UnexpectedContentInEnvironment {
                            env: to_owned_string(env_name),
                            expected: to_owned_string(expected),
                            span: token.span,
                        });
                    },
                }
            },
            GreenElement::Node(node) => {
                let is_call = node.kind == SyntaxKind::CommandCall
                    && node.first_token_of_kind(TokenKind::Command).is_some();
                if !is_call {
                    return Err(EvalError::UnexpectedContentInEnvironment {
                        env: to_owned_string(env_name),
                        expected: to_owned_string(expected),
                        span: node.span,
                    });
                }
                let view = CommandView::new(node, source);
                let kind = match find_allowed(allowed, view.name()) {
                    Some(k) => k,
                    None => {
                        return Err(EvalError::UnexpectedCommandInEnvironment {
                            env: to_owned_string(env_name),
                            name: to_owned_string(view.name()),
                            expected: to_owned_string(expected),
                            span: node.span,
                        });
                    },
                };
                views.push((kind, view));
            },
        }
        i = i + 1;
    }
    proof {
        assert(children@.subrange(0, i as int) =~= children@);
    }
    Ok(views)
}

} // verus!
