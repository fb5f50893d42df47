//! `\url{uri}` and `\href{uri}{text}`: the link target is the text of the first argument with
//! surrounding white space removed.

use vstd::prelude::*;
use vstd::string::*;
use crate::evaluator::error::{EvalError, is_extra_argument, is_missing_argument};
use crate::evaluator::opt_args::{expect_no_opt_args, is_first_key_refused};
use crate::strs::{str_trim, to_owned_string, trim_chars};
use crate::syntax::green::GreenNode;
use crate::syntax::view::{CommandView, extract_text_content, key_value_options, seq_text};

verus! {

/// The link a `\url` makes: its target, which is also the text it shows.
#[derive(Debug, Clone, PartialEq, Eq)]
pub struct UrlLink {
    /// The target.
    pub url: String,
    /// The text shown: the target itself.
    pub text: String,
}

/// The parts of an `\href`: the target and the argument holding the link text.
#[derive(Debug)]
pub struct HrefParts<'a> {
    /// The target.
    pub url: String,
    /// The argument whose inline content is the link text.
    pub display: &'a GreenNode,
}

/// The command takes no optional argument (see [`expect_no_opt_args`]).
pub open spec fn no_opt_entries(view: CommandView) -> bool {
    match view.spec_opt_arg() {
        None => true,
        Some(opt) => key_value_options(view.spec_source().spec_bytes(), opt).len() == 0,
    }
}

/// The target written in the argument `arg`: its text, trimmed.
pub open spec fn link_target(view: CommandView, arg: GreenNode) -> Seq<char> {
    trim_chars(seq_text(view.spec_source().spec_bytes(), arg.children@))
}

/// `\url{uri}`: the target, which is also the link text. Any optional argument is refused;
/// exactly one mandatory argument is required.
pub fn url_command(view: &CommandView) -> (r: Result<UrlLink, EvalError>)
    requires
        view.wf(),
    ensures
        !no_opt_entries(*view) ==> (r matches Err(e) && is_first_key_refused(*view, e)),
        no_opt_entries(*view) && view.spec_args().len() == 0 ==> (r matches Err(e)
            && is_missing_argument(e, "url"@, "URI"@, view.spec_node().span)),
        no_opt_entries(*view) && view.spec_args().len() > 1 ==> (r matches Err(e)
            && is_extra_argument(e, "url"@, view.spec_node().span)),
        no_opt_entries(*view) && view.spec_args().len() == 1 ==> (r matches Ok(link)
            && link.url@ == link_target(*view, view.spec_args()[0]) && link.text@ == link.url@),
{
    proof {
        reveal_strlit("url");
        reveal_strlit("URI");
    }
    match expect_no_opt_args(view) {
        Ok(()) => {},
        Err(e) => return Err(e),
    }
    let first_arg = match view.first_arg() {
        Some(a) => a,
        None => {
            return Err(EvalError::MissingCommandArgument {
                name: to_owned_string("url"),
                expected: to_owned_string("URI"),
                span: view.span(),
            });
        },
    };
    if view.args_count() > 1 {
        return Err(EvalError::ExtraCommandArgument { name: to_owned_string("url"), span: view.span() });
    }
    let text = extract_text_content(view.source(), first_arg);
    let target = str_trim(text.as_str());
    Ok(UrlLink { url: to_owned_string(target), text: to_owned_string(target) })
}

/// `\href{uri}{text}`: the target and the argument holding the link text. Any optional
/// argument is refused; exactly two mandatory arguments are required.
pub fn href_command<'a>(view: &CommandView<'a>) -> (r: Result<HrefParts<'a>, EvalError>)
    requires
        view.wf(),
    ensures
        !no_opt_entries(*view) ==> (r matches Err(e) && is_first_key_refused(*view, e)),
        no_opt_entries(*view) && view.spec_args().len() > 2 ==> (r matches Err(e)
            && is_extra_argument(e, "href"@, view.spec_node().span)),
        no_opt_entries(*view) && view.spec_args().len() < 2 ==> (r matches Err(e)
            && is_missing_argument(e, "href"@, "2 個（リンク先 URI と表示テキスト）"@, view.spec_node().span)),
        no_opt_entries(*view) && view.spec_args().len() == 2 ==> (r matches Ok(parts)
            && parts.url@ == link_target(*view, view.spec_args()[0])
            && *parts.display == view.spec_args()[1]),
{
    proof {
        reveal_strlit("href");
        reveal_strlit("2 個（リンク先 URI と表示テキスト）");
    }
    match expect_no_opt_args(view) {
        Ok(()) => {},
        Err(e) => return Err(e),
    }
    if view.args_count() > 2 {
        return Err(EvalError::ExtraCommandArgument { name: to_owned_string("href"), span: view.span() });
    }
    let args = view.args();
    if args.len() < 2 {
        return Err(EvalError::MissingCommandArgument {
            name: to_owned_string("href"),
            expected: to_owned_string("2 個（リンク先 URI と表示テキスト）"),
            span: view.span(),
        });
    }
    let url_arg = args[0];
    let display_arg = args[1];
    proof {
        assert(*url_arg == args@.unref()[0]);
        assert(*display_arg == args@.unref()[1]);
    }
    let text = extract_text_content(view.source(), url_arg);
    Ok(HrefParts { url: to_owned_string(str_trim(text.as_str())), display: display_arg })
}

} // verus!
