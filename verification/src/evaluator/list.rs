//! Lists: `itemize` and `enumerate`. The environment takes `item_gap` (and, when ordered,
//! `start`) and no mandatory argument; its body holds only `\item{...}` commands and trivia,
//! each item with an optional `marker` and `item_gap` and one mandatory argument, its content.
//! Whether the list is ordered comes from the registry.

use vstd::prelude::*;
use vstd::string::*;
use crate::evaluator::arity::{exactly_one_arg, has_environment_args, is_extra_environment_argument, no_environment_args};
use crate::evaluator::body_scan::{
    accepted_calls, allowed_kind, call_name, element_accepted, is_scan_error, strict_command_calls,
};
use crate::evaluator::error::{EvalError, is_extra_argument, is_missing_argument};
use crate::evaluator::opt_args::{
    collect_command_opt_args, collect_environment_opt_args, collected, length, positive_int, string, FractionPolicy,
    OptArgs, OptDecl, OptType,
};
use crate::evaluator::quote::spec_body;
use crate::evaluator::table::value_of;
use crate::length::Length;
use crate::syntax::green::{nodes_of_kind, GreenElement, GreenNode, SyntaxKind};
use crate::syntax::view::EnvironmentView;

verus! {

/// An item of a list: its marker and gap if given, and the argument holding its content.
#[derive(Debug)]
pub struct ListItemParts<'a> {
    /// The `marker` value, if given.
    pub marker: Option<String>,
    /// The `item_gap` value, if given.
    pub item_gap: Option<Length>,
    /// The argument whose content is the item.
    pub content: &'a GreenNode,
}

/// A list: whether it is ordered, its start and gap if given, and its items in order.
#[derive(Debug)]
pub struct ListParts<'a> {
    /// Whether the list is numbered.
    pub ordered: bool,
    /// The `start` value, if given.
    pub start: Option<u32>,
    /// The `item_gap` value, if given.
    pub item_gap: Option<Length>,
    /// The items.
    pub items: Vec<ListItemParts<'a>>,
}

/// The keys of a list: `start` (an integer of at least 1) and `item_gap` (a length) when it is
/// ordered, `item_gap` alone otherwise.
pub open spec fn list_schema(ordered: bool, schema: Seq<OptDecl>) -> bool {
    if ordered {
        &&& schema.len() == 2
        &&& schema[0].spec_name() == "start"@ && schema[0].spec_ty() == OptType::PositiveInt
        &&& schema[1].spec_name() == "item_gap"@ && schema[1].spec_ty() == OptType::Length
    } else {
        &&& schema.len() == 1
        &&& schema[0].spec_name() == "item_gap"@ && schema[0].spec_ty() == OptType::Length
    }
}

/// The keys of an item: `marker` (a text) and `item_gap` (a length).
pub open spec fn item_schema(schema: Seq<OptDecl>) -> bool {
    &&& schema.len() == 2
    &&& schema[0].spec_name() == "marker"@ && schema[0].spec_ty() == OptType::String
    &&& schema[1].spec_name() == "item_gap"@ && schema[1].spec_ty() == OptType::Length
}

/// The commands a list body may hold.
pub open spec fn item_commands() -> Seq<(&'static str, ())> {
    seq![("item", ())]
}

/// The optional argument of a command call node, if any.
pub open spec fn node_opt_arg(n: GreenNode) -> Option<GreenNode> {
    let opts = nodes_of_kind(n.children@, SyntaxKind::OptArg);
    if opts.len() > 0 {
        Some(opts[0])
    } else {
        None
    }
}

/// The mandatory arguments of a command call node.
pub open spec fn node_args(n: GreenNode) -> Seq<GreenNode> {
    nodes_of_kind(n.children@, SyntaxKind::MandatoryArg)
}

/// The `\item` call `n` reads as `it`.
pub open spec fn item_read<L: Fn(&str) -> Option<Length>, I: Fn(&str, FractionPolicy) -> Option<u32>>(
    src: Seq<u8>,
    n: GreenNode,
    schema: Seq<OptDecl>,
    read_length: L,
    read_int: I,
    it: ListItemParts,
) -> bool {
    exists|a: OptArgs| {
        &&& #[trigger] collected(src, "item"@, node_opt_arg(n), schema, read_length, read_int, Ok(a))
        &&& it.marker == value_of::<String>(a, "marker"@)
        &&& it.item_gap == value_of::<Length>(a, "item_gap"@)
        &&& node_args(n).len() == 1
        &&& *it.content == node_args(n)[0]
    }
}

/// The `\item` call `n` reads as some item.
pub open spec fn item_reads<L: Fn(&str) -> Option<Length>, I: Fn(&str, FractionPolicy) -> Option<u32>>(
    src: Seq<u8>,
    n: GreenNode,
    schema: Seq<OptDecl>,
    read_length: L,
    read_int: I,
) -> bool {
    exists|it: ListItemParts| item_read(src, n, schema, read_length, read_int, it)
}

/// The `\item` call `n` fails with `e`: its optional argument is refused, or it does not have
/// exactly one mandatory argument.
pub open spec fn item_fails<L: Fn(&str) -> Option<Length>, I: Fn(&str, FractionPolicy) -> Option<u32>>(
    src: Seq<u8>,
    n: GreenNode,
    schema: Seq<OptDecl>,
    read_length: L,
    read_int: I,
    e: EvalError,
) -> bool {
    ||| collected(src, "item"@, node_opt_arg(n), schema, read_length, read_int, Err(e))
    ||| exists|a: OptArgs| {
        &&& #[trigger] collected(src, "item"@, node_opt_arg(n), schema, read_length, read_int, Ok(a))
        &&& node_args(n).len() != 1
        &&& node_args(n).len() == 0 ==> is_missing_argument(e, "item"@, "項目の内容"@, n.span)
        &&& node_args(n).len() > 1 ==> is_extra_argument(e, "item"@, n.span)
    }
}

/// The scan of the list body `b` fails with `e` at its first element that is neither trivia
/// nor an `\item` call.
pub open spec fn body_scan_fails(src: Seq<u8>, b: GreenNode, env: Seq<char>, e: EvalError) -> bool {
    exists|i: int| 0 <= i < b.children@.len()
        && (forall|j: int| 0 <= j < i ==> element_accepted(src, #[trigger] b.children@[j], item_commands()))
        && !element_accepted(src, b.children@[i], item_commands())
        && is_scan_error(src, b.children@[i], env, "\\item{...}"@, e)
}

/// The list body `b` is accepted, and its first `\item` that does not read fails with `e`.
pub open spec fn body_item_fails<L: Fn(&str) -> Option<Length>, I: Fn(&str, FractionPolicy) -> Option<u32>>(
    src: Seq<u8>,
    b: GreenNode,
    schema: Seq<OptDecl>,
    read_length: L,
    read_int: I,
    e: EvalError,
) -> bool {
    let calls = accepted_calls(src, b.children@, item_commands());
    &&& forall|i: int| 0 <= i < b.children@.len() ==> element_accepted(src, #[trigger] b.children@[i], item_commands())
    &&& exists|k: int| 0 <= k < calls.len()
        && (forall|j: int| 0 <= j < k ==> #[trigger] item_reads(src, calls[j].1, schema, read_length, read_int))
        && item_fails(src, calls[k].1, schema, read_length, read_int, e)
}

/// Reads one `\item` call.
fn read_item<'a, L: Fn(&str) -> Option<Length>, I: Fn(&str, FractionPolicy) -> Option<u32>>(
    view: &crate::syntax::view::CommandView<'a>,
    schema: &[OptDecl],
    read_length: &L,
    read_int: &I,
) -> (r: Result<ListItemParts<'a>, EvalError>)
    requires
        view.wf(),
        view.spec_name() == "item"@,
        item_schema(schema@),
        forall|s: &str| read_length.requires((s,)),
        forall|s: &str, p: FractionPolicy| read_int.requires((s, p)),
    ensures
        match r {
            Ok(it) => item_read(view.spec_source().spec_bytes(), view.spec_node(), schema@, *read_length, *read_int, it),
            Err(e) => item_fails(view.spec_source().spec_bytes(), view.spec_node(), schema@, *read_length, *read_int, e),
        },
{
    let marker = string("marker");
    let item_gap = length("item_gap");
    proof {
        reveal_strlit("marker");
        reveal_strlit("item_gap");
        reveal_strlit("item");
        reveal_strlit("項目の内容");
    }
    let opts = collect_command_opt_args(view, schema, read_length, read_int)?;
    let marker_value = opts.get(marker);
    let gap_value = opts.get(item_gap);
    let first_arg = exactly_one_arg(view, "項目の内容")?;
    Ok(ListItemParts { marker: marker_value, item_gap: gap_value, content: first_arg })
}

/// The items of an accepted body read as `items`.
pub open spec fn items_read<L: Fn(&str) -> Option<Length>, I: Fn(&str, FractionPolicy) -> Option<u32>>(
    src: Seq<u8>,
    calls: Seq<((), GreenNode)>,
    schema: Seq<OptDecl>,
    read_length: L,
    read_int: I,
    items: Seq<ListItemParts>,
) -> bool {
    &&& items.len() == calls.len()
    &&& forall|k: int| 0 <= k < calls.len() ==> item_read(src, calls[k].1, schema, read_length, read_int, #[trigger] items[k])
}

/// A list (ordered or not): the environment's optional argument is collected first (see
/// [`collected`]), then a mandatory argument is refused, then the body is scanned for
/// `\item` calls (see [`strict_command_calls`]), then each item is read in order; the first
/// failure is the error.
pub fn list<'a, L: Fn(&str) -> Option<Length>, I: Fn(&str, FractionPolicy) -> Option<u32>>(
    view: &EnvironmentView<'a>,
    ordered: bool,
    read_length: &L,
    read_int: &I,
) -> (r: Result<ListParts<'a>, EvalError>)
    requires
        view.wf(),
        forall|s: &str| read_length.requires((s,)),
        forall|s: &str, p: FractionPolicy| read_int.requires((s, p)),
    ensures
        exists|schema: Seq<OptDecl>, ischema: Seq<OptDecl>| #[trigger] list_schema(ordered, schema) && #[trigger] item_schema(ischema) && {
            let src = view.spec_source().spec_bytes();
            match r {
                Ok(lp) => exists|a: OptArgs| {
                    &&& #[trigger] collected(src, view.spec_name(), view.spec_opt_arg(), schema, *read_length, *read_int, Ok(a))
                    &&& !has_environment_args(*view)
                    &&& lp.ordered == ordered
                    &&& lp.start == value_of::<u32>(a, "start"@)
                    &&& lp.item_gap == value_of::<Length>(a, "item_gap"@)
                    &&& match spec_body(*view) {
                        None => lp.items@.len() == 0,
                        Some(b) => {
                            &&& forall|i: int| 0 <= i < b.children@.len() ==> element_accepted(src, #[trigger] b.children@[i], item_commands())
                            &&& items_read(src, accepted_calls(src, b.children@, item_commands()), ischema, *read_length, *read_int, lp.items@)
                        },
                    }
                },
                Err(e) => {
                    ||| collected(src, view.spec_name(), view.spec_opt_arg(), schema, *read_length, *read_int, Err(e))
                    ||| exists|a: OptArgs| {
                        &&& #[trigger] collected(src, view.spec_name(), view.spec_opt_arg(), schema, *read_length, *read_int, Ok(a))
                        &&& {
                            ||| (has_environment_args(*view) && is_extra_environment_argument(e, view.spec_name(), view.spec_node().span))
                            ||| (!has_environment_args(*view) && match spec_body(*view) {
                                Some(b) => body_scan_fails(src, b, view.spec_name(), e)
                                    || body_item_fails(src, b, ischema, *read_length, *read_int, e),
                                None => false,
                            })
                        }
                    }
                },
            }
        },
{
    let start = positive_int("start");
    let item_gap = length("item_gap");
    let marker = string("marker");
    proof {
        reveal_strlit("start");
        reveal_strlit("item_gap");
        reveal_strlit("marker");
        reveal_strlit("item");
        reveal_strlit("\\item{...}");
    }
    let ordered_schema = [start.decl(), item_gap.decl()];
    let unordered_schema = [item_gap.decl()];
    let schema: &[OptDecl] = if ordered {
        &ordered_schema
    } else {
        &unordered_schema
    };
    assert(list_schema(ordered, schema@));
    let item_schema_value = [marker.decl(), item_gap.decl()];
    assert(item_schema(item_schema_value@));
    let ghost src = view.spec_source().spec_bytes();
    let opts = collect_environment_opt_args(view, schema, read_length, read_int)?;
    let item_gap_value = opts.get(item_gap);
    let start_value = opts.get(start);
    no_environment_args(view)?;
    let mut items: Vec<ListItemParts<'a>> = Vec::new();
    match view.body() {
        None => {},
        Some(body) => {
            let allowed = [("item", ())];
            assert(allowed@ =~= item_commands());
            let calls = strict_command_calls(view.source(), body.children.as_slice(), view.name(), &allowed, "\\item{...}")?;
            let ghost all_calls = accepted_calls(src, body.children@, item_commands());
            let mut k: usize = 0;
            while k < calls.len()
                invariant
                    0 <= k <= calls@.len(),
                    calls@.len() == all_calls.len(),
                    all_calls == accepted_calls(src, body.children@, item_commands()),
                    src == view.spec_source().spec_bytes(),
                    item_schema(item_schema_value@),
                    list_schema(ordered, schema@),
                    collected(src, view.spec_name(), view.spec_opt_arg(), schema@, *read_length, *read_int, Ok(opts)),
                    !has_environment_args(*view),
                    spec_body(*view) == Some(*body),
                    forall|s: &str| read_length.requires((s,)),
                    forall|s: &str, p: FractionPolicy| read_int.requires((s, p)),
                    forall|i: int| 0 <= i < calls@.len() ==> {
                        &&& (#[trigger] calls@[i]).1.spec_node() == all_calls[i].1
                        &&& calls@[i].1.spec_source() == view.spec_source()
                        &&& calls@[i].1.wf()
                        &&& calls@[i].1.spec_name() == call_name(src, calls@[i].1.spec_node())
                    },
                    forall|i: int| 0 <= i < body.children@.len() ==> element_accepted(src, #[trigger] body.children@[i], item_commands()),
                    items@.len() == k,
                    forall|j: int| 0 <= j < k ==> item_read(src, all_calls[j].1, item_schema_value@, *read_length, *read_int, #[trigger] items@[j]),
                decreases calls@.len() - k,
            {
                proof {
                    lemma_item_call_name(src, body.children@, k as int);
                }
                let item = read_item(&calls[k].1, &item_schema_value, read_length, read_int);
                match item {
                    Ok(it) => {
                        items.push(it);
                    },
                    Err(e) => {
                        proof {
                            assert forall|j: int| 0 <= j < k implies #[trigger] item_reads(src,
                                all_calls[j].1, item_schema_value@, *read_length, *read_int) by {
                                assert(item_read(src, all_calls[j].1, item_schema_value@, *read_length, *read_int, items@[j]));
                            }
                            assert(item_fails(src, all_calls[k as int].1, item_schema_value@, *read_length, *read_int, e));
                            assert(body_item_fails(src, *body, item_schema_value@, *read_length, *read_int, e));
                        }
                        return Err(e);
                    },
                }
                k = k + 1;
            }
        },
    }
    Ok(ListParts { ordered, start: start_value, item_gap: item_gap_value, items })
}

/// Every call an accepted list body holds is an `\item`.
proof fn lemma_item_call_name(src: Seq<u8>, children: Seq<GreenElement>, k: int)
    requires
        forall|i: int| 0 <= i < children.len() ==> element_accepted(src, #[trigger] children[i], item_commands()),
        0 <= k < accepted_calls(src, children, item_commands()).len(),
    ensures
        call_name(src, accepted_calls(src, children, item_commands())[k].1) == "item"@,
    decreases children.len(),
{
    let rest = children.drop_last();
    let prev = accepted_calls(src, rest, item_commands());
    assert forall|i: int| 0 <= i < rest.len() implies element_accepted(src, #[trigger] rest[i], item_commands()) by {
        assert(rest[i] == children[i]);
    }
    if k < prev.len() {
        lemma_item_call_name(src, rest, k);
        match children.last() {
            GreenElement::Node(n) => {
                assert(accepted_calls(src, children, item_commands())[k] == prev[k]);
            },
            GreenElement::Token(_) => {},
        }
    } else {
        assert(element_accepted(src, children[children.len() - 1], item_commands()));
        match children.last() {
            GreenElement::Node(n) => {
                let name = call_name(src, *n);
                assert(allowed_kind(item_commands(), name) is Some);
                assert(item_commands().drop_first().len() == 0);
                assert(allowed_kind(item_commands().drop_first(), name) is None);
                assert(item_commands()[0].0@ == name);
            },
            GreenElement::Token(_) => {},
        }
    }
}

} // verus!
