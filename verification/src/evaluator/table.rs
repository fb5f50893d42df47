//! The optional arguments of the `table` environment: `columns` (the alignment of each
//! column), `widths` (the width of each column), `label` (for `\ref`) and `breakable`
//! (whether a page break may split the table; by default it may).

use vstd::prelude::*;
use vstd::string::*;
use crate::evaluator::error::EvalError;
use crate::evaluator::opt_args::{
    boolean, collect_environment_opt_args, collected, lookup, string, FractionPolicy, FromOptValue, OptArgs,
    OptDecl, OptType,
};
use crate::length::Length;
use crate::strs::{split_words, str_eq, to_owned_string, words};
use crate::syntax::span::Span;
use crate::syntax::view::EnvironmentView;

verus! {

/// The optional arguments of a `table`, each as written.
#[derive(Debug, Clone, PartialEq, Eq)]
pub struct TableOpts {
    /// The raw `columns` value, if given.
    pub columns_spec: Option<String>,
    /// The raw `widths` value, if given.
    pub widths_spec: Option<String>,
    /// The `label` value, if given.
    pub label: Option<String>,
    /// Whether a page break may split the table (`true` unless `breakable=false`).
    pub breakable: bool,
}

/// The keys a `table` accepts, in this order: `columns`, `widths` and `label` (texts) and
/// `breakable` (a truth value).
pub open spec fn table_schema(schema: Seq<OptDecl>) -> bool {
    &&& schema.len() == 4
    &&& schema[0].spec_name() == "columns"@ && schema[0].spec_ty() == OptType::String
    &&& schema[1].spec_name() == "widths"@ && schema[1].spec_ty() == OptType::String
    &&& schema[2].spec_name() == "label"@ && schema[2].spec_ty() == OptType::String
    &&& schema[3].spec_name() == "breakable"@ && schema[3].spec_ty() == OptType::Bool
}

/// The value of type `T` collected under `key`, if any.
pub open spec fn value_of<T: FromOptValue>(args: OptArgs, key: Seq<char>) -> Option<T> {
    match lookup(args.spec_keys(), args.spec_values(), key) {
        Some(v) => T::spec_from_value(v),
        None => None,
    }
}

/// The table options that the collected arguments `args` give.
pub open spec fn table_opts_of(args: OptArgs) -> TableOpts {
    TableOpts {
        columns_spec: value_of::<String>(args, "columns"@),
        widths_spec: value_of::<String>(args, "widths"@),
        label: value_of::<String>(args, "label"@),
        breakable: match value_of::<bool>(args, "breakable"@) {
            Some(b) => b,
            None => true,
        },
    }
}

/// Collects the optional arguments of a `table` against its schema (see [`collected`]) and
/// reads each key back. No key of the schema holds a length or an integer, so the readers are
/// never called and the outcome does not depend on them.
pub fn collect_table_opts<L: Fn(&str) -> Option<Length>, I: Fn(&str, FractionPolicy) -> Option<u32>>(
    view: &EnvironmentView,
    read_length: &L,
    read_int: &I,
) -> (r: Result<TableOpts, EvalError>)
    requires
        view.wf(),
        forall|s: &str| read_length.requires((s,)),
        forall|s: &str, p: FractionPolicy| read_int.requires((s, p)),
    ensures
        exists|schema: Seq<OptDecl>| #[trigger] table_schema(schema) && match r {
            Ok(t) => exists|a: OptArgs| #[trigger] collected(view.spec_source().spec_bytes(), view.spec_name(),
                view.spec_opt_arg(), schema, *read_length, *read_int, Ok(a)) && t == table_opts_of(a),
            Err(e) => collected(view.spec_source().spec_bytes(), view.spec_name(), view.spec_opt_arg(), schema,
                *read_length, *read_int, Err(e)),
        },
{
    let columns = string("columns");
    let widths = string("widths");
    let label = string("label");
    let breakable = boolean("breakable");
    proof {
        reveal_strlit("columns");
        reveal_strlit("widths");
        reveal_strlit("label");
        reveal_strlit("breakable");
    }
    let schema = [columns.decl(), widths.decl(), label.decl(), breakable.decl()];
    assert(table_schema(schema@));
    let opts = collect_environment_opt_args(view, &schema, read_length, read_int)?;
    let t = TableOpts {
        columns_spec: opts.get(columns),
        widths_spec: opts.get(widths),
        label: opts.get(label),
        breakable: match opts.get(breakable) {
            Some(b) => b,
            None => true,
        },
    };
    assert(t == table_opts_of(opts));
    Ok(t)
}

/// The alignment of a table column.
#[derive(Debug, Clone, Copy, PartialEq, Eq, Structural)]
pub enum ColumnAlign {
    /// `left`
    Left,
    /// `center`
    Center,
    /// `right`
    Right,
}

/// The width of a table column; `R` is the type of a ratio of the text width.
#[derive(Debug, Clone, Copy, PartialEq)]
pub enum ColumnWidth<R> {
    /// `auto`: as wide as the content.
    Auto,
    /// `*`: a share of the width left over.
    Flex,
    /// A positive length.
    Fixed(Length),
    /// A ratio of the text width, greater than 0 and at most 1.
    Ratio(R),
}

/// The alignment a word of `columns` names, if any.
pub open spec fn spec_column_align(w: Seq<char>) -> Option<ColumnAlign> {
    if w == "left"@ {
        Some(ColumnAlign::Left)
    } else if w == "center"@ {
        Some(ColumnAlign::Center)
    } else if w == "right"@ {
        Some(ColumnAlign::Right)
    } else {
        None
    }
}

/// `e` reports a `columns` value of a `table` at `span` that is not a list of alignments.
pub open spec fn is_invalid_columns(e: EvalError, span: Span) -> bool {
    e matches EvalError::InvalidOptArgValue { name, key, expected, span: s }
        && name@ == "table"@ && key@ == "columns"@ && expected@ == "left / center / right の空白区切り"@ && s == span
}

/// `e` reports a `widths` value of a `table` at `span` that is not a list of widths.
pub open spec fn is_invalid_widths(e: EvalError, span: Span) -> bool {
    e matches EvalError::InvalidOptArgValue { name, key, expected, span: s }
        && name@ == "table"@ && key@ == "widths"@
        && expected@ == "auto / <num>pt / <num>mm / <num>cm / 0〜1 の比率 / * の空白区切り"@ && s == span
}

/// The alignment `t` names, if any.
fn parse_column_align(t: &str) -> (r: Option<ColumnAlign>)
    ensures
        r == spec_column_align(t@),
{
    proof {
        reveal_strlit("left");
        reveal_strlit("center");
        reveal_strlit("right");
    }
    if str_eq(t, "left") {
        Some(ColumnAlign::Left)
    } else if str_eq(t, "center") {
        Some(ColumnAlign::Center)
    } else if str_eq(t, "right") {
        Some(ColumnAlign::Right)
    } else {
        None
    }
}

/// Reads `columns=left center right`: one alignment per white-space separated word, at least
/// one word. Anything else is refused with one error for the whole value.
pub fn parse_columns_spec(spec: &str, view: &EnvironmentView) -> (r: Result<Vec<ColumnAlign>, EvalError>)
    ensures
        match r {
            Ok(v) => {
                &&& words(spec@).len() > 0
                &&& v@.len() == words(spec@).len()
                &&& forall|i: int| 0 <= i < v@.len() ==> spec_column_align(#[trigger] words(spec@)[i]) == Some(v@[i])
            },
            Err(e) => {
                &&& is_invalid_columns(e, view.spec_node().span)
                &&& (words(spec@).len() == 0 || exists|i: int| 0 <= i < words(spec@).len()
                    && #[trigger] spec_column_align(words(spec@)[i]) is None)
            },
        },
{
    let tokens = split_words(spec);
    let ghost ws = words(spec@);
    proof {
        assert(tokens@.len() == ws.len());
        assert(forall|i: int| 0 <= i < tokens@.len() ==> tokens@[i]@ == #[trigger] ws[i]) by {
            assert forall|i: int| 0 <= i < tokens@.len() implies tokens@[i]@ == #[trigger] ws[i] by {
                assert(tokens@.map_values(|w: String| w@)[i] == tokens@[i]@);
            }
        }
    }
    if tokens.len() == 0 {
        return Err(invalid_columns(view));
    }
    let mut aligns: Vec<ColumnAlign> = Vec::new();
    let mut i: usize = 0;
    while i < tokens.len()
        invariant
            0 <= i <= tokens@.len(),
            tokens@.len() == ws.len(),
            ws == words(spec@),
            forall|j: int| 0 <= j < tokens@.len() ==> tokens@[j]@ == #[trigger] ws[j],
            aligns@.len() == i,
            forall|j: int| 0 <= j < i ==> spec_column_align(#[trigger] ws[j]) == Some(aligns@[j]),
        decreases tokens@.len() - i,
    {
        match parse_column_align(tokens[i].as_str()) {
            Some(a) => aligns.push(a),
            None => {
                proof {
                    assert(spec_column_align(ws[i as int]) is None);
                }
                return Err(invalid_columns(view));
            },
        }
        i = i + 1;
    }
    Ok(aligns)
}

/// The error for a `columns` value that is not a list of alignments.
fn invalid_columns(view: &EnvironmentView) -> (e: EvalError)
    ensures
        is_invalid_columns(e, view.spec_node().span),
{
    EvalError::InvalidOptArgValue {
        name: to_owned_string("table"),
        key: to_owned_string("columns"),
        expected: to_owned_string("left / center / right の空白区切り"),
        span: view.span(),
    }
}

/// The error for a `widths` value that is not a list of widths.
fn invalid_widths(view: &EnvironmentView) -> (e: EvalError)
    ensures
        is_invalid_widths(e, view.spec_node().span),
{
    EvalError::InvalidOptArgValue {
        name: to_owned_string("table"),
        key: to_owned_string("widths"),
        expected: to_owned_string("auto / <num>pt / <num>mm / <num>cm / 0〜1 の比率 / * の空白区切り"),
        span: view.span(),
    }
}

/// What a word `t` of `widths` reads as: `auto` and `*` are themselves; a word that
/// `parse_length` reads as a length is that length if it is positive and refused otherwise; any
/// other word is the ratio `read_ratio` gives, if any.
pub open spec fn width_outcome<L: Fn(&str) -> Option<Length>, Q: Fn(&str) -> Option<R>, R>(
    t: &str,
    parse_length: L,
    read_ratio: Q,
    out: Option<ColumnWidth<R>>,
) -> bool {
    if t@ == "auto"@ {
        out == Some(ColumnWidth::<R>::Auto)
    } else if t@ == "*"@ {
        out == Some(ColumnWidth::<R>::Flex)
    } else {
        ||| exists|l: Length| #[trigger] parse_length.ensures((t,), Some(l))
            && out == (if l.spec_sp() > 0 { Some(ColumnWidth::<R>::Fixed(l)) } else { None })
        ||| parse_length.ensures((t,), None) && exists|x: Option<R>| #[trigger] read_ratio.ensures((t,), x)
            && out == match x {
                Some(q) => Some(ColumnWidth::Ratio(q)),
                None => None,
            }
    }
}

/// What the word `w` of `widths` reads as (see [`width_outcome`]).
pub open spec fn width_read<L: Fn(&str) -> Option<Length>, Q: Fn(&str) -> Option<R>, R>(
    w: Seq<char>,
    parse_length: L,
    read_ratio: Q,
    out: Option<ColumnWidth<R>>,
) -> bool {
    exists|t: &str| t@ == w && #[trigger] width_outcome(t, parse_length, read_ratio, out)
}

/// Reads one word of `widths` (see [`width_outcome`]).
fn parse_width_token<L: Fn(&str) -> Option<Length>, Q: Fn(&str) -> Option<R>, R>(
    t: &str,
    parse_length: &L,
    read_ratio: &Q,
) -> (r: Option<ColumnWidth<R>>)
    requires
        forall|s: &str| parse_length.requires((s,)),
        forall|s: &str| read_ratio.requires((s,)),
    ensures
        width_outcome(t, *parse_length, *read_ratio, r),
{
    proof {
        reveal_strlit("auto");
        reveal_strlit("*");
    }
    if str_eq(t, "auto") {
        return Some(ColumnWidth::Auto);
    }
    if str_eq(t, "*") {
        return Some(ColumnWidth::Flex);
    }
    match parse_length(t) {
        Some(l) => {
            if l.is_positive() {
                Some(ColumnWidth::Fixed(l))
            } else {
                None
            }
        },
        None => {
            let x = read_ratio(t);
            match x {
                Some(q) => Some(ColumnWidth::Ratio(q)),
                None => None,
            }
        },
    }
}

/// Reads `widths=auto 5cm 0.3 *`: one width per white-space separated word (see
/// [`width_outcome`]), at least one word. Anything else is refused with one error for the
/// whole value.
pub fn parse_widths_spec<L: Fn(&str) -> Option<Length>, Q: Fn(&str) -> Option<R>, R>(
    spec: &str,
    view: &EnvironmentView,
    parse_length: &L,
    read_ratio: &Q,
) -> (r: Result<Vec<ColumnWidth<R>>, EvalError>)
    requires
        forall|s: &str| parse_length.requires((s,)),
        forall|s: &str| read_ratio.requires((s,)),
    ensures
        match r {
            Ok(v) => {
                &&& words(spec@).len() > 0
                &&& v@.len() == words(spec@).len()
                &&& forall|i: int| 0 <= i < v@.len() ==> #[trigger] width_read(words(spec@)[i], *parse_length, *read_ratio, Some(v@[i]))
            },
            Err(e) => {
                &&& is_invalid_widths(e, view.spec_node().span)
                &&& (words(spec@).len() == 0 || exists|i: int| 0 <= i < words(spec@).len()
                    && #[trigger] width_read(words(spec@)[i], *parse_length, *read_ratio, None))
            },
        },
{
    let tokens = split_words(spec);
    let ghost ws = words(spec@);
    proof {
        assert forall|i: int| 0 <= i < tokens@.len() implies tokens@[i]@ == #[trigger] ws[i] by {
            assert(tokens@.map_values(|w: String| w@)[i] == tokens@[i]@);
        }
    }
    if tokens.len() == 0 {
        return Err(invalid_widths(view));
    }
    let mut widths: Vec<ColumnWidth<R>> = Vec::new();
    let mut i: usize = 0;
    while i < tokens.len()
        invariant
            0 <= i <= tokens@.len(),
            tokens@.len() == ws.len(),
            ws == words(spec@),
            forall|j: int| 0 <= j < tokens@.len() ==> tokens@[j]@ == #[trigger] ws[j],
            forall|s: &str| parse_length.requires((s,)),
            forall|s: &str| read_ratio.requires((s,)),
            widths@.len() == i,
            forall|j: int| 0 <= j < i ==> #[trigger] width_read(ws[j], *parse_length, *read_ratio, Some(widths@[j])),
        decreases tokens@.len() - i,
    {
        let t = tokens[i].as_str();
        match parse_width_token(t, parse_length, read_ratio) {
            Some(w) => {
                widths.push(w);
                proof {
                    assert(width_outcome(t, *parse_length, *read_ratio, Some(widths@[i as int])));
                    assert(width_read(ws[i as int], *parse_length, *read_ratio, Some(widths@[i as int])));
                }
            },
            None => {
                proof {
                    assert(width_outcome(t, *parse_length, *read_ratio, None));
                    assert(width_read(ws[i as int], *parse_length, *read_ratio, None));
                }
                return Err(invalid_widths(view));
            },
        }
        i = i + 1;
    }
    Ok(widths)
}

} // verus!
