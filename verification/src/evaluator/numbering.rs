//! Which rows of a multi-line math environment (`align`, `gather`, `split`, `multiline`)
//! receive an equation number, and which labels they carry. No number is issued here: the
//! rows and the environment are only marked as numbered or not.
//!
//! A grid row carries its cells (of any type `C`), whether they are all blank, and the
//! markers `\notag` and `\label{...}` found at its end.

use vstd::prelude::*;
use vstd::string::*;
use crate::evaluator::arity::{has_environment_args, is_extra_environment_argument, no_environment_args};
use crate::evaluator::context::NodeId;
use crate::evaluator::environment::{GridLayout, NumberingMode};
use crate::evaluator::error::EvalError;
use crate::evaluator::opt_args::{
    boolean, collect_environment_opt_args, collected, string, FractionPolicy, OptArgs, OptDecl, OptType,
};
use crate::evaluator::table::value_of;
use crate::length::Length;
use crate::strs::to_owned_string;
use crate::syntax::span::Span;
use crate::syntax::view::EnvironmentView;

verus! {

/// A label given to a row by `\label{...}` at its end.
#[derive(Debug, Clone, PartialEq, Eq)]
pub struct RowLabel {
    /// The label.
    pub name: String,
    /// Where the `\label{...}` stands.
    pub span: Span,
}

/// One row of a math grid, as the grid was split.
#[derive(Debug)]
pub struct GridRow<C> {
    /// The node id of the row.
    pub id: NodeId,
    /// The cells, in order.
    pub cells: Vec<C>,
    /// Whether every cell is blank.
    pub blank: bool,
    /// Where a `\notag` at the end of the row stands, if any.
    pub notag_span: Option<Span>,
    /// The label given at the end of the row, if any.
    pub label: Option<RowLabel>,
}

/// A row of a math block, marked as numbered or not.
#[derive(Debug)]
pub struct MathRow<C> {
    /// The node id of the row.
    pub id: NodeId,
    /// The cells, in order.
    pub cells: Vec<C>,
    /// Whether the row receives a number.
    pub numbered: bool,
    /// The label of the row, if any (only on a numbered row).
    pub label: Option<RowLabel>,
}

/// A multi-line math block: its layout, its rows, whether the whole block receives a number,
/// and its label.
#[derive(Debug)]
pub struct MathBlockParts<C> {
    /// How the cells are laid out.
    pub layout: GridLayout,
    /// The rows, in order.
    pub rows: Vec<MathRow<C>>,
    /// Whether the block as a whole receives a number.
    pub numbered: bool,
    /// The label of the block, if any (only on a numbered block).
    pub label: Option<String>,
}

/// The keys of a math environment: `label` (a text) and `numbered` (a truth value) when the
/// environment is numbered as a whole, `numbered` alone when each row is.
pub open spec fn math_env_schema(mode: NumberingMode, schema: Seq<OptDecl>) -> bool {
    match mode {
        NumberingMode::SingleEnv => {
            &&& schema.len() == 2
            &&& schema[0].spec_name() == "label"@ && schema[0].spec_ty() == OptType::String
            &&& schema[1].spec_name() == "numbered"@ && schema[1].spec_ty() == OptType::Bool
        },
        NumberingMode::PerRow => {
            &&& schema.len() == 1
            &&& schema[0].spec_name() == "numbered"@ && schema[0].spec_ty() == OptType::Bool
        },
    }
}

/// Whether the collected arguments `a` leave the environment numbered (it is unless
/// `numbered=false`).
pub open spec fn numbered_of(a: OptArgs) -> bool {
    match value_of::<bool>(a, "numbered"@) {
        Some(b) => b,
        None => true,
    }
}

/// `e` reports a label of `name` at `span` on something that receives no number.
pub open spec fn is_label_requires_numbering(e: EvalError, name: Seq<char>, span: Span) -> bool {
    e matches EvalError::LabelRequiresNumbering { name: n, span: s } && n@ == name && s == span
}

/// Reads the optional argument of a math environment: the optional argument is collected
/// first (see [`collected`]), then a mandatory argument is refused, then a label on an
/// unnumbered environment is refused. Gives whether the environment is numbered and its label.
pub fn parse_math_env_opts<L: Fn(&str) -> Option<Length>, I: Fn(&str, FractionPolicy) -> Option<u32>>(
    view: &EnvironmentView,
    mode: NumberingMode,
    read_length: &L,
    read_int: &I,
) -> (r: Result<(bool, Option<String>), EvalError>)
    requires
        view.wf(),
        forall|s: &str| read_length.requires((s,)),
        forall|s: &str, p: FractionPolicy| read_int.requires((s, p)),
    ensures
        exists|schema: Seq<OptDecl>| #[trigger] math_env_schema(mode, schema) && {
            let src = view.spec_source().spec_bytes();
            match r {
                Ok((numbered, label)) => exists|a: OptArgs| {
                    &&& #[trigger] collected(src, view.spec_name(), view.spec_opt_arg(), schema, *read_length, *read_int, Ok(a))
                    &&& !has_environment_args(*view)
                    &&& numbered == numbered_of(a)
                    &&& label == value_of::<String>(a, "label"@)
                    &&& (numbered || label is None)
                },
                Err(e) => {
                    ||| collected(src, view.spec_name(), view.spec_opt_arg(), schema, *read_length, *read_int, Err(e))
                    ||| exists|a: OptArgs| {
                        &&& #[trigger] collected(src, view.spec_name(), view.spec_opt_arg(), schema, *read_length, *read_int, Ok(a))
                        &&& {
                            ||| (has_environment_args(*view) && is_extra_environment_argument(e, view.spec_name(), view.spec_node().span))
                            ||| {
                                &&& !has_environment_args(*view)
                                &&& !numbered_of(a)
                                &&& value_of::<String>(a, "label"@) is Some
                                &&& is_label_requires_numbering(e, view.spec_name(), view.spec_node().span)
                            }
                        }
                    }
                },
            }
        },
{
    let label = string("label");
    let numbered = boolean("numbered");
    proof {
        reveal_strlit("label");
        reveal_strlit("numbered");
    }
    let single_schema = [label.decl(), numbered.decl()];
    let per_row_schema = [numbered.decl()];
    let schema: &[OptDecl] = match mode {
        NumberingMode::SingleEnv => &single_schema,
        NumberingMode::PerRow => &per_row_schema,
    };
    assert(math_env_schema(mode, schema@));
    let opts = collect_environment_opt_args(view, schema, read_length, read_int)?;
    let numbered_value = match opts.get(numbered) {
        Some(b) => b,
        None => true,
    };
    let env_label = opts.get(label);
    no_environment_args(view)?;
    if !numbered_value && env_label.is_some() {
        return Err(EvalError::LabelRequiresNumbering { name: to_owned_string(view.name()), span: view.span() });
    }
    Ok((numbered_value, env_label))
}

/// Trimming the trailing blank rows of `rows`: the length left, and the error when a trailing
/// blank row still carries a marker (`\notag` first, then `\label`), which then stands
/// nowhere near the end of a row.
pub open spec fn trim_outcome<C>(rows: Seq<GridRow<C>>) -> (nat, Option<EvalError>)
    decreases rows.len(),
{
    if rows.len() == 0 {
        (0, None)
    } else if !rows.last().blank {
        (rows.len(), None)
    } else {
        match rows.last().notag_span {
            Some(s) => (rows.len(), Some(EvalError::NotagNotAtRowEnd { span: s })),
            None => match rows.last().label {
                Some(l) => (rows.len(), Some(EvalError::RowLabelNotAtRowEnd { span: l.span })),
                None => trim_outcome(rows.drop_last()),
            },
        }
    }
}

/// The number of rows of `rows` left once its trailing blank rows are dropped.
pub open spec fn blank_trimmed_len<C>(rows: Seq<GridRow<C>>) -> nat
    decreases rows.len(),
{
    if rows.len() > 0 && rows.last().blank {
        blank_trimmed_len(rows.drop_last())
    } else {
        rows.len()
    }
}

/// Drops the trailing blank rows of a grid (those a trailing `\\` leaves), refusing one that
/// still carries a marker (see [`trim_outcome`]).
pub fn trim_trailing_blank_marker_rows<C>(grid: &mut Vec<GridRow<C>>) -> (r: Result<(), EvalError>)
    ensures
        final(grid)@ == old(grid)@.take(trim_outcome(old(grid)@).0 as int),
        r == match trim_outcome(old(grid)@).1 {
            Some(e) => Err::<(), EvalError>(e),
            None => Ok(()),
        },
{
    let ghost orig = grid@;
    while grid.len() > 0
        invariant
            orig == old(grid)@,
            grid@.len() <= orig.len(),
            grid@ == orig.take(grid@.len() as int),
            trim_outcome(grid@) == trim_outcome(orig),
        decreases grid@.len(),
    {
        let last = grid.len() - 1;
        if !grid[last].blank {
            return Ok(());
        }
        match grid[last].notag_span {
            Some(span) => {
                return Err(EvalError::NotagNotAtRowEnd { span });
            },
            None => {},
        }
        match &grid[last].label {
            Some(label) => {
                return Err(EvalError::RowLabelNotAtRowEnd { span: label.span });
            },
            None => {},
        }
        let ghost before = grid@;
        let _ = grid.pop();
        proof {
            assert(grid@ =~= orig.take(grid@.len() as int));
            assert(grid@ == before.drop_last());
        }
    }
    proof {
        assert(orig.take(0) =~= grid@);
    }
    Ok(())
}

/// Whether a row receives a number when each row is numbered: when the environment is, unless
/// the row carries `\notag`.
pub open spec fn row_numbered<C>(row: GridRow<C>, numbered: bool) -> bool {
    numbered && row.notag_span is None
}

/// A row as numbering each row leaves it: numbered as [`row_numbered`] says, with its label.
pub open spec fn numbered_row<C>(row: GridRow<C>, numbered: bool) -> MathRow<C> {
    MathRow { id: row.id, cells: row.cells, numbered: row_numbered(row, numbered), label: row.label }
}

/// A row of an environment numbered as a whole, or not numbered at all: no number, no label.
pub open spec fn unnumbered_row<C>(row: GridRow<C>) -> MathRow<C> {
    MathRow { id: row.id, cells: row.cells, numbered: false, label: None }
}

/// The row carries a label but receives no number.
pub open spec fn label_misplaced<C>(row: GridRow<C>, numbered: bool) -> bool {
    row.label is Some && !row_numbered(row, numbered)
}

/// Where the first label of `rows` on a row that receives no number stands, if any.
pub open spec fn first_misplaced_label<C>(rows: Seq<GridRow<C>>, numbered: bool) -> Option<Span>
    decreases rows.len(),
{
    if rows.len() == 0 {
        None
    } else if label_misplaced(rows[0], numbered) {
        Some(rows[0].label->Some_0.span)
    } else {
        first_misplaced_label(rows.drop_first(), numbered)
    }
}

/// Where the first `\notag` of `rows` stands, if any.
pub open spec fn first_notag<C>(rows: Seq<GridRow<C>>) -> Option<Span>
    decreases rows.len(),
{
    if rows.len() == 0 {
        None
    } else if rows[0].notag_span is Some {
        rows[0].notag_span
    } else {
        first_notag(rows.drop_first())
    }
}

/// Numbering the rows `rows` of the environment `name` gives `out`: the rows and whether the
/// environment as a whole receives a number. Numbered per row, each row is numbered as
/// [`row_numbered`] says and the environment is not, and the first label on an unnumbered row
/// is refused; numbered as a whole, no row is, and the environment is when it is numbered and
/// has a row.
pub open spec fn numbering_outcome<C>(
    rows: Seq<GridRow<C>>,
    mode: NumberingMode,
    numbered: bool,
    name: Seq<char>,
    out: Result<(Seq<MathRow<C>>, bool), EvalError>,
) -> bool {
    match mode {
        NumberingMode::PerRow => match first_misplaced_label(rows, numbered) {
            Some(s) => out matches Err(e) && is_label_requires_numbering(e, name, s),
            None => out == Ok::<(Seq<MathRow<C>>, bool), EvalError>(
                (rows.map_values(|g: GridRow<C>| numbered_row(g, numbered)), false),
            ),
        },
        NumberingMode::SingleEnv => out == Ok::<(Seq<MathRow<C>>, bool), EvalError>(
            (rows.map_values(|g: GridRow<C>| unnumbered_row(g)), numbered && rows.len() > 0),
        ),
    }
}

/// When no row before `i` has a misplaced label, the first misplaced label is at or after `i`.
proof fn lemma_first_misplaced_from<C>(rows: Seq<GridRow<C>>, numbered: bool, i: int)
    requires
        0 <= i <= rows.len(),
        forall|j: int| 0 <= j < i ==> !label_misplaced(#[trigger] rows[j], numbered),
    ensures
        first_misplaced_label(rows, numbered) == first_misplaced_label(rows.skip(i), numbered),
    decreases i,
{
    if i > 0 {
        let rest = rows.drop_first();
        assert forall|j: int| 0 <= j < i - 1 implies !label_misplaced(#[trigger] rest[j], numbered) by {
            assert(rest[j] == rows[j + 1]);
        }
        lemma_first_misplaced_from(rest, numbered, i - 1);
        assert(rest.skip(i - 1) =~= rows.skip(i));
        assert(!label_misplaced(rows[0], numbered));
    } else {
        assert(rows.skip(0) =~= rows);
    }
}

/// When no row before `i` carries `\notag`, the first `\notag` is at or after `i`.
proof fn lemma_first_notag_from<C>(rows: Seq<GridRow<C>>, i: int)
    requires
        0 <= i <= rows.len(),
        forall|j: int| 0 <= j < i ==> (#[trigger] rows[j]).notag_span is None,
    ensures
        first_notag(rows) == first_notag(rows.skip(i)),
    decreases i,
{
    if i > 0 {
        let rest = rows.drop_first();
        assert forall|j: int| 0 <= j < i - 1 implies (#[trigger] rest[j]).notag_span is None by {
            assert(rest[j] == rows[j + 1]);
        }
        lemma_first_notag_from(rest, i - 1);
        assert(rest.skip(i - 1) =~= rows.skip(i));
        assert(rows[0].notag_span is None);
    } else {
        assert(rows.skip(0) =~= rows);
    }
}

/// The rows of `grid`, in reverse order.
fn reversed<C>(grid: Vec<GridRow<C>>) -> (rev: Vec<GridRow<C>>)
    ensures
        rev@.len() == grid@.len(),
        forall|k: int| 0 <= k < rev@.len() ==> #[trigger] rev@[k] == grid@[grid@.len() - 1 - k],
{
    let ghost orig = grid@;
    let mut rest = grid;
    let mut rev: Vec<GridRow<C>> = Vec::new();
    while rest.len() > 0
        invariant
            rest@.len() + rev@.len() == orig.len(),
            rest@ == orig.take(rest@.len() as int),
            forall|k: int| 0 <= k < rev@.len() ==> #[trigger] rev@[k] == orig[orig.len() - 1 - k],
        decreases rest@.len(),
    {
        let ghost before = rest@;
        match rest.pop() {
            Some(row) => {
                rev.push(row);
                proof {
                    assert(rest@ =~= orig.take(rest@.len() as int));
                    assert(row == orig[rest@.len() as int]);
                }
            },
            None => {},
        }
    }
    rev
}

/// Marks the rows of a grid as numbered or not (see [`numbering_outcome`]).
pub fn assign_numbering<C>(
    grid: Vec<GridRow<C>>,
    mode: NumberingMode,
    numbered: bool,
    view: &EnvironmentView,
) -> (r: Result<(Vec<MathRow<C>>, bool), EvalError>)
    ensures
        numbering_outcome(grid@, mode, numbered, view.spec_name(), match r {
            Ok((rows, env_numbered)) => Ok((rows@, env_numbered)),
            Err(e) => Err(e),
        }),
{
    let ghost orig = grid@;
    let n = grid.len();
    let mut rev = reversed(grid);
    let mut out: Vec<MathRow<C>> = Vec::new();
    while rev.len() > 0
        invariant
            orig == grid@,
            n == orig.len(),
            out@.len() + rev@.len() == n,
            forall|k: int| 0 <= k < rev@.len() ==> #[trigger] rev@[k] == orig[n - 1 - k],
            mode == NumberingMode::PerRow ==> forall|j: int| 0 <= j < out@.len() ==> {
                &&& #[trigger] out@[j] == numbered_row(orig[j], numbered)
                &&& !label_misplaced(orig[j], numbered)
            },
            mode == NumberingMode::SingleEnv ==> forall|j: int| 0 <= j < out@.len() ==>
                #[trigger] out@[j] == unnumbered_row(orig[j]),
        decreases rev@.len(),
    {
        let ghost i = out@.len() as int;
        let ghost last = rev@.len() - 1;
        proof {
            assert(rev@[last] == orig[i]);
        }
        let row = rev.pop().unwrap();
        let GridRow { id, cells, blank: _, notag_span, label } = row;
        match mode {
            NumberingMode::PerRow => {
                let row_is_numbered = numbered && notag_span.is_none();
                match label {
                    Some(l) => {
                        if !row_is_numbered {
                            proof {
                                assert forall|j: int| 0 <= j < i implies !label_misplaced(#[trigger] orig[j], numbered) by {
                                    assert(out@[j] == numbered_row(orig[j], numbered));
                                }
                                lemma_first_misplaced_from(orig, numbered, i);
                                assert(orig.skip(i)[0] == orig[i]);
                                assert(label_misplaced(orig[i], numbered));
                                assert(first_misplaced_label(orig.skip(i), numbered) == Some(l.span));
                            }
                            return Err(EvalError::LabelRequiresNumbering {
                                name: to_owned_string(view.name()),
                                span: l.span,
                            });
                        }
                        out.push(MathRow { id, cells, numbered: row_is_numbered, label: Some(l) });
                    },
                    None => {
                        out.push(MathRow { id, cells, numbered: row_is_numbered, label: None });
                    },
                }
            },
            NumberingMode::SingleEnv => {
                out.push(MathRow { id, cells, numbered: false, label: None });
            },
        }
        proof {
            assert(out@[i] == match mode {
                NumberingMode::PerRow => numbered_row(orig[i], numbered),
                NumberingMode::SingleEnv => unnumbered_row(orig[i]),
            });
        }
    }
    proof {
        if mode == NumberingMode::PerRow {
            assert forall|j: int| 0 <= j < n implies !label_misplaced(#[trigger] orig[j], numbered) by {
                assert(out@[j] == numbered_row(orig[j], numbered));
            }
            lemma_first_misplaced_from(orig, numbered, n as int);
            assert(orig.skip(n as int) =~= Seq::<GridRow<C>>::empty());
            assert(out@ =~= orig.map_values(|g: GridRow<C>| numbered_row(g, numbered)));
        } else {
            assert(out@ =~= orig.map_values(|g: GridRow<C>| unnumbered_row(g)));
        }
    }
    let env_numbered = match mode {
        NumberingMode::PerRow => false,
        NumberingMode::SingleEnv => numbered && n > 0,
    };
    Ok((out, env_numbered))
}

/// The rows of an environment that is never numbered (`cases`, `matrix`): its trailing blank
/// rows are dropped, markers or not, and no row is numbered or labelled.
pub fn into_unnumbered_rows<C>(grid: Vec<GridRow<C>>) -> (rows: Vec<MathRow<C>>)
    ensures
        rows@ == grid@.take(blank_trimmed_len(grid@) as int).map_values(|g: GridRow<C>| unnumbered_row(g)),
{
    let ghost orig = grid@;
    let mut rest = grid;
    while rest.len() > 0 && rest[rest.len() - 1].blank
        invariant
            rest@.len() <= orig.len(),
            rest@ == orig.take(rest@.len() as int),
            blank_trimmed_len(rest@) == blank_trimmed_len(orig),
        decreases rest@.len(),
    {
        let ghost before = rest@;
        let _ = rest.pop();
        proof {
            assert(rest@ =~= orig.take(rest@.len() as int));
            assert(rest@ == before.drop_last());
        }
    }
    proof {
        assert(blank_trimmed_len(rest@) == rest@.len());
    }
    let kept = rest;
    let numbered_rows = assign_numbering_unnumbered(kept);
    numbered_rows
}

/// Every row of `grid`, unnumbered and unlabelled, in order.
fn assign_numbering_unnumbered<C>(grid: Vec<GridRow<C>>) -> (rows: Vec<MathRow<C>>)
    ensures
        rows@ == grid@.map_values(|g: GridRow<C>| unnumbered_row(g)),
{
    let ghost orig = grid@;
    let n = grid.len();
    let mut rev = reversed(grid);
    let mut out: Vec<MathRow<C>> = Vec::new();
    while rev.len() > 0
        invariant
            n == orig.len(),
            out@.len() + rev@.len() == n,
            forall|k: int| 0 <= k < rev@.len() ==> #[trigger] rev@[k] == orig[n - 1 - k],
            forall|j: int| 0 <= j < out@.len() ==> #[trigger] out@[j] == unnumbered_row(orig[j]),
        decreases rev@.len(),
    {
        let ghost i = out@.len() as int;
        proof {
            assert(rev@[rev@.len() - 1] == orig[i]);
        }
        match rev.pop() {
            Some(row) => {
                let GridRow { id, cells, blank: _, notag_span: _, label: _ } = row;
                out.push(MathRow { id, cells, numbered: false, label: None });
            },
            None => {},
        }
    }
    proof {
        assert(out@ =~= orig.map_values(|g: GridRow<C>| unnumbered_row(g)));
    }
    out
}

/// What becomes of the grid `grid` of the environment `name` numbered (or not) as `numbered`
/// and labelled `env_label`: its trailing blank rows are trimmed (see [`trim_outcome`]); then a
/// `\notag` in an unnumbered environment is refused; then the rows are numbered (see
/// [`numbering_outcome`]); the block keeps its label only when it receives a number.
pub open spec fn math_block_outcome<C>(
    grid: Seq<GridRow<C>>,
    layout: GridLayout,
    mode: NumberingMode,
    numbered: bool,
    env_label: Option<String>,
    name: Seq<char>,
    r: Result<MathBlockParts<C>, EvalError>,
) -> bool {
    match trim_outcome(grid).1 {
        Some(e) => r == Err::<MathBlockParts<C>, EvalError>(e),
        None => {
            let kept = grid.take(trim_outcome(grid).0 as int);
            if !numbered && first_notag(kept) is Some {
                r == Err::<MathBlockParts<C>, EvalError>(
                    EvalError::NotagWithUnnumberedEnv { span: first_notag(kept)->Some_0 },
                )
            } else {
                match r {
                    Ok(b) => {
                        &&& numbering_outcome(kept, mode, numbered, name, Ok((b.rows@, b.numbered)))
                        &&& b.layout == layout
                        &&& b.label == (if b.numbered { env_label } else { None })
                    },
                    Err(e) => numbering_outcome(kept, mode, numbered, name, Err(e)),
                }
            }
        },
    }
}

/// Finishes a multi-line math environment from its options (see [`parse_math_env_opts`]) and
/// its grid (see [`math_block_outcome`]).
pub fn number_math_grid<C>(
    view: &EnvironmentView,
    layout: GridLayout,
    mode: NumberingMode,
    numbered: bool,
    env_label: Option<String>,
    grid: Vec<GridRow<C>>,
) -> (r: Result<MathBlockParts<C>, EvalError>)
    ensures
        math_block_outcome(grid@, layout, mode, numbered, env_label, view.spec_name(), r),
{
    let mut grid = grid;
    trim_trailing_blank_marker_rows(&mut grid)?;
    if !numbered {
        match find_notag(&grid) {
            Some(span) => {
                return Err(EvalError::NotagWithUnnumberedEnv { span });
            },
            None => {},
        }
    }
    let (rows, env_numbered) = assign_numbering(grid, mode, numbered, view)?;
    let label = if env_numbered {
        env_label
    } else {
        None
    };
    Ok(MathBlockParts { layout, rows, numbered: env_numbered, label })
}

/// Where the first `\notag` of `rows` stands (see [`first_notag`]).
fn find_notag<C>(rows: &Vec<GridRow<C>>) -> (r: Option<Span>)
    ensures
        r == first_notag(rows@),
{
    let mut i: usize = 0;
    while i < rows.len()
        invariant
            0 <= i <= rows@.len(),
            forall|j: int| 0 <= j < i ==> (#[trigger] rows@[j]).notag_span is None,
        decreases rows@.len() - i,
    {
        match rows[i].notag_span {
            Some(span) => {
                proof {
                    lemma_first_notag_from(rows@, i as int);
                    assert(rows@.skip(i as int)[0] == rows@[i as int]);
                }
                return Some(span);
            },
            None => {},
        }
        i = i + 1;
    }
    proof {
        lemma_first_notag_from(rows@, rows@.len() as int);
        assert(rows@.skip(rows@.len() as int) =~= Seq::<GridRow<C>>::empty());
    }
    None
}

/// Numbering each row never leaves a label on a row without a number, and never numbers the
/// environment as a whole; numbering the whole environment leaves every row unnumbered and
/// unlabelled.
pub proof fn law_labels_stay_on_numbered_rows<C>(
    rows: Seq<GridRow<C>>,
    mode: NumberingMode,
    numbered: bool,
    name: Seq<char>,
    out: Seq<MathRow<C>>,
    env_numbered: bool,
)
    requires
        numbering_outcome(rows, mode, numbered, name, Ok((out, env_numbered))),
    ensures
        forall|i: int| 0 <= i < out.len() ==> ((#[trigger] out[i]).label is Some ==> out[i].numbered),
        mode == NumberingMode::PerRow ==> !env_numbered,
        mode == NumberingMode::SingleEnv ==> forall|i: int| 0 <= i < out.len() ==> !(#[trigger] out[i]).numbered,
{
    if mode == NumberingMode::PerRow {
        lemma_no_misplaced_label(rows, numbered);
        assert forall|i: int| 0 <= i < out.len() && (#[trigger] out[i]).label is Some implies out[i].numbered by {
            assert(out[i] == numbered_row(rows[i], numbered));
            assert(!label_misplaced(rows[i], numbered));
        }
    } else {
        assert forall|i: int| 0 <= i < out.len() implies !(#[trigger] out[i]).numbered && out[i].label is None by {
            assert(out[i] == unnumbered_row(rows[i]));
        }
    }
}

/// When no label is misplaced in `rows`, none of its rows has one.
proof fn lemma_no_misplaced_label<C>(rows: Seq<GridRow<C>>, numbered: bool)
    requires
        first_misplaced_label(rows, numbered) is None,
    ensures
        forall|i: int| 0 <= i < rows.len() ==> !label_misplaced(#[trigger] rows[i], numbered),
    decreases rows.len(),
{
    if rows.len() > 0 {
        let rest = rows.drop_first();
        lemma_no_misplaced_label(rest, numbered);
        assert forall|i: int| 0 <= i < rows.len() implies !label_misplaced(#[trigger] rows[i], numbered) by {
            if i > 0 {
                assert(rows[i] == rest[i - 1]);
            }
        }
    }
}

/// Row `i` of `rows` carries a label but receives no number, and no row before it does.
pub open spec fn first_unnumbered_label_at<C>(rows: Seq<GridRow<C>>, numbered: bool, i: int) -> bool {
    &&& 0 <= i < rows.len()
    &&& rows[i].label is Some
    &&& !(numbered && rows[i].notag_span is None)
    &&& forall|j: int| 0 <= j < i ==> !(rows[j].label is Some && !(numbered && #[trigger] rows[j].notag_span is None))
}

/// When some label of `rows` is on a row that receives no number, the first such label is
/// that of the first row that carries a label and has no number.
proof fn lemma_first_misplaced_found<C>(rows: Seq<GridRow<C>>, numbered: bool)
    requires
        first_misplaced_label(rows, numbered) is Some,
    ensures
        exists|i: int| #[trigger] first_unnumbered_label_at(rows, numbered, i)
            && first_misplaced_label(rows, numbered) == Some(rows[i].label->0.span),
    decreases rows.len(),
{
    if label_misplaced(rows[0], numbered) {
        assert(first_unnumbered_label_at(rows, numbered, 0));
    } else {
        let rest = rows.drop_first();
        lemma_first_misplaced_found(rest, numbered);
        let i = choose|i: int| #[trigger] first_unnumbered_label_at(rest, numbered, i)
            && first_misplaced_label(rest, numbered) == Some(rest[i].label->0.span);
        assert(rows[i + 1] == rest[i]);
        assert forall|j: int| 0 <= j < i + 1 implies !(rows[j].label is Some && !(numbered && #[trigger] rows[j].notag_span is None)) by {
            if j > 0 {
                assert(rows[j] == rest[j - 1]);
            }
        }
        assert(first_unnumbered_label_at(rows, numbered, i + 1));
    }
}

/// What numbering a grid does, in terms of the option `numbered` and the row markers: each
/// row is kept, in order, with its id and cells. Nothing receives a number when `numbered` is
/// false. Numbered per row, a row receives a number exactly when the environment is numbered
/// and the row has no `\notag`, keeps its label, and a row with a label always receives a
/// number; the environment itself receives none. Numbered as a whole, no row receives a
/// number or keeps a label, and the environment receives one exactly when it is numbered and
/// has a row.
pub proof fn law_numbering_follows_the_option<C>(
    rows: Seq<GridRow<C>>,
    mode: NumberingMode,
    numbered: bool,
    name: Seq<char>,
    out: Seq<MathRow<C>>,
    env_numbered: bool,
)
    requires
        numbering_outcome(rows, mode, numbered, name, Ok((out, env_numbered))),
    ensures
        out.len() == rows.len(),
        forall|i: int| 0 <= i < out.len() ==> (#[trigger] out[i]).id == rows[i].id && out[i].cells == rows[i].cells,
        !numbered ==> !env_numbered && forall|i: int| 0 <= i < out.len() ==> !(#[trigger] out[i]).numbered,
        env_numbered <==> (mode == NumberingMode::SingleEnv && numbered && rows.len() > 0),
        forall|i: int| 0 <= i < out.len() ==> ((#[trigger] out[i]).numbered <==> (mode == NumberingMode::PerRow
            && numbered && rows[i].notag_span is None)),
        forall|i: int| 0 <= i < out.len() ==> (#[trigger] out[i]).label == (if mode == NumberingMode::PerRow {
            rows[i].label
        } else {
            None::<RowLabel>
        }),
        mode == NumberingMode::PerRow ==> forall|i: int| 0 <= i < rows.len() ==> ((#[trigger] rows[i]).label is Some
            ==> numbered && rows[i].notag_span is None),
{
    if mode == NumberingMode::PerRow {
        lemma_no_misplaced_label(rows, numbered);
        assert forall|i: int| 0 <= i < out.len() implies (#[trigger] out[i]) == numbered_row(rows[i], numbered) by {}
        assert forall|i: int| 0 <= i < rows.len() implies ((#[trigger] rows[i]).label is Some
            ==> numbered && rows[i].notag_span is None) by {
            assert(!label_misplaced(rows[i], numbered));
        }
    } else {
        assert forall|i: int| 0 <= i < out.len() implies (#[trigger] out[i]) == unnumbered_row(rows[i]) by {}
    }
}

/// Numbering a grid fails only when rows are numbered one by one and a row carries a label
/// without receiving a number; the error names the environment and points at the first such
/// label, and every row before it is fine.
pub proof fn law_numbering_refuses_only_unnumbered_labels<C>(
    rows: Seq<GridRow<C>>,
    mode: NumberingMode,
    numbered: bool,
    name: Seq<char>,
    e: EvalError,
)
    requires
        numbering_outcome(rows, mode, numbered, name, Err(e)),
    ensures
        mode == NumberingMode::PerRow,
        exists|i: int| #[trigger] first_unnumbered_label_at(rows, numbered, i)
            && is_label_requires_numbering(e, name, rows[i].label->0.span),
{
    lemma_first_misplaced_found(rows, numbered);
}

} // verus!
