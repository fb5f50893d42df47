//! The bytes of every font file the configuration names, read once per distinct path.

use vstd::prelude::*;
use crate::failures::{Failures, collect_in_input_order, errs, lemma_no_errs_all_oks, oks};
use crate::project::font::{FontType, font_type_at, font_type_index, lemma_font_type_index};
use crate::project::font_map::FontMap;
use crate::project::path::{ComponentView, PathComponent, ProjectPath, render_components};
use crate::project::source::{ProjectSource, SourceReadError};

verus! {

/// `lt` is a strict total order.
pub open spec fn is_strict_total<A>(lt: spec_fn(A, A) -> bool) -> bool {
    &&& forall|x: A| !(#[trigger] lt(x, x))
    &&& forall|x: A, y: A, z: A| #[trigger] lt(x, y) && #[trigger] lt(y, z) ==> lt(x, z)
    &&& forall|x: A, y: A| x != y ==> #[trigger] lt(x, y) || #[trigger] lt(y, x)
}

/// The lexicographic order on sequences built from the order `lt` on elements: the first
/// differing element decides, and a proper prefix comes first.
pub open spec fn lex_lt<A>(a: Seq<A>, b: Seq<A>, lt: spec_fn(A, A) -> bool) -> bool
    decreases a.len(),
{
    if a.len() == 0 {
        b.len() > 0
    } else if b.len() == 0 {
        false
    } else if lt(a[0], b[0]) {
        true
    } else if a[0] == b[0] {
        lex_lt(a.drop_first(), b.drop_first(), lt)
    } else {
        false
    }
}

proof fn lemma_lex_irreflexive<A>(a: Seq<A>, lt: spec_fn(A, A) -> bool)
    requires
        is_strict_total(lt),
    ensures
        !lex_lt(a, a, lt),
    decreases a.len(),
{
    if a.len() > 0 {
        assert(!lt(a[0], a[0]));
        lemma_lex_irreflexive(a.drop_first(), lt);
    }
}

proof fn lemma_lex_transitive<A>(a: Seq<A>, b: Seq<A>, c: Seq<A>, lt: spec_fn(A, A) -> bool)
    requires
        is_strict_total(lt),
        lex_lt(a, b, lt),
        lex_lt(b, c, lt),
    ensures
        lex_lt(a, c, lt),
    decreases a.len(),
{
    if a.len() > 0 && b.len() > 0 && c.len() > 0 {
        if lt(a[0], b[0]) {
            if lt(b[0], c[0]) {
                assert(lt(a[0], c[0]));
            } else {
                assert(b[0] == c[0]);
            }
        } else {
            assert(a[0] == b[0]);
            if !lt(b[0], c[0]) {
                assert(b[0] == c[0]);
                lemma_lex_transitive(a.drop_first(), b.drop_first(), c.drop_first(), lt);
            }
        }
    }
}

proof fn lemma_lex_total<A>(a: Seq<A>, b: Seq<A>, lt: spec_fn(A, A) -> bool)
    requires
        is_strict_total(lt),
        a != b,
    ensures
        lex_lt(a, b, lt) || lex_lt(b, a, lt),
    decreases a.len(),
{
    if a.len() == 0 {
        assert(b.len() > 0) by {
            if b.len() == 0 {
                assert(a =~= b);
            }
        }
    } else if b.len() > 0 {
        if a[0] == b[0] {
            assert(a.drop_first() != b.drop_first()) by {
                if a.drop_first() == b.drop_first() {
                    assert(a.drop_first().len() == b.drop_first().len());
                    assert(a.len() == b.len());
                    assert(a =~= b) by {
                        assert forall|i: int| 0 <= i < a.len() implies a[i] == b[i] by {
                            if i > 0 {
                                assert(a[i] == a.drop_first()[i - 1]);
                                assert(b[i] == b.drop_first()[i - 1]);
                            }
                        }
                    }
                }
            }
            lemma_lex_total(a.drop_first(), b.drop_first(), lt);
        } else {
            assert(lt(a[0], b[0]) || lt(b[0], a[0]));
        }
    }
}

/// The lexicographic order built from a strict total order is one.
pub proof fn lemma_lex_strict_total<A>(lt: spec_fn(A, A) -> bool)
    requires
        is_strict_total(lt),
    ensures
        is_strict_total(|a: Seq<A>, b: Seq<A>| lex_lt(a, b, lt)),
{
    let l = |a: Seq<A>, b: Seq<A>| lex_lt(a, b, lt);
    assert forall|x: Seq<A>| !(#[trigger] l(x, x)) by {
        lemma_lex_irreflexive(x, lt);
    }
    assert forall|x: Seq<A>, y: Seq<A>, z: Seq<A>| #[trigger] l(x, y) && #[trigger] l(y, z) implies l(x, z) by {
        lemma_lex_transitive(x, y, z, lt);
    }
    assert forall|x: Seq<A>, y: Seq<A>| x != y implies #[trigger] l(x, y) || #[trigger] l(y, x) by {
        lemma_lex_total(x, y, lt);
    }
}

/// The order of characters: by code point (which is also the byte order of their UTF-8).
pub open spec fn char_lt(a: char, b: char) -> bool {
    a < b
}

/// The order of names: lexicographic by character.
pub open spec fn name_lt(a: Seq<char>, b: Seq<char>) -> bool {
    lex_lt(a, b, |x: char, y: char| char_lt(x, y))
}

/// The rank of a component's variant: root, current directory, parent directory, name.
pub open spec fn component_rank(c: ComponentView) -> int {
    match c {
        ComponentView::RootDir => 0,
        ComponentView::CurDir => 1,
        ComponentView::ParentDir => 2,
        ComponentView::Normal(_) => 3,
    }
}

/// The order of components: by variant in declaration order, names by [`name_lt`].
pub open spec fn component_lt(a: ComponentView, b: ComponentView) -> bool {
    component_rank(a) < component_rank(b) || (a is Normal && b is Normal && name_lt(a->Normal_0, b->Normal_0))
}

/// The order of project paths: lexicographic by component (the order `ProjectPath` derives).
pub open spec fn path_lt(a: Seq<ComponentView>, b: Seq<ComponentView>) -> bool {
    lex_lt(a, b, |x: ComponentView, y: ComponentView| component_lt(x, y))
}

proof fn lemma_char_order()
    ensures
        is_strict_total(|x: char, y: char| char_lt(x, y)),
{
    let l = |x: char, y: char| char_lt(x, y);
    assert forall|x: char, y: char| x != y implies #[trigger] l(x, y) || #[trigger] l(y, x) by {

    }
}

proof fn lemma_component_order()
    ensures
        is_strict_total(|x: ComponentView, y: ComponentView| component_lt(x, y)),
{
    lemma_char_order();
    lemma_lex_strict_total(|x: char, y: char| char_lt(x, y));
    let nl = |a: Seq<char>, b: Seq<char>| lex_lt(a, b, |x: char, y: char| char_lt(x, y));
    let l = |x: ComponentView, y: ComponentView| component_lt(x, y);
    assert forall|x: ComponentView| !(#[trigger] l(x, x)) by {
        if x is Normal {
            assert(!nl(x->Normal_0, x->Normal_0));
        }
    }
    assert forall|x: ComponentView, y: ComponentView, z: ComponentView| #[trigger] l(x, y) && #[trigger] l(y, z) implies l(x, z) by {
        if x is Normal && y is Normal && z is Normal {
            assert(nl(x->Normal_0, y->Normal_0) && nl(y->Normal_0, z->Normal_0));
            assert(nl(x->Normal_0, z->Normal_0));
        }
    }
    assert forall|x: ComponentView, y: ComponentView| x != y implies #[trigger] l(x, y) || #[trigger] l(y, x) by {
        if x is Normal && y is Normal {
            assert(x->Normal_0 != y->Normal_0);
            assert(nl(x->Normal_0, y->Normal_0) || nl(y->Normal_0, x->Normal_0));
        }
    }
}

/// The order of project paths is a strict total order.
pub proof fn lemma_path_order()
    ensures
        is_strict_total(|a: Seq<ComponentView>, b: Seq<ComponentView>| path_lt(a, b)),
{
    lemma_component_order();
    lemma_lex_strict_total(|x: ComponentView, y: ComponentView| component_lt(x, y));
    let pl = |a: Seq<ComponentView>, b: Seq<ComponentView>| lex_lt(a, b, |x: ComponentView, y: ComponentView| component_lt(x, y));
    let l = |a: Seq<ComponentView>, b: Seq<ComponentView>| path_lt(a, b);
    assert forall|x: Seq<ComponentView>| !(#[trigger] l(x, x)) by {
        assert(!pl(x, x));
    }
    assert forall|x: Seq<ComponentView>, y: Seq<ComponentView>, z: Seq<ComponentView>| #[trigger] l(x, y) && #[trigger] l(y, z) implies l(x, z) by {
        assert(pl(x, y) && pl(y, z));
    }
    assert forall|x: Seq<ComponentView>, y: Seq<ComponentView>| x != y implies #[trigger] l(x, y) || #[trigger] l(y, x) by {
        assert(pl(x, y) || pl(y, x));
    }
}

/// Whether the name `a` comes before the name `b`.
fn name_before(a: &str, b: &str) -> (r: bool)
    ensures
        r == name_lt(a@, b@),
{
    let x = crate::strs::chars_of(a);
    let y = crate::strs::chars_of(b);
    let ghost lt = |p: char, q: char| char_lt(p, q);
    assert(x@.skip(0) =~= x@);
    assert(y@.skip(0) =~= y@);
    let mut i: usize = 0;
    while i < x.len() && i < y.len()
        invariant
            x@ == a@,
            y@ == b@,
            0 <= i <= x@.len(),
            i <= y@.len(),
            lt == (|p: char, q: char| char_lt(p, q)),
            name_lt(a@, b@) == lex_lt(x@.skip(i as int), y@.skip(i as int), lt),
        decreases x@.len() - i,
    {
        let c = x[i];
        let d = y[i];
        proof {
            assert(x@.skip(i as int)[0] == c);
            assert(y@.skip(i as int)[0] == d);
            assert(x@.skip(i as int).drop_first() =~= x@.skip(i + 1));
            assert(y@.skip(i as int).drop_first() =~= y@.skip(i + 1));
        }
        if c < d {
            return true;
        }
        if d < c {
            proof {
                assert(c != d);
            }
            return false;
        }
        proof {
            assert(c == d);
        }
        i = i + 1;
    }
    x.len() < y.len()
}

/// The rank of a component's variant.
fn rank(c: &PathComponent) -> (r: u8)
    ensures
        r == component_rank(c@),
{
    match c {
        PathComponent::RootDir => 0,
        PathComponent::CurDir => 1,
        PathComponent::ParentDir => 2,
        PathComponent::Normal(_) => 3,
    }
}

/// Whether the component `a` comes before the component `b`.
fn component_before(a: &PathComponent, b: &PathComponent) -> (r: bool)
    ensures
        r == component_lt(a@, b@),
{
    let ra = rank(a);
    let rb = rank(b);
    if ra < rb {
        return true;
    }
    match (a, b) {
        (PathComponent::Normal(x), PathComponent::Normal(y)) => name_before(x.as_str(), y.as_str()),
        _ => false,
    }
}

/// Whether the path `a` comes before the path `b` (see [`path_lt`]).
pub fn path_before(a: &ProjectPath, b: &ProjectPath) -> (r: bool)
    ensures
        r == path_lt(a@, b@),
{
    proof {
        lemma_component_order();
    }
    let xs = a.components();
    let ys = b.components();
    let ghost xv = a@;
    let ghost yv = b@;
    let ghost lt = |p: ComponentView, q: ComponentView| component_lt(p, q);
    assert(xv.skip(0) =~= xv);
    assert(yv.skip(0) =~= yv);
    let mut i: usize = 0;
    while i < xs.len() && i < ys.len()
        invariant
            xs@.map_values(|c: PathComponent| c@) == xv,
            ys@.map_values(|c: PathComponent| c@) == yv,
            xv == a@,
            yv == b@,
            0 <= i <= xv.len(),
            i <= yv.len(),
            lt == (|p: ComponentView, q: ComponentView| component_lt(p, q)),
            is_strict_total(lt),
            path_lt(a@, b@) == lex_lt(xv.skip(i as int), yv.skip(i as int), lt),
        decreases xv.len() - i,
    {
        proof {
            assert(xv.skip(i as int)[0] == xs@[i as int]@);
            assert(yv.skip(i as int)[0] == ys@[i as int]@);
            assert(xv.skip(i as int).drop_first() =~= xv.skip(i + 1));
            assert(yv.skip(i as int).drop_first() =~= yv.skip(i + 1));
        }
        if component_before(&xs[i], &ys[i]) {
            return true;
        }
        if component_before(&ys[i], &xs[i]) {
            proof {
                assert(lt(ys@[i as int]@, xs@[i as int]@));
                assert(xs@[i as int]@ != ys@[i as int]@);
            }
            return false;
        }
        proof {
            assert(!lt(xs@[i as int]@, ys@[i as int]@) && !lt(ys@[i as int]@, xs@[i as int]@));
            assert(xs@[i as int]@ == ys@[i as int]@);
        }
        i = i + 1;
    }
    xs.len() < ys.len()
}

/// The views of a list of paths.
pub open spec fn path_views(v: Seq<ProjectPath>) -> Seq<Seq<ComponentView>> {
    v.map_values(|p: ProjectPath| p@)
}

/// The paths are in strictly ascending order (so none occurs twice).
pub open spec fn strictly_ascending(s: Seq<Seq<ComponentView>>) -> bool {
    forall|i: int, j: int| 0 <= i < j < s.len() ==> path_lt(#[trigger] s[i], #[trigger] s[j])
}

/// Inserts `p` into the ascending list `plan` unless it is already there.
fn insert_sorted(plan: &mut Vec<ProjectPath>, p: ProjectPath)
    requires
        strictly_ascending(path_views(old(plan)@)),
    ensures
        strictly_ascending(path_views(final(plan)@)),
        path_views(final(plan)@).to_set() == path_views(old(plan)@).to_set().insert(p@),
{
    proof {
        lemma_path_order();
    }
    let ghost lt = |a: Seq<ComponentView>, b: Seq<ComponentView>| path_lt(a, b);
    let ghost before = path_views(plan@);
    let mut k: usize = 0;
    while k < plan.len() && path_before(&plan[k], &p)
        invariant
            0 <= k <= plan@.len(),
            plan@ == old(plan)@,
            before == path_views(plan@),
            forall|i: int| 0 <= i < k ==> path_lt(#[trigger] before[i], p@),
        decreases plan@.len() - k,
    {
        k = k + 1;
    }
    if k < plan.len() && !path_before(&p, &plan[k]) {
        proof {
            assert(!lt(before[k as int], p@) && !lt(p@, before[k as int]));
            assert(before[k as int] == p@);
            assert(before.to_set().insert(p@) =~= before.to_set()) by {
                assert(before.contains(p@));
            }
        }
        return;
    }
    plan.insert(k, p);
    proof {
        let after = path_views(plan@);
        assert(after =~= before.insert(k as int, p@));
        assert forall|i: int, j: int| 0 <= i < j < after.len() implies path_lt(#[trigger] after[i], #[trigger] after[j]) by {
            if j < k {
                assert(after[i] == before[i] && after[j] == before[j]);
            } else if j == k {
                assert(after[i] == before[i]);
            } else if i == k {
                assert(after[j] == before[j - 1]);
                if j - 1 > k {
                    assert(lt(before[k as int], before[j - 1]));
                    assert(lt(p@, before[k as int]));
                    assert(lt(p@, before[j - 1]));
                }
            } else if i < k {
                assert(after[i] == before[i]);
                assert(after[j] == before[j - 1]);
                assert(lt(before[i], p@));
                assert(lt(p@, before[k as int]));
                assert(lt(before[i], before[k as int]));
                if j - 1 > k {
                    assert(lt(before[k as int], before[j - 1]));
                }
            } else {
                assert(after[i] == before[i - 1]);
                assert(after[j] == before[j - 1]);
            }
        }
        assert(after.to_set() =~= before.to_set().insert(p@)) by {
            assert forall|x: Seq<ComponentView>| after.to_set().contains(x) <==> before.to_set().insert(p@).contains(x) by {
                if after.contains(x) {
                    let m = choose|m: int| 0 <= m < after.len() && after[m] == x;
                    if m < k {
                        assert(before[m] == x);
                    } else if m > k {
                        assert(before[m - 1] == x);
                    }
                }
                if before.contains(x) {
                    let m = choose|m: int| 0 <= m < before.len() && before[m] == x;
                    if m < k {
                        assert(after[m] == x);
                    } else {
                        assert(after[m + 1] == x);
                    }
                }
                if x == p@ {
                    assert(after[k as int] == x);
                }
            }
        }
    }
}

/// The distinct font paths of `font_paths`, in ascending order: each font file is read once.
pub fn read_plan(font_paths: &FontMap<ProjectPath>) -> (plan: Vec<ProjectPath>)
    requires
        font_paths.wf(),
    ensures
        strictly_ascending(path_views(plan@)),
        path_views(plan@).to_set() == path_views(font_paths.spec_values()).to_set(),
{
    let values = font_paths.values();
    let ghost all = path_views(values@);
    let mut plan: Vec<ProjectPath> = Vec::new();
    let mut i: usize = 0;
    proof {
        assert(path_views(plan@).to_set() =~= path_views(values@.subrange(0, 0)).to_set());
    }
    while i < values.len()
        invariant
            0 <= i <= values@.len(),
            values@ == font_paths.spec_values(),
            all == path_views(values@),
            strictly_ascending(path_views(plan@)),
            path_views(plan@).to_set() == path_views(values@.subrange(0, i as int)).to_set(),
        decreases values@.len() - i,
    {
        let p = values[i].duplicate();
        insert_sorted(&mut plan, p);
        proof {
            let before = path_views(values@.subrange(0, i as int));
            let after = path_views(values@.subrange(0, i + 1));
            assert(after =~= before.push(values@[i as int]@));
            assert(after.to_set() =~= before.to_set().insert(values@[i as int]@)) by {
                assert forall|x: Seq<ComponentView>| after.to_set().contains(x) <==> before.to_set().insert(values@[i as int]@).contains(x) by {
                    if after.contains(x) {
                        let m = choose|m: int| 0 <= m < after.len() && after[m] == x;
                        if m < before.len() {
                            assert(before[m] == x);
                        }
                    }
                    if before.contains(x) {
                        let m = choose|m: int| 0 <= m < before.len() && before[m] == x;
                        assert(after[m] == x);
                    }
                    if x == values@[i as int]@ {
                        assert(after[i as int] == x);
                    }
                }
            }
        }
        i = i + 1;
    }
    proof {
        assert(values@.subrange(0, i as int) =~= values@);
    }
    plan
}

/// The first font kind whose path is `p`, by index, or the number of kinds when none is.
pub open spec fn first_kind_index(paths: Seq<Seq<ComponentView>>, p: Seq<ComponentView>) -> int
    decreases paths.len(),
{
    if paths.len() == 0 {
        0
    } else if paths[0] == p {
        0
    } else {
        1 + first_kind_index(paths.drop_first(), p)
    }
}

proof fn lemma_first_kind_index(paths: Seq<Seq<ComponentView>>, p: Seq<ComponentView>)
    ensures
        0 <= first_kind_index(paths, p) <= paths.len(),
        first_kind_index(paths, p) < paths.len() ==> paths[first_kind_index(paths, p)] == p,
        forall|j: int| 0 <= j < first_kind_index(paths, p) ==> paths[j] != p,
        paths.contains(p) ==> first_kind_index(paths, p) < paths.len(),
    decreases paths.len(),
{
    if paths.len() > 0 && paths[0] != p {
        lemma_first_kind_index(paths.drop_first(), p);
        assert forall|j: int| 0 <= j < first_kind_index(paths, p) implies paths[j] != p by {
            if j > 0 {
                assert(paths[j] == paths.drop_first()[j - 1]);
            }
        }
        if paths.contains(p) {
            let m = choose|m: int| 0 <= m < paths.len() && paths[m] == p;
            assert(paths.drop_first()[m - 1] == p);
        }
    }
}

/// The first font kind whose path is `p`.
fn first_kind_with(font_paths: &FontMap<ProjectPath>, p: &ProjectPath) -> (r: FontType)
    requires
        font_paths.wf(),
        path_views(font_paths.spec_values()).contains(p@),
    ensures
        r == font_type_at(first_kind_index(path_views(font_paths.spec_values()), p@)),
{
    let values = font_paths.values();
    let ghost all = path_views(values@);
    proof {
        lemma_first_kind_index(all, p@);
    }
    let mut i: usize = 0;
    while i < 19
        invariant
            0 <= i <= first_kind_index(all, p@),
            values@ == font_paths.spec_values(),
            all == path_views(values@),
            values@.len() == 19,
            first_kind_index(all, p@) < 19,
            forall|j: int| 0 <= j < first_kind_index(all, p@) ==> all[j] != p@,
            all[first_kind_index(all, p@)] == p@,
        decreases 19 - i,
    {
        if values[i].same_as(p) {
            proof {
                assert(all[i as int] == values@[i as int]@);
            }
            return FontType::at(i);
        }
        i = i + 1;
    }
    FontType::at(0)
}

/// A font file that could not be read.
#[derive(Debug)]
pub enum FontReadError {
    /// The file of `font_type` at `path` could not be read (`source` says why); when kinds
    /// share the path, the first of them is named.
    ReadFont { font_type: FontType, path: String, source: SourceReadError },
}

/// The bytes of the font file of every kind.
#[derive(Debug)]
pub struct FontData {
    fonts: FontMap<Vec<u8>>,
}

/// `errs` report, in order, the planned paths whose read in `reads` failed: each with the first
/// kind that has the path, the path's text, and the error the read gave.
pub open spec fn read_errors_match(
    errs: Seq<FontReadError>,
    plan: Seq<Seq<ComponentView>>,
    reads: Seq<Result<Vec<u8>, SourceReadError>>,
    paths: Seq<Seq<ComponentView>>,
) -> bool
    decreases reads.len(),
{
    if reads.len() == 0 {
        errs.len() == 0
    } else if reads.last() is Ok {
        read_errors_match(errs, plan, reads.drop_last(), paths)
    } else {
        let p = plan[reads.len() - 1];
        &&& errs.len() > 0
        &&& errs.last() matches FontReadError::ReadFont { font_type, path, source }
            && font_type == font_type_at(first_kind_index(paths, p)) && path@ == render_components(p)
            && source == reads.last()->Err_0
        &&& read_errors_match(errs.drop_last(), plan, reads.drop_last(), paths)
    }
}

/// The read `r` gave the bytes `b`.
pub open spec fn read_gave(r: Result<Vec<u8>, SourceReadError>, b: Vec<u8>) -> bool {
    r matches Ok(c) && b@ == c@
}

/// When every read succeeded, no failure is reported.
proof fn lemma_all_reads_ok_no_errors(
    reads: Seq<Result<Vec<u8>, SourceReadError>>,
    plan: Seq<Seq<ComponentView>>,
    paths: Seq<Seq<ComponentView>>,
    errs: Seq<FontReadError>,
)
    requires
        forall|i: int| 0 <= i < reads.len() ==> #[trigger] reads[i] is Ok,
        read_errors_match(errs, plan, reads, paths),
    ensures
        errs.len() == 0,
    decreases reads.len(),
{
    if reads.len() > 0 {
        assert(reads.last() == reads[reads.len() - 1]);
        assert forall|i: int| 0 <= i < reads.drop_last().len() implies #[trigger] reads.drop_last()[i] is Ok by {
            assert(reads.drop_last()[i] == reads[i]);
        }
        lemma_all_reads_ok_no_errors(reads.drop_last(), plan, paths, errs);
    }
}

/// A copy of the bytes.
fn copy_bytes(v: &Vec<u8>) -> (r: Vec<u8>)
    ensures
        r@ == v@,
{
    let r = v.clone();
    proof {
        assert(r@ =~= v@);
    }
    r
}

/// The index of `p` in the ascending list `plan` that holds it.
fn plan_index(plan: &Vec<ProjectPath>, p: &ProjectPath) -> (k: usize)
    requires
        path_views(plan@).contains(p@),
    ensures
        k < plan@.len(),
        plan@[k as int]@ == p@,
{
    let ghost views = path_views(plan@);
    let ghost m = choose|m: int| 0 <= m < views.len() && views[m] == p@;
    let mut k: usize = 0;
    while k < plan.len()
        invariant
            0 <= k <= plan@.len(),
            views == path_views(plan@),
            0 <= m < views.len(),
            views[m] == p@,
            forall|j: int| 0 <= j < k ==> views[j] != p@,
        decreases plan@.len() - k,
    {
        if plan[k].same_as(p) {
            return k;
        }
        k = k + 1;
    }
    0
}

/// The outcome of loading: `plan` holds the distinct paths in ascending order and `reads` what
/// reading each gave. When every read succeeded, every kind gets the bytes read for its path;
/// otherwise the failed reads are reported in plan order.
pub open spec fn load_outcome(
    plan: Seq<Seq<ComponentView>>,
    reads: Seq<Result<Vec<u8>, SourceReadError>>,
    font_paths: FontMap<ProjectPath>,
    r: Result<FontData, Failures<FontReadError>>,
) -> bool {
    &&& strictly_ascending(plan)
    &&& plan.to_set() == path_views(font_paths.spec_values()).to_set()
    &&& reads.len() == plan.len()
    &&& match r {
        Ok(d) => {
            &&& d.wf()
            &&& forall|i: int| 0 <= i < reads.len() ==> #[trigger] reads[i] is Ok
            &&& forall|t: FontType, i: int| 0 <= i < plan.len() && plan[i] == font_paths.spec_get(t)@
                ==> #[trigger] reads[i]->Ok_0@ == #[trigger] d.spec_bytes(t)
        },
        Err(f) => f.wf() && (exists|i: int| 0 <= i < reads.len() && #[trigger] reads[i] is Err)
            && read_errors_match(f.spec_items(), plan, reads, path_views(font_paths.spec_values())),
    }
}

impl FontData {
    /// The bytes of kind `t`.
    pub closed spec fn spec_bytes(&self, t: FontType) -> Seq<u8> {
        self.fonts.spec_get(t)@
    }

    /// There are bytes for every kind.
    pub closed spec fn wf(&self) -> bool {
        self.fonts.wf()
    }

    /// Reads every configured font file once, in ascending path order (see [`read_plan`]), and
    /// gives each kind the bytes of its path (see [`FontData::assemble`]). What the source gives
    /// back is its own answer; whatever it is, each kind gets the bytes read for its path, and
    /// the failures are the paths whose read failed, each with the error the source gave.
    pub fn load<S: ProjectSource>(source: &mut S, font_paths: &FontMap<ProjectPath>) -> (r: Result<
        FontData,
        Failures<FontReadError>,
    >)
        requires
            font_paths.wf(),
        ensures
            exists|plan: Seq<Seq<ComponentView>>, reads: Seq<Result<Vec<u8>, SourceReadError>>|
                #[trigger] load_outcome(plan, reads, *font_paths, r),
    {
        let plan = read_plan(font_paths);
        let mut reads: Vec<Result<Vec<u8>, SourceReadError>> = Vec::new();
        let mut i: usize = 0;
        while i < plan.len()
            invariant
                0 <= i <= plan@.len(),
                reads@.len() == i,
            decreases plan@.len() - i,
        {
            reads.push(source.read_bytes(&plan[i]));
            i = i + 1;
        }
        Self::assemble(font_paths, &plan, reads)
    }

    /// Gives each kind the bytes read for its path, `reads[i]` being what reading `plan[i]`
    /// gave (see [`load_outcome`]): when every read succeeded, the font data; otherwise every
    /// failed read, in plan order, with the first kind of its path.
    pub fn assemble(
        font_paths: &FontMap<ProjectPath>,
        plan: &Vec<ProjectPath>,
        reads: Vec<Result<Vec<u8>, SourceReadError>>,
    ) -> (r: Result<FontData, Failures<FontReadError>>)
        requires
            font_paths.wf(),
            strictly_ascending(path_views(plan@)),
            path_views(plan@).to_set() == path_views(font_paths.spec_values()).to_set(),
            reads@.len() == plan@.len(),
        ensures
            load_outcome(path_views(plan@), reads@, *font_paths, r),
    {
        let ghost pv = path_views(plan@);
        let ghost all = path_views(font_paths.spec_values());
        let ghost rd = reads@;
        let mut results: Vec<Result<Vec<u8>, FontReadError>> = Vec::new();
        let mut rest = reads;
        let mut rev: Vec<Result<Vec<u8>, SourceReadError>> = Vec::new();
        while rest.len() > 0
            invariant
                rest@.len() + rev@.len() == rd.len(),
                rest@ == rd.take(rest@.len() as int),
                forall|k: int| 0 <= k < rev@.len() ==> #[trigger] rev@[k] == rd[rd.len() - 1 - k],
            decreases rest@.len(),
        {
            let x = rest.pop().unwrap();
            proof {
                assert(rest@ =~= rd.take(rest@.len() as int));
            }
            rev.push(x);
        }
        let mut i: usize = 0;
        while i < plan.len()
            invariant
                0 <= i <= plan@.len(),
                rd.len() == plan@.len(),
                rev@.len() + i == rd.len(),
                forall|k: int| 0 <= k < rev@.len() ==> #[trigger] rev@[k] == rd[rd.len() - 1 - k],
                font_paths.wf(),
                pv == path_views(plan@),
                all == path_views(font_paths.spec_values()),
                pv.to_set() == all.to_set(),
                results@.len() == i,
                forall|j: int| 0 <= j < i ==> match #[trigger] results@[j] {
                    Ok(b) => rd[j] matches Ok(c) && b@ == c@,
                    Err(_) => rd[j] is Err,
                },
                read_errors_match(errs(results@), pv, rd.take(i as int), all),
            decreases plan@.len() - i,
        {
            proof {
                assert(pv.to_set().contains(pv[i as int]));
                assert(all.contains(plan@[i as int]@));
                assert(rev@[rev@.len() - 1] == rd[i as int]);
            }
            let read = rev.pop().unwrap();
            let r = match read {
                Ok(bytes) => Ok(bytes),
                Err(e) => Err(FontReadError::ReadFont {
                    font_type: first_kind_with(font_paths, &plan[i]),
                    path: plan[i].to_path_string(),
                    source: e,
                }),
            };
            let ghost before = results@;
            results.push(r);
            proof {
                assert(rd.take(i + 1).drop_last() =~= rd.take(i as int));
                assert(rd.take(i + 1).last() == rd[i as int]);
                assert(results@.drop_last() =~= before);
                if rd[i as int] is Ok {
                    assert(errs(results@) == errs(before));
                } else {
                    assert(errs(results@).drop_last() =~= errs(before));
                }
            }
            i = i + 1;
        }
        proof {
            assert(rd.take(i as int) =~= rd);
        }
        let ghost rs = results@;
        match collect_in_input_order(results) {
            Err(f) => {
                let r = Err(f);
                proof {
                    if forall|i: int| 0 <= i < rd.len() ==> #[trigger] rd[i] is Ok {
                        lemma_all_reads_ok_no_errors(rd, pv, all, f.spec_items());
                    }
                    assert(load_outcome(pv, rd, *font_paths, r));
                }
                r
            },
            Ok(loaded) => {
                proof {
                    lemma_no_errs_all_oks(rs);
                    assert forall|j: int| 0 <= j < loaded@.len() implies read_gave(rd[j], #[trigger] loaded@[j]) by {
                        assert(rs[j] == Ok::<Vec<u8>, FontReadError>(oks(rs)[j]));
                    }
                }
                let values = font_paths.values();
                let mut fonts: Vec<Vec<u8>> = Vec::new();
                let ghost mut idx: Seq<int> = Seq::empty();
                let mut t: usize = 0;
                while t < 19
                    invariant
                        0 <= t <= 19,
                        values@ == font_paths.spec_values(),
                        values@.len() == 19,
                        pv == path_views(plan@),
                        all == path_views(values@),
                        pv.to_set() == all.to_set(),
                        loaded@.len() == plan@.len(),
                        rd.len() == plan@.len(),
                        forall|j: int| 0 <= j < loaded@.len() ==> read_gave(rd[j], #[trigger] loaded@[j]),
                        fonts@.len() == t,
                        idx.len() == t,
                        forall|j: int| 0 <= j < t ==> 0 <= #[trigger] idx[j] < plan@.len() && pv[idx[j]] == all[j]
                            && fonts@[j]@ == loaded@[idx[j]]@,
                    decreases 19 - t,
                {
                    proof {
                        assert(all.to_set().contains(all[t as int]));
                        assert(pv.contains(all[t as int]));
                    }
                    let k = plan_index(&plan, &values[t]);
                    fonts.push(copy_bytes(&loaded[k]));
                    proof {
                        idx = idx.push(k as int);
                    }
                    t = t + 1;
                }
                let d = FontData { fonts: FontMap::from_complete(fonts) };
                proof {
                    assert forall|t1: FontType, i1: int| 0 <= i1 < pv.len() && pv[i1] == font_paths.spec_get(t1)@
                        implies #[trigger] rd[i1]->Ok_0@ == #[trigger] d.spec_bytes(t1) by {
                        lemma_font_type_index(t1);
                        let j1 = font_type_index(t1);
                        assert(all[j1] == font_paths.spec_get(t1)@);
                        assert(pv[idx[j1]] == pv[i1]);
                        if idx[j1] != i1 {
                            if idx[j1] < i1 {
                                assert(path_lt(pv[idx[j1]], pv[i1]));
                            } else {
                                assert(path_lt(pv[i1], pv[idx[j1]]));
                            }
                            lemma_path_order();
                            let l = |a: Seq<ComponentView>, b: Seq<ComponentView>| path_lt(a, b);
                            assert(!l(pv[i1], pv[i1]));
                        }
                    }
                    assert forall|i: int| 0 <= i < rd.len() implies #[trigger] rd[i] is Ok by {
                        assert(rs[i] == Ok::<Vec<u8>, FontReadError>(oks(rs)[i]));
                    }
                }
                let r = Ok(d);
                proof {
                    assert(load_outcome(pv, rd, *font_paths, r));
                }
                r
            },
        }
    }

    /// The bytes of the font file of kind `t`.
    pub fn get(&self, t: FontType) -> (r: &[u8])
        requires
            self.wf(),
        ensures
            r@ == self.spec_bytes(t),
    {
        self.fonts.get(t).as_slice()
    }
}

} // verus!
