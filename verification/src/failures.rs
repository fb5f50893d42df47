//! Non-empty collections of failures, reported together in input order.

use vstd::prelude::*;

verus! {

/// A non-empty sequence of failures, in the order of the inputs that produced them.
#[derive(Debug)]
pub struct Failures<E> {
    items: Vec<E>,
}

/// The values of the successful results, in order.
pub open spec fn oks<T, E>(rs: Seq<Result<T, E>>) -> Seq<T>
    decreases rs.len(),
{
    if rs.len() == 0 {
        Seq::empty()
    } else {
        oks(rs.drop_last()) + match rs.last() {
            Ok(v) => seq![v],
            Err(_) => Seq::empty(),
        }
    }
}

/// The errors of the failed results, in order.
pub open spec fn errs<T, E>(rs: Seq<Result<T, E>>) -> Seq<E>
    decreases rs.len(),
{
    if rs.len() == 0 {
        Seq::empty()
    } else {
        errs(rs.drop_last()) + match rs.last() {
            Ok(_) => Seq::empty(),
            Err(e) => seq![e],
        }
    }
}

/// With no error, the successful values are as many as the results and in the same order.
pub proof fn lemma_no_errs_all_oks<T, E>(rs: Seq<Result<T, E>>)
    requires
        errs(rs).len() == 0,
    ensures
        oks(rs).len() == rs.len(),
        forall|i: int| 0 <= i < rs.len() ==> rs[i] == Ok::<T, E>(#[trigger] oks(rs)[i]),
    decreases rs.len(),
{
    if rs.len() > 0 {
        lemma_no_errs_all_oks(rs.drop_last());
        assert(rs.last() is Ok);
        assert forall|i: int| 0 <= i < rs.len() implies rs[i] == Ok::<T, E>(#[trigger] oks(rs)[i]) by {
            if i < rs.len() - 1 {
                assert(rs[i] == rs.drop_last()[i]);
                assert(oks(rs)[i] == oks(rs.drop_last())[i]);
            }
        }
    }
}

impl<E> Failures<E> {
    /// The failures, in order.
    pub closed spec fn spec_items(&self) -> Seq<E> {
        self.items@
    }

    /// The failures are never empty.
    pub open spec fn wf(&self) -> bool {
        self.spec_items().len() > 0
    }

    /// A single failure.
    pub fn single(error: E) -> (f: Failures<E>)
        ensures
            f.spec_items() == seq![error],
            f.wf(),
    {
        let mut items = Vec::new();
        items.push(error);
        assert(items@ =~= seq![error]);
        Failures { items }
    }

    /// The failures of `errors`, or `None` when there is none.
    pub fn from_vec(errors: Vec<E>) -> (f: Option<Failures<E>>)
        ensures
            errors@.len() == 0 ==> f is None,
            errors@.len() > 0 ==> f is Some && f->Some_0.spec_items() == errors@,
    {
        if errors.len() == 0 {
            None
        } else {
            Some(Failures { items: errors })
        }
    }

    /// The first failure.
    pub fn first(&self) -> (e: &E)
        requires
            self.wf(),
        ensures
            *e == self.spec_items()[0],
    {
        &self.items[0]
    }

    /// The number of failures.
    pub fn len(&self) -> (n: usize)
        ensures
            n == self.spec_items().len(),
    {
        self.items.len()
    }

    /// The failures as a vector, in order.
    pub fn into_vec(self) -> (v: Vec<E>)
        ensures
            v@ == self.spec_items(),
    {
        self.items
    }
}

/// All successful values in input order when every result succeeded; otherwise every error,
/// in input order.
pub fn collect_in_input_order<T, E>(results: Vec<Result<T, E>>) -> (r: Result<Vec<T>, Failures<E>>)
    ensures
        errs(results@).len() == 0 ==> (r matches Ok(v) && v@ == oks(results@)),
        errs(results@).len() > 0 ==> (r matches Err(f) && f.spec_items() == errs(results@) && f.wf()),
{
    let ghost rs = results@;
    let n = results.len();
    let mut oks_v: Vec<T> = Vec::new();
    let mut errs_v: Vec<E> = Vec::new();
    let mut rest = results;
    let mut out_rev: Vec<Result<T, E>> = Vec::new();
    // Reverse the results so that popping yields them in input order.
    while rest.len() > 0
        invariant
            rest@ + out_rev@.reverse() == rs,
        decreases rest@.len(),
    {
        let ghost before_rest = rest@;
        let ghost before_out = out_rev@;
        let x = rest.pop().unwrap();
        out_rev.push(x);
        proof {
            assert(out_rev@.reverse() =~= seq![x] + before_out.reverse());
            assert(before_rest =~= rest@.push(x));
            assert(rest@ + out_rev@.reverse() =~= before_rest + before_out.reverse());
        }
    }
    assert(out_rev@.reverse() =~= rs);
    let mut i: usize = 0;
    while out_rev.len() > 0
        invariant
            out_rev@.reverse() == rs.subrange(i as int, rs.len() as int),
            i <= rs.len(),
            rs.len() == n,
            oks_v@ == oks(rs.subrange(0, i as int)),
            errs_v@ == errs(rs.subrange(0, i as int)),
        decreases out_rev@.len(),
    {
        let ghost before = out_rev@;
        let x = out_rev.pop().unwrap();
        proof {
            assert(before.reverse().len() == before.len());
            assert(i < rs.len());
            assert(before.reverse()[0] == x);
            assert(rs.subrange(i as int, rs.len() as int)[0] == rs[i as int]);
            assert(rs[i as int] == x);
            assert(rs.subrange(0, i + 1).drop_last() =~= rs.subrange(0, i as int));
            assert(out_rev@.reverse() =~= before.reverse().drop_first());
        }
        match x {
            Ok(v) => {
                oks_v.push(v);
            },
            Err(e) => {
                errs_v.push(e);
            },
        }
        i = i + 1;
        proof {
            assert(out_rev@.reverse() =~= rs.subrange(i as int, rs.len() as int));
        }
    }
    assert(rs.subrange(i as int, rs.len() as int).len() == 0);
    assert(rs.subrange(0, i as int) =~= rs);
    if errs_v.len() == 0 {
        Ok(oks_v)
    } else {
        Err(Failures { items: errs_v })
    }
}

} // verus!
