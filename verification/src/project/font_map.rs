//! A map from every font kind to one value, stored densely in declaration order.

use vstd::prelude::*;
use rayon::iter::{IntoParallelRefIterator, ParallelIterator};
use crate::failures::{Failures, collect_in_input_order, errs, lemma_no_errs_all_oks};
use crate::project::font::{FontType, font_type_at, font_type_index, lemma_font_type_at, lemma_font_type_index};

verus! {

/// One value for each of the nineteen font kinds.
#[derive(Debug, Clone, PartialEq, Eq)]
pub struct FontMap<T> {
    values: Vec<T>,
}

/// The values of `value_of` at each of `kinds`, computed on rayon's thread pool and collected
/// in the order of `kinds` (rayon's indexed `collect` into a `Vec` keeps that order).
#[verifier::external_body]
fn par_map_font_types<T: Send, F: Fn(FontType) -> T + Sync>(kinds: &[FontType], value_of: &F) -> (r: Vec<T>)
    requires
        forall|t: FontType| value_of.requires((t,)),
    ensures
        r@.len() == kinds@.len(),
        forall|i: int| 0 <= i < kinds@.len() ==> value_of.ensures((kinds@[i],), #[trigger] r@[i]),
{
    kinds.par_iter().map(|&t| value_of(t)).collect()
}

impl<T> FontMap<T> {
    /// The values, in declaration order of the kinds.
    pub closed spec fn spec_values(&self) -> Seq<T> {
        self.values@
    }

    /// Nineteen values, one per kind.
    pub open spec fn wf(&self) -> bool {
        self.spec_values().len() == 19
    }

    /// The value of kind `t`.
    pub open spec fn spec_get(&self, t: FontType) -> T {
        self.spec_values()[font_type_index(t)]
    }

    /// The map whose values are `values`, in declaration order of the kinds.
    pub fn from_complete(values: Vec<T>) -> (m: FontMap<T>)
        requires
            values@.len() == 19,
        ensures
            m.spec_values() == values@,
            m.wf(),
    {
        FontMap { values }
    }

    /// The map of `value_of` applied to every kind.
    pub fn from_fn<F: Fn(FontType) -> T>(value_of: F) -> (m: FontMap<T>)
        requires
            forall|t: FontType| value_of.requires((t,)),
        ensures
            m.wf(),
            forall|t: FontType| value_of.ensures((t,), #[trigger] m.spec_get(t)),
    {
        let kinds = FontType::all();
        let mut values: Vec<T> = Vec::new();
        let mut i: usize = 0;
        while i < 19
            invariant
                0 <= i <= 19,
                kinds@.len() == 19,
                forall|j: int| 0 <= j < 19 ==> #[trigger] kinds@[j] == font_type_at(j),
                forall|t: FontType| value_of.requires((t,)),
                values@.len() == i,
                forall|j: int| 0 <= j < i ==> value_of.ensures((font_type_at(j),), #[trigger] values@[j]),
            decreases 19 - i,
        {
            let v = value_of(kinds[i]);
            values.push(v);
            i = i + 1;
        }
        let m = FontMap { values };
        proof {
            assert forall|t: FontType| value_of.ensures((t,), #[trigger] m.spec_get(t)) by {
                lemma_font_type_index(t);
            }
        }
        m
    }

    /// The map of `value_of` applied to every kind, computed in parallel.
    pub fn par_from_fn<F: Fn(FontType) -> T + Sync>(value_of: F) -> (m: FontMap<T>)
        where
            T: Send,
        requires
            forall|t: FontType| value_of.requires((t,)),
        ensures
            m.wf(),
            forall|t: FontType| value_of.ensures((t,), #[trigger] m.spec_get(t)),
    {
        let kinds = FontType::all();
        let values = par_map_font_types(kinds.as_slice(), &value_of);
        proof {
            assert forall|i: int| 0 <= i < 19 implies value_of.ensures((font_type_at(i),), #[trigger] values@[i]) by {
                assert(kinds@[i] == font_type_at(i));
            }
        }
        let m = FontMap { values };
        proof {
            assert forall|t: FontType| value_of.ensures((t,), #[trigger] m.spec_get(t)) by {
                lemma_font_type_index(t);
            }
        }
        m
    }

    /// The map of the values of `value_of` at every kind when all succeed; otherwise every
    /// failure, in declaration order of the kinds.
    pub fn try_from_fn<E, F: Fn(FontType) -> Result<T, E>>(value_of: F) -> (r: Result<
        FontMap<T>,
        Failures<E>,
    >)
        requires
            forall|t: FontType| value_of.requires((t,)),
        ensures
            exists|rs: Seq<Result<T, E>>|
                {
                    &&& rs.len() == 19
                    &&& forall|i: int| 0 <= i < 19 ==> value_of.ensures((font_type_at(i),), #[trigger] rs[i])
                    &&& match r {
                        Ok(m) => m.wf() && errs(rs).len() == 0 && forall|t: FontType| #[trigger] rs[font_type_index(t)] == Ok::<T, E>(m.spec_get(t)),
                        Err(f) => f.wf() && f.spec_items() == errs(rs),
                    }
                },
    {
        let kinds = FontType::all();
        let mut results: Vec<Result<T, E>> = Vec::new();
        let mut i: usize = 0;
        while i < 19
            invariant
                0 <= i <= 19,
                kinds@.len() == 19,
                forall|j: int| 0 <= j < 19 ==> #[trigger] kinds@[j] == font_type_at(j),
                forall|t: FontType| value_of.requires((t,)),
                results@.len() == i,
                forall|j: int| 0 <= j < i ==> value_of.ensures((font_type_at(j),), #[trigger] results@[j]),
            decreases 19 - i,
        {
            let v = value_of(kinds[i]);
            results.push(v);
            i = i + 1;
        }
        Self::from_complete_results(results)
    }

    /// The map of the values of `value_of` at every kind, computed in parallel, when all
    /// succeed; otherwise every failure, in declaration order of the kinds.
    pub fn par_try_from_fn<E, F: Fn(FontType) -> Result<T, E> + Sync>(value_of: F) -> (r: Result<
        FontMap<T>,
        Failures<E>,
    >)
        where
            T: Send,
            E: Send,
        requires
            forall|t: FontType| value_of.requires((t,)),
        ensures
            exists|rs: Seq<Result<T, E>>|
                {
                    &&& rs.len() == 19
                    &&& forall|i: int| 0 <= i < 19 ==> value_of.ensures((font_type_at(i),), #[trigger] rs[i])
                    &&& match r {
                        Ok(m) => m.wf() && errs(rs).len() == 0 && forall|t: FontType| #[trigger] rs[font_type_index(t)] == Ok::<T, E>(m.spec_get(t)),
                        Err(f) => f.wf() && f.spec_items() == errs(rs),
                    }
                },
    {
        let kinds = FontType::all();
        let results = par_map_font_types(kinds.as_slice(), &value_of);
        proof {
            assert forall|i: int| 0 <= i < 19 implies value_of.ensures((font_type_at(i),), #[trigger] results@[i]) by {
                assert(kinds@[i] == font_type_at(i));
            }
        }
        Self::from_complete_results(results)
    }

    /// The map of nineteen results when all succeed; otherwise every failure, in order.
    fn from_complete_results<E>(results: Vec<Result<T, E>>) -> (r: Result<FontMap<T>, Failures<E>>)
        requires
            results@.len() == 19,
        ensures
            match r {
                Ok(m) => m.wf() && errs(results@).len() == 0 && forall|t: FontType| #[trigger] results@[font_type_index(t)] == Ok::<T, E>(m.spec_get(t)),
                Err(f) => f.wf() && f.spec_items() == errs(results@),
            },
    {
        let ghost rs = results@;
        match collect_in_input_order(results) {
            Ok(values) => {
                proof {
                    lemma_no_errs_all_oks(rs);
                }
                let m = FontMap { values };
                proof {
                    assert forall|t: FontType| #[trigger] rs[font_type_index(t)] == Ok::<T, E>(m.spec_get(t)) by {
                        lemma_font_type_index(t);
                    }
                }
                Ok(m)
            },
            Err(f) => Err(f),
        }
    }

    /// The value of kind `t`.
    pub fn get(&self, t: FontType) -> (r: &T)
        requires
            self.wf(),
        ensures
            *r == self.spec_get(t),
    {
        proof {
            lemma_font_type_index(t);
        }
        &self.values[t.index()]
    }

    /// The values, in declaration order of the kinds.
    pub fn values(&self) -> (r: &Vec<T>)
        ensures
            r@ == self.spec_values(),
    {
        &self.values
    }

    /// The map whose value at each kind is `combine` of the two maps' values at that kind.
    pub fn zip_with<U, V, F: Fn(T, U) -> V>(self, other: FontMap<U>, combine: F) -> (m: FontMap<V>)
        requires
            self.wf(),
            other.wf(),
            forall|t: FontType| combine.requires((self.spec_get(t), other.spec_get(t))),
        ensures
            m.wf(),
            forall|t: FontType| combine.ensures((self.spec_get(t), other.spec_get(t)), #[trigger] m.spec_get(t)),
    {
        let ghost a0 = self.values@;
        let ghost b0 = other.values@;
        proof {
            assert forall|i: int| 0 <= i < 19 implies combine.requires((#[trigger] a0[i], b0[i])) by {
                lemma_font_type_index(font_type_at(i));
                assert(self.spec_get(font_type_at(i)) == a0[i]);
            }
        }
        let mut a = self.values;
        let mut b = other.values;
        let mut rev: Vec<V> = Vec::new();
        while a.len() > 0
            invariant
                a@.len() == b@.len(),
                a@.len() + rev@.len() == 19,
                a0.len() == 19,
                b0.len() == 19,
                a@ == a0.subrange(0, a@.len() as int),
                b@ == b0.subrange(0, b@.len() as int),
                forall|i: int| 0 <= i < 19 ==> combine.requires((#[trigger] a0[i], b0[i])),
                forall|j: int| 0 <= j < rev@.len() ==> combine.ensures((a0[18 - j], b0[18 - j]), #[trigger] rev@[j]),
            decreases a@.len(),
        {
            let ghost k = a@.len() - 1;
            let x = a.pop().unwrap();
            let y = b.pop().unwrap();
            proof {
                assert(x == a0[k]);
                assert(y == b0[k]);
                assert(a@ =~= a0.subrange(0, a@.len() as int));
                assert(b@ =~= b0.subrange(0, b@.len() as int));
            }
            let v = combine(x, y);
            rev.push(v);
        }
        let mut out: Vec<V> = Vec::new();
        while rev.len() > 0
            invariant
                rev@.len() + out@.len() == 19,
                forall|j: int| 0 <= j < rev@.len() ==> combine.ensures((a0[18 - j], b0[18 - j]), #[trigger] rev@[j]),
                forall|j: int| 0 <= j < out@.len() ==> combine.ensures((a0[j], b0[j]), #[trigger] out@[j]),
            decreases rev@.len(),
        {
            let v = rev.pop().unwrap();
            out.push(v);
        }
        let m = FontMap { values: out };
        proof {
            assert forall|t: FontType| combine.ensures((self.spec_get(t), other.spec_get(t)), #[trigger] m.spec_get(t)) by {
                lemma_font_type_index(t);
            }
        }
        m
    }
}

/// The parallel and the sequential construction agree: for a function whose result is
/// determined by the kind, two maps that each hold one of its results at every kind (what
/// `from_fn` and `par_from_fn` both ensure) are the same map.
pub proof fn law_par_from_fn_matches_from_fn<T, F: Fn(FontType) -> T>(value_of: F, a: FontMap<T>, b: FontMap<T>)
    requires
        forall|t: FontType, x: T, y: T|
            #![trigger value_of.ensures((t,), x), value_of.ensures((t,), y)]
            value_of.ensures((t,), x) && value_of.ensures((t,), y) ==> x == y,
        a.wf(),
        b.wf(),
        forall|t: FontType| value_of.ensures((t,), #[trigger] a.spec_get(t)),
        forall|t: FontType| value_of.ensures((t,), #[trigger] b.spec_get(t)),
    ensures
        a.spec_values() == b.spec_values(),
{
    assert forall|i: int| 0 <= i < 19 implies a.spec_values()[i] == b.spec_values()[i] by {
        lemma_font_type_at(i);
        let t = font_type_at(i);
        assert(a.spec_get(t) == a.spec_values()[i]);
        assert(b.spec_get(t) == b.spec_values()[i]);
        assert(value_of.ensures((t,), a.spec_get(t)));
        assert(value_of.ensures((t,), b.spec_get(t)));
    }
    assert(a.spec_values() =~= b.spec_values());
}

} // verus!
