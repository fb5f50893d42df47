//! Lengths with units, held as an integer number of scaled points (1 sp = 1/65536 pt).
//!
//! Integer addition is exact and associative, so sums of lengths do not drift and do not depend
//! on the order in which they are added. Conversions from and to decimal `pt` / `mm` / `cm`
//! values go through floating point and live outside this library; here the literal is split
//! into its number and its unit.

use vstd::prelude::*;
use vstd::string::*;
use vstd::utf8::*;
use crate::strs::{byte_slice, str_trim, to_owned_string, trim_chars};

verus! {

broadcast use vstd::utf8::group_utf8_lib;

/// Scaled points per point.
pub const SP_PER_PT: i64 = 65536;

/// A length: an integer number of scaled points.
#[derive(Debug, Clone, Copy, PartialEq, Eq, PartialOrd, Ord, Hash, Default, Structural)]
pub struct Length {
    sp: i64,
}

/// The sum, in scaled points, of a sequence of lengths.
pub open spec fn sum_sp(s: Seq<Length>) -> int
    decreases s.len(),
{
    if s.len() == 0 {
        0
    } else {
        sum_sp(s.drop_last()) + s.last().spec_sp()
    }
}

impl Length {
    /// The number of scaled points.
    pub closed spec fn spec_sp(self) -> int {
        self.sp as int
    }

    /// The zero length.
    pub fn zero() -> (l: Length)
        ensures
            l.spec_sp() == 0,
    {
        Length { sp: 0 }
    }

    /// The length of `sp` scaled points.
    pub fn from_sp(sp: i64) -> (l: Length)
        ensures
            l.spec_sp() == sp,
    {
        Length { sp }
    }

    /// The number of scaled points.
    pub fn sp(self) -> (n: i64)
        ensures
            n == self.spec_sp(),
    {
        self.sp
    }

    /// Whether the length is strictly positive.
    pub fn is_positive(self) -> (b: bool)
        ensures
            b == (self.spec_sp() > 0),
    {
        self.sp > 0
    }

    /// Whether the length is zero or positive.
    pub fn is_non_negative(self) -> (b: bool)
        ensures
            b == (self.spec_sp() >= 0),
    {
        self.sp >= 0
    }

    /// The absolute value.
    pub fn abs(self) -> (l: Length)
        requires
            self.spec_sp() > i64::MIN,
        ensures
            l.spec_sp() == (if self.spec_sp() < 0 { -self.spec_sp() } else { self.spec_sp() }),
    {
        if self.sp < 0 {
            Length { sp: -self.sp }
        } else {
            self
        }
    }

    /// The exact sum `self + rhs`.
    pub fn plus(self, rhs: Length) -> (l: Length)
        requires
            i64::MIN <= self.spec_sp() + rhs.spec_sp() <= i64::MAX,
        ensures
            l.spec_sp() == self.spec_sp() + rhs.spec_sp(),
    {
        Length { sp: self.sp + rhs.sp }
    }

    /// The exact difference `self - rhs`.
    pub fn minus(self, rhs: Length) -> (l: Length)
        requires
            i64::MIN <= self.spec_sp() - rhs.spec_sp() <= i64::MAX,
        ensures
            l.spec_sp() == self.spec_sp() - rhs.spec_sp(),
    {
        Length { sp: self.sp - rhs.sp }
    }

    /// The opposite length `-self`.
    pub fn negated(self) -> (l: Length)
        requires
            self.spec_sp() > i64::MIN,
        ensures
            l.spec_sp() == -self.spec_sp(),
    {
        Length { sp: -self.sp }
    }

    /// Adds `rhs` to `self` in place.
    pub fn add_assign(&mut self, rhs: Length)
        requires
            i64::MIN <= old(self).spec_sp() + rhs.spec_sp() <= i64::MAX,
        ensures
            final(self).spec_sp() == old(self).spec_sp() + rhs.spec_sp(),
    {
        self.sp = self.sp + rhs.sp;
    }

    /// Subtracts `rhs` from `self` in place.
    pub fn sub_assign(&mut self, rhs: Length)
        requires
            i64::MIN <= old(self).spec_sp() - rhs.spec_sp() <= i64::MAX,
        ensures
            final(self).spec_sp() == old(self).spec_sp() - rhs.spec_sp(),
    {
        self.sp = self.sp - rhs.sp;
    }

    /// The exact integer multiple `self * n` (a dimensionless count; no rounding).
    pub fn times(self, n: i32) -> (l: Length)
        requires
            i64::MIN <= self.spec_sp() * n <= i64::MAX,
        ensures
            l.spec_sp() == self.spec_sp() * n,
    {
        Length { sp: self.sp * (n as i64) }
    }

    /// The exact sum of `items`, in any order the same.
    pub fn sum(items: &[Length]) -> (l: Length)
        requires
            forall|k: int| 0 <= k <= items@.len() ==> i64::MIN <= #[trigger] sum_sp(items@.subrange(0, k)) <= i64::MAX,
        ensures
            l.spec_sp() == sum_sp(items@),
    {
        let mut total: i64 = 0;
        let mut i: usize = 0;
        assert(items@.subrange(0, 0) =~= Seq::<Length>::empty());
        while i < items.len()
            invariant
                0 <= i <= items@.len(),
                forall|k: int| 0 <= k <= items@.len() ==> i64::MIN <= #[trigger] sum_sp(items@.subrange(0, k)) <= i64::MAX,
                total == sum_sp(items@.subrange(0, i as int)),
            decreases items@.len() - i,
        {
            assert(items@.subrange(0, i + 1).drop_last() =~= items@.subrange(0, i as int));
            assert(sum_sp(items@.subrange(0, i + 1)) == total + items@[i as int].spec_sp());
            total = total + items[i].sp;
            i = i + 1;
        }
        assert(items@.subrange(0, i as int) =~= items@);
        Length { sp: total }
    }
}

/// The sum of a concatenation is the sum of the sums.
pub proof fn law_sum_concat(a: Seq<Length>, b: Seq<Length>)
    ensures
        sum_sp(a + b) == sum_sp(a) + sum_sp(b),
    decreases b.len(),
{
    if b.len() == 0 {
        assert(a + b =~= a);
    } else {
        law_sum_concat(a, b.drop_last());
        assert((a + b).drop_last() =~= a + b.drop_last());
        assert((a + b).last() == b.last());
    }
}

proof fn lemma_sum_remove(b: Seq<Length>, k: int)
    requires
        0 <= k < b.len(),
    ensures
        sum_sp(b) == sum_sp(b.remove(k)) + b[k].spec_sp(),
{
    let pre = b.subrange(0, k);
    let post = b.subrange(k + 1, b.len() as int);
    assert(b =~= pre + seq![b[k]] + post);
    assert(b.remove(k) =~= pre + post);
    law_sum_concat(pre + seq![b[k]], post);
    law_sum_concat(pre, seq![b[k]]);
    law_sum_concat(pre, post);
    assert(seq![b[k]].drop_last() =~= Seq::<Length>::empty());
    assert(sum_sp(Seq::<Length>::empty()) == 0);
    assert(sum_sp(seq![b[k]]) == b[k].spec_sp());
}

/// The sum does not depend on the order of the terms: two sequences holding the same lengths
/// the same number of times have the same sum.
pub proof fn law_sum_permutation(a: Seq<Length>, b: Seq<Length>)
    requires
        a.to_multiset() == b.to_multiset(),
    ensures
        sum_sp(a) == sum_sp(b),
    decreases a.len(),
{
    broadcast use vstd::multiset::group_multiset_axioms;
    broadcast use vstd::seq_lib::group_to_multiset_ensures;
    vstd::seq_lib::to_multiset_len(a);
    vstd::seq_lib::to_multiset_len(b);
    if a.len() == 0 {
        assert(b.len() == 0);
    } else {
        let x = a.last();
        let rest = a.drop_last();
        assert(rest.push(x) =~= a);
        vstd::seq_lib::to_multiset_build(rest, x);
        assert(a.to_multiset().count(x) > 0);
        vstd::seq_lib::to_multiset_contains(b, x);
        assert(b.contains(x));
        let k = choose|k: int| 0 <= k < b.len() && b[k] == x;
        vstd::seq_lib::to_multiset_remove(b, k);
        assert(b.remove(k).to_multiset() =~= rest.to_multiset());
        law_sum_permutation(rest, b.remove(k));
        lemma_sum_remove(b, k);
    }
}

/// A length that is not strictly positive where one is required, or negative where a
/// non-negative one is.
#[derive(Debug, Clone, Copy, PartialEq, Eq, Structural)]
pub enum LengthRangeError {
    /// Zero or negative, where a positive length is required.
    NotPositive,
    /// Negative, where a non-negative length is required.
    Negative,
}

/// Accepts exactly the strictly positive lengths.
pub fn positive(value: &Length) -> (r: Result<(), LengthRangeError>)
    ensures
        r is Ok <==> value.spec_sp() > 0,
        r is Err ==> r == Err::<(), LengthRangeError>(LengthRangeError::NotPositive),
{
    if value.is_positive() {
        Ok(())
    } else {
        Err(LengthRangeError::NotPositive)
    }
}

/// Accepts exactly the lengths that are zero or positive.
pub fn non_negative(value: &Length) -> (r: Result<(), LengthRangeError>)
    ensures
        r is Ok <==> value.spec_sp() >= 0,
        r is Err ==> r == Err::<(), LengthRangeError>(LengthRangeError::Negative),
{
    if value.is_non_negative() {
        Ok(())
    } else {
        Err(LengthRangeError::Negative)
    }
}

/// The unit of a length literal.
#[derive(Debug, Clone, Copy, PartialEq, Eq, Structural)]
pub enum LengthUnit {
    /// Points (1/72 inch).
    Pt,
    /// Millimetres.
    Mm,
    /// Centimetres.
    Cm,
}

/// The two ASCII bytes that spell a unit.
pub open spec fn unit_bytes(u: LengthUnit) -> Seq<u8> {
    match u {
        LengthUnit::Pt => seq![0x70u8, 0x74u8],
        LengthUnit::Mm => seq![0x6du8, 0x6du8],
        LengthUnit::Cm => seq![0x63u8, 0x6du8],
    }
}

/// `bytes` ends with the spelling of `u`.
pub open spec fn ends_with_unit(bytes: Seq<u8>, u: LengthUnit) -> bool {
    bytes.len() >= 2 && bytes.subrange(bytes.len() - 2, bytes.len() as int) == unit_bytes(u)
}

/// The literal `<number><unit>` split into its number text and unit, or `None` when the
/// trimmed literal ends in none of `pt` / `mm` / `cm` (units are checked in that order). Only
/// the literal as a whole is trimmed: white space between the number and the unit stays in the
/// number text, which then reads as no number.
pub open spec fn spec_split_length_literal(t: &str) -> Option<(Seq<char>, LengthUnit)> {
    let b = encode_utf8(trim_chars(t@));
    if ends_with_unit(b, LengthUnit::Pt) {
        Some((decode_utf8(b.subrange(0, b.len() - 2)), LengthUnit::Pt))
    } else if ends_with_unit(b, LengthUnit::Mm) {
        Some((decode_utf8(b.subrange(0, b.len() - 2)), LengthUnit::Mm))
    } else if ends_with_unit(b, LengthUnit::Cm) {
        Some((decode_utf8(b.subrange(0, b.len() - 2)), LengthUnit::Cm))
    } else {
        None
    }
}

/// Whether the trimmed bytes end with the spelling of `u`.
fn has_unit_suffix(b: &[u8], u: LengthUnit) -> (r: bool)
    ensures
        r == ends_with_unit(b@, u),
{
    let (x, y): (u8, u8) = match u {
        LengthUnit::Pt => (0x70, 0x74),
        LengthUnit::Mm => (0x6d, 0x6d),
        LengthUnit::Cm => (0x63, 0x6d),
    };
    if b.len() < 2 {
        return false;
    }
    let r = b[b.len() - 2] == x && b[b.len() - 1] == y;
    proof {
        let s = b@.subrange(b@.len() - 2, b@.len() as int);
        if r {
            assert(s =~= unit_bytes(u));
        } else {
            assert(s[0] == b@[b@.len() - 2]);
            assert(s[1] == b@[b@.len() - 1]);
        }
    }
    r
}

/// Splits a length literal such as `" 12.5pt "` into its number text (`"12.5"`) and its unit;
/// surrounding white space is allowed, and `None` means the unit is not `pt`, `mm` or `cm`.
pub fn split_length_literal(value: &str) -> (r: Option<(String, LengthUnit)>)
    ensures
        r is None <==> spec_split_length_literal(value) is None,
        r matches Some((num, unit)) ==> spec_split_length_literal(value) == Some((num@, unit)),
{
    let trimmed = str_trim(value);
    let b = trimmed.as_bytes();
    proof {
        assert(b@ == encode_utf8(trim_chars(value@)));
    }
    let unit = if has_unit_suffix(b, LengthUnit::Pt) {
        LengthUnit::Pt
    } else if has_unit_suffix(b, LengthUnit::Mm) {
        LengthUnit::Mm
    } else if has_unit_suffix(b, LengthUnit::Cm) {
        LengthUnit::Cm
    } else {
        return None;
    };
    let cut = b.len() - 2;
    proof {
        let bytes = trimmed.spec_bytes();
        assert(bytes[cut as int] == b@[cut as int]);
        is_char_boundary_iff_not_is_continuation_byte(bytes, cut as int);
        is_char_boundary_start_end_of_seq(bytes);
    }
    let number = byte_slice(trimmed, 0, cut);
    let num = to_owned_string(number);
    Some((num, unit))
}

/// A length literal in none of the accepted forms.
#[derive(Debug, Clone, PartialEq, Eq)]
pub struct ParseLengthError {
    input: String,
}

impl ParseLengthError {
    /// The error for the literal `input`.
    pub fn new(input: &str) -> (e: ParseLengthError)
        ensures
            e.spec_input() == input@,
    {
        ParseLengthError { input: to_owned_string(input) }
    }

    /// The rejected literal.
    pub closed spec fn spec_input(&self) -> Seq<char> {
        self.input@
    }

    /// The rejected literal.
    pub fn input(&self) -> (s: &str)
        ensures
            s@ == self.spec_input(),
    {
        self.input.as_str()
    }
}

} // verus!
