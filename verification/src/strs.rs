//! Byte-range access to UTF-8 text and small verified string helpers.

use vstd::prelude::*;
use vstd::utf8::*;
use vstd::string::*;

verus! {

broadcast use vstd::utf8::group_utf8_lib;

/// `[start, end)` is a range of whole characters of the UTF-8 byte sequence `bytes`.
pub open spec fn char_range(bytes: Seq<u8>, start: int, end: int) -> bool {
    &&& 0 <= start <= end <= bytes.len()
    &&& is_char_boundary(bytes, start)
    &&& is_char_boundary(bytes, end)
}

/// The characters encoded by the bytes `[start, end)` of `bytes`.
pub open spec fn range_chars(bytes: Seq<u8>, start: int, end: int) -> Seq<char> {
    decode_utf8(bytes.subrange(start, end))
}

/// A character boundary of a valid sequence stays a boundary, shifted, in any suffix that
/// starts at a boundary.
pub proof fn lemma_boundary_in_suffix(bytes: Seq<u8>, a: int, i: int)
    requires
        valid_utf8(bytes),
        0 <= a,
        0 <= i,
        a + i <= bytes.len(),
        is_char_boundary(bytes, a),
        is_char_boundary(bytes, a + i),
    ensures
        valid_utf8(bytes.subrange(a, bytes.len() as int)),
        is_char_boundary(bytes.subrange(a, bytes.len() as int), i),
{
    let suffix = bytes.subrange(a, bytes.len() as int);
    valid_utf8_split(bytes, a);
    if a + i == bytes.len() {
        is_char_boundary_start_end_of_seq(suffix);
    } else {
        is_char_boundary_iff_not_is_continuation_byte(bytes, a + i);
        is_char_boundary_iff_not_is_continuation_byte(suffix, i);
        assert(suffix[i] == bytes[a + i]);
    }
}

/// The text of the bytes `[start, end)` of `s`.
pub fn byte_slice(s: &str, start: usize, end: usize) -> (r: &str)
    requires
        char_range(s.spec_bytes(), start as int, end as int),
    ensures
        r.spec_bytes() == s.spec_bytes().subrange(start as int, end as int),
        r@ == range_chars(s.spec_bytes(), start as int, end as int),
{
    let ghost b = s.spec_bytes();
    proof {
        lemma_boundary_in_suffix(b, start as int, (end - start) as int);
    }
    let (_, rest) = s.split_at(start);
    assert(rest.spec_bytes() =~= b.subrange(start as int, b.len() as int));
    let (mid, _) = rest.split_at(end - start);
    assert(mid.spec_bytes() =~= b.subrange(start as int, end as int));
    proof {
        assert(decode_utf8(encode_utf8(mid@)) == mid@);
    }
    mid
}

/// Whether two strings hold the same characters.
pub fn str_eq(a: &str, b: &str) -> (r: bool)
    ensures
        r == (a@ == b@),
{
    let x = a.as_bytes();
    let y = b.as_bytes();
    proof {
        assert(decode_utf8(encode_utf8(a@)) == a@);
        assert(decode_utf8(encode_utf8(b@)) == b@);
    }
    if x.len() != y.len() {
        return false;
    }
    let mut i: usize = 0;
    while i < x.len()
        invariant
            x@ == a.spec_bytes(),
            y@ == b.spec_bytes(),
            x@.len() == y@.len(),
            0 <= i <= x@.len(),
            x@.subrange(0, i as int) == y@.subrange(0, i as int),
        decreases x@.len() - i,
    {
        if x[i] != y[i] {
            assert(x@[i as int] != y@[i as int]);
            return false;
        }
        assert(x@.subrange(0, i + 1) =~= x@.subrange(0, i as int).push(x@[i as int]));
        assert(y@.subrange(0, i + 1) =~= y@.subrange(0, i as int).push(y@[i as int]));
        i = i + 1;
    }
    assert(x@ =~= x@.subrange(0, i as int));
    assert(y@ =~= y@.subrange(0, i as int));
    true
}

/// Whether `c` has the Unicode `White_Space` property (what `char::is_whitespace` tests).
pub open spec fn is_white_space(c: char) -> bool {
    let u = c as u32;
    ||| 0x9 <= u <= 0xD
    ||| u == 0x20
    ||| u == 0x85
    ||| u == 0xA0
    ||| u == 0x1680
    ||| 0x2000 <= u <= 0x200A
    ||| u == 0x2028
    ||| u == 0x2029
    ||| u == 0x202F
    ||| u == 0x205F
    ||| u == 0x3000
}

/// `s` without its leading white space.
pub open spec fn trim_start_chars(s: Seq<char>) -> Seq<char>
    decreases s.len(),
{
    if s.len() > 0 && is_white_space(s[0]) {
        trim_start_chars(s.drop_first())
    } else {
        s
    }
}

/// `s` without its trailing white space.
pub open spec fn trim_end_chars(s: Seq<char>) -> Seq<char>
    decreases s.len(),
{
    if s.len() > 0 && is_white_space(s.last()) {
        trim_end_chars(s.drop_last())
    } else {
        s
    }
}

/// `s` without its leading and trailing white space.
pub open spec fn trim_chars(s: Seq<char>) -> Seq<char> {
    trim_end_chars(trim_start_chars(s))
}

/// `s` without leading and trailing white space, as `str::trim` computes it.
#[verifier::external_body]
pub fn str_trim(s: &str) -> (r: &str)
    ensures
        r@ == trim_chars(s@),
{
    s.trim()
}

/// An owned copy of `s`.
pub fn to_owned_string(s: &str) -> (r: String)
    ensures
        r@ == s@,
{
    String::from_str(s)
}

/// Appends the character `c` to `s`, as `String::push` does.
#[verifier::external_body]
pub fn string_push(s: &mut String, c: char)
    ensures
        final(s)@ == old(s)@.push(c),
{
    s.push(c)
}

/// The characters of `s`, in order.
pub fn chars_of(s: &str) -> (r: Vec<char>)
    ensures
        r@ == s@,
{
    let mut v: Vec<char> = Vec::new();
    for c in iter: s.chars()
        invariant
            v@.len() == iter.index(),
            forall|i: int| 0 <= i < v@.len() ==> v@[i] == iter.seq()[i],
    {
        v.push(c);
    }
    assert(v@ =~= s@);
    v
}

/// `cur` as a sequence of words: itself when it is not empty, nothing otherwise.
pub open spec fn pending_word(cur: Seq<char>) -> Seq<Seq<char>> {
    if cur.len() > 0 {
        seq![cur]
    } else {
        Seq::empty()
    }
}

/// The words of `s` when the word `cur` has been read just before it: the maximal runs of
/// characters that are not white space, in order.
pub open spec fn words_after(cur: Seq<char>, s: Seq<char>) -> Seq<Seq<char>>
    decreases s.len(),
{
    if s.len() == 0 {
        pending_word(cur)
    } else if is_white_space(s[0]) {
        pending_word(cur) + words_after(Seq::empty(), s.drop_first())
    } else {
        words_after(cur.push(s[0]), s.drop_first())
    }
}

/// The words of `s`: its maximal runs of characters that are not white space, in order (what
/// `str::split_whitespace` yields).
pub open spec fn words(s: Seq<char>) -> Seq<Seq<char>> {
    words_after(Seq::empty(), s)
}

/// The words of `s` (see [`words`]).
pub fn split_words(s: &str) -> (r: Vec<String>)
    ensures
        r@.map_values(|w: String| w@) == words(s@),
{
    let chars = chars_of(s);
    let mut out: Vec<String> = Vec::new();
    let mut cur = String::new();
    let mut in_word = false;
    let mut i: usize = 0;
    proof {
        assert(chars@.skip(0) =~= chars@);
        assert(out@.map_values(|w: String| w@) =~= Seq::<Seq<char>>::empty());
        assert(cur@ =~= Seq::<char>::empty());
    }
    while i < chars.len()
        invariant
            0 <= i <= chars@.len(),
            chars@ == s@,
            in_word == (cur@.len() > 0),
            out@.map_values(|w: String| w@) + words_after(cur@, chars@.skip(i as int)) == words(s@),
        decreases chars@.len() - i,
    {
        let c = chars[i];
        let ghost rest = chars@.skip(i as int);
        proof {
            assert(rest[0] == c);
            assert(rest.drop_first() =~= chars@.skip(i + 1));
        }
        if is_white_space_char(c) {
            if in_word {
                let word = cur;
                proof {
                    assert(pending_word(word@) =~= seq![word@]);
                }
                out.push(word);
                cur = String::new();
                in_word = false;
                proof {
                    assert(cur@ =~= Seq::<char>::empty());
                    let before = out@.drop_last().map_values(|w: String| w@);
                    assert(out@.map_values(|w: String| w@) =~= before.push(word@));
                    assert(before.push(word@) + words_after(cur@, chars@.skip(i + 1))
                        =~= before + (pending_word(word@) + words_after(Seq::empty(), chars@.skip(i + 1))));
                }
            } else {
                proof {
                    assert(pending_word(cur@) =~= Seq::<Seq<char>>::empty());
                    assert(cur@ =~= Seq::<char>::empty());
                    assert(pending_word(cur@) + words_after(Seq::empty(), chars@.skip(i + 1))
                        =~= words_after(cur@, chars@.skip(i + 1)));
                }
            }
        } else {
            let ghost before = cur@;
            string_push(&mut cur, c);
            in_word = true;
            proof {
                assert(cur@ == before.push(c));
            }
        }
        i = i + 1;
    }
    proof {
        assert(chars@.skip(i as int) =~= Seq::<char>::empty());
    }
    if in_word {
        let word = cur;
        proof {
            let before = out@.map_values(|w: String| w@);
            assert(before + words_after(word@, Seq::<char>::empty()) =~= before.push(word@));
        }
        out.push(word);
        proof {
            assert(out@.map_values(|w: String| w@) =~= out@.drop_last().map_values(|w: String| w@).push(word@));
        }
    } else {
        proof {
            let before = out@.map_values(|w: String| w@);
            assert(before + words_after(cur@, Seq::<char>::empty()) =~= before);
        }
    }
    out
}

/// Whether `c` is white space (see [`is_white_space`]).
pub fn is_white_space_char(c: char) -> (b: bool)
    ensures
        b == is_white_space(c),
{
    let u = c as u32;
    (0x9 <= u && u <= 0xD) || u == 0x20 || u == 0x85 || u == 0xA0 || u == 0x1680 || (0x2000 <= u && u <= 0x200A)
        || u == 0x2028 || u == 0x2029 || u == 0x202F || u == 0x205F || u == 0x3000
}

} // verus!
