//! OpenType tags as a font's settings write them: a script tag is four ASCII letters (kept in
//! the case written), a language system tag three or four ASCII letters or digits (a three-
//! letter one is padded with a space), and an axis or feature tag four ASCII bytes.

use vstd::prelude::*;
use crate::strs::chars_of;

verus! {

/// Whether `c` is an ASCII letter.
pub open spec fn is_ascii_letter(c: char) -> bool {
    ('a' <= c && c <= 'z') || ('A' <= c && c <= 'Z')
}

/// Whether `c` is an ASCII letter or digit.
pub open spec fn is_ascii_letter_or_digit(c: char) -> bool {
    is_ascii_letter(c) || ('0' <= c && c <= '9')
}

/// Whether `c` is an ASCII character.
pub open spec fn is_ascii_char(c: char) -> bool {
    c < '\u{80}'
}

/// The bytes of ASCII characters.
pub open spec fn ascii_bytes(s: Seq<char>) -> Seq<u8> {
    s.map_values(|c: char| (c as u32) as u8)
}

/// The script tag written `s`: four ASCII letters, as written.
pub open spec fn spec_script_tag(s: Seq<char>) -> Option<Seq<u8>> {
    if s.len() == 4 && forall|i: int| 0 <= i < 4 ==> #[trigger] is_ascii_letter(s[i]) {
        Some(ascii_bytes(s))
    } else {
        None
    }
}

/// The language system tag written `s`: three or four ASCII letters or digits, a three-letter
/// one padded with a space to four bytes.
pub open spec fn spec_ot_language_tag(s: Seq<char>) -> Option<Seq<u8>> {
    if (s.len() == 3 || s.len() == 4) && forall|i: int| 0 <= i < s.len() ==> #[trigger] is_ascii_letter_or_digit(s[i]) {
        if s.len() == 3 {
            Some(ascii_bytes(s).push(0x20u8))
        } else {
            Some(ascii_bytes(s))
        }
    } else {
        None
    }
}

/// The axis or feature tag written `s`: four ASCII characters.
pub open spec fn spec_opentype_tag(s: Seq<char>) -> Option<Seq<u8>> {
    if s.len() == 4 && forall|i: int| 0 <= i < 4 ==> #[trigger] is_ascii_char(s[i]) {
        Some(ascii_bytes(s))
    } else {
        None
    }
}

/// A tag that does not have its form.
#[derive(Debug, Clone, Copy, PartialEq, Eq, Structural)]
pub enum TagError {
    /// Not four ASCII letters.
    Script,
    /// Not three or four ASCII letters or digits.
    OtLanguage,
    /// Not four ASCII characters.
    OpenType,
}

/// What each tag error says to the user.
pub open spec fn tag_error_message(e: TagError) -> Seq<char> {
    match e {
        TagError::Script => "script タグは 4 文字の ASCII 英字である必要があります"@,
        TagError::OtLanguage => "ot_language タグは 3 または 4 文字の ASCII 英数字である必要があります"@,
        TagError::OpenType => "OpenType タグは 4 文字の ASCII 文字である必要があります"@,
    }
}

impl TagError {
    /// What the error says to the user (see [`tag_error_message`]).
    pub fn message(self) -> (s: &'static str)
        ensures
            s@ == tag_error_message(self),
    {
        match self {
            TagError::Script => "script タグは 4 文字の ASCII 英字である必要があります",
            TagError::OtLanguage => "ot_language タグは 3 または 4 文字の ASCII 英数字である必要があります",
            TagError::OpenType => "OpenType タグは 4 文字の ASCII 文字である必要があります",
        }
    }
}

/// The low byte of a character's code (its byte, for an ASCII character).
fn ascii_byte(c: char) -> (b: u8)
    ensures
        b == (c as u32) as u8,
{
    (c as u32) as u8
}

/// Reads a script tag (see [`spec_script_tag`]).
pub fn parse_script_tag(value: &str) -> (r: Result<[u8; 4], TagError>)
    ensures
        match spec_script_tag(value@) {
            Some(t) => r matches Ok(a) && a@ == t,
            None => r == Err::<[u8; 4], TagError>(TagError::Script),
        },
{
    let cs = chars_of(value);
    if cs.len() != 4 {
        return Err(TagError::Script);
    }
    let mut i: usize = 0;
    while i < 4
        invariant
            cs@ == value@,
            cs@.len() == 4,
            0 <= i <= 4,
            forall|j: int| 0 <= j < i ==> #[trigger] is_ascii_letter(cs@[j]),
        decreases 4 - i,
    {
        let c = cs[i];
        if !(('a' <= c && c <= 'z') || ('A' <= c && c <= 'Z')) {
            assert(!is_ascii_letter(value@[i as int]));
            return Err(TagError::Script);
        }
        i = i + 1;
    }
    let tag = [ascii_byte(cs[0]), ascii_byte(cs[1]), ascii_byte(cs[2]), ascii_byte(cs[3])];
    assert(tag@ =~= ascii_bytes(value@));
    Ok(tag)
}

/// Reads a language system tag (see [`spec_ot_language_tag`]).
pub fn parse_ot_language_tag(value: &str) -> (r: Result<[u8; 4], TagError>)
    ensures
        match spec_ot_language_tag(value@) {
            Some(t) => r matches Ok(a) && a@ == t,
            None => r == Err::<[u8; 4], TagError>(TagError::OtLanguage),
        },
{
    let cs = chars_of(value);
    let n = cs.len();
    if n != 3 && n != 4 {
        return Err(TagError::OtLanguage);
    }
    let mut i: usize = 0;
    while i < n
        invariant
            cs@ == value@,
            n == cs@.len(),
            0 <= i <= n,
            forall|j: int| 0 <= j < i ==> #[trigger] is_ascii_letter_or_digit(cs@[j]),
        decreases n - i,
    {
        let c = cs[i];
        if !(('a' <= c && c <= 'z') || ('A' <= c && c <= 'Z') || ('0' <= c && c <= '9')) {
            assert(!is_ascii_letter_or_digit(value@[i as int]));
            return Err(TagError::OtLanguage);
        }
        i = i + 1;
    }
    let last = if n == 3 {
        0x20u8
    } else {
        ascii_byte(cs[3])
    };
    let tag = [ascii_byte(cs[0]), ascii_byte(cs[1]), ascii_byte(cs[2]), last];
    if n == 3 {
        assert(tag@ =~= ascii_bytes(value@).push(0x20u8));
    } else {
        assert(tag@ =~= ascii_bytes(value@));
    }
    Ok(tag)
}

/// Reads an axis or feature tag (see [`spec_opentype_tag`]).
pub fn parse_opentype_tag(value: &str) -> (r: Result<[u8; 4], TagError>)
    ensures
        match spec_opentype_tag(value@) {
            Some(t) => r matches Ok(a) && a@ == t,
            None => r == Err::<[u8; 4], TagError>(TagError::OpenType),
        },
{
    let cs = chars_of(value);
    if cs.len() != 4 {
        return Err(TagError::OpenType);
    }
    let mut i: usize = 0;
    while i < 4
        invariant
            cs@ == value@,
            cs@.len() == 4,
            0 <= i <= 4,
            forall|j: int| 0 <= j < i ==> #[trigger] is_ascii_char(cs@[j]),
        decreases 4 - i,
    {
        if cs[i] >= '\u{80}' {
            assert(!is_ascii_char(value@[i as int]));
            return Err(TagError::OpenType);
        }
        i = i + 1;
    }
    let tag = [ascii_byte(cs[0]), ascii_byte(cs[1]), ascii_byte(cs[2]), ascii_byte(cs[3])];
    assert(tag@ =~= ascii_bytes(value@));
    Ok(tag)
}

} // verus!
