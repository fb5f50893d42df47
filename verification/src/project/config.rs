//! The pure parts of reading `config.toml`: value checks, language strings, and the resolution
//! and existence checks of the paths it names. Parsing the TOML itself happens at the edge.

use vstd::prelude::*;
use vstd::string::*;
use crate::project::font::{FontType, FONT_TYPE_COUNT, font_type_at, toml_key};
use crate::project::font_map::FontMap;
use crate::project::path::{PathComponent, ProjectPath, spec_components};
use crate::project::path_resolver::{join_path, spec_join};
use crate::project::source::ProjectSource;
use crate::project::tag::{
    parse_opentype_tag, parse_ot_language_tag, parse_script_tag, spec_opentype_tag, spec_ot_language_tag,
    spec_script_tag, tag_error_message, TagError,
};
use crate::strs::{chars_of, str_eq, string_push, to_owned_string};

verus! {

/// A value of `config.toml` that fails its check, or a path it names that does not exist.
#[derive(Debug)]
pub enum ConfigValidationError {
    /// A field whose value is invalid, with the TOML path of the field.
    Field { path: String, message: String },
    /// The font file of a font kind does not exist.
    FontPathResolution { font_type: FontType, path: String },
    /// The style file does not exist.
    StylePathResolution { path: String },
    /// The references file does not exist.
    ReferencesPathResolution { path: String },
    /// A source file does not exist.
    SourcePathResolution { path: String },
}

/// A problem that does not stop reading the configuration.
#[derive(Debug, Clone, PartialEq, Eq)]
pub enum ConfigWarning {
    /// A source file whose extension is not `.sei`, with its path as written.
    SourceExtension { path: String },
}

/// The BCP 47 string handed to text shaping: the language, with the private-use subtag
/// `-x-hbot<TAG>` appended when an OpenType language tag is given (on the base `und` when no
/// language is).
pub open spec fn spec_language_string(language: Option<Seq<char>>, ot_language: Option<Seq<char>>) -> Option<Seq<char>> {
    match (language, ot_language) {
        (None, None) => None,
        (Some(l), None) => Some(l),
        (None, Some(o)) => Some("und-x-hbot"@ + o),
        (Some(l), Some(o)) => Some(l + "-x-hbot"@ + o),
    }
}

/// The language string for text shaping (see [`spec_language_string`]).
pub fn build_language_string(language: Option<&str>, ot_language: Option<&str>) -> (r: Option<String>)
    ensures
        match r {
            None => spec_language_string(
                match language { Some(l) => Some(l@), None => None },
                match ot_language { Some(o) => Some(o@), None => None },
            ) is None,
            Some(s) => spec_language_string(
                match language { Some(l) => Some(l@), None => None },
                match ot_language { Some(o) => Some(o@), None => None },
            ) == Some(s@),
        },
{
    match (language, ot_language) {
        (None, None) => None,
        (Some(lang), None) => Some(to_owned_string(lang)),
        (None, Some(ot_lang)) => {
            let mut s = to_owned_string("und-x-hbot");
            s.append(ot_lang);
            Some(s)
        },
        (Some(lang), Some(ot_lang)) => {
            let mut s = to_owned_string(lang);
            s.append("-x-hbot");
            s.append(ot_lang);
            Some(s)
        },
    }
}

/// The output directory: an absolute `output_dir` as it is, a relative one under `base_dir`,
/// and `base_dir` itself when none is given.
pub fn resolve_output_dir_path(base_dir: &str, output_dir: Option<&str>) -> (r: String)
    ensures
        match output_dir {
            Some(p) => r@ == spec_join(base_dir@, p@),
            None => r@ == base_dir@,
        },
{
    match output_dir {
        Some(path) => join_path(base_dir, path),
        None => to_owned_string(base_dir),
    }
}

/// `path` under `base_dir` when relative, as it is when absolute.
pub fn join_with_base(path: &str, base_dir: &str) -> (r: String)
    ensures
        r@ == spec_join(base_dir@, path@),
{
    join_path(base_dir, path)
}

/// Why a document name is rejected.
#[derive(Debug, Clone, Copy, PartialEq, Eq, Structural)]
pub enum DocumentNameError {
    /// The name is empty.
    Empty,
    /// The name holds `/` or `\`.
    PathSeparator,
    /// The name is `.` or `..`.
    DotName,
}

impl DocumentNameError {
    /// What the error says to the user.
    pub fn message(self) -> (s: &'static str)
        ensures
            self == DocumentNameError::Empty ==> s@ == "ドキュメント名は空にできません"@,
            self == DocumentNameError::PathSeparator ==> s@ == "ドキュメント名にパスセパレータ ('/' または '\\\\') を含めることはできません"@,
            self == DocumentNameError::DotName ==> s@ == "ドキュメント名を '.' または '..' にすることはできません"@,
    {
        match self {
            DocumentNameError::Empty => "ドキュメント名は空にできません",
            DocumentNameError::PathSeparator => "ドキュメント名にパスセパレータ ('/' または '\\\\') を含めることはできません",
            DocumentNameError::DotName => "ドキュメント名を '.' または '..' にすることはできません",
        }
    }
}

/// Whether `s` holds the character `c`.
pub fn contains_char(s: &str, c: char) -> (b: bool)
    ensures
        b == s@.contains(c),
{
    let cs = chars_of(s);
    let mut i: usize = 0;
    while i < cs.len()
        invariant
            cs@ == s@,
            0 <= i <= cs@.len(),
            forall|j: int| 0 <= j < i ==> cs@[j] != c,
        decreases cs@.len() - i,
    {
        if cs[i] == c {
            return true;
        }
        i = i + 1;
    }
    false
}

/// The check of the output document's name: not empty, no path separator, not `.` or `..`.
pub open spec fn spec_document_name_error(name: Seq<char>) -> Option<DocumentNameError> {
    if name.len() == 0 {
        Some(DocumentNameError::Empty)
    } else if name.contains('/') || name.contains('\\') {
        Some(DocumentNameError::PathSeparator)
    } else if name =~= seq!['.'] || name =~= seq!['.', '.'] {
        Some(DocumentNameError::DotName)
    } else {
        None
    }
}

/// Checks the output document's name (see [`spec_document_name_error`]).
pub fn validate_document_name(value: &str) -> (r: Result<(), DocumentNameError>)
    ensures
        match spec_document_name_error(value@) {
            None => r is Ok,
            Some(e) => r == Err::<(), DocumentNameError>(e),
        },
{
    if value.is_empty() {
        return Err(DocumentNameError::Empty);
    }
    if contains_char(value, '/') || contains_char(value, '\\') {
        return Err(DocumentNameError::PathSeparator);
    }
    let dot = ".";
    let dot_dot = "..";
    proof {
        reveal_strlit(".");
        reveal_strlit("..");
        assert(dot@ =~= seq!['.']);
        assert(dot_dot@ =~= seq!['.', '.']);
    }
    if str_eq(value, dot) || str_eq(value, dot_dot) {
        return Err(DocumentNameError::DotName);
    }
    Ok(())
}

/// The index of the first empty keyword, when there is one.
pub fn validate_keywords(value: Option<&Vec<String>>) -> (r: Result<(), usize>)
    ensures
        match value {
            None => r is Ok,
            Some(ks) => match r {
                Ok(()) => forall|i: int| 0 <= i < ks@.len() ==> (#[trigger] ks@[i])@.len() > 0,
                Err(i) => i < ks@.len() && ks@[i as int]@.len() == 0 && forall|j: int| 0 <= j < i ==> (#[trigger] ks@[j])@.len() > 0,
            },
        },
{
    match value {
        None => Ok(()),
        Some(keywords) => {
            let mut i: usize = 0;
            while i < keywords.len()
                invariant
                    value == Some(keywords),
                    0 <= i <= keywords@.len(),
                    forall|j: int| 0 <= j < i ==> (#[trigger] keywords@[j])@.len() > 0,
                decreases keywords@.len() - i,
            {
                if keywords[i].as_str().is_empty() {
                    return Err(i);
                }
                i = i + 1;
            }
            Ok(())
        },
    }
}

/// Accepts exactly a non-empty list of sources.
pub fn validate_non_empty_sources(value: &Vec<String>) -> (r: Result<(), ()>)
    ensures
        r is Ok <==> value@.len() > 0,
{
    if value.len() == 0 {
        Err(())
    } else {
        Ok(())
    }
}

/// Accepts no output directory or a non-empty one.
pub fn validate_output_dir(value: Option<&str>) -> (r: Result<(), ()>)
    ensures
        r is Ok <==> match value {
            None => true,
            Some(p) => p@.len() > 0,
        },
{
    match value {
        None => Ok(()),
        Some(path) => {
            if path.is_empty() {
                Err(())
            } else {
                Ok(())
            }
        },
    }
}

/// `needle` occurs in `hay`.
pub open spec fn occurs_in(hay: Seq<char>, needle: Seq<char>) -> bool {
    exists|i: int| 0 <= i && i + needle.len() <= hay.len() && #[trigger] hay.subrange(i, i + needle.len()) == needle
}

/// Whether `needle` occurs in `hay`.
pub fn contains_str(hay: &str, needle: &str) -> (b: bool)
    ensures
        b == occurs_in(hay@, needle@),
{
    let h = chars_of(hay);
    let n = chars_of(needle);
    if n.len() > h.len() {
        return false;
    }
    let hl: usize = h.len();
    let mut i: usize = 0;
    while i <= hl - n.len()
        invariant
            hl == h@.len(),
            h@ == hay@,
            n@ == needle@,
            n@.len() <= h@.len(),
            0 <= i <= h@.len() - n@.len() + 1,
            forall|k: int| 0 <= k < i ==> #[trigger] h@.subrange(k, k + n@.len()) != n@,
        decreases h@.len() - i,
    {
        let mut j: usize = 0;
        let mut same = true;
        while j < n.len()
            invariant
                hl == h@.len(),
                h@ == hay@,
                n@ == needle@,
                i + n@.len() <= h@.len(),
                0 <= j <= n@.len(),
                same == forall|m: int| 0 <= m < j ==> h@[i + m] == n@[m],
            decreases n@.len() - j,
        {
            assert(i + j < h@.len());
            if h[i + j] != n[j] {
                same = false;
            }
            j = j + 1;
        }
        if same {
            assert(h@.subrange(i as int, i + n@.len()) =~= n@);
            return true;
        }
        proof {
            let m = choose|m: int| 0 <= m < n@.len() && h@[i + m] != n@[m];
            assert(h@.subrange(i as int, i + n@.len())[m] != n@[m]);
        }
        i = i + 1;
    }
    proof {
        assert forall|k: int| 0 <= k && k + needle@.len() <= hay@.len() implies #[trigger] hay@.subrange(k, k + needle@.len()) != needle@ by {
            assert(k < i);
        }
    }
    false
}

/// Why `unic_langid` refuses a language identifier.
#[derive(Debug, Clone, Copy, PartialEq, Eq, Structural)]
pub enum LanguageIdError {
    /// An error other than the parser's.
    Unknown,
    /// The language subtag is invalid.
    InvalidLanguage,
    /// Another subtag is invalid.
    InvalidSubtag,
}

/// What `LanguageIdentifier::from_bytes` says of `bytes`: `None` when it accepts them, and
/// otherwise why it refuses them.
pub uninterp spec fn language_identifier_error(bytes: Seq<u8>) -> Option<LanguageIdError>;

/// Parses `bytes` with `LanguageIdentifier::from_bytes` and keeps only the outcome (see
/// [`language_identifier_error`]).
#[verifier::external_body]
fn check_language_identifier(bytes: &[u8]) -> (r: Option<LanguageIdError>)
    ensures
        r == language_identifier_error(bytes@),
{
    match unic_langid::LanguageIdentifier::from_bytes(bytes) {
        Ok(_) => None,
        Err(unic_langid::LanguageIdentifierError::Unknown) => Some(LanguageIdError::Unknown),
        Err(unic_langid::LanguageIdentifierError::ParserError(unic_langid::parser::ParserError::InvalidLanguage)) => {
            Some(LanguageIdError::InvalidLanguage)
        },
        Err(unic_langid::LanguageIdentifierError::ParserError(unic_langid::parser::ParserError::InvalidSubtag)) => {
            Some(LanguageIdError::InvalidSubtag)
        },
    }
}

/// Why a language tag is rejected.
#[derive(Debug, Clone, Copy, PartialEq, Eq, Structural)]
pub enum LanguageError {
    /// It holds the reserved private-use subtag `-x-hbsc` or `-x-hbot`.
    ReservedSubtag,
    /// It is not a valid BCP 47 language identifier, for the parser's reason.
    Invalid(LanguageIdError),
}

/// What each rejection says to the user; an invalid tag is described with the parser's reason
/// as `unic_langid` words it.
pub open spec fn language_error_message(e: LanguageError) -> Seq<char> {
    match e {
        LanguageError::ReservedSubtag => "language に '-x-hbsc' / '-x-hbot' 予約サブタグを含めることはできません。OT タグ強制には 'script' / 'ot_language' フィールドを使用してください"@,
        LanguageError::Invalid(LanguageIdError::Unknown) => "BCP 47 言語タグとして不正です: Unknown error"@,
        LanguageError::Invalid(LanguageIdError::InvalidLanguage) => "BCP 47 言語タグとして不正です: Parser error: The given language subtag is invalid"@,
        LanguageError::Invalid(LanguageIdError::InvalidSubtag) => "BCP 47 言語タグとして不正です: Parser error: Invalid subtag"@,
    }
}

impl LanguageError {
    /// What the error says to the user (see [`language_error_message`]).
    pub fn message(self) -> (s: &'static str)
        ensures
            s@ == language_error_message(self),
    {
        match self {
            LanguageError::ReservedSubtag => "language に '-x-hbsc' / '-x-hbot' 予約サブタグを含めることはできません。OT タグ強制には 'script' / 'ot_language' フィールドを使用してください",
            LanguageError::Invalid(LanguageIdError::Unknown) => "BCP 47 言語タグとして不正です: Unknown error",
            LanguageError::Invalid(LanguageIdError::InvalidLanguage) => "BCP 47 言語タグとして不正です: Parser error: The given language subtag is invalid",
            LanguageError::Invalid(LanguageIdError::InvalidSubtag) => "BCP 47 言語タグとして不正です: Parser error: Invalid subtag",
        }
    }
}

/// Checks the document language: absent, or a valid language identifier.
pub fn validate_document_language(value: Option<&str>) -> (r: Result<(), LanguageError>)
    ensures
        match value {
            None => r is Ok,
            Some(l) => match language_identifier_error(l.spec_bytes()) {
                None => r is Ok,
                Some(e) => r == Err::<(), LanguageError>(LanguageError::Invalid(e)),
            },
        },
{
    match value {
        None => Ok(()),
        Some(language) => match check_language_identifier(language.as_bytes()) {
            None => Ok(()),
            Some(e) => Err(LanguageError::Invalid(e)),
        },
    }
}

/// Checks a font's language: absent, or a valid language identifier without the subtags
/// reserved for forcing OpenType tags.
pub fn validate_bcp47_language(value: Option<&str>) -> (r: Result<(), LanguageError>)
    ensures
        match value {
            None => r is Ok,
            Some(l) => if occurs_in(l@, "-x-hbsc"@) || occurs_in(l@, "-x-hbot"@) {
                r == Err::<(), LanguageError>(LanguageError::ReservedSubtag)
            } else {
                match language_identifier_error(l.spec_bytes()) {
                    None => r is Ok,
                    Some(e) => r == Err::<(), LanguageError>(LanguageError::Invalid(e)),
                }
            },
        },
{
    match value {
        None => Ok(()),
        Some(language) => {
            if contains_str(language, "-x-hbsc") || contains_str(language, "-x-hbot") {
                return Err(LanguageError::ReservedSubtag);
            }
            match check_language_identifier(language.as_bytes()) {
                None => Ok(()),
                Some(e) => Err(LanguageError::Invalid(e)),
            }
        },
    }
}

/// The writing direction of a font.
#[derive(Debug, Clone, Copy, PartialEq, Eq, Structural)]
pub enum TextDirection {
    /// `left-to-right`
    LeftToRight,
    /// `right-to-left`
    RightToLeft,
    /// `top-to-bottom`
    TopToBottom,
    /// `bottom-to-top`
    BottomToTop,
}

/// A direction that is none of the four accepted spellings.
#[derive(Debug, Clone, Copy, PartialEq, Eq, Structural)]
pub struct TextDirectionParseError;

/// What a misspelt direction is told.
pub open spec fn direction_error_message() -> Seq<char> {
    "direction は 'left-to-right' / 'right-to-left' / 'top-to-bottom' / 'bottom-to-top' のいずれかである必要があります"@
}

impl TextDirectionParseError {
    /// What the error says to the user (see [`direction_error_message`]).
    pub fn message(self) -> (s: &'static str)
        ensures
            s@ == direction_error_message(),
    {
        "direction は 'left-to-right' / 'right-to-left' / 'top-to-bottom' / 'bottom-to-top' のいずれかである必要があります"
    }
}

/// The direction spelled `s`, if it is one of the four spellings.
pub open spec fn spec_text_direction(s: Seq<char>) -> Option<TextDirection> {
    if s == "left-to-right"@ {
        Some(TextDirection::LeftToRight)
    } else if s == "right-to-left"@ {
        Some(TextDirection::RightToLeft)
    } else if s == "top-to-bottom"@ {
        Some(TextDirection::TopToBottom)
    } else if s == "bottom-to-top"@ {
        Some(TextDirection::BottomToTop)
    } else {
        None
    }
}

impl TextDirection {
    /// The direction spelled `value`.
    pub fn parse(value: &str) -> (r: Result<TextDirection, TextDirectionParseError>)
        ensures
            r == match spec_text_direction(value@) {
                Some(d) => Ok::<TextDirection, TextDirectionParseError>(d),
                None => Err(TextDirectionParseError),
            },
    {
        proof {
            reveal_strlit("left-to-right");
            reveal_strlit("right-to-left");
            reveal_strlit("top-to-bottom");
            reveal_strlit("bottom-to-top");
            assert("left-to-right"@[0] == 'l');
            assert("right-to-left"@[0] == 'r');
            assert("top-to-bottom"@[0] == 't');
            assert("bottom-to-top"@[0] == 'b');
        }
        if str_eq(value, "left-to-right") {
            Ok(TextDirection::LeftToRight)
        } else if str_eq(value, "right-to-left") {
            Ok(TextDirection::RightToLeft)
        } else if str_eq(value, "top-to-bottom") {
            Ok(TextDirection::TopToBottom)
        } else if str_eq(value, "bottom-to-top") {
            Ok(TextDirection::BottomToTop)
        } else {
            Err(TextDirectionParseError)
        }
    }
}

/// The index of the last `.` in `name`, or -1 when there is none.
pub open spec fn last_dot(name: Seq<char>) -> int
    decreases name.len(),
{
    if name.len() == 0 {
        -1
    } else if name.last() == '.' {
        name.len() - 1
    } else {
        last_dot(name.drop_last())
    }
}

/// The extension of a file name as `Path::extension` reads it: what follows the last `.`,
/// unless there is no `.` or the only one starts the name.
pub open spec fn name_extension(name: Seq<char>) -> Option<Seq<char>> {
    let k = last_dot(name);
    if k <= 0 {
        None
    } else {
        Some(name.subrange(k + 1, name.len() as int))
    }
}

/// The extension of the path `path`: that of its last component when it is a name.
pub open spec fn spec_extension(path: Seq<char>) -> Option<Seq<char>> {
    let cs = spec_components(path);
    if cs.len() > 0 && cs.last() is Normal {
        name_extension(cs.last()->Normal_0)
    } else {
        None
    }
}

proof fn lemma_last_dot_bounds(name: Seq<char>)
    ensures
        -1 <= last_dot(name) < name.len(),
        last_dot(name) >= 0 ==> name[last_dot(name)] == '.',
        forall|j: int| last_dot(name) < j < name.len() ==> name[j] != '.',
    decreases name.len(),
{
    if name.len() > 0 && name.last() != '.' {
        lemma_last_dot_bounds(name.drop_last());
        assert forall|j: int| last_dot(name) < j < name.len() implies name[j] != '.' by {
            if j < name.len() - 1 {
                assert(name[j] == name.drop_last()[j]);
            }
        }
    }
}

/// Whether the name `name` has the extension `sei`.
fn name_has_sei_extension(name: &str) -> (b: bool)
    ensures
        b == (name_extension(name@) == Some("sei"@)),
{
    let cs = chars_of(name);
    let mut k: usize = cs.len();
    while k > 0 && cs[k - 1] != '.'
        invariant
            cs@ == name@,
            0 <= k <= cs@.len(),
            forall|j: int| k <= j < cs@.len() ==> cs@[j] != '.',
        decreases k,
    {
        k = k - 1;
    }
    proof {
        lemma_last_dot_bounds(name@);
        reveal_strlit("sei");
        assert("sei"@.len() == 3);
        if k > 0 {
            assert(last_dot(name@) == k - 1) by {
                if last_dot(name@) != k - 1 {
                    assert(name@[k - 1] == '.');
                }
            }
        } else {
            assert(last_dot(name@) == -1) by {
                if last_dot(name@) >= 0 {
                    assert(name@[last_dot(name@)] == '.');
                }
            }
        }
    }
    if k <= 1 {
        return false;
    }
    if cs.len() - k != 3 {
        proof {
            assert(name_extension(name@).unwrap().len() != 3);
        }
        return false;
    }
    let b = cs[k] == 's' && cs[k + 1] == 'e' && cs[k + 2] == 'i';
    proof {
        let ext = name@.subrange(k as int, name@.len() as int);
        assert(name_extension(name@) == Some(ext));
        if b {
            assert(ext =~= "sei"@);
        } else {
            assert(ext != "sei"@) by {
                if ext == "sei"@ {
                    assert(ext[0] == 's' && ext[1] == 'e' && ext[2] == 'i');
                }
            }
        }
    }
    b
}

/// Whether the path `path` has the extension `sei`.
pub fn has_sei_extension(path: &str) -> (b: bool)
    ensures
        b == (spec_extension(path@) == Some("sei"@)),
{
    let pp = ProjectPath::new(path);
    let comps = pp.components();
    if comps.len() == 0 {
        return false;
    }
    match &comps[comps.len() - 1] {
        PathComponent::Normal(name) => name_has_sei_extension(name.as_str()),
        _ => false,
    }
}

/// The stem of a file name as `Path::file_stem` reads it: the name before its last `.`, unless
/// there is no `.` or the only one starts the name.
pub open spec fn name_stem(name: Seq<char>) -> Seq<char> {
    let k = last_dot(name);
    if k <= 0 {
        name
    } else {
        name.subrange(0, k)
    }
}

/// The output file's name and directory.
#[derive(Debug, Clone)]
pub struct OutputConfig {
    /// The base of the output file's name (without extension).
    pub name: String,
    /// The absolute output directory.
    pub output_dir: String,
}

impl OutputConfig {
    /// The PDF file `{output_dir}/{name}.pdf`; as `Path::set_extension` does, an extension that
    /// the name already has is replaced.
    pub fn pdf_path(&self) -> (p: String)
        requires
            spec_document_name_error(self.name@) is None,
        ensures
            p@ == spec_join(self.output_dir@, name_stem(self.name@) + ".pdf"@),
    {
        let cs = chars_of(self.name.as_str());
        let mut k: usize = cs.len();
        while k > 0 && cs[k - 1] != '.'
            invariant
                cs@ == self.name@,
                0 <= k <= cs@.len(),
                forall|j: int| k <= j < cs@.len() ==> cs@[j] != '.',
            decreases k,
        {
            k = k - 1;
        }
        proof {
            lemma_last_dot_bounds(self.name@);
            if k > 0 {
                assert(last_dot(self.name@) == k - 1) by {
                    if last_dot(self.name@) != k - 1 {
                        assert(self.name@[k - 1] == '.');
                    }
                }
            } else {
                assert(last_dot(self.name@) == -1) by {
                    if last_dot(self.name@) >= 0 {
                        assert(self.name@[last_dot(self.name@)] == '.');
                    }
                }
            }
        }
        let stem_end: usize = if k <= 1 {
            cs.len()
        } else {
            k - 1
        };
        let mut file = String::new();
        let mut i: usize = 0;
        while i < stem_end
            invariant
                stem_end <= cs@.len(),
                0 <= i <= stem_end,
                file@ == cs@.subrange(0, i as int),
            decreases stem_end - i,
        {
            string_push(&mut file, cs[i]);
            proof {
                assert(cs@.subrange(0, i + 1) =~= cs@.subrange(0, i as int).push(cs@[i as int]));
            }
            i = i + 1;
        }
        let ext = ".pdf";
        proof {
            reveal_strlit(".pdf");
        }
        file.append(ext);
        proof {
            assert(cs@.subrange(0, stem_end as int) =~= name_stem(self.name@));
        }
        join_path(self.output_dir.as_str(), file.as_str())
    }
}

/// The `[image]` section: how raster images are downsampled.
#[derive(Debug, Clone, Copy, PartialEq, Eq, Structural)]
pub struct PreImageConfig {
    /// The largest resolution an embedded raster image keeps (1 to 2400).
    pub max_dpi: u32,
    /// Whether images are downsampled at all.
    pub downsample: bool,
}

impl Default for PreImageConfig {
    /// 300 dpi, with downsampling.
    fn default() -> (c: Self)
        ensures
            c.max_dpi == 300,
            c.downsample,
    {
        PreImageConfig { max_dpi: 300, downsample: true }
    }
}

/// `garde::rules::range::apply` on a `u32` with both bounds given: the value is accepted
/// exactly when `min <= value <= max` (the source compares with the lower bound first, then
/// the upper). The refusal's message comes from garde's current message handler, which a
/// caller of `garde::with_i18n` may replace, so no clause states it.
#[verifier::external_body]
pub(crate) fn garde_range(value: u32, min: u32, max: u32) -> (r: Result<(), String>)
    ensures
        r is Ok <==> min <= value <= max,
{
    match garde::rules::range::apply(&value, (Some(min), Some(max))) {
        Ok(()) => Ok(()),
        Err(e) => Err(e.message().to_string()),
    }
}

/// Checks the `[image]` section: `max_dpi` must lie between 1 and 2400, and its refusal is the
/// field error at `image.max_dpi`.
pub fn validate_image_config(config: &PreImageConfig) -> (r: Result<(), ConfigValidationError>)
    ensures
        r is Ok <==> 1 <= config.max_dpi <= 2400,
        r matches Err(e) ==> e matches ConfigValidationError::Field { path, .. } && path@ == "image.max_dpi"@,
{
    match garde_range(config.max_dpi, 1, 2400) {
        Ok(()) => Ok(()),
        Err(message) => {
            let path = "image.max_dpi";
            proof {
                reveal_strlit("image.max_dpi");
            }
            Err(ConfigValidationError::Field { path: to_owned_string(path), message })
        },
    }
}

/// Which optional file of the configuration a path names.
#[derive(Debug, Clone, Copy, PartialEq, Eq, Structural)]
pub enum OptionalFile {
    /// `style_path`
    Style,
    /// `references_path`
    References,
}

/// `e` is the error for a missing optional file `which` at the joined path `path`.
pub open spec fn is_optional_file_error(e: ConfigValidationError, which: OptionalFile, path: Seq<char>) -> bool {
    match (which, e) {
        (OptionalFile::Style, ConfigValidationError::StylePathResolution { path: p }) => p@ == path,
        (OptionalFile::References, ConfigValidationError::ReferencesPathResolution { path: p }) => p@ == path,
        _ => false,
    }
}

/// `e` is the error for a missing source file at the joined path `path`.
pub open spec fn is_source_error(e: ConfigValidationError, path: Seq<char>) -> bool {
    match e {
        ConfigValidationError::SourcePathResolution { path: p } => p@ == path,
        _ => false,
    }
}

/// `e` is the error for a missing font file of kind `font_type` at the joined path `path`.
pub open spec fn is_font_error(e: ConfigValidationError, font_type: FontType, path: Seq<char>) -> bool {
    match e {
        ConfigValidationError::FontPathResolution { font_type: t, path: p } => t == font_type && p@ == path,
        _ => false,
    }
}

/// The optional path `path` joined onto `base_dir` and checked for existence: the joined path
/// when it exists; otherwise nothing, with the error for `which` appended to `errors`. An
/// absent `path` gives nothing and no error. Whether a path exists is the source's answer.
pub fn resolve_optional_path<S: ProjectSource>(
    path: Option<&str>,
    base_dir: &str,
    source: &S,
    errors: &mut Vec<ConfigValidationError>,
    which: OptionalFile,
) -> (r: Option<String>)
    ensures
        path is None ==> r is None && final(errors)@ == old(errors)@,
        path matches Some(p) ==> match r {
            Some(j) => j@ == spec_join(base_dir@, p@) && final(errors)@ == old(errors)@,
            None => final(errors)@.len() == old(errors)@.len() + 1
                && final(errors)@.drop_last() == old(errors)@
                && is_optional_file_error(final(errors)@.last(), which, spec_join(base_dir@, p@)),
        },
{
    let p = match path {
        Some(p) => p,
        None => return None,
    };
    let joined = join_path(base_dir, p);
    if source.path_exists(&ProjectPath::new(joined.as_str())) {
        return Some(joined);
    }
    let e = match which {
        OptionalFile::Style => ConfigValidationError::StylePathResolution { path: joined },
        OptionalFile::References => ConfigValidationError::ReferencesPathResolution { path: joined },
    };
    errors.push(e);
    proof {
        assert(final(errors)@.drop_last() =~= old(errors)@);
    }
    None
}

/// The elements of `xs` whose flag in `flags` is `want`, in order.
pub open spec fn select(xs: Seq<Seq<char>>, flags: Seq<bool>, want: bool) -> Seq<Seq<char>>
    decreases xs.len(),
{
    if xs.len() == 0 || flags.len() != xs.len() {
        Seq::empty()
    } else {
        let prev = select(xs.drop_last(), flags.drop_last(), want);
        if flags.last() == want {
            prev.push(xs.last())
        } else {
            prev
        }
    }
}

/// The paths of `srcs` that do not have the extension `sei`, in order.
pub open spec fn non_sei_sources(srcs: Seq<Seq<char>>) -> Seq<Seq<char>>
    decreases srcs.len(),
{
    if srcs.len() == 0 {
        Seq::empty()
    } else {
        let prev = non_sei_sources(srcs.drop_last());
        if spec_extension(srcs.last()) == Some("sei"@) {
            prev
        } else {
            prev.push(srcs.last())
        }
    }
}

/// Each of `paths` joined onto `base`.
pub open spec fn joined_all(base: Seq<char>, paths: Seq<Seq<char>>) -> Seq<Seq<char>> {
    paths.map_values(|p: Seq<char>| spec_join(base, p))
}

/// The path a warning names.
pub open spec fn warning_path(w: ConfigWarning) -> Seq<char> {
    match w {
        ConfigWarning::SourceExtension { path } => path@,
    }
}

/// The texts of a list of strings.
pub open spec fn texts(v: Seq<String>) -> Seq<Seq<char>> {
    v.map_values(|s: String| s@)
}

/// Resolves the source files: a warning for each one without the extension `sei` (its path as
/// written, in declaration order), and each joined onto `base_dir` and kept when the source
/// says it exists, or reported as missing otherwise. Which ones exist is the source's answer;
/// whatever it is, the kept paths and the errors split the joined paths in order.
pub fn resolve_sources<S: ProjectSource>(
    sources: &Vec<String>,
    base_dir: &str,
    project_source: &S,
    errors: &mut Vec<ConfigValidationError>,
    warnings: &mut Vec<ConfigWarning>,
) -> (r: Vec<String>)
    ensures
        final(warnings)@.len() >= old(warnings)@.len(),
        final(warnings)@.subrange(0, old(warnings)@.len() as int) == old(warnings)@,
        final(warnings)@.skip(old(warnings)@.len() as int).map_values(|w: ConfigWarning| warning_path(w))
            == non_sei_sources(texts(sources@)),
        final(errors)@.len() >= old(errors)@.len(),
        final(errors)@.subrange(0, old(errors)@.len() as int) == old(errors)@,
        exists|found: Seq<bool>| #![trigger select(joined_all(base_dir@, texts(sources@)), found, true)]
        {
            &&& found.len() == sources@.len()
            &&& texts(r@) == select(joined_all(base_dir@, texts(sources@)), found, true)
            &&& final(errors)@.len() - old(errors)@.len()
                == select(joined_all(base_dir@, texts(sources@)), found, false).len()
            &&& forall|k: int| 0 <= k < final(errors)@.len() - old(errors)@.len() ==> is_source_error(
                #[trigger] final(errors)@[old(errors)@.len() + k],
                select(joined_all(base_dir@, texts(sources@)), found, false)[k],
            )
        },
{
    let ghost e0 = old(errors)@;
    let ghost w0 = old(warnings)@;
    let ghost srcs = texts(sources@);
    let ghost all = joined_all(base_dir@, srcs);
    let ghost mut found: Seq<bool> = Seq::empty();
    let mut resolved: Vec<String> = Vec::new();
    let mut i: usize = 0;
    while i < sources.len()
        invariant
            0 <= i <= sources@.len(),
            srcs == texts(sources@),
            all == joined_all(base_dir@, srcs),
            found.len() == i,
            warnings@.subrange(0, w0.len() as int) == w0,
            w0.len() <= warnings@.len(),
            warnings@.skip(w0.len() as int).map_values(|w: ConfigWarning| warning_path(w))
                == non_sei_sources(srcs.subrange(0, i as int)),
            errors@.subrange(0, e0.len() as int) == e0,
            e0.len() <= errors@.len(),
            texts(resolved@) == select(all.subrange(0, i as int), found, true),
            errors@.len() - e0.len() == select(all.subrange(0, i as int), found, false).len(),
            forall|k: int| 0 <= k < errors@.len() - e0.len() ==> is_source_error(
                #[trigger] errors@[e0.len() + k],
                select(all.subrange(0, i as int), found, false)[k],
            ),
        decreases sources@.len() - i,
    {
        let src = sources[i].as_str();
        proof {
            assert(srcs.subrange(0, i + 1).drop_last() =~= srcs.subrange(0, i as int));
            assert(all.subrange(0, i + 1).drop_last() =~= all.subrange(0, i as int));
            assert(srcs[i as int] == src@);
            assert(all[i as int] == spec_join(base_dir@, src@));
        }
        if !has_sei_extension(src) {
            let ghost before = warnings@;
            warnings.push(ConfigWarning::SourceExtension { path: to_owned_string(src) });
            proof {
                assert(warnings@.subrange(0, w0.len() as int) =~= before.subrange(0, w0.len() as int));
                assert(warnings@.skip(w0.len() as int) =~= before.skip(w0.len() as int).push(warnings@.last()));
            }
        }
        let joined = join_path(base_dir, src);
        let exists = project_source.path_exists(&ProjectPath::new(joined.as_str()));
        let ghost old_found = found;
        proof {
            found = found.push(exists);
            assert(found.drop_last() =~= old_found);
        }
        if exists {
            resolved.push(joined);
            proof {
                assert(texts(resolved@) =~= texts(resolved@.drop_last()).push(resolved@.last()@));
                assert(resolved@.drop_last() =~= resolved@.subrange(0, resolved@.len() - 1));
            }
        } else {
            let ghost before = errors@;
            errors.push(ConfigValidationError::SourcePathResolution { path: joined });
            proof {
                assert(errors@.subrange(0, e0.len() as int) =~= before.subrange(0, e0.len() as int));
                let sel = select(all.subrange(0, i + 1), found, false);
                assert forall|k: int| 0 <= k < errors@.len() - e0.len() implies is_source_error(
                    #[trigger] errors@[e0.len() + k], sel[k]) by {
                    if k < before.len() - e0.len() {
                        assert(errors@[e0.len() + k] == before[e0.len() + k]);
                    }
                }
            }
        }
        i = i + 1;
    }
    proof {
        assert(srcs.subrange(0, sources@.len() as int) =~= srcs);
        assert(all.subrange(0, sources@.len() as int) =~= all);
        assert(found.len() == sources@.len());
    }
    resolved
}

/// The errors `errs` report, in order, the kinds whose font file was not found according to
/// `found`, each with its joined path from `all`.
pub open spec fn font_errors_match(errs: Seq<ConfigValidationError>, all: Seq<Seq<char>>, found: Seq<bool>) -> bool
    decreases found.len(),
{
    if found.len() == 0 {
        errs.len() == 0
    } else if found.last() {
        font_errors_match(errs, all, found.drop_last())
    } else {
        errs.len() > 0
            && is_font_error(errs.last(), font_type_at(found.len() - 1), all[found.len() - 1])
            && font_errors_match(errs.drop_last(), all, found.drop_last())
    }
}

/// Resolves the font file of every kind, in declaration order of the kinds: each joined onto
/// `base_dir` and kept when the source says it exists, or reported as missing with its kind.
/// Whatever the source answers, the kept paths and the errors split the joined paths in order.
pub fn resolve_font_paths<S: ProjectSource>(
    font_paths: &FontMap<String>,
    base_dir: &str,
    source: &S,
    errors: &mut Vec<ConfigValidationError>,
) -> (r: Vec<String>)
    requires
        font_paths.wf(),
    ensures
        final(errors)@.len() >= old(errors)@.len(),
        final(errors)@.subrange(0, old(errors)@.len() as int) == old(errors)@,
        exists|found: Seq<bool>| #![trigger select(joined_all(base_dir@, texts(font_paths.spec_values())), found, true)]
        {
            &&& found.len() == FONT_TYPE_COUNT
            &&& texts(r@) == select(joined_all(base_dir@, texts(font_paths.spec_values())), found, true)
            &&& font_errors_match(
                final(errors)@.skip(old(errors)@.len() as int),
                joined_all(base_dir@, texts(font_paths.spec_values())),
                found,
            )
        },
{
    let ghost e0 = old(errors)@;
    let ghost all = joined_all(base_dir@, texts(font_paths.spec_values()));
    let ghost mut found: Seq<bool> = Seq::empty();
    let values = font_paths.values();
    let mut resolved: Vec<String> = Vec::new();
    let mut i: usize = 0;
    while i < FONT_TYPE_COUNT
        invariant
            0 <= i <= FONT_TYPE_COUNT,
            values@ == font_paths.spec_values(),
            values@.len() == FONT_TYPE_COUNT,
            all == joined_all(base_dir@, texts(font_paths.spec_values())),
            found.len() == i,
            errors@.subrange(0, e0.len() as int) == e0,
            e0.len() <= errors@.len(),
            texts(resolved@) == select(all.subrange(0, i as int), found, true),
            font_errors_match(errors@.skip(e0.len() as int), all, found),
        decreases FONT_TYPE_COUNT - i,
    {
        let font_type = FontType::at(i);
        let joined = join_path(base_dir, values[i].as_str());
        proof {
            assert(all.subrange(0, i + 1).drop_last() =~= all.subrange(0, i as int));
            assert(all[i as int] == joined@);
        }
        let exists = source.path_exists(&ProjectPath::new(joined.as_str()));
        let ghost old_found = found;
        proof {
            found = found.push(exists);
            assert(found.drop_last() =~= old_found);
        }
        if exists {
            resolved.push(joined);
            proof {
                assert(texts(resolved@) =~= texts(resolved@.drop_last()).push(resolved@.last()@));
            }
        } else {
            let ghost before = errors@;
            errors.push(ConfigValidationError::FontPathResolution { font_type, path: joined });
            proof {
                assert(errors@.subrange(0, e0.len() as int) =~= before.subrange(0, e0.len() as int));
                assert(errors@.skip(e0.len() as int).drop_last() =~= before.skip(e0.len() as int));
                assert(errors@.skip(e0.len() as int).last() == errors@.last());
            }
        }
        i = i + 1;
    }
    proof {
        assert(all.subrange(0, FONT_TYPE_COUNT as int) =~= all);
    }
    resolved
}

/// The paths a configuration names, as written (what path resolution reads of it).
#[derive(Debug)]
pub struct RawPaths {
    /// `sources`
    pub sources: Vec<String>,
    /// `style_path`
    pub style_path: Option<String>,
    /// `references_path`
    pub references_path: Option<String>,
    /// The `font_path` of each font kind.
    pub font_paths: FontMap<String>,
}

/// The paths a configuration names, joined onto the base directory and found to exist.
#[derive(Debug)]
pub struct ResolvedPaths {
    /// The font paths in declaration order of the kinds; all nineteen when nothing is missing.
    pub font_paths: Vec<String>,
    /// The source paths that exist.
    pub sources: Vec<String>,
    /// The style path, when given and found.
    pub style_path: Option<String>,
    /// The references path, when given and found.
    pub references_path: Option<String>,
}

/// The optional path as plain text.
pub open spec fn opt_text(p: Option<String>) -> Option<Seq<char>> {
    match p {
        Some(s) => Some(s@),
        None => None,
    }
}

/// The optional path joined onto `base`.
pub open spec fn opt_joined(base: Seq<char>, p: Option<String>) -> Option<Seq<char>> {
    match p {
        Some(s) => Some(spec_join(base, s@)),
        None => None,
    }
}

/// Resolves every path of the configuration: style, references, fonts, sources. The warnings
/// are exactly those for the sources without the extension `sei`, in declaration order. A
/// path that is kept is its joined path; when no error is reported, every given path was kept.
pub fn resolve_paths<S: ProjectSource>(raw: &RawPaths, source: &S, base_dir: &str) -> (r: (
    ResolvedPaths,
    Vec<ConfigValidationError>,
    Vec<ConfigWarning>,
))
    requires
        raw.font_paths.wf(),
    ensures
        r.2@.map_values(|w: ConfigWarning| warning_path(w)) == non_sei_sources(texts(raw.sources@)),
        r.0.style_path is Some ==> opt_text(r.0.style_path) == opt_joined(base_dir@, raw.style_path),
        r.0.references_path is Some ==> opt_text(r.0.references_path) == opt_joined(base_dir@, raw.references_path),
        r.0.font_paths@.len() <= FONT_TYPE_COUNT,
        r.0.sources@.len() <= raw.sources@.len(),
        r.1@.len() == 0 ==> {
            &&& opt_text(r.0.style_path) == opt_joined(base_dir@, raw.style_path)
            &&& opt_text(r.0.references_path) == opt_joined(base_dir@, raw.references_path)
            &&& texts(r.0.font_paths@) == joined_all(base_dir@, texts(raw.font_paths.spec_values()))
            &&& texts(r.0.sources@) == joined_all(base_dir@, texts(raw.sources@))
        },
{
    let mut errors: Vec<ConfigValidationError> = Vec::new();
    let mut warnings: Vec<ConfigWarning> = Vec::new();
    let style_path = resolve_optional_path(
        opt_str(&raw.style_path), base_dir, source, &mut errors, OptionalFile::Style);
    let references_path = resolve_optional_path(
        opt_str(&raw.references_path), base_dir, source, &mut errors, OptionalFile::References);
    let ghost e_opt = errors@;
    let font_paths = resolve_font_paths(&raw.font_paths, base_dir, source, &mut errors);
    let ghost e_font = errors@;
    let sources = resolve_sources(&raw.sources, base_dir, source, &mut errors, &mut warnings);
    proof {
        assert(warnings@.skip(0) =~= warnings@);
        let fall = joined_all(base_dir@, texts(raw.font_paths.spec_values()));
        let ffound = choose|found: Seq<bool>| #![trigger select(fall, found, true)]
        {
            &&& found.len() == FONT_TYPE_COUNT
            &&& texts(font_paths@) == select(fall, found, true)
            &&& font_errors_match(e_font.skip(e_opt.len() as int), fall, found)
        };
        lemma_select_len(fall, ffound, true);
        let sall = joined_all(base_dir@, texts(raw.sources@));
        let sfound = choose|found: Seq<bool>| #![trigger select(sall, found, true)]
        {
            &&& found.len() == raw.sources@.len()
            &&& texts(sources@) == select(sall, found, true)
            &&& errors@.len() - e_font.len() == select(sall, found, false).len()
            &&& forall|k: int| 0 <= k < errors@.len() - e_font.len() ==> is_source_error(
                #[trigger] errors@[e_font.len() + k], select(sall, found, false)[k])
        };
        lemma_select_len(sall, sfound, true);
        if errors@.len() == 0 {
            assert(e_font.len() == 0) by {
                assert(errors@.subrange(0, e_font.len() as int) == e_font);
            }
            assert(e_opt.len() == 0) by {
                assert(e_font.subrange(0, e_opt.len() as int) == e_opt);
            }
            assert(e_font.skip(0) =~= e_font);
            lemma_font_errors_none(e_font, fall, ffound);
            assert(fall.subrange(0, ffound.len() as int) =~= fall);
            lemma_select_all(fall, ffound);
            lemma_select_all(sall, sfound);
        }
    }
    (ResolvedPaths { font_paths, sources, style_path, references_path }, errors, warnings)
}

/// The text of an optional string.
pub(crate) fn opt_str(s: &Option<String>) -> (r: Option<&str>)
    ensures
        match s {
            Some(t) => r matches Some(x) && x@ == t@,
            None => r is None,
        },
{
    match s {
        Some(t) => Some(t.as_str()),
        None => None,
    }
}

proof fn lemma_select_len(xs: Seq<Seq<char>>, flags: Seq<bool>, want: bool)
    ensures
        select(xs, flags, want).len() <= xs.len(),
        flags.len() == xs.len() ==> select(xs, flags, want).len() + select(xs, flags, !want).len() == xs.len(),
    decreases xs.len(),
{
    if xs.len() > 0 && flags.len() == xs.len() {
        lemma_select_len(xs.drop_last(), flags.drop_last(), want);
    } else if xs.len() > 0 {
    }
}

proof fn lemma_select_all(xs: Seq<Seq<char>>, flags: Seq<bool>)
    requires
        flags.len() == xs.len(),
        select(xs, flags, false).len() == 0,
    ensures
        select(xs, flags, true) == xs,
    decreases xs.len(),
{
    if xs.len() > 0 {
        lemma_select_len(xs.drop_last(), flags.drop_last(), false);
        lemma_select_all(xs.drop_last(), flags.drop_last());
        assert(select(xs, flags, true) =~= xs);
    }
}

proof fn lemma_font_errors_none(errs: Seq<ConfigValidationError>, all: Seq<Seq<char>>, found: Seq<bool>)
    requires
        font_errors_match(errs, all, found),
        errs.len() == 0,
        found.len() <= all.len(),
    ensures
        select(all.subrange(0, found.len() as int), found, false).len() == 0,
    decreases found.len(),
{
    if found.len() > 0 {
        lemma_font_errors_none(errs, all, found.drop_last());
        assert(all.subrange(0, found.len() as int).drop_last() =~= all.subrange(0, found.len() - 1));
    }
}

/// An OpenType feature setting as written: its tag and value.
#[derive(Debug, Clone, PartialEq, Eq)]
pub struct PreFontFeature {
    /// The feature tag (four ASCII characters, such as `liga`).
    pub tag: String,
    /// The feature's value (usually 0 to turn it off, 1 to turn it on).
    pub value: u32,
}

/// The settings of one font kind as written in `config.toml`; of the variation axes it holds
/// the names (their values are real numbers, which stay with the caller).
#[derive(Debug, Clone)]
pub struct PreFontConfig {
    /// The base font name in the PDF font descriptor (unique over the kinds).
    pub font_name: String,
    /// The path of the font file, relative or absolute.
    pub font_path: String,
    /// The index of the face in a font collection.
    pub font_index: u32,
    /// A BCP 47 language tag.
    pub language: Option<String>,
    /// An OpenType / ISO 15924 script tag.
    pub script: Option<String>,
    /// An OpenType language system tag (it requires `script`).
    pub ot_language: Option<String>,
    /// The writing direction.
    pub direction: Option<String>,
    /// The names of the variation axes set, in order (four ASCII characters each, such as
    /// `wght`).
    pub variation_axis_names: Option<Vec<String>>,
    /// The OpenType features set, in order.
    pub features: Option<Vec<PreFontFeature>>,
}

/// `e` is the field error at `font_configs.<key of t>` with the message `message`.
pub open spec fn is_font_field_error(e: ConfigValidationError, t: FontType, message: Seq<char>) -> bool {
    e matches ConfigValidationError::Field { path, message: m }
        && path@ == "font_configs."@ + toml_key(t) && m@ == message
}

/// The TOML path of a font kind's section.
pub(crate) fn font_section_path(t: FontType) -> (r: String)
    ensures
        r@ == "font_configs."@ + toml_key(t),
{
    let mut path = to_owned_string("font_configs.");
    path.append(t.as_toml_key());
    path
}

/// The message for a font name used twice.
pub open spec fn duplicate_name_message(name: Seq<char>) -> Seq<char> {
    "フォント名 '"@ + name + "' が重複しています"@
}

/// The kinds, in declaration order, whose font name some earlier kind already has.
pub open spec fn duplicate_name_kinds(names: Seq<Seq<char>>) -> Seq<int>
    decreases names.len(),
{
    if names.len() == 0 {
        Seq::empty()
    } else {
        let prev = duplicate_name_kinds(names.drop_last());
        if names.drop_last().contains(names.last()) {
            prev.push(names.len() - 1)
        } else {
            prev
        }
    }
}

/// The font names of the configuration, in declaration order of the kinds.
pub open spec fn font_names(configs: FontMap<PreFontConfig>) -> Seq<Seq<char>> {
    configs.spec_values().map_values(|c: PreFontConfig| c.font_name@)
}

/// Reports, in declaration order of the kinds, each kind whose font name an earlier kind
/// already has.
pub fn validate_unique_font_names(value: &FontMap<PreFontConfig>, errors: &mut Vec<ConfigValidationError>)
    requires
        value.wf(),
    ensures
        final(errors)@.len() == old(errors)@.len() + duplicate_name_kinds(font_names(*value)).len(),
        final(errors)@.subrange(0, old(errors)@.len() as int) == old(errors)@,
        forall|k: int| 0 <= k < duplicate_name_kinds(font_names(*value)).len() ==> is_font_field_error(
            #[trigger] final(errors)@[old(errors)@.len() + k],
            font_type_at(duplicate_name_kinds(font_names(*value))[k]),
            duplicate_name_message(font_names(*value)[duplicate_name_kinds(font_names(*value))[k]]),
        ),
{
    let ghost e0 = old(errors)@;
    let ghost names = font_names(*value);
    let values = value.values();
    let mut i: usize = 0;
    while i < FONT_TYPE_COUNT
        invariant
            0 <= i <= FONT_TYPE_COUNT,
            values@ == value.spec_values(),
            values@.len() == FONT_TYPE_COUNT,
            names == font_names(*value),
            errors@.len() == e0.len() + duplicate_name_kinds(names.subrange(0, i as int)).len(),
            errors@.subrange(0, e0.len() as int) == e0,
            forall|k: int| 0 <= k < duplicate_name_kinds(names.subrange(0, i as int)).len() ==> is_font_field_error(
                #[trigger] errors@[e0.len() + k],
                font_type_at(duplicate_name_kinds(names.subrange(0, i as int))[k]),
                duplicate_name_message(names[duplicate_name_kinds(names.subrange(0, i as int))[k]]),
            ),
            forall|k: int| 0 <= k < duplicate_name_kinds(names.subrange(0, i as int)).len() ==>
                0 <= #[trigger] duplicate_name_kinds(names.subrange(0, i as int))[k] < i,
        decreases FONT_TYPE_COUNT - i,
    {
        let name = values[i].font_name.as_str();
        let mut seen = false;
        let mut j: usize = 0;
        while j < i
            invariant
                0 <= j <= i < FONT_TYPE_COUNT,
                values@ == value.spec_values(),
                values@.len() == FONT_TYPE_COUNT,
                names == font_names(*value),
                name@ == names[i as int],
                seen == names.subrange(0, j as int).contains(name@),
            decreases i - j,
        {
            if str_eq(values[j].font_name.as_str(), name) {
                seen = true;
            }
            proof {
                assert(names[j as int] == values@[j as int].font_name@);
                let a = names.subrange(0, j + 1);
                assert(a.drop_last() =~= names.subrange(0, j as int));
                assert(a.contains(name@) <==> (names.subrange(0, j as int).contains(name@) || names[j as int] == name@)) by {
                    if a.contains(name@) {
                        let m = choose|m: int| 0 <= m < a.len() && a[m] == name@;
                        if m < j {
                            assert(names.subrange(0, j as int)[m] == name@);
                        }
                    }
                    if names.subrange(0, j as int).contains(name@) {
                        let m = choose|m: int| 0 <= m < j && names.subrange(0, j as int)[m] == name@;
                        assert(a[m] == name@);
                    }
                    if names[j as int] == name@ {
                        assert(a[j as int] == name@);
                    }
                }
            }
            j = j + 1;
        }
        let ghost before = errors@;
        let ghost sub = names.subrange(0, i + 1);
        proof {
            assert(sub.drop_last() =~= names.subrange(0, i as int));
            assert(sub.last() == names[i as int]);
        }
        if seen {
            let t = FontType::at(i);
            let mut message = to_owned_string("フォント名 '");
            message.append(name);
            message.append("' が重複しています");
            errors.push(ConfigValidationError::Field { path: font_section_path(t), message });
            proof {
                assert(errors@.subrange(0, e0.len() as int) =~= before.subrange(0, e0.len() as int));
                let d = duplicate_name_kinds(sub);
                assert(d == duplicate_name_kinds(names.subrange(0, i as int)).push(i as int));
                assert forall|k: int| 0 <= k < d.len() implies is_font_field_error(
                    #[trigger] errors@[e0.len() + k], font_type_at(d[k]), duplicate_name_message(names[d[k]])) by {
                    if k < d.len() - 1 {
                        assert(errors@[e0.len() + k] == before[e0.len() + k]);
                    }
                }
            }
        } else {
            proof {
                assert(duplicate_name_kinds(sub) == duplicate_name_kinds(names.subrange(0, i as int)));
            }
        }
        i = i + 1;
    }
    proof {
        assert(names.subrange(0, FONT_TYPE_COUNT as int) =~= names);
    }
}

/// The kinds, in declaration order, that set `ot_language` without `script`.
pub open spec fn missing_script_kinds(configs: Seq<PreFontConfig>) -> Seq<int>
    decreases configs.len(),
{
    if configs.len() == 0 {
        Seq::empty()
    } else {
        let prev = missing_script_kinds(configs.drop_last());
        if configs.last().ot_language is Some && configs.last().script is None {
            prev.push(configs.len() - 1)
        } else {
            prev
        }
    }
}

/// Reports, in declaration order of the kinds, each kind that sets `ot_language` without
/// `script`.
pub fn validate_font_language_constraints(value: &FontMap<PreFontConfig>, errors: &mut Vec<ConfigValidationError>)
    requires
        value.wf(),
    ensures
        final(errors)@.len() == old(errors)@.len() + missing_script_kinds(value.spec_values()).len(),
        final(errors)@.subrange(0, old(errors)@.len() as int) == old(errors)@,
        forall|k: int| 0 <= k < missing_script_kinds(value.spec_values()).len() ==> is_font_field_error(
            #[trigger] final(errors)@[old(errors)@.len() + k],
            font_type_at(missing_script_kinds(value.spec_values())[k]),
            "ot_language を指定する場合は script も指定する必要があります"@,
        ),
{
    let ghost e0 = old(errors)@;
    let values = value.values();
    let mut i: usize = 0;
    while i < FONT_TYPE_COUNT
        invariant
            0 <= i <= FONT_TYPE_COUNT,
            values@ == value.spec_values(),
            values@.len() == FONT_TYPE_COUNT,
            errors@.len() == e0.len() + missing_script_kinds(values@.subrange(0, i as int)).len(),
            errors@.subrange(0, e0.len() as int) == e0,
            forall|k: int| 0 <= k < missing_script_kinds(values@.subrange(0, i as int)).len() ==> is_font_field_error(
                #[trigger] errors@[e0.len() + k],
                font_type_at(missing_script_kinds(values@.subrange(0, i as int))[k]),
                "ot_language を指定する場合は script も指定する必要があります"@,
            ),
        decreases FONT_TYPE_COUNT - i,
    {
        let ghost before = errors@;
        let ghost sub = values@.subrange(0, i + 1);
        proof {
            assert(sub.drop_last() =~= values@.subrange(0, i as int));
            assert(sub.last() == values@[i as int]);
        }
        if values[i].ot_language.is_some() && values[i].script.is_none() {
            let t = FontType::at(i);
            errors.push(ConfigValidationError::Field {
                path: font_section_path(t),
                message: to_owned_string("ot_language を指定する場合は script も指定する必要があります"),
            });
            proof {
                assert(errors@.subrange(0, e0.len() as int) =~= before.subrange(0, e0.len() as int));
                let d = missing_script_kinds(sub);
                assert forall|k: int| 0 <= k < d.len() implies is_font_field_error(
                    #[trigger] errors@[e0.len() + k], font_type_at(d[k]),
                    "ot_language を指定する場合は script も指定する必要があります"@) by {
                    if k < d.len() - 1 {
                        assert(errors@[e0.len() + k] == before[e0.len() + k]);
                    }
                }
            }
        }
        i = i + 1;
    }
    proof {
        assert(values@.subrange(0, FONT_TYPE_COUNT as int) =~= values@);
    }
}

/// `garde::rules::length::simple::apply` on a text: its length in bytes must lie between `min`
/// and `max` (the source compares with the lower bound first, then the upper). The refusal's
/// message comes from garde's current message handler, which a caller of `garde::with_i18n`
/// may replace, so no clause states it.
#[verifier::external_body]
pub(crate) fn garde_length(value: &str, min: usize, max: usize) -> (r: Result<(), String>)
    ensures
        r is Ok <==> min <= value.spec_bytes().len() <= max,
{
    match garde::rules::length::simple::apply(&value, (min, max)) {
        Ok(()) => Ok(()),
        Err(e) => Err(e.message().to_string()),
    }
}

/// An OpenType feature setting: its tag and value.
#[derive(Debug, Clone, Copy, PartialEq, Eq)]
pub struct Feature {
    /// The feature tag.
    pub tag: [u8; 4],
    /// The feature's value.
    pub value: u32,
}

/// The settings of a font kind with its tags read and its direction parsed.
#[derive(Debug, Clone, PartialEq, Eq)]
pub struct FontValues {
    /// The index of the face in a font collection.
    pub font_index: u32,
    /// The tags of the variation axes, in the order of their settings.
    pub variation_axis_tags: Option<Vec<[u8; 4]>>,
    /// The script tag, as written.
    pub script: Option<[u8; 4]>,
    /// The language string for text shaping (see [`spec_language_string`]).
    pub language: Option<String>,
    /// The language system tag, padded to four bytes.
    pub ot_language_tag: Option<[u8; 4]>,
    /// The writing direction.
    pub direction: Option<TextDirection>,
    /// The feature settings, when at least one is given.
    pub features: Option<Vec<Feature>>,
}

/// `e` is the field error at `font_configs.<key of t>.<field>` with the message `message`.
pub open spec fn is_field_error_at(e: ConfigValidationError, t: FontType, field: Seq<char>, message: Seq<char>) -> bool {
    e matches ConfigValidationError::Field { path, message: m }
        && path@ == "font_configs."@ + toml_key(t) + "."@ + field && m@ == message
}

/// The field error at `font_configs.<key of t>.<field>`.
fn field_error(font_type: FontType, field: &str, message: &str) -> (e: ConfigValidationError)
    ensures
        is_field_error_at(e, font_type, field@, message@),
{
    let mut path = font_section_path(font_type);
    let dot = ".";
    proof {
        reveal_strlit(".");
    }
    path.append(dot);
    path.append(field);
    ConfigValidationError::Field { path, message: to_owned_string(message) }
}

/// The number of names in `names` that are not OpenType tags.
pub open spec fn invalid_tag_count(names: Seq<Seq<char>>) -> nat
    decreases names.len(),
{
    if names.len() == 0 {
        0
    } else {
        invalid_tag_count(names.drop_last()) + if spec_opentype_tag(names.last()) is None {
            1nat
        } else {
            0nat
        }
    }
}

/// The texts of a list of strings.
pub open spec fn texts_of(v: Seq<String>) -> Seq<Seq<char>> {
    v.map_values(|x: String| x@)
}

/// `after` is `before` followed by the field errors of `part` (each a field and a message) at
/// the kind `t`, in order.
pub open spec fn reports(
    before: Seq<ConfigValidationError>,
    after: Seq<ConfigValidationError>,
    t: FontType,
    part: Seq<(Seq<char>, Seq<char>)>,
) -> bool {
    &&& after.len() == before.len() + part.len()
    &&& after.subrange(0, before.len() as int) == before
    &&& forall|k: int| 0 <= k < part.len() ==> is_field_error_at(
        #[trigger] after[before.len() + k], t, part[k].0, part[k].1)
}

/// Reports of two parts in turn are the reports of both parts.
proof fn lemma_reports_chain(
    a: Seq<ConfigValidationError>,
    b: Seq<ConfigValidationError>,
    c: Seq<ConfigValidationError>,
    t: FontType,
    p: Seq<(Seq<char>, Seq<char>)>,
    q: Seq<(Seq<char>, Seq<char>)>,
)
    requires
        reports(a, b, t, p),
        reports(b, c, t, q),
    ensures
        reports(a, c, t, p + q),
{
    assert(c.subrange(0, a.len() as int) =~= b.subrange(0, a.len() as int)) by {
        assert forall|i: int| 0 <= i < a.len() implies c.subrange(0, a.len() as int)[i] == b.subrange(0, a.len() as int)[i] by {
            assert(c[i] == c.subrange(0, b.len() as int)[i]);
        }
    }
    assert forall|k: int| 0 <= k < (p + q).len() implies is_field_error_at(
        #[trigger] c[a.len() + k], t, (p + q)[k].0, (p + q)[k].1) by {
        if k < p.len() {
            assert(c[a.len() + k] == c.subrange(0, b.len() as int)[a.len() + k]);
            assert(b[a.len() + k] == c[a.len() + k]);
        } else {
            let m = k - p.len();
            assert(c[b.len() + m] == c[a.len() + k]);
        }
    }
}

/// One problem per name in `names` that is not an OpenType tag, at `field`.
pub open spec fn tag_failures(field: Seq<char>, names: Seq<Seq<char>>) -> Seq<(Seq<char>, Seq<char>)> {
    Seq::new(invalid_tag_count(names), |k: int| (field, tag_error_message(TagError::OpenType)))
}

/// Reads each of `names` as an OpenType tag. Each name that is not one adds the field error
/// at `<field>` of the kind, in order; when all are tags, their tags come back in order.
fn read_tags(
    font_type: FontType,
    field: &str,
    names: &Vec<String>,
    errors: &mut Vec<ConfigValidationError>,
) -> (tags: Vec<[u8; 4]>)
    ensures
        reports(old(errors)@, final(errors)@, font_type, tag_failures(field@, texts_of(names@))),
        invalid_tag_count(texts_of(names@)) == 0 ==> {
            &&& tags@.len() == names@.len()
            &&& forall|i: int| 0 <= i < names@.len() ==> Some((#[trigger] tags@[i])@) == spec_opentype_tag(names@[i]@)
        },
{
    let ghost e0 = old(errors)@;
    let ghost all = texts_of(names@);
    let mut tags: Vec<[u8; 4]> = Vec::new();
    let mut i: usize = 0;
    proof {
        assert(tag_failures(field@, all.subrange(0, 0)) =~= Seq::empty());
        assert(errors@.subrange(0, e0.len() as int) =~= e0);
    }
    while i < names.len()
        invariant
            0 <= i <= names@.len(),
            all == texts_of(names@),
            reports(e0, errors@, font_type, tag_failures(field@, all.subrange(0, i as int))),
            invalid_tag_count(all.subrange(0, i as int)) == 0 ==> {
                &&& tags@.len() == i
                &&& forall|k: int| 0 <= k < i ==> Some((#[trigger] tags@[k])@) == spec_opentype_tag(names@[k]@)
            },
        decreases names@.len() - i,
    {
        let ghost before = errors@;
        proof {
            assert(all.subrange(0, i + 1).drop_last() =~= all.subrange(0, i as int));
            assert(all.subrange(0, i + 1).last() == names@[i as int]@);
        }
        match parse_opentype_tag(names[i].as_str()) {
            Ok(tag) => {
                tags.push(tag);
                proof {
                    assert(tag_failures(field@, all.subrange(0, i + 1)) =~= tag_failures(field@, all.subrange(0, i as int)));
                }
            },
            Err(e) => {
                errors.push(field_error(font_type, field, e.message()));
                proof {
                    let p = tag_failures(field@, all.subrange(0, i as int));
                    let p2 = tag_failures(field@, all.subrange(0, i + 1));
                    assert(p2 =~= p.push((field@, tag_error_message(TagError::OpenType))));
                    assert(errors@.subrange(0, e0.len() as int) =~= before.subrange(0, e0.len() as int));
                    assert forall|k: int| 0 <= k < p2.len() implies is_field_error_at(
                        #[trigger] errors@[e0.len() + k], font_type, p2[k].0, p2[k].1) by {
                        if k < p.len() {
                            assert(errors@[e0.len() + k] == before[e0.len() + k]);
                        }
                    }
                }
            },
        }
        i = i + 1;
    }
    proof {
        assert(all.subrange(0, names@.len() as int) =~= all);
    }
    tags
}

/// The problem of a script tag that does not read.
pub open spec fn script_failures(value: Option<String>) -> Seq<(Seq<char>, Seq<char>)> {
    match value {
        Some(s) => if spec_script_tag(s@) is None {
            seq![("script"@, tag_error_message(TagError::Script))]
        } else {
            Seq::empty()
        },
        None => Seq::empty(),
    }
}

/// The problem of a language system tag that does not read.
pub open spec fn ot_language_failures(value: Option<String>) -> Seq<(Seq<char>, Seq<char>)> {
    match value {
        Some(s) => if spec_ot_language_tag(s@) is None {
            seq![("ot_language"@, tag_error_message(TagError::OtLanguage))]
        } else {
            Seq::empty()
        },
        None => Seq::empty(),
    }
}

/// The problem of a misspelt direction.
pub open spec fn direction_failures(value: Option<String>) -> Seq<(Seq<char>, Seq<char>)> {
    match value {
        Some(d) => if spec_text_direction(d@) is None {
            seq![("direction"@, direction_error_message())]
        } else {
            Seq::empty()
        },
        None => Seq::empty(),
    }
}

/// The names of the variation axes set, as texts.
pub open spec fn axis_names_of(names: Option<Vec<String>>) -> Seq<Seq<char>> {
    match names {
        Some(ns) => texts_of(ns@),
        None => Seq::empty(),
    }
}

/// The tags of the features set, as texts.
pub open spec fn feature_tags_of(features: Option<Vec<PreFontFeature>>) -> Seq<Seq<char>> {
    match features {
        Some(fs) => fs@.map_values(|f: PreFontFeature| f.tag@),
        None => Seq::empty(),
    }
}

/// The problems of a font kind's settings, in order, each as its field and message: a script
/// tag, a language system tag or a direction that does not read, then one entry per axis name
/// and one per feature tag that is not an OpenType tag.
pub open spec fn font_value_failures(c: PreFontConfig) -> Seq<(Seq<char>, Seq<char>)> {
    script_failures(c.script) + ot_language_failures(c.ot_language) + direction_failures(c.direction)
        + tag_failures("variation_axes"@, axis_names_of(c.variation_axis_names))
        + tag_failures("features"@, feature_tags_of(c.features))
}

/// The bytes of a read tag, if any.
pub open spec fn tag_view(t: Option<[u8; 4]>) -> Option<Seq<u8>> {
    match t {
        Some(a) => Some(a@),
        None => None,
    }
}

/// Reads the script tag, if one is set, reporting it when it does not read.
fn read_script(font_type: FontType, value: &Option<String>, errors: &mut Vec<ConfigValidationError>) -> (r: Option<[u8; 4]>)
    ensures
        reports(old(errors)@, final(errors)@, font_type, script_failures(*value)),
        match value {
            Some(s) => tag_view(r) == spec_script_tag(s@),
            None => r is None,
        },
{
    let ghost e0 = errors@;
    proof {
        reveal_strlit("script");
    }
    match value {
        None => {
            assert(errors@.subrange(0, e0.len() as int) =~= e0);
            None
        },
        Some(v) => match parse_script_tag(v.as_str()) {
            Ok(bytes) => {
                assert(errors@.subrange(0, e0.len() as int) =~= e0);
                Some(bytes)
            },
            Err(e) => {
                errors.push(field_error(font_type, "script", e.message()));
                assert(errors@.subrange(0, e0.len() as int) =~= e0);
                assert(errors@[e0.len() as int] == errors@.last());
                None
            },
        },
    }
}

/// Reads the language system tag, if one is set, reporting it when it does not read.
fn read_ot_language(font_type: FontType, value: &Option<String>, errors: &mut Vec<ConfigValidationError>) -> (r: Option<[u8; 4]>)
    ensures
        reports(old(errors)@, final(errors)@, font_type, ot_language_failures(*value)),
        match value {
            Some(s) => tag_view(r) == spec_ot_language_tag(s@),
            None => r is None,
        },
{
    let ghost e0 = errors@;
    proof {
        reveal_strlit("ot_language");
    }
    match value {
        None => {
            assert(errors@.subrange(0, e0.len() as int) =~= e0);
            None
        },
        Some(v) => match parse_ot_language_tag(v.as_str()) {
            Ok(bytes) => {
                assert(errors@.subrange(0, e0.len() as int) =~= e0);
                Some(bytes)
            },
            Err(e) => {
                errors.push(field_error(font_type, "ot_language", e.message()));
                assert(errors@.subrange(0, e0.len() as int) =~= e0);
                assert(errors@[e0.len() as int] == errors@.last());
                None
            },
        },
    }
}

/// Parses the direction, if one is set, reporting it when it is misspelt.
fn read_direction(font_type: FontType, value: &Option<String>, errors: &mut Vec<ConfigValidationError>) -> (r: Option<TextDirection>)
    ensures
        reports(old(errors)@, final(errors)@, font_type, direction_failures(*value)),
        r == match value {
            Some(d) => spec_text_direction(d@),
            None => None,
        },
{
    let ghost e0 = errors@;
    proof {
        reveal_strlit("direction");
    }
    match value {
        None => {
            assert(errors@.subrange(0, e0.len() as int) =~= e0);
            None
        },
        Some(v) => match TextDirection::parse(v.as_str()) {
            Ok(d) => {
                assert(errors@.subrange(0, e0.len() as int) =~= e0);
                Some(d)
            },
            Err(e) => {
                errors.push(field_error(font_type, "direction", e.message()));
                assert(errors@.subrange(0, e0.len() as int) =~= e0);
                assert(errors@[e0.len() as int] == errors@.last());
                None
            },
        },
    }
}

/// Reads the variation axis names, if any are set, reporting each that is not a tag.
fn read_axes(font_type: FontType, names: &Option<Vec<String>>, errors: &mut Vec<ConfigValidationError>) -> (r: Option<Vec<[u8; 4]>>)
    ensures
        reports(old(errors)@, final(errors)@, font_type, tag_failures("variation_axes"@, axis_names_of(*names))),
        match names {
            None => r is None,
            Some(ns) => {
                &&& r is Some
                &&& invalid_tag_count(texts_of(ns@)) == 0 ==> (r matches Some(ts) && ts@.len() == ns@.len()
                    && forall|i: int| 0 <= i < ns@.len() ==> Some((#[trigger] ts@[i])@) == spec_opentype_tag(ns@[i]@))
            },
        },
{
    let ghost e0 = errors@;
    proof {
        reveal_strlit("variation_axes");
    }
    match names {
        None => {
            assert(errors@.subrange(0, e0.len() as int) =~= e0);
            assert(tag_failures("variation_axes"@, Seq::empty()) =~= Seq::empty());
            None
        },
        Some(ns) => Some(read_tags(font_type, "variation_axes", ns, errors)),
    }
}

/// Reads the feature settings, if any are set, reporting each tag that is not one; with every
/// tag read, a non-empty list comes back with its values.
fn read_features(
    font_type: FontType,
    features: &Option<Vec<PreFontFeature>>,
    errors: &mut Vec<ConfigValidationError>,
) -> (r: Option<Vec<Feature>>)
    ensures
        reports(old(errors)@, final(errors)@, font_type, tag_failures("features"@, feature_tags_of(*features))),
        match features {
            None => r is None,
            Some(fs) => invalid_tag_count(feature_tags_of(*features)) == 0 ==> if fs@.len() == 0 {
                r is None
            } else {
                r matches Some(out) && out@.len() == fs@.len() && forall|i: int| 0 <= i < fs@.len() ==> {
                    &&& Some((#[trigger] out@[i]).tag@) == spec_opentype_tag(fs@[i].tag@)
                    &&& out@[i].value == fs@[i].value
                }
            },
        },
{
    let ghost e0 = errors@;
    proof {
        reveal_strlit("features");
    }
    match features {
        None => {
            assert(errors@.subrange(0, e0.len() as int) =~= e0);
            assert(tag_failures("features"@, Seq::empty()) =~= Seq::empty());
            None
        },
        Some(feats) => {
            let mut tag_names: Vec<String> = Vec::new();
            let mut j: usize = 0;
            while j < feats.len()
                invariant
                    0 <= j <= feats@.len(),
                    tag_names@.len() == j,
                    forall|m: int| 0 <= m < j ==> (#[trigger] tag_names@[m])@ == feats@[m].tag@,
                decreases feats@.len() - j,
            {
                tag_names.push(feats[j].tag.clone());
                j = j + 1;
            }
            proof {
                assert(texts_of(tag_names@) =~= feature_tags_of(*features));
            }
            let reported = errors.len();
            let tags = read_tags(font_type, "features", &tag_names, errors);
            if errors.len() == reported && feats.len() > 0 {
                let mut out: Vec<Feature> = Vec::new();
                let mut k: usize = 0;
                while k < feats.len()
                    invariant
                        0 <= k <= feats@.len(),
                        tags@.len() == feats@.len(),
                        tag_names@.len() == feats@.len(),
                        forall|m: int| 0 <= m < feats@.len() ==> (#[trigger] tag_names@[m])@ == feats@[m].tag@,
                        forall|i: int| 0 <= i < feats@.len() ==> Some((#[trigger] tags@[i])@) == spec_opentype_tag(tag_names@[i]@),
                        out@.len() == k,
                        forall|i: int| 0 <= i < k ==> {
                            &&& Some((#[trigger] out@[i]).tag@) == spec_opentype_tag(feats@[i].tag@)
                            &&& out@[i].value == feats@[i].value
                        },
                    decreases feats@.len() - k,
                {
                    proof {
                        assert(tag_names@[k as int]@ == feats@[k as int].tag@);
                    }
                    out.push(Feature { tag: tags[k], value: feats[k].value });
                    k = k + 1;
                }
                Some(out)
            } else {
                None
            }
        },
    }
}

/// `v` holds the settings `c` read: the face index, each tag as read, the direction as parsed,
/// the language string, the axis tags in order, and the features in order with their values
/// (none for an empty list).
pub open spec fn font_values_read(v: FontValues, c: PreFontConfig) -> bool {
    &&& v.font_index == c.font_index
    &&& match c.script {
        Some(s) => tag_view(v.script) == spec_script_tag(s@),
        None => v.script is None,
    }
    &&& match c.ot_language {
        Some(s) => tag_view(v.ot_language_tag) == spec_ot_language_tag(s@),
        None => v.ot_language_tag is None,
    }
    &&& v.direction == match c.direction {
        Some(d) => spec_text_direction(d@),
        None => None,
    }
    &&& ({
        let l = match c.language { Some(x) => Some(x@), None => None };
        let o = match c.ot_language { Some(x) => Some(x@), None => None };
        match v.language {
            Some(x) => spec_language_string(l, o) == Some(x@),
            None => spec_language_string(l, o) is None,
        }
    })
    &&& match c.variation_axis_names {
        None => v.variation_axis_tags is None,
        Some(ns) => v.variation_axis_tags matches Some(ts) && ts@.len() == ns@.len()
            && forall|i: int| 0 <= i < ns@.len() ==> Some((#[trigger] ts@[i])@) == spec_opentype_tag(ns@[i]@),
    }
    &&& match c.features {
        None => v.features is None,
        Some(fs) => if fs@.len() == 0 {
            v.features is None
        } else {
            v.features matches Some(out) && out@.len() == fs@.len() && forall|i: int| 0 <= i < fs@.len() ==> {
                &&& Some((#[trigger] out@[i]).tag@) == spec_opentype_tag(fs@[i].tag@)
                &&& out@[i].value == fs@[i].value
            }
        },
    }
}

/// Reads the tags and the direction of a font kind's settings. With no problem the values are
/// [`font_values_read`]; otherwise every problem of [`font_value_failures`] is reported, in
/// order, as the field error at `font_configs.<key>.<field>`.
pub fn parse_font_values(font_type: FontType, c: &PreFontConfig) -> (r: Result<FontValues, Vec<ConfigValidationError>>)
    ensures
        match r {
            Ok(v) => font_value_failures(*c).len() == 0 && font_values_read(v, *c),
            Err(es) => {
                &&& font_value_failures(*c).len() > 0
                &&& es@.len() == font_value_failures(*c).len()
                &&& forall|k: int| 0 <= k < es@.len() ==> is_field_error_at(
                    #[trigger] es@[k], font_type, font_value_failures(*c)[k].0, font_value_failures(*c)[k].1)
            },
        },
{
    let mut errors: Vec<ConfigValidationError> = Vec::new();
    let ghost e0 = errors@;
    let script = read_script(font_type, &c.script, &mut errors);
    let ghost e1 = errors@;
    let ot_language_tag = read_ot_language(font_type, &c.ot_language, &mut errors);
    let ghost e2 = errors@;
    let direction = read_direction(font_type, &c.direction, &mut errors);
    let ghost e3 = errors@;
    let variation_axis_tags = read_axes(font_type, &c.variation_axis_names, &mut errors);
    let ghost e4 = errors@;
    let features = read_features(font_type, &c.features, &mut errors);
    proof {
        let p1 = script_failures(c.script);
        let p2 = ot_language_failures(c.ot_language);
        let p3 = direction_failures(c.direction);
        let p4 = tag_failures("variation_axes"@, axis_names_of(c.variation_axis_names));
        let p5 = tag_failures("features"@, feature_tags_of(c.features));
        lemma_reports_chain(e0, e1, e2, font_type, p1, p2);
        lemma_reports_chain(e0, e2, e3, font_type, p1 + p2, p3);
        lemma_reports_chain(e0, e3, e4, font_type, p1 + p2 + p3, p4);
        lemma_reports_chain(e0, e4, errors@, font_type, p1 + p2 + p3 + p4, p5);
        assert(font_value_failures(*c) == p1 + p2 + p3 + p4 + p5);
        assert forall|k: int| 0 <= k < errors@.len() implies is_field_error_at(
            #[trigger] errors@[k], font_type, font_value_failures(*c)[k].0, font_value_failures(*c)[k].1) by {
            assert(errors@[e0.len() + k] == errors@[k]);
        }
        if errors@.len() == 0 {
            assert(p4.len() == 0 && p5.len() == 0);
        }
    }

    let language_text = match &c.language {
        Some(l) => Some(l.as_str()),
        None => None,
    };
    let ot_language_text = match &c.ot_language {
        Some(o) => Some(o.as_str()),
        None => None,
    };
    let language = build_language_string(language_text, ot_language_text);

    if errors.len() > 0 {
        return Err(errors);
    }
    Ok(FontValues { font_index: c.font_index, variation_axis_tags, script, language, ot_language_tag, direction, features })
}

} // verus!
