//! The checks of a whole configuration, before any file is looked at: the field rules of each
//! section in declaration order (what `garde` checks on the TOML shape), then the uniqueness of
//! the font names, then the language constraint, then the tags and direction of each kind.

use vstd::prelude::*;
use vstd::string::*;
use crate::length::{positive, Length};
use crate::project::config::{
    duplicate_name_kinds, duplicate_name_message, font_names, font_section_path, font_value_failures,
    font_values_read, garde_length, is_field_error_at, is_font_field_error, language_error_message,
    language_identifier_error, missing_script_kinds, occurs_in, parse_font_values, spec_document_name_error,
    validate_bcp47_language, validate_document_language, validate_document_name, validate_font_language_constraints,
    validate_image_config, validate_keywords, validate_non_empty_sources, validate_output_dir,
    validate_unique_font_names, ConfigValidationError, DocumentNameError, FontValues, LanguageError, PreFontConfig,
    PreImageConfig,
};
use crate::project::font::{FontType, FONT_TYPE_COUNT, font_type_at, toml_key};
use crate::project::font_map::FontMap;
use crate::strs::{string_push, to_owned_string};

verus! {

/// The decimal digit `d`.
pub open spec fn digit_char(d: int) -> char {
    if d == 0 {
        '0'
    } else if d == 1 {
        '1'
    } else if d == 2 {
        '2'
    } else if d == 3 {
        '3'
    } else if d == 4 {
        '4'
    } else if d == 5 {
        '5'
    } else if d == 6 {
        '6'
    } else if d == 7 {
        '7'
    } else if d == 8 {
        '8'
    } else {
        '9'
    }
}

/// `n` written in decimal, without leading zeros.
pub open spec fn decimal(n: nat) -> Seq<char>
    decreases n,
{
    if n < 10 {
        seq![digit_char(n as int)]
    } else {
        decimal(n / 10).push(digit_char((n % 10) as int))
    }
}

/// The decimal digit of `d`, which is below ten.
fn digit(d: usize) -> (c: char)
    requires
        d < 10,
    ensures
        c == digit_char(d as int),
{
    if d == 0 {
        '0'
    } else if d == 1 {
        '1'
    } else if d == 2 {
        '2'
    } else if d == 3 {
        '3'
    } else if d == 4 {
        '4'
    } else if d == 5 {
        '5'
    } else if d == 6 {
        '6'
    } else if d == 7 {
        '7'
    } else if d == 8 {
        '8'
    } else {
        '9'
    }
}

/// `n` written in decimal (see [`decimal`]).
pub fn decimal_text(n: usize) -> (s: String)
    ensures
        s@ == decimal(n as nat),
{
    let mut low: Vec<char> = Vec::new();
    let mut m: usize = n;
    while m >= 10
        invariant
            decimal(n as nat) == decimal(m as nat) + low@,
        decreases m,
    {
        let d = digit(m % 10);
        let ghost before = low@;
        low.insert(0, d);
        proof {
            assert(decimal(m as nat) == decimal((m / 10) as nat).push(digit_char((m % 10) as int)));
            assert(low@ =~= seq![d] + before);
            assert(decimal((m / 10) as nat).push(d) + before =~= decimal((m / 10) as nat) + low@);
        }
        m = m / 10;
    }
    let ghost before = low@;
    low.insert(0, digit(m));
    proof {
        assert(low@ =~= decimal(m as nat) + before);
    }
    let mut s = String::new();
    let mut i: usize = 0;
    while i < low.len()
        invariant
            0 <= i <= low@.len(),
            s@ == low@.subrange(0, i as int),
        decreases low@.len() - i,
    {
        string_push(&mut s, low[i]);
        proof {
            assert(low@.subrange(0, i + 1) =~= low@.subrange(0, i as int).push(low@[i as int]));
        }
        i = i + 1;
    }
    proof {
        assert(low@.subrange(0, low@.len() as int) =~= low@);
    }
    s
}

/// The `[document]` section: the PDF's metadata.
#[derive(Debug, Clone, Default)]
pub struct PreDocumentConfig {
    /// `/Title`
    pub title: Option<String>,
    /// `/Author`
    pub author: Option<String>,
    /// The date, as written.
    pub date: Option<String>,
    /// `/Subject`
    pub subject: Option<String>,
    /// The language of the whole document (BCP 47).
    pub language: Option<String>,
    /// `/Keywords`
    pub keywords: Option<Vec<String>>,
}

/// The `[output]` section.
#[derive(Debug, Clone)]
pub struct PreOutputConfig {
    /// The base of the PDF file's name.
    pub name: String,
    /// The output directory, as written.
    pub output_dir: Option<String>,
}

/// The `[pdf]` section: the physical page.
#[derive(Debug, Clone, Copy)]
pub struct PrePdfConfig {
    /// The page height (positive).
    pub height: Length,
    /// The page width (positive).
    pub width: Length,
    /// Whether bookmarks are written.
    pub show_bookmarks: bool,
}

/// A whole configuration as written, but for the values of the variation axes.
#[derive(Debug)]
pub struct PreConfig {
    /// `[document]`
    pub document: PreDocumentConfig,
    /// `[output]`
    pub output: PreOutputConfig,
    /// `[pdf]`
    pub pdf: PrePdfConfig,
    /// `[image]`
    pub image: PreImageConfig,
    /// `[font_configs.<kind>]`, one per kind.
    pub font_configs: FontMap<PreFontConfig>,
    /// `sources`
    pub sources: Vec<String>,
    /// `style_path`
    pub style_path: Option<String>,
    /// `references_path`
    pub references_path: Option<String>,
}

/// What a reported message is known to say.
pub enum ExpectedMessage {
    /// Exactly this text.
    Exact(Seq<char>),
    /// `garde`'s own wording, which its message handler decides.
    FromGarde,
    /// The refusal of a length that is not positive, quoting the length as the caller renders it.
    NotPositive(Length),
}

/// The message of a length that is not positive, quoting it as `shown`.
pub open spec fn not_positive_message(shown: Seq<char>) -> Seq<char> {
    "正値である必要があります（受け取った値: "@ + shown + "）"@
}

/// `m` is the message of the length `l` that is not positive, quoting it as `render` shows it.
pub open spec fn quotes_rendered<R: Fn(Length) -> String>(m: Seq<char>, l: Length, render: R) -> bool {
    exists|shown: String| #[trigger] render.ensures((l,), shown) && m == not_positive_message(shown@)
}

/// `m` is a message as `expected` says.
pub open spec fn message_fits<R: Fn(Length) -> String>(m: Seq<char>, expected: ExpectedMessage, render: R) -> bool {
    match expected {
        ExpectedMessage::Exact(x) => m == x,
        ExpectedMessage::FromGarde => true,
        ExpectedMessage::NotPositive(l) => quotes_rendered(m, l, render),
    }
}

/// `es` are field errors at the paths of `expected`, in order, each with its message.
pub open spec fn lists<R: Fn(Length) -> String>(
    es: Seq<ConfigValidationError>,
    expected: Seq<(Seq<char>, ExpectedMessage)>,
    render: R,
) -> bool {
    &&& es.len() == expected.len()
    &&& forall|k: int| 0 <= k < es.len() ==> (#[trigger] es[k] matches ConfigValidationError::Field { path, message }
        && path@ == expected[k].0 && message_fits(message@, expected[k].1, render))
}

/// `after` is `before` followed by the errors `expected` lists.
pub open spec fn appends<R: Fn(Length) -> String>(
    before: Seq<ConfigValidationError>,
    after: Seq<ConfigValidationError>,
    expected: Seq<(Seq<char>, ExpectedMessage)>,
    render: R,
) -> bool {
    &&& after.len() >= before.len()
    &&& after.subrange(0, before.len() as int) == before
    &&& lists(after.subrange(before.len() as int, after.len() as int), expected, render)
}

/// Errors appended in two steps are those of both steps.
proof fn lemma_appends_chain<R: Fn(Length) -> String>(
    a: Seq<ConfigValidationError>,
    b: Seq<ConfigValidationError>,
    c: Seq<ConfigValidationError>,
    x: Seq<(Seq<char>, ExpectedMessage)>,
    y: Seq<(Seq<char>, ExpectedMessage)>,
    render: R,
)
    requires
        appends(a, b, x, render),
        appends(b, c, y, render),
    ensures
        appends(a, c, x + y, render),
{
    assert(c.subrange(0, a.len() as int) =~= a) by {
        assert forall|i: int| 0 <= i < a.len() implies c.subrange(0, a.len() as int)[i] == a[i] by {
            assert(c.subrange(0, b.len() as int)[i] == c[i]);
            assert(b.subrange(0, a.len() as int)[i] == b[i]);
        }
    }
    let tail = c.subrange(a.len() as int, c.len() as int);
    assert forall|k: int| 0 <= k < tail.len() implies (#[trigger] tail[k] matches ConfigValidationError::Field { path, message }
        && path@ == (x + y)[k].0 && message_fits(message@, (x + y)[k].1, render)) by {
        if k < x.len() {
            assert(tail[k] == c[a.len() + k]);
            assert(c[a.len() + k] == c.subrange(0, b.len() as int)[a.len() + k]);
            assert(b.subrange(a.len() as int, b.len() as int)[k] == b[a.len() + k]);
        } else {
            let m = k - x.len();
            assert(tail[k] == c[a.len() + k]);
            assert(c.subrange(b.len() as int, c.len() as int)[m] == c[b.len() + m]);
        }
    }
}

/// Nothing appended lists nothing.
proof fn lemma_appends_none<R: Fn(Length) -> String>(a: Seq<ConfigValidationError>, render: R)
    ensures
        appends(a, a, Seq::empty(), render),
{
    assert(a.subrange(0, a.len() as int) =~= a);
}

/// One error appended lists it.
proof fn lemma_appends_one<R: Fn(Length) -> String>(
    a: Seq<ConfigValidationError>,
    e: ConfigValidationError,
    expected: (Seq<char>, ExpectedMessage),
    render: R,
)
    requires
        e matches ConfigValidationError::Field { path, message } && path@ == expected.0
            && message_fits(message@, expected.1, render),
    ensures
        appends(a, a.push(e), seq![expected], render),
{
    assert(a.push(e).subrange(0, a.len() as int) =~= a);
    assert(a.push(e).subrange(a.len() as int, a.len() + 1 as int) =~= seq![e]);
}

/// `i` is the first empty keyword of `ks`.
pub open spec fn is_first_empty(ks: Seq<String>, i: int) -> bool {
    &&& 0 <= i < ks.len()
    &&& ks[i]@.len() == 0
    &&& forall|j: int| 0 <= j < i ==> (#[trigger] ks[j])@.len() > 0
}

/// The index of the first empty keyword, if any.
pub open spec fn first_empty_keyword(ks: Seq<String>) -> Option<int> {
    if exists|i: int| is_first_empty(ks, i) {
        Some(choose|i: int| is_first_empty(ks, i))
    } else {
        None
    }
}

/// Only one index is the first empty keyword.
proof fn lemma_first_empty_unique(ks: Seq<String>, i: int)
    requires
        is_first_empty(ks, i),
    ensures
        first_empty_keyword(ks) == Some(i),
{
    let c = choose|k: int| is_first_empty(ks, k);
    assert(is_first_empty(ks, c));
    if c < i {
        assert(ks[c]@.len() > 0);
    } else if c > i {
        assert(ks[i]@.len() > 0);
    }
}

/// What each document name error says.
pub open spec fn document_name_message(e: DocumentNameError) -> Seq<char> {
    match e {
        DocumentNameError::Empty => "ドキュメント名は空にできません"@,
        DocumentNameError::PathSeparator => "ドキュメント名にパスセパレータ ('/' または '\\\\') を含めることはできません"@,
        DocumentNameError::DotName => "ドキュメント名を '.' または '..' にすることはできません"@,
    }
}

/// Why a font's language is refused, if it is.
pub open spec fn bcp47_error(l: Seq<char>) -> Option<LanguageError> {
    if occurs_in(l, "-x-hbsc"@) || occurs_in(l, "-x-hbot"@) {
        Some(LanguageError::ReservedSubtag)
    } else {
        match language_identifier_error(vstd::utf8::encode_utf8(l)) {
            Some(e) => Some(LanguageError::Invalid(e)),
            None => None,
        }
    }
}

/// The problem of an invalid document language.
pub open spec fn document_language_failures(language: Option<String>) -> Seq<(Seq<char>, ExpectedMessage)> {
    match language {
        Some(l) => match language_identifier_error(vstd::utf8::encode_utf8(l@)) {
            Some(e) => seq![("document.language"@, ExpectedMessage::Exact(language_error_message(LanguageError::Invalid(e))))],
            None => Seq::empty(),
        },
        None => Seq::empty(),
    }
}

/// The problem of the first empty keyword.
pub open spec fn keyword_failures(keywords: Option<Vec<String>>) -> Seq<(Seq<char>, ExpectedMessage)> {
    match keywords {
        Some(ks) => match first_empty_keyword(ks@) {
            Some(i) => seq![("document.keywords"@, ExpectedMessage::Exact("keywords["@ + decimal(i as nat) + "] は空にできません"@))],
            None => Seq::empty(),
        },
        None => Seq::empty(),
    }
}

/// The problems the field rules find in `[document]`: an invalid language, then the first
/// empty keyword.
pub open spec fn document_failures(d: PreDocumentConfig) -> Seq<(Seq<char>, ExpectedMessage)> {
    document_language_failures(d.language) + keyword_failures(d.keywords)
}

/// The problem of a bad document name.
pub open spec fn name_failures(name: Seq<char>) -> Seq<(Seq<char>, ExpectedMessage)> {
    match spec_document_name_error(name) {
        Some(e) => seq![("output.name"@, ExpectedMessage::Exact(document_name_message(e)))],
        None => Seq::empty(),
    }
}

/// The problem of an empty output directory.
pub open spec fn output_dir_failures(dir: Option<String>) -> Seq<(Seq<char>, ExpectedMessage)> {
    match dir {
        Some(d) => if d@.len() == 0 {
            seq![("output.output_dir"@, ExpectedMessage::Exact("出力ディレクトリは空にできません"@))]
        } else {
            Seq::empty()
        },
        None => Seq::empty(),
    }
}

/// The problems the field rules find in `[output]`: a bad name, then an empty directory.
pub open spec fn output_failures(o: PreOutputConfig) -> Seq<(Seq<char>, ExpectedMessage)> {
    name_failures(o.name@) + output_dir_failures(o.output_dir)
}

/// The problems the field rules find in `[pdf]`: a height, then a width, that is not positive.
pub open spec fn pdf_failures(p: PrePdfConfig) -> Seq<(Seq<char>, ExpectedMessage)> {
    let height = if p.height.spec_sp() <= 0 {
        seq![("pdf.height"@, ExpectedMessage::NotPositive(p.height))]
    } else {
        Seq::empty()
    };
    let width = if p.width.spec_sp() <= 0 {
        seq![("pdf.width"@, ExpectedMessage::NotPositive(p.width))]
    } else {
        Seq::empty()
    };
    height + width
}

/// The problem the field rules find in `[image]`: a `max_dpi` outside 1 to 2400.
pub open spec fn image_failures(i: PreImageConfig) -> Seq<(Seq<char>, ExpectedMessage)> {
    if 1 <= i.max_dpi <= 2400 {
        Seq::empty()
    } else {
        seq![("image.max_dpi"@, ExpectedMessage::FromGarde)]
    }
}

/// The problem of an empty font name in the section of the kind at `i`.
pub open spec fn font_name_failures(i: int, name: Seq<char>) -> Seq<(Seq<char>, ExpectedMessage)> {
    if name.len() == 0 {
        seq![("font_configs."@ + toml_key(font_type_at(i)) + ".font_name"@, ExpectedMessage::FromGarde)]
    } else {
        Seq::empty()
    }
}

/// The problem of a refused language in the section of the kind at `i`.
pub open spec fn font_language_failures(i: int, language: Option<String>) -> Seq<(Seq<char>, ExpectedMessage)> {
    match language {
        Some(l) => match bcp47_error(l@) {
            Some(e) => seq![("font_configs."@ + toml_key(font_type_at(i)) + ".language"@, ExpectedMessage::Exact(language_error_message(e)))],
            None => Seq::empty(),
        },
        None => Seq::empty(),
    }
}

/// The problems the field rules find in the section of the kind at `i`: an empty font name,
/// then a refused language.
pub open spec fn font_kind_failures(i: int, c: PreFontConfig) -> Seq<(Seq<char>, ExpectedMessage)> {
    font_name_failures(i, c.font_name@) + font_language_failures(i, c.language)
}

/// The problems the field rules find in the font sections, kind by kind.
pub open spec fn font_section_failures(cs: Seq<PreFontConfig>) -> Seq<(Seq<char>, ExpectedMessage)>
    decreases cs.len(),
{
    if cs.len() == 0 {
        Seq::empty()
    } else {
        font_section_failures(cs.drop_last()) + font_kind_failures(cs.len() - 1, cs.last())
    }
}

/// The problem the field rules find in `sources`: an empty list.
pub open spec fn sources_failures(s: Seq<String>) -> Seq<(Seq<char>, ExpectedMessage)> {
    if s.len() == 0 {
        seq![("sources"@, ExpectedMessage::Exact("sources は最低 1 つのファイルを指定する必要があります"@))]
    } else {
        Seq::empty()
    }
}

/// The problems the field rules find, in the order of the sections and fields.
pub open spec fn field_failures(raw: PreConfig) -> Seq<(Seq<char>, ExpectedMessage)> {
    document_failures(raw.document) + output_failures(raw.output) + pdf_failures(raw.pdf) + image_failures(raw.image)
        + font_section_failures(raw.font_configs.spec_values()) + sources_failures(raw.sources@)
}

/// The field error at `path`.
fn field(path: &str, message: String) -> (e: ConfigValidationError)
    ensures
        e matches ConfigValidationError::Field { path: p, message: m } && p@ == path@ && m@ == message@,
{
    ConfigValidationError::Field { path: to_owned_string(path), message }
}

/// Appends the problems of `[document]`.
fn check_document<R: Fn(Length) -> String>(d: &PreDocumentConfig, render: &R, errors: &mut Vec<ConfigValidationError>)
    ensures
        appends(old(errors)@, final(errors)@, document_failures(*d), *render),
{
    let ghost e0 = errors@;
    proof {
        reveal_strlit("document.language");
        reveal_strlit("document.keywords");
        reveal_strlit("keywords[");
        reveal_strlit("] は空にできません");
        lemma_appends_none(e0, *render);
    }
    let language = match &d.language {
        Some(l) => Some(l.as_str()),
        None => None,
    };
    match validate_document_language(language) {
        Ok(()) => {},
        Err(e) => {
            let message = to_owned_string(e.message());
            let ghost before = errors@;
            errors.push(field("document.language", message));
            proof {
                lemma_appends_one(before, errors@.last(), ("document.language"@, ExpectedMessage::Exact(language_error_message(e))), *render);
            }
        },
    }
    let ghost e1 = errors@;
    assert(appends(e0, e1, document_language_failures(d.language), *render));
    let keywords = match &d.keywords {
        Some(ks) => Some(ks),
        None => None,
    };
    let checked = validate_keywords(keywords);
    match checked {
        Ok(()) => {
            proof {
                lemma_appends_none(e1, *render);
                if d.keywords is Some {
                    let ks = d.keywords->Some_0;
                    assert(keywords == Some(&ks));
                    assert(match keywords {
                        Some(k) => forall|j: int| 0 <= j < k@.len() ==> (#[trigger] k@[j])@.len() > 0,
                        None => true,
                    });
                    assert forall|i: int| !is_first_empty(ks@, i) by {
                        if 0 <= i < ks@.len() {
                            assert(ks@[i]@.len() > 0);
                        }
                    }
                }
            }
        },
        Err(i) => {
            proof {
                let ks = d.keywords->Some_0;
                lemma_first_empty_unique(ks@, i as int);
            }
            let mut message = to_owned_string("keywords[");
            let digits = decimal_text(i);
            message.append(digits.as_str());
            message.append("] は空にできません");
            errors.push(field("document.keywords", message));
            proof {
                lemma_appends_one(e1, errors@.last(), ("document.keywords"@, ExpectedMessage::Exact("keywords["@ + decimal(i as nat) + "] は空にできません"@)), *render);
            }
        },
    }
    proof {
        lemma_appends_chain(e0, e1, errors@, document_language_failures(d.language), keyword_failures(d.keywords), *render);
    }
}

/// Appends the problems of `[output]`.
fn check_output<R: Fn(Length) -> String>(o: &PreOutputConfig, render: &R, errors: &mut Vec<ConfigValidationError>)
    ensures
        appends(old(errors)@, final(errors)@, output_failures(*o), *render),
{
    let ghost e0 = errors@;
    proof {
        reveal_strlit("output.name");
        reveal_strlit("output.output_dir");
        lemma_appends_none(e0, *render);
    }
    match validate_document_name(o.name.as_str()) {
        Ok(()) => {},
        Err(e) => {
            errors.push(field("output.name", to_owned_string(e.message())));
            proof {
                lemma_appends_one(e0, errors@.last(), ("output.name"@, ExpectedMessage::Exact(document_name_message(e))), *render);
            }
        },
    }
    let ghost e1 = errors@;
    let dir = match &o.output_dir {
        Some(d) => Some(d.as_str()),
        None => None,
    };
    match validate_output_dir(dir) {
        Ok(()) => {
            proof {
                lemma_appends_none(e1, *render);
            }
        },
        Err(()) => {
            let message = "出力ディレクトリは空にできません";
            proof {
                reveal_strlit("出力ディレクトリは空にできません");
            }
            errors.push(field("output.output_dir", to_owned_string(message)));
            proof {
                lemma_appends_one(e1, errors@.last(), ("output.output_dir"@, ExpectedMessage::Exact(message@)), *render);
            }
        },
    }
    proof {
        lemma_appends_chain(e0, e1, errors@, name_failures(o.name@), output_dir_failures(o.output_dir), *render);
    }
}

/// The problem of a length at `path` that is not positive.
pub open spec fn length_failures(path: Seq<char>, l: Length) -> Seq<(Seq<char>, ExpectedMessage)> {
    if l.spec_sp() <= 0 {
        seq![(path, ExpectedMessage::NotPositive(l))]
    } else {
        Seq::empty()
    }
}

/// Appends the problem of a length at `path` that is not positive, quoting it as `render`
/// shows it.
fn check_positive<R: Fn(Length) -> String>(path: &str, l: Length, render: &R, errors: &mut Vec<ConfigValidationError>)
    requires
        forall|x: Length| render.requires((x,)),
    ensures
        appends(old(errors)@, final(errors)@, length_failures(path@, l), *render),
{
    let ghost e0 = errors@;
    match positive(&l) {
        Ok(()) => {
            proof {
                lemma_appends_none(e0, *render);
            }
        },
        Err(_) => {
            let shown = render(l);
            let mut message = to_owned_string("正値である必要があります（受け取った値: ");
            message.append(shown.as_str());
            message.append("）");
            proof {
                reveal_strlit("正値である必要があります（受け取った値: ");
                reveal_strlit("）");
                assert(message@ == not_positive_message(shown@));
                assert((*render).ensures((l,), shown));
                assert(quotes_rendered(message@, l, *render));
            }
            errors.push(field(path, message));
            proof {
                lemma_appends_one(e0, errors@.last(), (path@, ExpectedMessage::NotPositive(l)), *render);
            }
        },
    }
}

/// Appends the problems of `[pdf]`.
fn check_pdf<R: Fn(Length) -> String>(p: &PrePdfConfig, render: &R, errors: &mut Vec<ConfigValidationError>)
    requires
        forall|x: Length| render.requires((x,)),
    ensures
        appends(old(errors)@, final(errors)@, pdf_failures(*p), *render),
{
    let ghost e0 = errors@;
    proof {
        reveal_strlit("pdf.height");
        reveal_strlit("pdf.width");
    }
    check_positive("pdf.height", p.height, render, errors);
    let ghost e1 = errors@;
    check_positive("pdf.width", p.width, render, errors);
    proof {
        lemma_appends_chain(e0, e1, errors@, length_failures("pdf.height"@, p.height), length_failures("pdf.width"@, p.width), *render);
    }
}

/// Appends the problem of `[image]`.
fn check_image<R: Fn(Length) -> String>(i: &PreImageConfig, render: &R, errors: &mut Vec<ConfigValidationError>)
    ensures
        appends(old(errors)@, final(errors)@, image_failures(*i), *render),
{
    let ghost e0 = errors@;
    match validate_image_config(i) {
        Ok(()) => {
            proof {
                lemma_appends_none(e0, *render);
            }
        },
        Err(e) => {
            errors.push(e);
            proof {
                reveal_strlit("image.max_dpi");
                lemma_appends_one(e0, errors@.last(), ("image.max_dpi"@, ExpectedMessage::FromGarde), *render);
            }
        },
    }
}

/// Appends the problem of `sources`.
fn check_sources<R: Fn(Length) -> String>(sources: &Vec<String>, render: &R, errors: &mut Vec<ConfigValidationError>)
    ensures
        appends(old(errors)@, final(errors)@, sources_failures(sources@), *render),
{
    let ghost e0 = errors@;
    match validate_non_empty_sources(sources) {
        Ok(()) => {
            proof {
                lemma_appends_none(e0, *render);
            }
        },
        Err(()) => {
            let message = "sources は最低 1 つのファイルを指定する必要があります";
            proof {
                reveal_strlit("sources");
                reveal_strlit("sources は最低 1 つのファイルを指定する必要があります");
            }
            errors.push(field("sources", to_owned_string(message)));
            proof {
                lemma_appends_one(e0, errors@.last(), ("sources"@, ExpectedMessage::Exact(message@)), *render);
            }
        },
    }
}

/// Appends the problems of the font sections, kind by kind.
fn check_fonts<R: Fn(Length) -> String>(configs: &FontMap<PreFontConfig>, render: &R, errors: &mut Vec<ConfigValidationError>)
    requires
        configs.wf(),
    ensures
        appends(old(errors)@, final(errors)@, font_section_failures(configs.spec_values()), *render),
{
    let ghost e0 = errors@;
    let values = configs.values();
    let name_suffix = ".font_name";
    let language_suffix = ".language";
    proof {
        reveal_strlit(".font_name");
        reveal_strlit(".language");
        lemma_appends_none(e0, *render);
        assert(values@.subrange(0, 0) =~= Seq::<PreFontConfig>::empty());
    }
    let mut i: usize = 0;
    while i < FONT_TYPE_COUNT
        invariant
            0 <= i <= FONT_TYPE_COUNT,
            values@ == configs.spec_values(),
            values@.len() == FONT_TYPE_COUNT,
            name_suffix@ == ".font_name"@,
            language_suffix@ == ".language"@,
            appends(e0, errors@, font_section_failures(values@.subrange(0, i as int)), *render),
        decreases FONT_TYPE_COUNT - i,
    {
        let ghost ea = errors@;
        let t = FontType::at(i);
        let config = &values[i];
        // The name's bytes are in memory, so their number fits in a `usize`.
        let _byte_count: usize = config.font_name.as_str().as_bytes().len();
        proof {
            let name = config.font_name@;
            assert(vstd::utf8::encode_utf8(name).len() == 0 <==> name.len() == 0);
        }
        match garde_length(config.font_name.as_str(), 1, usize::MAX) {
            Ok(()) => {
                proof {
                    lemma_appends_none(ea, *render);
                }
            },
            Err(message) => {
                let mut path = font_section_path(t);
                path.append(name_suffix);
                errors.push(ConfigValidationError::Field { path, message });
                proof {
                    lemma_appends_one(ea, errors@.last(),
                        ("font_configs."@ + toml_key(font_type_at(i as int)) + ".font_name"@, ExpectedMessage::FromGarde), *render);
                }
            },
        }
        let ghost eb = errors@;
        let language = match &config.language {
            Some(l) => Some(l.as_str()),
            None => None,
        };
        match validate_bcp47_language(language) {
            Ok(()) => {
                proof {
                    lemma_appends_none(eb, *render);
                }
            },
            Err(e) => {
                let mut path = font_section_path(t);
                path.append(language_suffix);
                errors.push(ConfigValidationError::Field { path, message: to_owned_string(e.message()) });
                proof {
                    lemma_appends_one(eb, errors@.last(),
                        ("font_configs."@ + toml_key(font_type_at(i as int)) + ".language"@, ExpectedMessage::Exact(language_error_message(e))), *render);
                }
            },
        }
        proof {
            let sub = values@.subrange(0, i + 1);
            assert(sub.drop_last() =~= values@.subrange(0, i as int));
            assert(sub.last() == values@[i as int]);
            lemma_appends_chain(ea, eb, errors@, font_name_failures(i as int, values@[i as int].font_name@),
                font_language_failures(i as int, values@[i as int].language), *render);
            lemma_appends_chain(e0, ea, errors@, font_section_failures(values@.subrange(0, i as int)),
                font_kind_failures(i as int, values@[i as int]), *render);
        }
        i = i + 1;
    }
    proof {
        assert(values@.subrange(0, FONT_TYPE_COUNT as int) =~= values@);
    }
}

/// Appends the problems the field rules find (see [`field_failures`]).
pub fn check_fields<R: Fn(Length) -> String>(raw: &PreConfig, render: &R, errors: &mut Vec<ConfigValidationError>)
    requires
        raw.font_configs.wf(),
        forall|x: Length| render.requires((x,)),
    ensures
        appends(old(errors)@, final(errors)@, field_failures(*raw), *render),
{
    let ghost e0 = errors@;
    check_document(&raw.document, render, errors);
    let ghost e1 = errors@;
    check_output(&raw.output, render, errors);
    let ghost e2 = errors@;
    check_pdf(&raw.pdf, render, errors);
    let ghost e3 = errors@;
    check_image(&raw.image, render, errors);
    let ghost e4 = errors@;
    check_fonts(&raw.font_configs, render, errors);
    let ghost e5 = errors@;
    check_sources(&raw.sources, render, errors);
    proof {
        let p1 = document_failures(raw.document);
        let p2 = output_failures(raw.output);
        let p3 = pdf_failures(raw.pdf);
        let p4 = image_failures(raw.image);
        let p5 = font_section_failures(raw.font_configs.spec_values());
        let p6 = sources_failures(raw.sources@);
        lemma_appends_chain(e0, e1, e2, p1, p2, *render);
        lemma_appends_chain(e0, e2, e3, p1 + p2, p3, *render);
        lemma_appends_chain(e0, e3, e4, p1 + p2 + p3, p4, *render);
        lemma_appends_chain(e0, e4, e5, p1 + p2 + p3 + p4, p5, *render);
        lemma_appends_chain(e0, e5, errors@, p1 + p2 + p3 + p4 + p5, p6, *render);
    }
}

/// The reports of font names that an earlier kind already has.
pub open spec fn unique_failures(fc: FontMap<PreFontConfig>) -> Seq<(Seq<char>, ExpectedMessage)> {
    let names = font_names(fc);
    let d = duplicate_name_kinds(names);
    Seq::new(d.len(), |k: int| ("font_configs."@ + toml_key(font_type_at(d[k])), ExpectedMessage::Exact(duplicate_name_message(names[d[k]]))))
}

/// The reports of kinds that set `ot_language` without `script`.
pub open spec fn script_constraint_failures(fc: FontMap<PreFontConfig>) -> Seq<(Seq<char>, ExpectedMessage)> {
    let m = missing_script_kinds(fc.spec_values());
    Seq::new(m.len(), |k: int| ("font_configs."@ + toml_key(font_type_at(m[k])), ExpectedMessage::Exact("ot_language を指定する場合は script も指定する必要があります"@)))
}

/// The reports of the tags and direction of the kind at `i`.
pub open spec fn kind_value_failures(i: int, c: PreFontConfig) -> Seq<(Seq<char>, ExpectedMessage)> {
    font_value_failures(c).map_values(|p: (Seq<char>, Seq<char>)|
        ("font_configs."@ + toml_key(font_type_at(i)) + "."@ + p.0, ExpectedMessage::Exact(p.1)))
}

/// The reports of the tags and directions of the kinds, kind by kind.
pub open spec fn value_failures(cs: Seq<PreFontConfig>) -> Seq<(Seq<char>, ExpectedMessage)>
    decreases cs.len(),
{
    if cs.len() == 0 {
        Seq::empty()
    } else {
        value_failures(cs.drop_last()) + kind_value_failures(cs.len() - 1, cs.last())
    }
}

/// Everything a configuration is refused for, in order: the field rules, repeated font names,
/// `ot_language` without `script`, then the tags and direction of each kind.
pub open spec fn all_failures(raw: PreConfig) -> Seq<(Seq<char>, ExpectedMessage)> {
    field_failures(raw) + unique_failures(raw.font_configs) + script_constraint_failures(raw.font_configs)
        + value_failures(raw.font_configs.spec_values())
}

/// Checks a whole configuration and reads the tags and direction of each kind: the values of
/// the nineteen kinds when nothing is refused, and otherwise every problem of
/// [`all_failures`], in order. `render_length` shows a length in a message.
pub fn validate_and_convert<R: Fn(Length) -> String>(raw: &PreConfig, render_length: &R) -> (r: Result<
    Vec<FontValues>,
    Vec<ConfigValidationError>,
>)
    requires
        raw.font_configs.wf(),
        forall|x: Length| render_length.requires((x,)),
    ensures
        match r {
            Ok(vs) => {
                &&& all_failures(*raw).len() == 0
                &&& vs@.len() == FONT_TYPE_COUNT
                &&& forall|i: int| 0 <= i < FONT_TYPE_COUNT ==> font_values_read(#[trigger] vs@[i], raw.font_configs.spec_values()[i])
            },
            Err(es) => all_failures(*raw).len() > 0 && lists(es@, all_failures(*raw), *render_length),
        },
{
    let mut errors: Vec<ConfigValidationError> = Vec::new();
    let ghost e0 = errors@;
    check_fields(raw, render_length, &mut errors);
    let ghost e1 = errors@;
    validate_unique_font_names(&raw.font_configs, &mut errors);
    proof {
        let names = font_names(raw.font_configs);
        let d = duplicate_name_kinds(names);
        let tail = errors@.subrange(e1.len() as int, errors@.len() as int);
        assert forall|k: int| 0 <= k < tail.len() implies (#[trigger] tail[k] matches ConfigValidationError::Field { path, message }
            && path@ == unique_failures(raw.font_configs)[k].0
            && message_fits(message@, unique_failures(raw.font_configs)[k].1, *render_length)) by {
            assert(tail[k] == errors@[e1.len() + k]);
            assert(is_font_field_error(errors@[e1.len() + k], font_type_at(d[k]), duplicate_name_message(names[d[k]])));
        }
    }
    let ghost e2 = errors@;
    validate_font_language_constraints(&raw.font_configs, &mut errors);
    proof {
        let m = missing_script_kinds(raw.font_configs.spec_values());
        let tail = errors@.subrange(e2.len() as int, errors@.len() as int);
        assert forall|k: int| 0 <= k < tail.len() implies (#[trigger] tail[k] matches ConfigValidationError::Field { path, message }
            && path@ == script_constraint_failures(raw.font_configs)[k].0
            && message_fits(message@, script_constraint_failures(raw.font_configs)[k].1, *render_length)) by {
            assert(tail[k] == errors@[e2.len() + k]);
            assert(is_font_field_error(errors@[e2.len() + k], font_type_at(m[k]), "ot_language を指定する場合は script も指定する必要があります"@));
        }
    }
    let ghost e3 = errors@;

    let values = raw.font_configs.values();
    let mut font_values: Vec<FontValues> = Vec::new();
    let mut i: usize = 0;
    proof {
        assert(values@.subrange(0, 0) =~= Seq::<PreFontConfig>::empty());
        lemma_appends_none(e3, *render_length);
    }
    while i < FONT_TYPE_COUNT
        invariant
            0 <= i <= FONT_TYPE_COUNT,
            values@ == raw.font_configs.spec_values(),
            values@.len() == FONT_TYPE_COUNT,
            appends(e3, errors@, value_failures(values@.subrange(0, i as int)), *render_length),
            value_failures(values@.subrange(0, i as int)).len() == 0 ==> {
                &&& font_values@.len() == i
                &&& forall|j: int| 0 <= j < i ==> font_values_read(#[trigger] font_values@[j], values@[j])
            },
        decreases FONT_TYPE_COUNT - i,
    {
        let ghost ea = errors@;
        let t = FontType::at(i);
        let ghost part = kind_value_failures(i as int, values@[i as int]);
        match parse_font_values(t, &values[i]) {
            Ok(v) => {
                font_values.push(v);
                proof {
                    assert(part.len() == 0);
                    lemma_appends_none(ea, *render_length);
                }
            },
            Err(mut es) => {
                let ghost added = es@;
                errors.append(&mut es);
                proof {
                    let f = font_value_failures(values@[i as int]);
                    assert(errors@.subrange(0, ea.len() as int) =~= ea);
                    assert(errors@.subrange(ea.len() as int, errors@.len() as int) =~= added);
                    assert forall|k: int| 0 <= k < added.len() implies (#[trigger] added[k] matches ConfigValidationError::Field { path, message }
                        && path@ == part[k].0 && message_fits(message@, part[k].1, *render_length)) by {
                        assert(is_field_error_at(added[k], t, f[k].0, f[k].1));
                    }
                }
            },
        }
        proof {
            let sub = values@.subrange(0, i + 1);
            assert(sub.drop_last() =~= values@.subrange(0, i as int));
            assert(sub.last() == values@[i as int]);
            lemma_appends_chain(e3, ea, errors@, value_failures(values@.subrange(0, i as int)), part, *render_length);
        }
        i = i + 1;
    }
    proof {
        assert(values@.subrange(0, FONT_TYPE_COUNT as int) =~= values@);
        let p1 = field_failures(*raw);
        let p2 = unique_failures(raw.font_configs);
        let p3 = script_constraint_failures(raw.font_configs);
        let p4 = value_failures(values@);
        assert(appends(e1, e2, p2, *render_length));
        assert(appends(e2, e3, p3, *render_length));
        lemma_appends_chain(e0, e1, e2, p1, p2, *render_length);
        lemma_appends_chain(e0, e2, e3, p1 + p2, p3, *render_length);
        lemma_appends_chain(e0, e3, errors@, p1 + p2 + p3, p4, *render_length);
        assert(errors@.subrange(0, errors@.len() as int) =~= errors@);
    }
    if errors.len() > 0 {
        return Err(errors);
    }
    Ok(font_values)
}

} // verus!
