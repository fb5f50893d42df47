//! A TOML parse error taken apart into what a diagnostic shows: the document with its display
//! name, the byte range the error points at, and the error itself with its own snippet
//! suppressed (the diagnostic's label already shows where).

use vstd::prelude::*;
use crate::strs::to_owned_string;

verus! {

/// The error `toml` reports for a document it cannot parse.
#[verifier::external_type_specification]
#[verifier::external_body]
pub struct ExTomlError(toml::de::Error);

/// `toml::de::Error::span`: where in the document the error is, as a start and an end index,
/// when it knows. Nothing is stated of the range: it is the parser's finding.
#[verifier::external_body]
fn toml_error_span(e: &toml::de::Error) -> Option<(usize, usize)> {
    e.span().map(|r| (r.start, r.end))
}

/// `toml::de::Error::set_input(None)`: forgets the document, so that the error's `Display`
/// renders its message without the parser's own snippet.
#[verifier::external_body]
fn clear_toml_input(e: &mut toml::de::Error) {
    e.set_input(None)
}

/// The offset and length of the label for an error range: the start and the distance to the
/// end (none when the end comes first), or an empty label at the start when there is no range.
pub open spec fn span_parts(range: Option<(usize, usize)>) -> (usize, usize) {
    match range {
        None => (0, 0),
        Some((start, end)) => (start, if end >= start { (end - start) as usize } else { 0 }),
    }
}

/// The offset and length of the label for an error range (see [`span_parts`]).
pub fn label_of_range(range: Option<(usize, usize)>) -> (r: (usize, usize))
    ensures
        r == span_parts(range),
{
    match range {
        None => (0, 0),
        Some((start, end)) => (start, end.saturating_sub(start)),
    }
}

/// A TOML parse error, taken apart for a diagnostic.
#[derive(Debug)]
pub struct TomlErrorParts {
    /// The display name of the document (the path it was read from).
    pub name: String,
    /// The document.
    pub content: String,
    /// Where the label starts.
    pub span_offset: usize,
    /// How long the label is.
    pub span_len: usize,
    /// The error, without the document (its message only).
    pub source: toml::de::Error,
}

impl TomlErrorParts {
    /// Takes apart `error`, found while parsing `content` read from `display_path`: the label
    /// covers the error's range (see [`span_parts`]; the range is the parser's), and the error
    /// forgets the document.
    pub fn new(display_path: &str, content: &str, error: toml::de::Error) -> (r: TomlErrorParts)
        ensures
            r.name@ == display_path@,
            r.content@ == content@,
            exists|range: Option<(usize, usize)>| #[trigger] span_parts(range) == (r.span_offset, r.span_len),
    {
        let mut error = error;
        let range = toml_error_span(&error);
        let (span_offset, span_len) = label_of_range(range);
        clear_toml_input(&mut error);
        TomlErrorParts {
            name: to_owned_string(display_path),
            content: to_owned_string(content),
            span_offset,
            span_len,
            source: error,
        }
    }
}

} // verus!
