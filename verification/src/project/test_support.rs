//! Builders of `config.toml` fragments used by tests of the configuration.

use vstd::prelude::*;
use vstd::string::*;
use crate::project::font::{FontType, font_type_at, toml_key};
use crate::strs::to_owned_string;

verus! {

/// The section of one font kind: its key, a name derived from the key, and `font_path`.
pub open spec fn font_section(key: Seq<char>, font_path: Seq<char>) -> Seq<char> {
    "[font_configs."@ + key + "]\nfont_name = \"font_"@ + key + "\"\nfont_path = \""@ + font_path
        + "\"\n\n"@
}

/// The sections of the first `n` font kinds, in declaration order.
pub open spec fn font_sections(n: nat, font_path: Seq<char>) -> Seq<char>
    decreases n,
{
    if n == 0 {
        Seq::empty()
    } else {
        font_sections((n - 1) as nat, font_path) + font_section(toml_key(font_type_at(n - 1)), font_path)
    }
}

/// The `[font_configs.<key>]` sections of all nineteen font kinds, each naming `font_path`.
pub fn make_font_sections(font_path: &str) -> (s: String)
    ensures
        s@ == font_sections(19, font_path@),
{
    let kinds = FontType::all();
    let mut out = String::new();
    let mut i: usize = 0;
    while i < 19
        invariant
            0 <= i <= 19,
            kinds@.len() == 19,
            forall|j: int| 0 <= j < 19 ==> #[trigger] kinds@[j] == font_type_at(j),
            out@ == font_sections(i as nat, font_path@),
        decreases 19 - i,
    {
        let key = kinds[i].as_toml_key();
        let ghost before = out@;
        out.append("[font_configs.");
        out.append(key);
        out.append("]\nfont_name = \"font_");
        out.append(key);
        out.append("\"\nfont_path = \"");
        out.append(font_path);
        out.append("\"\n\n");
        assert(out@ =~= before + font_section(key@, font_path@));
        i = i + 1;
    }
    out
}

/// The text of a valid `[output]` section.
pub open spec fn output_section(name: Seq<char>, output_dir: Seq<char>) -> Seq<char> {
    "[output]\nname = \""@ + name + "\"\noutput_dir = \""@ + output_dir + "\"\n\n"@
}

/// A valid `[output]` section with the given name and output directory.
pub fn valid_output_section(name: &str, output_dir: &str) -> (s: String)
    ensures
        s@ == output_section(name@, output_dir@),
{
    let mut out = to_owned_string("[output]\nname = \"");
    out.append(name);
    out.append("\"\noutput_dir = \"");
    out.append(output_dir);
    out.append("\"\n\n");
    assert(out@ =~= output_section(name@, output_dir@));
    out
}

/// The text of the valid `[pdf]` section (A4 portrait; margins belong to the style, not here).
pub open spec fn pdf_section() -> Seq<char> {
    "[pdf]\nheight = \"842pt\"\nwidth = \"595pt\"\n\n"@
}

/// A valid `[pdf]` section (A4 portrait).
pub fn valid_pdf_section() -> (s: String)
    ensures
        s@ == pdf_section(),
{
    to_owned_string(
        "[pdf]\nheight = \"842pt\"\nwidth = \"595pt\"\n\n",
    )
}

/// The text `str::replace` produces: every non-overlapping occurrence of `from` in `s`,
/// scanned from the left, replaced by `to`.
pub open spec fn replaced(s: Seq<char>, from: Seq<char>, to: Seq<char>) -> Seq<char>
    decreases s.len(),
{
    if s.len() == 0 {
        s
    } else if from.len() > 0 && from.len() <= s.len() && s.subrange(0, from.len() as int) == from {
        to + replaced(s.skip(from.len() as int), from, to)
    } else {
        seq![s[0]] + replaced(s.drop_first(), from, to)
    }
}

/// `s` with every occurrence of `from` replaced by `to`, as `str::replace` computes it.
#[verifier::external_body]
fn replace_all(s: &str, from: &str, to: &str) -> (r: String)
    requires
        from@.len() > 0,
    ensures
        r@ == replaced(s@, from@, to@),
{
    s.replace(from, to)
}

/// The serif section's opening, up to the start of its `font_path` value.
pub open spec fn serif_needle() -> Seq<char> {
    "[font_configs.serif]\nfont_name = \"font_serif\"\nfont_path = \""@
}

/// The serif section's opening with `extra_lines` inserted before its `font_path`.
pub open spec fn serif_injected(extra_lines: Seq<char>) -> Seq<char> {
    "[font_configs.serif]\nfont_name = \"font_serif\"\n"@ + extra_lines + "\nfont_path = \""@
}

/// All font sections, with `extra_lines` added to the `[font_configs.serif]` section.
pub fn font_sections_with_serif_extra(font_path: &str, extra_lines: &str) -> (s: String)
    ensures
        s@ == replaced(font_sections(19, font_path@), serif_needle(), serif_injected(extra_lines@)),
{
    let base = make_font_sections(font_path);
    let needle = "[font_configs.serif]\nfont_name = \"font_serif\"\nfont_path = \"";
    let mut injected = to_owned_string("[font_configs.serif]\nfont_name = \"font_serif\"\n");
    injected.append(extra_lines);
    injected.append("\nfont_path = \"");
    assert(injected@ =~= serif_injected(extra_lines@));
    proof {
        reveal_strlit("[font_configs.serif]\nfont_name = \"font_serif\"\nfont_path = \"");
    }
    replace_all(base.as_str(), needle, injected.as_str())
}

} // verus!
