//! The command registry: each command name maps to its kind, and the kind declares how its
//! mandatory arguments are read, position by position. Names outside the registry (symbol
//! commands among them) and positions past a declaration inherit the surrounding mode.

use vstd::prelude::*;
use vstd::string::*;
use crate::evaluator::arity::no_args;
use crate::evaluator::error::{EvalError, is_extra_argument};
use crate::evaluator::opt_args::expect_no_opt_args;
use crate::strs::str_eq;
use crate::syntax::view::{key_value_options, CommandView};

verus! {

/// The level of a heading, from the outermost.
#[derive(Debug, Clone, Copy, PartialEq, Eq, Structural)]
pub enum HeadingLevel {
    Part,
    Chapter,
    Section,
    Subsection,
    Paragraph,
    Subparagraph,
}

/// A typeface: three families, each in four styles.
#[derive(Debug, Clone, Copy, PartialEq, Eq, Structural)]
pub enum FontKind {
    Serif,
    SerifBold,
    SerifItalic,
    SerifBoldItalic,
    SansSerif,
    SansSerifBold,
    SansSerifItalic,
    SansSerifBoldItalic,
    Monospace,
    MonospaceBold,
    MonospaceItalic,
    MonospaceBoldItalic,
}

/// How a mandatory argument is read.
#[derive(Debug, Clone, Copy, PartialEq, Eq, Structural)]
pub enum ArgMode {
    /// As the surrounding context reads it.
    Inherit,
    /// Raw: no command, escape or group inside is active.
    Verbatim,
}

/// The kinds of registered commands.
#[derive(Debug, Clone, Copy, PartialEq, Eq, Structural)]
pub enum CommandKind {
    /// `\space{<length>}`: a fixed horizontal space.
    Space,
    /// `\noindent`: no indent on the first line of the paragraph.
    NoIndent,
    /// `\pagebreak`: a forced page break.
    PageBreak,
    /// `\ref{<label>}`: a cross reference.
    Ref,
    /// `\cite{<key>}`: a citation.
    Cite,
    /// `\footnote{<text>}`: a footnote.
    Footnote,
    /// `\index{<term>}`: an index entry.
    Index,
    /// `\code{<raw text>}`: inline code.
    Code,
    /// `\url{<raw uri>}`: a link showing its target.
    Url,
    /// `\href{<raw uri>}{<text>}`: a link with its own text.
    Href,
    /// Text set in a typeface.
    StyledText(FontKind),
    /// `\color[color=#rrggbb]{<text>}`: coloured text.
    ColoredText,
    /// A heading of a level.
    Heading(HeadingLevel),
}

/// The registry: the kind registered under `name`, if any.
pub open spec fn registered_command(name: Seq<char>) -> Option<CommandKind> {
    if name == "space"@ {
        Some(CommandKind::Space)
    } else if name == "noindent"@ {
        Some(CommandKind::NoIndent)
    } else if name == "pagebreak"@ {
        Some(CommandKind::PageBreak)
    } else if name == "ref"@ {
        Some(CommandKind::Ref)
    } else if name == "cite"@ {
        Some(CommandKind::Cite)
    } else if name == "footnote"@ {
        Some(CommandKind::Footnote)
    } else if name == "index"@ {
        Some(CommandKind::Index)
    } else if name == "code"@ {
        Some(CommandKind::Code)
    } else if name == "url"@ {
        Some(CommandKind::Url)
    } else if name == "href"@ {
        Some(CommandKind::Href)
    } else if name == "serif"@ {
        Some(CommandKind::StyledText(FontKind::Serif))
    } else if name == "bold"@ {
        Some(CommandKind::StyledText(FontKind::SerifBold))
    } else if name == "italic"@ {
        Some(CommandKind::StyledText(FontKind::SerifItalic))
    } else if name == "bolditalic"@ {
        Some(CommandKind::StyledText(FontKind::SerifBoldItalic))
    } else if name == "sans"@ {
        Some(CommandKind::StyledText(FontKind::SansSerif))
    } else if name == "sansbold"@ {
        Some(CommandKind::StyledText(FontKind::SansSerifBold))
    } else if name == "sansitalic"@ {
        Some(CommandKind::StyledText(FontKind::SansSerifItalic))
    } else if name == "sansbolditalic"@ {
        Some(CommandKind::StyledText(FontKind::SansSerifBoldItalic))
    } else if name == "mono"@ {
        Some(CommandKind::StyledText(FontKind::Monospace))
    } else if name == "monobold"@ {
        Some(CommandKind::StyledText(FontKind::MonospaceBold))
    } else if name == "monoitalic"@ {
        Some(CommandKind::StyledText(FontKind::MonospaceItalic))
    } else if name == "monobolditalic"@ {
        Some(CommandKind::StyledText(FontKind::MonospaceBoldItalic))
    } else if name == "color"@ {
        Some(CommandKind::ColoredText)
    } else if name == "part"@ {
        Some(CommandKind::Heading(HeadingLevel::Part))
    } else if name == "chapter"@ {
        Some(CommandKind::Heading(HeadingLevel::Chapter))
    } else if name == "section"@ {
        Some(CommandKind::Heading(HeadingLevel::Section))
    } else if name == "subsection"@ {
        Some(CommandKind::Heading(HeadingLevel::Subsection))
    } else if name == "paragraph"@ {
        Some(CommandKind::Heading(HeadingLevel::Paragraph))
    } else if name == "subparagraph"@ {
        Some(CommandKind::Heading(HeadingLevel::Subparagraph))
    } else {
        None
    }
}

/// The kind registered under `name`, if any (see [`registered_command`]).
pub fn command_kind(name: &str) -> (r: Option<CommandKind>)
    ensures
        r == registered_command(name@),
{
    proof {
        reveal_strlit("space");
        reveal_strlit("noindent");
        reveal_strlit("pagebreak");
        reveal_strlit("ref");
        reveal_strlit("cite");
        reveal_strlit("footnote");
        reveal_strlit("index");
        reveal_strlit("code");
        reveal_strlit("url");
        reveal_strlit("href");
        reveal_strlit("serif");
        reveal_strlit("bold");
        reveal_strlit("italic");
        reveal_strlit("bolditalic");
        reveal_strlit("sans");
        reveal_strlit("sansbold");
        reveal_strlit("sansitalic");
        reveal_strlit("sansbolditalic");
        reveal_strlit("mono");
        reveal_strlit("monobold");
        reveal_strlit("monoitalic");
        reveal_strlit("monobolditalic");
        reveal_strlit("color");
        reveal_strlit("part");
        reveal_strlit("chapter");
        reveal_strlit("section");
        reveal_strlit("subsection");
        reveal_strlit("paragraph");
        reveal_strlit("subparagraph");
    }
    if str_eq(name, "space") {
        Some(CommandKind::Space)
    } else if str_eq(name, "noindent") {
        Some(CommandKind::NoIndent)
    } else if str_eq(name, "pagebreak") {
        Some(CommandKind::PageBreak)
    } else if str_eq(name, "ref") {
        Some(CommandKind::Ref)
    } else if str_eq(name, "cite") {
        Some(CommandKind::Cite)
    } else if str_eq(name, "footnote") {
        Some(CommandKind::Footnote)
    } else if str_eq(name, "index") {
        Some(CommandKind::Index)
    } else if str_eq(name, "code") {
        Some(CommandKind::Code)
    } else if str_eq(name, "url") {
        Some(CommandKind::Url)
    } else if str_eq(name, "href") {
        Some(CommandKind::Href)
    } else if str_eq(name, "serif") {
        Some(CommandKind::StyledText(FontKind::Serif))
    } else if str_eq(name, "bold") {
        Some(CommandKind::StyledText(FontKind::SerifBold))
    } else if str_eq(name, "italic") {
        Some(CommandKind::StyledText(FontKind::SerifItalic))
    } else if str_eq(name, "bolditalic") {
        Some(CommandKind::StyledText(FontKind::SerifBoldItalic))
    } else if str_eq(name, "sans") {
        Some(CommandKind::StyledText(FontKind::SansSerif))
    } else if str_eq(name, "sansbold") {
        Some(CommandKind::StyledText(FontKind::SansSerifBold))
    } else if str_eq(name, "sansitalic") {
        Some(CommandKind::StyledText(FontKind::SansSerifItalic))
    } else if str_eq(name, "sansbolditalic") {
        Some(CommandKind::StyledText(FontKind::SansSerifBoldItalic))
    } else if str_eq(name, "mono") {
        Some(CommandKind::StyledText(FontKind::Monospace))
    } else if str_eq(name, "monobold") {
        Some(CommandKind::StyledText(FontKind::MonospaceBold))
    } else if str_eq(name, "monoitalic") {
        Some(CommandKind::StyledText(FontKind::MonospaceItalic))
    } else if str_eq(name, "monobolditalic") {
        Some(CommandKind::StyledText(FontKind::MonospaceBoldItalic))
    } else if str_eq(name, "color") {
        Some(CommandKind::ColoredText)
    } else if str_eq(name, "part") {
        Some(CommandKind::Heading(HeadingLevel::Part))
    } else if str_eq(name, "chapter") {
        Some(CommandKind::Heading(HeadingLevel::Chapter))
    } else if str_eq(name, "section") {
        Some(CommandKind::Heading(HeadingLevel::Section))
    } else if str_eq(name, "subsection") {
        Some(CommandKind::Heading(HeadingLevel::Subsection))
    } else if str_eq(name, "paragraph") {
        Some(CommandKind::Heading(HeadingLevel::Paragraph))
    } else if str_eq(name, "subparagraph") {
        Some(CommandKind::Heading(HeadingLevel::Subparagraph))
    } else {
        None
    }
}

/// How the mandatory arguments of a kind are read, from the first: `\code` and `\url` read
/// their argument raw, `\href` its first; every other kind declares nothing. Only the reading
/// is declared, not how many arguments there are.
pub open spec fn spec_arg_modes(kind: CommandKind) -> Seq<ArgMode> {
    match kind {
        CommandKind::Code | CommandKind::Url => seq![ArgMode::Verbatim],
        CommandKind::Href => seq![ArgMode::Verbatim, ArgMode::Inherit],
        _ => Seq::empty(),
    }
}

/// How the mandatory argument at `index` of the command `name` is read: as its kind declares
/// it, and as the surrounding context otherwise.
pub open spec fn spec_lookup_arg_mode(name: Seq<char>, index: int) -> ArgMode {
    match registered_command(name) {
        Some(kind) => if 0 <= index < spec_arg_modes(kind).len() {
            spec_arg_modes(kind)[index]
        } else {
            ArgMode::Inherit
        },
        None => ArgMode::Inherit,
    }
}

impl CommandKind {
    /// How the mandatory arguments of this kind are read (see [`spec_arg_modes`]).
    pub fn arg_modes(self) -> (m: Vec<ArgMode>)
        ensures
            m@ == spec_arg_modes(self),
    {
        match self {
            CommandKind::Code | CommandKind::Url => vec![ArgMode::Verbatim],
            CommandKind::Href => vec![ArgMode::Verbatim, ArgMode::Inherit],
            _ => Vec::new(),
        }
    }
}

/// How the mandatory argument at `index` of the command `name` is read (see
/// [`spec_lookup_arg_mode`]).
pub fn lookup_arg_mode(name: &str, index: usize) -> (m: ArgMode)
    ensures
        m == spec_lookup_arg_mode(name@, index as int),
{
    match command_kind(name) {
        None => ArgMode::Inherit,
        Some(kind) => {
            let modes = kind.arg_modes();
            if index < modes.len() {
                modes[index]
            } else {
                ArgMode::Inherit
            }
        },
    }
}

/// The command name of each heading level.
pub open spec fn spec_heading_name(level: HeadingLevel) -> Seq<char> {
    match level {
        HeadingLevel::Part => "part"@,
        HeadingLevel::Chapter => "chapter"@,
        HeadingLevel::Section => "section"@,
        HeadingLevel::Subsection => "subsection"@,
        HeadingLevel::Paragraph => "paragraph"@,
        HeadingLevel::Subparagraph => "subparagraph"@,
    }
}

/// What the argument of each heading command names, for its diagnostics.
pub open spec fn spec_expected_name(level: HeadingLevel) -> Seq<char> {
    match level {
        HeadingLevel::Part => "部名"@,
        HeadingLevel::Chapter => "章名"@,
        HeadingLevel::Section => "セクション名"@,
        HeadingLevel::Subsection => "サブセクション名"@,
        HeadingLevel::Paragraph => "段落名"@,
        HeadingLevel::Subparagraph => "小節名"@,
    }
}

impl HeadingLevel {
    /// The command that writes a heading of this level.
    pub fn command_name(self) -> (s: &'static str)
        ensures
            s@ == spec_heading_name(self),
    {
        match self {
            HeadingLevel::Part => "part",
            HeadingLevel::Chapter => "chapter",
            HeadingLevel::Section => "section",
            HeadingLevel::Subsection => "subsection",
            HeadingLevel::Paragraph => "paragraph",
            HeadingLevel::Subparagraph => "subparagraph",
        }
    }
}

/// What the argument of a heading command names (see [`spec_expected_name`]).
pub fn expected_name(level: HeadingLevel) -> (s: &'static str)
    ensures
        s@ == spec_expected_name(level),
{
    match level {
        HeadingLevel::Part => "部名",
        HeadingLevel::Chapter => "章名",
        HeadingLevel::Section => "セクション名",
        HeadingLevel::Subsection => "サブセクション名",
        HeadingLevel::Paragraph => "段落名",
        HeadingLevel::Subparagraph => "小節名",
    }
}

/// The command name of every heading level is registered as a heading of that level.
pub proof fn law_heading_names_are_registered(level: HeadingLevel)
    ensures
        registered_command(spec_heading_name(level)) == Some(CommandKind::Heading(level)),
{
    reveal_strlit("space");
    reveal_strlit("noindent");
    reveal_strlit("pagebreak");
    reveal_strlit("ref");
    reveal_strlit("cite");
    reveal_strlit("footnote");
    reveal_strlit("index");
    reveal_strlit("code");
    reveal_strlit("url");
    reveal_strlit("href");
    reveal_strlit("serif");
    reveal_strlit("bold");
    reveal_strlit("italic");
    reveal_strlit("bolditalic");
    reveal_strlit("sans");
    reveal_strlit("sansbold");
    reveal_strlit("sansitalic");
    reveal_strlit("sansbolditalic");
    reveal_strlit("mono");
    reveal_strlit("monobold");
    reveal_strlit("monoitalic");
    reveal_strlit("monobolditalic");
    reveal_strlit("color");
    reveal_strlit("part");
    reveal_strlit("chapter");
    reveal_strlit("section");
    reveal_strlit("subsection");
    reveal_strlit("paragraph");
    reveal_strlit("subparagraph");
    // Each heading name differs from every name registered before it, by its length or by
    // one of these characters.
    assert("space"@.len() == 5);
    assert("noindent"@.len() == 8);
    assert("pagebreak"@.len() == 9);
    assert("ref"@.len() == 3);
    assert("cite"@.len() == 4);
    assert("footnote"@.len() == 8);
    assert("index"@.len() == 5);
    assert("code"@.len() == 4);
    assert("url"@.len() == 3);
    assert("href"@.len() == 4);
    assert("serif"@.len() == 5);
    assert("bold"@.len() == 4);
    assert("italic"@.len() == 6);
    assert("bolditalic"@.len() == 10);
    assert("sans"@.len() == 4);
    assert("sansbold"@.len() == 8);
    assert("sansitalic"@.len() == 10);
    assert("sansbolditalic"@.len() == 14);
    assert("mono"@.len() == 4);
    assert("monobold"@.len() == 8);
    assert("monoitalic"@.len() == 10);
    assert("monobolditalic"@.len() == 14);
    assert("color"@.len() == 5);
    assert("part"@.len() == 4);
    assert("chapter"@.len() == 7);
    assert("section"@.len() == 7);
    assert("subsection"@.len() == 10);
    assert("paragraph"@.len() == 9);
    assert("subparagraph"@.len() == 12);
    assert("bold"@[0] == 'b');
    assert("bolditalic"@[0] == 'b');
    assert("chapter"@[0] == 'c');
    assert("cite"@[0] == 'c');
    assert("code"@[0] == 'c');
    assert("href"@[0] == 'h');
    assert("mono"@[0] == 'm');
    assert("monoitalic"@[0] == 'm');
    assert("pagebreak"@[2] == 'g');
    assert("paragraph"@[2] == 'r');
    assert("part"@[0] == 'p');
    assert("sans"@[0] == 's');
    assert("sansitalic"@[1] == 'a');
    assert("section"@[0] == 's');
    assert("subsection"@[0] == 's');
    assert("subsection"@[1] == 'u');
}

/// Checks a command that takes neither an optional nor a mandatory argument (`\noindent`,
/// `\pagebreak`, a symbol command): a non-empty `[...]` is refused first, then any argument.
pub fn expect_bare_command(view: &CommandView) -> (r: Result<(), EvalError>)
    requires
        view.wf(),
    ensures
        match view.spec_opt_arg() {
            Some(opt) if key_value_options(view.spec_source().spec_bytes(), opt).len() > 0 =>
                r matches Err(EvalError::UnknownOptArgKey { name, key, .. }) && name@ == view.spec_name()
                    && key@ == key_value_options(view.spec_source().spec_bytes(), opt)[0].0,
            _ => {
                &&& r is Ok <==> view.spec_args().len() == 0
                &&& r matches Err(e) ==> is_extra_argument(e, view.spec_name(), view.spec_node().span)
            },
        },
{
    expect_no_opt_args(view)?;
    no_args(view)
}

/// The family of a typeface.
#[derive(Debug, Clone, Copy, PartialEq, Eq, Structural)]
pub enum FontFamily {
    Serif,
    SansSerif,
    Monospace,
}

/// The family of the typeface `k`.
pub open spec fn font_family(k: FontKind) -> FontFamily {
    match k {
        FontKind::Serif | FontKind::SerifBold | FontKind::SerifItalic | FontKind::SerifBoldItalic => FontFamily::Serif,
        FontKind::SansSerif | FontKind::SansSerifBold | FontKind::SansSerifItalic | FontKind::SansSerifBoldItalic => FontFamily::SansSerif,
        FontKind::Monospace | FontKind::MonospaceBold | FontKind::MonospaceItalic | FontKind::MonospaceBoldItalic => FontFamily::Monospace,
    }
}

/// Whether the typeface `k` is bold.
pub open spec fn font_is_bold(k: FontKind) -> bool {
    k == FontKind::SerifBold || k == FontKind::SerifBoldItalic || k == FontKind::SansSerifBold
        || k == FontKind::SansSerifBoldItalic || k == FontKind::MonospaceBold || k == FontKind::MonospaceBoldItalic
}

/// Whether the typeface `k` is italic.
pub open spec fn font_is_italic(k: FontKind) -> bool {
    k == FontKind::SerifItalic || k == FontKind::SerifBoldItalic || k == FontKind::SansSerifItalic
        || k == FontKind::SansSerifBoldItalic || k == FontKind::MonospaceItalic || k == FontKind::MonospaceBoldItalic
}

/// The word that names a family in a command: none for the serif family, which is the
/// default, `sans` and `mono` for the others.
pub open spec fn family_word(f: FontFamily) -> Seq<char> {
    match f {
        FontFamily::Serif => Seq::empty(),
        FontFamily::SansSerif => seq!['s', 'a', 'n', 's'],
        FontFamily::Monospace => seq!['m', 'o', 'n', 'o'],
    }
}

/// The words that name a style in a command: `bold`, then `italic`, each when it applies.
pub open spec fn style_words(bold: bool, italic: bool) -> Seq<char> {
    (if bold { seq!['b', 'o', 'l', 'd'] } else { Seq::empty() }) + (if italic {
        seq!['i', 't', 'a', 'l', 'i', 'c']
    } else {
        Seq::empty()
    })
}

/// The command that sets text in the typeface `k`: its family word followed by its style
/// words, or `serif` for the plain serif face, which has neither.
pub open spec fn styled_command_name(k: FontKind) -> Seq<char> {
    let w = family_word(font_family(k)) + style_words(font_is_bold(k), font_is_italic(k));
    if w.len() == 0 {
        seq!['s', 'e', 'r', 'i', 'f']
    } else {
        w
    }
}

/// Each typeface has its command, the name that spells its family and style, and a command
/// registered as styled text sets its text in the typeface its name spells: so no two
/// styled-text commands share a typeface, and every typeface has one.
pub proof fn law_styled_text_names_spell_their_typeface(k: FontKind, name: Seq<char>)
    ensures
        registered_command(styled_command_name(k)) == Some(CommandKind::StyledText(k)),
        registered_command(name) == Some(CommandKind::StyledText(k)) ==> name == styled_command_name(k),
{
    reveal_strlit("space");
    reveal_strlit("noindent");
    reveal_strlit("pagebreak");
    reveal_strlit("ref");
    reveal_strlit("cite");
    reveal_strlit("footnote");
    reveal_strlit("index");
    reveal_strlit("code");
    reveal_strlit("url");
    reveal_strlit("href");
    reveal_strlit("serif");
    reveal_strlit("bold");
    reveal_strlit("italic");
    reveal_strlit("bolditalic");
    reveal_strlit("sans");
    reveal_strlit("sansbold");
    reveal_strlit("sansitalic");
    reveal_strlit("sansbolditalic");
    reveal_strlit("mono");
    reveal_strlit("monobold");
    reveal_strlit("monoitalic");
    reveal_strlit("monobolditalic");
    reveal_strlit("color");
    reveal_strlit("part");
    reveal_strlit("chapter");
    reveal_strlit("section");
    reveal_strlit("subsection");
    reveal_strlit("paragraph");
    reveal_strlit("subparagraph");
    assert("space"@[0] == 's' && "space"@[1] == 'p');
    assert("noindent"@[0] == 'n' && "noindent"@[1] == 'o');
    assert("pagebreak"@[0] == 'p' && "pagebreak"@[1] == 'a');
    assert("ref"@[0] == 'r' && "ref"@[1] == 'e');
    assert("cite"@[0] == 'c' && "cite"@[1] == 'i');
    assert("footnote"@[0] == 'f' && "footnote"@[1] == 'o');
    assert("index"@[0] == 'i' && "index"@[1] == 'n');
    assert("code"@[0] == 'c' && "code"@[1] == 'o');
    assert("url"@[0] == 'u' && "url"@[1] == 'r');
    assert("href"@[0] == 'h' && "href"@[1] == 'r');
    assert("serif"@[0] == 's' && "serif"@[1] == 'e');
    assert("bold"@[0] == 'b' && "bold"@[1] == 'o');
    assert("italic"@[0] == 'i' && "italic"@[1] == 't');
    assert("bolditalic"@[0] == 'b' && "bolditalic"@[1] == 'o');
    assert("sans"@[0] == 's' && "sans"@[1] == 'a');
    assert("sansbold"@[0] == 's' && "sansbold"@[1] == 'a');
    assert("sansitalic"@[0] == 's' && "sansitalic"@[1] == 'a');
    assert("sansbolditalic"@[0] == 's' && "sansbolditalic"@[1] == 'a');
    assert("mono"@[0] == 'm' && "mono"@[1] == 'o');
    assert("monobold"@[0] == 'm' && "monobold"@[1] == 'o');
    assert("monoitalic"@[0] == 'm' && "monoitalic"@[1] == 'o');
    assert("monobolditalic"@[0] == 'm' && "monobolditalic"@[1] == 'o');
    assert("color"@[0] == 'c' && "color"@[1] == 'o');
    assert("part"@[0] == 'p' && "part"@[1] == 'a');
    assert("chapter"@[0] == 'c' && "chapter"@[1] == 'h');
    assert("section"@[0] == 's' && "section"@[1] == 'e');
    assert("subsection"@[0] == 's' && "subsection"@[1] == 'u');
    assert("paragraph"@[0] == 'p' && "paragraph"@[1] == 'a');
    assert("subparagraph"@[0] == 's' && "subparagraph"@[1] == 'u');
    let n = styled_command_name(k);
    match k {
        FontKind::Serif => assert(n =~= "serif"@),
        FontKind::SerifBold => assert(n =~= "bold"@),
        FontKind::SerifItalic => assert(n =~= "italic"@),
        FontKind::SerifBoldItalic => assert(n =~= "bolditalic"@),
        FontKind::SansSerif => assert(n =~= "sans"@),
        FontKind::SansSerifBold => assert(n =~= "sansbold"@),
        FontKind::SansSerifItalic => assert(n =~= "sansitalic"@),
        FontKind::SansSerifBoldItalic => assert(n =~= "sansbolditalic"@),
        FontKind::Monospace => assert(n =~= "mono"@),
        FontKind::MonospaceBold => assert(n =~= "monobold"@),
        FontKind::MonospaceItalic => assert(n =~= "monoitalic"@),
        FontKind::MonospaceBoldItalic => assert(n =~= "monobolditalic"@),
    }
}

/// The name each command kind is written with.
pub open spec fn command_kind_name(k: CommandKind) -> Seq<char> {
    match k {
        CommandKind::Space => "space"@,
        CommandKind::NoIndent => "noindent"@,
        CommandKind::PageBreak => "pagebreak"@,
        CommandKind::Ref => "ref"@,
        CommandKind::Cite => "cite"@,
        CommandKind::Footnote => "footnote"@,
        CommandKind::Index => "index"@,
        CommandKind::Code => "code"@,
        CommandKind::Url => "url"@,
        CommandKind::Href => "href"@,
        CommandKind::StyledText(f) => styled_command_name(f),
        CommandKind::ColoredText => "color"@,
        CommandKind::Heading(level) => spec_heading_name(level),
    }
}

/// The registry is one to one: every command kind is registered under its name, and a
/// registered name is the name of the kind registered under it, so no two names share a kind.
pub proof fn law_command_names_name_their_kind(k: CommandKind, name: Seq<char>)
    ensures
        registered_command(command_kind_name(k)) == Some(k),
        registered_command(name) matches Some(r) ==> name == command_kind_name(r),
{
    reveal_strlit("space");
    reveal_strlit("noindent");
    reveal_strlit("pagebreak");
    reveal_strlit("ref");
    reveal_strlit("cite");
    reveal_strlit("footnote");
    reveal_strlit("index");
    reveal_strlit("code");
    reveal_strlit("url");
    reveal_strlit("href");
    reveal_strlit("serif");
    reveal_strlit("bold");
    reveal_strlit("italic");
    reveal_strlit("bolditalic");
    reveal_strlit("sans");
    reveal_strlit("sansbold");
    reveal_strlit("sansitalic");
    reveal_strlit("sansbolditalic");
    reveal_strlit("mono");
    reveal_strlit("monobold");
    reveal_strlit("monoitalic");
    reveal_strlit("monobolditalic");
    reveal_strlit("color");
    reveal_strlit("part");
    reveal_strlit("chapter");
    reveal_strlit("section");
    reveal_strlit("subsection");
    reveal_strlit("paragraph");
    reveal_strlit("subparagraph");
    assert("space"@[0] == 's' && "space"@[1] == 'p' && "space"@.len() == 5);
    assert("noindent"@[0] == 'n' && "noindent"@[1] == 'o' && "noindent"@.len() == 8);
    assert("pagebreak"@[0] == 'p' && "pagebreak"@[1] == 'a' && "pagebreak"@.len() == 9);
    assert("ref"@[0] == 'r' && "ref"@[1] == 'e' && "ref"@.len() == 3);
    assert("cite"@[0] == 'c' && "cite"@[1] == 'i' && "cite"@.len() == 4);
    assert("footnote"@[0] == 'f' && "footnote"@[1] == 'o' && "footnote"@.len() == 8);
    assert("index"@[0] == 'i' && "index"@[1] == 'n' && "index"@.len() == 5);
    assert("code"@[0] == 'c' && "code"@[1] == 'o' && "code"@.len() == 4);
    assert("url"@[0] == 'u' && "url"@[1] == 'r' && "url"@.len() == 3);
    assert("href"@[0] == 'h' && "href"@[1] == 'r' && "href"@.len() == 4);
    assert("serif"@[0] == 's' && "serif"@[1] == 'e' && "serif"@.len() == 5);
    assert("bold"@[0] == 'b' && "bold"@[1] == 'o' && "bold"@.len() == 4);
    assert("italic"@[0] == 'i' && "italic"@[1] == 't' && "italic"@.len() == 6);
    assert("bolditalic"@[0] == 'b' && "bolditalic"@[1] == 'o' && "bolditalic"@.len() == 10);
    assert("sans"@[0] == 's' && "sans"@[1] == 'a' && "sans"@.len() == 4);
    assert("sansbold"@[0] == 's' && "sansbold"@[1] == 'a' && "sansbold"@.len() == 8);
    assert("sansitalic"@[0] == 's' && "sansitalic"@[1] == 'a' && "sansitalic"@.len() == 10);
    assert("sansbolditalic"@[0] == 's' && "sansbolditalic"@[1] == 'a' && "sansbolditalic"@.len() == 14);
    assert("mono"@[0] == 'm' && "mono"@[1] == 'o' && "mono"@.len() == 4);
    assert("monobold"@[0] == 'm' && "monobold"@[1] == 'o' && "monobold"@.len() == 8);
    assert("monoitalic"@[0] == 'm' && "monoitalic"@[1] == 'o' && "monoitalic"@.len() == 10);
    assert("monobolditalic"@[0] == 'm' && "monobolditalic"@[1] == 'o' && "monobolditalic"@.len() == 14);
    assert("color"@[0] == 'c' && "color"@[1] == 'o' && "color"@.len() == 5);
    assert("part"@[0] == 'p' && "part"@[1] == 'a' && "part"@.len() == 4);
    assert("chapter"@[0] == 'c' && "chapter"@[1] == 'h' && "chapter"@.len() == 7);
    assert("section"@[0] == 's' && "section"@[1] == 'e' && "section"@.len() == 7);
    assert("subsection"@[0] == 's' && "subsection"@[1] == 'u' && "subsection"@.len() == 10);
    assert("paragraph"@[0] == 'p' && "paragraph"@[1] == 'a' && "paragraph"@.len() == 9);
    assert("subparagraph"@[0] == 's' && "subparagraph"@[1] == 'u' && "subparagraph"@.len() == 12);
    match k {
        CommandKind::StyledText(f) => law_styled_text_names_spell_their_typeface(f, name),
        CommandKind::Heading(level) => law_heading_names_are_registered(level),
        _ => {},
    }
    match registered_command(name) {
        Some(CommandKind::StyledText(f)) => law_styled_text_names_spell_their_typeface(f, name),
        Some(CommandKind::Heading(level)) => law_heading_names_are_registered(level),
        _ => {},
    }
}

} // verus!
