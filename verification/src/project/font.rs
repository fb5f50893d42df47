//! The nineteen kinds of font a project declares, and maps holding one value per kind.

use vstd::prelude::*;

verus! {

/// The kinds of font, in declaration order.
#[derive(Debug, Clone, Copy, PartialEq, Eq, Hash, Structural)]
pub enum FontType {
    /// Serif, regular.
    Serif,
    /// Serif, bold.
    SerifBold,
    /// Serif, italic.
    SerifItalic,
    /// Serif, bold italic.
    SerifBoldItalic,
    /// Sans-serif, regular.
    SansSerif,
    /// Sans-serif, bold.
    SansSerifBold,
    /// Sans-serif, italic.
    SansSerifItalic,
    /// Sans-serif, bold italic.
    SansSerifBoldItalic,
    /// Monospace, regular.
    Monospace,
    /// Monospace, bold.
    MonospaceBold,
    /// Monospace, italic.
    MonospaceItalic,
    /// Monospace, bold italic.
    MonospaceBoldItalic,
    /// Mathematics.
    Math,
    /// Japanese serif (mincho), regular.
    JapaneseSerif,
    /// Japanese serif (mincho), bold.
    JapaneseSerifBold,
    /// Japanese sans-serif (gothic), regular.
    JapaneseSansSerif,
    /// Japanese sans-serif (gothic), bold.
    JapaneseSansSerifBold,
    /// Japanese monospace, regular.
    JapaneseMonospace,
    /// Japanese monospace, bold.
    JapaneseMonospaceBold,
}

/// The number of font kinds.
pub const FONT_TYPE_COUNT: usize = 19;

/// The position of a font kind in declaration order.
pub open spec fn font_type_index(t: FontType) -> int {
    match t {
        FontType::Serif => 0,
        FontType::SerifBold => 1,
        FontType::SerifItalic => 2,
        FontType::SerifBoldItalic => 3,
        FontType::SansSerif => 4,
        FontType::SansSerifBold => 5,
        FontType::SansSerifItalic => 6,
        FontType::SansSerifBoldItalic => 7,
        FontType::Monospace => 8,
        FontType::MonospaceBold => 9,
        FontType::MonospaceItalic => 10,
        FontType::MonospaceBoldItalic => 11,
        FontType::Math => 12,
        FontType::JapaneseSerif => 13,
        FontType::JapaneseSerifBold => 14,
        FontType::JapaneseSansSerif => 15,
        FontType::JapaneseSansSerifBold => 16,
        FontType::JapaneseMonospace => 17,
        FontType::JapaneseMonospaceBold => 18,
    }
}

/// The font kind at a position in declaration order.
pub open spec fn font_type_at(i: int) -> FontType {
    if i == 0 {
        FontType::Serif
    } else if i == 1 {
        FontType::SerifBold
    } else if i == 2 {
        FontType::SerifItalic
    } else if i == 3 {
        FontType::SerifBoldItalic
    } else if i == 4 {
        FontType::SansSerif
    } else if i == 5 {
        FontType::SansSerifBold
    } else if i == 6 {
        FontType::SansSerifItalic
    } else if i == 7 {
        FontType::SansSerifBoldItalic
    } else if i == 8 {
        FontType::Monospace
    } else if i == 9 {
        FontType::MonospaceBold
    } else if i == 10 {
        FontType::MonospaceItalic
    } else if i == 11 {
        FontType::MonospaceBoldItalic
    } else if i == 12 {
        FontType::Math
    } else if i == 13 {
        FontType::JapaneseSerif
    } else if i == 14 {
        FontType::JapaneseSerifBold
    } else if i == 15 {
        FontType::JapaneseSansSerif
    } else if i == 16 {
        FontType::JapaneseSansSerifBold
    } else if i == 17 {
        FontType::JapaneseMonospace
    } else {
        FontType::JapaneseMonospaceBold
    }
}

/// The key of a font kind in `config.toml` (`[font_configs.<key>]`): its name in snake case.
pub open spec fn toml_key(t: FontType) -> Seq<char> {
    match t {
        FontType::Serif => "serif"@,
        FontType::SerifBold => "serif_bold"@,
        FontType::SerifItalic => "serif_italic"@,
        FontType::SerifBoldItalic => "serif_bold_italic"@,
        FontType::SansSerif => "sans_serif"@,
        FontType::SansSerifBold => "sans_serif_bold"@,
        FontType::SansSerifItalic => "sans_serif_italic"@,
        FontType::SansSerifBoldItalic => "sans_serif_bold_italic"@,
        FontType::Monospace => "monospace"@,
        FontType::MonospaceBold => "monospace_bold"@,
        FontType::MonospaceItalic => "monospace_italic"@,
        FontType::MonospaceBoldItalic => "monospace_bold_italic"@,
        FontType::Math => "math"@,
        FontType::JapaneseSerif => "japanese_serif"@,
        FontType::JapaneseSerifBold => "japanese_serif_bold"@,
        FontType::JapaneseSansSerif => "japanese_sans_serif"@,
        FontType::JapaneseSansSerifBold => "japanese_sans_serif_bold"@,
        FontType::JapaneseMonospace => "japanese_monospace"@,
        FontType::JapaneseMonospaceBold => "japanese_monospace_bold"@,
    }
}

/// No two font kinds share a key in `config.toml`.
pub proof fn law_toml_keys_are_distinct(a: FontType, b: FontType)
    ensures
        toml_key(a) == toml_key(b) ==> a == b,
{
    reveal_strlit("serif");
    reveal_strlit("serif_bold");
    reveal_strlit("serif_italic");
    reveal_strlit("serif_bold_italic");
    reveal_strlit("sans_serif");
    reveal_strlit("sans_serif_bold");
    reveal_strlit("sans_serif_italic");
    reveal_strlit("sans_serif_bold_italic");
    reveal_strlit("monospace");
    reveal_strlit("monospace_bold");
    reveal_strlit("monospace_italic");
    reveal_strlit("monospace_bold_italic");
    reveal_strlit("math");
    reveal_strlit("japanese_serif");
    reveal_strlit("japanese_serif_bold");
    reveal_strlit("japanese_sans_serif");
    reveal_strlit("japanese_sans_serif_bold");
    reveal_strlit("japanese_monospace");
    reveal_strlit("japanese_monospace_bold");
    assert(toml_key(FontType::Serif).len() == 5);
    assert(toml_key(FontType::SerifBold).len() == 10);
    assert(toml_key(FontType::SerifItalic).len() == 12);
    assert(toml_key(FontType::SerifBoldItalic).len() == 17);
    assert(toml_key(FontType::SansSerif).len() == 10);
    assert(toml_key(FontType::SansSerifBold).len() == 15);
    assert(toml_key(FontType::SansSerifItalic).len() == 17);
    assert(toml_key(FontType::SansSerifBoldItalic).len() == 22);
    assert(toml_key(FontType::Monospace).len() == 9);
    assert(toml_key(FontType::MonospaceBold).len() == 14);
    assert(toml_key(FontType::MonospaceItalic).len() == 16);
    assert(toml_key(FontType::MonospaceBoldItalic).len() == 21);
    assert(toml_key(FontType::Math).len() == 4);
    assert(toml_key(FontType::JapaneseSerif).len() == 14);
    assert(toml_key(FontType::JapaneseSerifBold).len() == 19);
    assert(toml_key(FontType::JapaneseSansSerif).len() == 19);
    assert(toml_key(FontType::JapaneseSansSerifBold).len() == 24);
    assert(toml_key(FontType::JapaneseMonospace).len() == 18);
    assert(toml_key(FontType::JapaneseMonospaceBold).len() == 23);
    assert(toml_key(FontType::SerifBold)[1] != toml_key(FontType::SansSerif)[1]);
    assert(toml_key(FontType::SerifBoldItalic)[1] != toml_key(FontType::SansSerifItalic)[1]);
    assert(toml_key(FontType::MonospaceBold)[0] != toml_key(FontType::JapaneseSerif)[0]);
    assert(toml_key(FontType::JapaneseSerifBold)[10] != toml_key(FontType::JapaneseSansSerif)[10]);
}

/// Positions and kinds correspond one to one.
pub proof fn lemma_font_type_index(t: FontType)
    ensures
        0 <= font_type_index(t) < 19,
        font_type_at(font_type_index(t)) == t,
{
}

/// Positions and kinds correspond one to one.
pub proof fn lemma_font_type_at(i: int)
    requires
        0 <= i < 19,
    ensures
        font_type_index(font_type_at(i)) == i,
{
}

impl FontType {
    /// The position of the kind in declaration order.
    pub fn index(self) -> (i: usize)
        ensures
            i == font_type_index(self),
    {
        match self {
            FontType::Serif => 0,
            FontType::SerifBold => 1,
            FontType::SerifItalic => 2,
            FontType::SerifBoldItalic => 3,
            FontType::SansSerif => 4,
            FontType::SansSerifBold => 5,
            FontType::SansSerifItalic => 6,
            FontType::SansSerifBoldItalic => 7,
            FontType::Monospace => 8,
            FontType::MonospaceBold => 9,
            FontType::MonospaceItalic => 10,
            FontType::MonospaceBoldItalic => 11,
            FontType::Math => 12,
            FontType::JapaneseSerif => 13,
            FontType::JapaneseSerifBold => 14,
            FontType::JapaneseSansSerif => 15,
            FontType::JapaneseSansSerifBold => 16,
            FontType::JapaneseMonospace => 17,
            FontType::JapaneseMonospaceBold => 18,
        }
    }

    /// The kind at position `i` in declaration order.
    pub fn at(i: usize) -> (t: FontType)
        requires
            i < 19,
        ensures
            t == font_type_at(i as int),
    {
        if i == 0 {
            FontType::Serif
        } else if i == 1 {
            FontType::SerifBold
        } else if i == 2 {
            FontType::SerifItalic
        } else if i == 3 {
            FontType::SerifBoldItalic
        } else if i == 4 {
            FontType::SansSerif
        } else if i == 5 {
            FontType::SansSerifBold
        } else if i == 6 {
            FontType::SansSerifItalic
        } else if i == 7 {
            FontType::SansSerifBoldItalic
        } else if i == 8 {
            FontType::Monospace
        } else if i == 9 {
            FontType::MonospaceBold
        } else if i == 10 {
            FontType::MonospaceItalic
        } else if i == 11 {
            FontType::MonospaceBoldItalic
        } else if i == 12 {
            FontType::Math
        } else if i == 13 {
            FontType::JapaneseSerif
        } else if i == 14 {
            FontType::JapaneseSerifBold
        } else if i == 15 {
            FontType::JapaneseSansSerif
        } else if i == 16 {
            FontType::JapaneseSansSerifBold
        } else if i == 17 {
            FontType::JapaneseMonospace
        } else {
            FontType::JapaneseMonospaceBold
        }
    }

    /// Every kind, in declaration order.
    pub fn all() -> (v: Vec<FontType>)
        ensures
            v@.len() == 19,
            forall|i: int| 0 <= i < 19 ==> #[trigger] v@[i] == font_type_at(i),
    {
        let mut v: Vec<FontType> = Vec::new();
        let mut i: usize = 0;
        while i < 19
            invariant
                0 <= i <= 19,
                v@.len() == i,
                forall|j: int| 0 <= j < i ==> #[trigger] v@[j] == font_type_at(j),
            decreases 19 - i,
        {
            v.push(FontType::at(i));
            i = i + 1;
        }
        v
    }

    /// The key of the kind in `config.toml`: its name in snake case.
    pub fn as_toml_key(self) -> (s: &'static str)
        ensures
            s@ == toml_key(self),
    {
        match self {
            FontType::Serif => "serif",
            FontType::SerifBold => "serif_bold",
            FontType::SerifItalic => "serif_italic",
            FontType::SerifBoldItalic => "serif_bold_italic",
            FontType::SansSerif => "sans_serif",
            FontType::SansSerifBold => "sans_serif_bold",
            FontType::SansSerifItalic => "sans_serif_italic",
            FontType::SansSerifBoldItalic => "sans_serif_bold_italic",
            FontType::Monospace => "monospace",
            FontType::MonospaceBold => "monospace_bold",
            FontType::MonospaceItalic => "monospace_italic",
            FontType::MonospaceBoldItalic => "monospace_bold_italic",
            FontType::Math => "math",
            FontType::JapaneseSerif => "japanese_serif",
            FontType::JapaneseSerifBold => "japanese_serif_bold",
            FontType::JapaneseSansSerif => "japanese_sans_serif",
            FontType::JapaneseSansSerifBold => "japanese_sans_serif_bold",
            FontType::JapaneseMonospace => "japanese_monospace",
            FontType::JapaneseMonospaceBold => "japanese_monospace_bold",
        }
    }
}

} // verus!
