//! Paragraph layouts of a LyX document and how each one is shown.
use vstd::prelude::*;
use crate::text::{chars_of, occurs_at_exec};

verus! {

/// The layout of a paragraph (the name after `\begin_layout`).
#[derive(Debug, Clone, Copy, PartialEq, Eq, Structural)]
pub enum LayoutType {
    Standard,
    Title,
    Section,
    Subsection,
    Subsubsection,
    SectionStar,
    SubsectionStar,
    SubsubsectionStar,
    Enumerate,
    Itemize,
    Description,
    Quote,
    Verse,
    Center,
    FlushLeft,
    FlushRight,
    TitlePage,
    Author,
    Date,
    Abstract,
    Unknown,
}

/// The layout that a LyX layout name stands for; `Unknown` for any other name.
pub open spec fn layout_of_name(name: Seq<char>) -> LayoutType {
    if name == "Standard"@ {
        LayoutType::Standard
    } else if name == "Title"@ {
        LayoutType::Title
    } else if name == "Section"@ {
        LayoutType::Section
    } else if name == "Subsection"@ {
        LayoutType::Subsection
    } else if name == "Subsubsection"@ {
        LayoutType::Subsubsection
    } else if name == "Section*"@ {
        LayoutType::SectionStar
    } else if name == "Subsection*"@ {
        LayoutType::SubsectionStar
    } else if name == "Subsubsection*"@ {
        LayoutType::SubsubsectionStar
    } else if name == "Enumerate"@ {
        LayoutType::Enumerate
    } else if name == "Itemize"@ {
        LayoutType::Itemize
    } else if name == "Description"@ {
        LayoutType::Description
    } else if name == "Quote"@ {
        LayoutType::Quote
    } else if name == "Verse"@ {
        LayoutType::Verse
    } else if name == "Center"@ {
        LayoutType::Center
    } else if name == "FlushLeft"@ {
        LayoutType::FlushLeft
    } else if name == "FlushRight"@ {
        LayoutType::FlushRight
    } else if name == "Title Page"@ {
        LayoutType::TitlePage
    } else if name == "Author"@ {
        LayoutType::Author
    } else if name == "Date"@ {
        LayoutType::Date
    } else if name == "Abstract"@ {
        LayoutType::Abstract
    } else {
        LayoutType::Unknown
    }
}

/// Enumerate, Itemize and Description are lists.
pub open spec fn layout_is_list(l: LayoutType) -> bool {
    l is Enumerate || l is Itemize || l is Description
}

/// Title and the (starred or not) section levels are headings.
pub open spec fn layout_is_heading(l: LayoutType) -> bool {
    ||| l is Title
    ||| l is Section
    ||| l is Subsection
    ||| l is Subsubsection
    ||| l is SectionStar
    ||| l is SubsectionStar
    ||| l is SubsubsectionStar
}

/// The text put before a paragraph of layout `l`.
pub open spec fn layout_prefix(l: LayoutType) -> Seq<char> {
    match l {
        LayoutType::Enumerate => "\n  * "@,
        LayoutType::Itemize => "\n  - "@,
        LayoutType::Verse => "\n  "@,
        LayoutType::Standard | LayoutType::Unknown => ""@,
        _ => "\n"@,
    }
}

/// The text put after a paragraph of any layout: none.
pub open spec fn layout_suffix(l: LayoutType) -> Seq<char> {
    ""@
}

/// Whether `a` holds exactly the characters of `b`.
pub fn same_text(a: &[char], b: &str) -> (res: bool)
    ensures
        res == (a@ == b@),
{
    let bc = chars_of(b);
    if a.len() != bc.len() {
        return false;
    }
    let r = occurs_at_exec(a, 0, &bc);
    assert(a@.subrange(0, a@.len() as int) == a@);
    r
}

impl LayoutType {
    /// The layout named `name`.
    pub fn from_name(name: &str) -> (res: LayoutType)
        ensures
            res == layout_of_name(name@),
    {
        let n = chars_of(name);
        if same_text(&n, "Standard") {
            LayoutType::Standard
        } else if same_text(&n, "Title") {
            LayoutType::Title
        } else if same_text(&n, "Section") {
            LayoutType::Section
        } else if same_text(&n, "Subsection") {
            LayoutType::Subsection
        } else if same_text(&n, "Subsubsection") {
            LayoutType::Subsubsection
        } else if same_text(&n, "Section*") {
            LayoutType::SectionStar
        } else if same_text(&n, "Subsection*") {
            LayoutType::SubsectionStar
        } else if same_text(&n, "Subsubsection*") {
            LayoutType::SubsubsectionStar
        } else if same_text(&n, "Enumerate") {
            LayoutType::Enumerate
        } else if same_text(&n, "Itemize") {
            LayoutType::Itemize
        } else if same_text(&n, "Description") {
            LayoutType::Description
        } else if same_text(&n, "Quote") {
            LayoutType::Quote
        } else if same_text(&n, "Verse") {
            LayoutType::Verse
        } else if same_text(&n, "Center") {
            LayoutType::Center
        } else if same_text(&n, "FlushLeft") {
            LayoutType::FlushLeft
        } else if same_text(&n, "FlushRight") {
            LayoutType::FlushRight
        } else if same_text(&n, "Title Page") {
            LayoutType::TitlePage
        } else if same_text(&n, "Author") {
            LayoutType::Author
        } else if same_text(&n, "Date") {
            LayoutType::Date
        } else if same_text(&n, "Abstract") {
            LayoutType::Abstract
        } else {
            LayoutType::Unknown
        }
    }

    /// Whether this layout is a list (its items start a fresh paragraph).
    pub fn is_list(&self) -> (res: bool)
        ensures
            res == layout_is_list(*self),
    {
        matches!(self, LayoutType::Enumerate | LayoutType::Itemize | LayoutType::Description)
    }

    /// Whether this layout is a heading.
    pub fn is_heading(&self) -> (res: bool)
        ensures
            res == layout_is_heading(*self),
    {
        matches!(
            self,
            LayoutType::Title | LayoutType::Section | LayoutType::Subsection
                | LayoutType::Subsubsection | LayoutType::SectionStar | LayoutType::SubsectionStar
                | LayoutType::SubsubsectionStar
        )
    }

    /// The text put before a paragraph of this layout.
    pub fn prefix(&self) -> (res: &'static str)
        ensures
            res@ == layout_prefix(*self),
    {
        match self {
            LayoutType::Title => "\n",
            LayoutType::Section | LayoutType::SectionStar => "\n",
            LayoutType::Subsection | LayoutType::SubsectionStar => "\n",
            LayoutType::Subsubsection | LayoutType::SubsubsectionStar => "\n",
            LayoutType::TitlePage => "\n",
            LayoutType::Author => "\n",
            LayoutType::Date => "\n",
            LayoutType::Abstract => "\n",
            LayoutType::Enumerate => "\n  * ",
            LayoutType::Itemize => "\n  - ",
            LayoutType::Quote => "\n",
            LayoutType::Verse => "\n  ",
            LayoutType::Center => "\n",
            LayoutType::FlushLeft => "\n",
            LayoutType::FlushRight => "\n",
            LayoutType::Description => "\n",
            _ => "",
        }
    }

    /// The text put after a paragraph of this layout.
    pub fn suffix(&self) -> (res: &'static str)
        ensures
            res@ == layout_suffix(*self),
    {
        match self {
            LayoutType::Author => "",
            LayoutType::Abstract => "",
            _ => "",
        }
    }
}

} // verus!

verus! {

/// The headings are exactly the title and the six section levels, starred
/// or not; no other layout is one.
pub proof fn law_headings(l: LayoutType)
    ensures
        layout_is_heading(l) <==> (l == LayoutType::Title || l == LayoutType::Section || l
            == LayoutType::Subsection || l == LayoutType::Subsubsection || l
            == LayoutType::SectionStar || l == LayoutType::SubsectionStar || l
            == LayoutType::SubsubsectionStar),
        layout_is_list(l) <==> (l == LayoutType::Enumerate || l == LayoutType::Itemize || l
            == LayoutType::Description),
        !(layout_is_heading(l) && layout_is_list(l)),
{
}

/// A list item of Enumerate begins with a line feed and a `*` bullet, one
/// of Itemize with a line feed and a `-` bullet, a Verse with a line feed
/// and an indent; Standard and unknown layouts have no prefix, and every
/// other layout (the headings, Quote, Center, FlushLeft, FlushRight,
/// TitlePage, Author, Date, Abstract, Description) begins with exactly one
/// line feed. No layout has a suffix.
pub proof fn law_prefixes(l: LayoutType)
    ensures
        l == LayoutType::Enumerate ==> layout_prefix(l) == seq!['\n', ' ', ' ', '*', ' '],
        l == LayoutType::Itemize ==> layout_prefix(l) == seq!['\n', ' ', ' ', '-', ' '],
        l == LayoutType::Verse ==> layout_prefix(l) == seq!['\n', ' ', ' '],
        l == LayoutType::Standard || l == LayoutType::Unknown ==> layout_prefix(l).len() == 0,
        !(l == LayoutType::Enumerate || l == LayoutType::Itemize || l == LayoutType::Verse || l
            == LayoutType::Standard || l == LayoutType::Unknown) ==> layout_prefix(l) == seq![
            '\n',
        ],
        layout_suffix(l).len() == 0,
{
    reveal_strlit("\n  * ");
    reveal_strlit("\n  - ");
    reveal_strlit("\n  ");
    reveal_strlit("\n");
    reveal_strlit("");
    assert("\n  * "@ =~= seq!['\n', ' ', ' ', '*', ' ']);
    assert("\n  - "@ =~= seq!['\n', ' ', ' ', '-', ' ']);
    assert("\n  "@ =~= seq!['\n', ' ', ' ']);
    assert("\n"@ =~= seq!['\n']);
}

} // verus!
