use lyxcat::layout::LayoutType;

#[test]
fn from_name_known_names() {
    let cases = [
        ("Standard", LayoutType::Standard),
        ("Title", LayoutType::Title),
        ("Section", LayoutType::Section),
        ("Subsection", LayoutType::Subsection),
        ("Subsubsection", LayoutType::Subsubsection),
        ("Section*", LayoutType::SectionStar),
        ("Subsection*", LayoutType::SubsectionStar),
        ("Subsubsection*", LayoutType::SubsubsectionStar),
        ("Enumerate", LayoutType::Enumerate),
        ("Itemize", LayoutType::Itemize),
        ("Description", LayoutType::Description),
        ("Quote", LayoutType::Quote),
        ("Verse", LayoutType::Verse),
        ("Center", LayoutType::Center),
        ("FlushLeft", LayoutType::FlushLeft),
        ("FlushRight", LayoutType::FlushRight),
        ("Title Page", LayoutType::TitlePage),
        ("Author", LayoutType::Author),
        ("Date", LayoutType::Date),
        ("Abstract", LayoutType::Abstract),
    ];
    for (name, expected) in cases {
        assert_eq!(LayoutType::from_name(name), expected, "{}", name);
    }
}

#[test]
fn from_name_unknown_names() {
    for name in ["", "standard", "Plain Layout", "Section *", "Standard ", "Chapter", "Itemize*"] {
        assert_eq!(LayoutType::from_name(name), LayoutType::Unknown, "{:?}", name);
    }
}

#[test]
fn lists_and_headings() {
    assert!(LayoutType::Enumerate.is_list());
    assert!(LayoutType::Itemize.is_list());
    assert!(LayoutType::Description.is_list());
    assert!(!LayoutType::Standard.is_list());
    assert!(!LayoutType::Title.is_list());
    assert!(LayoutType::Title.is_heading());
    assert!(LayoutType::Section.is_heading());
    assert!(LayoutType::SubsubsectionStar.is_heading());
    assert!(!LayoutType::Enumerate.is_heading());
    assert!(!LayoutType::Abstract.is_heading());
    assert!(!LayoutType::Unknown.is_heading());
}

#[test]
fn prefixes_and_suffixes() {
    assert_eq!(LayoutType::Enumerate.prefix(), "\n  * ");
    assert_eq!(LayoutType::Itemize.prefix(), "\n  - ");
    assert_eq!(LayoutType::Verse.prefix(), "\n  ");
    assert_eq!(LayoutType::Section.prefix(), "\n");
    assert_eq!(LayoutType::Description.prefix(), "\n");
    assert_eq!(LayoutType::Standard.prefix(), "");
    assert_eq!(LayoutType::Unknown.prefix(), "");
    assert_eq!(LayoutType::Author.suffix(), "");
    assert_eq!(LayoutType::Itemize.suffix(), "");
}
