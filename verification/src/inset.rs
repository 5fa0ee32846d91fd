//! Insets (`\begin_inset ...` blocks) that the viewer recognises.
use vstd::prelude::*;
use crate::text::{chars_of, contains, has_infix};

verus! {

/// The kind of an inset.
#[derive(Debug, Clone, Copy, PartialEq, Eq, Structural)]
pub enum InsetType {
    Note,
    Foot,
    Quotes,
    FlexUrl,
    Newline,
    Space,
    Info,
    CommandInset,
    Href,
    Unknown,
}

/// The inset that a line announces: the first marker, in this order, that
/// occurs anywhere in the line decides; `None` where none occurs.
pub open spec fn inset_of_line(line: Seq<char>) -> Option<InsetType> {
    if has_infix(line, "\\begin_inset Note"@) {
        Some(InsetType::Note)
    } else if has_infix(line, "\\begin_inset Foot"@) {
        Some(InsetType::Foot)
    } else if has_infix(line, "\\begin_inset Quotes"@) {
        Some(InsetType::Quotes)
    } else if has_infix(line, "\\begin_inset Flex URL"@) {
        Some(InsetType::FlexUrl)
    } else if has_infix(line, "\\begin_inset Newline"@) {
        Some(InsetType::Newline)
    } else if has_infix(line, "\\begin_inset space"@) {
        Some(InsetType::Space)
    } else if has_infix(line, "\\begin_inset Info"@) {
        Some(InsetType::Info)
    } else if has_infix(line, "\\begin_inset CommandInset"@) {
        Some(InsetType::CommandInset)
    } else if has_infix(line, "\\begin_inset href"@) {
        Some(InsetType::Href)
    } else {
        None
    }
}

impl InsetType {
    /// The inset that `line` announces, if any.
    pub fn from_line(line: &str) -> (res: Option<InsetType>)
        ensures
            res == inset_of_line(line@),
    {
        let l = chars_of(line);
        InsetType::from_chars(&l)
    }

    /// The inset that the line `l` announces, if any.
    pub fn from_chars(l: &[char]) -> (res: Option<InsetType>)
        ensures
            res == inset_of_line(l@),
    {
        if contains(l, "\\begin_inset Note") {
            Some(InsetType::Note)
        } else if contains(l, "\\begin_inset Foot") {
            Some(InsetType::Foot)
        } else if contains(l, "\\begin_inset Quotes") {
            Some(InsetType::Quotes)
        } else if contains(l, "\\begin_inset Flex URL") {
            Some(InsetType::FlexUrl)
        } else if contains(l, "\\begin_inset Newline") {
            Some(InsetType::Newline)
        } else if contains(l, "\\begin_inset space") {
            Some(InsetType::Space)
        } else if contains(l, "\\begin_inset Info") {
            Some(InsetType::Info)
        } else if contains(l, "\\begin_inset CommandInset") {
            Some(InsetType::CommandInset)
        } else if contains(l, "\\begin_inset href") {
            Some(InsetType::Href)
        } else {
            None
        }
    }
}

} // verus!

verus! {

/// A line that opens a quote inset, whatever its quote style (`eld`, `erd`,
/// `els`, `ers`, `ald`, ...), is a quote, unless it also names a note or a
/// footnote, which come first; a line that names a note is a note.
pub proof fn law_quotes_any_style(line: Seq<char>)
    ensures
        has_infix(line, "\\begin_inset Quotes"@) && !has_infix(line, "\\begin_inset Note"@)
            && !has_infix(line, "\\begin_inset Foot"@) ==> inset_of_line(line) == Some(
            InsetType::Quotes,
        ),
        has_infix(line, "\\begin_inset Note"@) ==> inset_of_line(line) == Some(InsetType::Note),
        !has_infix(line, "\\begin_inset Note"@) && has_infix(line, "\\begin_inset Foot"@)
            ==> inset_of_line(line) == Some(InsetType::Foot),
{
}

} // verus!
