//! Sections of a doc comment, the kinds of section that are recognized, and
//! the values that are read out of a section's body.

use vstd::prelude::*;
use crate::text::chars_of;
use crate::unicode::{all_ascii, ascii_lower, lowercase, lowercase_of};

verus! {

/// A heading and the body below it.
#[derive(Debug, Clone, PartialEq)]
pub struct Section {
    /// The heading as it was written, without the leading `# `.
    pub heading: String,
    /// The body, trimmed.
    pub content: String,
}

/// A section as a mathematical value.
pub struct SectionView {
    pub heading: Seq<char>,
    pub content: Seq<char>,
}

impl View for Section {
    type V = SectionView;

    open spec fn view(&self) -> SectionView {
        SectionView { heading: self.heading@, content: self.content@ }
    }
}

impl DeepView for Section {
    type V = SectionView;

    open spec fn deep_view(&self) -> SectionView {
        self@
    }
}

/// What a section is for, as its heading tells.
#[derive(Debug, Clone, PartialEq, Eq, Hash)]
pub enum SectionKind {
    /// `# Type`: the type signature.
    Type,
    /// `# Arguments` or `# Args`: one entry for each argument.
    Arguments,
    /// `# Example`: an example of use.
    Example,
    /// `# Examples`: several examples of use.
    Examples,
    /// `# Note`: a remark.
    Note,
    /// `# Notes`: several remarks.
    Notes,
    /// `# Warning`, `# Warnings` or `# Caution`: a caveat.
    Warning,
    /// `# Deprecated`: a deprecation notice.
    Deprecated,
    /// Any other heading, in lowercase.
    Unknown(String),
}

/// A kind of section as a mathematical value.
pub enum KindView {
    Type,
    Arguments,
    Example,
    Examples,
    Note,
    Notes,
    Warning,
    Deprecated,
    Unknown(Seq<char>),
}

impl View for SectionKind {
    type V = KindView;

    open spec fn view(&self) -> KindView {
        match self {
            SectionKind::Type => KindView::Type,
            SectionKind::Arguments => KindView::Arguments,
            SectionKind::Example => KindView::Example,
            SectionKind::Examples => KindView::Examples,
            SectionKind::Note => KindView::Note,
            SectionKind::Notes => KindView::Notes,
            SectionKind::Warning => KindView::Warning,
            SectionKind::Deprecated => KindView::Deprecated,
            SectionKind::Unknown(s) => KindView::Unknown(s@),
        }
    }
}

/// The kind that a heading in lowercase stands for.
pub open spec fn classify(lower: Seq<char>) -> KindView {
    if lower == "type"@ {
        KindView::Type
    } else if lower == "arguments"@ || lower == "args"@ {
        KindView::Arguments
    } else if lower == "example"@ {
        KindView::Example
    } else if lower == "examples"@ {
        KindView::Examples
    } else if lower == "note"@ {
        KindView::Note
    } else if lower == "notes"@ {
        KindView::Notes
    } else if lower == "warning"@ || lower == "warnings"@ || lower == "caution"@ {
        KindView::Warning
    } else if lower == "deprecated"@ {
        KindView::Deprecated
    } else {
        KindView::Unknown(lower)
    }
}

/// The kind of a section with the heading `heading`: letter case is ignored.
pub open spec fn kind_of_heading(heading: Seq<char>) -> KindView {
    classify(lowercase_of(heading))
}

/// The table of recognized headings: each kind belongs to its names and to
/// no other text, and every other text is unknown and kept as it is.
pub proof fn lemma_classify(lower: Seq<char>)
    ensures
        classify(lower) is Type <==> lower == "type"@,
        classify(lower) is Arguments <==> lower == "arguments"@ || lower == "args"@,
        classify(lower) is Example <==> lower == "example"@,
        classify(lower) is Examples <==> lower == "examples"@,
        classify(lower) is Note <==> lower == "note"@,
        classify(lower) is Notes <==> lower == "notes"@,
        classify(lower) is Warning <==> lower == "warning"@ || lower == "warnings"@ || lower
            == "caution"@,
        classify(lower) is Deprecated <==> lower == "deprecated"@,
        classify(lower) matches KindView::Unknown(text) ==> text == lower,
{
    reveal_strlit("type");
    reveal_strlit("arguments");
    reveal_strlit("args");
    reveal_strlit("example");
    reveal_strlit("examples");
    reveal_strlit("note");
    reveal_strlit("notes");
    reveal_strlit("warning");
    reveal_strlit("warnings");
    reveal_strlit("caution");
    reveal_strlit("deprecated");
    assert("notes"@.len() == 5);
    assert("examples"@.len() == 8 && "warnings"@.len() == 8);
    assert("args"@[0] == 'a');
    assert("note"@[0] == 'n');
    assert("example"@[0] == 'e');
    assert("warning"@[0] == 'w');
    assert("caution"@[0] == 'c');
    assert("warnings"@[0] == 'w');
    assert("arguments"@[0] == 'a');
    assert("deprecated"@[0] == 'd');
}

/// Letter case does not matter for a heading written in ASCII: a heading
/// that differs from a recognized name in letter case only has its kind.
pub proof fn lemma_kind_ignores_case(heading: Seq<char>, name: Seq<char>)
    requires
        all_ascii(heading),
        all_ascii(name),
        heading.len() == name.len(),
        forall|i: int| 0 <= i < heading.len() ==> ascii_lower(heading[i]) == ascii_lower(name[i]),
    ensures
        kind_of_heading(heading) == kind_of_heading(name),
{
    assert(lowercase_of(heading) =~= lowercase_of(name));
}

/// Whether `v` holds the text `lit`.
pub fn is_text(v: &Vec<char>, lit: &str) -> (r: bool)
    ensures
        r == (v@ == lit@),
{
    let w = chars_of(lit);
    if v.len() != w.len() {
        return false;
    }
    let mut i: usize = 0;
    while i < v.len()
        invariant
            i <= v.len(),
            v.len() == w.len(),
            w@ == lit@,
            forall|k: int| 0 <= k < i ==> v@[k] == w@[k],
        decreases v.len() - i,
    {
        if v[i] != w[i] {
            return false;
        }
        i += 1;
    }
    assert(v@ =~= w@);
    true
}

impl SectionKind {
    /// The kind that a heading stands for, given the heading in lowercase.
    pub fn from_lowercase(lower: String) -> (kind: SectionKind)
        ensures
            kind@ == classify(lower@),
    {
        let l = chars_of(lower.as_str());
        if is_text(&l, "type") {
            SectionKind::Type
        } else if is_text(&l, "arguments") || is_text(&l, "args") {
            SectionKind::Arguments
        } else if is_text(&l, "example") {
            SectionKind::Example
        } else if is_text(&l, "examples") {
            SectionKind::Examples
        } else if is_text(&l, "note") {
            SectionKind::Note
        } else if is_text(&l, "notes") {
            SectionKind::Notes
        } else if is_text(&l, "warning") || is_text(&l, "warnings") || is_text(&l, "caution") {
            SectionKind::Warning
        } else if is_text(&l, "deprecated") {
            SectionKind::Deprecated
        } else {
            SectionKind::Unknown(lower)
        }
    }

    /// The kind that the heading `heading` stands for, whatever its letter case.
    pub fn from_heading(heading: &str) -> (kind: SectionKind)
        ensures
            kind@ == kind_of_heading(heading@),
    {
        SectionKind::from_lowercase(lowercase(heading))
    }

    /// Whether this is one of the recognized kinds.
    pub fn is_known(&self) -> (known: bool)
        ensures
            known == !(self@ is Unknown),
    {
        match self {
            SectionKind::Unknown(_) => false,
            _ => true,
        }
    }
}

impl Section {
    /// The kind of this section, as its heading tells.
    pub fn kind(&self) -> (kind: SectionKind)
        ensures
            kind@ == kind_of_heading(self.heading@),
    {
        SectionKind::from_heading(self.heading.as_str())
    }
}

/// One argument of the documented function.
#[derive(Debug, Clone, PartialEq)]
pub struct Argument {
    /// The name as written between the square brackets.
    pub name: String,
    /// What is said about the argument; may be empty.
    pub description: String,
}

/// An argument as a mathematical value.
pub struct ArgumentView {
    pub name: Seq<char>,
    pub description: Seq<char>,
}

impl View for Argument {
    type V = ArgumentView;

    open spec fn view(&self) -> ArgumentView {
        ArgumentView { name: self.name@, description: self.description@ }
    }
}

impl DeepView for Argument {
    type V = ArgumentView;

    open spec fn deep_view(&self) -> ArgumentView {
        self@
    }
}

/// One fenced code block of an example section.
#[derive(Debug, Clone, PartialEq)]
pub struct Example {
    /// The language named on the opening fence, if any.
    pub language: Option<String>,
    /// The lines between the fences, each with a line feed after it.
    pub code: String,
}

/// An example as a mathematical value.
pub struct ExampleView {
    pub language: Option<Seq<char>>,
    pub code: Seq<char>,
}

impl View for Example {
    type V = ExampleView;

    open spec fn view(&self) -> ExampleView {
        ExampleView {
            language: match self.language {
                Some(l) => Some(l@),
                None => None,
            },
            code: self.code@,
        }
    }
}

impl DeepView for Example {
    type V = ExampleView;

    open spec fn deep_view(&self) -> ExampleView {
        self@
    }
}

} // verus!
