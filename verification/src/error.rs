//! Parse errors and the warnings that a successful parse may carry.

use vstd::prelude::*;
use vstd::string::StringExecFns;

verus! {

/// Why a text could not be parsed as a doc comment.
#[derive(Debug, PartialEq, Clone)]
pub enum ParseError {
    /// The text does not start with `/**`.
    NotDocComment,
    /// The text starts with `/**` but does not end with `*/`.
    UnclosedComment,
    /// Nothing is left of the comment once it is normalized.
    EmptyComment,
}

impl ParseError {
    /// The text of the message that belongs to this error.
    pub open spec fn message_text(self) -> Seq<char> {
        match self {
            ParseError::NotDocComment => "not a doc comment: input must start with '/**'"@,
            ParseError::UnclosedComment => "unclosed doc comment: missing '*/' terminator"@,
            ParseError::EmptyComment => "empty doc comment"@,
        }
    }

    /// A message for people that says what went wrong.
    pub fn message(&self) -> (s: String)
        ensures
            s@ == self.message_text(),
    {
        match self {
            ParseError::NotDocComment => String::from_str(
                "not a doc comment: input must start with '/**'",
            ),
            ParseError::UnclosedComment => String::from_str(
                "unclosed doc comment: missing '*/' terminator",
            ),
            ParseError::EmptyComment => String::from_str("empty doc comment"),
        }
    }
}

/// What a warning is about.
#[derive(Debug, Clone, PartialEq)]
pub enum WarningKind {
    /// A section has a heading and no body.
    EmptySection,
    /// A section's heading is not one of the recognized names.
    UnknownSection,
}

/// A remark on a comment that parsed, but holds something suspect.
#[derive(Debug, Clone, PartialEq)]
pub struct ParseWarning {
    /// What the warning is about.
    pub kind: WarningKind,
    /// A message for people.
    pub message: String,
}

/// A warning as a mathematical value.
pub struct WarningView {
    pub kind: WarningKind,
    pub message: Seq<char>,
}

impl View for ParseWarning {
    type V = WarningView;

    open spec fn view(&self) -> WarningView {
        WarningView { kind: self.kind, message: self.message@ }
    }
}

impl DeepView for ParseWarning {
    type V = WarningView;

    open spec fn deep_view(&self) -> WarningView {
        self@
    }
}

/// The warning for a section with the heading `heading` and an empty body.
pub open spec fn empty_section_warning(heading: Seq<char>) -> WarningView {
    WarningView {
        kind: WarningKind::EmptySection,
        message: "section '"@ + heading + "' has no content"@,
    }
}

/// The warning for a section whose heading `heading` is not recognized.
pub open spec fn unknown_section_warning(heading: Seq<char>) -> WarningView {
    WarningView {
        kind: WarningKind::UnknownSection,
        message: "unrecognized section heading: '"@ + heading + "'"@,
    }
}

impl ParseWarning {
    /// The warning for a section with an empty body.
    pub fn empty_section(heading: &str) -> (w: ParseWarning)
        ensures
            w@ == empty_section_warning(heading@),
    {
        let mut message = String::from_str("section '");
        message.append(heading);
        message.append("' has no content");
        ParseWarning { kind: WarningKind::EmptySection, message }
    }

    /// The warning for a section with an unrecognized heading.
    pub fn unknown_section(heading: &str) -> (w: ParseWarning)
        ensures
            w@ == unknown_section_warning(heading@),
    {
        let mut message = String::from_str("unrecognized section heading: '");
        message.append(heading);
        message.append("'");
        ParseWarning { kind: WarningKind::UnknownSection, message }
    }
}

} // verus!
