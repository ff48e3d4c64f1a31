//! A parser for documentation comments of the form `/** ... */`.
//!
//! The text of a comment is Markdown. What stands before the first level-1
//! heading (`# Heading`) is the description; each heading starts a section.
//! A `#` inside a fenced code block is code, not a heading. The recognized
//! headings, whatever their letter case, are `Type`, `Arguments` or `Args`,
//! `Example`, `Examples`, `Note`, `Notes`, `Warning`, `Warnings` or `Caution`,
//! and `Deprecated`.
//!
//! Every function has a contract over the characters of its input, and the
//! contracts are proved.

use vstd::prelude::*;
use vstd::string::StrSliceExecFns;

pub mod arguments;
pub mod boundary;
pub mod error;
pub mod examples;
pub mod fence;
pub mod line_laws;
pub mod normalizer;
pub mod parser;
pub mod section;
pub mod segmenter;
pub mod signature;
pub mod text;
pub mod unicode;
pub mod warnings;

pub use error::{ParseError, ParseWarning, WarningKind};
pub use section::{Argument, Example, Section, SectionKind};

use arguments::{parse_arguments, spec_arguments};
use error::WarningView;
use examples::{extract_first_code_block, parse_examples, spec_examples, spec_first_code_block};
use line_laws::lemma_first_line;
use normalizer::is_normal;
use parser::{comment_close, comment_open, document_of, spec_parse};
use section::{
    is_text, kind_of_heading, lemma_classify, ArgumentView, ExampleView, KindView, SectionView,
};
use signature::{extract_inline_type_sig, spec_inline_type_sig};
use text::{
    chars_of, ends_with, is_blank, lines, split_lines, starts_with, subvec, trim, trim_bounds,
    trimmed,
};
use unicode::{lowercase, lowercase_of};

verus! {

/// A parsed documentation comment.
#[derive(Debug, Clone, PartialEq)]
pub struct DocComment {
    /// The inside of the comment, normalized.
    pub raw_content: String,
    /// What stands before the first heading.
    pub description: String,
    /// The sections, in the order of their headings.
    pub sections: Vec<Section>,
    /// What was found suspect while parsing.
    pub warnings: Vec<ParseWarning>,
}

/// A parsed comment as a mathematical value.
pub struct DocCommentView {
    pub raw_content: Seq<char>,
    pub description: Seq<char>,
    pub sections: Seq<SectionView>,
    pub warnings: Seq<WarningView>,
}

impl View for DocComment {
    type V = DocCommentView;

    open spec fn view(&self) -> DocCommentView {
        DocCommentView {
            raw_content: self.raw_content@,
            description: self.description@,
            sections: self.sections.deep_view(),
            warnings: self.warnings.deep_view(),
        }
    }
}

/// Whether a text has the outer form of a doc comment: trimmed, it starts with
/// `/**` and ends with `*/`.
pub open spec fn looks_like_doc_comment(input: Seq<char>) -> bool {
    comment_open().is_prefix_of(trim(input)) && comment_close().is_suffix_of(trim(input))
}

/// The title in a description: its first line, trimmed, unless the
/// description is blank.
pub open spec fn title_of(description: Seq<char>) -> Option<Seq<char>> {
    let ls = lines(trim(description));
    if ls.len() == 0 || trim(ls[0]).len() == 0 {
        None
    } else {
        Some(trim(ls[0]))
    }
}

/// Position of the first section at or after `from` whose heading in
/// lowercase is `lower`.
pub open spec fn position_of(sections: Seq<SectionView>, lower: Seq<char>, from: int) -> Option<
    int,
>
    decreases sections.len() - from,
{
    if from < 0 || from >= sections.len() {
        None
    } else if lowercase_of(sections[from].heading) == lower {
        Some(from)
    } else {
        position_of(sections, lower, from + 1)
    }
}

/// The kinds of section that hold examples.
pub open spec fn holds_examples(kind: KindView) -> bool {
    kind is Example || kind is Examples
}

/// The kinds of section that hold notes.
pub open spec fn holds_notes(kind: KindView) -> bool {
    kind is Note || kind is Notes
}

/// The code blocks of all sections that hold examples, in the order of the
/// sections.
pub open spec fn example_blocks(sections: Seq<SectionView>) -> Seq<ExampleView>
    decreases sections.len(),
{
    if sections.len() == 0 {
        Seq::empty()
    } else {
        let rest = example_blocks(sections.drop_last());
        if holds_examples(kind_of_heading(sections.last().heading)) {
            rest + spec_examples(sections.last().content)
        } else {
            rest
        }
    }
}

/// The trimmed bodies of all sections that hold notes, in the order of the
/// sections.
pub open spec fn note_bodies(sections: Seq<SectionView>) -> Seq<Seq<char>>
    decreases sections.len(),
{
    if sections.len() == 0 {
        Seq::empty()
    } else {
        let rest = note_bodies(sections.drop_last());
        if holds_notes(kind_of_heading(sections.last().heading)) {
            rest.push(trim(sections.last().content))
        } else {
            rest
        }
    }
}

/// The trimmed bodies of all sections that hold warnings, in the order of the
/// sections.
pub open spec fn warning_bodies(sections: Seq<SectionView>) -> Seq<Seq<char>>
    decreases sections.len(),
{
    if sections.len() == 0 {
        Seq::empty()
    } else {
        let rest = warning_bodies(sections.drop_last());
        if kind_of_heading(sections.last().heading) is Warning {
            rest.push(trim(sections.last().content))
        } else {
            rest
        }
    }
}

/// The texts that a sequence of string slices holds.
pub open spec fn strs(v: Seq<&str>) -> Seq<Seq<char>> {
    Seq::new(v.len(), |i: int| v[i]@)
}

impl DocCommentView {
    /// What holds of every document that parsing gives: its text is in normal
    /// form and not blank, and the description, the sections and the warnings
    /// are those of that text.
    pub open spec fn is_well_formed(self) -> bool {
        &&& is_normal(self.raw_content)
        &&& !is_blank(self.raw_content)
        &&& self == document_of(self.raw_content)
    }

    /// The section with the heading `name`, whatever the letter case: the
    /// first one if there are several.
    pub open spec fn section(self, name: Seq<char>) -> Option<SectionView> {
        match position_of(self.sections, lowercase_of(name), 0) {
            Some(i) => Some(self.sections[i]),
            None => None,
        }
    }

    /// The type signature. Where there is a section `Type`, it is the first
    /// code block of the first such section, and nothing if that section has
    /// none. Only without such a section is the description searched for an
    /// annotation.
    pub open spec fn type_sig(self) -> Option<Seq<char>> {
        match position_of(self.sections, "type"@, 0) {
            Some(i) => spec_first_code_block(self.sections[i].content),
            None => spec_inline_type_sig(self.description),
        }
    }

    /// The arguments: those of the first section `Arguments`, or without such
    /// a section those of the first section `Args`.
    pub open spec fn arguments(self) -> Seq<ArgumentView> {
        match position_of(self.sections, "arguments"@, 0) {
            Some(i) => spec_arguments(self.sections[i].content),
            None => match position_of(self.sections, "args"@, 0) {
                Some(i) => spec_arguments(self.sections[i].content),
                None => Seq::empty(),
            },
        }
    }

    /// The trimmed body of the first section `Deprecated`.
    pub open spec fn deprecation_notice(self) -> Option<Seq<char>> {
        match position_of(self.sections, "deprecated"@, 0) {
            Some(i) => Some(trim(self.sections[i].content)),
            None => None,
        }
    }
}

/// A section that is found under a name has that name, and no section before
/// it has.
pub proof fn lemma_position_of(sections: Seq<SectionView>, lower: Seq<char>, from: int)
    requires
        0 <= from,
    ensures
        match position_of(sections, lower, from) {
            Some(i) => {
                &&& from <= i < sections.len()
                &&& lowercase_of(sections[i].heading) == lower
                &&& forall|k: int| from <= k < i ==> lowercase_of(sections[k].heading) != lower
            },
            None => forall|k: int|
                from <= k < sections.len() ==> lowercase_of(sections[k].heading) != lower,
        },
    decreases sections.len() - from,
{
    if from < sections.len() && lowercase_of(sections[from].heading) != lower {
        lemma_position_of(sections, lower, from + 1);
    }
}

/// Where a document has a section of the kind `Type`, its type signature is
/// the first code block of the first such section, whatever the description
/// holds: an annotation in the description is not looked at.
pub proof fn lemma_type_section_wins(doc: DocCommentView, i: int)
    requires
        0 <= i < doc.sections.len(),
        kind_of_heading(doc.sections[i].heading) is Type,
    ensures
        position_of(doc.sections, "type"@, 0) matches Some(j) && {
            &&& 0 <= j <= i
            &&& kind_of_heading(doc.sections[j].heading) is Type
            &&& forall|k: int| 0 <= k < j ==> !(kind_of_heading(doc.sections[k].heading) is Type)
            &&& doc.type_sig() == spec_first_code_block(doc.sections[j].content)
        },
{
    lemma_position_of(doc.sections, "type"@, 0);
    lemma_classify(lowercase_of(doc.sections[i].heading));
    match position_of(doc.sections, "type"@, 0) {
        Some(j) => {
            lemma_classify(lowercase_of(doc.sections[j].heading));
            assert forall|k: int| 0 <= k < j implies !(kind_of_heading(doc.sections[k].heading)
                is Type) by {
                lemma_classify(lowercase_of(doc.sections[k].heading));
            }
        },
        None => {},
    }
}

/// A text that parses has the outer form of a doc comment; a text that has
/// not fails as no doc comment or as an unclosed one.
pub proof fn lemma_parse_needs_outer_form(input: Seq<char>)
    ensures
        spec_parse(input) is Ok ==> looks_like_doc_comment(input),
        !looks_like_doc_comment(input) ==> spec_parse(input) == Err::<
            DocCommentView,
            ParseError,
        >(ParseError::NotDocComment) || spec_parse(input) == Err::<DocCommentView, ParseError>(
            ParseError::UnclosedComment,
        ),
{
}

/// `s` without leading and trailing whitespace, as a part of `s`.
fn trimmed_str(s: &str) -> (r: &str)
    ensures
        r@ == trim(s@),
{
    let v = chars_of(s);
    let (a, b) = trim_bounds(&v);
    s.substring_char(a, b)
}

impl DocComment {
    /// Parses the text of a `/** ... */` comment.
    ///
    /// The result is `NotDocComment` if the text, trimmed, does not start with
    /// `/**`; `UnclosedComment` if what follows that does not end with `*/`;
    /// `EmptyComment` if nothing but whitespace stands between them.
    pub fn parse(input: &str) -> (r: Result<DocComment, ParseError>)
        ensures
            match r {
                Ok(doc) => spec_parse(input@) == Ok::<DocCommentView, ParseError>(doc@),
                Err(e) => spec_parse(input@) == Err::<DocCommentView, ParseError>(e),
            },
            !comment_open().is_prefix_of(trim(input@)) ==> r == Err::<DocComment, ParseError>(
                ParseError::NotDocComment,
            ),
            comment_open().is_prefix_of(trim(input@)) && !comment_close().is_suffix_of(
                trim(input@),
            ) ==> r == Err::<DocComment, ParseError>(ParseError::UnclosedComment),
            r matches Ok(doc) ==> doc@.is_well_formed(),
    {
        parser::parse(input)
    }

    /// Whether a text has the outer form of a doc comment. Nothing is said
    /// about what stands inside.
    pub fn is_doc_comment(input: &str) -> (r: bool)
        ensures
            r == looks_like_doc_comment(input@),
    {
        let v = chars_of(input);
        let t = trimmed(&v);
        let open: Vec<char> = vec!['/', '*', '*'];
        let close: Vec<char> = vec!['*', '/'];
        starts_with(&t, &open) && ends_with(&t, &close)
    }

    /// The title: the first line of the description, trimmed.
    pub fn title(&self) -> (r: Option<&str>)
        ensures
            match r {
                Some(t) => title_of(self@.description) == Some(t@),
                None => title_of(self@.description) is None,
            },
    {
        let v = chars_of(self.description.as_str());
        let (a, b) = trim_bounds(&v);
        let t = subvec(&v, a, b);
        let ls = split_lines(&t);
        if ls.len() == 0 {
            return None;
        }
        let (a1, b1) = trim_bounds(&ls[0]);
        if a1 == b1 {
            return None;
        }
        proof {
            lemma_first_line(t@);
        }
        Some(self.description.as_str().substring_char(a + a1, a + b1))
    }

    /// The description: what stands before the first heading, trimmed.
    pub fn description(&self) -> (r: &str)
        ensures
            r@ == trim(self@.description),
    {
        trimmed_str(self.description.as_str())
    }

    /// The description, under another name.
    pub fn main_content(&self) -> (r: &str)
        ensures
            r@ == trim(self@.description),
    {
        self.description()
    }

    /// Position of the first section whose heading in lowercase is `lower`.
    fn find_section(&self, lower: &str) -> (r: Option<usize>)
        ensures
            match r {
                Some(i) => i < self.sections.len() && position_of(self@.sections, lower@, 0)
                    == Some(i as int),
                None => position_of(self@.sections, lower@, 0) is None,
            },
    {
        let mut i: usize = 0;
        while i < self.sections.len()
            invariant
                i <= self.sections.len(),
                position_of(self@.sections, lower@, 0) == position_of(
                    self@.sections,
                    lower@,
                    i as int,
                ),
            decreases self.sections.len() - i,
        {
            let heading = lowercase(self.sections[i].heading.as_str());
            let h = chars_of(heading.as_str());
            if is_text(&h, lower) {
                return Some(i);
            }
            i += 1;
        }
        None
    }

    /// The first section with the heading `name`, whatever the letter case.
    pub fn section(&self, name: &str) -> (r: Option<&Section>)
        ensures
            match r {
                Some(s) => position_of(self@.sections, lowercase_of(name@), 0) matches Some(i)
                    && *s == self.sections@[i],
                None => position_of(self@.sections, lowercase_of(name@), 0) is None,
            },
            match r {
                Some(s) => self@.section(name@) == Some(s@),
                None => self@.section(name@) is None,
            },
    {
        let lower = lowercase(name);
        match self.find_section(lower.as_str()) {
            Some(i) => Some(&self.sections[i]),
            None => None,
        }
    }

    /// The type signature: the first code block of the section `Type`, or
    /// without such a section the first line `name :: type` of the
    /// description.
    pub fn type_sig(&self) -> (r: Option<String>)
        ensures
            match r {
                Some(sig) => self@.type_sig() == Some(sig@),
                None => self@.type_sig() is None,
            },
            position_of(self@.sections, "type"@, 0) matches Some(i) ==> match r {
                Some(sig) => spec_first_code_block(self@.sections[i].content) == Some(sig@),
                None => spec_first_code_block(self@.sections[i].content) is None,
            },
    {
        match self.find_section("type") {
            Some(i) => extract_first_code_block(self.sections[i].content.as_str()),
            None => extract_inline_type_sig(self.description.as_str()),
        }
    }

    /// The arguments that the section `Arguments` lists, or without such a
    /// section the section `Args`.
    pub fn arguments(&self) -> (r: Vec<Argument>)
        ensures
            r.deep_view() == self@.arguments(),
    {
        match self.find_section("arguments") {
            Some(i) => parse_arguments(self.sections[i].content.as_str()),
            None => match self.find_section("args") {
                Some(i) => parse_arguments(self.sections[i].content.as_str()),
                None => {
                    let r: Vec<Argument> = Vec::new();
                    r
                },
            },
        }
    }

    /// The code blocks of all sections `Example` and `Examples`.
    pub fn examples(&self) -> (r: Vec<Example>)
        ensures
            r.deep_view() == example_blocks(self@.sections),
    {
        let ghost sv = self@.sections;
        let mut out: Vec<Example> = Vec::new();
        let mut i: usize = 0;
        while i < self.sections.len()
            invariant
                i <= self.sections.len(),
                sv == self@.sections,
                out.deep_view() == example_blocks(sv.take(i as int)),
            decreases self.sections.len() - i,
        {
            proof {
                assert(sv.take(i + 1).drop_last() =~= sv.take(i as int));
            }
            let section = &self.sections[i];
            match section.kind() {
                SectionKind::Example | SectionKind::Examples => {
                    let mut found = parse_examples(section.content.as_str());
                    out.append(&mut found);
                },
                _ => {},
            }
            i += 1;
        }
        assert(sv.take(i as int) =~= sv);
        out
    }

    /// The trimmed bodies of all sections `Note` and `Notes`.
    pub fn notes(&self) -> (r: Vec<&str>)
        ensures
            strs(r@) == note_bodies(self@.sections),
    {
        let ghost sv = self@.sections;
        let mut out: Vec<&str> = Vec::new();
        let mut i: usize = 0;
        while i < self.sections.len()
            invariant
                i <= self.sections.len(),
                sv == self@.sections,
                strs(out@) == note_bodies(sv.take(i as int)),
            decreases self.sections.len() - i,
        {
            proof {
                assert(sv.take(i + 1).drop_last() =~= sv.take(i as int));
            }
            let section = &self.sections[i];
            match section.kind() {
                SectionKind::Note | SectionKind::Notes => {
                    let body = trimmed_str(section.content.as_str());
                    out.push(body);
                },
                _ => {},
            }
            i += 1;
        }
        assert(sv.take(i as int) =~= sv);
        out
    }

    /// The trimmed bodies of all sections `Warning`, `Warnings` and `Caution`.
    pub fn warnings_content(&self) -> (r: Vec<&str>)
        ensures
            strs(r@) == warning_bodies(self@.sections),
    {
        let ghost sv = self@.sections;
        let mut out: Vec<&str> = Vec::new();
        let mut i: usize = 0;
        while i < self.sections.len()
            invariant
                i <= self.sections.len(),
                sv == self@.sections,
                strs(out@) == warning_bodies(sv.take(i as int)),
            decreases self.sections.len() - i,
        {
            proof {
                assert(sv.take(i + 1).drop_last() =~= sv.take(i as int));
            }
            let section = &self.sections[i];
            match section.kind() {
                SectionKind::Warning => {
                    let body = trimmed_str(section.content.as_str());
                    out.push(body);
                },
                _ => {},
            }
            i += 1;
        }
        assert(sv.take(i as int) =~= sv);
        out
    }

    /// Whether there is a section `Deprecated`.
    pub fn is_deprecated(&self) -> (r: bool)
        ensures
            r == self@.deprecation_notice().is_some(),
            r == position_of(self@.sections, "deprecated"@, 0).is_some(),
    {
        self.find_section("deprecated").is_some()
    }

    /// The trimmed body of the section `Deprecated`.
    pub fn deprecation_notice(&self) -> (r: Option<&str>)
        ensures
            match r {
                Some(notice) => self@.deprecation_notice() == Some(notice@),
                None => self@.deprecation_notice() is None,
            },
    {
        match self.find_section("deprecated") {
            Some(i) => Some(trimmed_str(self.sections[i].content.as_str())),
            None => None,
        }
    }
}

} // verus!
