//! The entry point of parsing: from the text of a comment to the document.

use vstd::prelude::*;
use crate::error::{ParseError, ParseWarning, WarningView};
use crate::normalizer::{normalized, spec_normalize};
use crate::segmenter::{segment, spec_description, spec_sections};
use crate::text::{
    blank, chars_of, ends_with, is_blank, lines, split_lines, starts_with, string_of, subvec,
    trim, trimmed,
};
use crate::warnings::{section_warnings, warn_unknown};
use crate::{DocComment, DocCommentView};

pub use crate::arguments::parse_arguments;
pub use crate::examples::{extract_first_code_block, parse_examples};
pub use crate::fence::{is_closing_fence, parse_fence_open};
pub use crate::normalizer::normalize;
pub use crate::segmenter::{flush_section, parse_sections};
pub use crate::signature::{extract_inline_type_sig, parse_inline_type_line};

verus! {

/// What a doc comment starts with.
pub open spec fn comment_open() -> Seq<char> {
    seq!['/', '*', '*']
}

/// What a doc comment ends with.
pub open spec fn comment_close() -> Seq<char> {
    seq!['*', '/']
}

/// The document that a normalized text stands for.
pub open spec fn document_of(content: Seq<char>) -> DocCommentView {
    let ls = lines(content);
    DocCommentView {
        raw_content: content,
        description: spec_description(ls),
        sections: spec_sections(ls),
        warnings: section_warnings(spec_sections(ls)),
    }
}

/// What parsing makes of a text.
pub open spec fn spec_parse(input: Seq<char>) -> Result<DocCommentView, ParseError> {
    let t = trim(input);
    if !comment_open().is_prefix_of(t) {
        Err(ParseError::NotDocComment)
    } else if !comment_close().is_suffix_of(t.skip(3)) {
        Err(ParseError::UnclosedComment)
    } else {
        let content = spec_normalize(t.subrange(3, t.len() - 2));
        if is_blank(content) {
            Err(ParseError::EmptyComment)
        } else {
            Ok(document_of(content))
        }
    }
}

/// Parses the text of a `/** ... */` comment.
///
/// Whitespace around the text is ignored. The text must start with `/**` and,
/// after that, end with `*/`. What stands between is normalized and must not
/// be blank. It is then split into the description and the sections; a
/// warning is recorded for each section with an empty body, and after those
/// one for each section whose heading is not recognized.
pub fn parse(input: &str) -> (r: Result<DocComment, ParseError>)
    ensures
        match r {
            Ok(doc) => spec_parse(input@) == Ok::<DocCommentView, ParseError>(doc@),
            Err(e) => spec_parse(input@) == Err::<DocCommentView, ParseError>(e),
        },
        !comment_open().is_prefix_of(trim(input@)) ==> r == Err::<DocComment, ParseError>(
            ParseError::NotDocComment,
        ),
        comment_open().is_prefix_of(trim(input@)) && !comment_close().is_suffix_of(trim(input@))
            ==> r == Err::<DocComment, ParseError>(ParseError::UnclosedComment),
        r matches Ok(doc) ==> doc@.is_well_formed(),
{
    let v = chars_of(input);
    let t = trimmed(&v);
    let open: Vec<char> = vec!['/', '*', '*'];
    let close: Vec<char> = vec!['*', '/'];
    if !starts_with(&t, &open) {
        return Err(ParseError::NotDocComment);
    }
    let rest = subvec(&t, 3, t.len());
    if !ends_with(&rest, &close) {
        return Err(ParseError::UnclosedComment);
    }
    let inner = subvec(&rest, 0, rest.len() - 2);
    assert(inner@ =~= t@.subrange(3, t@.len() - 2));
    let content = normalized(&inner);
    if blank(&content) {
        return Err(ParseError::EmptyComment);
    }
    let ls = split_lines(&content);
    let mut warnings: Vec<ParseWarning> = Vec::new();
    let (description, sections) = segment(&ls, &mut warnings);
    warn_unknown(&sections, &mut warnings);
    let doc = DocComment {
        raw_content: string_of(&content),
        description: string_of(&description),
        sections,
        warnings,
    };
    Ok(doc)
}

} // verus!
