//! Plain values for callers on the other side of a language boundary: status
//! codes and one line of text for each argument and each example. Handing
//! these over as foreign strings is left to the caller.

use vstd::prelude::*;
use vstd::string::StringExecFns;
use crate::parser::spec_parse;
use crate::section::{Argument, ArgumentView, Example, ExampleView};
use crate::{example_blocks, DocComment};

verus! {

/// The text was parsed.
pub const STATUS_SUCCESS: i32 = 0;

/// The text is not a well-formed doc comment.
pub const STATUS_PARSE_ERROR: i32 = 1;

/// A null pointer was handed in.
pub const STATUS_NULL: i32 = 2;

/// Something failed inside; nothing can be said about the text.
pub const STATUS_INTERNAL_FAULT: i32 = 3;

/// The line for an argument: its name, a colon and a space, its description.
pub open spec fn argument_line(argument: ArgumentView) -> Seq<char> {
    argument.name + ": "@ + argument.description
}

/// The line for an example: its language or nothing, a colon and a space, its
/// code.
pub open spec fn example_line(example: ExampleView) -> Seq<char> {
    (match example.language {
        Some(l) => l,
        None => Seq::empty(),
    }) + ": "@ + example.code
}

/// The lines for a list of arguments.
pub open spec fn argument_lines(arguments: Seq<ArgumentView>) -> Seq<Seq<char>> {
    Seq::new(arguments.len(), |i: int| argument_line(arguments[i]))
}

/// The lines for a list of examples.
pub open spec fn example_lines(examples: Seq<ExampleView>) -> Seq<Seq<char>> {
    Seq::new(examples.len(), |i: int| example_line(examples[i]))
}

/// The texts that a vector of strings holds.
pub open spec fn string_views(v: Seq<String>) -> Seq<Seq<char>> {
    Seq::new(v.len(), |i: int| v[i]@)
}

/// The status of parsing `input`: success or parse error.
pub fn parse_status(input: &str) -> (code: i32)
    ensures
        code == if spec_parse(input@) is Ok {
            STATUS_SUCCESS
        } else {
            STATUS_PARSE_ERROR
        },
{
    match DocComment::parse(input) {
        Ok(_) => STATUS_SUCCESS,
        Err(_) => STATUS_PARSE_ERROR,
    }
}

/// The line for `argument`.
pub fn argument_entry(argument: &Argument) -> (line: String)
    ensures
        line@ == argument_line(argument@),
{
    let mut line = String::from_str(argument.name.as_str());
    line.append(": ");
    line.append(argument.description.as_str());
    line
}

/// The line for `example`.
pub fn example_entry(example: &Example) -> (line: String)
    ensures
        line@ == example_line(example@),
{
    let mut line = match &example.language {
        Some(l) => String::from_str(l.as_str()),
        None => String::new(),
    };
    line.append(": ");
    line.append(example.code.as_str());
    line
}

/// One line for each argument of `doc`, in their order.
pub fn argument_entries(doc: &DocComment) -> (entries: Vec<String>)
    ensures
        string_views(entries@) == argument_lines(doc@.arguments()),
{
    let arguments = doc.arguments();
    let mut entries: Vec<String> = Vec::new();
    let mut i: usize = 0;
    while i < arguments.len()
        invariant
            i <= arguments.len(),
            entries.len() == i,
            forall|k: int|
                0 <= k < i ==> (#[trigger] entries@[k])@ == argument_line(arguments@[k]@),
        decreases arguments.len() - i,
    {
        entries.push(argument_entry(&arguments[i]));
        i += 1;
    }
    entries
}

/// One line for each example of `doc`, in their order.
pub fn example_entries(doc: &DocComment) -> (entries: Vec<String>)
    ensures
        string_views(entries@) == example_lines(example_blocks(doc@.sections)),
{
    let examples = doc.examples();
    let mut entries: Vec<String> = Vec::new();
    let mut i: usize = 0;
    while i < examples.len()
        invariant
            i <= examples.len(),
            entries.len() == i,
            forall|k: int|
                0 <= k < i ==> (#[trigger] entries@[k])@ == example_line(examples@[k]@),
        decreases examples.len() - i,
    {
        entries.push(example_entry(&examples[i]));
        i += 1;
    }
    entries
}

} // verus!
