//! The older way to give a type signature: a line `name :: type` in the
//! description itself.

use vstd::prelude::*;
use crate::text::{
    chars_of, find, find_first, lines, split_lines, string_of, subvec, texts, trim, trimmed,
};
use crate::unicode::{is_alnum, is_letter_or_digit};

verus! {

/// What stands between the name and the type.
pub open spec fn type_mark() -> Seq<char> {
    seq![':', ':']
}

/// The characters that a name is made of: letters, digits, `_`, `-` and `'`.
pub open spec fn is_name_char(c: char) -> bool {
    is_alnum(c) || c == '_' || c == '-' || c == '\''
}

/// Whether every character of `s` can stand in a name.
pub open spec fn is_name(s: Seq<char>) -> bool {
    forall|i: int| 0 <= i < s.len() ==> is_name_char(#[trigger] s[i])
}

/// Whether the trimmed line `t` has the form `name :: type`: what stands
/// before the first `::`, trimmed, is a name and not empty, and what stands
/// after it is not blank.
pub open spec fn is_annotation(t: Seq<char>) -> bool {
    let sep = find(t, type_mark());
    &&& sep >= 0
    &&& trim(t.take(sep)).len() > 0
    &&& trim(t.skip(sep + 2)).len() > 0
    &&& is_name(trim(t.take(sep)))
}

/// The first line at or after `from` that, trimmed, is an annotation.
pub open spec fn first_annotation(lines: Seq<Seq<char>>, from: int) -> Option<Seq<char>>
    decreases lines.len() - from,
{
    if from < 0 || from >= lines.len() {
        None
    } else if is_annotation(trim(lines[from])) {
        Some(trim(lines[from]))
    } else {
        first_annotation(lines, from + 1)
    }
}

/// The type annotation in a description: its first line of the form
/// `name :: type`, trimmed.
pub open spec fn spec_inline_type_sig(description: Seq<char>) -> Option<Seq<char>> {
    first_annotation(lines(description), 0)
}

/// Whether every character of `v` can stand in a name.
fn all_name_chars(v: &Vec<char>) -> (r: bool)
    ensures
        r == is_name(v@),
{
    let mut i: usize = 0;
    while i < v.len()
        invariant
            i <= v.len(),
            forall|k: int| 0 <= k < i ==> is_name_char(#[trigger] v@[k]),
        decreases v.len() - i,
    {
        let c = v[i];
        if !(is_letter_or_digit(c) || c == '_' || c == '-' || c == '\'') {
            return false;
        }
        i += 1;
    }
    true
}

/// Whether the trimmed line `t` has the form `name :: type`.
pub fn annotation(t: &Vec<char>) -> (r: bool)
    ensures
        r == is_annotation(t@),
{
    let mark: Vec<char> = vec![':', ':'];
    match find_first(t, &mark) {
        Some(sep) => {
            let before = trimmed(&subvec(t, 0, sep));
            let after = trimmed(&subvec(t, sep + 2, t.len()));
            if before.len() == 0 || after.len() == 0 {
                false
            } else {
                all_name_chars(&before)
            }
        },
        None => false,
    }
}

/// Hands `line` back if it has the form `name :: type`. The line is taken as
/// it is: the caller trims it.
pub fn parse_inline_type_line(line: &str) -> (r: Option<&str>)
    ensures
        match r {
            Some(sig) => is_annotation(line@) && sig@ == line@,
            None => !is_annotation(line@),
        },
{
    let t = chars_of(line);
    if annotation(&t) {
        Some(line)
    } else {
        None
    }
}

/// Looks for a type annotation in a description: the first line that, trimmed,
/// has the form `name :: type`. The result is that line, trimmed.
pub fn extract_inline_type_sig(content: &str) -> (r: Option<String>)
    ensures
        match r {
            Some(sig) => spec_inline_type_sig(content@) == Some(sig@),
            None => spec_inline_type_sig(content@) is None,
        },
{
    let v = chars_of(content);
    let ls = split_lines(&v);
    let ghost lv = texts(ls@);
    let mut i: usize = 0;
    while i < ls.len()
        invariant
            i <= ls.len(),
            lv == texts(ls@),
            lv == lines(content@),
            first_annotation(lv, 0) == first_annotation(lv, i as int),
        decreases ls.len() - i,
    {
        let t = trimmed(&ls[i]);
        if annotation(&t) {
            return Some(string_of(&t));
        }
        i += 1;
    }
    None
}

} // verus!
