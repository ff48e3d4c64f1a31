//! Reading the entries of an arguments section.
//!
//! An entry is a line of the form `- [name] description`. Indented lines that
//! follow it continue its description. Every other line is passed over.

use vstd::prelude::*;
use crate::line_laws::{is_trimmed, lemma_trim_shape};
use crate::section::{Argument, ArgumentView};
use crate::text::{
    append_chars, chars_of, find, find_first, lines, split_lines, starts_with, string_of, subvec,
    texts, trim, trimmed,
};
use crate::unicode::{is_space, is_ws};

verus! {

/// What an entry starts with.
pub open spec fn entry_mark() -> Seq<char> {
    seq!['-', ' ', '[']
}

/// What ends the name of an entry.
pub open spec fn name_end() -> Seq<char> {
    seq![']']
}

/// The argument that the trimmed line `t` starts, if it is an entry: it
/// starts with `- [`, a `]` follows, and the name between them is not blank.
/// The description starts with what the line holds after the `]`.
pub open spec fn entry_of(t: Seq<char>) -> Option<ArgumentView> {
    if entry_mark().is_prefix_of(t) {
        let rest = t.skip(3);
        let close = find(rest, name_end());
        if close >= 0 && trim(rest.take(close)).len() > 0 {
            Some(
                ArgumentView {
                    name: trim(rest.take(close)),
                    description: trim(rest.skip(close + 1)),
                },
            )
        } else {
            None
        }
    } else {
        None
    }
}

/// Whether `line` can continue a description: it is indented and not blank.
pub open spec fn is_continuation(line: Seq<char>) -> bool {
    trim(line).len() > 0 && line.len() > 0 && is_ws(line[0])
}

/// A description with `more` added to it, after a space if it was not empty.
pub open spec fn extended(description: Seq<char>, more: Seq<char>) -> Seq<char> {
    if description.len() == 0 {
        more
    } else {
        description + seq![' '] + more
    }
}

/// How far a scan of the lines has come: the arguments that are complete, and
/// the one whose description may still grow.
pub struct ArgScan {
    pub done: Seq<ArgumentView>,
    pub current: Option<ArgumentView>,
}

/// The arguments of a scan once the pending one is completed: its description
/// is trimmed.
pub open spec fn flushed(st: ArgScan) -> Seq<ArgumentView> {
    match st.current {
        Some(a) => st.done.push(
            ArgumentView { name: a.name, description: trim(a.description) },
        ),
        None => st.done,
    }
}

/// The scan after one more line. An entry completes the pending argument and
/// starts the next. A line that starts like an entry but is none changes
/// nothing. A continuation line adds to the pending argument, if there is one.
/// Any other line changes nothing.
pub open spec fn arg_step(st: ArgScan, line: Seq<char>) -> ArgScan {
    let t = trim(line);
    if entry_mark().is_prefix_of(t) {
        match entry_of(t) {
            Some(a) => ArgScan { done: flushed(st), current: Some(a) },
            None => st,
        }
    } else {
        match st.current {
            Some(a) => if is_continuation(line) {
                ArgScan {
                    done: st.done,
                    current: Some(
                        ArgumentView { name: a.name, description: extended(a.description, t) },
                    ),
                }
            } else {
                st
            },
            None => st,
        }
    }
}

/// The scan after the first `n` lines.
pub open spec fn arg_scan(lines: Seq<Seq<char>>, n: int) -> ArgScan
    decreases n,
{
    if n <= 0 {
        ArgScan { done: Seq::empty(), current: None }
    } else {
        arg_step(arg_scan(lines, n - 1), lines[n - 1])
    }
}

/// The arguments that the body of a section lists, in their order.
pub open spec fn spec_arguments(body: Seq<char>) -> Seq<ArgumentView> {
    let ls = lines(body);
    flushed(arg_scan(ls, ls.len() as int))
}

/// Every argument has a name that is not empty, and its name and its
/// description are trimmed.
pub proof fn lemma_arguments_are_named(lines: Seq<Seq<char>>, n: int)
    ensures
        forall|k: int|
            0 <= k < arg_scan(lines, n).done.len() ==> {
                let a = #[trigger] arg_scan(lines, n).done[k];
                a.name.len() > 0 && is_trimmed(a.name) && is_trimmed(a.description)
            },
        arg_scan(lines, n).current matches Some(a) ==> a.name.len() > 0 && is_trimmed(a.name),
        forall|k: int|
            0 <= k < flushed(arg_scan(lines, n)).len() ==> {
                let a = #[trigger] flushed(arg_scan(lines, n))[k];
                a.name.len() > 0 && is_trimmed(a.name) && is_trimmed(a.description)
            },
    decreases n,
{
    if n > 0 {
        lemma_arguments_are_named(lines, n - 1);
        let before = arg_scan(lines, n - 1);
        let t = trim(lines[n - 1]);
        if entry_mark().is_prefix_of(t) && entry_of(t) is Some {
            let rest = t.skip(3);
            lemma_trim_shape(rest.take(find(rest, name_end())));
        }
        match before.current {
            Some(a) => {
                lemma_trim_shape(a.description);
            },
            None => {},
        }
    }
    let st = arg_scan(lines, n);
    match st.current {
        Some(a) => {
            lemma_trim_shape(a.description);
        },
        None => {},
    }
}

/// The pending argument as held by the executable code.
pub open spec fn pending_view(current: Option<(Vec<char>, Vec<char>)>) -> Option<ArgumentView> {
    match current {
        Some((name, description)) => Some(
            ArgumentView { name: name@, description: description@ },
        ),
        None => None,
    }
}

/// Completes the pending argument, if there is one, and adds it to `out`.
fn flush_argument(current: Option<(Vec<char>, Vec<char>)>, out: &mut Vec<Argument>)
    ensures
        final(out).deep_view() == flushed(
            ArgScan { done: old(out).deep_view(), current: pending_view(current) },
        ),
{
    match current {
        Some((name, description)) => {
            let description = trimmed(&description);
            out.push(Argument { name: string_of(&name), description: string_of(&description) });
        },
        None => {},
    }
}

/// Reads the entries of an arguments section from its body.
///
/// A line whose trimmed form is `- [name]` with a name that is not blank,
/// followed by anything, starts an argument; what follows the `]` on that
/// line starts its description. Later lines that are indented and not blank
/// are added to the description, each after a space. A line that starts with
/// `- [` but has no name is passed over, and so is every other line.
pub fn parse_arguments(content: &str) -> (arguments: Vec<Argument>)
    ensures
        arguments.deep_view() == spec_arguments(content@),
{
    let v = chars_of(content);
    let ls = split_lines(&v);
    let ghost lv = texts(ls@);
    let mark: Vec<char> = vec!['-', ' ', '['];
    let close_mark: Vec<char> = vec![']'];
    let mut arguments: Vec<Argument> = Vec::new();
    let mut current: Option<(Vec<char>, Vec<char>)> = None;
    let mut i: usize = 0;
    while i < ls.len()
        invariant
            i <= ls.len(),
            lv == texts(ls@),
            mark@ == entry_mark(),
            close_mark@ == name_end(),
            arguments.deep_view() == arg_scan(lv, i as int).done,
            pending_view(current) == arg_scan(lv, i as int).current,
        decreases ls.len() - i,
    {
        let line = &ls[i];
        let t = trimmed(line);
        if starts_with(&t, &mark) {
            let rest = subvec(&t, 3, t.len());
            match find_first(&rest, &close_mark) {
                Some(close) => {
                    let name = trimmed(&subvec(&rest, 0, close));
                    if name.len() > 0 {
                        flush_argument(current, &mut arguments);
                        let description = trimmed(&subvec(&rest, close + 1, rest.len()));
                        current = Some((name, description));
                    }
                },
                None => {},
            }
        } else if t.len() > 0 && line.len() > 0 && is_space(line[0]) {
            match current {
                Some((name, mut description)) => {
                    let ghost before = description@;
                    if description.len() > 0 {
                        description.push(' ');
                    }
                    append_chars(&mut description, &t);
                    assert(description@ =~= extended(before, t@));
                    current = Some((name, description));
                },
                None => {},
            }
        }
        i += 1;
    }
    flush_argument(current, &mut arguments);
    arguments
}

} // verus!
