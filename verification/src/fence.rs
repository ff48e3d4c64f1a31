//! Fenced code blocks: which lines open a fence and which lines close it.
//!
//! A fence is a run of three or more backticks or tildes. It is closed by a
//! run of the same character that is at least as long, so a longer fence can
//! hold shorter ones as plain content. Nothing here keeps state: whether a
//! fence is open is the caller's to remember.

use vstd::prelude::*;
use crate::text::{
    chars_of, leading_ws, lemma_prefix_run, lemma_prefix_run_is, non_ws, only, prefix_run,
    string_of, subvec, trim_start,
};
use crate::unicode::{is_space, is_ws};

verus! {

/// The characters that fences are made of.
pub open spec fn is_marker(c: char) -> bool {
    c == '`' || c == '~'
}

/// The first word of `rest`, if it has one: the language named on a fence.
pub open spec fn info_token(rest: Seq<char>) -> Option<Seq<char>> {
    let t = trim_start(rest);
    let token = t.take(prefix_run(t, non_ws()) as int);
    if token.len() == 0 {
        None
    } else {
        Some(token)
    }
}

/// Whether a line, taken without its leading whitespace, opens a fence, and if
/// so with which character, how long the run is and which language it names.
pub open spec fn fence_open(t: Seq<char>) -> Option<(char, nat, Option<Seq<char>>)> {
    if t.len() >= 3 && is_marker(t[0]) && t[1] == t[0] && t[2] == t[0] {
        let n = prefix_run(t, only(t[0]));
        Some((t[0], n, info_token(t.skip(n as int))))
    } else {
        None
    }
}

/// Whether a line, taken without its leading whitespace, closes a fence of
/// `len` characters `marker`: it starts with at least as many of them and
/// holds nothing after them but spaces.
pub open spec fn closes_fence(t: Seq<char>, marker: char, len: nat) -> bool {
    let n = prefix_run(t, only(marker));
    n >= len && forall|i: int| n <= i < t.len() ==> t[i] == ' '
}

/// A run that is shorter than the fence never closes it, whatever follows.
pub proof fn lemma_short_run_stays_open(t: Seq<char>, marker: char, len: nat)
    requires
        prefix_run(t, only(marker)) < len,
    ensures
        !closes_fence(t, marker, len),
{
}

/// A run of another character never closes a fence.
pub proof fn lemma_other_marker_stays_open(t: Seq<char>, marker: char, len: nat)
    requires
        len > 0,
        t.len() == 0 || t[0] != marker,
    ensures
        !closes_fence(t, marker, len),
{
}

/// A fence has at least three characters, all of them the marker.
pub proof fn lemma_fence_open_run(t: Seq<char>)
    requires
        fence_open(t) is Some,
    ensures
        fence_open(t) matches Some((c, n, _)) && is_marker(c) && 3 <= n <= t.len() && forall|
            i: int,
        | 0 <= i < n ==> t[i] == c,
{
    let c = t[0];
    lemma_prefix_run(t, only(c));
}

/// Number of characters `c` at the start of `v`.
pub fn run_of(v: &Vec<char>, c: char) -> (n: usize)
    ensures
        n == prefix_run(v@, only(c)),
        n <= v.len(),
{
    let mut i: usize = 0;
    while i < v.len() && v[i] == c
        invariant
            i <= v.len(),
            forall|k: int| 0 <= k < i ==> (only(c))(#[trigger] v@[k]),
        decreases v.len() - i,
    {
        i += 1;
    }
    proof {
        lemma_prefix_run_is(v@, only(c), i as int);
    }
    i
}

/// The first word of `rest`, if it has one.
pub fn first_word(rest: &Vec<char>) -> (r: Option<Vec<char>>)
    ensures
        match r {
            Some(w) => info_token(rest@) == Some(w@),
            None => info_token(rest@) is None,
        },
{
    let a = leading_ws(rest);
    let mut b: usize = a;
    while b < rest.len() && !is_space(rest[b])
        invariant
            a <= b <= rest.len(),
            forall|k: int| a <= k < b ==> !is_ws(#[trigger] rest@[k]),
        decreases rest.len() - b,
    {
        b += 1;
    }
    proof {
        let t = trim_start(rest@);
        lemma_prefix_run_is(t, non_ws(), b - a);
    }
    if a == b {
        None
    } else {
        Some(subvec(rest, a, b))
    }
}

/// Whether the line `t`, taken without its leading whitespace, opens a fence.
pub fn opens(t: &Vec<char>) -> (r: Option<(char, usize, Option<Vec<char>>)>)
    ensures
        match r {
            Some((c, n, lang)) => fence_open(t@) == Some(
                (
                    c,
                    n as nat,
                    match lang {
                        Some(l) => Some(l@),
                        None => None,
                    },
                ),
            ),
            None => fence_open(t@) is None,
        },
{
    if t.len() < 3 {
        return None;
    }
    let c = t[0];
    if !(c == '`' || c == '~') || t[1] != c || t[2] != c {
        return None;
    }
    let n = run_of(t, c);
    let rest = subvec(t, n, t.len());
    let lang = first_word(&rest);
    Some((c, n, lang))
}

/// Whether the line `t`, taken without its leading whitespace, closes a fence
/// of `len` characters `marker`.
pub fn closes(t: &Vec<char>, marker: char, len: usize) -> (r: bool)
    ensures
        r == closes_fence(t@, marker, len as nat),
{
    let n = run_of(t, marker);
    if n < len {
        return false;
    }
    let mut i: usize = n;
    while i < t.len()
        invariant
            n <= i <= t.len(),
            n == prefix_run(t@, only(marker)),
            forall|k: int| n <= k < i ==> t@[k] == ' ',
        decreases t.len() - i,
    {
        if t[i] != ' ' {
            return false;
        }
        i += 1;
    }
    true
}

/// Whether `trimmed`, a line without its leading whitespace, opens a fence:
/// the fence character, the length of the run and the language, if one is
/// named.
pub fn parse_fence_open(trimmed: &str) -> (r: Option<(char, usize, Option<String>)>)
    ensures
        match r {
            Some((c, n, lang)) => fence_open(trimmed@) == Some(
                (
                    c,
                    n as nat,
                    match lang {
                        Some(l) => Some(l@),
                        None => None,
                    },
                ),
            ),
            None => fence_open(trimmed@) is None,
        },
{
    let t = chars_of(trimmed);
    match opens(&t) {
        Some((c, n, Some(l))) => Some((c, n, Some(string_of(&l)))),
        Some((c, n, None)) => Some((c, n, None)),
        None => None,
    }
}

/// Whether `trimmed`, a line without its leading whitespace, closes a fence
/// that was opened with `fence_len` characters `fence_char`.
pub fn is_closing_fence(trimmed: &str, fence_char: char, fence_len: usize) -> (r: bool)
    ensures
        r == closes_fence(trimmed@, fence_char, fence_len as nat),
{
    let t = chars_of(trimmed);
    closes(&t, fence_char, fence_len)
}

} // verus!
