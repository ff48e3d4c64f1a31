//! Texts as sequences of characters: runs of a character class, trimming,
//! lines, and the executable helpers that compute them on `Vec<char>`.

use vstd::prelude::*;
use crate::unicode::{is_space, is_ws};

verus! {

/// The class of whitespace characters.
pub open spec fn ws() -> spec_fn(char) -> bool {
    |c: char| is_ws(c)
}

/// The class of characters that are not whitespace.
pub open spec fn non_ws() -> spec_fn(char) -> bool {
    |c: char| !is_ws(c)
}

/// The class that holds `m` alone.
pub open spec fn only(m: char) -> spec_fn(char) -> bool {
    |c: char| c == m
}

/// Length of the longest prefix of `s` whose characters are all in `p`.
pub open spec fn prefix_run(s: Seq<char>, p: spec_fn(char) -> bool) -> nat
    decreases s.len(),
{
    if s.len() > 0 && p(s[0]) {
        1 + prefix_run(s.drop_first(), p)
    } else {
        0
    }
}

/// Length of the longest suffix of `s` whose characters are all in `p`.
pub open spec fn suffix_run(s: Seq<char>, p: spec_fn(char) -> bool) -> nat
    decreases s.len(),
{
    if s.len() > 0 && p(s.last()) {
        1 + suffix_run(s.drop_last(), p)
    } else {
        0
    }
}

/// `s` without its leading whitespace.
pub open spec fn trim_start(s: Seq<char>) -> Seq<char> {
    s.skip(prefix_run(s, ws()) as int)
}

/// `s` without its trailing whitespace.
pub open spec fn trim_end(s: Seq<char>) -> Seq<char> {
    s.take(s.len() - suffix_run(s, ws()))
}

/// `s` without leading and trailing whitespace.
pub open spec fn trim(s: Seq<char>) -> Seq<char> {
    trim_end(trim_start(s))
}

/// A text is blank when nothing is left of it after trimming.
pub open spec fn is_blank(s: Seq<char>) -> bool {
    trim(s).len() == 0
}

/// The pieces of `s` between line feeds. There is always at least one piece,
/// and the last one is what follows the last line feed.
pub open spec fn split(s: Seq<char>) -> Seq<Seq<char>>
    decreases s.len(),
{
    if s.len() == 0 {
        seq![Seq::<char>::empty()]
    } else {
        let p = split(s.drop_last());
        if s.last() == '\n' {
            p.push(Seq::<char>::empty())
        } else {
            p.update(p.len() - 1, p.last().push(s.last()))
        }
    }
}

/// A line without the carriage return that may precede its line feed.
pub open spec fn strip_cr(line: Seq<char>) -> Seq<char> {
    if line.len() > 0 && line.last() == '\r' {
        line.drop_last()
    } else {
        line
    }
}

/// The lines of `s`. Every piece that a line feed ends is a line, without the
/// carriage return before the line feed if there is one. What follows the last
/// line feed is a line only if it is not empty, and is kept as it stands.
pub open spec fn lines(s: Seq<char>) -> Seq<Seq<char>> {
    let p = split(s);
    let ended = Seq::new((p.len() - 1) as nat, |i: int| strip_cr(p[i]));
    if p.last().len() > 0 {
        ended.push(p.last())
    } else {
        ended
    }
}

/// The lines joined by single line feeds.
pub open spec fn join(lines: Seq<Seq<char>>) -> Seq<char>
    decreases lines.len(),
{
    if lines.len() == 0 {
        Seq::<char>::empty()
    } else if lines.len() == 1 {
        lines[0]
    } else {
        join(lines.drop_last()) + seq!['\n'] + lines.last()
    }
}

/// Position of the first occurrence of `pat` in `s` at or after `from`, or -1.
pub open spec fn find_from(s: Seq<char>, pat: Seq<char>, from: int) -> int
    decreases s.len() - from + 1,
{
    if from < 0 || from + pat.len() > s.len() {
        -1
    } else if s.subrange(from, from + pat.len()) == pat {
        from
    } else {
        find_from(s, pat, from + 1)
    }
}

/// Position of the first occurrence of `pat` in `s`, or -1.
pub open spec fn find(s: Seq<char>, pat: Seq<char>) -> int {
    find_from(s, pat, 0)
}

/// The longest prefix in `p` holds characters in `p` only, and what follows
/// it, if anything, is a character outside `p`.
pub proof fn lemma_prefix_run(s: Seq<char>, p: spec_fn(char) -> bool)
    ensures
        prefix_run(s, p) <= s.len(),
        forall|k: int| 0 <= k < prefix_run(s, p) ==> p(#[trigger] s[k]),
        prefix_run(s, p) < s.len() ==> !p(s[prefix_run(s, p) as int]),
    decreases s.len(),
{
    if s.len() > 0 && p(s[0]) {
        let t = s.drop_first();
        lemma_prefix_run(t, p);
        assert forall|k: int| 0 <= k < prefix_run(s, p) implies p(#[trigger] s[k]) by {
            if k > 0 {
                assert(s[k] == t[k - 1]);
            }
        }
    }
}

/// A prefix of `n` characters in `p` that ends the text or is followed by a
/// character outside `p` is the longest one.
pub proof fn lemma_prefix_run_is(s: Seq<char>, p: spec_fn(char) -> bool, n: int)
    requires
        0 <= n <= s.len(),
        forall|k: int| 0 <= k < n ==> p(#[trigger] s[k]),
        n < s.len() ==> !p(s[n]),
    ensures
        prefix_run(s, p) == n,
    decreases n,
{
    if n > 0 {
        let t = s.drop_first();
        lemma_prefix_run_is(t, p, n - 1);
    }
}

/// The longest suffix in `p` holds characters in `p` only, and what stands
/// before it, if anything, is a character outside `p`.
pub proof fn lemma_suffix_run(s: Seq<char>, p: spec_fn(char) -> bool)
    ensures
        suffix_run(s, p) <= s.len(),
        forall|k: int| s.len() - suffix_run(s, p) <= k < s.len() ==> p(#[trigger] s[k]),
        suffix_run(s, p) < s.len() ==> !p(s[s.len() - suffix_run(s, p) - 1]),
    decreases s.len(),
{
    if s.len() > 0 && p(s.last()) {
        let t = s.drop_last();
        lemma_suffix_run(t, p);
        assert forall|k: int| s.len() - suffix_run(s, p) <= k < s.len() implies p(
            #[trigger] s[k],
        ) by {
            if k < s.len() - 1 {
                assert(s[k] == t[k]);
            }
        }
    }
}

/// A suffix of `n` characters in `p` that is the whole text or is preceded by
/// a character outside `p` is the longest one.
pub proof fn lemma_suffix_run_is(s: Seq<char>, p: spec_fn(char) -> bool, n: int)
    requires
        0 <= n <= s.len(),
        forall|k: int| s.len() - n <= k < s.len() ==> p(#[trigger] s[k]),
        n < s.len() ==> !p(s[s.len() - n - 1]),
    ensures
        suffix_run(s, p) == n,
    decreases n,
{
    if n > 0 {
        let t = s.drop_last();
        lemma_suffix_run_is(t, p, n - 1);
    }
}

/// What trimming keeps, by its bounds: the text between the first and the last
/// character that is not whitespace.
pub proof fn lemma_trim_is(s: Seq<char>, a: int, b: int)
    requires
        0 <= a <= b <= s.len(),
        forall|k: int| 0 <= k < a ==> is_ws(#[trigger] s[k]),
        forall|k: int| b <= k < s.len() ==> is_ws(#[trigger] s[k]),
        a < b ==> !is_ws(s[a]) && !is_ws(s[b - 1]),
        a == b ==> a == s.len(),
    ensures
        prefix_run(s, ws()) == a,
        trim_start(s) == s.skip(a),
        trim(s) == s.subrange(a, b),
{
    lemma_prefix_run_is(s, ws(), a);
    let t = s.skip(a);
    lemma_suffix_run_is(t, ws(), s.len() - b);
}

/// The texts that a vector of character vectors holds.
pub open spec fn texts(v: Seq<Vec<char>>) -> Seq<Seq<char>> {
    Seq::new(v.len(), |i: int| v[i]@)
}

/// Collects the characters of `s` into a vector.
pub fn chars_of(s: &str) -> (v: Vec<char>)
    ensures
        v@ == s@,
{
    let mut v: Vec<char> = Vec::new();
    for c in it: s.chars()
        invariant
            it.seq() == s@,
            v@ == s@.take(it.index() as int),
    {
        v.push(c);
    }
    v
}

/// Builds a string from the characters of `v`.
pub fn string_of(v: &Vec<char>) -> (s: String)
    ensures
        s@ == v@,
{
    let mut s = String::new();
    let mut i: usize = 0;
    while i < v.len()
        invariant
            i <= v.len(),
            s@ == v@.take(i as int),
        decreases v.len() - i,
    {
        s.push(v[i]);
        i += 1;
    }
    s
}

/// Appends the characters of `src` to `out`.
pub fn append_chars(out: &mut Vec<char>, src: &Vec<char>)
    ensures
        final(out)@ == old(out)@ + src@,
{
    let mut i: usize = 0;
    while i < src.len()
        invariant
            i <= src.len(),
            out@ == old(out)@ + src@.take(i as int),
        decreases src.len() - i,
    {
        out.push(src[i]);
        i += 1;
    }
}

/// Copies the characters of `v` from position `a` up to `b`.
pub fn subvec(v: &Vec<char>, a: usize, b: usize) -> (r: Vec<char>)
    requires
        a <= b <= v.len(),
    ensures
        r@ == v@.subrange(a as int, b as int),
{
    let mut r: Vec<char> = Vec::new();
    let mut i: usize = a;
    while i < b
        invariant
            a <= i <= b <= v.len(),
            r@ == v@.subrange(a as int, i as int),
        decreases b - i,
    {
        r.push(v[i]);
        i += 1;
    }
    r
}

/// Number of whitespace characters at the start of `v`.
pub fn leading_ws(v: &Vec<char>) -> (n: usize)
    ensures
        n == prefix_run(v@, ws()),
        n <= v.len(),
{
    let mut i: usize = 0;
    while i < v.len() && is_space(v[i])
        invariant
            i <= v.len(),
            forall|k: int| 0 <= k < i ==> is_ws(#[trigger] v@[k]),
        decreases v.len() - i,
    {
        i += 1;
    }
    proof {
        lemma_prefix_run_is(v@, ws(), i as int);
    }
    i
}

/// The bounds of what trimming keeps of `v`.
pub fn trim_bounds(v: &Vec<char>) -> (r: (usize, usize))
    ensures
        r.0 <= r.1 <= v.len(),
        v@.subrange(r.0 as int, r.1 as int) == trim(v@),
        r.0 == prefix_run(v@, ws()),
        r.0 == r.1 <==> is_blank(v@),
{
    let a = leading_ws(v);
    let mut b: usize = v.len();
    proof {
        lemma_prefix_run(v@, ws());
    }
    while b > a && is_space(v[b - 1])
        invariant
            a <= b <= v.len(),
            forall|k: int| b <= k < v.len() ==> is_ws(#[trigger] v@[k]),
        decreases b,
    {
        b -= 1;
    }
    proof {
        lemma_trim_is(v@, a as int, b as int);
    }
    (a, b)
}

/// `v` without leading and trailing whitespace.
pub fn trimmed(v: &Vec<char>) -> (r: Vec<char>)
    ensures
        r@ == trim(v@),
{
    let (a, b) = trim_bounds(v);
    subvec(v, a, b)
}

/// `v` without leading whitespace.
pub fn trimmed_start(v: &Vec<char>) -> (r: Vec<char>)
    ensures
        r@ == trim_start(v@),
{
    let a = leading_ws(v);
    subvec(v, a, v.len())
}

/// Whether `v` holds nothing but whitespace.
pub fn blank(v: &Vec<char>) -> (r: bool)
    ensures
        r == is_blank(v@),
{
    let (a, b) = trim_bounds(v);
    a == b
}

/// Whether `v` begins with `pat`.
pub fn starts_with(v: &Vec<char>, pat: &Vec<char>) -> (r: bool)
    ensures
        r == pat@.is_prefix_of(v@),
{
    if pat.len() > v.len() {
        return false;
    }
    let mut i: usize = 0;
    while i < pat.len()
        invariant
            i <= pat.len() <= v.len(),
            forall|k: int| 0 <= k < i ==> v@[k] == pat@[k],
        decreases pat.len() - i,
    {
        if v[i] != pat[i] {
            return false;
        }
        i += 1;
    }
    true
}

/// Whether `v` ends with `pat`.
pub fn ends_with(v: &Vec<char>, pat: &Vec<char>) -> (r: bool)
    ensures
        r == pat@.is_suffix_of(v@),
{
    if pat.len() > v.len() {
        return false;
    }
    let off: usize = v.len() - pat.len();
    let mut i: usize = 0;
    while i < pat.len()
        invariant
            i <= pat.len() <= v.len(),
            off == v.len() - pat.len(),
            forall|k: int| 0 <= k < i ==> v@[off + k] == pat@[k],
        decreases pat.len() - i,
    {
        if v[off + i] != pat[i] {
            return false;
        }
        i += 1;
    }
    true
}

/// The lines of `v`.
pub fn split_lines(v: &Vec<char>) -> (out: Vec<Vec<char>>)
    ensures
        texts(out@) == lines(v@),
{
    let mut out: Vec<Vec<char>> = Vec::new();
    let mut cur: Vec<char> = Vec::new();
    let mut i: usize = 0;
    while i < v.len()
        invariant
            i <= v.len(),
            split(v@.take(i as int)).len() == out.len() + 1,
            forall|k: int|
                0 <= k < out.len() ==> (#[trigger] out@[k])@ == strip_cr(
                    split(v@.take(i as int))[k],
                ),
            cur@ == split(v@.take(i as int)).last(),
        decreases v.len() - i,
    {
        let c = v[i];
        proof {
            assert(v@.take(i + 1).drop_last() =~= v@.take(i as int));
        }
        if c == '\n' {
            let n = cur.len();
            if n > 0 && cur[n - 1] == '\r' {
                cur.pop();
            }
            out.push(cur);
            cur = Vec::new();
        } else {
            cur.push(c);
        }
        i += 1;
    }
    proof {
        assert(v@.take(i as int) =~= v@);
    }
    if cur.len() > 0 {
        out.push(cur);
    }
    out
}

/// The lines of `lines` from position `a` up to `b`, joined by line feeds.
pub fn join_range(lines: &Vec<Vec<char>>, a: usize, b: usize) -> (out: Vec<char>)
    requires
        a <= b <= lines.len(),
    ensures
        out@ == join(texts(lines@).subrange(a as int, b as int)),
{
    let mut out: Vec<char> = Vec::new();
    let mut k: usize = a;
    while k < b
        invariant
            a <= k <= b <= lines.len(),
            out@ == join(texts(lines@).subrange(a as int, k as int)),
        decreases b - k,
    {
        proof {
            let next = texts(lines@).subrange(a as int, k + 1);
            assert(next.drop_last() =~= texts(lines@).subrange(a as int, k as int));
        }
        if k > a {
            out.push('\n');
        }
        append_chars(&mut out, &lines[k]);
        k += 1;
    }
    out
}

/// Position of the first occurrence of `pat` in `v`, if there is one.
pub fn find_first(v: &Vec<char>, pat: &Vec<char>) -> (r: Option<usize>)
    ensures
        match r {
            Some(i) => find(v@, pat@) == i && i + pat.len() <= v.len(),
            None => find(v@, pat@) == -1,
        },
{
    if pat.len() > v.len() {
        return None;
    }
    let last: usize = v.len() - pat.len();
    let mut i: usize = 0;
    while i <= last
        invariant
            i <= last + 1,
            last == v.len() - pat.len(),
            find(v@, pat@) == find_from(v@, pat@, i as int),
        decreases last + 1 - i,
    {
        let mut j: usize = 0;
        while j < pat.len() && v[i + j] == pat[j]
            invariant
                j <= pat.len(),
                i + pat.len() <= v.len(),
                forall|k: int| 0 <= k < j ==> v@[i + k] == pat@[k],
            decreases pat.len() - j,
        {
            j += 1;
        }
        if j == pat.len() {
            assert(v@.subrange(i as int, i + pat@.len()) =~= pat@);
            return Some(i);
        }
        i += 1;
    }
    None
}

} // verus!
