//! Normalizing the inside of a comment: the indentation that all lines share
//! is taken away, and so are blank lines and whitespace around the whole.

use vstd::prelude::*;
use crate::line_laws::{
    has_crlf, is_one_line, is_trimmed, lemma_blank_iff, lemma_crlf_piece, lemma_join_len,
    lemma_join_split, lemma_no_crlf_pieces, lemma_pieces_are_lines, lemma_split_add,
    lemma_split_first, lemma_split_first_empty, lemma_split_join, lemma_split_last,
    lemma_trim_fixed, lemma_trim_shape,
};
use crate::text::{
    chars_of, is_blank, join, join_range, lemma_prefix_run, lines, prefix_run, split,
    split_lines, string_of, strip_cr, subvec, texts, trim, trim_bounds, trimmed, ws,
};
use crate::unicode::is_ws;

verus! {

/// Number of whitespace characters that `line` starts with.
pub open spec fn indent(line: Seq<char>) -> nat {
    prefix_run(line, ws())
}

/// The smaller of two numbers.
pub open spec fn least(a: nat, b: nat) -> nat {
    if a <= b {
        a
    } else {
        b
    }
}

/// The smallest indent among the lines that are not blank, if there is such a
/// line.
pub open spec fn least_indent(lines: Seq<Seq<char>>) -> Option<nat>
    decreases lines.len(),
{
    if lines.len() == 0 {
        None
    } else {
        let rest = least_indent(lines.drop_last());
        if is_blank(lines.last()) {
            rest
        } else {
            match rest {
                Some(m) => Some(least(m, indent(lines.last()))),
                None => Some(indent(lines.last())),
            }
        }
    }
}

/// The indent that all lines share: the smallest one among the lines that are
/// not blank, and 0 where every line is blank.
pub open spec fn common_indent(lines: Seq<Seq<char>>) -> nat {
    match least_indent(lines) {
        Some(m) => m,
        None => 0,
    }
}

/// A line without its first `n` characters; a blank line becomes empty.
pub open spec fn dedent(line: Seq<char>, n: nat) -> Seq<char> {
    if is_blank(line) {
        Seq::empty()
    } else {
        line.skip(n as int)
    }
}

/// Every line without its first `n` characters.
pub open spec fn dedent_all(lines: Seq<Seq<char>>, n: nat) -> Seq<Seq<char>> {
    Seq::new(lines.len(), |i: int| dedent(lines[i], n))
}

/// The normal form of a text: its lines without their common indent, joined
/// again and trimmed.
pub open spec fn spec_normalize(s: Seq<char>) -> Seq<char> {
    let ls = lines(s);
    trim(join(dedent_all(ls, common_indent(ls))))
}

/// The least indent is the indent of a line that is not blank, and no such
/// line has a smaller one. There is none exactly if every line is blank.
pub proof fn lemma_least_indent(lines: Seq<Seq<char>>)
    ensures
        match least_indent(lines) {
            Some(m) => {
                &&& forall|i: int|
                    0 <= i < lines.len() && !is_blank(#[trigger] lines[i]) ==> m <= indent(
                        lines[i],
                    )
                &&& exists|i: int|
                    0 <= i < lines.len() && !is_blank(#[trigger] lines[i]) && indent(lines[i])
                        == m
            },
            None => forall|i: int| 0 <= i < lines.len() ==> is_blank(#[trigger] lines[i]),
        },
    decreases lines.len(),
{
    if lines.len() > 0 {
        let front = lines.drop_last();
        lemma_least_indent(front);
        assert forall|i: int| 0 <= i < front.len() implies front[i] == lines[i] by {}
    }
}

/// Whether every blank line among `ls` is empty.
pub open spec fn blank_lines_are_empty(ls: Seq<Seq<char>>) -> bool {
    forall|k: int| 0 <= k < ls.len() && is_blank(#[trigger] ls[k]) ==> ls[k].len() == 0
}

/// Whether a text is in normal form: it is trimmed, and between two of its
/// line feeds there is either nothing or something other than whitespace.
pub open spec fn is_normal(t: Seq<char>) -> bool {
    is_trimmed(t) && blank_lines_are_empty(split(t))
}

/// No line of a text holds a line feed.
pub proof fn lemma_lines_are_lines(s: Seq<char>)
    ensures
        forall|k: int| 0 <= k < lines(s).len() ==> is_one_line(#[trigger] lines(s)[k]),
{
    lemma_pieces_are_lines(s);
}

/// Taking the common indent away leaves lines without line feeds, each of
/// them empty or not blank.
pub proof fn lemma_dedent_all(ls: Seq<Seq<char>>)
    requires
        forall|k: int| 0 <= k < ls.len() ==> is_one_line(#[trigger] ls[k]),
    ensures
        forall|k: int|
            0 <= k < ls.len() ==> is_one_line(#[trigger] dedent_all(ls, common_indent(ls))[k]),
        blank_lines_are_empty(dedent_all(ls, common_indent(ls))),
{
    let m = common_indent(ls);
    let d = dedent_all(ls, m);
    lemma_least_indent(ls);
    assert forall|k: int| 0 <= k < ls.len() implies is_one_line(#[trigger] d[k]) && (is_blank(
        d[k],
    ) ==> d[k].len() == 0) by {
        let line = ls[k];
        if !is_blank(line) {
            lemma_prefix_run(line, ws());
            let rest = line.skip(m as int);
            lemma_blank_iff(line);
            lemma_blank_iff(rest);
            if is_blank(rest) {
                assert forall|i: int| 0 <= i < line.len() implies is_ws(#[trigger] line[i]) by {
                    if i >= m {
                        assert(line[i] == rest[i - m]);
                    }
                }
            }
        }
    }
}

/// What normalizing gives is in normal form.
pub proof fn lemma_normalize_is_normal(s: Seq<char>)
    ensures
        is_normal(spec_normalize(s)),
{
    let ls = lines(s);
    let d = dedent_all(ls, common_indent(ls));
    let j = join(d);
    let t = trim(j);
    lemma_lines_are_lines(s);
    lemma_dedent_all(ls);
    let (a, b) = lemma_trim_shape(j);
    let pieces = split(t);
    if t.len() > 0 {
        lemma_split_join(d);
        let pre = j.take(a);
        let post = j.skip(b);
        assert(j =~= pre + (t + post));
        lemma_split_add(t, post);
        lemma_split_add(pre, t + post);
        lemma_split_first(t);
        lemma_split_first_empty(t);
        lemma_split_last(t);
        let base = split(pre).len() - 1;
        assert forall|k: int| 0 <= k < pieces.len() && is_blank(
            #[trigger] pieces[k],
        ) implies pieces[k].len() == 0 by {
            lemma_blank_iff(pieces[k]);
            if 0 < k < pieces.len() - 1 {
                assert(d[base + k] == pieces[k]);
            }
        }
    }
}

/// Normalizing leaves a text in normal form as it is, unless a carriage return
/// stands before one of its line feeds.
pub proof fn lemma_normal_is_fixed(t: Seq<char>)
    requires
        is_normal(t),
        !has_crlf(t),
    ensures
        spec_normalize(t) == t,
{
    let pieces = split(t);
    let ls = lines(t);
    lemma_split_last(t);
    lemma_trim_fixed(t);
    if t.len() > 0 {
        lemma_no_crlf_pieces(t);
        assert(ls =~= pieces);
        lemma_split_first(t);
        lemma_split_first_empty(t);
        lemma_blank_iff(pieces[0]);
        lemma_least_indent(pieces);
        assert forall|k: int| 0 <= k < pieces.len() implies dedent(pieces[k], 0) == pieces[k] by {}
        assert(dedent_all(pieces, 0) =~= pieces);
        lemma_join_split(t);
    }
}

/// Normalizing a trimmed text in which a carriage return stands before a line
/// feed makes it shorter: the line before that line feed loses the carriage
/// return.
pub proof fn lemma_crlf_is_lost(t: Seq<char>)
    requires
        is_trimmed(t),
        has_crlf(t),
    ensures
        spec_normalize(t).len() < t.len(),
{
    let pieces = split(t);
    let ls = lines(t);
    let d = dedent_all(ls, common_indent(ls));
    lemma_split_last(t);
    lemma_join_split(t);
    let k = lemma_crlf_piece(t);
    assert forall|i: int| 0 <= i < ls.len() implies (#[trigger] ls[i]).len() <= pieces[i].len() by {}
    assert(ls[k].len() < pieces[k].len());
    lemma_join_len(ls, pieces);
    lemma_least_indent(ls);
    assert forall|i: int| 0 <= i < d.len() implies (#[trigger] d[i]).len() <= ls[i].len() by {
        if !is_blank(ls[i]) {
            lemma_prefix_run(ls[i], ws());
        }
    }
    lemma_join_len(d, ls);
    lemma_trim_shape(join(d));
}

/// Normalizing twice is normalizing once: what is normalized already comes
/// back unchanged. The one exception is a text whose normal form holds a
/// carriage return right before a line feed, because a line loses that
/// carriage return each time the text is split into lines.
pub proof fn lemma_normalize_idempotent(s: Seq<char>)
    requires
        !has_crlf(spec_normalize(s)),
    ensures
        spec_normalize(spec_normalize(s)) == spec_normalize(s),
{
    lemma_normalize_is_normal(s);
    lemma_normal_is_fixed(spec_normalize(s));
}

/// Where the normal form of a text holds a carriage return right before a
/// line feed, normalizing it once more changes it.
pub proof fn lemma_normalize_drops_crlf(s: Seq<char>)
    requires
        has_crlf(spec_normalize(s)),
    ensures
        spec_normalize(spec_normalize(s)) != spec_normalize(s),
{
    lemma_normalize_is_normal(s);
    lemma_crlf_is_lost(spec_normalize(s));
}

/// The normal form of the text `v`.
pub fn normalized(v: &Vec<char>) -> (r: Vec<char>)
    ensures
        r@ == spec_normalize(v@),
        is_normal(r@),
{
    proof {
        lemma_normalize_is_normal(v@);
    }
    let ls = split_lines(v);
    let ghost lv = texts(ls@);
    let mut floor: Option<usize> = None;
    let mut i: usize = 0;
    while i < ls.len()
        invariant
            i <= ls.len(),
            lv == texts(ls@),
            match floor {
                Some(m) => least_indent(lv.take(i as int)) == Some(m as nat),
                None => least_indent(lv.take(i as int)) is None,
            },
        decreases ls.len() - i,
    {
        proof {
            assert(lv.take(i + 1).drop_last() =~= lv.take(i as int));
        }
        let (a, b) = trim_bounds(&ls[i]);
        if a != b {
            floor =
            match floor {
                Some(m) => Some(
                    if a < m {
                        a
                    } else {
                        m
                    },
                ),
                None => Some(a),
            };
        }
        i += 1;
    }
    proof {
        assert(lv.take(i as int) =~= lv);
        lemma_least_indent(lv);
    }
    let n: usize = match floor {
        Some(m) => m,
        None => 0,
    };
    let mut out: Vec<Vec<char>> = Vec::new();
    let mut k: usize = 0;
    while k < ls.len()
        invariant
            k <= ls.len(),
            out.len() == k,
            lv == texts(ls@),
            n == common_indent(lv),
            forall|j: int|
                0 <= j < lv.len() && !is_blank(#[trigger] lv[j]) ==> n <= indent(lv[j]),
            forall|j: int| 0 <= j < k ==> (#[trigger] out@[j])@ == dedent(lv[j], n as nat),
        decreases ls.len() - k,
    {
        let line = &ls[k];
        assert(line@ == lv[k as int]);
        let (a, b) = trim_bounds(line);
        if a == b {
            out.push(Vec::new());
        } else {
            proof {
                lemma_prefix_run(line@, ws());
            }
            out.push(subvec(line, n, line.len()));
        }
        k += 1;
    }
    proof {
        assert(texts(out@) =~= dedent_all(lv, n as nat));
        assert(texts(out@).subrange(0, out.len() as int) =~= texts(out@));
    }
    let joined = join_range(&out, 0, out.len());
    trimmed(&joined)
}

/// Normalizes the inside of a comment: the text between `/**` and `*/`.
///
/// The text is split into lines. The smallest number of whitespace characters
/// that a line which is not blank starts with is the common indent; that many
/// characters are taken from the start of every such line, and blank lines
/// become empty. The lines are joined again and the result is trimmed.
pub fn normalize(content: &str) -> (r: String)
    ensures
        r@ == spec_normalize(content@),
        is_normal(r@),
{
    let v = chars_of(content);
    let r = normalized(&v);
    string_of(&r)
}

} // verus!
