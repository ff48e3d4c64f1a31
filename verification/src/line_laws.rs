//! Laws of trimming, of splitting a text at its line feeds and of joining
//! lines: what the proofs about whole texts rest on.

use vstd::prelude::*;
use crate::text::{
    is_blank, join, lemma_prefix_run, lemma_suffix_run, lemma_trim_is, lines, prefix_run, split,
    strip_cr, suffix_run, trim, ws,
};
use crate::unicode::is_ws;

verus! {

/// Whether `line` holds no line feed.
pub open spec fn is_one_line(line: Seq<char>) -> bool {
    forall|i: int| 0 <= i < line.len() ==> #[trigger] line[i] != '\n'
}

/// Whether a carriage return stands right before a line feed somewhere in `t`.
pub open spec fn has_crlf(t: Seq<char>) -> bool {
    exists|i: int| 0 <= i < t.len() - 1 && #[trigger] t[i] == '\r' && t[i + 1] == '\n'
}

/// Whether `t` is empty or starts and ends with a character that is not
/// whitespace.
pub open spec fn is_trimmed(t: Seq<char>) -> bool {
    t.len() == 0 || (!is_ws(t[0]) && !is_ws(t.last()))
}

/// What trimming takes away is whitespace at both ends, and what it keeps is
/// trimmed.
pub proof fn lemma_trim_shape(x: Seq<char>) -> (r: (int, int))
    ensures
        0 <= r.0 <= r.1 <= x.len(),
        trim(x) == x.subrange(r.0, r.1),
        forall|k: int| 0 <= k < r.0 ==> is_ws(#[trigger] x[k]),
        forall|k: int| r.1 <= k < x.len() ==> is_ws(#[trigger] x[k]),
        is_trimmed(trim(x)),
        r.0 == r.1 ==> r.0 == x.len(),
{
    lemma_prefix_run(x, ws());
    let a = prefix_run(x, ws()) as int;
    let t = x.skip(a);
    lemma_suffix_run(t, ws());
    let n = suffix_run(t, ws()) as int;
    let b = x.len() - n;
    assert forall|k: int| b <= k < x.len() implies is_ws(#[trigger] x[k]) by {
        assert((ws())(t[k - a]));
    }
    (a, b)
}

/// Trimming leaves a trimmed text as it is.
pub proof fn lemma_trim_fixed(t: Seq<char>)
    requires
        is_trimmed(t),
    ensures
        trim(t) == t,
{
    lemma_trim_is(t, 0, t.len() as int);
}

/// Trimming twice is trimming once.
pub proof fn lemma_trim_idempotent(x: Seq<char>)
    ensures
        trim(trim(x)) == trim(x),
{
    lemma_trim_shape(x);
    lemma_trim_fixed(trim(x));
}

/// A text is blank exactly if all its characters are whitespace.
pub proof fn lemma_blank_iff(x: Seq<char>)
    ensures
        is_blank(x) <==> forall|i: int| 0 <= i < x.len() ==> is_ws(#[trigger] x[i]),
{
    lemma_trim_shape(x);
}

/// No piece of a text holds a line feed.
pub proof fn lemma_pieces_are_lines(s: Seq<char>)
    ensures
        split(s).len() >= 1,
        forall|k: int| 0 <= k < split(s).len() ==> is_one_line(#[trigger] split(s)[k]),
    decreases s.len(),
{
    if s.len() > 0 {
        let front = s.drop_last();
        lemma_pieces_are_lines(front);
    }
}

/// The last piece of a text is empty exactly if the text is empty or ends
/// with a line feed; otherwise it ends as the text does.
pub proof fn lemma_split_last(s: Seq<char>)
    ensures
        split(s).len() >= 1,
        split(s).last().len() == 0 <==> (s.len() == 0 || s.last() == '\n'),
        split(s).last().len() > 0 ==> split(s).last().last() == s.last(),
    decreases s.len(),
{
    if s.len() > 0 {
        lemma_split_last(s.drop_last());
    }
}

/// The first piece of a text is where the text starts, and is all of it where
/// there is only one piece.
pub proof fn lemma_split_first(s: Seq<char>)
    ensures
        split(s).len() >= 1,
        split(s)[0].is_prefix_of(s),
        split(s).len() == 1 ==> split(s)[0] == s,
    decreases s.len(),
{
    if s.len() > 0 {
        let front = s.drop_last();
        lemma_split_first(front);
    }
}

/// The first line of a text is where the text starts.
pub proof fn lemma_first_line(s: Seq<char>)
    requires
        lines(s).len() > 0,
    ensures
        lines(s)[0].is_prefix_of(s),
{
    lemma_split_first(s);
}

/// The first piece of a text is empty only if the text is empty or starts
/// with a line feed.
pub proof fn lemma_split_first_empty(s: Seq<char>)
    ensures
        split(s).len() >= 1,
        split(s)[0].len() == 0 ==> s.len() == 0 || s[0] == '\n',
    decreases s.len(),
{
    if s.len() > 0 {
        lemma_split_first_empty(s.drop_last());
    }
}

/// Splitting two texts put together: the pieces of the first, then its last
/// piece with the first piece of the second added, then the other pieces of
/// the second.
pub proof fn lemma_split_add(x: Seq<char>, y: Seq<char>)
    ensures
        split(x).len() >= 1,
        split(y).len() >= 1,
        split(x + y) == split(x).drop_last() + seq![split(x).last() + split(y)[0]] + split(
            y,
        ).drop_first(),
    decreases y.len(),
{
    lemma_split_last(x);
    lemma_split_last(y);
    if y.len() > 0 {
        let front = y.drop_last();
        lemma_split_add(x, front);
        lemma_split_last(front);
        assert((x + y).drop_last() =~= x + front);
    }
}

/// A text without a line feed is its own single piece.
pub proof fn lemma_split_one_line(x: Seq<char>)
    requires
        is_one_line(x),
    ensures
        split(x) == seq![x],
    decreases x.len(),
{
    if x.len() > 0 {
        let front = x.drop_last();
        lemma_split_one_line(front);
        assert(front.push(x.last()) =~= x);
    } else {
        assert(x =~= Seq::<char>::empty());
    }
}

/// A line feed and then a line are two pieces: an empty one and the line.
pub proof fn lemma_split_after_newline(x: Seq<char>)
    requires
        is_one_line(x),
    ensures
        split(seq!['\n'] + x) == seq![Seq::<char>::empty(), x],
{
    let nl = seq!['\n'];
    let e = Seq::<char>::empty();
    lemma_split_one_line(x);
    assert(nl.drop_last() =~= e);
    assert(split(nl) == split(e).push(e));
    lemma_split_add(nl, x);
}

/// Joining the pieces of a text gives the text back.
pub proof fn lemma_join_split(s: Seq<char>)
    ensures
        join(split(s)) == s,
    decreases s.len(),
{
    if s.len() > 0 {
        let front = s.drop_last();
        let c = s.last();
        lemma_join_split(front);
        lemma_split_last(front);
        let p = split(front);
        if c == '\n' {
            assert(p.push(Seq::<char>::empty()).drop_last() =~= p);
        } else if p.len() > 1 {
            assert(p.update(p.len() - 1, p.last().push(c)).drop_last() =~= p.drop_last());
            assert(join(p).push(c) =~= s);
        }
    }
}

/// Splitting what was joined gives the lines back, if there is at least one
/// line and none of them holds a line feed.
pub proof fn lemma_split_join(ls: Seq<Seq<char>>)
    requires
        ls.len() > 0,
        forall|i: int| 0 <= i < ls.len() ==> is_one_line(#[trigger] ls[i]),
    ensures
        split(join(ls)) == ls,
    decreases ls.len(),
{
    if ls.len() == 1 {
        lemma_split_one_line(ls[0]);
    } else {
        let front = ls.drop_last();
        let x = ls.last();
        lemma_split_join(front);
        let nl = seq!['\n'];
        let j = join(front);
        lemma_split_after_newline(x);
        lemma_split_add(j, nl + x);
        assert(join(ls) =~= j + (nl + x));
    }
}

/// In a text without a carriage return before a line feed, no piece but the
/// last can end with a carriage return.
pub proof fn lemma_no_crlf_pieces(t: Seq<char>)
    requires
        !has_crlf(t),
    ensures
        forall|k: int|
            0 <= k < split(t).len() - 1 ==> strip_cr(#[trigger] split(t)[k]) == split(t)[k],
    decreases t.len(),
{
    if t.len() > 0 {
        let front = t.drop_last();
        lemma_no_crlf_pieces(front);
        lemma_split_last(front);
    }
}

/// In a text with a carriage return before a line feed, a piece other than
/// the last ends with a carriage return.
pub proof fn lemma_crlf_piece(t: Seq<char>) -> (k: int)
    requires
        has_crlf(t),
    ensures
        0 <= k < split(t).len() - 1,
        split(t)[k].len() > 0,
        split(t)[k].last() == '\r',
    decreases t.len(),
{
    let i = choose|i: int| 0 <= i < t.len() - 1 && #[trigger] t[i] == '\r' && t[i + 1] == '\n';
    let front = t.drop_last();
    let p = split(front);
    lemma_split_last(front);
    if i + 1 < t.len() - 1 {
        assert(front[i] == '\r' && front[i + 1] == '\n');
        let k = lemma_crlf_piece(front);
        k
    } else {
        p.len() - 1
    }
}

/// Joined lines are no longer than other joined lines if there are as many of
/// them and none is longer than the one in its place; and they are shorter
/// if one of them is shorter.
pub proof fn lemma_join_len(xs: Seq<Seq<char>>, ys: Seq<Seq<char>>)
    requires
        xs.len() == ys.len(),
        forall|k: int| 0 <= k < xs.len() ==> (#[trigger] xs[k]).len() <= ys[k].len(),
    ensures
        join(xs).len() <= join(ys).len(),
        (exists|k: int| 0 <= k < xs.len() && (#[trigger] xs[k]).len() < ys[k].len()) ==> join(
            xs,
        ).len() < join(ys).len(),
    decreases xs.len(),
{
    if xs.len() > 1 {
        let xf = xs.drop_last();
        let yf = ys.drop_last();
        lemma_join_len(xf, yf);
        let last = xs.len() - 1;
        if exists|k: int| 0 <= k < xs.len() && (#[trigger] xs[k]).len() < ys[k].len() {
            let k = choose|k: int| 0 <= k < xs.len() && (#[trigger] xs[k]).len() < ys[k].len();
            if k < last {
                assert(xf[k] == xs[k]);
            }
        }
    }
}

} // verus!
