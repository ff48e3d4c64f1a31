//! Splitting the lines of a normalized comment into the description and the
//! sections that follow it.
//!
//! A heading is a line that starts with `# ` in its first column, has text
//! after that, and does not stand inside a fenced code block. Whether a fence
//! is open is decided line by line, before the line is looked at as a heading.

use vstd::prelude::*;
use crate::error::{empty_section_warning, ParseWarning};
use crate::fence::{
    closes, closes_fence, fence_open, is_marker, lemma_fence_open_run, lemma_short_run_stays_open,
    opens,
};
use crate::line_laws::{is_trimmed, lemma_trim_shape};
use crate::section::{Section, SectionView};
use crate::text::{
    chars_of, join, join_range, lemma_prefix_run_is, lines, only, prefix_run, split_lines,
    starts_with, string_of, subvec, texts, trim, trim_start, trimmed, trimmed_start, ws,
};
use crate::warnings::empty_warnings;

verus! {

/// What a heading line starts with.
pub open spec fn heading_mark() -> Seq<char> {
    seq!['#', ' ']
}

/// The fence that is open after `line`, given the one that was open before it:
/// its character and its length.
pub open spec fn fence_step(state: Option<(char, nat)>, line: Seq<char>) -> Option<(char, nat)> {
    let t = trim_start(line);
    match state {
        None => match fence_open(t) {
            Some((c, n, _)) => Some((c, n)),
            None => None,
        },
        Some((c, n)) => if closes_fence(t, c, n) {
            None
        } else {
            state
        },
    }
}

/// The fence that is open after the first `n` lines.
pub open spec fn fence_after(lines: Seq<Seq<char>>, n: int) -> Option<(char, nat)>
    decreases n,
{
    if n <= 0 {
        None
    } else {
        fence_step(fence_after(lines, n - 1), lines[n - 1])
    }
}

/// The heading that `line` holds, if it has the form of a heading.
pub open spec fn heading_text(line: Seq<char>) -> Option<Seq<char>> {
    if heading_mark().is_prefix_of(line) && trim(line.skip(2)).len() > 0 {
        Some(trim(line.skip(2)))
    } else {
        None
    }
}

/// Whether line `i` is a heading: it has the form of one and no fence is open
/// once the line itself has been taken into account.
pub open spec fn is_heading(lines: Seq<Seq<char>>, i: int) -> bool {
    fence_after(lines, i + 1) is None && heading_text(lines[i]) is Some
}

/// The positions of the headings among the first `n` lines, in rising order.
pub open spec fn headings(lines: Seq<Seq<char>>, n: int) -> Seq<int>
    decreases n,
{
    if n <= 0 {
        Seq::empty()
    } else if is_heading(lines, n - 1) {
        headings(lines, n - 1).push(n - 1)
    } else {
        headings(lines, n - 1)
    }
}

/// The lines from `from` up to `to`, joined and trimmed.
pub open spec fn body_text(lines: Seq<Seq<char>>, from: int, to: int) -> Seq<char> {
    trim(join(lines.subrange(from, to)))
}

/// Where the body of the section under heading `j` ends: at the next heading,
/// or at the end of the text.
pub open spec fn body_end(lines: Seq<Seq<char>>, hs: Seq<int>, j: int) -> int {
    if j + 1 < hs.len() {
        hs[j + 1]
    } else {
        lines.len() as int
    }
}

/// The section under heading `j`, the headings being at the positions `hs`.
pub open spec fn section_at(lines: Seq<Seq<char>>, hs: Seq<int>, j: int) -> SectionView {
    SectionView {
        heading: heading_text(lines[hs[j]]).unwrap(),
        content: body_text(lines, hs[j] + 1, body_end(lines, hs, j)),
    }
}

/// The sections under the first `m` of the headings at `hs`.
pub open spec fn sections_upto(lines: Seq<Seq<char>>, hs: Seq<int>, m: int) -> Seq<SectionView> {
    Seq::new(m as nat, |j: int| section_at(lines, hs, j))
}

/// The sections of a text with the lines `lines`: one for each heading, in the
/// order of the headings.
pub open spec fn spec_sections(lines: Seq<Seq<char>>) -> Seq<SectionView> {
    let hs = headings(lines, lines.len() as int);
    sections_upto(lines, hs, hs.len() as int)
}

/// Where the description ends: at the first heading, or at the end of the
/// text where there is no heading.
pub open spec fn description_end(lines: Seq<Seq<char>>) -> int {
    let hs = headings(lines, lines.len() as int);
    if hs.len() > 0 {
        hs[0]
    } else {
        lines.len() as int
    }
}

/// The description of a text with the lines `lines`: what stands before the
/// first heading, or all of it where there is no heading.
pub open spec fn spec_description(lines: Seq<Seq<char>>) -> Seq<char> {
    body_text(lines, 0, description_end(lines))
}

/// The headings among the first `n` lines are exactly the lines before `n`
/// that are headings, each once and in rising order.
pub proof fn lemma_headings(lines: Seq<Seq<char>>, n: int)
    ensures
        forall|k: int|
            0 <= k < headings(lines, n).len() ==> 0 <= #[trigger] headings(lines, n)[k] < n
                && is_heading(lines, headings(lines, n)[k]),
        forall|k: int, l: int|
            0 <= k < l < headings(lines, n).len() ==> headings(lines, n)[k] < headings(lines, n)[l],
        forall|i: int| 0 <= i < n && is_heading(lines, i) ==> headings(lines, n).contains(i),
    decreases n,
{
    if n > 0 {
        lemma_headings(lines, n - 1);
        let prev = headings(lines, n - 1);
        let hs = headings(lines, n);
        assert forall|i: int| 0 <= i < n && is_heading(lines, i) implies hs.contains(i) by {
            if i < n - 1 {
                let k = choose|k: int| 0 <= k < prev.len() && prev[k] == i;
                assert(hs[k] == i);
            } else {
                assert(hs[hs.len() - 1] == i);
            }
        }
    }
}

/// A line that leaves a fence open is never a heading, whatever it starts
/// with: no section begins at it.
pub proof fn lemma_fenced_line_is_no_heading(lines: Seq<Seq<char>>, i: int)
    requires
        0 <= i < lines.len(),
        fence_after(lines, i + 1) is Some,
    ensures
        !is_heading(lines, i),
        !headings(lines, lines.len() as int).contains(i),
{
    lemma_headings(lines, lines.len() as int);
}

/// Inside a fence of `n` characters `c`, a line whose run of `c` is shorter
/// than `n` is plain content: the fence stays open as it was, and the line is
/// no heading.
pub proof fn lemma_short_run_is_content(lines: Seq<Seq<char>>, i: int, c: char, n: nat)
    requires
        0 <= i < lines.len(),
        fence_after(lines, i) == Some((c, n)),
        prefix_run(trim_start(lines[i]), only(c)) < n,
    ensures
        fence_after(lines, i + 1) == Some((c, n)),
        !is_heading(lines, i),
        !headings(lines, lines.len() as int).contains(i),
{
    lemma_short_run_stays_open(trim_start(lines[i]), c, n);
    lemma_fenced_line_is_no_heading(lines, i);
}

/// A fence that is open is made of three or more backticks or tildes.
pub proof fn lemma_open_fence_shape(lines: Seq<Seq<char>>, i: int)
    requires
        0 <= i <= lines.len(),
    ensures
        fence_after(lines, i) matches Some((c, n)) ==> is_marker(c) && n >= 3,
    decreases i,
{
    if i > 0 {
        lemma_open_fence_shape(lines, i - 1);
        let t = trim_start(lines[i - 1]);
        if fence_after(lines, i - 1) is None && fence_open(t) is Some {
            lemma_fence_open_run(t);
        }
    }
}

/// A line that starts with `#` while a fence is open is code: the fence stays
/// open as it was, and no section begins at the line.
pub proof fn lemma_hash_in_fence_is_code(lines: Seq<Seq<char>>, i: int)
    requires
        0 <= i < lines.len(),
        fence_after(lines, i) is Some,
        lines[i].len() > 0,
        lines[i][0] == '#',
    ensures
        fence_after(lines, i + 1) == fence_after(lines, i),
        !is_heading(lines, i),
        !headings(lines, lines.len() as int).contains(i),
{
    lemma_open_fence_shape(lines, i);
    match fence_after(lines, i) {
        Some((c, n)) => {
            lemma_prefix_run_is(lines[i], ws(), 0);
            lemma_prefix_run_is(lines[i], only(c), 0);
            lemma_short_run_is_content(lines, i, c, n);
        },
        None => {},
    }
}

/// The sections stand in the order of their headings in the text: section
/// `j` carries the text of the `j`-th heading line, which is not empty, and
/// its body is what stands between that line and the next heading. Headings
/// and bodies are trimmed.
pub proof fn lemma_sections_follow_headings(lines: Seq<Seq<char>>)
    ensures
        spec_sections(lines).len() == headings(lines, lines.len() as int).len(),
        forall|j: int|
            0 <= j < spec_sections(lines).len() ==> {
                let hs = headings(lines, lines.len() as int);
                let section = #[trigger] spec_sections(lines)[j];
                &&& 0 <= hs[j] < body_end(lines, hs, j) <= lines.len()
                &&& is_heading(lines, hs[j])
                &&& section.heading == heading_text(lines[hs[j]]).unwrap()
                &&& section.content == body_text(lines, hs[j] + 1, body_end(lines, hs, j))
                &&& section.heading.len() > 0
                &&& is_trimmed(section.heading)
                &&& is_trimmed(section.content)
            },
        is_trimmed(spec_description(lines)),
{
    lemma_headings(lines, lines.len() as int);
    let hs = headings(lines, lines.len() as int);
    assert forall|j: int| 0 <= j < spec_sections(lines).len() implies {
        let section = #[trigger] spec_sections(lines)[j];
        is_trimmed(section.heading) && is_trimmed(section.content)
    } by {
        lemma_trim_shape(lines[hs[j]].skip(2));
        lemma_trim_shape(join(lines.subrange(hs[j] + 1, body_end(lines, hs, j))));
    }
    lemma_trim_shape(join(lines.subrange(0, description_end(lines))));
}

/// No line of the text that the description is made of is a heading.
pub proof fn lemma_description_holds_no_heading(lines: Seq<Seq<char>>, i: int)
    requires
        0 <= i < description_end(lines),
    ensures
        i < lines.len(),
        !is_heading(lines, i),
{
    lemma_headings(lines, lines.len() as int);
}

/// The fence tracker's state as held by the executable code.
pub open spec fn fence_view(fence: Option<(char, usize)>) -> Option<(char, nat)> {
    match fence {
        Some((c, n)) => Some((c, n as nat)),
        None => None,
    }
}

/// Ends a section: its body is the lines from `from` up to `to`, joined and
/// trimmed. The section is added to `sections`, and a warning to `warnings`
/// if the body is empty.
pub fn flush_section(
    heading: &Vec<char>,
    lines: &Vec<Vec<char>>,
    from: usize,
    to: usize,
    sections: &mut Vec<Section>,
    warnings: &mut Vec<ParseWarning>,
)
    requires
        from <= to <= lines.len(),
    ensures
        final(sections).deep_view() == old(sections).deep_view().push(
            (SectionView {
                heading: heading@,
                content: body_text(texts(lines@), from as int, to as int),
            }),
        ),
        final(warnings).deep_view() == if body_text(texts(lines@), from as int, to as int).len()
            == 0 {
            old(warnings).deep_view().push(empty_section_warning(heading@))
        } else {
            old(warnings).deep_view()
        },
{
    let body = join_range(lines, from, to);
    let content = trimmed(&body);
    let heading = string_of(heading);
    if content.len() == 0 {
        warnings.push(ParseWarning::empty_section(heading.as_str()));
    }
    sections.push(Section { heading, content: string_of(&content) });
}

/// The description and the sections of a text, given by its lines. A warning
/// is added to `warnings` for each section with an empty body.
pub fn segment(lines: &Vec<Vec<char>>, warnings: &mut Vec<ParseWarning>) -> (r: (
    Vec<char>,
    Vec<Section>,
))
    ensures
        r.0@ == spec_description(texts(lines@)),
        r.1.deep_view() == spec_sections(texts(lines@)),
        final(warnings).deep_view() == old(warnings).deep_view() + empty_warnings(
            spec_sections(texts(lines@)),
        ),
{
    let ghost ls = texts(lines@);
    let mark: Vec<char> = vec!['#', ' '];
    let mut sections: Vec<Section> = Vec::new();
    let mut fence: Option<(char, usize)> = None;
    let mut heading: Option<Vec<char>> = None;
    let mut start: usize = 0;
    let mut desc_end: usize = 0;
    let mut i: usize = 0;
    while i < lines.len()
        invariant
            i <= lines.len(),
            ls == texts(lines@),
            mark@ == heading_mark(),
            fence_view(fence) == fence_after(ls, i as int),
            headings(ls, i as int).len() == 0 <==> heading is None,
            heading matches Some(h) ==> {
                let hs = headings(ls, i as int);
                &&& h@ == heading_text(ls[hs.last()]).unwrap()
                &&& start == hs.last() + 1
                &&& start <= i
                &&& desc_end == hs[0]
                &&& desc_end < i
                &&& sections.deep_view() == sections_upto(ls, hs, hs.len() - 1)
            },
            heading is None ==> sections.deep_view() == Seq::<SectionView>::empty(),
            warnings.deep_view() == old(warnings).deep_view() + empty_warnings(
                sections.deep_view(),
            ),
        decreases lines.len() - i,
    {
        let line = &lines[i];
        let t = trimmed_start(line);
        fence =
        match fence {
            None => match opens(&t) {
                Some((c, n, _)) => Some((c, n)),
                None => None,
            },
            Some((c, n)) => if closes(&t, c, n) {
                None
            } else {
                Some((c, n))
            },
        };
        let mut found: Option<Vec<char>> = None;
        if fence.is_none() && starts_with(line, &mark) {
            let h = trimmed(&subvec(line, 2, line.len()));
            if h.len() > 0 {
                found = Some(h);
            }
        }
        match found {
            Some(h) => {
                let ghost hs = headings(ls, i as int);
                let ghost next = headings(ls, i + 1);
                match heading {
                    Some(prev) => {
                        proof {
                            lemma_headings(ls, i as int);
                        }
                        let ghost before = sections.deep_view();
                        flush_section(&prev, lines, start, i, &mut sections, warnings);
                        proof {
                            let last = section_at(ls, next, hs.len() - 1);
                            assert(before.push(last).drop_last() =~= before);
                        }
                    },
                    None => {
                        desc_end = i;
                    },
                }
                heading = Some(h);
                start = i + 1;
            },
            None => {},
        }
        i += 1;
    }
    let ghost hs = headings(ls, lines.len() as int);
    match heading {
        Some(h) => {
            proof {
                lemma_headings(ls, lines.len() as int);
            }
            let ghost before = sections.deep_view();
            flush_section(&h, lines, start, lines.len(), &mut sections, warnings);
            proof {
                let last = section_at(ls, hs, hs.len() - 1);
                assert(before.push(last).drop_last() =~= before);
            }
            let description = trimmed(&join_range(lines, 0, desc_end));
            (description, sections)
        },
        None => {
            assert(sections.deep_view() =~= spec_sections(ls));
            let description = trimmed(&join_range(lines, 0, lines.len()));
            (description, sections)
        },
    }
}

/// Splits a normalized text into its description and its sections. A warning
/// is added to `warnings` for each section with an empty body.
pub fn parse_sections(content: &str, warnings: &mut Vec<ParseWarning>) -> (r: (
    String,
    Vec<Section>,
))
    ensures
        r.0@ == spec_description(lines(content@)),
        r.1.deep_view() == spec_sections(lines(content@)),
        final(warnings).deep_view() == old(warnings).deep_view() + empty_warnings(
            spec_sections(lines(content@)),
        ),
{
    let v = chars_of(content);
    let ls = split_lines(&v);
    let (description, sections) = segment(&ls, warnings);
    (string_of(&description), sections)
}

} // verus!
