//! Reading fenced code blocks out of the body of a section.

use vstd::prelude::*;
use crate::fence::{closes, closes_fence, fence_open, opens};
use crate::section::{Example, ExampleView};
use crate::segmenter::fence_after;
use crate::text::{
    append_chars, chars_of, lines, split_lines, string_of, texts, trim_start, trimmed_start,
};

verus! {

/// A code block whose closing fence has not been seen yet.
pub struct OpenBlock {
    pub marker: char,
    pub len: nat,
    pub language: Option<Seq<char>>,
    pub code: Seq<char>,
}

/// How far a scan of the lines has come: the blocks that are complete, and
/// the one that is open.
pub struct BlockScan {
    pub done: Seq<ExampleView>,
    pub open: Option<OpenBlock>,
}

/// The scan after one more line. Outside a block, a line that opens a fence
/// starts a block and every other line is passed over. Inside a block, a line
/// that closes the fence completes the block, and every other line is added
/// to its code with a line feed after it.
pub open spec fn block_step(st: BlockScan, line: Seq<char>) -> BlockScan {
    let t = trim_start(line);
    match st.open {
        None => match fence_open(t) {
            Some((c, n, language)) => BlockScan {
                done: st.done,
                open: Some(OpenBlock { marker: c, len: n, language, code: Seq::empty() }),
            },
            None => st,
        },
        Some(b) => if closes_fence(t, b.marker, b.len) {
            BlockScan {
                done: st.done.push(ExampleView { language: b.language, code: b.code }),
                open: None,
            }
        } else {
            BlockScan {
                done: st.done,
                open: Some(
                    OpenBlock {
                        marker: b.marker,
                        len: b.len,
                        language: b.language,
                        code: b.code + line + seq!['\n'],
                    },
                ),
            }
        },
    }
}

/// The scan after the first `n` lines.
pub open spec fn block_scan(lines: Seq<Seq<char>>, n: int) -> BlockScan
    decreases n,
{
    if n <= 0 {
        BlockScan { done: Seq::empty(), open: None }
    } else {
        block_step(block_scan(lines, n - 1), lines[n - 1])
    }
}

/// The blocks of a scan at the end of the text: a block that is still open is
/// kept if it holds any code.
pub open spec fn salvaged(st: BlockScan) -> Seq<ExampleView> {
    match st.open {
        Some(b) => if b.code.len() > 0 {
            st.done.push(ExampleView { language: b.language, code: b.code })
        } else {
            st.done
        },
        None => st.done,
    }
}

/// The code blocks in the body of a section, in their order.
pub open spec fn spec_examples(body: Seq<char>) -> Seq<ExampleView> {
    let ls = lines(body);
    salvaged(block_scan(ls, ls.len() as int))
}

/// The code of the first code block in the body of a section, if it has one.
pub open spec fn spec_first_code_block(body: Seq<char>) -> Option<Seq<char>> {
    let blocks = spec_examples(body);
    if blocks.len() > 0 {
        Some(blocks[0].code)
    } else {
        None
    }
}

/// A scan never takes back a block: what is complete after `n` lines is still
/// there, in the same place, after `m` lines.
pub proof fn lemma_done_grows(lines: Seq<Seq<char>>, n: int, m: int)
    requires
        0 <= n <= m,
    ensures
        block_scan(lines, n).done.is_prefix_of(block_scan(lines, m).done),
        block_scan(lines, n).done.is_prefix_of(salvaged(block_scan(lines, m))),
    decreases m - n,
{
    if n < m {
        lemma_done_grows(lines, n, m - 1);
    }
}

/// Whether `code` is made of whole lines: it is empty or ends with a line
/// feed.
pub open spec fn is_whole_lines(code: Seq<char>) -> bool {
    code.len() == 0 || code.last() == '\n'
}

/// The code of every block is made of whole lines.
pub proof fn lemma_code_is_whole_lines(lines: Seq<Seq<char>>, n: int)
    ensures
        forall|k: int|
            0 <= k < block_scan(lines, n).done.len() ==> is_whole_lines(
                (#[trigger] block_scan(lines, n).done[k]).code,
            ),
        block_scan(lines, n).open matches Some(b) ==> is_whole_lines(b.code),
        forall|k: int|
            0 <= k < salvaged(block_scan(lines, n)).len() ==> is_whole_lines(
                (#[trigger] salvaged(block_scan(lines, n))[k]).code,
            ),
    decreases n,
{
    if n > 0 {
        lemma_code_is_whole_lines(lines, n - 1);
    }
}

/// The scan keeps track of fences as the splitting into sections does: a
/// block is open exactly while a fence is, and it is that fence.
pub proof fn lemma_scan_tracks_fence(lines: Seq<Seq<char>>, n: int)
    ensures
        match block_scan(lines, n).open {
            Some(b) => fence_after(lines, n) == Some((b.marker, b.len)),
            None => fence_after(lines, n) is None,
        },
    decreases n,
{
    if n > 0 {
        lemma_scan_tracks_fence(lines, n - 1);
    }
}

/// The language of a block as held by the executable code.
pub open spec fn language_view(language: Option<Vec<char>>) -> Option<Seq<char>> {
    match language {
        Some(l) => Some(l@),
        None => None,
    }
}

/// The example with the language `language` and the code `code`.
fn example_of(language: Option<Vec<char>>, code: &Vec<char>) -> (e: Example)
    ensures
        e@ == (ExampleView { language: language_view(language), code: code@ }),
{
    let language = match language {
        Some(l) => Some(string_of(&l)),
        None => None,
    };
    Example { language, code: string_of(code) }
}

/// Reads the fenced code blocks in the body of an example section.
///
/// Each block from an opening fence to the line that closes it is one example,
/// with the language that the opening fence names and the lines in between as
/// its code, a line feed after each. A block that is still open at the end of
/// the body is kept if it holds any code. What stands between blocks is
/// passed over.
pub fn parse_examples(content: &str) -> (examples: Vec<Example>)
    ensures
        examples.deep_view() == spec_examples(content@),
{
    let v = chars_of(content);
    let ls = split_lines(&v);
    let ghost lv = texts(ls@);
    let mut examples: Vec<Example> = Vec::new();
    let mut in_block = false;
    let mut marker: char = '`';
    let mut len: usize = 3;
    let mut language: Option<Vec<char>> = None;
    let mut code: Vec<char> = Vec::new();
    let mut i: usize = 0;
    while i < ls.len()
        invariant
            i <= ls.len(),
            lv == texts(ls@),
            examples.deep_view() == block_scan(lv, i as int).done,
            in_block == (block_scan(lv, i as int).open is Some),
            in_block ==> block_scan(lv, i as int).open == Some(
                OpenBlock {
                    marker,
                    len: len as nat,
                    language: language_view(language),
                    code: code@,
                },
            ),
        decreases ls.len() - i,
    {
        let line = &ls[i];
        let t = trimmed_start(line);
        if !in_block {
            match opens(&t) {
                Some((c, n, l)) => {
                    in_block = true;
                    marker = c;
                    len = n;
                    language = l;
                    code = Vec::new();
                },
                None => {},
            }
        } else if closes(&t, marker, len) {
            let ghost before = examples.deep_view();
            let e = example_of(language, &code);
            examples.push(e);
            language = None;
            code = Vec::new();
            in_block = false;
        } else {
            let ghost before = code@;
            append_chars(&mut code, line);
            code.push('\n');
            assert(code@ =~= before + line@ + seq!['\n']);
        }
        i += 1;
    }
    if in_block && code.len() > 0 {
        let e = example_of(language, &code);
        examples.push(e);
    }
    examples
}

/// Reads the code of the first fenced code block in `content`.
///
/// The result is the lines between the first opening fence and the line that
/// closes it, a line feed after each. If that fence is never closed, the
/// result is what follows it, unless that is nothing. Without a fence there
/// is no result.
pub fn extract_first_code_block(content: &str) -> (r: Option<String>)
    ensures
        match r {
            Some(code) => spec_first_code_block(content@) == Some(code@),
            None => spec_first_code_block(content@) is None,
        },
{
    let v = chars_of(content);
    let ls = split_lines(&v);
    let ghost lv = texts(ls@);
    let mut in_block = false;
    let mut marker: char = '`';
    let mut len: usize = 3;
    let mut code: Vec<char> = Vec::new();
    let mut i: usize = 0;
    while i < ls.len()
        invariant
            i <= ls.len(),
            lv == texts(ls@),
            lv == lines(content@),
            block_scan(lv, i as int).done.len() == 0,
            in_block == (block_scan(lv, i as int).open is Some),
            !in_block ==> code@.len() == 0,
            in_block ==> {
                let b = block_scan(lv, i as int).open.unwrap();
                b.marker == marker && b.len == len && b.code == code@
            },
        decreases ls.len() - i,
    {
        let line = &ls[i];
        let t = trimmed_start(line);
        if !in_block {
            match opens(&t) {
                Some((c, n, _)) => {
                    in_block = true;
                    marker = c;
                    len = n;
                },
                None => {},
            }
        } else if closes(&t, marker, len) {
            proof {
                lemma_done_grows(lv, i + 1, lv.len() as int);
                assert(block_scan(lv, i + 1).done[0].code == code@);
            }
            return Some(string_of(&code));
        } else {
            append_chars(&mut code, line);
            code.push('\n');
        }
        i += 1;
    }
    if in_block && code.len() > 0 {
        Some(string_of(&code))
    } else {
        None
    }
}

} // verus!
