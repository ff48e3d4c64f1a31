use nixdoc::text::{
    blank, chars_of, ends_with, find_first, join_range, leading_ws, split_lines, starts_with,
    string_of, subvec, trim_bounds, trimmed, trimmed_start,
};
use nixdoc::unicode::lowercase;

const ALPHABET: [char; 16] = [
    ' ', ' ', '\t', '\n', '\n', '\r', 'a', 'B', '#', '`', ':', '\u{a0}', '\u{3000}', '\u{c9}',
    '\u{3a3}', '\u{85}',
];

fn samples() -> Vec<String> {
    let mut out: Vec<String> = vec![
        String::new(),
        "\n".to_string(),
        "\r\n".to_string(),
        "a\r".to_string(),
        "a\r\n\r\nb\r".to_string(),
        "\n\n\n".to_string(),
        " a \n b ".to_string(),
    ];
    let mut state: u64 = 0x2545_f491_4f6c_dd1d;
    for round in 0..400 {
        let len = round % 13;
        let mut s = String::new();
        for _ in 0..len {
            state ^= state << 13;
            state ^= state >> 7;
            state ^= state << 17;
            s.push(ALPHABET[(state % 16) as usize]);
        }
        out.push(s);
    }
    out
}

fn char_position(s: &str, byte: usize) -> usize {
    s[..byte].chars().count()
}

#[test]
fn lines_as_the_standard_library_splits_them() {
    for s in samples() {
        let ours: Vec<String> = split_lines(&chars_of(&s)).iter().map(string_of).collect();
        let theirs: Vec<String> = s.lines().map(|l| l.to_string()).collect();
        assert_eq!(ours, theirs, "{:?}", s);
    }
}

#[test]
fn trimming_as_the_standard_library_trims() {
    for s in samples() {
        let v = chars_of(&s);
        assert_eq!(string_of(&trimmed(&v)), s.trim(), "{:?}", s);
        assert_eq!(string_of(&trimmed_start(&v)), s.trim_start(), "{:?}", s);
        assert_eq!(blank(&v), s.trim().is_empty(), "{:?}", s);
        assert_eq!(
            leading_ws(&v),
            s.chars().take_while(|c| c.is_whitespace()).count(),
            "{:?}",
            s
        );
        let (a, b) = trim_bounds(&v);
        assert_eq!(string_of(&subvec(&v, a, b)), s.trim(), "{:?}", s);
    }
}

#[test]
fn joining_as_the_standard_library_joins() {
    let all: Vec<Vec<char>> = samples().iter().take(40).map(|s| chars_of(s)).collect();
    let strings: Vec<String> = all.iter().map(string_of).collect();
    for a in 0..all.len() {
        for b in a..all.len() {
            assert_eq!(string_of(&join_range(&all, a, b)), strings[a..b].join("\n"));
        }
    }
}

#[test]
fn searching_as_the_standard_library_searches() {
    let patterns = ["", "a", "::", "\n", " a", "- [", "]", "\u{3000}", "aB", "\r\n"];
    for s in samples() {
        let v = chars_of(&s);
        for p in patterns {
            let w = chars_of(p);
            assert_eq!(starts_with(&v, &w), s.starts_with(p), "{:?} {:?}", s, p);
            assert_eq!(ends_with(&v, &w), s.ends_with(p), "{:?} {:?}", s, p);
            assert_eq!(
                find_first(&v, &w),
                s.find(p).map(|byte| char_position(&s, byte)),
                "{:?} {:?}",
                s,
                p
            );
        }
    }
}

#[test]
fn lowercase_as_the_standard_library_maps() {
    for s in samples() {
        assert_eq!(lowercase(&s), s.to_lowercase(), "{:?}", s);
    }
    for s in ["HELLO World", "Stra\u{df}e", "\u{1e9e}", "\u{3a3}\u{391}\u{3a3}", "A\u{3a3}", "\u{3a3}a"] {
        assert_eq!(lowercase(s), s.to_lowercase(), "{:?}", s);
    }
}

#[test]
fn characters_and_strings_convert_both_ways() {
    for s in samples() {
        let v = chars_of(&s);
        assert_eq!(v, s.chars().collect::<Vec<char>>());
        assert_eq!(string_of(&v), s);
    }
}
