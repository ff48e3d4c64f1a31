use nixdoc::parser::{normalize, parse_sections};
use nixdoc::{DocComment, ParseError, ParseWarning, WarningKind};

fn count(warnings: &[ParseWarning], kind: WarningKind) -> usize {
    warnings.iter().filter(|w| w.kind == kind).count()
}

#[test]
fn text_without_opening_is_not_a_doc_comment() {
    let inputs = [
        "",
        "   ",
        "/* regular */",
        "// line",
        "hello /** late */",
        "/ ** spaced */",
        "*/",
        "\n\t/*\n*/",
    ];
    for input in inputs {
        assert_eq!(DocComment::parse(input), Err(ParseError::NotDocComment));
    }
}

#[test]
fn opened_but_not_closed_is_unclosed_whatever_the_body() {
    let inputs = [
        "/**",
        "/** text",
        "/** text *",
        "/**\n  f.\n\n  # Type\n\n  ```\n  f :: Int\n  ```\n",
        "/** text */ trailing",
        "   /** text * /  ",
    ];
    for input in inputs {
        assert_eq!(DocComment::parse(input), Err(ParseError::UnclosedComment));
    }
}

#[test]
fn opening_and_closing_may_not_share_the_asterisk() {
    assert!(DocComment::is_doc_comment("/**/"));
    assert_eq!(DocComment::parse("/**/"), Err(ParseError::UnclosedComment));
}

#[test]
fn surrounding_whitespace_is_ignored_by_parse() {
    let doc = DocComment::parse("\n\t  /** hello */ \n").unwrap();
    assert_eq!(doc.raw_content, "hello");
    assert_eq!(doc.description, "hello");
}

#[test]
fn normalize_is_idempotent_on_samples() {
    let inputs = [
        "",
        "   ",
        "\n\n\n",
        "  a\n    b",
        "foo\nbar",
        "\n  hello\n\n  world\n",
        "    deep\n  shallow\n      deeper\n",
        "\ta\n\t\tb\n\t \n\tc",
        "  # Type\n\n  ```\n    x\n  ```\n",
        "a\r\nb\r\n",
        "  trailing  \n  spaces  ",
    ];
    for input in inputs {
        let once = normalize(input);
        assert_eq!(normalize(&once), once, "input {:?}", input);
    }
}

#[test]
fn normalize_loses_a_carriage_return_before_a_line_feed_each_time() {
    let once = normalize("a\r\r\nb");
    assert_eq!(once, "a\r\nb");
    assert_eq!(normalize(&once), "a\nb");
}

#[test]
fn normalize_takes_crlf_line_endings() {
    assert_eq!(normalize("  a\r\n  b\r\n"), "a\nb");
}

#[test]
fn normalize_counts_characters_not_bytes() {
    assert_eq!(normalize("\u{3000}a\n\u{3000}\u{3000}b"), "a\n\u{3000}b");
    assert_eq!(normalize("\u{a0}\u{a0}x\n\u{a0}\u{a0}\u{a0}y"), "x\n\u{a0}y");
}

#[test]
fn normalize_makes_whitespace_lines_empty() {
    assert_eq!(normalize("  a\n   \t \n  b"), "a\n\nb");
}

#[test]
fn normalize_first_line_loses_its_extra_indent() {
    assert_eq!(normalize("    a\n  b"), "a\nb");
}

#[test]
fn hash_lines_inside_fences_of_three_four_and_five_are_content() {
    for n in [3usize, 4, 5] {
        for marker in ["`", "~"] {
            let fence = marker.repeat(n);
            let content = format!("Desc.\n\n# Example\n\n{fence}nix\n# not a heading\nfoo\n{fence}\n\n# Note\n\nend");
            let mut warnings = Vec::new();
            let (description, sections) = parse_sections(&content, &mut warnings);
            assert_eq!(description, "Desc.");
            assert_eq!(sections.len(), 2);
            assert_eq!(sections[0].heading, "Example");
            assert_eq!(
                sections[0].content,
                format!("{fence}nix\n# not a heading\nfoo\n{fence}")
            );
            assert_eq!(sections[1].heading, "Note");
            assert_eq!(sections[1].content, "end");
            assert!(warnings.is_empty());
        }
    }
}

#[test]
fn shorter_run_inside_a_longer_fence_does_not_close_it() {
    let content = "# Example\n\n````\n```\n# still code\n```\n````\n\n# Type\n\nt";
    let mut warnings = Vec::new();
    let (description, sections) = parse_sections(content, &mut warnings);
    assert_eq!(description, "");
    assert_eq!(sections.len(), 2);
    assert_eq!(sections[0].content, "````\n```\n# still code\n```\n````");
    assert_eq!(sections[1].heading, "Type");
}

#[test]
fn unclosed_fence_swallows_later_headings() {
    let content = "intro\n\n# Example\n\n```\ncode\n# Type\nmore";
    let mut warnings = Vec::new();
    let (description, sections) = parse_sections(content, &mut warnings);
    assert_eq!(description, "intro");
    assert_eq!(sections.len(), 1);
    assert_eq!(sections[0].content, "```\ncode\n# Type\nmore");
}

#[test]
fn fence_in_the_description_hides_a_heading() {
    let content = "```\n# Type\n```\n# Note\nbody";
    let mut warnings = Vec::new();
    let (description, sections) = parse_sections(content, &mut warnings);
    assert_eq!(description, "```\n# Type\n```");
    assert_eq!(sections.len(), 1);
    assert_eq!(sections[0].heading, "Note");
}

#[test]
fn two_arguments_exactly() {
    let doc =
        DocComment::parse("/**\n  f.\n\n  # Arguments\n\n  - [a] First\n  - [b] Second\n*/").unwrap();
    let args = doc.arguments();
    assert_eq!(args.len(), 2);
    assert_eq!(args[0].name, "a");
    assert_eq!(args[0].description, "First");
    assert_eq!(args[1].name, "b");
    assert_eq!(args[1].description, "Second");
}

#[test]
fn type_section_wins_even_without_a_code_block() {
    let doc = DocComment::parse("/**\n  f.\n  f :: Legacy\n\n  # Type\n\n  no fence here\n*/").unwrap();
    assert_eq!(doc.type_sig(), None);
}

#[test]
fn type_section_wins_whatever_its_letter_case() {
    let doc =
        DocComment::parse("/**\n  f :: Legacy\n\n  # TYPE\n\n  ```\n  f :: Modern\n  ```\n*/").unwrap();
    assert_eq!(doc.type_sig(), Some("f :: Modern\n".to_string()));
}

#[test]
fn unknown_heading_gives_one_warning_that_names_it() {
    let doc = DocComment::parse("/**\n  f.\n\n  # See Also\n\n  Some content.\n*/").unwrap();
    assert_eq!(doc.warnings.len(), 1);
    assert_eq!(doc.warnings[0].kind, WarningKind::UnknownSection);
    assert_eq!(
        doc.warnings[0].message,
        "unrecognized section heading: 'See Also'"
    );
}

#[test]
fn empty_body_gives_one_warning_that_names_the_section() {
    let doc = DocComment::parse("/**\n  f.\n\n  # Type\n\n  # Arguments\n\n  - [x] arg\n*/").unwrap();
    assert_eq!(doc.warnings.len(), 1);
    assert_eq!(doc.warnings[0].kind, WarningKind::EmptySection);
    assert_eq!(doc.warnings[0].message, "section 'Type' has no content");
}

#[test]
fn warnings_come_one_for_each_section_empty_ones_first() {
    let doc = DocComment::parse(
        "/**\n  f.\n\n  # Foo\n\n  # Type\n\n  # Bar\n\n  text\n\n  # Foo\n*/",
    )
    .unwrap();
    assert_eq!(doc.sections.len(), 4);
    assert_eq!(count(&doc.warnings, WarningKind::EmptySection), 3);
    assert_eq!(count(&doc.warnings, WarningKind::UnknownSection), 3);
    let messages: Vec<&str> = doc.warnings.iter().map(|w| w.message.as_str()).collect();
    assert_eq!(
        messages,
        vec![
            "section 'Foo' has no content",
            "section 'Type' has no content",
            "section 'Foo' has no content",
            "unrecognized section heading: 'Foo'",
            "unrecognized section heading: 'Bar'",
            "unrecognized section heading: 'Foo'",
        ]
    );
}

#[test]
fn recognized_sections_with_bodies_give_no_warning() {
    let doc = DocComment::parse(
        "/**\n  f.\n\n  # Type\n  t\n  # Args\n  a\n  # Example\n  e\n  # Examples\n  e\n  # Note\n  n\n  # Notes\n  n\n  # Warning\n  w\n  # Warnings\n  w\n  # Caution\n  c\n  # Deprecated\n  d\n  # Arguments\n  a\n*/",
    )
    .unwrap();
    assert_eq!(doc.sections.len(), 11);
    assert!(doc.warnings.is_empty());
}

#[test]
fn sections_keep_the_order_of_their_headings() {
    let doc = DocComment::parse("/**\n  d\n  # B\n  1\n  # A\n  2\n  # B\n  3\n*/").unwrap();
    let headings: Vec<&str> = doc.sections.iter().map(|s| s.heading.as_str()).collect();
    assert_eq!(headings, vec!["B", "A", "B"]);
    let bodies: Vec<&str> = doc.sections.iter().map(|s| s.content.as_str()).collect();
    assert_eq!(bodies, vec!["1", "2", "3"]);
    assert_eq!(doc.section("b").unwrap().content, "1");
}

#[test]
fn error_messages() {
    assert_eq!(
        ParseError::NotDocComment.message(),
        "not a doc comment: input must start with '/**'"
    );
    assert_eq!(
        ParseError::UnclosedComment.message(),
        "unclosed doc comment: missing '*/' terminator"
    );
    assert_eq!(ParseError::EmptyComment.message(), "empty doc comment");
}
