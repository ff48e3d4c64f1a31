use nixdoc::boundary::{
    argument_entries, argument_entry, example_entries, example_entry, parse_status,
    STATUS_INTERNAL_FAULT, STATUS_NULL, STATUS_PARSE_ERROR, STATUS_SUCCESS,
};
use nixdoc::{Argument, DocComment, Example};

#[test]
fn status_codes() {
    assert_eq!(STATUS_SUCCESS, 0);
    assert_eq!(STATUS_PARSE_ERROR, 1);
    assert_eq!(STATUS_NULL, 2);
    assert_eq!(STATUS_INTERNAL_FAULT, 3);
}

#[test]
fn status_of_parsing() {
    assert_eq!(parse_status("/** hello */"), 0);
    assert_eq!(parse_status("/* not doc */"), 1);
    assert_eq!(parse_status("/** unclosed"), 1);
    assert_eq!(parse_status("/** */"), 1);
}

#[test]
fn entry_of_an_argument() {
    let a = Argument { name: "x".to_string(), description: "The value".to_string() };
    assert_eq!(argument_entry(&a), "x: The value");
    let b = Argument { name: "y".to_string(), description: String::new() };
    assert_eq!(argument_entry(&b), "y: ");
}

#[test]
fn entry_of_an_example() {
    let a = Example { language: Some("nix".to_string()), code: "f 1\n".to_string() };
    assert_eq!(example_entry(&a), "nix: f 1\n");
    let b = Example { language: None, code: "f 1\n".to_string() };
    assert_eq!(example_entry(&b), ": f 1\n");
}

#[test]
fn entries_of_a_document() {
    let doc = DocComment::parse(
        "/**\n  f.\n\n  # Arguments\n\n  - [a] First\n  - [b]\n\n  # Example\n\n  ```nix\n  f 1\n  ```\n\n  ~~~\n  g\n  ~~~\n*/",
    )
    .unwrap();
    assert_eq!(argument_entries(&doc), vec!["a: First", "b: "]);
    assert_eq!(example_entries(&doc), vec!["nix: f 1\n", ": g\n"]);
    let plain = DocComment::parse("/** nothing */").unwrap();
    assert!(argument_entries(&plain).is_empty());
    assert!(example_entries(&plain).is_empty());
}
