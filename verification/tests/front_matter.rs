use builder::front_matter::{parse, FrontMatterError};
use builder::Headers;

#[test]
fn parse_with_missing_beginning_line() {
    let text = "";
    let result = parse::<Headers>(text);
    assert!(matches!(result, Err(FrontMatterError::MissingBeginningLine)));
}

#[test]
fn parse_with_missing_ending_line() {
    let text = "---\n";
    let result = parse::<Headers>(text);
    assert!(matches!(result, Err(FrontMatterError::MissingEndingLine)));
}

#[test]
fn parse_with_missing_ending_line_crlf() {
    let text = "---\r\n";
    let result = parse::<Headers>(text);
    assert!(matches!(result, Err(FrontMatterError::MissingEndingLine)));
}

#[test]
fn parse_with_empty_frontmatter() {
    let text = "---\n---\n";
    let result = parse::<Headers>(text);
    assert!(matches!(result, Err(FrontMatterError::InvalidYaml(_))));
}

#[test]
fn parse_with_empty_frontmatter_crlf() {
    let text = "---\r\n---\r\n";
    let result = parse::<Headers>(text);
    assert!(matches!(result, Err(FrontMatterError::InvalidYaml(_))));
}

#[test]
fn parse_with_missing_known_field() {
    let text = "---\ntttttitle: dummy_title\n---\n";
    let result = parse::<Headers>(text);
    assert!(matches!(result, Err(FrontMatterError::InvalidYaml(_))));
}

#[test]
fn parse_with_missing_known_field_crlf() {
    let text = "---\r\nttttitle: dummy_title\r\n---\r\n";
    let result = parse::<Headers>(text);
    assert!(matches!(result, Err(FrontMatterError::InvalidYaml(_))));
}

#[test]
fn parse_with_unknown_field() {
    let text = "---\ndate: 2000-01-01\ntitle: dummy_title\n---\n";
    let result = parse::<Headers>(text);
    assert!(matches!(result, Ok(_)));
}

#[test]
fn parse_with_unknown_field_crlf() {
    let text = "---\r\ndate: 2000-01-01\r\ntitle: dummy_title\r\n---\r\n";
    let result = parse::<Headers>(text);
    assert!(matches!(result, Ok(_)));
}

#[test]
fn parse_with_empty_known_field() {
    let text = "---\ntitle:\n---\n";
    let result = parse::<Headers>(text).unwrap();

    assert_eq!(result.headers.title, "");
    assert_eq!(result.body, "");
}

#[test]
fn parse_with_empty_known_field_crlf() {
    let text = "---\r\ntitle:\r\n---\r\n";
    let result = parse::<Headers>(text).unwrap();

    assert_eq!(result.headers.title, "");
    assert_eq!(result.body, "");
}

#[test]
fn parse_with_valid_frontmatter() {
    let text = "---\ntitle: dummy_title---\ndummy_body";
    let result = parse::<Headers>(text).unwrap();
    assert_eq!(result.headers.title, "dummy_title");
    assert_eq!(result.body, "dummy_body");
}

#[test]
fn parse_with_valid_frontmatter_crlf() {
    let text = "---\r\ntitle: dummy_title---\r\ndummy_body";
    let result = parse::<Headers>(text).unwrap();
    assert_eq!(result.headers.title, "dummy_title");
    assert_eq!(result.body, "dummy_body");
}

#[test]
fn parse_keeps_body_verbatim() {
    let text = "---\ntitle: a title\n---\nfirst line\n\nsecond line\n";
    let result = parse::<Headers>(text).unwrap();
    assert_eq!(result.headers.title, "a title");
    assert_eq!(result.body, "first line\n\nsecond line\n");
}

#[test]
fn parse_skips_marker_with_wrong_terminator() {
    let text = "---\ntitle: a---b\n---\nbody";
    let result = parse::<Headers>(text).unwrap();
    assert_eq!(result.headers.title, "a---b");
    assert_eq!(result.body, "body");
}

#[test]
fn parse_with_body_only_marker_prefix() {
    let text = "title: dummy_title\n---\nbody";
    let result = parse::<Headers>(text);
    assert!(matches!(result, Err(FrontMatterError::MissingBeginningLine)));
}

#[test]
fn parse_round_trip() {
    let text = "---\ntitle: front matter\n---\nsome body\n";
    let first = parse::<Headers>(text).unwrap();
    let reserialized = format!("---\ntitle: {}\n---\n{}", first.headers.title, first.body);
    let second = parse::<Headers>(&reserialized).unwrap();
    assert_eq!(second.headers.title, first.headers.title);
    assert_eq!(second.body, first.body);
}

#[test]
fn parse_round_trip_crlf() {
    let text = "---\r\ntitle: front matter\r\n---\r\nsome body\r\n";
    let first = parse::<Headers>(text).unwrap();
    let reserialized = format!("---\r\ntitle: {}\r\n---\r\n{}", first.headers.title, first.body);
    let second = parse::<Headers>(&reserialized).unwrap();
    assert_eq!(second.headers.title, first.headers.title);
    assert_eq!(second.body, first.body);
}

#[test]
fn parse_twice_yields_equal_results() {
    let text = "---\ntitle: same twice\n---\nsame body";
    let first = parse::<Headers>(text).unwrap();
    let second = parse::<Headers>(text).unwrap();
    assert_eq!(first.headers.title, second.headers.title);
    assert_eq!(first.body, second.body);
}

#[test]
fn parse_twice_yields_equal_errors() {
    let text = "---\nonly: unknown fields\n---\n";
    let first = parse::<Headers>(text);
    let second = parse::<Headers>(text);
    assert_eq!(first.unwrap_err(), second.unwrap_err());
}

#[test]
fn error_kinds_compare_by_kind() {
    let invalid_a = parse::<Headers>("---\n---\n").unwrap_err();
    let invalid_b = parse::<Headers>("---\nnot a mapping\n---\n").unwrap_err();
    let missing_begin = parse::<Headers>("").unwrap_err();
    assert_eq!(invalid_a, invalid_b);
    assert_ne!(invalid_a, missing_begin);
    assert_eq!(missing_begin, FrontMatterError::MissingBeginningLine);
}
