use course_parser::common::generate_error_message;
use course_parser::parse::{parse_course, ParseError, SourceLocation};

#[test]
fn schema_error_renders_message_in_context() {
    let err = ParseError::MissingRequiredKey(
        "Missing required key `title`".to_string(),
        "root level".to_string(),
    );
    assert_eq!(
        err.to_message(),
        "Missing required key `title` in context root level"
    );
}

#[test]
fn unlocated_syntax_error_renders_message_alone() {
    let err = ParseError::SyntaxError("YAML file must contain exactly one document".to_string(), None);
    assert_eq!(err.to_message(), "YAML file must contain exactly one document");
}

#[test]
fn located_syntax_error_renders_marker() {
    let err = ParseError::SyntaxError(
        "File was not valid YAML (boom)".to_string(),
        Some(SourceLocation { line: 2, col: 4 }),
    );
    assert_eq!(err.to_message(), "File was not valid YAML (boom) ln:2, col:4");
}

#[test]
fn generate_error_message_for_schema_error() {
    let text = "url: \"u\"\ntutorials: []\n";
    let err = match parse_course(text) {
        Err(e) => e,
        Ok(_) => panic!("document without a title must not parse"),
    };
    let mut out = String::new();
    generate_error_message(&mut out, text, err);
    assert_eq!(out, "Missing required key `title` in context root level\n");
}

#[test]
fn generate_error_message_reproduces_line_and_caret() {
    let text = "first: ok\nsecond: [\"a\", }\n";
    let (msg, location) = match parse_course(text) {
        Err(ParseError::SyntaxError(msg, Some(location))) => (msg, location),
        other => panic!("expected a located SyntaxError, got {:?}", other),
    };
    let err = ParseError::SyntaxError(msg.clone(), Some(location));
    let mut out = String::new();
    generate_error_message(&mut out, text, err);
    let lines: Vec<&str> = out.lines().collect();
    assert_eq!(lines.len(), 4);
    assert!(lines[0].starts_with(&format!(
        "We think the error occured around line: {}, column {} ",
        location.line, location.col
    )));
    assert!(lines[0].ends_with(
        "but it is possible the actual error is on a previous line and it was only detected here."
    ));
    assert_eq!(lines[1], text.lines().nth(location.line - 1).unwrap());
    assert_eq!(lines[2], format!("{: <1$}^^^", "", location.col));
    assert_eq!(lines[3], format!("Error: {}", msg));
}

#[test]
fn generate_error_message_appends_to_existing_output() {
    let text = "url: \"u\"\ntutorials: []\n";
    let err = match parse_course(text) {
        Err(e) => e,
        Ok(_) => panic!("document without a title must not parse"),
    };
    let mut out = "HEADER ".to_string();
    generate_error_message(&mut out, text, err);
    assert_eq!(out, "HEADER Missing required key `title` in context root level\n");
}
