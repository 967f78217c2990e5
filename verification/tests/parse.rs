use course_parser::parse::{parse_course, ParseError};
use course_parser::templates::{CourseTutorialSettings, Tutorial};

fn minimal_course_text() -> String {
    [
        "title: \"Rust 101\"",
        "url: \"rust-101\"",
        "tutorials:",
        "  - subtitle: \"Intro\"",
        "    content: \"# Hello\"",
        "",
    ]
    .join("\n")
}

#[test]
fn minimal_document_parses_with_defaults() {
    let course = parse_course(&minimal_course_text()).expect("minimal document must parse");
    assert_eq!(course.lang, "");
    assert_eq!(course.tutorial_settings.start_closed, false);
    assert_eq!(course.tutorials.len(), 1);
    assert_eq!(course.tutorials[0].start_closed, None);
}

#[test]
fn end_to_end_course_fields() {
    let course = parse_course(&minimal_course_text()).expect("document must parse");
    assert_eq!(course.title, "Rust 101");
    assert_eq!(course.url, "rust-101");
    assert_eq!(course.lang, "");
    assert_eq!(course.tutorials.len(), 1);
    assert_eq!(course.tutorials[0].subtitle, "Intro");
    assert_eq!(course.tutorials[0].content, "<h1>Hello</h1>\n");
    assert_eq!(course.tutorials[0].start_closed, None);
    assert_eq!(course.tutorial_settings.start_closed, false);
}

#[test]
fn missing_title_is_missing_required_key_at_root() {
    let text = [
        "url: \"rust-101\"",
        "tutorials: []",
        "",
    ]
    .join("\n");
    match parse_course(&text) {
        Err(ParseError::MissingRequiredKey(msg, context)) => {
            assert_eq!(msg, "Missing required key `title`");
            assert_eq!(context, "root level");
        }
        other => panic!("expected MissingRequiredKey, got {:?}", other),
    }
}

#[test]
fn unknown_top_level_key_is_invalid_key() {
    let text = [
        "title: \"t\"",
        "url: \"u\"",
        "tutorials: []",
        "foo: 1",
        "",
    ]
    .join("\n");
    match parse_course(&text) {
        Err(ParseError::InvalidKey(msg, context)) => {
            assert_eq!(
                msg,
                "Received a key `foo`, expected one of [\"title\", \"lang\", \"url\", \"tutorials\", \"tutorial_settings\"]"
            );
            assert_eq!(context, "root level");
        }
        other => panic!("expected InvalidKey, got {:?}", other),
    }
}

#[test]
fn tutorial_missing_content_names_its_position() {
    let text = [
        "title: \"t\"",
        "url: \"u\"",
        "tutorials:",
        "  - subtitle: \"first\"",
        "",
    ]
    .join("\n");
    match parse_course(&text) {
        Err(ParseError::MissingRequiredKey(msg, context)) => {
            assert_eq!(msg, "Missing required key `content`");
            assert_eq!(context, "tutorial number 1");
        }
        other => panic!("expected MissingRequiredKey, got {:?}", other),
    }
}

#[test]
fn second_tutorial_error_names_position_two() {
    let text = [
        "title: \"t\"",
        "url: \"u\"",
        "tutorials:",
        "  - subtitle: \"first\"",
        "    content: \"a\"",
        "  - content: \"b\"",
        "",
    ]
    .join("\n");
    match parse_course(&text) {
        Err(ParseError::MissingRequiredKey(msg, context)) => {
            assert_eq!(msg, "Missing required key `subtitle`");
            assert_eq!(context, "tutorial number 2");
        }
        other => panic!("expected MissingRequiredKey, got {:?}", other),
    }
}

#[test]
fn effective_start_closed_resolution() {
    let defaults = CourseTutorialSettings { start_closed: false };
    let with_override = Tutorial {
        subtitle: String::new(),
        content: String::new(),
        start_closed: Some(true),
    };
    let without_override = Tutorial {
        subtitle: String::new(),
        content: String::new(),
        start_closed: None,
    };
    assert_eq!(with_override.effective_start_closed(&defaults), true);
    assert_eq!(without_override.effective_start_closed(&defaults), false);
    let closed_defaults = CourseTutorialSettings { start_closed: true };
    assert_eq!(without_override.effective_start_closed(&closed_defaults), true);
    let open_override = Tutorial {
        subtitle: String::new(),
        content: String::new(),
        start_closed: Some(false),
    };
    assert_eq!(open_override.effective_start_closed(&closed_defaults), false);
}

#[test]
fn tutorial_start_closed_overrides_course_default() {
    let text = [
        "title: \"t\"",
        "url: \"u\"",
        "tutorials:",
        "  - subtitle: \"first\"",
        "    content: \"a\"",
        "    start_closed: true",
        "",
    ]
    .join("\n");
    let course = parse_course(&text).expect("document must parse");
    assert_eq!(course.tutorials[0].start_closed, Some(true));
    assert_eq!(
        course.tutorials[0].effective_start_closed(&course.tutorial_settings),
        true
    );
}

#[test]
fn markdown_bold_renders_to_strong() {
    let text = [
        "title: \"t\"",
        "url: \"u\"",
        "tutorials:",
        "  - subtitle: \"first\"",
        "    content: \"**bold**\"",
        "",
    ]
    .join("\n");
    let course = parse_course(&text).expect("document must parse");
    assert!(course.tutorials[0].content.contains("<strong>bold</strong>"));
}

#[test]
fn two_documents_fail_with_exactly_one_document() {
    let text = "---\ntitle: a\n---\ntitle: b\n";
    match parse_course(text) {
        Err(ParseError::SyntaxError(msg, location)) => {
            assert_eq!(msg, "YAML file must contain exactly one document");
            assert!(location.is_none());
        }
        other => panic!("expected SyntaxError, got {:?}", other),
    }
}

#[test]
fn empty_text_fails_with_exactly_one_document() {
    match parse_course("") {
        Err(ParseError::SyntaxError(msg, location)) => {
            assert_eq!(msg, "YAML file must contain exactly one document");
            assert!(location.is_none());
        }
        other => panic!("expected SyntaxError, got {:?}", other),
    }
}

#[test]
fn non_mapping_root_fails() {
    match parse_course("- a\n- b\n") {
        Err(ParseError::SyntaxError(msg, location)) => {
            assert_eq!(msg, "YAML file was not a mapping (key => value).");
            assert!(location.is_none());
        }
        other => panic!("expected SyntaxError, got {:?}", other),
    }
}

#[test]
fn malformed_text_carries_a_location() {
    let text = "title: ok\n\tbad: indent\n";
    match parse_course(text) {
        Err(ParseError::SyntaxError(msg, location)) => {
            assert!(msg.starts_with("File was not valid YAML ("));
            assert!(msg.ends_with(")"));
            assert!(location.is_some());
        }
        other => panic!("expected SyntaxError, got {:?}", other),
    }
}

#[test]
fn wrong_type_for_title() {
    let text = [
        "title: true",
        "url: \"u\"",
        "tutorials: []",
        "",
    ]
    .join("\n");
    match parse_course(&text) {
        Err(ParseError::InvalidType(msg, context)) => {
            assert_eq!(
                msg,
                "Expected the value of key `title` to be a string (text), instead it was Boolean(true)"
            );
            assert_eq!(context, "root level");
        }
        other => panic!("expected InvalidType, got {:?}", other),
    }
}

#[test]
fn wrong_type_for_tutorials() {
    let text = [
        "title: \"t\"",
        "url: \"u\"",
        "tutorials: 5",
        "",
    ]
    .join("\n");
    match parse_course(&text) {
        Err(ParseError::InvalidType(msg, context)) => {
            assert_eq!(
                msg,
                "Expected the value of key `tutorials` to be an array (list), instead it was Integer(5)"
            );
            assert_eq!(context, "root level");
        }
        other => panic!("expected InvalidType, got {:?}", other),
    }
}

#[test]
fn tutorial_element_that_is_not_a_mapping() {
    let text = [
        "title: \"t\"",
        "url: \"u\"",
        "tutorials:",
        "  - 5",
        "",
    ]
    .join("\n");
    match parse_course(&text) {
        Err(ParseError::InvalidType(msg, context)) => {
            assert_eq!(
                msg,
                "Expected the all of the elements of the tutorials array to be a hash, instead found Integer(5)"
            );
            assert_eq!(context, "tutorial number 1");
        }
        other => panic!("expected InvalidType, got {:?}", other),
    }
}

#[test]
fn non_string_key_is_invalid_key() {
    let text = [
        "title: \"t\"",
        "url: \"u\"",
        "tutorials: []",
        "1: x",
        "",
    ]
    .join("\n");
    match parse_course(&text) {
        Err(ParseError::InvalidKey(msg, context)) => {
            assert_eq!(
                msg,
                "Received a key `Integer(1)` which was not a string (text), expected one of [\"title\", \"lang\", \"url\", \"tutorials\", \"tutorial_settings\"] in this context"
            );
            assert_eq!(context, "root level");
        }
        other => panic!("expected InvalidKey, got {:?}", other),
    }
}

#[test]
fn tutorial_settings_start_closed_is_read() {
    let text = [
        "title: \"t\"",
        "url: \"u\"",
        "tutorials: []",
        "tutorial_settings:",
        "  start_closed: true",
        "",
    ]
    .join("\n");
    let course = parse_course(&text).expect("document must parse");
    assert_eq!(course.tutorial_settings.start_closed, true);
}

#[test]
fn unknown_key_under_tutorial_settings() {
    let text = [
        "title: \"t\"",
        "url: \"u\"",
        "tutorials: []",
        "tutorial_settings:",
        "  bar: 1",
        "",
    ]
    .join("\n");
    match parse_course(&text) {
        Err(ParseError::InvalidKey(msg, context)) => {
            assert_eq!(msg, "Received a key `bar`, expected one of [\"start_closed\"]");
            assert_eq!(context, "tutorial_settings");
        }
        other => panic!("expected InvalidKey, got {:?}", other),
    }
}

#[test]
fn lang_is_kept_when_present() {
    let text = [
        "title: \"t\"",
        "url: \"u\"",
        "lang: \"en\"",
        "tutorials: []",
        "",
    ]
    .join("\n");
    let course = parse_course(&text).expect("document must parse");
    assert_eq!(course.lang, "en");
}

#[test]
fn tutorials_keep_source_order() {
    let text = [
        "title: \"t\"",
        "url: \"u\"",
        "tutorials:",
        "  - subtitle: \"one\"",
        "    content: \"a\"",
        "  - subtitle: \"two\"",
        "    content: \"b\"",
        "  - subtitle: \"three\"",
        "    content: \"c\"",
        "",
    ]
    .join("\n");
    let course = parse_course(&text).expect("document must parse");
    let subtitles: Vec<&str> = course
        .tutorials
        .iter()
        .map(|t| t.subtitle.as_str())
        .collect();
    assert_eq!(subtitles, vec!["one", "two", "three"]);
}
