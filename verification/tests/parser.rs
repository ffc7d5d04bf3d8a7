use photosort::errors::ErrorKind;
use photosort::template::parser::{Parser, Segment};

#[test]
fn test_parser() {
    let template = "Hello, {name}! {message|uppercase}";
    let mut parser = Parser::new(template);

    let sequence = vec![
        Segment::Text("Hello, ".to_string()),
        Segment::Interpolation("name".to_string()),
        Segment::Text("! ".to_string()),
        Segment::Transform("message".to_string(), vec!["uppercase".to_string()]),
    ];

    for expected in sequence.into_iter() {
        let actual = parser.next().unwrap().expect("no parser error");
        assert_eq!(actual, expected);
    }
    assert!(parser.next().is_none());
}

#[test]
fn unterminated_brace_reports_offset_of_opening_brace() {
    let mut parser = Parser::new("abc {def");
    assert_eq!(
        parser.next().unwrap().expect("literal before the error"),
        Segment::Text("abc ".to_string())
    );
    let err = parser.next().unwrap().expect_err("the open brace is never closed");
    assert_eq!(err.offset, 4);
    assert_eq!(err.kind, ErrorKind::UnterminatedInterpolation);
    assert!(parser.next().is_none());
}

#[test]
fn empty_field_name_is_an_error() {
    let mut parser = Parser::new("{}");
    let err = parser.next().unwrap().expect_err("empty interpolation");
    assert_eq!(err.offset, 0);
    assert_eq!(err.kind, ErrorKind::EmptyFieldName);

    let mut parser = Parser::new("{|upper}");
    let err = parser.next().unwrap().expect_err("no field before the pipe");
    assert_eq!(err.offset, 0);
    assert_eq!(err.kind, ErrorKind::EmptyFieldName);
}

#[test]
fn adjacent_interpolations_have_no_text_between() {
    let mut parser = Parser::new("{a}{b}");
    assert_eq!(
        parser.next().unwrap().unwrap(),
        Segment::Interpolation("a".to_string())
    );
    assert_eq!(
        parser.next().unwrap().unwrap(),
        Segment::Interpolation("b".to_string())
    );
    assert!(parser.next().is_none());
}

#[test]
fn transform_names_keep_their_listed_order() {
    let mut parser = Parser::new("{f|one|two|three}");
    assert_eq!(
        parser.next().unwrap().unwrap(),
        Segment::Transform(
            "f".to_string(),
            vec!["one".to_string(), "two".to_string(), "three".to_string()]
        )
    );
    assert!(parser.next().is_none());
}

#[test]
fn a_fresh_parser_restarts_from_the_beginning() {
    let template = "x{y}";
    let mut first = Parser::new(template);
    let mut second = Parser::new(template);
    assert_eq!(first.next().unwrap().unwrap(), Segment::Text("x".to_string()));
    assert_eq!(second.next().unwrap().unwrap(), Segment::Text("x".to_string()));
}

#[test]
fn parse_error_message_is_stable() {
    let mut parser = Parser::new("{open");
    let err = parser.next().unwrap().expect_err("unterminated");
    assert_eq!(
        err.message(),
        "expected '}' to close the interpolation before the template ended"
    );
}
