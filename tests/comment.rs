use lexical_analysis::{DelimiterParseError, LexicalError};
use lexical_analysis::{consume_comments, CodePoint, CommentParseError, CommentType, InputStream, Location};

fn stream(text: &str) -> InputStream<char> {
    InputStream::new(text.chars().collect())
}

#[test]
fn line_comment_stops_before_the_newline() {
    let mut s = stream("// line\n");
    let out = consume_comments(&mut s, Location::new()).unwrap();
    assert_eq!(out.data, " line");
    assert_eq!(out.ty, CommentType::Line);
    assert_eq!(out.location, Location::new());
    assert_eq!(s.consume_next(), Ok(CodePoint::Newline('\n')));
}

#[test]
fn line_comment_runs_to_the_end_of_the_input() {
    let mut s = stream("//abc");
    let out = consume_comments(&mut s, Location::new()).unwrap();
    assert_eq!(out.data, "abc");
    assert_eq!(s.consume_next(), Ok(CodePoint::EOF));
}

#[test]
fn unterminated_block_comment_reports_its_start() {
    let mut s = stream("/* unterminated");
    assert_eq!(
        consume_comments(&mut s, Location::new()),
        Err(CommentParseError::Unterminated { line: 1, column: 1 })
    );
}

#[test]
fn block_comment_ends_at_the_first_closing_pair() {
    let mut s = stream("/* a * b */x */");
    let out = consume_comments(&mut s, Location::new()).unwrap();
    assert_eq!(out.data, " a * b ");
    assert_eq!(out.ty, CommentType::Block);
    assert_eq!(s.consume_next(), Ok(CodePoint::Unit('x')));
}

#[test]
fn block_comment_location_is_the_given_start() {
    let mut s = stream("/*\n*/");
    let start = Location { line: 3, column: 7, total: 20 };
    let out = consume_comments(&mut s, start).unwrap();
    assert_eq!(out.data, "\n");
    assert_eq!(out.location, start);
    let mut s = stream("/* open");
    assert_eq!(consume_comments(&mut s, start), Err(CommentParseError::Unterminated { line: 3, column: 7 }));
}

#[test]
fn not_a_comment_consumes_nothing() {
    let mut s = stream("/x");
    assert_eq!(consume_comments(&mut s, Location::new()), Err(CommentParseError::IsNot));
    assert_eq!(s.consume_next(), Ok(CodePoint::SOLIDUS));
    let mut s = stream("");
    assert_eq!(consume_comments(&mut s, Location::new()), Err(CommentParseError::IsNot));
}

#[test]
fn comment_type_defaults_to_block_and_can_be_redefined() {
    let mut ty = CommentType::default();
    assert_eq!(ty, CommentType::Block);
    ty.define(CommentType::Line);
    assert_eq!(ty, CommentType::Line);
}

#[test]
fn comment_type_names_in_any_case() {
    assert_eq!(CommentType::from_str("line"), Ok(CommentType::Line));
    assert_eq!(CommentType::from_str("Block"), Ok(CommentType::Block));
    assert!(CommentType::from_str("lines").is_err());
    assert!(CommentType::from_uppercase("line").is_err());
    assert_eq!(CommentType::Line.to_string(), "LINE");
    assert_eq!(CommentType::from_str(&CommentType::Block.to_string()), Ok(CommentType::Block));
}

#[test]
fn comment_errors_wrap_into_lexical_errors() {
    assert_eq!(LexicalError::from(CommentParseError::IsNot), LexicalError::Comment(CommentParseError::IsNot));
    let invalid = DelimiterParseError::Invalid { found: "a".to_string() };
    assert_eq!(LexicalError::from(invalid.clone()), LexicalError::Delimiter(invalid));
}
