use lexical_analysis::{
    consume_boolean, consume_numeric, consume_string, Bool, BoolOutput, CodePoint, InputStream, Integer,
    IntegerParseError, Location, StringOutput, StringParseError,
};

fn stream(text: &str) -> InputStream<char> {
    InputStream::new(text.chars().collect())
}

fn number(text: &str) -> Result<Integer, IntegerParseError> {
    consume_numeric(&mut stream(text), Location::new()).map(|o| o.integer)
}

#[test]
fn numbers_classify_into_their_base() {
    assert_eq!(number("0x2A"), Ok(Integer::Hexadecimal { hex: "2A".to_string() }));
    assert_eq!(number("0b10000000000"), Ok(Integer::Binary { bin: "10000000000".to_string() }));
    assert_eq!(number("0o2000"), Ok(Integer::Octal { oct: "2000".to_string() }));
    assert_eq!(number("10.0"), Ok(Integer::Decimal { dec: "10.0".to_string() }));
}

#[test]
fn decimal_forms() {
    assert_eq!(number("71"), Ok(Integer::Decimal { dec: "71".to_string() }));
    assert_eq!(number(".463"), Ok(Integer::Decimal { dec: ".463".to_string() }));
    assert_eq!(number("0"), Ok(Integer::Decimal { dec: "0".to_string() }));
}

#[test]
fn number_stops_at_the_first_non_digit() {
    let mut s = stream("12.x");
    let out = consume_numeric(&mut s, Location::new()).unwrap();
    assert_eq!(out.integer, Integer::Decimal { dec: "12".to_string() });
    assert_eq!(s.consume_next(), Ok(CodePoint::FULL_STOP));
    let mut s = stream("0b102");
    let out = consume_numeric(&mut s, Location::new()).unwrap();
    assert_eq!(out.integer, Integer::Binary { bin: "10".to_string() });
    assert_eq!(s.consume_next(), Ok(CodePoint::Unit('2')));
}

#[test]
fn not_a_number_reports_what_was_found() {
    assert_eq!(number("abc"), Err(IntegerParseError::IsNot { found: 'a' }));
    assert_eq!(number("0xZ"), Err(IntegerParseError::IsNot { found: 'Z' }));
    assert_eq!(number(""), Err(IntegerParseError::IsNot { found: '\0' }));
    let mut s = stream("0xg");
    assert!(consume_numeric(&mut s, Location::new()).is_err());
    assert_eq!(s.consume_next(), Ok(CodePoint::Unit('0')));
}

#[test]
fn string_with_escape_and_column() {
    let mut s = stream("\"a\\\"b\" rest");
    let start = Location { line: 2, column: 5, total: 9 };
    let out = consume_string(&mut s, start).unwrap();
    assert_eq!(out.data, "a\"b");
    assert_eq!(out.location, Location { line: 2, column: 8, total: 9 });
    assert_eq!(s.consume_next(), Ok(CodePoint::Whitespace(' ')));
}

#[test]
fn string_errors() {
    let start = Location::new();
    assert_eq!(consume_string(&mut stream("abc"), start), Err(StringParseError::IsNot { found: 'a' }));
    assert_eq!(
        consume_string(&mut stream("\"never closed"), start),
        Err(StringParseError::Unterminated { line: 1, column: 1 })
    );
    assert_eq!(consume_string(&mut stream("\"a\0b\""), start), Err(StringParseError::BadString));
}

#[test]
fn string_output_append_moves_the_column() {
    let mut out = StringOutput { data: String::new(), location: Location::new() };
    out.append('x');
    out.append('y');
    assert_eq!(out.data, "xy");
    assert_eq!(out.location.column, 3);
}

#[test]
fn booleans() {
    let mut s = stream("true;");
    assert_eq!(
        consume_boolean(&mut s, Location::new()),
        Some(BoolOutput { value: Bool::True, location: Location::new() })
    );
    assert_eq!(s.consume_next(), Ok(CodePoint::SEMICOLON));
    let mut s = stream("false");
    assert_eq!(consume_boolean(&mut s, Location::new()).map(|b| b.value), Some(Bool::False));
    let mut s = stream("trueish");
    assert_eq!(consume_boolean(&mut s, Location::new()), None);
    assert_eq!(s.consume_next(), Ok(CodePoint::Unit('t')));
    assert!(Bool::True.to_bool());
    assert_eq!(Bool::from_bool(false), Bool::False);
}
