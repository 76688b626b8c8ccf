use lexical_analysis::{CodePoint, CodePointInterface, InputStream, ScanFilter};

const SOURCE: &str = "Hello World\n";

struct SkipLowercaseL;

impl ScanFilter<char> for SkipLowercaseL {
    fn spec_scan(&self, unit: char) -> CodePoint<char> {
        self.scan(&unit)
    }

    fn scan(&self, codepoint: &char) -> CodePoint<char> {
        if CodePointInterface::is_whitespace(codepoint) {
            return CodePoint::Whitespace(*codepoint);
        } else if codepoint.is_null() {
            return CodePoint::NULL;
        }
        if *codepoint == 'l' {
            return CodePoint::Ignore;
        }
        CodePoint::Unit(codepoint.to_owned())
    }
}

#[test]
fn test_input_stream_chars() {
    let mut input_stream = InputStream::new(SOURCE.chars().collect());
    assert_eq!(input_stream.consume_next(), Ok(CodePoint::Unit('H')));
    assert_eq!(input_stream.consume_next(), Ok(CodePoint::Unit('e')));
    assert_eq!(input_stream.consume_next(), Ok(CodePoint::Unit('l')));
    assert_eq!(input_stream.consume_next(), Ok(CodePoint::Unit('l')));
    assert_eq!(input_stream.consume_next(), Ok(CodePoint::Unit('o')));

    assert_eq!(input_stream.consume_next(), Ok(CodePoint::Whitespace(' ')));

    assert_eq!(input_stream.consume_next(), Ok(CodePoint::Unit('W')));
    assert_eq!(input_stream.consume_next(), Ok(CodePoint::Unit('o')));
    assert_eq!(input_stream.consume_next(), Ok(CodePoint::Unit('r')));
    assert_eq!(input_stream.consume_next(), Ok(CodePoint::Unit('l')));
    assert_eq!(input_stream.consume_next(), Ok(CodePoint::Unit('d')));

    assert_eq!(input_stream.consume_next(), Ok(CodePoint::Newline('\n')));

    assert_eq!(input_stream.consume_next(), Ok(CodePoint::EOF));
    assert_eq!(input_stream.consume_next(), Ok(CodePoint::EOF));
    assert_eq!(input_stream.consume_next(), Ok(CodePoint::EOF));
    assert_eq!(input_stream.consume_next(), Ok(CodePoint::EOF));
    assert_eq!(input_stream.consume_next(), Ok(CodePoint::EOF));
    assert_eq!(input_stream.consume_next(), Ok(CodePoint::EOF));
}

#[test]
fn test_input_stream_bytes() {
    let mut input_stream = InputStream::new(SOURCE.bytes().collect());

    assert_eq!(input_stream.consume_next(), Ok(CodePoint::Unit(b'H')));
    assert_eq!(input_stream.consume_next(), Ok(CodePoint::Unit(b'e')));
    assert_eq!(input_stream.consume_next(), Ok(CodePoint::Unit(b'l')));
    assert_eq!(input_stream.consume_next(), Ok(CodePoint::Unit(b'l')));
    assert_eq!(input_stream.consume_next(), Ok(CodePoint::Unit(b'o')));

    assert_eq!(input_stream.consume_next(), Ok(CodePoint::Whitespace(b' ')));

    assert_eq!(input_stream.consume_next(), Ok(CodePoint::Unit(b'W')));
    assert_eq!(input_stream.consume_next(), Ok(CodePoint::Unit(b'o')));
    assert_eq!(input_stream.consume_next(), Ok(CodePoint::Unit(b'r')));
    assert_eq!(input_stream.consume_next(), Ok(CodePoint::Unit(b'l')));
    assert_eq!(input_stream.consume_next(), Ok(CodePoint::Unit(b'd')));

    assert_eq!(input_stream.consume_next(), Ok(CodePoint::Newline(b'\n')));

    assert_eq!(input_stream.consume_next(), Ok(CodePoint::EOF));
    assert_eq!(input_stream.consume_next(), Ok(CodePoint::EOF));
    assert_eq!(input_stream.consume_next(), Ok(CodePoint::EOF));
    assert_eq!(input_stream.consume_next(), Ok(CodePoint::EOF));
    assert_eq!(input_stream.consume_next(), Ok(CodePoint::EOF));
    assert_eq!(input_stream.consume_next(), Ok(CodePoint::EOF));
    assert_eq!(input_stream.consume_next(), Ok(CodePoint::EOF));
    assert_eq!(input_stream.consume_next(), Ok(CodePoint::EOF));
    assert_eq!(input_stream.consume_next(), Ok(CodePoint::EOF));
    assert_eq!(input_stream.consume_next(), Ok(CodePoint::EOF));
}

#[test]
fn test_input_stream_with_filter() {
    let mut input_stream = InputStream::new(SOURCE.chars().collect()).define_filter_scan(SkipLowercaseL);

    assert_eq!(input_stream.consume_next(), Ok(CodePoint::Unit('H')));
    assert_eq!(input_stream.consume_next(), Ok(CodePoint::Unit('e')));
    assert_eq!(input_stream.consume_next(), Ok(CodePoint::Unit('o')));

    assert_eq!(input_stream.consume_next(), Ok(CodePoint::Whitespace(' ')));

    assert_eq!(input_stream.consume_next(), Ok(CodePoint::Unit('W')));
    assert_eq!(input_stream.consume_next(), Ok(CodePoint::Unit('o')));
    assert_eq!(input_stream.consume_next(), Ok(CodePoint::Unit('r')));
    assert_eq!(input_stream.consume_next(), Ok(CodePoint::Unit('d')));

    assert_eq!(input_stream.consume_next(), Ok(CodePoint::Whitespace('\n')));

    assert_eq!(input_stream.consume_next(), Ok(CodePoint::EOF));
    assert_eq!(input_stream.consume_next(), Ok(CodePoint::EOF));
}

#[test]
fn peeks_skip_ignored_units_and_agree_with_the_next_consume() {
    let mut input_stream = InputStream::new("lla".chars().collect()).define_filter_scan(SkipLowercaseL);
    assert_eq!(input_stream.peek_next(), Ok(CodePoint::Unit('a')));
    assert_eq!(input_stream.peek_next(), Ok(CodePoint::Unit('a')));
    assert_eq!(input_stream.consume_next(), Ok(CodePoint::Unit('a')));
    assert_eq!(input_stream.peek_next(), Ok(CodePoint::EOF));
    assert_eq!(input_stream.consume_next(), Ok(CodePoint::EOF));
}

#[test]
fn only_ignored_units_reach_eof_after_draining_the_source() {
    let mut input_stream = InputStream::new("lll".chars().collect()).define_filter_scan(SkipLowercaseL);
    assert_eq!(input_stream.consume_next(), Ok(CodePoint::EOF));
    assert_eq!(input_stream.meanwhile().next(), None);
}

#[test]
fn peek_n_next_pads_with_eof() {
    let mut input_stream = InputStream::new("a,".chars().collect());
    assert_eq!(
        input_stream.peek_n_next(3),
        vec![Ok(CodePoint::Unit('a')), Ok(CodePoint::COMMA), Ok(CodePoint::EOF)]
    );
    assert_eq!(input_stream.consume_next(), Ok(CodePoint::Unit('a')));
}

#[test]
fn reconsume_current_gives_the_same_code_point_again() {
    let mut input_stream = InputStream::new("ab".chars().collect());
    assert_eq!(input_stream.consume_next(), Ok(CodePoint::Unit('a')));
    assert_eq!(input_stream.current(), Some(CodePoint::Unit('a')));
    input_stream.reconsume_current();
    assert_eq!(input_stream.consume_next(), Ok(CodePoint::Unit('a')));
    assert_eq!(input_stream.consume_next(), Ok(CodePoint::Unit('b')));
    assert_eq!(input_stream.consume_next(), Ok(CodePoint::EOF));
    assert_eq!(input_stream.current(), None);
}

#[test]
fn advance_stops_where_the_predicate_fails() {
    let mut input_stream = InputStream::new("   a b".chars().collect());
    let skipped = input_stream.advance_as_long_as_possible(|c: &CodePoint<char>| c.is_whitespace());
    assert_eq!(skipped.len(), 3);
    assert_eq!(input_stream.consume_next(), Ok(CodePoint::Unit('a')));
}

#[test]
fn advance_with_limit_takes_at_most_limit_plus_one() {
    let mut input_stream = InputStream::new("aaaaa".chars().collect());
    let taken = input_stream.advance_as_long_as_possible_with_limit(|_: &CodePoint<char>| true, Some(1));
    assert_eq!(taken, vec![CodePoint::Unit('a'), CodePoint::Unit('a')]);
    let rest = input_stream.advance_as_long_as_possible(|_: &CodePoint<char>| true);
    assert_eq!(rest.len(), 3);
    assert_eq!(input_stream.consume_next(), Ok(CodePoint::EOF));
}

#[test]
fn advance_and_apply_hands_each_code_point_to_the_callback() {
    let mut input_stream = InputStream::new("ab c".chars().collect());
    let mut seen = Vec::new();
    let taken = input_stream
        .advance_as_long_as_possible_and_apply(|c: &CodePoint<char>| !c.is_whitespace(), |c: &CodePoint<char>| {
            seen.push(*c)
        });
    assert_eq!(taken, vec![CodePoint::Unit('a'), CodePoint::Unit('b')]);
    assert_eq!(seen, taken);
}

#[test]
fn meanwhile_exposes_the_raw_units() {
    let mut input_stream = InputStream::new("xy".chars().collect());
    assert_eq!(input_stream.meanwhile().peek_next(), Some('x'));
    assert_eq!(input_stream.consume_next(), Ok(CodePoint::Unit('x')));
    assert_eq!(input_stream.meanwhile().next(), Some('y'));
    assert_eq!(input_stream.consume_next(), Ok(CodePoint::EOF));
}

#[test]
fn limited_advance_keeps_taking_eof_past_the_end() {
    let mut empty = InputStream::new(Vec::<char>::new());
    let taken = empty.advance_as_long_as_possible_with_limit(|_: &CodePoint<char>| true, Some(0));
    assert_eq!(taken, vec![CodePoint::EOF]);

    let mut input_stream = InputStream::new("ab\n".chars().collect());
    let taken = input_stream
        .advance_as_long_as_possible_with_limit(|c: &CodePoint<char>| !c.is_newline(), Some(4));
    assert_eq!(taken, vec![CodePoint::Unit('a'), CodePoint::Unit('b')]);

    let mut input_stream = InputStream::new("ab".chars().collect());
    let taken = input_stream
        .advance_as_long_as_possible_with_limit(|c: &CodePoint<char>| !c.is_newline(), Some(3));
    assert_eq!(taken, vec![CodePoint::Unit('a'), CodePoint::Unit('b'), CodePoint::EOF, CodePoint::EOF]);
    assert_eq!(input_stream.consume_next(), Ok(CodePoint::EOF));
}

#[test]
fn unlimited_advance_stops_at_the_end() {
    let mut input_stream = InputStream::new("ab".chars().collect());
    let taken = input_stream.advance_as_long_as_possible_with_limit(|_: &CodePoint<char>| true, None);
    assert_eq!(taken, vec![CodePoint::Unit('a'), CodePoint::Unit('b')]);
}

#[test]
fn current_follows_consumes_and_reconsumes() {
    let mut input_stream = InputStream::new("lxly".chars().collect()).define_filter_scan(SkipLowercaseL);
    assert_eq!(input_stream.current(), None);
    assert_eq!(input_stream.consume_next(), Ok(CodePoint::Unit('x')));
    assert_eq!(input_stream.current(), Some(CodePoint::Unit('x')));
    assert_eq!(input_stream.peek_next(), Ok(CodePoint::Unit('y')));
    assert_eq!(input_stream.current(), Some(CodePoint::Unit('x')));
    input_stream.reconsume_current();
    assert_eq!(input_stream.consume_next(), Ok(CodePoint::Unit('x')));
    assert_eq!(input_stream.consume_next(), Ok(CodePoint::Unit('y')));
    assert_eq!(input_stream.current(), Some(CodePoint::Unit('y')));
    assert_eq!(input_stream.consume_next(), Ok(CodePoint::EOF));
    assert_eq!(input_stream.current(), None);
}
