use lexical_analysis::{consume_delimiter, InputStream};
use lexical_analysis::{
    Arithmetic, Assignment, Bitwise, BoundaryPairs, CodePoint, Comparison, Delimiter, DelimiterParseError,
    Operator, Symbol,
};

type C = CodePoint<char>;

#[test]
fn three_unit_window_prefers_the_assignment() {
    let window: [C; 3] = [CodePoint::LESS_THAN_SIGN, CodePoint::LESS_THAN_SIGN, CodePoint::EQUALS_SIGN];
    assert_eq!(
        Delimiter::try_from_triple(window),
        Ok(Delimiter::Operator(Operator::Assignment(Assignment::LEFT_SHIFT)))
    );
    let pair: [C; 2] = [CodePoint::LESS_THAN_SIGN, CodePoint::LESS_THAN_SIGN];
    assert_eq!(Delimiter::try_from_pair(pair), Ok(Delimiter::Operator(Operator::Bitwise(Bitwise::LEFT_SHIFT))));
}

#[test]
fn single_code_point_delimiters() {
    assert_eq!(Delimiter::try_from_codepoint::<char>(CodePoint::FULL_STOP), Ok(Delimiter::Symbol(Symbol::DOT)));
    assert_eq!(Delimiter::try_from_codepoint(CodePoint::Unit('@')), Ok(Delimiter::Symbol(Symbol::AT)));
    assert_eq!(
        Delimiter::try_from_codepoint::<char>(CodePoint::RIGHT_CURLY_BRACKET),
        Ok(Delimiter::BoundaryPairs(BoundaryPairs::RIGHT_CURLY_BRACKET))
    );
    assert_eq!(
        Delimiter::try_from_codepoint::<char>(CodePoint::LESS_THAN_SIGN),
        Ok(Delimiter::Operator(Operator::Comparison(Comparison::LESS_THAN)))
    );
    assert_eq!(
        Delimiter::try_from_codepoint::<char>(CodePoint::PERCENTAGE_SIGN),
        Ok(Delimiter::Operator(Operator::Arithmetic(Arithmetic::REMAINDER)))
    );
}

#[test]
fn invalid_delimiters_carry_their_text() {
    assert_eq!(
        Delimiter::try_from_codepoint(CodePoint::Unit('a')),
        Err(DelimiterParseError::Invalid { found: "a".to_string() })
    );
    assert_eq!(
        Delimiter::try_from_codepoint::<char>(CodePoint::EOF),
        Err(DelimiterParseError::Invalid { found: String::new() })
    );
    let pair: [C; 2] = [CodePoint::PLUS_SIGN, CodePoint::Unit('a')];
    assert_eq!(Delimiter::try_from_pair(pair), Err(DelimiterParseError::Invalid { found: "+a".to_string() }));
    let window: [C; 3] = [CodePoint::FULL_STOP, CodePoint::FULL_STOP, CodePoint::EOF];
    assert_eq!(Delimiter::try_from_triple(window), Err(DelimiterParseError::Invalid { found: "..".to_string() }));
}

#[test]
fn two_unit_symbols() {
    let arrow: [C; 2] = [CodePoint::EQUALS_SIGN, CodePoint::GREATER_THAN_SIGN];
    assert_eq!(Delimiter::try_from_pair(arrow), Ok(Delimiter::Symbol(Symbol::FAT_ARROW)));
    let range: [C; 3] = [CodePoint::FULL_STOP, CodePoint::FULL_STOP, CodePoint::EQUALS_SIGN];
    assert_eq!(Delimiter::try_from_triple(range), Ok(Delimiter::Symbol(Symbol::RANGE_INCLUSIVE)));
}

#[test]
fn longest_match_prefers_the_widest_table() {
    let window: [C; 3] = [CodePoint::LESS_THAN_SIGN, CodePoint::LESS_THAN_SIGN, CodePoint::EQUALS_SIGN];
    assert_eq!(
        Delimiter::longest_match(&window),
        Ok((Delimiter::Operator(Operator::Assignment(Assignment::LEFT_SHIFT)), 3))
    );
    let window: [C; 3] = [CodePoint::LESS_THAN_SIGN, CodePoint::LESS_THAN_SIGN, CodePoint::Unit('a')];
    assert_eq!(
        Delimiter::longest_match(&window),
        Ok((Delimiter::Operator(Operator::Bitwise(Bitwise::LEFT_SHIFT)), 2))
    );
    let window: [C; 1] = [CodePoint::Unit('a')];
    assert_eq!(Delimiter::longest_match(&window), Err(DelimiterParseError::Invalid { found: "a".to_string() }));
}

#[test]
fn consume_delimiter_takes_the_longest_operator() {
    let mut stream = InputStream::new("<<=<<a".chars().collect());
    assert_eq!(
        consume_delimiter(&mut stream),
        Ok(Delimiter::Operator(Operator::Assignment(Assignment::LEFT_SHIFT)))
    );
    assert_eq!(consume_delimiter(&mut stream), Ok(Delimiter::Operator(Operator::Bitwise(Bitwise::LEFT_SHIFT))));
    assert!(consume_delimiter(&mut stream).is_err());
    assert_eq!(stream.consume_next(), Ok(CodePoint::Unit('a')));
    assert!(consume_delimiter(&mut stream).is_err());
}

#[test]
fn signs_spell_the_delimiters() {
    assert_eq!(Assignment::LEFT_SHIFT.sign(), "<<=");
    assert_eq!(Assignment::EXPONENTIATION.sign(), "**=");
    assert_eq!(Bitwise::LEFT_SHIFT.sign(), "<<");
    assert_eq!(Comparison::NOT_EQUAL.sign(), "!=");
    assert_eq!(Arithmetic::EXPONENTIATION.sign(), "^^");
    assert_eq!(Symbol::ESCAPE.sign(), "\\");
    assert_eq!(Symbol::TILDE.sign(), "`");
    assert_eq!(BoundaryPairs::LEFT_CURLY_BRACKET.sign(), "{");
    assert_eq!(lexical_analysis::Logical::OR.sign(), "||");
}
