use lexical_analysis::{CodePoint, InputStream, InputStreamError, TokenStream};

fn tokens(text: &str) -> TokenStream<CodePoint<char>, InputStreamError> {
    TokenStream::from_stream(InputStream::new(text.chars().collect()))
}

#[test]
fn from_stream_drains_up_to_eof() {
    let stream = tokens("a+");
    assert_eq!(stream.collect(), vec![Ok(CodePoint::Unit('a')), Ok(CodePoint::PLUS_SIGN)]);
}

#[test]
fn consume_moves_the_previous_token_to_the_recycle_bin() {
    let mut stream = tokens("abc");
    assert_eq!(stream.peek_next(), Ok(CodePoint::Unit('a')));
    assert_eq!(stream.consume_next(), Ok(CodePoint::Unit('a')));
    assert_eq!(stream.consume_next(), Ok(CodePoint::Unit('b')));
    assert_eq!(stream.consume_next(), Ok(CodePoint::Unit('c')));
    assert_eq!(stream.current(), Some(CodePoint::Unit('c')));
    assert_eq!(stream.consume_next(), Err(InputStreamError::EOS));
    assert_eq!(stream.peek_next(), Err(InputStreamError::EOS));
    assert_eq!(stream.current(), None);
}

#[test]
fn recover_takes_back_only_what_the_predicate_accepts() {
    let mut stream = tokens("ab c");
    for _ in 0..4 {
        let _ = stream.consume_next();
    }
    // The bin now holds a, b and the space, most recent last.
    let recovered = stream.recover_as_long_as_possible(|t: &Result<CodePoint<char>, InputStreamError>| {
        matches!(t, Ok(CodePoint::Whitespace(_)))
    });
    assert_eq!(recovered, vec![Ok(CodePoint::Whitespace(' '))]);
    let rest = stream.recover_as_long_as_possible(|_: &Result<CodePoint<char>, InputStreamError>| true);
    assert_eq!(rest, vec![Ok(CodePoint::Unit('b')), Ok(CodePoint::Unit('a'))]);
    let none = stream.recover_as_long_as_possible(|_: &Result<CodePoint<char>, InputStreamError>| true);
    assert!(none.is_empty());
}

#[test]
fn reconsume_gives_the_current_token_again() {
    let mut stream = tokens("xy");
    assert_eq!(stream.consume_next(), Ok(CodePoint::Unit('x')));
    stream.reconsume_current();
    assert_eq!(stream.peek_next(), Ok(CodePoint::Unit('x')));
    assert_eq!(stream.consume_next(), Ok(CodePoint::Unit('x')));
    assert_eq!(stream.consume_next(), Ok(CodePoint::Unit('y')));
}
