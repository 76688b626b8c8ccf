use lexical_analysis::{consume_ident_sequence, IdentifierParseError, InputStream, Keyword, KeywordParseError, Location};

#[test]
fn test_keyword() {
    assert_eq!("function".parse::<Keyword>(), Ok(Keyword::Function));
    assert_eq!("fn".parse::<Keyword>(), Ok(Keyword::Function));
    assert_eq!("func".parse::<Keyword>(), Ok(Keyword::Function));

    assert_eq!("export".parse::<Keyword>(), Ok(Keyword::Export));
    assert_eq!("pub".parse::<Keyword>(), Ok(Keyword::Export));
    assert_eq!("public".parse::<Keyword>(), Ok(Keyword::Export));
}

#[test]
fn unknown_keyword_keeps_its_text() {
    assert_eq!(
        Keyword::from_str("functions"),
        Err(KeywordParseError::Unknown { found: "functions".to_string() })
    );
    assert_eq!(Keyword::from_str("use"), Ok(Keyword::Import));
    assert_eq!(Keyword::from_str(""), Err(KeywordParseError::Unknown { found: String::new() }));
}

#[test]
fn identifier_is_read_up_to_the_first_non_identifier_code_point() {
    let mut stream = InputStream::new("my_name2 = 1".chars().collect());
    let out = consume_ident_sequence(&mut stream, Location::new()).unwrap();
    assert_eq!(out.identifier, "my_name2");
    assert_eq!(out.location, Location::new());
    assert_eq!(stream.consume_next(), Ok(lexical_analysis::CodePoint::Whitespace(' ')));
}

#[test]
fn identifier_that_spells_a_keyword_is_reported() {
    let mut stream = InputStream::new("while(x)".chars().collect());
    assert_eq!(
        consume_ident_sequence(&mut stream, Location::new()),
        Err(IdentifierParseError::IsKeyword { found: Keyword::While })
    );
    assert_eq!(stream.consume_next(), Ok(lexical_analysis::CodePoint::LEFT_PARENTHESIS));
}
