use lexical_analysis::ByteStream;

#[test]
fn test_from_slice() {
    let bytes: &[u8; 13] = b"Hello, world!";
    let stream = ByteStream::from_bytes(bytes);
    let mut chars = stream.chars().into_iter();
    assert_eq!(chars.next(), Some('H'));
    assert_eq!(chars.last(), Some('!'));
}

#[test]
fn test_from_str() {
    let source: &'static str = "/* A source file. */\nlet x = 1;\n";
    let stream = ByteStream::from_text(source);
    let mut chars = stream.chars().into_iter();
    assert_eq!(chars.next(), Some('/'));
    assert_eq!(chars.next(), Some('*'));
    assert_eq!(chars.last(), Some('\n'));
}

#[test]
fn invalid_utf8_gives_an_empty_text() {
    let stream = ByteStream::from_bytes(&[0x66, 0xFF, 0x67]);
    assert!(stream.chars().is_empty());
    assert!(stream.bytes().is_empty());
}

#[test]
fn multibyte_text_is_decoded() {
    let stream = ByteStream::from_bytes("é!".as_bytes());
    assert_eq!(stream.chars(), vec!['é', '!']);
    assert_eq!(stream.bytes(), &[0xC3, 0xA9, 0x21]);
}
