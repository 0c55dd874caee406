use circe::stream::CharStream;

#[test]
fn test_stream_peek_twice_same() {
    let stream = CharStream::new("abc");
    let first = stream.peek();
    let second = stream.peek();
    assert_eq!(first, Some('a'));
    assert_eq!(first, second);
}

#[test]
fn test_stream_advance_in_order() {
    let mut stream = CharStream::new("ab");
    assert_eq!(stream.peek(), Some('a'));
    assert_eq!(stream.advance(), Some('a'));
    assert_eq!(stream.peek(), Some('b'));
    assert_eq!(stream.advance(), Some('b'));
    assert_eq!(stream.peek(), None);
    assert_eq!(stream.advance(), None);
    assert_eq!(stream.peek(), None);
}

#[test]
fn test_stream_unicode_scalars() {
    let mut stream = CharStream::new("héþ");
    assert_eq!(stream.advance(), Some('h'));
    assert_eq!(stream.advance(), Some('é'));
    assert_eq!(stream.advance(), Some('þ'));
    assert_eq!(stream.advance(), None);
}

#[test]
fn test_stream_empty() {
    let stream = CharStream::new("");
    assert_eq!(stream.peek(), None);
}
