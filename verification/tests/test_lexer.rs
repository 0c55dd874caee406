use circe::lexer::{Lexer, LexerError, Token};

#[test]
fn test_lexer_basic() {
    let mut lexer = Lexer::from("howto hello world");

    let next_token = lexer.next().unwrap().unwrap();
    assert_eq!(next_token, Token::Keyword("howto".to_string()));

    let next_token = lexer.next().unwrap().unwrap();
    assert_eq!(next_token, Token::Identifier("hello".to_string()));

    let next_token = lexer.next().unwrap().unwrap();
    assert_eq!(next_token, Token::Identifier("world".to_string()));
}

#[test]
fn test_lexer_string() {
    let mut lexer = Lexer::from("howto 'hello world'");

    let next_token = lexer.next().unwrap().unwrap();
    assert_eq!(next_token, Token::Keyword("howto".to_string()));

    let next_token = lexer.next().unwrap().unwrap();
    assert_eq!(next_token, Token::Literal("hello world".to_string()));
}

#[test]
fn test_lexer_punct() {
    let mut lexer = Lexer::from("howto hello world\n- do it");

    let next_token = lexer.next().unwrap().unwrap();
    assert_eq!(next_token, Token::Keyword("howto".to_string()));

    let next_token = lexer.next().unwrap().unwrap();
    assert_eq!(next_token, Token::Identifier("hello".to_string()));

    let next_token = lexer.next().unwrap().unwrap();
    assert_eq!(next_token, Token::Identifier("world".to_string()));

    let next_token = lexer.next().unwrap().unwrap();
    assert_eq!(next_token, Token::Newline);

    let next_token = lexer.next().unwrap().unwrap();
    assert_eq!(next_token, Token::Punctuation('-'));

    let next_token = lexer.next().unwrap().unwrap();
    assert_eq!(next_token, Token::Identifier("do".to_string()));

    let next_token = lexer.next().unwrap().unwrap();
    assert_eq!(next_token, Token::Identifier("it".to_string()));
}

#[test]
fn test_lexer_peek() {
    let mut lexer = Lexer::from("howto hello world");

    let next_token = lexer.peek().unwrap().unwrap();
    assert_eq!(next_token, Token::Keyword("howto".to_string()));

    let next_token = lexer.next().unwrap().unwrap();
    assert_eq!(next_token, Token::Keyword("howto".to_string()));

    let next_token = lexer.peek().unwrap().unwrap();
    assert_eq!(next_token, Token::Identifier("hello".to_string()));

    let next_token = lexer.next().unwrap().unwrap();
    assert_eq!(next_token, Token::Identifier("hello".to_string()));

    let next_token = lexer.next().unwrap().unwrap();
    assert_eq!(next_token, Token::Identifier("world".to_string()));
}

#[test]
fn test_lexer_final() {
    let mut lexer = Lexer::from("hello -$$ struct $Foo { $bar: u32 } $$.");

    let next_token = lexer.next().unwrap().unwrap();
    assert_eq!(next_token, Token::Identifier("hello".to_string()));

    let next_token = lexer.next().unwrap().unwrap();
    assert_eq!(next_token, Token::Punctuation('-'));

    let next_token = lexer.next().unwrap().unwrap();
    assert_eq!(
        next_token,
        Token::FinalSequence(" struct $Foo { $bar: u32 } ".to_string())
    );
}

#[test]
#[should_panic]
fn test_lexer_open_string() {
    let mut lexer = Lexer::from("howto 'hello world");

    let next_token = lexer.next().unwrap().unwrap();
    assert_eq!(next_token, Token::Keyword("howto".to_string()));

    lexer.next().unwrap().unwrap();
}

#[test]
fn test_lexer_slot() {
    let mut lexer = Lexer::from("%hello");

    let next_token = lexer.next().unwrap().unwrap();
    assert_eq!(next_token, Token::Percent);

    let next_token = lexer.next().unwrap().unwrap();
    assert_eq!(next_token, Token::Identifier("hello".to_string()));
}

#[test]
fn test_lexer_open_string_error_value() {
    let mut lexer = Lexer::from("'no closing quote");
    assert_eq!(lexer.next(), Err(LexerError::UnexpectedEndOfInput));
}

#[test]
fn test_lexer_open_final_error_value() {
    let mut lexer = Lexer::from("$$ no closing marker");
    assert_eq!(lexer.next(), Err(LexerError::UnexpectedEndOfInput));
}

#[test]
fn test_lexer_unexpected_character() {
    let mut lexer = Lexer::from("hello 42");
    assert_eq!(
        lexer.next().unwrap().unwrap(),
        Token::Identifier("hello".to_string())
    );
    assert_eq!(lexer.next(), Err(LexerError::UnexpectedCharacter('4')));
}

#[test]
fn test_lexer_sigils() {
    let mut lexer = Lexer::from("% & ? .");
    assert_eq!(lexer.next().unwrap().unwrap(), Token::Percent);
    assert_eq!(lexer.next().unwrap().unwrap(), Token::Ampersand);
    assert_eq!(lexer.next().unwrap().unwrap(), Token::Question);
    assert_eq!(lexer.next().unwrap().unwrap(), Token::Dot);
    assert_eq!(lexer.next().unwrap(), None);
}

#[test]
fn test_lexer_lone_dollar() {
    let mut lexer = Lexer::from("$x");
    assert_eq!(lexer.next().unwrap().unwrap(), Token::Punctuation('$'));
    assert_eq!(lexer.next().unwrap().unwrap(), Token::Identifier("x".to_string()));
}

#[test]
fn test_lexer_final_no_nesting() {
    // the capture ends at the first `$$`, with no nesting rule
    let mut lexer = Lexer::from("$$a $$ b$$");
    assert_eq!(
        lexer.next().unwrap().unwrap(),
        Token::FinalSequence("a ".to_string())
    );
    assert_eq!(lexer.next().unwrap().unwrap(), Token::Identifier("b".to_string()));
    assert_eq!(lexer.next(), Err(LexerError::UnexpectedEndOfInput));
}

#[test]
fn test_lexer_peek_twice_same() {
    let mut lexer = Lexer::from("  'lit'  ");
    let first = lexer.peek().unwrap();
    let second = lexer.peek().unwrap();
    assert_eq!(first, second);
    assert_eq!(lexer.next().unwrap().unwrap(), Token::Literal("lit".to_string()));
    // at the end of the text too
    let first = lexer.peek().unwrap();
    let second = lexer.peek().unwrap();
    assert_eq!(first, None);
    assert_eq!(first, second);
}
