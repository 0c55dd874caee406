use circe::lowlevel::{Lexer, LexerError, Token};
use circe::stream::CharStream;

fn lowlevel(text: &str) -> Lexer {
    Lexer::new(CharStream::new(text))
}

#[test]
fn test_lowlevel_variable() {
    let mut lexer = lowlevel("@foo");
    assert_eq!(lexer.next().unwrap().unwrap(), Token::Variable("foo".to_string()));
    assert_eq!(lexer.next().unwrap(), None);
}

#[test]
fn test_lowlevel_identifier() {
    let mut lexer = lowlevel("Pair");
    assert_eq!(lexer.next().unwrap().unwrap(), Token::Identifier("Pair".to_string()));
}

#[test]
fn test_lowlevel_literal() {
    let mut lexer = lowlevel("123 45");
    assert_eq!(lexer.next().unwrap().unwrap(), Token::Literal("123".to_string()));
    assert_eq!(lexer.next().unwrap().unwrap(), Token::Literal("45".to_string()));
    assert_eq!(lexer.next().unwrap(), None);
}

#[test]
fn test_lowlevel_equality() {
    let mut lexer = lowlevel("@x = 1");
    assert_eq!(lexer.next().unwrap().unwrap(), Token::Variable("x".to_string()));
    assert_eq!(lexer.next().unwrap().unwrap(), Token::Punctuation('='));
    assert_eq!(lexer.next().unwrap().unwrap(), Token::Literal("1".to_string()));
}

#[test]
fn test_lowlevel_high_level_sequence() {
    let mut lexer = lowlevel("Greeting = <say hello>");
    assert_eq!(
        lexer.next().unwrap().unwrap(),
        Token::Identifier("Greeting".to_string())
    );
    assert_eq!(lexer.next().unwrap().unwrap(), Token::Punctuation('='));
    assert_eq!(
        lexer.next().unwrap().unwrap(),
        Token::HighLevelSequence("say hello".to_string())
    );
    assert_eq!(lexer.next().unwrap(), None);
}

#[test]
fn test_lowlevel_lowercase_rejected() {
    // the low-level grammar has no catch-all token: a lowercase-leading word
    // cannot start a token
    let mut lexer = lowlevel("pair");
    assert_eq!(lexer.next(), Err(LexerError::UnexpectedCharacter('p')));
}

#[test]
fn test_lowlevel_unexpected_punctuation() {
    let mut lexer = lowlevel("+");
    assert_eq!(lexer.next(), Err(LexerError::UnexpectedCharacter('+')));
}

#[test]
fn test_lowlevel_sigil_at_end() {
    let mut lexer = lowlevel("@");
    assert_eq!(lexer.next(), Err(LexerError::UnexpectedEndOfInput));
}

#[test]
fn test_lowlevel_open_window() {
    let mut lexer = lowlevel("<no closing bracket");
    assert_eq!(lexer.next(), Err(LexerError::UnexpectedEndOfInput));
}

#[test]
fn test_lowlevel_skips_newlines() {
    // unlike the high-level lexer, the low-level lexer has no newline token
    let mut lexer = lowlevel("@a\n= \n 2");
    assert_eq!(lexer.next().unwrap().unwrap(), Token::Variable("a".to_string()));
    assert_eq!(lexer.next().unwrap().unwrap(), Token::Punctuation('='));
    assert_eq!(lexer.next().unwrap().unwrap(), Token::Literal("2".to_string()));
    assert_eq!(lexer.next().unwrap(), None);
}

#[test]
fn test_lowlevel_peek_twice_same() {
    let mut lexer = lowlevel("  Word  ");
    let first = lexer.peek().unwrap();
    let second = lexer.peek().unwrap();
    assert_eq!(first, second);
    assert_eq!(lexer.next().unwrap().unwrap(), Token::Identifier("Word".to_string()));
    let first = lexer.peek().unwrap();
    let second = lexer.peek().unwrap();
    assert_eq!(first, None);
    assert_eq!(first, second);
}

#[test]
fn test_lowlevel_window_no_nesting() {
    // the window ends at the first `>`, with no bracket tracking
    let mut lexer = lowlevel("<a <b> c>");
    assert_eq!(
        lexer.next().unwrap().unwrap(),
        Token::HighLevelSequence("a <b".to_string())
    );
}
