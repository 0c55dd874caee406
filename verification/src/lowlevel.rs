use vstd::prelude::*;
use crate::chars::is_unicode_whitespace;
use crate::scan::{word_len, num_len, find_char, scan_word, scan_number, scan_until};
use crate::stream::CharStream;

verus! {

/// A token of the low-level (formal) sublanguage.
#[derive(Debug, PartialEq)]
pub enum Token {
    /// A sigil-prefixed bound name: `@name`, without the `@`.
    Variable(String),
    /// A capitalized type name.
    Identifier(String),
    /// A digit sequence.
    Literal(String),
    /// A punctuation mark; only `=` can occur.
    Punctuation(char),
    /// The text between `<` and `>`, captured verbatim.
    HighLevelSequence(String),
}

/// The mathematical value of a [`Token`]: the same shape, with each text
/// payload as a sequence of characters.
pub enum SpecToken {
    Variable(Seq<char>),
    Identifier(Seq<char>),
    Literal(Seq<char>),
    Punctuation(char),
    HighLevelSequence(Seq<char>),
}

impl View for Token {
    type V = SpecToken;

    open spec fn view(&self) -> SpecToken {
        match self {
            Token::Variable(s) => SpecToken::Variable(s@),
            Token::Identifier(s) => SpecToken::Identifier(s@),
            Token::Literal(s) => SpecToken::Literal(s@),
            Token::Punctuation(c) => SpecToken::Punctuation(*c),
            Token::HighLevelSequence(s) => SpecToken::HighLevelSequence(s@),
        }
    }
}

impl Clone for Token {
    fn clone(&self) -> (r: Token)
        ensures
            r@ == self@,
    {
        match self {
            Token::Variable(s) => Token::Variable(s.clone()),
            Token::Identifier(s) => Token::Identifier(s.clone()),
            Token::Literal(s) => Token::Literal(s.clone()),
            Token::Punctuation(c) => Token::Punctuation(*c),
            Token::HighLevelSequence(s) => Token::HighLevelSequence(s.clone()),
        }
    }
}

/// An error of the low-level lexer.
#[derive(Debug, Clone, Copy, PartialEq, Eq, Structural)]
pub enum LexerError {
    /// No token can start with this character; the low-level grammar has no
    /// catch-all token.
    UnexpectedCharacter(char),
    /// A name, a quotation or the sigil of a variable was opened but the
    /// text ended before the token could close.
    UnexpectedEndOfInput,
}

/// An ASCII digit, the only characters that can open a numeric literal.
pub open spec fn is_digit(c: char) -> bool {
    '0' as u32 <= c as u32 && c as u32 <= '9' as u32
}

/// An ASCII capital letter: capitalization is the sole signal that a word is
/// a type identifier in the low-level sublanguage.
pub open spec fn is_capital(c: char) -> bool {
    'A' as u32 <= c as u32 && c as u32 <= 'Z' as u32
}

/// `s` with its maximal whitespace prefix removed. Unlike the high-level
/// lexer, the low-level lexer has no newline token: every whitespace
/// character is skipped.
pub open spec fn skip_ws(s: Seq<char>) -> Seq<char>
    decreases s.len(),
{
    if s.len() > 0 && is_unicode_whitespace(s[0]) {
        skip_ws(s.drop_first())
    } else {
        s
    }
}

/// One lexing step on a text that starts at a token boundary: the token
/// read (`Ok(None)` at the end of the text) or the error, and the text that
/// remains after it.
pub open spec fn ll_token(t: Seq<char>) -> (Result<Option<SpecToken>, LexerError>, Seq<char>) {
    if t.len() == 0 {
        (Ok(None), t)
    } else {
        let c = t[0];
        if c == '@' {
            let body = t.drop_first();
            if body.len() == 0 {
                (Err(LexerError::UnexpectedEndOfInput), t)
            } else {
                (Ok(Some(SpecToken::Variable(body.take(word_len(body))))), body.skip(
                    word_len(body),
                ))
            }
        } else if is_digit(c) {
            (Ok(Some(SpecToken::Literal(t.take(num_len(t))))), t.skip(num_len(t)))
        } else if is_capital(c) {
            (Ok(Some(SpecToken::Identifier(t.take(word_len(t))))), t.skip(word_len(t)))
        } else if c == '=' {
            (Ok(Some(SpecToken::Punctuation('='))), t.drop_first())
        } else if c == '<' {
            let body = t.drop_first();
            let g = find_char(body, '>');
            if g < 0 {
                (Err(LexerError::UnexpectedEndOfInput), t)
            } else {
                (Ok(Some(SpecToken::HighLevelSequence(body.take(g)))), body.skip(g + 1))
            }
        } else {
            (Err(LexerError::UnexpectedCharacter(c)), t)
        }
    }
}

/// One lexing step on arbitrary remaining text: skip whitespace, then read
/// one token. This function is the contract of [`Lexer::next`].
pub open spec fn ll_lex(s: Seq<char>) -> (Result<Option<SpecToken>, LexerError>, Seq<char>) {
    ll_token(skip_ws(s))
}

/// The spec-level value of a lexing result.
pub open spec fn token_obs(r: Result<Option<Token>, LexerError>) -> Result<
    Option<SpecToken>,
    LexerError,
> {
    match r {
        Ok(Some(t)) => Ok(Some(t@)),
        Ok(None) => Ok(None),
        Err(e) => Err(e),
    }
}

/// Consume the maximal prefix of whitespace.
fn skip_spaces(stream: &mut CharStream)
    ensures
        final(stream)@ == skip_ws(old(stream)@),
{
    loop
        invariant
            skip_ws(old(stream)@) == skip_ws(stream@),
        ensures
            stream@ == skip_ws(old(stream)@),
        decreases stream@.len(),
    {
        match stream.peek() {
            Some(c) => {
                if c.is_whitespace() {
                    stream.advance();
                } else {
                    break;
                }
            },
            None => {
                break;
            },
        }
    }
}

/// Read one token from the stream, as [`ll_lex`] describes.
fn read_token(stream: &mut CharStream) -> (r: Result<Option<Token>, LexerError>)
    ensures
        token_obs(r) == ll_lex(old(stream)@).0,
        r is Ok ==> final(stream)@ == ll_lex(old(stream)@).1,
{
    skip_spaces(stream);
    let c = match stream.peek() {
        Some(c) => c,
        None => {
            return Ok(None);
        },
    };
    if c == '@' {
        stream.advance();
        match stream.peek() {
            Some(_) => Ok(Some(Token::Variable(scan_word(stream)))),
            None => Err(LexerError::UnexpectedEndOfInput),
        }
    } else if c as u32 >= '0' as u32 && c as u32 <= '9' as u32 {
        Ok(Some(Token::Literal(scan_number(stream))))
    } else if c as u32 >= 'A' as u32 && c as u32 <= 'Z' as u32 {
        Ok(Some(Token::Identifier(scan_word(stream))))
    } else if c == '=' {
        stream.advance();
        Ok(Some(Token::Punctuation('=')))
    } else if c == '<' {
        stream.advance();
        match scan_until(stream, '>') {
            Some(text) => Ok(Some(Token::HighLevelSequence(text))),
            None => Err(LexerError::UnexpectedEndOfInput),
        }
    } else {
        Err(LexerError::UnexpectedCharacter(c))
    }
}

/// The low-level lexer: tokens of the formal sublanguage over a character
/// stream, with a one-slot lookahead cache. The view of a lexer is the
/// sequence of characters it has not yet consumed; a token sitting in the
/// lookahead cache counts as not consumed.
pub struct Lexer {
    stream: CharStream,
    peeked: Option<Token>,
    src: Ghost<Seq<char>>,
}

impl View for Lexer {
    type V = Seq<char>;

    closed spec fn view(&self) -> Seq<char> {
        if self.peeked is Some {
            self.src@
        } else {
            self.stream@
        }
    }
}

impl Lexer {
    /// Internal consistency of the lookahead cache: a cached token, together
    /// with the stream behind it, is exactly one lexing step of the view.
    pub closed spec fn wf(&self) -> bool {
        match self.peeked {
            Some(t) => ll_lex(self.src@).0 == Ok::<Option<SpecToken>, LexerError>(Some(t@))
                && ll_lex(self.src@).1 == self.stream@,
            None => true,
        }
    }

    /// A lexer over the given character stream.
    pub fn new(stream: CharStream) -> (l: Lexer)
        ensures
            l.wf(),
            l@ == stream@,
    {
        Lexer { stream, peeked: None, src: Ghost(Seq::empty()) }
    }

    /// Consume and return the next token; `Ok(None)` at the end of the
    /// text. The result and the remaining text are exactly those of one
    /// [`ll_lex`] step.
    pub fn next(&mut self) -> (r: Result<Option<Token>, LexerError>)
        requires
            old(self).wf(),
        ensures
            final(self).wf(),
            token_obs(r) == ll_lex(old(self)@).0,
            r is Ok ==> final(self)@ == ll_lex(old(self)@).1,
    {
        let taken: Option<Token> = match &self.peeked {
            Some(t) => Some(t.clone()),
            None => None,
        };
        match taken {
            Some(t) => {
                self.peeked = None;
                Ok(Some(t))
            },
            None => read_token(&mut self.stream),
        }
    }

    /// Return the next token without consuming it: on success the view is
    /// unchanged (or, at the end of the text, only whitespace has been
    /// dropped), so a repeated `peek` returns the same value.
    pub fn peek(&mut self) -> (r: Result<Option<Token>, LexerError>)
        requires
            old(self).wf(),
        ensures
            final(self).wf(),
            token_obs(r) == ll_lex(old(self)@).0,
            r matches Ok(t) ==> if t is Some {
                final(self)@ == old(self)@
            } else {
                final(self)@ == ll_lex(old(self)@).1
            },
            r is Ok ==> ll_lex(final(self)@).0 == ll_lex(old(self)@).0,
    {
        match &self.peeked {
            Some(t) => {
                return Ok(Some(t.clone()));
            },
            None => {},
        }
        let ghost orig = self.stream@;
        match read_token(&mut self.stream) {
            Ok(Some(t)) => {
                let copy = t.clone();
                self.src = Ghost(orig);
                self.peeked = Some(t);
                Ok(Some(copy))
            },
            Ok(None) => {
                proof {
                    lemma_lex_end(orig);
                }
                Ok(None)
            },
            Err(e) => Err(e),
        }
    }
}

/// At the end of the text the remaining sequence is empty, so lexing it
/// again still reports the end of the text.
proof fn lemma_lex_end(s: Seq<char>)
    requires
        ll_lex(s).0 == Ok::<Option<SpecToken>, LexerError>(None),
    ensures
        ll_lex(ll_lex(s).1) == ll_lex(s),
{
    let t = skip_ws(s);
    assert(t.len() == 0);
}

} // verus!
