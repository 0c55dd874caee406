use vstd::prelude::*;
use vstd::string::*;
use crate::chars::{is_unicode_whitespace, is_unicode_alphabetic, is_ascii_punct};
use crate::scan::{word_len, find_char, find_marker, scan_word, scan_until, scan_to_marker};
use crate::scan::{lemma_word_len_bounds, lemma_find_char_range, lemma_find_marker_range};
use crate::scan::{lemma_find_char_absent, lemma_find_char_concat};
use crate::stream::CharStream;

verus! {

/// A token of the high-level language.
#[derive(Debug, PartialEq)]
pub enum Token {
    /// An alphabetic-led word that is not a reserved word.
    Identifier(String),
    /// A reserved word: `howto` or `whatis`.
    Keyword(String),
    /// The content of a single-quoted string, quotes stripped.
    Literal(String),
    /// A single ASCII punctuation mark with no meaning of its own.
    Punctuation(char),
    Percent,
    Ampersand,
    Question,
    Dot,
    Newline,
    /// The text between a `$$` pair, captured verbatim.
    FinalSequence(String),
}

/// The mathematical value of a [`Token`]: the same shape, with each text
/// payload as a sequence of characters.
pub enum SpecToken {
    Identifier(Seq<char>),
    Keyword(Seq<char>),
    Literal(Seq<char>),
    Punctuation(char),
    Percent,
    Ampersand,
    Question,
    Dot,
    Newline,
    FinalSequence(Seq<char>),
}

impl View for Token {
    type V = SpecToken;

    open spec fn view(&self) -> SpecToken {
        match self {
            Token::Identifier(s) => SpecToken::Identifier(s@),
            Token::Keyword(s) => SpecToken::Keyword(s@),
            Token::Literal(s) => SpecToken::Literal(s@),
            Token::Punctuation(c) => SpecToken::Punctuation(*c),
            Token::Percent => SpecToken::Percent,
            Token::Ampersand => SpecToken::Ampersand,
            Token::Question => SpecToken::Question,
            Token::Dot => SpecToken::Dot,
            Token::Newline => SpecToken::Newline,
            Token::FinalSequence(s) => SpecToken::FinalSequence(s@),
        }
    }
}

impl Clone for Token {
    fn clone(&self) -> (r: Token)
        ensures
            r@ == self@,
    {
        match self {
            Token::Identifier(s) => Token::Identifier(s.clone()),
            Token::Keyword(s) => Token::Keyword(s.clone()),
            Token::Literal(s) => Token::Literal(s.clone()),
            Token::Punctuation(c) => Token::Punctuation(*c),
            Token::Percent => Token::Percent,
            Token::Ampersand => Token::Ampersand,
            Token::Question => Token::Question,
            Token::Dot => Token::Dot,
            Token::Newline => Token::Newline,
            Token::FinalSequence(s) => Token::FinalSequence(s.clone()),
        }
    }
}

/// An error of the high-level lexer.
#[derive(Debug, Clone, Copy, PartialEq, Eq, Structural)]
pub enum LexerError {
    /// No token can start with this character.
    UnexpectedCharacter(char),
    /// A literal or a quotation was opened but the text ended before it
    /// could close.
    UnexpectedEndOfInput,
}

/// Whitespace that the lexer skips silently: every whitespace character
/// except the newline, which is a token of its own.
pub open spec fn lex_ws(c: char) -> bool {
    is_unicode_whitespace(c) && c != '\n'
}

/// `s` with its maximal prefix of skippable whitespace removed.
pub open spec fn skip_ws(s: Seq<char>) -> Seq<char>
    decreases s.len(),
{
    if s.len() > 0 && lex_ws(s[0]) {
        skip_ws(s.drop_first())
    } else {
        s
    }
}

/// The reserved words of the language.
pub open spec fn is_reserved(w: Seq<char>) -> bool {
    w == "howto"@ || w == "whatis"@
}

/// One lexing step on a text that starts at a token boundary (no skippable
/// whitespace in front): the token read (`Ok(None)` at the end of the text)
/// or the error, and the text that remains after it.
pub open spec fn hl_token(t: Seq<char>) -> (Result<Option<SpecToken>, LexerError>, Seq<char>) {
    if t.len() == 0 {
        (Ok(None), t)
    } else {
        let c = t[0];
        if c == '\n' {
            (Ok(Some(SpecToken::Newline)), t.drop_first())
        } else if c == '\'' {
            let body = t.drop_first();
            let q = find_char(body, '\'');
            if q < 0 {
                (Err(LexerError::UnexpectedEndOfInput), t)
            } else {
                (Ok(Some(SpecToken::Literal(body.take(q)))), body.skip(q + 1))
            }
        } else if c == '%' {
            (Ok(Some(SpecToken::Percent)), t.drop_first())
        } else if c == '&' {
            (Ok(Some(SpecToken::Ampersand)), t.drop_first())
        } else if c == '?' {
            (Ok(Some(SpecToken::Question)), t.drop_first())
        } else if c == '.' {
            (Ok(Some(SpecToken::Dot)), t.drop_first())
        } else if c == '$' {
            if t.len() >= 2 && t[1] == '$' {
                let body = t.skip(2);
                let m = find_marker(body);
                if m < 0 {
                    (Err(LexerError::UnexpectedEndOfInput), t)
                } else {
                    (Ok(Some(SpecToken::FinalSequence(body.take(m)))), body.skip(m + 2))
                }
            } else {
                (Ok(Some(SpecToken::Punctuation('$'))), t.drop_first())
            }
        } else if is_unicode_alphabetic(c) {
            let n = word_len(t);
            let w = t.take(n);
            if is_reserved(w) {
                (Ok(Some(SpecToken::Keyword(w))), t.skip(n))
            } else {
                (Ok(Some(SpecToken::Identifier(w))), t.skip(n))
            }
        } else if is_ascii_punct(c) {
            (Ok(Some(SpecToken::Punctuation(c))), t.drop_first())
        } else {
            (Err(LexerError::UnexpectedCharacter(c)), t)
        }
    }
}

/// One lexing step on arbitrary remaining text: skip whitespace, then read
/// one token. This function is the contract of [`Lexer::next`].
pub open spec fn hl_lex(s: Seq<char>) -> (Result<Option<SpecToken>, LexerError>, Seq<char>) {
    hl_token(skip_ws(s))
}

/// The spec-level value of a lexing result.
pub open spec fn token_obs(r: Result<Option<Token>, LexerError>) -> Result<
    Option<SpecToken>,
    LexerError,
> {
    match r {
        Ok(Some(t)) => Ok(Some(t@)),
        Ok(None) => Ok(None),
        Err(e) => Err(e),
    }
}

pub proof fn lemma_skip_ws_len(s: Seq<char>)
    ensures
        skip_ws(s).len() <= s.len(),
    decreases s.len(),
{
    if s.len() > 0 && lex_ws(s[0]) {
        lemma_skip_ws_len(s.drop_first());
    }
}

/// A successful lexing step consumes at least one character unless it hits
/// the end of the text, and never adds characters back.
pub proof fn lemma_hl_lex_consumes(s: Seq<char>)
    ensures
        hl_lex(s).1.len() <= s.len(),
        hl_lex(s).0 matches Ok(t) && t is Some ==> hl_lex(s).1.len() < s.len(),
{
    lemma_skip_ws_len(s);
    let t = skip_ws(s);
    if t.len() > 0 {
        let c = t[0];
        if c == '\'' {
            lemma_find_char_range(t.drop_first(), '\'');
        } else if c == '\n' || c == '%' || c == '&' || c == '?' || c == '.' {
        } else if c == '$' {
            if t.len() >= 2 && t[1] == '$' {
                lemma_find_marker_range(t.skip(2));
            }
        } else if is_unicode_alphabetic(c) {
            lemma_word_len_bounds(t);
            lemma_word_len_bounds(t.drop_first());
        }
    }
}

/// At a token boundary a quoted literal lexes to exactly its content, with
/// the quotes stripped and nothing else consumed; a literal that is opened
/// but never closed fails with an end-of-input error.
pub proof fn lemma_quoted_literal(text: Seq<char>, rest: Seq<char>)
    requires
        !text.contains('\''),
    ensures
        hl_token(seq!['\''] + text + seq!['\''] + rest) == (
            Ok::<Option<SpecToken>, LexerError>(Some(SpecToken::Literal(text))),
            rest,
        ),
        hl_token(seq!['\''] + text).0 == Err::<Option<SpecToken>, LexerError>(
            LexerError::UnexpectedEndOfInput,
        ),
{
    let u = seq!['\''] + text + seq!['\''] + rest;
    assert(u[0] == '\'');
    let body = u.drop_first();
    assert(body =~= text + (seq!['\''] + rest));
    lemma_find_char_concat(text, seq!['\''] + rest, '\'');
    assert(body.take(text.len() as int) =~= text);
    assert(body.skip(text.len() as int + 1) =~= rest);
    let v = seq!['\''] + text;
    assert(v[0] == '\'');
    assert(v.drop_first() =~= text);
    lemma_find_char_absent(text, '\'');
}

/// Consume the maximal prefix of skippable whitespace.
fn skip_spaces(stream: &mut CharStream)
    ensures
        final(stream)@ == skip_ws(old(stream)@),
{
    loop
        invariant
            skip_ws(old(stream)@) == skip_ws(stream@),
        ensures
            stream@ == skip_ws(old(stream)@),
        decreases stream@.len(),
    {
        match stream.peek() {
            Some(c) => {
                if c.is_whitespace() && c != '\n' {
                    stream.advance();
                } else {
                    break;
                }
            },
            None => {
                break;
            },
        }
    }
}

/// Read one token from the stream, as [`hl_lex`] describes.
fn read_token(stream: &mut CharStream) -> (r: Result<Option<Token>, LexerError>)
    ensures
        token_obs(r) == hl_lex(old(stream)@).0,
        r is Ok ==> final(stream)@ == hl_lex(old(stream)@).1,
{
    skip_spaces(stream);
    let ghost t = stream@;
    let c = match stream.peek() {
        Some(c) => c,
        None => {
            return Ok(None);
        },
    };
    if c == '\n' {
        stream.advance();
        Ok(Some(Token::Newline))
    } else if c == '\'' {
        stream.advance();
        match scan_until(stream, '\'') {
            Some(text) => Ok(Some(Token::Literal(text))),
            None => Err(LexerError::UnexpectedEndOfInput),
        }
    } else if c == '%' {
        stream.advance();
        Ok(Some(Token::Percent))
    } else if c == '&' {
        stream.advance();
        Ok(Some(Token::Ampersand))
    } else if c == '?' {
        stream.advance();
        Ok(Some(Token::Question))
    } else if c == '.' {
        stream.advance();
        Ok(Some(Token::Dot))
    } else if c == '$' {
        stream.advance();
        match stream.peek() {
            Some(c2) => {
                if c2 == '$' {
                    stream.advance();
                    proof {
                        assert(t.drop_first().drop_first() =~= t.skip(2));
                    }
                    match scan_to_marker(stream) {
                        Some(text) => Ok(Some(Token::FinalSequence(text))),
                        None => Err(LexerError::UnexpectedEndOfInput),
                    }
                } else {
                    Ok(Some(Token::Punctuation('$')))
                }
            },
            None => Ok(Some(Token::Punctuation('$'))),
        }
    } else if c.is_alphabetic() {
        let word = scan_word(stream);
        let howto = String::from_str("howto");
        let whatis = String::from_str("whatis");
        if word == howto || word == whatis {
            Ok(Some(Token::Keyword(word)))
        } else {
            Ok(Some(Token::Identifier(word)))
        }
    } else if c.is_ascii_punctuation() {
        stream.advance();
        Ok(Some(Token::Punctuation(c)))
    } else {
        Err(LexerError::UnexpectedCharacter(c))
    }
}

/// The high-level lexer: tokens over a character stream, with a one-slot
/// lookahead cache. The view of a lexer is the sequence of characters it has
/// not yet consumed; a token sitting in the lookahead cache counts as not
/// consumed.
pub struct Lexer {
    stream: CharStream,
    peeked: Option<Token>,
    src: Ghost<Seq<char>>,
}

impl View for Lexer {
    type V = Seq<char>;

    closed spec fn view(&self) -> Seq<char> {
        if self.peeked is Some {
            self.src@
        } else {
            self.stream@
        }
    }
}

impl Lexer {
    /// Internal consistency of the lookahead cache: a cached token, together
    /// with the stream behind it, is exactly one lexing step of the view.
    pub closed spec fn wf(&self) -> bool {
        match self.peeked {
            Some(t) => hl_lex(self.src@).0 == Ok::<Option<SpecToken>, LexerError>(Some(t@))
                && hl_lex(self.src@).1 == self.stream@,
            None => true,
        }
    }

    /// A lexer over the given character stream.
    pub fn new(stream: CharStream) -> (l: Lexer)
        ensures
            l.wf(),
            l@ == stream@,
    {
        Lexer { stream, peeked: None, src: Ghost(Seq::empty()) }
    }

    /// Consume and return the next token; `Ok(None)` at the end of the
    /// text. The result and the remaining text are exactly those of one
    /// [`hl_lex`] step.
    pub fn next(&mut self) -> (r: Result<Option<Token>, LexerError>)
        requires
            old(self).wf(),
        ensures
            final(self).wf(),
            token_obs(r) == hl_lex(old(self)@).0,
            r is Ok ==> final(self)@ == hl_lex(old(self)@).1,
    {
        let taken: Option<Token> = match &self.peeked {
            Some(t) => Some(t.clone()),
            None => None,
        };
        match taken {
            Some(t) => {
                self.peeked = None;
                Ok(Some(t))
            },
            None => read_token(&mut self.stream),
        }
    }

    /// Return the next token without consuming it: on success the view is
    /// unchanged (or, at the end of the text, only whitespace has been
    /// dropped), so a repeated `peek` returns the same value.
    pub fn peek(&mut self) -> (r: Result<Option<Token>, LexerError>)
        requires
            old(self).wf(),
        ensures
            final(self).wf(),
            token_obs(r) == hl_lex(old(self)@).0,
            r matches Ok(t) ==> if t is Some {
                final(self)@ == old(self)@
            } else {
                final(self)@ == hl_lex(old(self)@).1
            },
            r is Ok ==> hl_lex(final(self)@).0 == hl_lex(old(self)@).0,
    {
        match &self.peeked {
            Some(t) => {
                return Ok(Some(t.clone()));
            },
            None => {},
        }
        let ghost orig = self.stream@;
        match read_token(&mut self.stream) {
            Ok(Some(t)) => {
                let copy = t.clone();
                self.src = Ghost(orig);
                self.peeked = Some(t);
                Ok(Some(copy))
            },
            Ok(None) => {
                proof {
                    lemma_skip_ws_empty(orig);
                }
                Ok(None)
            },
            Err(e) => Err(e),
        }
    }
}

/// At the end of the text the remaining sequence is empty, and lexing it
/// again still reports the end of the text.
proof fn lemma_skip_ws_empty(s: Seq<char>)
    requires
        hl_lex(s).0 == Ok::<Option<SpecToken>, LexerError>(None),
    ensures
        hl_lex(hl_lex(s).1) == hl_lex(s),
{
    let t = skip_ws(s);
    assert(t.len() == 0);
}

impl From<&str> for Lexer {
    /// A lexer reading the characters of `data`.
    fn from(data: &str) -> (l: Lexer)
        ensures
            l.wf(),
            l@ == data@,
    {
        Lexer::new(CharStream::new(data))
    }
}

impl vstd::std_specs::convert::FromSpecImpl<&str> for Lexer {
    open spec fn obeys_from_spec() -> bool {
        false
    }

    open spec fn from_spec(v: &str) -> Lexer {
        arbitrary()
    }
}

} // verus!
