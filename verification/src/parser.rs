use vstd::prelude::*;
use vstd::string::*;
use crate::lexer::{Lexer, LexerError, Token, SpecToken, hl_lex, lemma_hl_lex_consumes};
use crate::stream::CharStream;

verus! {

/// The atomic unit inside a command or a signature.
#[derive(Debug, PartialEq)]
pub enum CommandComponent {
    /// A quoted string.
    Literal(String),
    /// A bare word: identifiers and reserved words are indistinguishable
    /// once embedded in a command.
    Keyword(String),
    /// A `%name` placeholder binding a position.
    Slot(String),
    /// An `&name` placeholder referring to a previously bound slot.
    BackRef(String),
}

/// The mathematical value of a [`CommandComponent`].
pub enum SpecComponent {
    Literal(Seq<char>),
    Keyword(Seq<char>),
    Slot(Seq<char>),
    BackRef(Seq<char>),
}

impl View for CommandComponent {
    type V = SpecComponent;

    open spec fn view(&self) -> SpecComponent {
        match self {
            CommandComponent::Literal(s) => SpecComponent::Literal(s@),
            CommandComponent::Keyword(s) => SpecComponent::Keyword(s@),
            CommandComponent::Slot(s) => SpecComponent::Slot(s@),
            CommandComponent::BackRef(s) => SpecComponent::BackRef(s@),
        }
    }
}

impl Clone for CommandComponent {
    fn clone(&self) -> (r: CommandComponent)
        ensures
            r@ == self@,
    {
        match self {
            CommandComponent::Literal(s) => CommandComponent::Literal(s.clone()),
            CommandComponent::Keyword(s) => CommandComponent::Keyword(s.clone()),
            CommandComponent::Slot(s) => CommandComponent::Slot(s.clone()),
            CommandComponent::BackRef(s) => CommandComponent::BackRef(s.clone()),
        }
    }
}

/// An ordered sequence of components (the head) plus pipe-separated
/// modifier sequences, applying left to right.
#[derive(Debug, PartialEq)]
pub struct Command {
    pub components: Vec<CommandComponent>,
    pub modifiers: Vec<Vec<CommandComponent>>,
}

/// The mathematical value of a [`Command`].
pub struct SpecCommand {
    pub components: Seq<SpecComponent>,
    pub modifiers: Seq<Seq<SpecComponent>>,
}

/// The views of a sequence of components.
pub open spec fn comps_view(s: Seq<CommandComponent>) -> Seq<SpecComponent> {
    s.map_values(|c: CommandComponent| c@)
}

/// The views of a sequence of modifier sequences.
pub open spec fn mods_view(s: Seq<Vec<CommandComponent>>) -> Seq<Seq<SpecComponent>> {
    s.map_values(|v: Vec<CommandComponent>| comps_view(v@))
}

impl View for Command {
    type V = SpecCommand;

    open spec fn view(&self) -> SpecCommand {
        SpecCommand { components: comps_view(self.components@), modifiers: mods_view(self.modifiers@) }
    }
}

/// A procedure definition: a signature (which may contain slots) and a body
/// of commands.
#[derive(Debug, PartialEq)]
pub struct HowToStatement {
    pub signature: Vec<CommandComponent>,
    pub body: Vec<Command>,
}

/// The mathematical value of a [`HowToStatement`].
pub struct SpecHowTo {
    pub signature: Seq<SpecComponent>,
    pub body: Seq<SpecCommand>,
}

/// The views of a sequence of commands.
pub open spec fn cmds_view(s: Seq<Command>) -> Seq<SpecCommand> {
    s.map_values(|c: Command| c@)
}

impl View for HowToStatement {
    type V = SpecHowTo;

    open spec fn view(&self) -> SpecHowTo {
        SpecHowTo { signature: comps_view(self.signature@), body: cmds_view(self.body@) }
    }
}

/// A body item of a concept definition: a descriptive command, or the
/// authoritative formal definition captured as low-level text.
#[derive(Debug, PartialEq)]
pub enum WhatIsCommand {
    Command(Command),
    Final(String),
}

/// The mathematical value of a [`WhatIsCommand`].
pub enum SpecWhatIsCommand {
    Command(SpecCommand),
    Final(Seq<char>),
}

impl View for WhatIsCommand {
    type V = SpecWhatIsCommand;

    open spec fn view(&self) -> SpecWhatIsCommand {
        match self {
            WhatIsCommand::Command(c) => SpecWhatIsCommand::Command(c@),
            WhatIsCommand::Final(s) => SpecWhatIsCommand::Final(s@),
        }
    }
}

/// A concept definition: a signature and a body of [`WhatIsCommand`]s.
#[derive(Debug, PartialEq)]
pub struct WhatIsStatement {
    pub signature: Vec<CommandComponent>,
    pub body: Vec<WhatIsCommand>,
}

/// The mathematical value of a [`WhatIsStatement`].
pub struct SpecWhatIs {
    pub signature: Seq<SpecComponent>,
    pub body: Seq<SpecWhatIsCommand>,
}

/// The views of a sequence of whatis body items.
pub open spec fn wcmds_view(s: Seq<WhatIsCommand>) -> Seq<SpecWhatIsCommand> {
    s.map_values(|c: WhatIsCommand| c@)
}

impl View for WhatIsStatement {
    type V = SpecWhatIs;

    open spec fn view(&self) -> SpecWhatIs {
        SpecWhatIs { signature: comps_view(self.signature@), body: wcmds_view(self.body@) }
    }
}

/// A top-level node of the parse tree.
#[derive(Debug, PartialEq)]
pub enum ParseNode {
    Command(Command),
    HowToStatement(HowToStatement),
    WhatIsStatement(WhatIsStatement),
}

/// The mathematical value of a [`ParseNode`].
pub enum SpecNode {
    Command(SpecCommand),
    HowToStatement(SpecHowTo),
    WhatIsStatement(SpecWhatIs),
}

impl View for ParseNode {
    type V = SpecNode;

    open spec fn view(&self) -> SpecNode {
        match self {
            ParseNode::Command(c) => SpecNode::Command(c@),
            ParseNode::HowToStatement(h) => SpecNode::HowToStatement(h@),
            ParseNode::WhatIsStatement(w) => SpecNode::WhatIsStatement(w@),
        }
    }
}

/// An error of the parser.
#[derive(Debug, PartialEq)]
pub enum ParserError {
    /// A lexer error, passed through.
    LexerError(LexerError),
    /// A grammar violation, with a human-readable reason.
    SyntaxError(String),
    /// A state the grammar considers unreachable in well-formed dispatch:
    /// an unrecognized reserved word, or a leading token that is neither a
    /// keyword nor an identifier. Kept distinct from [`ParserError::SyntaxError`]
    /// so callers can tell user input problems from grammar gaps.
    InternalError(String),
}

/// The mathematical value of a [`ParserError`].
pub enum SpecParserError {
    LexerError(LexerError),
    SyntaxError(Seq<char>),
    InternalError(Seq<char>),
}

impl View for ParserError {
    type V = SpecParserError;

    open spec fn view(&self) -> SpecParserError {
        match self {
            ParserError::LexerError(e) => SpecParserError::LexerError(*e),
            ParserError::SyntaxError(s) => SpecParserError::SyntaxError(s@),
            ParserError::InternalError(s) => SpecParserError::InternalError(s@),
        }
    }
}

// ---------------------------------------------------------------------------
// The grammar, as spec functions over the remaining characters. Each returns
// the parsed value or the error, together with the characters left after it;
// the remaining characters of an error outcome carry no meaning.
// ---------------------------------------------------------------------------

/// Greedy component-sequence parsing, with the components parsed so far.
/// Words and literals are consumed; `%` and `&` must be followed by an
/// identifier; punctuation, newline, `?` and `.` end the sequence without
/// being consumed; a quotation is rejected here.
pub open spec fn sp_components_acc(s: Seq<char>, acc: Seq<SpecComponent>) -> (Result<
    Seq<SpecComponent>,
    SpecParserError,
>, Seq<char>)
    decreases s.len(),
    via sp_components_acc_dec
{
    let (r0, rest) = hl_lex(s);
    match r0 {
        Err(e) => (Err(SpecParserError::LexerError(e)), s),
        Ok(None) => (Ok(acc), rest),
        Ok(Some(t)) => match t {
            SpecToken::Identifier(x) => sp_components_acc(rest, acc.push(SpecComponent::Keyword(x))),
            SpecToken::Keyword(x) => sp_components_acc(rest, acc.push(SpecComponent::Keyword(x))),
            SpecToken::Literal(x) => sp_components_acc(rest, acc.push(SpecComponent::Literal(x))),
            SpecToken::Percent => match hl_lex(rest).0 {
                Err(e) => (Err(SpecParserError::LexerError(e)), s),
                Ok(Some(SpecToken::Identifier(x))) => sp_components_acc(
                    hl_lex(rest).1,
                    acc.push(SpecComponent::Slot(x)),
                ),
                _ => (Err(SpecParserError::SyntaxError("Expected identifier"@)), s),
            },
            SpecToken::Ampersand => match hl_lex(rest).0 {
                Err(e) => (Err(SpecParserError::LexerError(e)), s),
                Ok(Some(SpecToken::Identifier(x))) => sp_components_acc(
                    hl_lex(rest).1,
                    acc.push(SpecComponent::BackRef(x)),
                ),
                _ => (Err(SpecParserError::SyntaxError("Expected identifier"@)), s),
            },
            SpecToken::FinalSequence(_) => (
                Err(SpecParserError::SyntaxError("Final sequences are not allowed here"@)),
                s,
            ),
            _ => (Ok(acc), s),
        },
    }
}

#[via_fn]
proof fn sp_components_acc_dec(s: Seq<char>, acc: Seq<SpecComponent>) {
    lemma_hl_lex_consumes(s);
    lemma_hl_lex_consumes(hl_lex(s).1);
}

/// A full component sequence, from the start.
pub open spec fn sp_components(s: Seq<char>) -> (Result<Seq<SpecComponent>, SpecParserError>, Seq<
    char,
>) {
    sp_components_acc(s, Seq::empty())
}

pub proof fn lemma_sp_components_acc_len(s: Seq<char>, acc: Seq<SpecComponent>)
    ensures
        sp_components_acc(s, acc).1.len() <= s.len(),
    decreases s.len(),
{
    lemma_hl_lex_consumes(s);
    let (r0, rest) = hl_lex(s);
    match r0 {
        Ok(Some(t)) => match t {
            SpecToken::Identifier(x) => lemma_sp_components_acc_len(
                rest,
                acc.push(SpecComponent::Keyword(x)),
            ),
            SpecToken::Keyword(x) => lemma_sp_components_acc_len(
                rest,
                acc.push(SpecComponent::Keyword(x)),
            ),
            SpecToken::Literal(x) => lemma_sp_components_acc_len(
                rest,
                acc.push(SpecComponent::Literal(x)),
            ),
            SpecToken::Percent => {
                lemma_hl_lex_consumes(rest);
                match hl_lex(rest).0 {
                    Ok(Some(SpecToken::Identifier(x))) => lemma_sp_components_acc_len(
                        hl_lex(rest).1,
                        acc.push(SpecComponent::Slot(x)),
                    ),
                    _ => {},
                }
            },
            SpecToken::Ampersand => {
                lemma_hl_lex_consumes(rest);
                match hl_lex(rest).0 {
                    Ok(Some(SpecToken::Identifier(x))) => lemma_sp_components_acc_len(
                        hl_lex(rest).1,
                        acc.push(SpecComponent::BackRef(x)),
                    ),
                    _ => {},
                }
            },
            _ => {},
        },
        _ => {},
    }
}

/// The modifier loop after a command head: `|` appends another component
/// sequence, `-` and `.` end the command (`.` is consumed, `-` is not),
/// other punctuation is rejected, newlines are tolerated, and any other
/// token ends the command without being consumed.
pub open spec fn sp_command_tail(
    s: Seq<char>,
    comps: Seq<SpecComponent>,
    mods: Seq<Seq<SpecComponent>>,
) -> (Result<SpecCommand, SpecParserError>, Seq<char>)
    decreases s.len(),
    via sp_command_tail_dec
{
    let (r0, rest) = hl_lex(s);
    match r0 {
        Err(e) => (Err(SpecParserError::LexerError(e)), s),
        Ok(None) => (Ok(SpecCommand { components: comps, modifiers: mods }), rest),
        Ok(Some(t)) => match t {
            SpecToken::Punctuation(p) => if p == '|' {
                let (rc, s2) = sp_components(rest);
                match rc {
                    Err(e) => (Err(e), s),
                    Ok(cs) => sp_command_tail(s2, comps, mods.push(cs)),
                }
            } else if p == '-' {
                (Ok(SpecCommand { components: comps, modifiers: mods }), s)
            } else {
                (Err(SpecParserError::SyntaxError("Expected '|'"@)), s)
            },
            SpecToken::Dot => (Ok(SpecCommand { components: comps, modifiers: mods }), rest),
            SpecToken::Newline => sp_command_tail(rest, comps, mods),
            _ => (Ok(SpecCommand { components: comps, modifiers: mods }), s),
        },
    }
}

#[via_fn]
proof fn sp_command_tail_dec(s: Seq<char>, comps: Seq<SpecComponent>, mods: Seq<Seq<SpecComponent>>) {
    lemma_hl_lex_consumes(s);
    lemma_sp_components_acc_len(hl_lex(s).1, Seq::empty());
}

/// One command: a component sequence followed by its modifier loop.
pub open spec fn sp_command(s: Seq<char>) -> (Result<SpecCommand, SpecParserError>, Seq<char>) {
    let (r0, s1) = sp_components(s);
    match r0 {
        Err(e) => (Err(e), s),
        Ok(cs) => sp_command_tail(s1, cs, Seq::empty()),
    }
}

pub proof fn lemma_sp_command_tail_len(
    s: Seq<char>,
    comps: Seq<SpecComponent>,
    mods: Seq<Seq<SpecComponent>>,
)
    ensures
        sp_command_tail(s, comps, mods).1.len() <= s.len(),
    decreases s.len(),
{
    lemma_hl_lex_consumes(s);
    let (r0, rest) = hl_lex(s);
    match r0 {
        Ok(Some(t)) => match t {
            SpecToken::Punctuation(p) => if p == '|' {
                lemma_sp_components_acc_len(rest, Seq::empty());
                let (rc, s2) = sp_components(rest);
                match rc {
                    Ok(cs) => lemma_sp_command_tail_len(s2, comps, mods.push(cs)),
                    Err(_) => {},
                }
            },
            SpecToken::Newline => lemma_sp_command_tail_len(rest, comps, mods),
            _ => {},
        },
        _ => {},
    }
}

pub proof fn lemma_sp_command_len(s: Seq<char>)
    ensures
        sp_command(s).1.len() <= s.len(),
{
    lemma_sp_components_acc_len(s, Seq::empty());
    let (r0, s1) = sp_components(s);
    match r0 {
        Ok(cs) => lemma_sp_command_tail_len(s1, cs, Seq::empty()),
        Err(_) => {},
    }
}

/// One whatis body item: a quotation becomes `Final`; anything else is
/// parsed as a command.
pub open spec fn sp_whatis_command(s: Seq<char>) -> (Result<SpecWhatIsCommand, SpecParserError>, Seq<
    char,
>) {
    let (r0, rest) = hl_lex(s);
    match r0 {
        Err(e) => (Err(SpecParserError::LexerError(e)), s),
        Ok(Some(SpecToken::FinalSequence(x))) => (Ok(SpecWhatIsCommand::Final(x)), rest),
        _ => {
            let (rc, s1) = sp_command(s);
            match rc {
                Err(e) => (Err(e), s),
                Ok(c) => (Ok(SpecWhatIsCommand::Command(c)), s1),
            }
        },
    }
}

pub proof fn lemma_sp_whatis_command_len(s: Seq<char>)
    ensures
        sp_whatis_command(s).1.len() <= s.len(),
{
    lemma_hl_lex_consumes(s);
    lemma_sp_command_len(s);
}

/// The howto body loop: after each command, `-` continues the list, `.` is
/// consumed and ends the statement, any other punctuation is rejected, and
/// any other token (the end of the input included) ends the body.
pub open spec fn sp_howto_body(s: Seq<char>, acc: Seq<SpecCommand>) -> (Result<
    Seq<SpecCommand>,
    SpecParserError,
>, Seq<char>)
    decreases s.len(),
    via sp_howto_body_dec
{
    let (rc, s1) = sp_command(s);
    match rc {
        Err(e) => (Err(e), s),
        Ok(cmd) => {
            let acc1 = acc.push(cmd);
            let (r0, rest) = hl_lex(s1);
            match r0 {
                Err(e) => (Err(SpecParserError::LexerError(e)), s1),
                Ok(Some(SpecToken::Punctuation(p))) => if p == '-' {
                    sp_howto_body(rest, acc1)
                } else {
                    (Err(SpecParserError::SyntaxError("Expected '-' or '.'"@)), s1)
                },
                Ok(Some(SpecToken::Dot)) => (Ok(acc1), rest),
                Ok(None) => (Ok(acc1), rest),
                Ok(Some(_)) => (Ok(acc1), s1),
            }
        },
    }
}

#[via_fn]
proof fn sp_howto_body_dec(s: Seq<char>, acc: Seq<SpecCommand>) {
    lemma_sp_command_len(s);
    lemma_hl_lex_consumes(sp_command(s).1);
}

pub proof fn lemma_sp_howto_body_len(s: Seq<char>, acc: Seq<SpecCommand>)
    ensures
        sp_howto_body(s, acc).1.len() <= s.len(),
    decreases s.len(),
{
    lemma_sp_command_len(s);
    let (rc, s1) = sp_command(s);
    match rc {
        Ok(cmd) => {
            lemma_hl_lex_consumes(s1);
            let acc1 = acc.push(cmd);
            let (r0, rest) = hl_lex(s1);
            match r0 {
                Ok(Some(SpecToken::Punctuation(p))) => if p == '-' {
                    lemma_sp_howto_body_len(rest, acc1);
                },
                _ => {},
            }
        },
        Err(_) => {},
    }
}

/// The whatis body loop: after each item, `-` continues the list; a single
/// newline is tolerated and re-examined — a second newline or the end of
/// the input ends the statement, a `-` continues it, anything else is
/// rejected; other punctuation is rejected; any other token ends the body.
pub open spec fn sp_whatis_body(s: Seq<char>, acc: Seq<SpecWhatIsCommand>) -> (Result<
    Seq<SpecWhatIsCommand>,
    SpecParserError,
>, Seq<char>)
    decreases s.len(),
    via sp_whatis_body_dec
{
    let (rc, s1) = sp_whatis_command(s);
    match rc {
        Err(e) => (Err(e), s),
        Ok(wc) => {
            let acc1 = acc.push(wc);
            let (r0, rest) = hl_lex(s1);
            match r0 {
                Err(e) => (Err(SpecParserError::LexerError(e)), s1),
                Ok(Some(SpecToken::Punctuation(p))) => if p == '-' {
                    sp_whatis_body(rest, acc1)
                } else {
                    (Err(SpecParserError::SyntaxError("Expected '-'"@)), s1)
                },
                Ok(Some(SpecToken::Newline)) => {
                    let (r1, rest2) = hl_lex(rest);
                    match r1 {
                        Err(e) => (Err(SpecParserError::LexerError(e)), rest),
                        Ok(Some(SpecToken::Newline)) => (Ok(acc1), rest2),
                        Ok(Some(SpecToken::Punctuation(q))) => if q == '-' {
                            sp_whatis_body(rest2, acc1)
                        } else {
                            (Err(SpecParserError::SyntaxError("Expected newline or '-'"@)), rest)
                        },
                        Ok(None) => (Ok(acc1), rest2),
                        Ok(Some(_)) => (
                            Err(SpecParserError::SyntaxError("Expected newline or '-'"@)),
                            rest,
                        ),
                    }
                },
                Ok(None) => (Ok(acc1), rest),
                Ok(Some(_)) => (Ok(acc1), s1),
            }
        },
    }
}

#[via_fn]
proof fn sp_whatis_body_dec(s: Seq<char>, acc: Seq<SpecWhatIsCommand>) {
    lemma_sp_whatis_command_len(s);
    lemma_hl_lex_consumes(sp_whatis_command(s).1);
    lemma_hl_lex_consumes(hl_lex(sp_whatis_command(s).1).1);
}

/// Both statement forms open the same way: a signature, then `?`, then a
/// newline, then a leading `-`. The characters after the leading `-` are
/// handed to the body loop; any expectation not met is the given error.
pub open spec fn sp_statement_open(s: Seq<char>) -> (Result<Seq<SpecComponent>, SpecParserError>, Seq<
    char,
>) {
    let (r0, s1) = sp_components(s);
    match r0 {
        Err(e) => (Err(e), s),
        Ok(sig) => {
            let (rq, s2) = hl_lex(s1);
            match rq {
                Err(e) => (Err(SpecParserError::LexerError(e)), s1),
                Ok(Some(SpecToken::Question)) => {
                    let (rn, s3) = hl_lex(s2);
                    match rn {
                        Err(e) => (Err(SpecParserError::LexerError(e)), s2),
                        Ok(Some(SpecToken::Newline)) => {
                            let (rd, s4) = hl_lex(s3);
                            match rd {
                                Err(e) => (Err(SpecParserError::LexerError(e)), s3),
                                Ok(Some(SpecToken::Punctuation(p))) => if p == '-' {
                                    (Ok(sig), s4)
                                } else {
                                    (Err(SpecParserError::SyntaxError("Expected '-'"@)), s3)
                                },
                                _ => (Err(SpecParserError::SyntaxError("Expected '-'"@)), s3),
                            }
                        },
                        _ => (Err(SpecParserError::SyntaxError("Expected newline"@)), s2),
                    }
                },
                _ => (Err(SpecParserError::SyntaxError("Expected '?'"@)), s1),
            }
        },
    }
}

/// A howto statement after its keyword: signature, opening, then a body
/// that must end in `.` unless the input ends first.
pub open spec fn sp_howto_stmt(s: Seq<char>) -> (Result<SpecHowTo, SpecParserError>, Seq<char>) {
    let (r0, s4) = sp_statement_open(s);
    match r0 {
        Err(e) => (Err(e), s),
        Ok(sig) => {
            let (rb, s5) = sp_howto_body(s4, Seq::empty());
            match rb {
                Err(e) => (Err(e), s5),
                Ok(body) => (Ok(SpecHowTo { signature: sig, body }), s5),
            }
        },
    }
}

/// A whatis statement after its keyword: signature, opening, then a body
/// that ends on a blank line or at the end of the input, never requiring `.`.
pub open spec fn sp_whatis_stmt(s: Seq<char>) -> (Result<SpecWhatIs, SpecParserError>, Seq<char>) {
    let (r0, s4) = sp_statement_open(s);
    match r0 {
        Err(e) => (Err(e), s),
        Ok(sig) => {
            let (rb, s5) = sp_whatis_body(s4, Seq::empty());
            match rb {
                Err(e) => (Err(e), s5),
                Ok(body) => (Ok(SpecWhatIs { signature: sig, body }), s5),
            }
        },
    }
}

/// One top-level parse step: leading newlines are skipped; `howto` and
/// `whatis` dispatch to their statement forms; an identifier begins a bare
/// command; the end of the input gives `Ok(None)`; an unrecognized reserved
/// word or any other leading token is an internal error, kept distinct from
/// a syntax error. This function is the contract of [`Parser::next`].
pub open spec fn sp_node(s: Seq<char>) -> (Result<Option<SpecNode>, SpecParserError>, Seq<char>)
    decreases s.len(),
    via sp_node_dec
{
    let (r0, rest) = hl_lex(s);
    match r0 {
        Err(e) => (Err(SpecParserError::LexerError(e)), s),
        Ok(None) => (Ok(None), rest),
        Ok(Some(SpecToken::Newline)) => sp_node(rest),
        Ok(Some(SpecToken::Keyword(k))) => if k == "howto"@ {
            let (rh, s2) = sp_howto_stmt(rest);
            match rh {
                Err(e) => (Err(e), s2),
                Ok(h) => (Ok(Some(SpecNode::HowToStatement(h))), s2),
            }
        } else if k == "whatis"@ {
            let (rw, s2) = sp_whatis_stmt(rest);
            match rw {
                Err(e) => (Err(e), s2),
                Ok(w) => (Ok(Some(SpecNode::WhatIsStatement(w))), s2),
            }
        } else {
            (Err(SpecParserError::InternalError("Unexpected keyword"@)), s)
        },
        Ok(Some(SpecToken::Identifier(_))) => {
            let (rc, s2) = sp_command(s);
            match rc {
                Err(e) => (Err(e), s2),
                Ok(c) => (Ok(Some(SpecNode::Command(c))), s2),
            }
        },
        Ok(Some(_)) => (Err(SpecParserError::InternalError("Unexpected token"@)), s),
    }
}

#[via_fn]
proof fn sp_node_dec(s: Seq<char>) {
    lemma_hl_lex_consumes(s);
}

/// The spec-level value of a parsing result.
pub open spec fn node_obs(r: Result<Option<ParseNode>, ParserError>) -> Result<
    Option<SpecNode>,
    SpecParserError,
> {
    match r {
        Ok(Some(n)) => Ok(Some(n@)),
        Ok(None) => Ok(None),
        Err(e) => Err(e@),
    }
}

/// A howto body ends cleanly at the end of the input: the closing `.` is
/// required only when more input follows.
pub proof fn lemma_howto_body_ends_at_end_of_input(
    s: Seq<char>,
    acc: Seq<SpecCommand>,
    cmd: SpecCommand,
)
    requires
        sp_command(s).0 == Ok::<SpecCommand, SpecParserError>(cmd),
        hl_lex(sp_command(s).1).0 == Ok::<Option<SpecToken>, LexerError>(None),
    ensures
        sp_howto_body(s, acc) == (
            Ok::<Seq<SpecCommand>, SpecParserError>(acc.push(cmd)),
            hl_lex(sp_command(s).1).1,
        ),
{
}

/// A howto body not closed by `.` is rejected when stray punctuation
/// follows a command instead of `-` or `.`.
pub proof fn lemma_howto_body_rejects_stray_punctuation(
    s: Seq<char>,
    acc: Seq<SpecCommand>,
    cmd: SpecCommand,
    p: char,
)
    requires
        sp_command(s).0 == Ok::<SpecCommand, SpecParserError>(cmd),
        hl_lex(sp_command(s).1).0 == Ok::<Option<SpecToken>, LexerError>(
            Some(SpecToken::Punctuation(p)),
        ),
        p != '-',
    ensures
        sp_howto_body(s, acc).0 == Err::<Seq<SpecCommand>, SpecParserError>(
            SpecParserError::SyntaxError("Expected '-' or '.'"@),
        ),
{
}

/// A whatis body ends cleanly on a blank line — two newline tokens in a
/// row — without ever requiring `.`: the two statement forms terminate
/// differently by design.
pub proof fn lemma_whatis_body_ends_on_blank_line(
    s: Seq<char>,
    acc: Seq<SpecWhatIsCommand>,
    wc: SpecWhatIsCommand,
)
    requires
        sp_whatis_command(s).0 == Ok::<SpecWhatIsCommand, SpecParserError>(wc),
        hl_lex(sp_whatis_command(s).1).0 == Ok::<Option<SpecToken>, LexerError>(
            Some(SpecToken::Newline),
        ),
        hl_lex(hl_lex(sp_whatis_command(s).1).1).0 == Ok::<Option<SpecToken>, LexerError>(
            Some(SpecToken::Newline),
        ),
    ensures
        sp_whatis_body(s, acc).0 == Ok::<Seq<SpecWhatIsCommand>, SpecParserError>(acc.push(wc)),
{
}

/// A `%` or `&` that is not followed by an identifier fails component
/// parsing with a syntax error asking for one, whatever follows instead.
pub proof fn lemma_sigil_needs_identifier(s: Seq<char>)
    requires
        hl_lex(s).0 == Ok::<Option<SpecToken>, LexerError>(Some(SpecToken::Percent)) || hl_lex(
            s,
        ).0 == Ok::<Option<SpecToken>, LexerError>(Some(SpecToken::Ampersand)),
        match hl_lex(hl_lex(s).1).0 {
            Ok(Some(SpecToken::Identifier(_))) => false,
            Err(_) => false,
            _ => true,
        },
    ensures
        sp_components(s).0 == Err::<Seq<SpecComponent>, SpecParserError>(
            SpecParserError::SyntaxError("Expected identifier"@),
        ),
{
}

// ---------------------------------------------------------------------------
// Small view laws and cloning.
// ---------------------------------------------------------------------------

pub proof fn lemma_comps_view_push(s: Seq<CommandComponent>, c: CommandComponent)
    ensures
        comps_view(s.push(c)) == comps_view(s).push(c@),
{
    assert(comps_view(s.push(c)) =~= comps_view(s).push(c@));
}

pub proof fn lemma_mods_view_push(s: Seq<Vec<CommandComponent>>, v: Vec<CommandComponent>)
    ensures
        mods_view(s.push(v)) == mods_view(s).push(comps_view(v@)),
{
    assert(mods_view(s.push(v)) =~= mods_view(s).push(comps_view(v@)));
}

pub proof fn lemma_cmds_view_push(s: Seq<Command>, c: Command)
    ensures
        cmds_view(s.push(c)) == cmds_view(s).push(c@),
{
    assert(cmds_view(s.push(c)) =~= cmds_view(s).push(c@));
}

pub proof fn lemma_wcmds_view_push(s: Seq<WhatIsCommand>, c: WhatIsCommand)
    ensures
        wcmds_view(s.push(c)) == wcmds_view(s).push(c@),
{
    assert(wcmds_view(s.push(c)) =~= wcmds_view(s).push(c@));
}

fn clone_components(v: &Vec<CommandComponent>) -> (r: Vec<CommandComponent>)
    ensures
        comps_view(r@) == comps_view(v@),
{
    let mut r: Vec<CommandComponent> = Vec::new();
    let mut idx: usize = 0;
    while idx < v.len()
        invariant
            idx <= v.len(),
            r@.len() == idx,
            forall|j: int| 0 <= j < idx ==> r@[j]@ == v@[j]@,
        decreases v.len() - idx,
    {
        let c = v[idx].clone();
        r.push(c);
        idx = idx + 1;
    }
    proof {
        assert(comps_view(r@) =~= comps_view(v@));
    }
    r
}

fn clone_modifiers(v: &Vec<Vec<CommandComponent>>) -> (r: Vec<Vec<CommandComponent>>)
    ensures
        mods_view(r@) == mods_view(v@),
{
    let mut r: Vec<Vec<CommandComponent>> = Vec::new();
    let mut idx: usize = 0;
    while idx < v.len()
        invariant
            idx <= v.len(),
            r@.len() == idx,
            forall|j: int| 0 <= j < idx ==> comps_view(r@[j]@) == comps_view(v@[j]@),
        decreases v.len() - idx,
    {
        let c = clone_components(&v[idx]);
        r.push(c);
        idx = idx + 1;
    }
    proof {
        assert(mods_view(r@) =~= mods_view(v@));
    }
    r
}

impl Clone for Command {
    fn clone(&self) -> (r: Command)
        ensures
            r@ == self@,
    {
        Command {
            components: clone_components(&self.components),
            modifiers: clone_modifiers(&self.modifiers),
        }
    }
}

fn clone_commands(v: &Vec<Command>) -> (r: Vec<Command>)
    ensures
        cmds_view(r@) == cmds_view(v@),
{
    let mut r: Vec<Command> = Vec::new();
    let mut idx: usize = 0;
    while idx < v.len()
        invariant
            idx <= v.len(),
            r@.len() == idx,
            forall|j: int| 0 <= j < idx ==> r@[j]@ == v@[j]@,
        decreases v.len() - idx,
    {
        let c = v[idx].clone();
        r.push(c);
        idx = idx + 1;
    }
    proof {
        assert(cmds_view(r@) =~= cmds_view(v@));
    }
    r
}

impl Clone for HowToStatement {
    fn clone(&self) -> (r: HowToStatement)
        ensures
            r@ == self@,
    {
        HowToStatement {
            signature: clone_components(&self.signature),
            body: clone_commands(&self.body),
        }
    }
}

impl Clone for WhatIsCommand {
    fn clone(&self) -> (r: WhatIsCommand)
        ensures
            r@ == self@,
    {
        match self {
            WhatIsCommand::Command(c) => WhatIsCommand::Command(c.clone()),
            WhatIsCommand::Final(s) => WhatIsCommand::Final(s.clone()),
        }
    }
}

fn clone_whatis_body(v: &Vec<WhatIsCommand>) -> (r: Vec<WhatIsCommand>)
    ensures
        wcmds_view(r@) == wcmds_view(v@),
{
    let mut r: Vec<WhatIsCommand> = Vec::new();
    let mut idx: usize = 0;
    while idx < v.len()
        invariant
            idx <= v.len(),
            r@.len() == idx,
            forall|j: int| 0 <= j < idx ==> r@[j]@ == v@[j]@,
        decreases v.len() - idx,
    {
        let c = v[idx].clone();
        r.push(c);
        idx = idx + 1;
    }
    proof {
        assert(wcmds_view(r@) =~= wcmds_view(v@));
    }
    r
}

impl Clone for WhatIsStatement {
    fn clone(&self) -> (r: WhatIsStatement)
        ensures
            r@ == self@,
    {
        WhatIsStatement {
            signature: clone_components(&self.signature),
            body: clone_whatis_body(&self.body),
        }
    }
}

impl Clone for ParseNode {
    fn clone(&self) -> (r: ParseNode)
        ensures
            r@ == self@,
    {
        match self {
            ParseNode::Command(c) => ParseNode::Command(c.clone()),
            ParseNode::HowToStatement(h) => ParseNode::HowToStatement(h.clone()),
            ParseNode::WhatIsStatement(w) => ParseNode::WhatIsStatement(w.clone()),
        }
    }
}

// ---------------------------------------------------------------------------
// The executable parser.
// ---------------------------------------------------------------------------

/// The high-level parser: parse nodes over the high-level lexer, with the
/// same one-slot lookahead cache at the node level. The view of a parser is
/// the sequence of characters it has not yet consumed; a node sitting in the
/// lookahead cache counts as not consumed.
pub struct Parser {
    lexer: Lexer,
    peeked: Option<ParseNode>,
    src: Ghost<Seq<char>>,
}

impl View for Parser {
    type V = Seq<char>;

    closed spec fn view(&self) -> Seq<char> {
        if self.peeked is Some {
            self.src@
        } else {
            self.lexer@
        }
    }
}

/// At the end of the text the remaining sequence is empty, so parsing it
/// again still reports the end of the text.
proof fn lemma_sp_node_end(s: Seq<char>)
    requires
        sp_node(s).0 == Ok::<Option<SpecNode>, SpecParserError>(None),
    ensures
        sp_node(sp_node(s).1) == sp_node(s),
    decreases s.len(),
{
    lemma_hl_lex_consumes(s);
    match hl_lex(s).0 {
        Ok(Some(SpecToken::Newline)) => lemma_sp_node_end(hl_lex(s).1),
        _ => {},
    }
}

impl Parser {
    /// Internal consistency of the lookahead cache: a cached node, together
    /// with the lexer behind it, is exactly one parse step of the view.
    pub closed spec fn wf(&self) -> bool {
        &&& self.lexer.wf()
        &&& match self.peeked {
            Some(n) => sp_node(self.src@).0 == Ok::<Option<SpecNode>, SpecParserError>(Some(n@))
                && sp_node(self.src@).1 == self.lexer@,
            None => true,
        }
    }

    /// True when no node sits in the lookahead cache, so the view is
    /// exactly the lexer's remaining text.
    pub closed spec fn uncached(&self) -> bool {
        self.peeked is None
    }

    /// A parser over the given lexer.
    pub fn new(lexer: Lexer) -> (p: Parser)
        requires
            lexer.wf(),
        ensures
            p.wf(),
            p@ == lexer@,
    {
        Parser { lexer, peeked: None, src: Ghost(Seq::empty()) }
    }

    /// Greedily parse a component sequence, as [`sp_components`] describes.
    fn parse_vec_command_component(&mut self) -> (r: Result<Vec<CommandComponent>, ParserError>)
        requires
            old(self).lexer.wf(),
            old(self).peeked is None,
        ensures
            final(self).lexer.wf(),
            final(self).peeked == old(self).peeked,
            match r {
                Ok(v) => sp_components(old(self).lexer@).0 == Ok::<
                    Seq<SpecComponent>,
                    SpecParserError,
                >(comps_view(v@)) && final(self).lexer@ == sp_components(old(self).lexer@).1,
                Err(e) => sp_components(old(self).lexer@).0 == Err::<
                    Seq<SpecComponent>,
                    SpecParserError,
                >(e@),
            },
    {
        let mut components: Vec<CommandComponent> = Vec::new();
        let ghost orig = self.lexer@;
        proof {
            assert(comps_view(components@) =~= Seq::<SpecComponent>::empty());
        }
        loop
            invariant_except_break
                sp_components_acc(orig, Seq::empty()) == sp_components_acc(
                    self.lexer@,
                    comps_view(components@),
                ),
            invariant
                orig == old(self).lexer@,
                self.lexer.wf(),
                old(self).peeked is None,
                self.peeked is None,
            ensures
                self.lexer.wf(),
                self.peeked is None,
                old(self).peeked is None,
                sp_components(orig).0 == Ok::<Seq<SpecComponent>, SpecParserError>(
                    comps_view(components@),
                ),
                sp_components(orig).1 == self.lexer@,
            decreases self.lexer@.len(),
        {
            let ghost pre = self.lexer@;
            let tok = match self.lexer.peek() {
                Ok(t) => t,
                Err(e) => {
                    return Err(ParserError::LexerError(e));
                },
            };
            match tok {
                None => {
                    break;
                },
                Some(Token::Identifier(word)) => {
                    match self.lexer.next() {
                        Ok(_) => {},
                        Err(_) => unreached(),
                    };
                    let comp = CommandComponent::Keyword(word);
                    let ghost cv = components@;
                    let ghost compg = comp;
                    components.push(comp);
                    proof {
                        lemma_comps_view_push(cv, compg);
                        lemma_hl_lex_consumes(pre);
                    }
                },
                Some(Token::Keyword(word)) => {
                    match self.lexer.next() {
                        Ok(_) => {},
                        Err(_) => unreached(),
                    };
                    let comp = CommandComponent::Keyword(word);
                    let ghost cv = components@;
                    let ghost compg = comp;
                    components.push(comp);
                    proof {
                        lemma_comps_view_push(cv, compg);
                        lemma_hl_lex_consumes(pre);
                    }
                },
                Some(Token::Literal(word)) => {
                    match self.lexer.next() {
                        Ok(_) => {},
                        Err(_) => unreached(),
                    };
                    let comp = CommandComponent::Literal(word);
                    let ghost cv = components@;
                    let ghost compg = comp;
                    components.push(comp);
                    proof {
                        lemma_comps_view_push(cv, compg);
                        lemma_hl_lex_consumes(pre);
                    }
                },
                Some(Token::Percent) => {
                    match self.lexer.next() {
                        Ok(_) => {},
                        Err(_) => unreached(),
                    };
                    let ghost mid = self.lexer@;
                    let tok2 = match self.lexer.peek() {
                        Ok(t) => t,
                        Err(e) => {
                            return Err(ParserError::LexerError(e));
                        },
                    };
                    match tok2 {
                        Some(Token::Identifier(word)) => {
                            match self.lexer.next() {
                                Ok(_) => {},
                                Err(_) => unreached(),
                            };
                            let comp = CommandComponent::Slot(word);
                            let ghost cv = components@;
                            let ghost compg = comp;
                            components.push(comp);
                            proof {
                                lemma_comps_view_push(cv, compg);
                                lemma_hl_lex_consumes(pre);
                                lemma_hl_lex_consumes(mid);
                            }
                        },
                        _ => {
                            return Err(ParserError::SyntaxError(
                                String::from_str("Expected identifier"),
                            ));
                        },
                    }
                },
                Some(Token::Ampersand) => {
                    match self.lexer.next() {
                        Ok(_) => {},
                        Err(_) => unreached(),
                    };
                    let ghost mid = self.lexer@;
                    let tok2 = match self.lexer.peek() {
                        Ok(t) => t,
                        Err(e) => {
                            return Err(ParserError::LexerError(e));
                        },
                    };
                    match tok2 {
                        Some(Token::Identifier(word)) => {
                            match self.lexer.next() {
                                Ok(_) => {},
                                Err(_) => unreached(),
                            };
                            let comp = CommandComponent::BackRef(word);
                            let ghost cv = components@;
                            let ghost compg = comp;
                            components.push(comp);
                            proof {
                                lemma_comps_view_push(cv, compg);
                                lemma_hl_lex_consumes(pre);
                                lemma_hl_lex_consumes(mid);
                            }
                        },
                        _ => {
                            return Err(ParserError::SyntaxError(
                                String::from_str("Expected identifier"),
                            ));
                        },
                    }
                },
                Some(Token::FinalSequence(_)) => {
                    return Err(ParserError::SyntaxError(
                        String::from_str("Final sequences are not allowed here"),
                    ));
                },
                Some(Token::Punctuation(_)) => {
                    break;
                },
                Some(Token::Newline) => {
                    break;
                },
                Some(Token::Question) => {
                    break;
                },
                Some(Token::Dot) => {
                    break;
                },
            }
        }
        Ok(components)
    }

    /// Parse one command, as [`sp_command`] describes.
    fn parse_command(&mut self) -> (r: Result<Command, ParserError>)
        requires
            old(self).lexer.wf(),
            old(self).peeked is None,
        ensures
            final(self).lexer.wf(),
            final(self).peeked == old(self).peeked,
            match r {
                Ok(c) => sp_command(old(self).lexer@).0 == Ok::<SpecCommand, SpecParserError>(c@)
                    && final(self).lexer@ == sp_command(old(self).lexer@).1,
                Err(e) => sp_command(old(self).lexer@).0 == Err::<SpecCommand, SpecParserError>(e@),
            },
    {
        let ghost orig = self.lexer@;
        let components = match self.parse_vec_command_component() {
            Ok(v) => v,
            Err(e) => {
                return Err(e);
            },
        };
        let mut modifiers: Vec<Vec<CommandComponent>> = Vec::new();
        proof {
            assert(mods_view(modifiers@) =~= Seq::<Seq<SpecComponent>>::empty());
        }
        loop
            invariant_except_break
                sp_command(orig) == sp_command_tail(
                    self.lexer@,
                    comps_view(components@),
                    mods_view(modifiers@),
                ),
            invariant
                orig == old(self).lexer@,
                self.lexer.wf(),
                old(self).peeked is None,
                self.peeked is None,
            ensures
                self.lexer.wf(),
                self.peeked is None,
                old(self).peeked is None,
                sp_command(orig).0 == Ok::<SpecCommand, SpecParserError>(
                    SpecCommand {
                        components: comps_view(components@),
                        modifiers: mods_view(modifiers@),
                    },
                ),
                sp_command(orig).1 == self.lexer@,
            decreases self.lexer@.len(),
        {
            let ghost pre = self.lexer@;
            let tok = match self.lexer.peek() {
                Ok(t) => t,
                Err(e) => {
                    return Err(ParserError::LexerError(e));
                },
            };
            match tok {
                Some(Token::Punctuation(p)) => {
                    if p == '|' {
                        match self.lexer.next() {
                            Ok(_) => {},
                            Err(_) => unreached(),
                        };
                        let ghost mid = self.lexer@;
                        let cs = match self.parse_vec_command_component() {
                            Ok(v) => v,
                            Err(e) => {
                                return Err(e);
                            },
                        };
                        let ghost mv = modifiers@;
                        let ghost csg = cs;
                        modifiers.push(cs);
                        proof {
                            lemma_mods_view_push(mv, csg);
                            lemma_hl_lex_consumes(pre);
                            lemma_sp_components_acc_len(mid, Seq::empty());
                        }
                    } else if p == '-' {
                        break;
                    } else {
                        return Err(ParserError::SyntaxError(String::from_str("Expected '|'")));
                    }
                },
                Some(Token::Dot) => {
                    match self.lexer.next() {
                        Ok(_) => {},
                        Err(_) => unreached(),
                    };
                    break;
                },
                Some(Token::Newline) => {
                    match self.lexer.next() {
                        Ok(_) => {},
                        Err(_) => unreached(),
                    };
                    proof {
                        lemma_hl_lex_consumes(pre);
                    }
                },
                None => {
                    break;
                },
                Some(_) => {
                    break;
                },
            }
        }
        Ok(Command { components, modifiers })
    }

    /// Parse one whatis body item, as [`sp_whatis_command`] describes.
    fn parse_whatis_command(&mut self) -> (r: Result<WhatIsCommand, ParserError>)
        requires
            old(self).lexer.wf(),
            old(self).peeked is None,
        ensures
            final(self).lexer.wf(),
            final(self).peeked == old(self).peeked,
            match r {
                Ok(c) => sp_whatis_command(old(self).lexer@).0 == Ok::<
                    SpecWhatIsCommand,
                    SpecParserError,
                >(c@) && final(self).lexer@ == sp_whatis_command(old(self).lexer@).1,
                Err(e) => sp_whatis_command(old(self).lexer@).0 == Err::<
                    SpecWhatIsCommand,
                    SpecParserError,
                >(e@),
            },
    {
        let tok = match self.lexer.peek() {
            Ok(t) => t,
            Err(e) => {
                return Err(ParserError::LexerError(e));
            },
        };
        match tok {
            Some(Token::FinalSequence(text)) => {
                match self.lexer.next() {
                    Ok(_) => {},
                    Err(_) => unreached(),
                };
                Ok(WhatIsCommand::Final(text))
            },
            _ => match self.parse_command() {
                Ok(c) => Ok(WhatIsCommand::Command(c)),
                Err(e) => Err(e),
            },
        }
    }

    /// Parse the shared opening of both statement forms, as
    /// [`sp_statement_open`] describes: the signature, then `?`, a newline,
    /// and the leading `-` of the body.
    fn parse_statement_open(&mut self) -> (r: Result<Vec<CommandComponent>, ParserError>)
        requires
            old(self).lexer.wf(),
            old(self).peeked is None,
        ensures
            final(self).lexer.wf(),
            final(self).peeked == old(self).peeked,
            match r {
                Ok(v) => sp_statement_open(old(self).lexer@).0 == Ok::<
                    Seq<SpecComponent>,
                    SpecParserError,
                >(comps_view(v@)) && final(self).lexer@ == sp_statement_open(old(self).lexer@).1,
                Err(e) => sp_statement_open(old(self).lexer@).0 == Err::<
                    Seq<SpecComponent>,
                    SpecParserError,
                >(e@),
            },
    {
        let signature = match self.parse_vec_command_component() {
            Ok(v) => v,
            Err(e) => {
                return Err(e);
            },
        };
        let tok = match self.lexer.peek() {
            Ok(t) => t,
            Err(e) => {
                return Err(ParserError::LexerError(e));
            },
        };
        match tok {
            Some(Token::Question) => {},
            _ => {
                return Err(ParserError::SyntaxError(String::from_str("Expected '?'")));
            },
        }
        match self.lexer.next() {
            Ok(_) => {},
            Err(_) => unreached(),
        };
        let tok = match self.lexer.peek() {
            Ok(t) => t,
            Err(e) => {
                return Err(ParserError::LexerError(e));
            },
        };
        match tok {
            Some(Token::Newline) => {},
            _ => {
                return Err(ParserError::SyntaxError(String::from_str("Expected newline")));
            },
        }
        match self.lexer.next() {
            Ok(_) => {},
            Err(_) => unreached(),
        };
        let tok = match self.lexer.peek() {
            Ok(t) => t,
            Err(e) => {
                return Err(ParserError::LexerError(e));
            },
        };
        match tok {
            Some(Token::Punctuation(p)) => {
                if p == '-' {
                    match self.lexer.next() {
                        Ok(_) => {},
                        Err(_) => unreached(),
                    };
                } else {
                    return Err(ParserError::SyntaxError(String::from_str("Expected '-'")));
                }
            },
            _ => {
                return Err(ParserError::SyntaxError(String::from_str("Expected '-'")));
            },
        }
        Ok(signature)
    }

    /// Parse a howto statement after its keyword, as [`sp_howto_stmt`]
    /// describes: the body must end in `.` unless the input ends first.
    fn parse_howto_statement(&mut self) -> (r: Result<HowToStatement, ParserError>)
        requires
            old(self).lexer.wf(),
            old(self).peeked is None,
        ensures
            final(self).lexer.wf(),
            final(self).peeked == old(self).peeked,
            match r {
                Ok(h) => sp_howto_stmt(old(self).lexer@).0 == Ok::<SpecHowTo, SpecParserError>(h@)
                    && final(self).lexer@ == sp_howto_stmt(old(self).lexer@).1,
                Err(e) => sp_howto_stmt(old(self).lexer@).0 == Err::<SpecHowTo, SpecParserError>(
                    e@,
                ),
            },
    {
        let ghost orig = self.lexer@;
        let signature = match self.parse_statement_open() {
            Ok(v) => v,
            Err(e) => {
                return Err(e);
            },
        };
        let mut body: Vec<Command> = Vec::new();
        let ghost s4 = self.lexer@;
        proof {
            assert(cmds_view(body@) =~= Seq::<SpecCommand>::empty());
        }
        loop
            invariant_except_break
                sp_howto_body(s4, Seq::empty()) == sp_howto_body(self.lexer@, cmds_view(body@)),
            invariant
                orig == old(self).lexer@,
                self.lexer.wf(),
                old(self).peeked is None,
                self.peeked is None,
                sp_statement_open(orig).0 == Ok::<Seq<SpecComponent>, SpecParserError>(
                    comps_view(signature@),
                ),
                sp_statement_open(orig).1 == s4,
            ensures
                self.lexer.wf(),
                self.peeked is None,
                old(self).peeked is None,
                sp_statement_open(orig).0 == Ok::<Seq<SpecComponent>, SpecParserError>(
                    comps_view(signature@),
                ),
                sp_statement_open(orig).1 == s4,
                sp_howto_body(s4, Seq::empty()).0 == Ok::<Seq<SpecCommand>, SpecParserError>(
                    cmds_view(body@),
                ),
                sp_howto_body(s4, Seq::empty()).1 == self.lexer@,
            decreases self.lexer@.len(),
        {
            let ghost pre = self.lexer@;
            let cmd = match self.parse_command() {
                Ok(c) => c,
                Err(e) => {
                    return Err(e);
                },
            };
            let ghost s1 = self.lexer@;
            let ghost bv = body@;
            let ghost cmdg = cmd;
            body.push(cmd);
            proof {
                lemma_cmds_view_push(bv, cmdg);
            }
            let tok = match self.lexer.peek() {
                Ok(t) => t,
                Err(e) => {
                    return Err(ParserError::LexerError(e));
                },
            };
            match tok {
                Some(Token::Punctuation(p)) => {
                    if p == '-' {
                        match self.lexer.next() {
                            Ok(_) => {},
                            Err(_) => unreached(),
                        };
                        proof {
                            lemma_sp_command_len(pre);
                            lemma_hl_lex_consumes(s1);
                        }
                    } else {
                        return Err(ParserError::SyntaxError(
                            String::from_str("Expected '-' or '.'"),
                        ));
                    }
                },
                Some(Token::Dot) => {
                    match self.lexer.next() {
                        Ok(_) => {},
                        Err(_) => unreached(),
                    };
                    break;
                },
                None => {
                    break;
                },
                Some(_) => {
                    break;
                },
            }
        }
        Ok(HowToStatement { signature, body })
    }

    /// Parse a whatis statement after its keyword, as [`sp_whatis_stmt`]
    /// describes: the body ends on a blank line or at the end of the input,
    /// never requiring `.`.
    fn parse_whatis_statement(&mut self) -> (r: Result<WhatIsStatement, ParserError>)
        requires
            old(self).lexer.wf(),
            old(self).peeked is None,
        ensures
            final(self).lexer.wf(),
            final(self).peeked == old(self).peeked,
            match r {
                Ok(w) => sp_whatis_stmt(old(self).lexer@).0 == Ok::<SpecWhatIs, SpecParserError>(
                    w@,
                ) && final(self).lexer@ == sp_whatis_stmt(old(self).lexer@).1,
                Err(e) => sp_whatis_stmt(old(self).lexer@).0 == Err::<SpecWhatIs, SpecParserError>(
                    e@,
                ),
            },
    {
        let ghost orig = self.lexer@;
        let signature = match self.parse_statement_open() {
            Ok(v) => v,
            Err(e) => {
                return Err(e);
            },
        };
        let mut body: Vec<WhatIsCommand> = Vec::new();
        let ghost s4 = self.lexer@;
        proof {
            assert(wcmds_view(body@) =~= Seq::<SpecWhatIsCommand>::empty());
        }
        loop
            invariant_except_break
                sp_whatis_body(s4, Seq::empty()) == sp_whatis_body(self.lexer@, wcmds_view(body@)),
            invariant
                orig == old(self).lexer@,
                self.lexer.wf(),
                old(self).peeked is None,
                self.peeked is None,
                sp_statement_open(orig).0 == Ok::<Seq<SpecComponent>, SpecParserError>(
                    comps_view(signature@),
                ),
                sp_statement_open(orig).1 == s4,
            ensures
                self.lexer.wf(),
                self.peeked is None,
                old(self).peeked is None,
                sp_statement_open(orig).0 == Ok::<Seq<SpecComponent>, SpecParserError>(
                    comps_view(signature@),
                ),
                sp_statement_open(orig).1 == s4,
                sp_whatis_body(s4, Seq::empty()).0 == Ok::<
                    Seq<SpecWhatIsCommand>,
                    SpecParserError,
                >(wcmds_view(body@)),
                sp_whatis_body(s4, Seq::empty()).1 == self.lexer@,
            decreases self.lexer@.len(),
        {
            let ghost pre = self.lexer@;
            let wcmd = match self.parse_whatis_command() {
                Ok(c) => c,
                Err(e) => {
                    return Err(e);
                },
            };
            let ghost s1 = self.lexer@;
            let ghost bv = body@;
            let ghost wg = wcmd;
            body.push(wcmd);
            proof {
                lemma_wcmds_view_push(bv, wg);
            }
            let tok = match self.lexer.peek() {
                Ok(t) => t,
                Err(e) => {
                    return Err(ParserError::LexerError(e));
                },
            };
            match tok {
                Some(Token::Punctuation(p)) => {
                    if p == '-' {
                        match self.lexer.next() {
                            Ok(_) => {},
                            Err(_) => unreached(),
                        };
                        proof {
                            lemma_sp_whatis_command_len(pre);
                            lemma_hl_lex_consumes(s1);
                        }
                    } else {
                        return Err(ParserError::SyntaxError(String::from_str("Expected '-'")));
                    }
                },
                Some(Token::Newline) => {
                    match self.lexer.next() {
                        Ok(_) => {},
                        Err(_) => unreached(),
                    };
                    let ghost s2 = self.lexer@;
                    let tok2 = match self.lexer.peek() {
                        Ok(t) => t,
                        Err(e) => {
                            return Err(ParserError::LexerError(e));
                        },
                    };
                    match tok2 {
                        Some(Token::Newline) => {
                            match self.lexer.next() {
                                Ok(_) => {},
                                Err(_) => unreached(),
                            };
                            break;
                        },
                        Some(Token::Punctuation(q)) => {
                            if q == '-' {
                                match self.lexer.next() {
                                    Ok(_) => {},
                                    Err(_) => unreached(),
                                };
                                proof {
                                    lemma_sp_whatis_command_len(pre);
                                    lemma_hl_lex_consumes(s1);
                                    lemma_hl_lex_consumes(s2);
                                }
                            } else {
                                return Err(ParserError::SyntaxError(
                                    String::from_str("Expected newline or '-'"),
                                ));
                            }
                        },
                        None => {
                            break;
                        },
                        Some(_) => {
                            return Err(ParserError::SyntaxError(
                                String::from_str("Expected newline or '-'"),
                            ));
                        },
                    }
                },
                None => {
                    break;
                },
                Some(_) => {
                    break;
                },
            }
        }
        Ok(WhatIsStatement { signature, body })
    }

    /// Consume and return the next top-level node; `Ok(None)` at the end of
    /// the text. The result and the remaining text are exactly those of one
    /// [`sp_node`] step, and nothing is left in the lookahead cache.
    #[verifier::rlimit(50)]
    pub fn next(&mut self) -> (r: Result<Option<ParseNode>, ParserError>)
        requires
            old(self).wf(),
        ensures
            final(self).wf(),
            final(self).uncached(),
            node_obs(r) == sp_node(old(self)@).0,
            r is Ok ==> final(self)@ == sp_node(old(self)@).1,
    {
        let taken: Option<ParseNode> = match &self.peeked {
            Some(n) => Some(n.clone()),
            None => None,
        };
        match taken {
            Some(node) => {
                self.peeked = None;
                return Ok(Some(node));
            },
            None => {},
        }
        let ghost orig = self.lexer@;
        loop
            invariant
                self.peeked is None,
                self.lexer.wf(),
                orig == old(self)@,
                old(self).peeked is None,
                sp_node(orig) == sp_node(self.lexer@),
            decreases self.lexer@.len(),
        {
            let ghost v = self.lexer@;
            let tok = match self.lexer.peek() {
                Ok(t) => t,
                Err(e) => {
                    return Err(ParserError::LexerError(e));
                },
            };
            match tok {
                Some(Token::Newline) => {
                    match self.lexer.next() {
                        Ok(_) => {},
                        Err(_) => unreached(),
                    };
                    proof {
                        lemma_hl_lex_consumes(v);
                    }
                },
                None => {
                    return Ok(None);
                },
                Some(Token::Keyword(kw)) => {
                    let howto = String::from_str("howto");
                    let whatis = String::from_str("whatis");
                    if kw == howto {
                        match self.lexer.next() {
                            Ok(_) => {},
                            Err(_) => unreached(),
                        };
                        match self.parse_howto_statement() {
                            Ok(h) => {
                                return Ok(Some(ParseNode::HowToStatement(h)));
                            },
                            Err(e) => {
                                return Err(e);
                            },
                        }
                    } else if kw == whatis {
                        match self.lexer.next() {
                            Ok(_) => {},
                            Err(_) => unreached(),
                        };
                        match self.parse_whatis_statement() {
                            Ok(w) => {
                                return Ok(Some(ParseNode::WhatIsStatement(w)));
                            },
                            Err(e) => {
                                return Err(e);
                            },
                        }
                    } else {
                        return Err(ParserError::InternalError(
                            String::from_str("Unexpected keyword"),
                        ));
                    }
                },
                Some(Token::Identifier(_)) => {
                    match self.parse_command() {
                        Ok(c) => {
                            return Ok(Some(ParseNode::Command(c)));
                        },
                        Err(e) => {
                            return Err(e);
                        },
                    }
                },
                Some(_) => {
                    return Err(ParserError::InternalError(String::from_str("Unexpected token")));
                },
            }
        }
    }

    /// Return the next top-level node without consuming it: on success the
    /// view is unchanged (or, at the end of the text, only whitespace has
    /// been dropped), so a repeated `peek` returns the same value.
    pub fn peek(&mut self) -> (r: Result<Option<ParseNode>, ParserError>)
        requires
            old(self).wf(),
        ensures
            final(self).wf(),
            node_obs(r) == sp_node(old(self)@).0,
            r matches Ok(n) ==> if n is Some {
                final(self)@ == old(self)@
            } else {
                final(self)@ == sp_node(old(self)@).1
            },
            r is Ok ==> sp_node(final(self)@).0 == sp_node(old(self)@).0,
    {
        match &self.peeked {
            Some(n) => {
                return Ok(Some(n.clone()));
            },
            None => {},
        }
        let ghost orig = self.lexer@;
        match self.next() {
            Ok(Some(node)) => {
                let copy = node.clone();
                self.src = Ghost(orig);
                self.peeked = Some(node);
                Ok(Some(copy))
            },
            Ok(None) => {
                proof {
                    lemma_sp_node_end(orig);
                }
                Ok(None)
            },
            Err(e) => Err(e),
        }
    }
}

impl From<&str> for Parser {
    /// A parser reading the characters of `data`, over its own lexer.
    fn from(data: &str) -> (p: Parser)
        ensures
            p.wf(),
            p@ == data@,
    {
        Parser::new(Lexer::new(CharStream::new(data)))
    }
}

impl vstd::std_specs::convert::FromSpecImpl<&str> for Parser {
    open spec fn obeys_from_spec() -> bool {
        false
    }

    open spec fn from_spec(v: &str) -> Parser {
        arbitrary()
    }
}

} // verus!
