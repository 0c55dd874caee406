use circe::parser::{
    Command, CommandComponent, HowToStatement, ParseNode, Parser, ParserError, WhatIsCommand,
    WhatIsStatement,
};

fn kw(s: &str) -> CommandComponent {
    CommandComponent::Keyword(s.to_string())
}

fn lit(s: &str) -> CommandComponent {
    CommandComponent::Literal(s.to_string())
}

fn parse_all(text: &str) -> Vec<ParseNode> {
    let mut parser: Parser = Parser::from(text);
    let mut parse_nodes: Vec<ParseNode> = Vec::new();
    while let Some(node) = parser.next().unwrap() {
        parse_nodes.push(node);
    }
    parse_nodes
}

#[test]
fn test_convert_basic() {
    let parse_nodes = parse_all("print 'Hello, world!' to the console.");

    let expected = vec![ParseNode::Command(Command {
        components: vec![kw("print"), lit("Hello, world!"), kw("to"), kw("the"), kw("console")],
        modifiers: vec![],
    })];

    assert_eq!(parse_nodes, expected);
}

#[test]
fn test_convert_modifiers() {
    let parse_nodes = parse_all("print 'Hello, world!' to the console | add a newline.");

    let expected = vec![ParseNode::Command(Command {
        components: vec![kw("print"), lit("Hello, world!"), kw("to"), kw("the"), kw("console")],
        modifiers: vec![vec![kw("add"), kw("a"), kw("newline")]],
    })];

    assert_eq!(parse_nodes, expected);
}

#[test]
fn test_convert_multiple_commands() {
    let parse_nodes = parse_all(
        "print 'Hello, world!' to the console. print 'Goodbye, world!' to the console.",
    );

    let expected = vec![
        ParseNode::Command(Command {
            components: vec![
                kw("print"),
                lit("Hello, world!"),
                kw("to"),
                kw("the"),
                kw("console"),
            ],
            modifiers: vec![],
        }),
        ParseNode::Command(Command {
            components: vec![
                kw("print"),
                lit("Goodbye, world!"),
                kw("to"),
                kw("the"),
                kw("console"),
            ],
            modifiers: vec![],
        }),
    ];

    assert_eq!(parse_nodes, expected);
}

#[test]
fn test_convert_howto() {
    let parse_nodes = parse_all("howto print a string?\n- write the string");

    let expected = vec![ParseNode::HowToStatement(HowToStatement {
        signature: vec![kw("print"), kw("a"), kw("string")],
        body: vec![Command {
            components: vec![kw("write"), kw("the"), kw("string")],
            modifiers: vec![],
        }],
    })];

    assert_eq!(parse_nodes, expected);
}

#[test]
fn test_convert_howto_modifiers() {
    let parse_nodes = parse_all("howto print a string?\n- write the string | add a newline");

    let expected = vec![ParseNode::HowToStatement(HowToStatement {
        signature: vec![kw("print"), kw("a"), kw("string")],
        body: vec![Command {
            components: vec![kw("write"), kw("the"), kw("string")],
            modifiers: vec![vec![kw("add"), kw("a"), kw("newline")]],
        }],
    })];

    assert_eq!(parse_nodes, expected);
}

#[test]
fn test_convert_whatis() {
    let parse_nodes = parse_all("whatis a string?\n- a sequence of characters");

    let expected = vec![ParseNode::WhatIsStatement(WhatIsStatement {
        signature: vec![kw("a"), kw("string")],
        body: vec![WhatIsCommand::Command(Command {
            components: vec![kw("a"), kw("sequence"), kw("of"), kw("characters")],
            modifiers: vec![],
        })],
    })];

    assert_eq!(parse_nodes, expected);
}

#[test]
fn test_parser_slot_and_backref() {
    let parse_nodes = parse_all("copy %src to &src.");

    let expected = vec![ParseNode::Command(Command {
        components: vec![
            kw("copy"),
            CommandComponent::Slot("src".to_string()),
            kw("to"),
            CommandComponent::BackRef("src".to_string()),
        ],
        modifiers: vec![],
    })];

    assert_eq!(parse_nodes, expected);
}

#[test]
fn test_parser_bare_percent() {
    let mut parser: Parser = Parser::from("print %.");
    assert_eq!(
        parser.next(),
        Err(ParserError::SyntaxError("Expected identifier".to_string()))
    );
}

#[test]
fn test_parser_bare_ampersand() {
    let mut parser: Parser = Parser::from("print &.");
    assert_eq!(
        parser.next(),
        Err(ParserError::SyntaxError("Expected identifier".to_string()))
    );
}

#[test]
fn test_parser_final_in_command() {
    let mut parser: Parser = Parser::from("print $$ X = 1 $$.");
    assert_eq!(
        parser.next(),
        Err(ParserError::SyntaxError(
            "Final sequences are not allowed here".to_string()
        ))
    );
}

#[test]
fn test_parser_missing_question() {
    let mut parser: Parser = Parser::from("howto print a string\n- write it");
    assert_eq!(
        parser.next(),
        Err(ParserError::SyntaxError("Expected '?'".to_string()))
    );
}

#[test]
fn test_parser_missing_newline() {
    let mut parser: Parser = Parser::from("howto print a string? - write it");
    assert_eq!(
        parser.next(),
        Err(ParserError::SyntaxError("Expected newline".to_string()))
    );
}

#[test]
fn test_parser_missing_dash() {
    let mut parser: Parser = Parser::from("howto print a string?\nwrite it");
    assert_eq!(
        parser.next(),
        Err(ParserError::SyntaxError("Expected '-'".to_string()))
    );
}

#[test]
fn test_howto_bad_punctuation_after_body() {
    // a howto body not closed by `.` is a syntax error when followed by
    // unexpected punctuation (seen by the command's own modifier loop)
    let mut parser: Parser = Parser::from("howto greet?\n- say hi, and wave");
    assert_eq!(
        parser.next(),
        Err(ParserError::SyntaxError("Expected '|'".to_string()))
    );
}

#[test]
fn test_howto_expected_dash_or_dot() {
    // punctuation where the body loop expects `-` or `.`
    let mut parser: Parser = Parser::from("howto greet?\n- say hi. , more");
    assert_eq!(
        parser.next(),
        Err(ParserError::SyntaxError("Expected '-' or '.'".to_string()))
    );
}

#[test]
fn test_howto_ends_cleanly_at_end_of_input() {
    // ... but ends cleanly at the end of the input
    let parse_nodes = parse_all("howto greet?\n- say hi");
    let expected = vec![ParseNode::HowToStatement(HowToStatement {
        signature: vec![kw("greet")],
        body: vec![Command { components: vec![kw("say"), kw("hi")], modifiers: vec![] }],
    })];
    assert_eq!(parse_nodes, expected);
}

#[test]
fn test_howto_dot_terminated_body() {
    let parse_nodes = parse_all("howto greet twice?\n- say hi\n- say hi again.");
    let expected = vec![ParseNode::HowToStatement(HowToStatement {
        signature: vec![kw("greet"), kw("twice")],
        body: vec![
            Command { components: vec![kw("say"), kw("hi")], modifiers: vec![] },
            Command { components: vec![kw("say"), kw("hi"), kw("again")], modifiers: vec![] },
        ],
    })];
    assert_eq!(parse_nodes, expected);
}

#[test]
fn test_whatis_ends_on_blank_line() {
    // a whatis body ends cleanly on a blank line, without `.`, and parsing
    // continues with the next statement
    let parse_nodes = parse_all("whatis a greeting?\n- a friendly word\n\nsay hello.");
    let expected = vec![
        ParseNode::WhatIsStatement(WhatIsStatement {
            signature: vec![kw("a"), kw("greeting")],
            body: vec![WhatIsCommand::Command(Command {
                components: vec![kw("a"), kw("friendly"), kw("word")],
                modifiers: vec![],
            })],
        }),
        ParseNode::Command(Command {
            components: vec![kw("say"), kw("hello")],
            modifiers: vec![],
        }),
    ];
    assert_eq!(parse_nodes, expected);
}

#[test]
fn test_whatis_final_quotation() {
    let parse_nodes = parse_all("whatis a pair?\n- $$ Pair = A B $$");
    let expected = vec![ParseNode::WhatIsStatement(WhatIsStatement {
        signature: vec![kw("a"), kw("pair")],
        body: vec![WhatIsCommand::Final(" Pair = A B ".to_string())],
    })];
    assert_eq!(parse_nodes, expected);
}

#[test]
fn test_whatis_dash_continues_list() {
    let parse_nodes = parse_all("whatis a pair?\n- two things\n- $$ Pair = A B $$");
    let expected = vec![ParseNode::WhatIsStatement(WhatIsStatement {
        signature: vec![kw("a"), kw("pair")],
        body: vec![
            WhatIsCommand::Command(Command {
                components: vec![kw("two"), kw("things")],
                modifiers: vec![],
            }),
            WhatIsCommand::Final(" Pair = A B ".to_string()),
        ],
    })];
    assert_eq!(parse_nodes, expected);
}

#[test]
fn test_whatis_bad_token_after_newline() {
    let mut parser: Parser = Parser::from("whatis a pair?\n- $$ P $$\n?");
    assert_eq!(
        parser.next(),
        Err(ParserError::SyntaxError("Expected newline or '-'".to_string()))
    );
}

#[test]
fn test_parser_internal_error_on_leading_dot() {
    let mut parser: Parser = Parser::from(". print");
    assert_eq!(
        parser.next(),
        Err(ParserError::InternalError("Unexpected token".to_string()))
    );
}

#[test]
fn test_parser_lexer_error_passed_through() {
    let mut parser: Parser = Parser::from("print 42.");
    assert!(matches!(parser.next(), Err(ParserError::LexerError(_))));
}

#[test]
fn test_parser_peek_twice_same() {
    let mut parser: Parser = Parser::from("print 'hi' now.");
    let first = parser.peek().unwrap();
    let second = parser.peek().unwrap();
    assert_eq!(first, second);
    let consumed = parser.next().unwrap();
    assert_eq!(first, consumed);
    assert_eq!(parser.next().unwrap(), None);
}

#[test]
fn test_parser_skips_leading_newlines() {
    let parse_nodes = parse_all("\n\nsay hello.\n");
    let expected = vec![ParseNode::Command(Command {
        components: vec![kw("say"), kw("hello")],
        modifiers: vec![],
    })];
    assert_eq!(parse_nodes, expected);
}
