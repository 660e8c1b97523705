//! End-to-end runs through parser and analyzer for the remaining
//! constructs: imports, loops, conditionals, floats, and the operation
//! allow-list.

use arkfront::arkparser::ArkParser;
use arkfront::ast::{Body, LiteralValue, Node};
use arkfront::errors::ErrorPipeline;
use arkfront::semantic_analyzer::{OperationValidator, SemanticAnalyzer};
use arkfront::tokens::{DataType, FloatLit, KeyWords, Token, TokenType};

fn tok(t: TokenType, line: u32, col: u32, len: u32) -> Token {
    Token {
        token: t,
        length: len,
        pos: (line, col),
    }
}

fn ident(name: &str, line: u32, col: u32) -> Token {
    tok(
        TokenType::Identifier(name.to_string()),
        line,
        col,
        name.len() as u32,
    )
}

fn kw(k: KeyWords, line: u32, col: u32, len: u32) -> Token {
    tok(TokenType::Keyword(k), line, col, len)
}

fn parse(tokens: Vec<Token>) -> (Body, ErrorPipeline) {
    let mut parser = ArkParser::new(tokens);
    let mut pipe = ErrorPipeline::new();
    let body = parser.parse(&mut pipe);
    (body, pipe)
}

fn parse_and_analyze(tokens: Vec<Token>) -> ErrorPipeline {
    let (body, mut pipe) = {
        let mut parser = ArkParser::new(tokens);
        let mut pipe = ErrorPipeline::new();
        let body = parser.parse(&mut pipe);
        (body, pipe)
    };
    let mut analyzer = SemanticAnalyzer::new();
    analyzer.analyze(&body, &mut pipe);
    pipe
}

#[test]
fn import_with_alias_parses() {
    // `import "math" as m;`
    let tokens = vec![
        kw(KeyWords::IMPORT, 1, 1, 6),
        tok(TokenType::StringLiteral("math".to_string()), 1, 8, 6),
        kw(KeyWords::AS, 1, 15, 2),
        ident("m", 1, 18),
        tok(TokenType::SemiColon, 1, 19, 1),
        tok(TokenType::EOF, 1, 20, 0),
    ];
    let (body, pipe) = parse(tokens);
    assert_eq!(pipe.len(), 0);
    match &body.instructions[0].node {
        Node::Import(imp) => {
            assert_eq!(imp.import_name.node, "math");
            assert_eq!(imp.alias.as_ref().unwrap().node, "m");
        }
        other => panic!("expected an import, got {:?}", other),
    }
}

#[test]
fn top_level_import_with_fresh_alias_is_accepted() {
    let tokens = vec![
        kw(KeyWords::IMPORT, 1, 1, 6),
        tok(TokenType::StringLiteral("math".to_string()), 1, 8, 6),
        kw(KeyWords::AS, 1, 15, 2),
        ident("m", 1, 18),
        tok(TokenType::SemiColon, 1, 19, 1),
        tok(TokenType::EOF, 1, 20, 0),
    ];
    let pipe = parse_and_analyze(tokens);
    assert_eq!(pipe.len(), 0);
}

#[test]
fn for_loop_over_range_parses_and_analyzes() {
    // `for i in 0..10 { i; }`
    let tokens = vec![
        kw(KeyWords::FOR, 1, 1, 3),
        ident("i", 1, 5),
        kw(KeyWords::IN, 1, 7, 2),
        tok(TokenType::IntLiteral(0), 1, 10, 1),
        tok(TokenType::Range, 1, 11, 2),
        tok(TokenType::IntLiteral(10), 1, 13, 2),
        tok(TokenType::LeftBrace, 1, 16, 1),
        ident("i", 2, 1),
        tok(TokenType::SemiColon, 2, 2, 1),
        tok(TokenType::RightBrace, 3, 1, 1),
        tok(TokenType::EOF, 3, 2, 0),
    ];
    let (body, pipe) = parse(tokens);
    assert_eq!(pipe.len(), 0);
    match &body.instructions[0].node {
        Node::For(f) => {
            assert!(matches!(f.range.node, Node::Range(_)));
            assert_eq!(f.body.instructions.len(), 1);
        }
        other => panic!("expected a for loop, got {:?}", other),
    }
}

#[test]
fn for_target_missing_range_is_reported() {
    // `for i in 5 { }` — no `..` after the start expression.
    let tokens = vec![
        kw(KeyWords::FOR, 1, 1, 3),
        ident("i", 1, 5),
        kw(KeyWords::IN, 1, 7, 2),
        tok(TokenType::IntLiteral(5), 1, 10, 1),
        tok(TokenType::LeftBrace, 1, 12, 1),
        tok(TokenType::RightBrace, 1, 13, 1),
        tok(TokenType::EOF, 1, 14, 0),
    ];
    let (_, pipe) = parse(tokens);
    assert_eq!(pipe.len(), 1);
    assert_eq!(
        pipe.get(0).error_message,
        "expected token 'range' after 'in' keyword"
    );
}

#[test]
fn if_chain_parses_and_checks_condition_type() {
    // `if true { } else if false { } else { }` analyzes cleanly.
    let tokens = vec![
        kw(KeyWords::IF, 1, 1, 2),
        tok(TokenType::BooleanLiteral(true), 1, 4, 4),
        tok(TokenType::LeftBrace, 1, 9, 1),
        tok(TokenType::RightBrace, 1, 10, 1),
        kw(KeyWords::ELSEIF, 1, 12, 7),
        tok(TokenType::BooleanLiteral(false), 1, 20, 5),
        tok(TokenType::LeftBrace, 1, 26, 1),
        tok(TokenType::RightBrace, 1, 27, 1),
        kw(KeyWords::ELSE, 1, 29, 4),
        tok(TokenType::LeftBrace, 1, 34, 1),
        tok(TokenType::RightBrace, 1, 35, 1),
        tok(TokenType::EOF, 1, 36, 0),
    ];
    let pipe = parse_and_analyze(tokens);
    assert_eq!(pipe.len(), 0);
}

#[test]
fn non_boolean_if_condition_is_reported() {
    // `if "s" { }` — a string cannot stand as the condition.
    let tokens = vec![
        kw(KeyWords::IF, 1, 1, 2),
        tok(TokenType::StringLiteral("s".to_string()), 1, 4, 3),
        tok(TokenType::LeftBrace, 1, 8, 1),
        tok(TokenType::RightBrace, 1, 9, 1),
        tok(TokenType::EOF, 1, 10, 0),
    ];
    let pipe = parse_and_analyze(tokens);
    assert_eq!(pipe.len(), 1);
    assert_eq!(
        pipe.get(0).error_message,
        "expected boolean expression in if statement found 'str'"
    );
}

#[test]
fn float_literal_typing_by_range() {
    // A literal within the narrow floating range types narrow; one beyond
    // it types wide; one beyond both is too large.
    let narrow = FloatLit {
        text: "1.5".to_string(),
        fits32: true,
        fits64: true,
    };
    let wide = FloatLit {
        text: "999".to_string(),
        fits32: false,
        fits64: true,
    };
    let huge = FloatLit {
        text: "inf".to_string(),
        fits32: false,
        fits64: false,
    };
    assert_eq!(SemanticAnalyzer::get_float_type(&narrow), Some(DataType::F32));
    assert_eq!(SemanticAnalyzer::get_float_type(&wide), Some(DataType::F64));
    assert_eq!(SemanticAnalyzer::get_float_type(&huge), None);
}

#[test]
fn float_declaration_analyzes() {
    // `let f32 x = 1.5;`
    let tokens = vec![
        kw(KeyWords::LET, 1, 1, 3),
        ident("x", 1, 5),
        tok(TokenType::Colon, 1, 6, 1),
        tok(TokenType::DataType(DataType::F32), 1, 8, 3),
        tok(TokenType::AssignmentOperator, 1, 12, 1),
        tok(
            TokenType::FloatLiteral(FloatLit {
                text: "1.5".to_string(),
                fits32: true,
                fits64: true,
            }),
            1,
            14,
            3,
        ),
        tok(TokenType::SemiColon, 1, 17, 1),
        tok(TokenType::EOF, 1, 18, 0),
    ];
    let pipe = parse_and_analyze(tokens);
    assert_eq!(pipe.len(), 0);
}

#[test]
fn negated_float_keeps_its_text() {
    // `let f64 x = -2.25;` parses the literal with a sign-prefixed text.
    let tokens = vec![
        kw(KeyWords::LET, 1, 1, 3),
        ident("x", 1, 5),
        tok(TokenType::Colon, 1, 6, 1),
        tok(TokenType::DataType(DataType::F64), 1, 8, 3),
        tok(TokenType::AssignmentOperator, 1, 12, 1),
        tok(TokenType::SubtractionOperator, 1, 14, 1),
        tok(
            TokenType::FloatLiteral(FloatLit {
                text: "2.25".to_string(),
                fits32: true,
                fits64: true,
            }),
            1,
            15,
            4,
        ),
        tok(TokenType::SemiColon, 1, 19, 1),
        tok(TokenType::EOF, 1, 20, 0),
    ];
    let (body, pipe) = parse(tokens);
    assert_eq!(pipe.len(), 0);
    match &body.instructions[0].node {
        Node::Assignment(be) => match &be.right.node {
            Node::Literal(LiteralValue::Float(f)) => assert_eq!(f.text, "-2.25"),
            other => panic!("expected a float literal, got {:?}", other),
        },
        other => panic!("expected an assignment, got {:?}", other),
    }
}

#[test]
fn operation_validator_matches_recorded_rules() {
    let mut validator = OperationValidator::new();
    assert!(!validator.validate(
        DataType::I8,
        DataType::I8,
        TokenType::AdditionOperator
    ));
    validator.add_allow(DataType::I8, DataType::I8, TokenType::AdditionOperator);
    assert!(validator.validate(
        DataType::I8,
        DataType::I8,
        TokenType::AdditionOperator
    ));
    assert!(!validator.validate(
        DataType::I8,
        DataType::I16,
        TokenType::AdditionOperator
    ));
    assert!(!validator.validate(
        DataType::I8,
        DataType::I8,
        TokenType::SubtractionOperator
    ));
}

#[test]
fn diagnostics_keep_arrival_order() {
    let mut pipe = ErrorPipeline::new();
    assert!(pipe.is_empty());
    pipe.raise_error(arkfront::ErrorType::LexicalError, "first", (1, 1), 1);
    pipe.raise_error(arkfront::ErrorType::SyntaxError, "second", (2, 1), 1);
    assert_eq!(pipe.len(), 2);
    assert_eq!(pipe.get(0).error_message, "first");
    assert_eq!(pipe.get(1).error_message, "second");
    assert!(!pipe.is_empty());
}
