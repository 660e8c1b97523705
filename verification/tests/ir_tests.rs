//! IR generation: SSA-style numbering, operator mnemonics, function
//! lowering, and the data-type helpers the emitted text leans on.

use arkfront::arkparser::ArkParser;
use arkfront::ast::{AstNode, Body, Node};
use arkfront::errors::ErrorType;
use arkfront::errors::ErrorPipeline;
use arkfront::ir_generation::IRGenerator;
use arkfront::semantic_analyzer::SemanticAnalyzer;
use arkfront::tokens::{Array, DataType, KeyWords, Token, TokenType};

fn tok(t: TokenType, line: u32, col: u32, len: u32) -> Token {
    Token {
        token: t,
        length: len,
        pos: (line, col),
    }
}

fn ident(name: &str, line: u32, col: u32) -> Token {
    tok(
        TokenType::Identifier(name.to_string()),
        line,
        col,
        name.len() as u32,
    )
}

fn kw(k: KeyWords, line: u32, col: u32, len: u32) -> Token {
    tok(TokenType::Keyword(k), line, col, len)
}

fn compile(tokens: Vec<Token>) -> (Body, String, ErrorPipeline) {
    let mut parser = ArkParser::new(tokens);
    let mut pipe = ErrorPipeline::new();
    let body = parser.parse(&mut pipe);
    let mut analyzer = SemanticAnalyzer::new();
    analyzer.analyze(&body, &mut pipe);
    let mut generator = IRGenerator::new(analyzer.into_symbol_table());
    let ir = generator.get_intermediate_representation(&body);
    (body, ir, pipe)
}

#[test]
fn assignment_chain_numbering() {
    // `let i32 a = 1; a = a + 2;` — each write gets a fresh suffix, each
    // read sees the version visible at that point.
    let tokens = vec![
        kw(KeyWords::LET, 1, 1, 3),
        ident("a", 1, 5),
        tok(TokenType::Colon, 1, 6, 1),
        tok(TokenType::DataType(DataType::I32), 1, 8, 3),
        tok(TokenType::AssignmentOperator, 1, 12, 1),
        tok(TokenType::IntLiteral(1), 1, 14, 1),
        tok(TokenType::SemiColon, 1, 15, 1),
        ident("a", 2, 1),
        tok(TokenType::AssignmentOperator, 2, 3, 1),
        ident("a", 2, 5),
        tok(TokenType::AdditionOperator, 2, 7, 1),
        tok(TokenType::IntLiteral(2), 2, 9, 1),
        tok(TokenType::SemiColon, 2, 10, 1),
        tok(TokenType::EOF, 2, 11, 0),
    ];
    let (_, ir, pipe) = compile(tokens);
    assert_eq!(pipe.len(), 0);
    assert_eq!(ir, "a0 = 1\ntac_temp0 = add a0, 2\na1 = tac_temp0\n");
}

#[test]
fn function_definition_lowering() {
    // `func f(x: i32): i32 { return x; }`
    let tokens = vec![
        kw(KeyWords::FUNC, 1, 1, 4),
        ident("f", 1, 6),
        tok(TokenType::LeftParen, 1, 7, 1),
        ident("x", 1, 8),
        tok(TokenType::Colon, 1, 9, 1),
        tok(TokenType::DataType(DataType::I32), 1, 11, 3),
        tok(TokenType::RightParen, 1, 14, 1),
        tok(TokenType::Colon, 1, 15, 1),
        tok(TokenType::DataType(DataType::I32), 1, 17, 3),
        tok(TokenType::LeftBrace, 1, 21, 1),
        kw(KeyWords::RETURN, 2, 1, 6),
        ident("x", 2, 8),
        tok(TokenType::SemiColon, 2, 9, 1),
        tok(TokenType::RightBrace, 3, 1, 1),
        tok(TokenType::EOF, 3, 2, 0),
    ];
    let (_, ir, pipe) = compile(tokens);
    assert_eq!(pipe.len(), 0);
    assert_eq!(ir, "@defined i32 f(i32 x):\n    ret x0\n");
}

#[test]
fn call_lowering_allocates_a_temporary() {
    // `func f(): i32 { return 1; } let i32 r = f();`
    let tokens = vec![
        kw(KeyWords::FUNC, 1, 1, 4),
        ident("f", 1, 6),
        tok(TokenType::LeftParen, 1, 7, 1),
        tok(TokenType::RightParen, 1, 8, 1),
        tok(TokenType::Colon, 1, 9, 1),
        tok(TokenType::DataType(DataType::I32), 1, 11, 3),
        tok(TokenType::LeftBrace, 1, 15, 1),
        kw(KeyWords::RETURN, 2, 1, 6),
        tok(TokenType::IntLiteral(1), 2, 8, 1),
        tok(TokenType::SemiColon, 2, 9, 1),
        tok(TokenType::RightBrace, 3, 1, 1),
        kw(KeyWords::LET, 4, 1, 3),
        ident("r", 4, 5),
        tok(TokenType::Colon, 4, 6, 1),
        tok(TokenType::DataType(DataType::I32), 4, 8, 3),
        tok(TokenType::AssignmentOperator, 4, 12, 1),
        ident("f", 4, 14),
        tok(TokenType::LeftParen, 4, 15, 1),
        tok(TokenType::RightParen, 4, 16, 1),
        tok(TokenType::SemiColon, 4, 17, 1),
        tok(TokenType::EOF, 4, 18, 0),
    ];
    let (_, ir, pipe) = compile(tokens);
    assert_eq!(pipe.len(), 0);
    assert_eq!(
        ir,
        "@defined i32 f():\n    ret 1\ntac_temp0 = call f \nr0 = tac_temp0\n"
    );
}

#[test]
fn comparison_mnemonics() {
    // `let bool b = 1 < 2;`
    let tokens = vec![
        kw(KeyWords::LET, 1, 1, 3),
        ident("b", 1, 5),
        tok(TokenType::Colon, 1, 6, 1),
        tok(TokenType::DataType(DataType::Boolean), 1, 8, 4),
        tok(TokenType::AssignmentOperator, 1, 13, 1),
        tok(TokenType::IntLiteral(1), 1, 15, 1),
        tok(TokenType::Less, 1, 17, 1),
        tok(TokenType::IntLiteral(2), 1, 19, 1),
        tok(TokenType::SemiColon, 1, 20, 1),
        tok(TokenType::EOF, 1, 21, 0),
    ];
    let (_, ir, pipe) = compile(tokens);
    assert_eq!(pipe.len(), 0);
    assert_eq!(ir, "tac_temp0 = l 1, 2\nb0 = tac_temp0\n");
}

#[test]
fn boolean_and_negative_literals_render() {
    // `let bool t = true;` then `let i32 n = -7;`
    let tokens = vec![
        kw(KeyWords::LET, 1, 1, 3),
        ident("t", 1, 5),
        tok(TokenType::Colon, 1, 6, 1),
        tok(TokenType::DataType(DataType::Boolean), 1, 8, 4),
        tok(TokenType::AssignmentOperator, 1, 13, 1),
        tok(TokenType::BooleanLiteral(true), 1, 15, 4),
        tok(TokenType::SemiColon, 1, 19, 1),
        kw(KeyWords::LET, 2, 1, 3),
        ident("n", 2, 5),
        tok(TokenType::Colon, 2, 6, 1),
        tok(TokenType::DataType(DataType::I32), 2, 8, 3),
        tok(TokenType::AssignmentOperator, 2, 12, 1),
        tok(TokenType::SubtractionOperator, 2, 14, 1),
        tok(TokenType::IntLiteral(7), 2, 15, 1),
        tok(TokenType::SemiColon, 2, 16, 1),
        tok(TokenType::EOF, 2, 17, 0),
    ];
    let (_, ir, pipe) = compile(tokens);
    assert_eq!(pipe.len(), 0);
    assert_eq!(ir, "t0 = true\nn0 = -7\n");
}

#[test]
fn type_names_render() {
    assert_eq!(DataType::I8.to_string(), "i8");
    assert_eq!(DataType::U64.to_string(), "u64");
    assert_eq!(DataType::Void.to_string(), "void");
    assert_eq!(DataType::Boolean.to_string(), "bool");
    assert_eq!(DataType::Str(7).to_string(), "str");
    let arr = DataType::Array(Array {
        length: 3,
        data_type: Box::new(DataType::U16),
    });
    assert_eq!(arr.to_string(), "array [u16]");
}

#[test]
fn sizes_in_bytes() {
    assert_eq!(DataType::Void.get_size_in_bytes(), 0);
    assert_eq!(DataType::I8.get_size_in_bytes(), 1);
    assert_eq!(DataType::I16.get_size_in_bytes(), 2);
    assert_eq!(DataType::U32.get_size_in_bytes(), 4);
    assert_eq!(DataType::U64.get_size_in_bytes(), 8);
    assert_eq!(DataType::F32.get_size_in_bytes(), 4);
    assert_eq!(DataType::F64.get_size_in_bytes(), 8);
    assert_eq!(DataType::Boolean.get_size_in_bytes(), 1);
    assert_eq!(DataType::Str(40).get_size_in_bytes(), 4);
    let arr = DataType::Array(Array {
        length: 5,
        data_type: Box::new(DataType::I64),
    });
    assert_eq!(arr.get_size_in_bytes(), 40);
    assert_eq!(arr.size_in_bytes_clamped(), 40);
}

#[test]
fn error_label_text() {
    assert_eq!(ErrorType::SemanticError.as_str(), "Sematic Error");
    assert_eq!(ErrorType::SyntaxError.as_str(), "Syntax Error");
    assert_eq!(ErrorType::LexicalError.as_str(), "Lexical Error");
}

#[test]
fn body_contains_finds_nested_return() {
    let ret = AstNode {
        node: Node::Return(None),
        pos: (2, 1),
        length: 6,
    };
    let inner = Body {
        instructions: vec![ret],
    };
    let outer = Body {
        instructions: vec![AstNode {
            node: Node::Body(inner),
            pos: (1, 1),
            length: 0,
        }],
    };
    assert!(outer.contains(&Node::Return(None)));
    assert!(!outer.contains(&Node::Variable("x".to_string())));
}
