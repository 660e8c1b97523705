//! Parser behaviour: spans, statement parsing, recovery.

use arkfront::arkparser::ArkParser;
use arkfront::ast::{LiteralValue, Node};
use arkfront::errors::{ErrorPipeline, ErrorType};
use arkfront::tokens::{DataType, KeyWords, Token, TokenType};

fn tok(t: TokenType, line: u32, col: u32, len: u32) -> Token {
    Token {
        token: t,
        length: len,
        pos: (line, col),
    }
}

fn eof(line: u32, col: u32) -> Token {
    tok(TokenType::EOF, line, col, 0)
}

fn ident(name: &str, line: u32, col: u32) -> Token {
    tok(
        TokenType::Identifier(name.to_string()),
        line,
        col,
        name.len() as u32,
    )
}

fn kw(k: KeyWords, line: u32, col: u32, len: u32) -> Token {
    tok(TokenType::Keyword(k), line, col, len)
}

#[test]
fn identifier_span_matches_token() {
    // `x;` — the variable node carries the token's position and length.
    let tokens = vec![
        ident("long_name", 3, 7),
        tok(TokenType::SemiColon, 3, 16, 1),
        eof(3, 17),
    ];
    let mut parser = ArkParser::new(tokens);
    let mut pipe = ErrorPipeline::new();
    let body = parser.parse(&mut pipe);
    assert_eq!(body.instructions.len(), 1);
    let node = &body.instructions[0];
    match &node.node {
        Node::Variable(v) => assert_eq!(v, "long_name"),
        other => panic!("expected a variable node, got {:?}", other),
    }
    assert_eq!(node.pos, (3, 7));
    assert_eq!(node.length, 9);
    assert_eq!(pipe.len(), 0);
}

#[test]
fn int_literal_span_matches_token() {
    // `let i32 a = 12345;` — the literal keeps its token span.
    let tokens = vec![
        kw(KeyWords::LET, 1, 1, 3),
        ident("a", 1, 5),
        tok(TokenType::Colon, 1, 6, 1),
        tok(TokenType::DataType(DataType::I32), 1, 8, 3),
        tok(TokenType::AssignmentOperator, 1, 12, 1),
        tok(TokenType::IntLiteral(12345), 1, 14, 5),
        tok(TokenType::SemiColon, 1, 19, 1),
        eof(1, 20),
    ];
    let mut parser = ArkParser::new(tokens);
    let mut pipe = ErrorPipeline::new();
    let body = parser.parse(&mut pipe);
    assert_eq!(pipe.len(), 0);
    assert_eq!(body.instructions.len(), 1);
    match &body.instructions[0].node {
        Node::Assignment(be) => {
            match &be.left.node {
                Node::DeclareVar(v) => {
                    assert_eq!(v.name.node, "a");
                    assert!(matches!(v.var_type.node, DataType::I32));
                    assert_eq!(v.constant.as_ref().unwrap().node, false);
                }
                other => panic!("expected a declaration target, got {:?}", other),
            }
            match &be.right.node {
                Node::Literal(LiteralValue::Int(i)) => assert_eq!(*i, 12345),
                other => panic!("expected an int literal, got {:?}", other),
            }
            assert_eq!(be.right.pos, (1, 14));
            assert_eq!(be.right.length, 5);
        }
        other => panic!("expected an assignment, got {:?}", other),
    }
}

#[test]
fn malformed_parameter_list_resynchronizes() {
    // A function whose parameter list breaks still lets the next
    // top-level function parse, with exactly one diagnostic for the
    // broken one.
    let tokens = vec![
        kw(KeyWords::FUNC, 1, 1, 4),
        ident("broken", 1, 6),
        tok(TokenType::LeftParen, 1, 12, 1),
        tok(TokenType::RightBrace, 1, 13, 1), // not a parameter name
        tok(TokenType::LeftBrace, 1, 15, 1),
        tok(TokenType::RightBrace, 1, 16, 1),
        kw(KeyWords::FUNC, 2, 1, 4),
        ident("fine", 2, 6),
        tok(TokenType::LeftParen, 2, 10, 1),
        tok(TokenType::RightParen, 2, 11, 1),
        tok(TokenType::LeftBrace, 2, 13, 1),
        tok(TokenType::RightBrace, 2, 14, 1),
        eof(2, 15),
    ];
    let mut parser = ArkParser::new(tokens);
    let mut pipe = ErrorPipeline::new();
    let body = parser.parse(&mut pipe);
    assert_eq!(pipe.len(), 1);
    assert_eq!(pipe.get(0).error_message, "missing parameter name");
    assert!(matches!(pipe.get(0).error_type, ErrorType::SyntaxError));
    assert_eq!(body.instructions.len(), 2);
    assert!(matches!(body.instructions[0].node, Node::ParserError(_)));
    match &body.instructions[1].node {
        Node::Function(f) => assert_eq!(f.function_name.node, "fine"),
        other => panic!("expected the next function to parse, got {:?}", other),
    }
}

#[test]
fn missing_colon_in_parameter_list_resynchronizes() {
    // `func broken(a i32) { } func good() { }` — one diagnostic for the
    // missing ':' and the next function parses clean.
    let tokens = vec![
        kw(KeyWords::FUNC, 1, 1, 4),
        ident("broken", 1, 6),
        tok(TokenType::LeftParen, 1, 12, 1),
        ident("a", 1, 13),
        tok(TokenType::DataType(DataType::I32), 1, 15, 3),
        tok(TokenType::RightParen, 1, 18, 1),
        tok(TokenType::LeftBrace, 1, 20, 1),
        tok(TokenType::RightBrace, 1, 21, 1),
        kw(KeyWords::FUNC, 2, 1, 4),
        ident("good", 2, 6),
        tok(TokenType::LeftParen, 2, 10, 1),
        tok(TokenType::RightParen, 2, 11, 1),
        tok(TokenType::LeftBrace, 2, 13, 1),
        tok(TokenType::RightBrace, 2, 14, 1),
        eof(2, 15),
    ];
    let mut parser = ArkParser::new(tokens);
    let mut pipe = ErrorPipeline::new();
    let body = parser.parse(&mut pipe);
    assert_eq!(pipe.len(), 1);
    assert_eq!(pipe.get(0).error_message, "expected ':' for type declaration");
    assert_eq!(body.instructions.len(), 2);
    assert!(matches!(body.instructions[0].node, Node::ParserError(_)));
    match &body.instructions[1].node {
        Node::Function(f) => {
            assert_eq!(f.function_name.node, "good");
            assert!(matches!(f.return_type.node, DataType::Void));
            assert!(f.parameters.is_empty());
        }
        other => panic!("expected the next function to parse, got {:?}", other),
    }
}

#[test]
fn block_statements_keep_source_order_after_rejection() {
    // `func f() { func x; }` — the rejected nested `func` still leaves the
    // following statement in place, in order.
    let tokens = vec![
        kw(KeyWords::FUNC, 1, 1, 4),
        ident("f", 1, 6),
        tok(TokenType::LeftParen, 1, 7, 1),
        tok(TokenType::RightParen, 1, 8, 1),
        tok(TokenType::LeftBrace, 1, 10, 1),
        kw(KeyWords::FUNC, 2, 1, 4),
        ident("x", 2, 6),
        tok(TokenType::SemiColon, 2, 7, 1),
        tok(TokenType::RightBrace, 3, 1, 1),
        eof(3, 2),
    ];
    let mut parser = ArkParser::new(tokens);
    let mut pipe = ErrorPipeline::new();
    let body = parser.parse(&mut pipe);
    assert_eq!(pipe.len(), 1);
    assert_eq!(
        pipe.get(0).error_message,
        "only top-level function declaration is allowed"
    );
    match &body.instructions[0].node {
        Node::Function(f) => {
            assert_eq!(f.body.instructions.len(), 2);
            assert!(matches!(f.body.instructions[0].node, Node::ParserError(_)));
            match &f.body.instructions[1].node {
                Node::Variable(v) => assert_eq!(v, "x"),
                other => panic!("expected the following statement, got {:?}", other),
            }
        }
        other => panic!("expected a function, got {:?}", other),
    }
}

fn func_i32_body(body_tokens: Vec<Token>) -> Vec<Token> {
    // `func f(): i32 { <body> }`
    let mut tokens = vec![
        kw(KeyWords::FUNC, 1, 1, 4),
        ident("f", 1, 6),
        tok(TokenType::LeftParen, 1, 7, 1),
        tok(TokenType::RightParen, 1, 8, 1),
        tok(TokenType::Colon, 1, 9, 1),
        tok(TokenType::DataType(DataType::I32), 1, 11, 3),
        tok(TokenType::LeftBrace, 1, 15, 1),
    ];
    tokens.extend(body_tokens);
    tokens.push(tok(TokenType::RightBrace, 3, 1, 1));
    tokens.push(eof(3, 2));
    tokens
}

#[test]
fn missing_return_reports_exactly_one_diagnostic() {
    // `func f(): i32 { let i32 x = 1; }` — one missing-return report, at
    // the return-type token.
    let tokens = func_i32_body(vec![
        kw(KeyWords::LET, 2, 1, 3),
        ident("x", 2, 5),
        tok(TokenType::Colon, 2, 6, 1),
        tok(TokenType::DataType(DataType::I32), 2, 8, 3),
        tok(TokenType::AssignmentOperator, 2, 12, 1),
        tok(TokenType::IntLiteral(1), 2, 14, 1),
        tok(TokenType::SemiColon, 2, 15, 1),
    ]);
    let mut parser = ArkParser::new(tokens);
    let mut pipe = ErrorPipeline::new();
    let body = parser.parse(&mut pipe);
    assert_eq!(pipe.len(), 1);
    assert_eq!(pipe.get(0).error_message, "missing return statement");
    assert!(matches!(pipe.get(0).error_type, ErrorType::SemanticError));
    assert_eq!(pipe.get(0).pos, (1, 11));
    assert_eq!(pipe.get(0).length, 3);
    assert!(matches!(body.instructions[0].node, Node::Function(_)));
}

#[test]
fn adding_return_removes_the_diagnostic() {
    // `func f(): i32 { let i32 x = 1; return x; }` — no report.
    let tokens = func_i32_body(vec![
        kw(KeyWords::LET, 2, 1, 3),
        ident("x", 2, 5),
        tok(TokenType::Colon, 2, 6, 1),
        tok(TokenType::DataType(DataType::I32), 2, 8, 3),
        tok(TokenType::AssignmentOperator, 2, 12, 1),
        tok(TokenType::IntLiteral(1), 2, 14, 1),
        tok(TokenType::SemiColon, 2, 15, 1),
        kw(KeyWords::RETURN, 2, 17, 6),
        ident("x", 2, 24),
        tok(TokenType::SemiColon, 2, 25, 1),
    ]);
    let mut parser = ArkParser::new(tokens);
    let mut pipe = ErrorPipeline::new();
    let body = parser.parse(&mut pipe);
    assert_eq!(pipe.len(), 0);
    assert!(matches!(body.instructions[0].node, Node::Function(_)));
}

#[test]
fn missing_semicolon_is_reported() {
    let tokens = vec![ident("x", 1, 1), eof(1, 2)];
    let mut parser = ArkParser::new(tokens);
    let mut pipe = ErrorPipeline::new();
    let _ = parser.parse(&mut pipe);
    assert_eq!(pipe.len(), 1);
    assert_eq!(pipe.get(0).error_message, "missing semicolon");
}

#[test]
fn array_type_declaration_parses() {
    // `let i32[4] a;` token form: let a : i32 [ 4 ] ;
    let tokens = vec![
        kw(KeyWords::LET, 1, 1, 3),
        ident("a", 1, 5),
        tok(TokenType::Colon, 1, 6, 1),
        tok(TokenType::DataType(DataType::I32), 1, 8, 3),
        tok(TokenType::LeftBracket, 1, 11, 1),
        tok(TokenType::IntLiteral(4), 1, 12, 1),
        tok(TokenType::RightBracket, 1, 13, 1),
        tok(TokenType::SemiColon, 1, 14, 1),
        eof(1, 15),
    ];
    let mut parser = ArkParser::new(tokens);
    let mut pipe = ErrorPipeline::new();
    let body = parser.parse(&mut pipe);
    assert_eq!(pipe.len(), 0);
    match &body.instructions[0].node {
        Node::DeclareVar(v) => match &v.var_type.node {
            DataType::Array(arr) => {
                assert_eq!(arr.length, 4);
                assert!(matches!(*arr.data_type, DataType::I32));
            }
            other => panic!("expected an array type, got {:?}", other),
        },
        other => panic!("expected a declaration, got {:?}", other),
    }
}

#[test]
fn else_without_if_is_reported() {
    let tokens = vec![
        kw(KeyWords::FUNC, 1, 1, 4),
        ident("f", 1, 6),
        tok(TokenType::LeftParen, 1, 7, 1),
        tok(TokenType::RightParen, 1, 8, 1),
        tok(TokenType::LeftBrace, 1, 10, 1),
        kw(KeyWords::ELSE, 2, 1, 4),
        tok(TokenType::RightBrace, 3, 1, 1),
        eof(3, 2),
    ];
    let mut parser = ArkParser::new(tokens);
    let mut pipe = ErrorPipeline::new();
    let _ = parser.parse(&mut pipe);
    assert_eq!(pipe.len(), 1);
    assert_eq!(
        pipe.get(0).error_message,
        "expected token 'if' before 'else' token"
    );
}

#[test]
fn nested_function_declaration_is_rejected() {
    let tokens = vec![
        kw(KeyWords::FUNC, 1, 1, 4),
        ident("f", 1, 6),
        tok(TokenType::LeftParen, 1, 7, 1),
        tok(TokenType::RightParen, 1, 8, 1),
        tok(TokenType::LeftBrace, 1, 10, 1),
        kw(KeyWords::FUNC, 2, 1, 4),
        tok(TokenType::RightBrace, 3, 1, 1),
        eof(3, 2),
    ];
    let mut parser = ArkParser::new(tokens);
    let mut pipe = ErrorPipeline::new();
    let _ = parser.parse(&mut pipe);
    assert!(pipe.len() >= 1);
    assert_eq!(
        pipe.get(0).error_message,
        "only top-level function declaration is allowed"
    );
}

#[test]
fn unclosed_brace_is_reported() {
    let tokens = vec![
        kw(KeyWords::FUNC, 1, 1, 4),
        ident("f", 1, 6),
        tok(TokenType::LeftParen, 1, 7, 1),
        tok(TokenType::RightParen, 1, 8, 1),
        tok(TokenType::LeftBrace, 1, 10, 1),
        eof(2, 1),
    ];
    let mut parser = ArkParser::new(tokens);
    let mut pipe = ErrorPipeline::new();
    let _ = parser.parse(&mut pipe);
    assert!(pipe.len() >= 1);
    assert_eq!(pipe.get(0).error_message, "unclosed brace");
}

#[test]
fn while_loop_parses() {
    // `while true { x; }`
    let tokens = vec![
        kw(KeyWords::WHILE, 1, 1, 5),
        tok(TokenType::BooleanLiteral(true), 1, 7, 4),
        tok(TokenType::LeftBrace, 1, 12, 1),
        ident("x", 2, 1),
        tok(TokenType::SemiColon, 2, 2, 1),
        tok(TokenType::RightBrace, 3, 1, 1),
        eof(3, 2),
    ];
    let mut parser = ArkParser::new(tokens);
    let mut pipe = ErrorPipeline::new();
    let body = parser.parse(&mut pipe);
    assert_eq!(pipe.len(), 0);
    match &body.instructions[0].node {
        Node::While(w) => {
            assert!(matches!(
                w.condition.node,
                Node::Literal(LiteralValue::Bool(true))
            ));
            assert_eq!(w.body.instructions.len(), 1);
        }
        other => panic!("expected a while loop, got {:?}", other),
    }
}

#[test]
fn operator_precedence_builds_nested_expression() {
    // `let i32 r = 1 + 2 * 3;` — multiplication binds tighter.
    let tokens = vec![
        kw(KeyWords::LET, 1, 1, 3),
        ident("r", 1, 5),
        tok(TokenType::Colon, 1, 6, 1),
        tok(TokenType::DataType(DataType::I32), 1, 8, 3),
        tok(TokenType::AssignmentOperator, 1, 12, 1),
        tok(TokenType::IntLiteral(1), 1, 14, 1),
        tok(TokenType::AdditionOperator, 1, 16, 1),
        tok(TokenType::IntLiteral(2), 1, 18, 1),
        tok(TokenType::MultiplicationOperator, 1, 20, 1),
        tok(TokenType::IntLiteral(3), 1, 22, 1),
        tok(TokenType::SemiColon, 1, 23, 1),
        eof(1, 24),
    ];
    let mut parser = ArkParser::new(tokens);
    let mut pipe = ErrorPipeline::new();
    let body = parser.parse(&mut pipe);
    assert_eq!(pipe.len(), 0);
    match &body.instructions[0].node {
        Node::Assignment(be) => match &be.right.node {
            Node::BinaryExpression(add) => {
                assert!(matches!(add.operator.node, TokenType::AdditionOperator));
                assert!(matches!(
                    add.left.node,
                    Node::Literal(LiteralValue::Int(1))
                ));
                match &add.right.node {
                    Node::BinaryExpression(mul) => {
                        assert!(matches!(
                            mul.operator.node,
                            TokenType::MultiplicationOperator
                        ));
                    }
                    other => panic!("expected nested multiplication, got {:?}", other),
                }
            }
            other => panic!("expected an addition, got {:?}", other),
        },
        other => panic!("expected an assignment, got {:?}", other),
    }
}
