//! Semantic analysis: declare-before-use, scope visibility, literal
//! typing, coercion, and the diagnostic catalogue.

use arkfront::ast::{AstNode, BinExp, Body, FuncDef, Import, LiteralValue, Node, Var, WhileLoop};
use arkfront::errors::{ErrorPipeline, ErrorType};
use arkfront::semantic_analyzer::SemanticAnalyzer;
use arkfront::tokens::{DataType, TokenType};

fn at(node: Node, line: u32, col: u32, len: u32) -> AstNode<Node> {
    AstNode {
        node,
        pos: (line, col),
        length: len,
    }
}

fn declare(name: &str, dt: DataType, line: u32) -> AstNode<Node> {
    at(
        Node::DeclareVar(Var {
            constant: Some(AstNode {
                node: false,
                pos: (line, 1),
                length: 3,
            }),
            name: AstNode {
                node: name.to_string(),
                pos: (line, 5),
                length: name.len() as u32,
            },
            var_type: AstNode {
                node: dt,
                pos: (line, 8),
                length: 3,
            },
        }),
        line,
        1,
        3,
    )
}

fn use_var(name: &str, line: u32) -> AstNode<Node> {
    at(Node::Variable(name.to_string()), line, 1, name.len() as u32)
}

fn run(instructions: Vec<AstNode<Node>>) -> ErrorPipeline {
    let body = Body { instructions };
    let mut analyzer = SemanticAnalyzer::new();
    let mut pipe = ErrorPipeline::new();
    analyzer.analyze(&body, &mut pipe);
    pipe
}

#[test]
fn reference_before_declaration_line_is_an_error() {
    let pipe = run(vec![declare("x", DataType::I32, 5), use_var("x", 3)]);
    assert_eq!(pipe.len(), 1);
    assert!(matches!(pipe.get(0).error_type, ErrorType::SemanticError));
    assert_eq!(pipe.get(0).error_message, "use of undeclared variable 'x'");
}

#[test]
fn reference_at_or_after_declaration_line_succeeds() {
    let pipe = run(vec![
        declare("x", DataType::I32, 2),
        use_var("x", 2),
        use_var("x", 7),
    ]);
    assert_eq!(pipe.len(), 0);
}

#[test]
fn variable_declared_in_block_is_invisible_outside() {
    let inner = Body {
        instructions: vec![declare("hidden", DataType::I32, 1)],
    };
    let pipe = run(vec![at(Node::Body(inner), 1, 1, 0), use_var("hidden", 2)]);
    assert_eq!(pipe.len(), 1);
    assert_eq!(
        pipe.get(0).error_message,
        "use of undeclared variable 'hidden'"
    );
}

#[test]
fn enclosing_variable_is_visible_in_nested_block() {
    let inner = Body {
        instructions: vec![use_var("outer", 3)],
    };
    let pipe = run(vec![
        declare("outer", DataType::I32, 1),
        at(Node::Body(inner), 2, 1, 0),
    ]);
    assert_eq!(pipe.len(), 0);
}

#[test]
fn integer_literal_widths() {
    assert_eq!(SemanticAnalyzer::get_int_type(5), Some(DataType::I8));
    assert_eq!(SemanticAnalyzer::get_int_type(200), Some(DataType::I16));
    assert_eq!(SemanticAnalyzer::get_int_type(40000), Some(DataType::I32));
    assert_eq!(
        SemanticAnalyzer::get_int_type(3000000000),
        Some(DataType::I64)
    );
    assert_eq!(SemanticAnalyzer::get_int_type(99999999999999999999), None);
    assert_eq!(SemanticAnalyzer::get_int_type(-120), Some(DataType::I8));
}

#[test]
fn oversized_literal_reports_value_too_large() {
    let pipe = run(vec![at(
        Node::Literal(LiteralValue::Int(99999999999999999999)),
        1,
        1,
        20,
    )]);
    assert_eq!(pipe.len(), 1);
    assert_eq!(pipe.get(0).error_message, "value is too large");
    assert!(matches!(pipe.get(0).error_type, ErrorType::SemanticError));
}

fn binop(left: AstNode<Node>, op: TokenType, right: AstNode<Node>) -> AstNode<Node> {
    let pos = left.pos;
    at(
        Node::BinaryExpression(BinExp {
            left: Box::new(left),
            right: Box::new(right),
            operator: AstNode {
                node: op,
                pos: (pos.0, 20),
                length: 1,
            },
        }),
        pos.0,
        pos.1,
        5,
    )
}

#[test]
fn narrow_operand_widens_to_the_wider_type() {
    // `u8 a; u16 b;` — assigning `a + b` to a u16 target passes, so the
    // sum took type U16.
    let sum = binop(use_var("a", 3), TokenType::AdditionOperator, use_var("b", 3));
    let assign = at(
        Node::Assignment(BinExp {
            left: Box::new(declare("c", DataType::U16, 3)),
            right: Box::new(sum),
            operator: AstNode {
                node: TokenType::AssignmentOperator,
                pos: (3, 12),
                length: 1,
            },
        }),
        3,
        1,
        10,
    );
    let pipe = run(vec![
        declare("a", DataType::U8, 1),
        declare("b", DataType::U16, 2),
        assign,
    ]);
    assert_eq!(pipe.len(), 0);
}

#[test]
fn widened_sum_rejected_by_narrow_target() {
    // The same sum assigned to a u8 target fails: the sum is U16.
    let sum = binop(use_var("a", 3), TokenType::AdditionOperator, use_var("b", 3));
    let assign = at(
        Node::Assignment(BinExp {
            left: Box::new(declare("c", DataType::U8, 3)),
            right: Box::new(sum),
            operator: AstNode {
                node: TokenType::AssignmentOperator,
                pos: (3, 12),
                length: 1,
            },
        }),
        3,
        1,
        10,
    );
    let pipe = run(vec![
        declare("a", DataType::U8, 1),
        declare("b", DataType::U16, 2),
        assign,
    ]);
    assert_eq!(pipe.len(), 1);
    assert_eq!(pipe.get(0).error_message, "expected 'u8' found 'u16'");
}

#[test]
fn plus_on_boolean_and_integer_names_operator_and_type() {
    // `bool x; x + 1` — the rejection names '+' and the bool type, even
    // though the other operand is an integer.
    let sum = binop(
        use_var("x", 2),
        TokenType::AdditionOperator,
        at(Node::Literal(LiteralValue::Int(1)), 2, 5, 1),
    );
    let pipe = run(vec![declare("x", DataType::Boolean, 1), sum]);
    assert_eq!(pipe.len(), 1);
    assert_eq!(
        pipe.get(0).error_message,
        "operator '+' cannot be used on bool type"
    );
}

#[test]
fn plus_on_booleans_names_operator_and_type() {
    // `bool x; x + true` — the rejection names '+' and the bool type.
    let sum = binop(
        use_var("x", 2),
        TokenType::AdditionOperator,
        at(Node::Literal(LiteralValue::Bool(true)), 2, 5, 4),
    );
    let pipe = run(vec![declare("x", DataType::Boolean, 1), sum]);
    assert_eq!(pipe.len(), 1);
    assert_eq!(
        pipe.get(0).error_message,
        "operator '+' cannot be used on bool type"
    );
}

#[test]
fn mismatched_operands_are_reported() {
    // A string plus an integer cannot coerce either way.
    let sum = binop(
        at(Node::Literal(LiteralValue::Str("ab".to_string())), 1, 1, 4),
        TokenType::AdditionOperator,
        at(Node::Literal(LiteralValue::Int(1)), 1, 8, 1),
    );
    let pipe = run(vec![sum]);
    assert_eq!(pipe.len(), 1);
    assert_eq!(
        pipe.get(0).error_message,
        "operand have mismatched type 'str' and 'i8'"
    );
}

#[test]
fn logical_and_requires_booleans() {
    let exp = binop(
        at(Node::Literal(LiteralValue::Int(1)), 1, 1, 1),
        TokenType::And,
        at(Node::Literal(LiteralValue::Int(2)), 1, 6, 1),
    );
    let pipe = run(vec![exp]);
    assert_eq!(pipe.len(), 1);
    assert_eq!(
        pipe.get(0).error_message,
        "operator '&&' can only be used on boolean expression"
    );
}

#[test]
fn undeclared_function_call_is_reported() {
    let call = at(
        Node::FunctionCall(arkfront::ast::FuncCall {
            function_name: AstNode {
                node: "ghost_fn".to_string(),
                pos: (1, 1),
                length: 8,
            },
            arguments: vec![],
        }),
        1,
        1,
        11,
    );
    let pipe = run(vec![call]);
    assert_eq!(pipe.len(), 1);
    assert_eq!(
        pipe.get(0).error_message,
        "use of undeclared function 'ghost_fn'"
    );
}

#[test]
fn top_level_return_is_reported() {
    let pipe = run(vec![at(Node::Return(None), 1, 1, 6)]);
    assert_eq!(pipe.len(), 1);
    assert_eq!(pipe.get(0).error_message, "top-level return is not allow");
}

#[test]
fn return_type_mismatch_names_the_function() {
    // `func f(): i32 { return "no"; }` — a string cannot coerce into the
    // declared return type.
    let ret = at(
        Node::Return(Some(Box::new(at(
            Node::Literal(LiteralValue::Str("no".to_string())),
            2,
            8,
            4,
        )))),
        2,
        1,
        11,
    );
    let func = at(
        Node::Function(FuncDef {
            function_name: AstNode {
                node: "f".to_string(),
                pos: (1, 6),
                length: 1,
            },
            body: Body {
                instructions: vec![ret],
            },
            return_type: AstNode {
                node: DataType::I32,
                pos: (1, 11),
                length: 3,
            },
            parameters: vec![],
        }),
        1,
        1,
        0,
    );
    let pipe = run(vec![func]);
    assert_eq!(pipe.len(), 1);
    assert_eq!(
        pipe.get(0).error_message,
        "function 'f' expect return type 'i32' found 'str'"
    );
}

#[test]
fn returned_value_must_widen_into_declared_type() {
    // `func f(): i8 { return 300; }` — the returned I16 does not widen
    // into the declared i8.
    let ret = at(
        Node::Return(Some(Box::new(at(
            Node::Literal(LiteralValue::Int(300)),
            2,
            8,
            3,
        )))),
        2,
        1,
        11,
    );
    let func = at(
        Node::Function(FuncDef {
            function_name: AstNode {
                node: "f".to_string(),
                pos: (1, 6),
                length: 1,
            },
            body: Body {
                instructions: vec![ret],
            },
            return_type: AstNode {
                node: DataType::I8,
                pos: (1, 11),
                length: 2,
            },
            parameters: vec![],
        }),
        1,
        1,
        0,
    );
    let pipe = run(vec![func]);
    assert_eq!(pipe.len(), 1);
    assert_eq!(
        pipe.get(0).error_message,
        "function 'f' expect return type 'i8' found 'i16'"
    );
}

#[test]
fn returned_narrow_value_widens_into_declared_type() {
    // `func f(): i64 { return 5; }` — I8 widens into i64; no diagnostic.
    let ret = at(
        Node::Return(Some(Box::new(at(
            Node::Literal(LiteralValue::Int(5)),
            2,
            8,
            1,
        )))),
        2,
        1,
        9,
    );
    let func = at(
        Node::Function(FuncDef {
            function_name: AstNode {
                node: "f".to_string(),
                pos: (1, 6),
                length: 1,
            },
            body: Body {
                instructions: vec![ret],
            },
            return_type: AstNode {
                node: DataType::I64,
                pos: (1, 11),
                length: 3,
            },
            parameters: vec![],
        }),
        1,
        1,
        0,
    );
    let pipe = run(vec![func]);
    assert_eq!(pipe.len(), 0);
}

#[test]
fn while_condition_must_be_boolean() {
    let w = at(
        Node::While(WhileLoop {
            condition: Box::new(at(Node::Literal(LiteralValue::Int(1)), 1, 7, 1)),
            body: Body {
                instructions: vec![],
            },
        }),
        1,
        1,
        0,
    );
    let pipe = run(vec![w]);
    assert_eq!(pipe.len(), 1);
    assert_eq!(
        pipe.get(0).error_message,
        "while loop expected boolean expression found 'i8'"
    );
}

#[test]
fn import_below_top_level_is_reported() {
    let imp = at(
        Node::Import(Import {
            import_name: AstNode {
                node: "m".to_string(),
                pos: (2, 8),
                length: 1,
            },
            alias: None,
        }),
        2,
        1,
        6,
    );
    let inner = Body {
        instructions: vec![imp],
    };
    let pipe = run(vec![at(Node::Body(inner), 1, 1, 0)]);
    assert_eq!(pipe.len(), 1);
    assert_eq!(pipe.get(0).error_message, "only top-level import is allowed");
}

#[test]
fn import_alias_collision_is_reported() {
    let imp = at(
        Node::Import(Import {
            import_name: AstNode {
                node: "m".to_string(),
                pos: (2, 8),
                length: 1,
            },
            alias: Some(AstNode {
                node: "x".to_string(),
                pos: (2, 15),
                length: 1,
            }),
        }),
        2,
        1,
        6,
    );
    let pipe = run(vec![declare("x", DataType::I32, 1), imp]);
    assert_eq!(pipe.len(), 1);
    assert_eq!(
        pipe.get(0).error_message,
        "import alias overide existing identifier"
    );
}

#[test]
fn negation_of_non_boolean_is_reported() {
    let neg = at(
        Node::BooleanNot(arkfront::ast::NotExp {
            exp: Box::new(at(Node::Literal(LiteralValue::Int(3)), 1, 2, 1)),
        }),
        1,
        1,
        2,
    );
    let pipe = run(vec![neg]);
    assert_eq!(pipe.len(), 1);
    assert_eq!(pipe.get(0).error_message, "cannot apply ! to 'i8'");
}

#[test]
fn diagnostics_keep_statement_order() {
    // Two undeclared references report in source order.
    let pipe = run(vec![use_var("first_missing", 1), use_var("second_missing", 2)]);
    assert_eq!(pipe.len(), 2);
    assert_eq!(
        pipe.get(0).error_message,
        "use of undeclared variable 'first_missing'"
    );
    assert_eq!(
        pipe.get(1).error_message,
        "use of undeclared variable 'second_missing'"
    );
}

#[test]
fn parser_error_nodes_are_skipped() {
    let err = at(
        Node::ParserError(arkfront::ast::ParserError::new(
            ErrorType::SyntaxError,
            "whatever",
            (1, 1),
        )),
        1,
        1,
        0,
    );
    let pipe = run(vec![err]);
    assert_eq!(pipe.len(), 0);
}
