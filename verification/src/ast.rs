//! The positioned abstract syntax tree the parser produces. Malformed
//! statements are embedded as [`ParserError`] nodes so later passes can skip
//! them without aborting.

use vstd::prelude::*;
use crate::errors::ErrorType;
use crate::tokens::{DataType, FloatLit, TokenType};

verus! {

/// A payload together with its source span: (line, column) start position
/// and length.
#[derive(Debug)]
pub struct AstNode<T> {
    pub node: T,
    pub pos: (u32, u32),
    pub length: u32,
}

impl<T> AstNode<T> {
    pub fn new(node: T, pos: (u32, u32), length: u32) -> (r: AstNode<T>)
        ensures
            r.node == node,
            r.pos == pos,
            r.length == length,
    {
        AstNode { node, pos, length }
    }
}

/// A malformed construct embedded in the tree at the point of failure.
#[derive(Debug)]
pub struct ParserError {
    pub error_type: ErrorType,
    pub error_message: String,
    pub pos: (u32, u32),
}

impl ParserError {
    pub fn new(error_type: ErrorType, error_message: &str, error_pos: (u32, u32)) -> (r:
        ParserError)
        ensures
            r.error_type == error_type,
            r.error_message@ == error_message@,
            r.pos == error_pos,
    {
        ParserError {
            error_type,
            error_message: error_message.to_owned(),
            pos: error_pos,
        }
    }
}

/// A literal value. Integers are widened to `i128` so that values beyond
/// the language's 64-bit range are still representable and can be rejected
/// by the analyzer; floats carry their text and range facts (see
/// [`FloatLit`]).
#[derive(Debug)]
pub enum LiteralValue {
    Int(i128),
    Float(FloatLit),
    Str(String),
    Bool(bool),
}

/// An ordered statement sequence.
#[derive(Debug)]
pub struct Body {
    pub instructions: Vec<AstNode<Node>>,
}

/// An `if` block with its chain: the `if` condition and body, each
/// `else if` condition and body, and the optional `else` body.
#[derive(Debug)]
pub struct ConditionalBlock {
    pub if_block: (Box<AstNode<Node>>, Body),
    pub elif_block: Vec<(AstNode<Node>, Body)>,
    pub else_block: Option<Body>,
}

/// A range expression `start..end`.
#[derive(Debug)]
pub struct Range {
    pub start: Box<AstNode<Node>>,
    pub end: Box<AstNode<Node>>,
}

/// A `for` loop: target, range, body.
#[derive(Debug)]
pub struct ForLoop {
    pub var: Option<Box<AstNode<Node>>>,
    pub range: Box<AstNode<Node>>,
    pub body: Body,
}

/// A `while` loop: condition and body.
#[derive(Debug)]
pub struct WhileLoop {
    pub condition: Box<AstNode<Node>>,
    pub body: Body,
}

/// A parenthesized tuple.
#[derive(Debug)]
pub struct TupleBody {
    pub members: Vec<AstNode<Node>>,
}

/// A binary expression or an assignment: operands and operator token.
#[derive(Debug)]
pub struct BinExp {
    pub left: Box<AstNode<Node>>,
    pub right: Box<AstNode<Node>>,
    pub operator: AstNode<TokenType>,
}

/// Logical negation.
#[derive(Debug)]
pub struct NotExp {
    pub exp: Box<AstNode<Node>>,
}

/// A variable declaration: constancy marker, name, declared type.
#[derive(Debug)]
pub struct Var {
    pub constant: Option<AstNode<bool>>,
    pub name: AstNode<String>,
    pub var_type: AstNode<DataType>,
}

/// A function definition: name, body, return type, parameters.
#[derive(Debug)]
pub struct FuncDef {
    pub function_name: AstNode<String>,
    pub body: Body,
    pub return_type: AstNode<DataType>,
    pub parameters: Vec<AstNode<Var>>,
}

/// A function call: callee name and arguments.
#[derive(Debug)]
pub struct FuncCall {
    pub function_name: AstNode<String>,
    pub arguments: Vec<AstNode<Node>>,
}

/// A method call: optional caller chain, method name, arguments.
#[derive(Debug)]
pub struct MethodCall {
    pub caller: Option<Box<AstNode<Node>>>,
    pub method_name: AstNode<String>,
    pub arguments: Vec<AstNode<Node>>,
}

/// An import: module name and optional alias.
#[derive(Debug)]
pub struct Import {
    pub import_name: AstNode<String>,
    pub alias: Option<AstNode<String>>,
}

/// One syntax-tree construct.
#[derive(Debug)]
pub enum Node {
    Body(Body),
    Variable(String),
    DeclareVar(Var),
    Assignment(BinExp),
    Literal(LiteralValue),
    BinaryExpression(BinExp),
    Function(FuncDef),
    FunctionCall(FuncCall),
    MethodCall(MethodCall),
    Import(Import),
    Return(Option<Box<AstNode<Node>>>),
    Conditional(ConditionalBlock),
    For(ForLoop),
    While(WhileLoop),
    BooleanNot(NotExp),
    Tuple(TupleBody),
    Range(Range),
    ParserError(ParserError),
}

/// Which constructor of `Node` a value uses, ignoring the payload.
pub open spec fn spec_node_kind(n: Node) -> int {
    match n {
        Node::Body(_) => 0,
        Node::Variable(_) => 1,
        Node::DeclareVar(_) => 2,
        Node::Assignment(_) => 3,
        Node::Literal(_) => 4,
        Node::BinaryExpression(_) => 5,
        Node::Function(_) => 6,
        Node::FunctionCall(_) => 7,
        Node::MethodCall(_) => 8,
        Node::Import(_) => 9,
        Node::Return(_) => 10,
        Node::Conditional(_) => 11,
        Node::For(_) => 12,
        Node::While(_) => 13,
        Node::BooleanNot(_) => 14,
        Node::Tuple(_) => 15,
        Node::Range(_) => 16,
        Node::ParserError(_) => 17,
    }
}

/// Whether a statement of a body counts as an occurrence of kind `k`: a
/// nested body is searched recursively, any other node matches by its
/// constructor.
pub open spec fn spec_stmt_matches(n: Node, k: int) -> bool
    decreases n,
{
    match n {
        Node::Body(bd) => spec_body_contains(bd, k),
        _ => spec_node_kind(n) == k,
    }
}

/// Whether any statement of the body, nested bodies included, is of kind
/// `k`.
pub open spec fn spec_body_contains(b: Body, k: int) -> bool
    decreases b,
{
    exists|i: int|
        0 <= i < b.instructions@.len() && spec_stmt_matches(
            #[trigger] b.instructions@[i].node,
            k,
        )
}

impl Node {
    /// Which constructor this node uses; see [`spec_node_kind`].
    pub fn kind_id(&self) -> (r: u32)
        ensures
            r == spec_node_kind(*self),
    {
        match self {
            Node::Body(_) => 0,
            Node::Variable(_) => 1,
            Node::DeclareVar(_) => 2,
            Node::Assignment(_) => 3,
            Node::Literal(_) => 4,
            Node::BinaryExpression(_) => 5,
            Node::Function(_) => 6,
            Node::FunctionCall(_) => 7,
            Node::MethodCall(_) => 8,
            Node::Import(_) => 9,
            Node::Return(_) => 10,
            Node::Conditional(_) => 11,
            Node::For(_) => 12,
            Node::While(_) => 13,
            Node::BooleanNot(_) => 14,
            Node::Tuple(_) => 15,
            Node::Range(_) => 16,
            Node::ParserError(_) => 17,
        }
    }
}

impl Body {
    /// Whether any statement of the body, nested bodies included, uses the
    /// same constructor as `node`. Used to check that a non-void function
    /// has a reachable `return`.
    pub fn contains(&self, node: &Node) -> (r: bool)
        ensures
            r == spec_body_contains(*self, spec_node_kind(*node)),
        decreases *self,
    {
        let target = node.kind_id();
        let mut i: usize = 0;
        while i < self.instructions.len()
            invariant
                i <= self.instructions@.len(),
                target == spec_node_kind(*node),
                forall|j: int|
                    0 <= j < i ==> !spec_stmt_matches(
                        #[trigger] self.instructions@[j].node,
                        target as int,
                    ),
            decreases self.instructions@.len() - i,
        {
            let instruction = &self.instructions[i];
            match &instruction.node {
                Node::Body(bd) => {
                    if bd.contains(node) {
                        return true;
                    }
                },
                _ => {
                    if instruction.node.kind_id() == target {
                        return true;
                    }
                },
            }
            i += 1;
        }
        false
    }
}

} // verus!
