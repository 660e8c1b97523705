//! Recursive-descent parser with single-token lookahead, operator-precedence
//! climbing and panic-mode recovery. It consumes the token stream the
//! external lexer produced and builds a positioned syntax tree; malformed
//! constructs become [`ParserError`] nodes and a diagnostic, and parsing
//! continues at the next safe point.

use vstd::prelude::*;
use crate::ast::{
    AstNode, BinExp, Body, ConditionalBlock, ForLoop, FuncCall, FuncDef, Import, LiteralValue,
    MethodCall, Node, NotExp, ParserError, Range, TupleBody, Var, WhileLoop,
};
use crate::errors::{appended_with, pushed_diag, CompilerError, ErrorPipeline, ErrorType};
use crate::tokens::{spec_tt_kind, tt_like, DataType, FloatLit, KeyWords, Token, TokenType};

verus! {

broadcast use {crate::errors::lemma_appended_refl, crate::errors::lemma_appended_trans, crate::errors::lemma_pushed_diag_appended};

/// Whether the lookahead token satisfies what the grammar expects: for a
/// keyword both the token class and the keyword must agree, for anything
/// else the token class alone decides.
pub open spec fn token_matched(t: Token, expected: TokenType) -> bool {
    match expected {
        TokenType::Keyword(k) => t.token matches TokenType::Keyword(k2) && k2 == k,
        _ => spec_tt_kind(t.token) == spec_tt_kind(expected),
    }
}

/// A diagnostic the parser may append: a syntax diagnostic, or the one
/// semantic diagnostic the parser itself raises — the missing-return check
/// on a non-void function.
pub open spec fn parse_diag_ok(e: CompilerError) -> bool {
    ||| e.error_type is SyntaxError
    ||| (e.error_type is SemanticError && e.error_message@ == "missing return statement"@)
}

/// Where a balanced brace skip beginning just inside a block ends:
/// walking from position `i` with `depth` braces open, the skip stops
/// right after the token that closes the last brace, or at an end-of-input
/// token reached first.
pub open spec fn spec_skip_block_end(toks: Seq<Token>, i: int, depth: int) -> int
    decreases toks.len() - i,
{
    if i < 0 || i >= toks.len() || toks[i].token is EOF {
        i
    } else {
        let d2 = if toks[i].token is LeftBrace {
            depth + 1
        } else if toks[i].token is RightBrace {
            depth - 1
        } else {
            depth
        };
        if d2 == 0 {
            i + 1
        } else {
            spec_skip_block_end(toks, i + 1, d2)
        }
    }
}

/// Whether that walk closes the block (reaches balance) before an
/// end-of-input token.
pub open spec fn spec_skip_block_closed(toks: Seq<Token>, i: int, depth: int) -> bool
    decreases toks.len() - i,
{
    if i < 0 || i >= toks.len() || toks[i].token is EOF {
        false
    } else {
        let d2 = if toks[i].token is LeftBrace {
            depth + 1
        } else if toks[i].token is RightBrace {
            depth - 1
        } else {
            depth
        };
        if d2 == 0 {
            true
        } else {
            spec_skip_block_closed(toks, i + 1, d2)
        }
    }
}

/// `b` extends `a`, and everything appended is a diagnostic the parser may
/// raise; see [`parse_diag_ok`].
pub open spec fn parser_appended(a: Seq<CompilerError>, b: Seq<CompilerError>) -> bool {
    &&& a.len() <= b.len()
    &&& b.subrange(0, a.len() as int) == a
    &&& forall|j: int| a.len() <= j < b.len() ==> parse_diag_ok(#[trigger] b[j])
}

/// Extending by nothing is an extension.
pub broadcast proof fn lemma_parser_appended_refl(a: Seq<CompilerError>)
    ensures
        #[trigger] parser_appended(a, a),
{
    assert(a.subrange(0, a.len() as int) =~= a);
}

/// Parser extensions compose.
pub broadcast proof fn lemma_parser_appended_trans(
    a: Seq<CompilerError>,
    b: Seq<CompilerError>,
    c: Seq<CompilerError>,
)
    requires
        parser_appended(a, b),
        parser_appended(b, c),
    ensures
        #![trigger parser_appended(a, b), parser_appended(b, c)]
        parser_appended(a, c),
{
    assert(c.subrange(0, a.len() as int) =~= b.subrange(0, a.len() as int));
    assert forall|j: int| a.len() <= j < c.len() implies parse_diag_ok(#[trigger] c[j]) by {
        if j < b.len() {
            assert(b[j] == c.subrange(0, b.len() as int)[j]);
        }
    }
}

/// A syntax-only extension is a parser extension.
pub broadcast proof fn lemma_syntax_is_parser_appended(a: Seq<CompilerError>, b: Seq<CompilerError>)
    requires
        appended_with(a, b, ErrorType::SyntaxError),
    ensures
        #[trigger] parser_appended(a, b),
{
}

/// The lookahead begins a bare expression statement over one identifier:
/// `name ;`.
pub open spec fn starts_var_statement(p: ArkParser) -> bool {
    &&& p.cur().token is Identifier
    &&& p.at() + 1 < p.toks().len()
    &&& p.toks()[p.at() + 1].token is SemiColon
}

/// The node such a statement parses to: the variable reference carrying
/// the identifier token's name and span.
pub open spec fn pinned_var_statement(p: ArkParser, n: AstNode<Node>) -> bool {
    p.cur().token matches TokenType::Identifier(id) ==> {
        &&& n.node matches Node::Variable(v) && v@ == id@
        &&& n.pos == p.cur().pos
        &&& n.length == p.cur().length
    }
}

/// The lookahead begins a bare return statement: `return ;`.
pub open spec fn starts_return_statement(p: ArkParser) -> bool {
    &&& token_matched(p.cur(), TokenType::Keyword(KeyWords::RETURN))
    &&& p.at() + 1 < p.toks().len()
    &&& p.toks()[p.at() + 1].token is SemiColon
}

/// The node such a statement parses to: a return of nothing, at the
/// keyword's position.
pub open spec fn pinned_return_statement(p: ArkParser, n: AstNode<Node>) -> bool {
    &&& n.node matches Node::Return(e) && e is None
    &&& n.pos == p.cur().pos
}

/// The lookahead begins an uninitialized declaration statement:
/// `let name : type ;`.
pub open spec fn starts_let_declaration(p: ArkParser) -> bool {
    &&& token_matched(p.cur(), TokenType::Keyword(KeyWords::LET))
    &&& p.at() + 4 < p.toks().len()
    &&& p.toks()[p.at() + 1].token is Identifier
    &&& p.toks()[p.at() + 2].token is Colon
    &&& p.toks()[p.at() + 3].token is DataType
    &&& p.toks()[p.at() + 4].token is SemiColon
}

/// The node such a statement parses to: a non-constant declaration
/// carrying the name token's text and span and the declared type.
pub open spec fn pinned_let_declaration(p: ArkParser, n: AstNode<Node>) -> bool {
    p.toks()[p.at() + 1].token matches TokenType::Identifier(id) ==> (p.toks()[p.at()
        + 3].token matches TokenType::DataType(dt) ==> {
        &&& n.node matches Node::DeclareVar(v) && {
            &&& v.name.node@ == id@
            &&& v.name.pos == p.toks()[p.at() + 1].pos
            &&& v.var_type.node == dt
            &&& v.constant matches Some(c) && c.node == false
        }
        &&& n.pos == p.cur().pos
    })
}

/// The lookahead begins a parameterless typed function header:
/// `func name ( ) : type {`.
pub open spec fn starts_typed_func_header(p: ArkParser) -> bool {
    &&& token_matched(p.cur(), TokenType::Keyword(KeyWords::FUNC))
    &&& p.at() + 6 < p.toks().len()
    &&& p.toks()[p.at() + 1].token is Identifier
    &&& p.toks()[p.at() + 2].token is LeftParen
    &&& p.toks()[p.at() + 3].token is RightParen
    &&& p.toks()[p.at() + 4].token is Colon
    &&& p.toks()[p.at() + 5].token is DataType
    &&& p.toks()[p.at() + 6].token is LeftBrace
}

/// The lookahead begins a parameterless void function header:
/// `func name ( ) {`.
pub open spec fn starts_void_func_header(p: ArkParser) -> bool {
    &&& token_matched(p.cur(), TokenType::Keyword(KeyWords::FUNC))
    &&& p.at() + 4 < p.toks().len()
    &&& p.toks()[p.at() + 1].token is Identifier
    &&& p.toks()[p.at() + 2].token is LeftParen
    &&& p.toks()[p.at() + 3].token is RightParen
    &&& p.toks()[p.at() + 4].token is LeftBrace
}

/// The lookahead begins a one-parameter typed function header:
/// `func name ( param : ptype ) : type {`.
pub open spec fn starts_one_param_func_header(p: ArkParser) -> bool {
    &&& token_matched(p.cur(), TokenType::Keyword(KeyWords::FUNC))
    &&& p.at() + 9 < p.toks().len()
    &&& p.toks()[p.at() + 1].token is Identifier
    &&& p.toks()[p.at() + 2].token is LeftParen
    &&& p.toks()[p.at() + 3].token is Identifier
    &&& p.toks()[p.at() + 4].token is Colon
    &&& p.toks()[p.at() + 5].token is DataType
    &&& p.toks()[p.at() + 6].token is RightParen
    &&& p.toks()[p.at() + 7].token is Colon
    &&& p.toks()[p.at() + 8].token is DataType
    &&& p.toks()[p.at() + 9].token is LeftBrace
}

/// The lookahead begins a function whose parameter list is malformed: a
/// parameter name with no following colon, then the body block.
/// `func name ( param type ) { }`.
pub open spec fn starts_broken_param_func(p: ArkParser) -> bool {
    &&& token_matched(p.cur(), TokenType::Keyword(KeyWords::FUNC))
    &&& p.at() + 7 < p.toks().len()
    &&& p.toks()[p.at() + 1].token is Identifier
    &&& p.toks()[p.at() + 2].token is LeftParen
    &&& p.toks()[p.at() + 3].token is Identifier
    &&& p.toks()[p.at() + 4].token is DataType
    &&& p.toks()[p.at() + 5].token is RightParen
    &&& p.toks()[p.at() + 6].token is LeftBrace
    &&& p.toks()[p.at() + 7].token is RightBrace
}

/// What recovering from that malformed declaration guarantees: one
/// diagnostic at the offending token, an embedded error node, and the
/// cursor placed past the skipped block, ready for the next declaration.
pub open spec fn broken_func_recovered(
    pre: ArkParser,
    post: ArkParser,
    r: AstNode<Node>,
    pa: Seq<CompilerError>,
    pb: Seq<CompilerError>,
) -> bool {
    &&& r.node is ParserError
    &&& post.at() == pre.at() + 8
    &&& pushed_diag(
        pa,
        pb,
        ErrorType::SyntaxError,
        "expected ':' for type declaration"@,
        pre.toks()[pre.at() + 4].pos,
        1,
    )
}

/// The lookahead begins the canonical recovery scenario: a function with
/// a malformed parameter list and an empty body, then a well-formed
/// parameterless void function, then the end of input.
pub open spec fn starts_recovery_program(p: ArkParser) -> bool {
    &&& starts_broken_param_func(p)
    &&& p.at() + 14 < p.toks().len()
    &&& token_matched(p.toks()[p.at() + 8], TokenType::Keyword(KeyWords::FUNC))
    &&& p.toks()[p.at() + 9].token is Identifier
    &&& p.toks()[p.at() + 10].token is LeftParen
    &&& p.toks()[p.at() + 11].token is RightParen
    &&& p.toks()[p.at() + 12].token is LeftBrace
    &&& p.toks()[p.at() + 13].token is RightBrace
    &&& p.toks()[p.at() + 14].token is EOF
}

/// The declaration a function header parses to carries the name token's
/// text and span.
pub open spec fn pinned_func_name(p: ArkParser, f: crate::ast::FuncDef) -> bool {
    p.toks()[p.at() + 1].token matches TokenType::Identifier(id) ==> {
        &&& f.function_name.node@ == id@
        &&& f.function_name.pos == p.toks()[p.at() + 1].pos
        &&& f.function_name.length == p.toks()[p.at() + 1].length
    }
}

/// Statement heads that share the parse-then-semicolon tail.
enum Dispatch {
    Import,
    Const,
    Let,
    Return,
    Iden,
}

/// The parser: the token stream and the cursor of the one-token lookahead.
pub struct ArkParser {
    tokens: Vec<Token>,
    cursor: usize,
}

impl ArkParser {
    /// The token stream being parsed.
    pub closed spec fn toks(self) -> Seq<Token> {
        self.tokens@
    }

    /// Position of the lookahead token.
    pub closed spec fn at(self) -> int {
        self.cursor as int
    }

    /// The stream ends with its only end-of-input token and the cursor is
    /// inside it.
    pub open spec fn wf(self) -> bool {
        &&& 0 <= self.at() < self.toks().len()
        &&& self.toks().last().token is EOF
        &&& forall|i: int| 0 <= i < self.toks().len() - 1 ==> !((#[trigger] self.toks()[i]).token
            is EOF)
    }

    /// The lookahead token.
    pub open spec fn cur(self) -> Token {
        self.toks()[self.at()]
    }

    /// What every parsing step guarantees: the stream is untouched and the
    /// cursor only moves forward.
    pub open spec fn stepped(self, to: ArkParser) -> bool {
        &&& to.wf()
        &&& to.toks() == self.toks()
        &&& self.at() <= to.at()
    }

    /// A parser over `tokens`, looking at the first of them. `tokens` must
    /// be a whole stream: one end-of-input token, at its end.
    pub fn new(tokens: Vec<Token>) -> (r: ArkParser)
        requires
            tokens@.len() >= 1,
            tokens@.last().token is EOF,
            forall|i: int| 0 <= i < tokens@.len() - 1 ==> !((#[trigger] tokens@[i]).token is EOF),
        ensures
            r.wf(),
            r.toks() == tokens@,
            r.at() == 0,
    {
        ArkParser { tokens, cursor: 0 }
    }

    /// Read the lookahead token.
    fn peek(&self) -> (r: &Token)
        requires
            self.wf(),
        ensures
            *r == self.cur(),
    {
        &self.tokens[self.cursor]
    }

    /// Step past the lookahead token.
    fn advance(&mut self)
        requires
            old(self).wf(),
            !(old(self).cur().token is EOF),
        ensures
            final(self).wf(),
            final(self).toks() == old(self).toks(),
            final(self).at() == old(self).at() + 1,
    {
        let n = self.tokens.len();
        proof {
            assert(!(self.toks()[self.at()].token is EOF));
            assert(self.toks()[self.toks().len() - 1].token is EOF);
            assert(self.at() != self.toks().len() - 1);
            assert(self.cursor < n - 1);
        }
        self.cursor = self.cursor + 1;
    }

    /// Whether the lookahead satisfies `expected`; see [`token_matched`].
    fn expected(&self, expected: &TokenType) -> (r: bool)
        requires
            self.wf(),
        ensures
            r == token_matched(self.cur(), *expected),
    {
        match expected {
            TokenType::Keyword(keyword) => {
                match &self.peek().token {
                    TokenType::Keyword(look_ahead_key) => look_ahead_key == keyword,
                    _ => false,
                }
            },
            _ => self.peek().token.kind_id() == expected.kind_id(),
        }
    }

    /// Report a syntax diagnostic at the lookahead position and build the
    /// matching [`ParserError`] payload. The lookahead is not consumed.
    fn raise_error(&self, error_message: &str, pipe: &mut ErrorPipeline) -> (r: ParserError)
        requires
            self.wf(),
        ensures
            pushed_diag(
                old(pipe)@,
                final(pipe)@,
                ErrorType::SyntaxError,
                error_message@,
                self.cur().pos,
                1,
            ),
            r.error_type is SyntaxError,
            r.error_message@ == error_message@,
            r.pos == self.cur().pos,
    {
        let error_pos = self.peek().pos;
        pipe.raise_error(ErrorType::SyntaxError, error_message, error_pos, 1);
        proof {
            assert(pipe@.subrange(0, old(pipe)@.len() as int) =~= old(pipe)@);
        }
        ParserError::new(ErrorType::SyntaxError, error_message, error_pos)
    }

    /// Consume the lookahead if it satisfies `expected` and hand it back as
    /// a positioned token; otherwise report `error_message` and hand back a
    /// [`ParserError`] node at the lookahead position, without advancing —
    /// resynchronization is the caller's responsibility.
    fn eat(&mut self, expected: &TokenType, error_message: &str, pipe: &mut ErrorPipeline) -> (r:
        Result<AstNode<TokenType>, AstNode<Node>>)
        requires
            old(self).wf(),
            !((*expected) is EOF),
        ensures
            old(self).stepped(*final(self)),
            match r {
                Ok(ast) => {
                    &&& token_matched(old(self).cur(), *expected)
                    &&& tt_like(ast.node, old(self).cur().token)
                    &&& ast.pos == old(self).cur().pos
                    &&& ast.length == old(self).cur().length
                    &&& final(self).at() == old(self).at() + 1
                    &&& final(pipe)@ == old(pipe)@
                },
                Err(e) => {
                    &&& !token_matched(old(self).cur(), *expected)
                    &&& final(self).at() == old(self).at()
                    &&& pushed_diag(
                        old(pipe)@,
                        final(pipe)@,
                        ErrorType::SyntaxError,
                        error_message@,
                        old(self).cur().pos,
                        1,
                    )
                    &&& e.node matches Node::ParserError(pe) && pe.error_type
                        is SyntaxError && pe.error_message@ == error_message@
                        && pe.pos == old(self).cur().pos
                    &&& e.pos == old(self).cur().pos
                    &&& e.length == old(self).cur().length
                },
            },
    {
        let pos = self.peek().pos;
        let length = self.peek().length;
        if self.expected(expected) {
            let node = self.peek().token.clone();
            self.advance();
            Ok(AstNode::new(node, pos, length))
        } else {
            let err = self.raise_error(error_message, pipe);
            Err(AstNode::new(Node::ParserError(err), pos, length))
        }
    }

    /// Skip tokens until the lookahead satisfies `delimiter` or the input
    /// ends.
    fn skip_until(&mut self, delimiter: &TokenType, pipe: &mut ErrorPipeline)
        requires
            old(self).wf(),
        ensures
            old(self).stepped(*final(self)),
            final(pipe)@ == old(pipe)@,
            token_matched(final(self).cur(), *delimiter) || final(self).cur().token is EOF,
            forall|k: int|
                old(self).at() <= k < final(self).at() ==> (!token_matched(
                    #[trigger] old(self).toks()[k],
                    *delimiter,
                ) && !(old(self).toks()[k].token is EOF)),
    {
        while !self.expected(delimiter) && !self.expected(&TokenType::EOF)
            invariant
                self.wf(),
                self.toks() == old(self).toks(),
                old(self).at() <= self.at(),
                forall|k: int|
                    old(self).at() <= k < self.at() ==> (!token_matched(
                        #[trigger] old(self).toks()[k],
                        *delimiter,
                    ) && !(old(self).toks()[k].token is EOF)),
            decreases self.toks().len() - self.at(),
        {
            self.advance();
        }
    }

    /// Saturating span arithmetic: token spans are summed when a composite
    /// node's span is computed, and the sum is clamped at the type's top.
    fn sat_add(a: u32, b: u32) -> (r: u32)
        ensures
            r == if a + b <= u32::MAX {
                a + b
            } else {
                u32::MAX as int
            },
    {
        if b > u32::MAX - a {
            u32::MAX
        } else {
            a + b
        }
    }

    /// If the lookahead opens a brace block, skip the whole block,
    /// balancing nested braces; an end of input inside the block reports an
    /// unclosed-brace diagnostic.
    fn skip_block(&mut self, pipe: &mut ErrorPipeline)
        requires
            old(self).wf(),
        ensures
            old(self).stepped(*final(self)),
            appended_with(old(pipe)@, final(pipe)@, ErrorType::SyntaxError),
            !token_matched(old(self).cur(), TokenType::LeftBrace) ==> (*final(self) == *old(self)
                && final(pipe)@ == old(pipe)@),
            token_matched(old(self).cur(), TokenType::LeftBrace) ==> {
                &&& final(self).at() == spec_skip_block_end(
                    old(self).toks(),
                    old(self).at() + 1,
                    1,
                )
                &&& if spec_skip_block_closed(old(self).toks(), old(self).at() + 1, 1) {
                    final(pipe)@ == old(pipe)@
                } else {
                    pushed_diag(
                        old(pipe)@,
                        final(pipe)@,
                        ErrorType::SyntaxError,
                        "unclosed brace"@,
                        final(self).cur().pos,
                        final(self).cur().length,
                    )
                }
            },
    {
        if self.expected(&TokenType::LeftBrace) {
            let mut depth: usize = 1;
            let _ = self.eat(&TokenType::LeftBrace, "expected open brace", pipe);
            while depth > 0
                invariant
                    self.wf(),
                    self.toks() == old(self).toks(),
                    old(self).at() < self.at(),
                    pipe@ == old(pipe)@,
                    token_matched(old(self).cur(), TokenType::LeftBrace),
                    depth <= self.at() - old(self).at(),
                    depth > 0 ==> spec_skip_block_end(self.toks(), self.at(), depth as int)
                        == spec_skip_block_end(old(self).toks(), old(self).at() + 1, 1),
                    depth > 0 ==> spec_skip_block_closed(self.toks(), self.at(), depth as int)
                        == spec_skip_block_closed(old(self).toks(), old(self).at() + 1, 1),
                    depth == 0 ==> self.at() == spec_skip_block_end(
                        old(self).toks(),
                        old(self).at() + 1,
                        1,
                    ),
                    depth == 0 ==> spec_skip_block_closed(
                        old(self).toks(),
                        old(self).at() + 1,
                        1,
                    ),
                decreases self.toks().len() - self.at(),
            {
                if self.expected(&TokenType::EOF) {
                    let pos = self.peek().pos;
                    let length = self.peek().length;
                    pipe.raise_error(ErrorType::SyntaxError, "unclosed brace", pos, length);
                    proof {
                        assert(pipe@.subrange(0, old(pipe)@.len() as int) =~= old(pipe)@);
                    }
                    return ;
                } else if self.expected(&TokenType::LeftBrace) {
                    let n = self.tokens.len();
                    proof {
                        assert(depth < n);
                    }
                    depth = depth + 1;
                } else if self.expected(&TokenType::RightBrace) {
                    depth = depth - 1;
                }
                self.advance();
            }
        }
    }
}

/// A token that ends an expression at every precedence level.
pub open spec fn expr_stop_token(t: TokenType) -> bool {
    ||| t is SemiColon
    ||| t is RightParen
    ||| t is LeftBrace
    ||| t is Comma
    ||| t is EOF
}

/// Exact result of parsing a lone identifier: where the lookahead is an
/// identifier followed by an expression-ending token, the parse consumes
/// exactly that token and yields a `Variable` node carrying the token's
/// name and span, with no diagnostic.
pub open spec fn simple_ident_parse(
    pre: ArkParser,
    post: ArkParser,
    r: AstNode<Node>,
    pa: Seq<CompilerError>,
    pb: Seq<CompilerError>,
) -> bool {
    (pre.at() + 1 < pre.toks().len() && expr_stop_token(pre.toks()[pre.at() + 1].token)) ==> {
        pre.cur().token matches TokenType::Identifier(id) ==> {
            &&& r.node matches Node::Variable(v) && v@ == id@
            &&& r.pos == pre.cur().pos
            &&& r.length == pre.cur().length
            &&& post.at() == pre.at() + 1
            &&& pb == pa
        }
    }
}

/// Exact result of parsing a lone atom: where the lookahead is a literal
/// or an identifier followed by an expression-ending token, the parse
/// consumes exactly that token and yields the matching leaf node carrying
/// the token's value and span, with no diagnostic.
pub open spec fn simple_atom_parse(
    pre: ArkParser,
    post: ArkParser,
    r: AstNode<Node>,
    pa: Seq<CompilerError>,
    pb: Seq<CompilerError>,
) -> bool {
    (pre.at() + 1 < pre.toks().len() && expr_stop_token(pre.toks()[pre.at() + 1].token)) ==> {
        &&& (pre.cur().token matches TokenType::IntLiteral(i) ==> {
            &&& r.node matches Node::Literal(LiteralValue::Int(j)) && j == i
            &&& r.pos == pre.cur().pos
            &&& r.length == pre.cur().length
            &&& post.at() == pre.at() + 1
            &&& pb == pa
        })
        &&& (pre.cur().token matches TokenType::BooleanLiteral(b) ==> {
            &&& r.node matches Node::Literal(LiteralValue::Bool(b2)) && b2 == b
            &&& r.pos == pre.cur().pos
            &&& r.length == pre.cur().length
            &&& post.at() == pre.at() + 1
            &&& pb == pa
        })
        &&& (pre.cur().token matches TokenType::StringLiteral(s) ==> {
            &&& r.node matches Node::Literal(LiteralValue::Str(s2)) && s2@ == s@
            &&& r.pos == pre.cur().pos
            &&& r.length == pre.cur().length
            &&& post.at() == pre.at() + 1
            &&& pb == pa
        })
        &&& (pre.cur().token matches TokenType::Identifier(id) ==> {
            &&& r.node matches Node::Variable(v) && v@ == id@
            &&& r.pos == pre.cur().pos
            &&& r.length == pre.cur().length
            &&& post.at() == pre.at() + 1
            &&& pb == pa
        })
    }
}

/// Exact result of parsing the literal standing before a range or
/// addition operator (which the tighter-binding levels leave alone): the
/// parse consumes exactly the literal token and yields its leaf node.
pub open spec fn atom_before_range(
    pre: ArkParser,
    post: ArkParser,
    r: AstNode<Node>,
    pa: Seq<CompilerError>,
    pb: Seq<CompilerError>,
) -> bool {
    (pre.at() + 1 < pre.toks().len() && (pre.toks()[pre.at() + 1].token is Range || pre.toks()[
    pre.at() + 1].token is AdditionOperator)) ==> (
    pre.cur().token matches TokenType::IntLiteral(i) ==> {
        &&& r.node matches Node::Literal(LiteralValue::Int(j)) && j == i
        &&& r.pos == pre.cur().pos
        &&& r.length == pre.cur().length
        &&& post.at() == pre.at() + 1
        &&& pb == pa
    })
}

/// Exact result of parsing a two-literal range before an expression-ending
/// token: the parse consumes the three tokens and yields a range node over
/// the two literals, with no diagnostic.
pub open spec fn range_atom_parse(
    pre: ArkParser,
    post: ArkParser,
    r: AstNode<Node>,
    pa: Seq<CompilerError>,
    pb: Seq<CompilerError>,
) -> bool {
    (pre.at() + 3 < pre.toks().len() && pre.cur().token is IntLiteral && pre.toks()[pre.at()
        + 1].token is Range && pre.toks()[pre.at() + 2].token is IntLiteral && expr_stop_token(
        pre.toks()[pre.at() + 3].token,
    )) ==> {
        &&& (r.node matches Node::Range(rg) && {
            &&& (pre.cur().token matches TokenType::IntLiteral(i) ==> (rg.start.node
                matches Node::Literal(LiteralValue::Int(j)) && j == i))
            &&& (pre.toks()[pre.at() + 2].token matches TokenType::IntLiteral(i2) ==> (
            rg.end.node matches Node::Literal(LiteralValue::Int(j2)) && j2 == i2))
        })
        &&& r.pos == pre.cur().pos
        &&& ((pre.cur().length + pre.toks()[pre.at() + 1].length + pre.toks()[pre.at()
            + 2].length <= u32::MAX) ==> r.length == pre.cur().length + pre.toks()[pre.at()
            + 1].length + pre.toks()[pre.at() + 2].length)
        &&& post.at() == pre.at() + 3
        &&& pb == pa
    }
}

/// Exact result of parsing a two-literal sum before an expression-ending
/// token: the parse consumes the three tokens and yields a binary
/// expression whose position is the left literal's and whose length is
/// the sum of the three token lengths.
pub open spec fn sum_atom_parse(
    pre: ArkParser,
    post: ArkParser,
    r: AstNode<Node>,
    pa: Seq<CompilerError>,
    pb: Seq<CompilerError>,
) -> bool {
    (pre.at() + 3 < pre.toks().len() && pre.cur().token is IntLiteral && pre.toks()[pre.at()
        + 1].token is AdditionOperator && pre.toks()[pre.at() + 2].token is IntLiteral
        && expr_stop_token(pre.toks()[pre.at() + 3].token)) ==> {
        &&& (r.node matches Node::BinaryExpression(be) && {
            &&& (pre.cur().token matches TokenType::IntLiteral(i) ==> (be.left.node
                matches Node::Literal(LiteralValue::Int(j)) && j == i && be.left.pos
                == pre.cur().pos && be.left.length == pre.cur().length))
            &&& (pre.toks()[pre.at() + 2].token matches TokenType::IntLiteral(i2) ==> (
            be.right.node matches Node::Literal(LiteralValue::Int(j2)) && j2 == i2))
            &&& be.operator.node is AdditionOperator
        })
        &&& r.pos == pre.cur().pos
        &&& ((pre.cur().length + pre.toks()[pre.at() + 1].length + pre.toks()[pre.at()
            + 2].length <= u32::MAX) ==> r.length == pre.cur().length + pre.toks()[pre.at()
            + 1].length + pre.toks()[pre.at() + 2].length)
        &&& post.at() == pre.at() + 3
        &&& pb == pa
    }
}

impl ArkParser {
    /// Parse a primary (atomic) expression: literal, identifier (possibly
    /// a call, assignment or method chain), parenthesized expression,
    /// logical negation, or a negated numeric literal.
    fn parse_factor(&mut self, pipe: &mut ErrorPipeline) -> (r: AstNode<Node>)
        requires
            old(self).wf(),
        ensures
            old(self).stepped(*final(self)),
            appended_with(old(pipe)@, final(pipe)@, ErrorType::SyntaxError),
            simple_atom_parse(*old(self), *final(self), r, old(pipe)@, final(pipe)@),
            atom_before_range(*old(self), *final(self), r, old(pipe)@, final(pipe)@),
            (old(self).cur().token is SubtractionOperator && old(self).at() + 1 < old(
                self,
            ).toks().len()) ==> (old(self).toks()[old(self).at() + 1].token
                matches TokenType::IntLiteral(i) ==> (i != i128::MIN ==> {
                &&& r.node matches Node::Literal(LiteralValue::Int(j)) && j == -i
                &&& r.pos == old(self).toks()[old(self).at() + 1].pos
                &&& r.length == old(self).toks()[old(self).at() + 1].length
                &&& final(self).at() == old(self).at() + 2
                &&& final(pipe)@ == old(pipe)@
            })),
        decreases self.toks().len() - self.at(), 4int,
    {
        let tok_pos = self.peek().pos;
        let tok_length = self.peek().length;
        match &self.peek().token {
            TokenType::Identifier(_) => {
                let r = self.parse_iden(pipe);
                r
            },
            TokenType::IntLiteral(i) => {
                let value = *i;
                let int_tok = match self.eat(&TokenType::IntLiteral(0), "", pipe) {
                    Ok(t) => t,
                    Err(e) => {
                        return e;
                    },
                };
                AstNode::new(Node::Literal(LiteralValue::Int(value)), int_tok.pos, int_tok.length)
            },
            TokenType::FloatLiteral(f) => {
                let value = f.clone();
                let flt = match self.eat(
                    &TokenType::FloatLiteral(
                        FloatLit { text: String::new(), fits32: true, fits64: true },
                    ),
                    "",
                    pipe,
                ) {
                    Ok(t) => t,
                    Err(e) => {
                        return e;
                    },
                };
                AstNode::new(Node::Literal(LiteralValue::Float(value)), flt.pos, flt.length)
            },
            TokenType::StringLiteral(s) => {
                let value = s.clone();
                let st = match self.eat(&TokenType::StringLiteral(String::new()), "", pipe) {
                    Ok(t) => t,
                    Err(e) => {
                        return e;
                    },
                };
                AstNode::new(Node::Literal(LiteralValue::Str(value)), st.pos, st.length)
            },
            TokenType::BooleanLiteral(b) => {
                let value = *b;
                let boolean = match self.eat(&TokenType::BooleanLiteral(true), "", pipe) {
                    Ok(t) => t,
                    Err(e) => {
                        return e;
                    },
                };
                AstNode::new(Node::Literal(LiteralValue::Bool(value)), boolean.pos, boolean.length)
            },
            TokenType::LeftParen => {
                let _ = self.eat(&TokenType::LeftParen, "", pipe);
                let out = self.parse_primary(pipe);
                match self.eat(&TokenType::RightParen, "unclosed parenthesis", pipe) {
                    Ok(_) => {},
                    Err(e) => {
                        return e;
                    },
                };
                out
            },
            TokenType::Not => {
                let _ = self.eat(&TokenType::Not, "", pipe);
                let out = self.parse_primary(pipe);
                let out_pos = out.pos;
                let out_length = out.length;
                AstNode::new(
                    Node::BooleanNot(NotExp { exp: Box::new(out) }),
                    out_pos,
                    out_length,
                )
            },
            TokenType::SubtractionOperator => {
                let _ = self.eat(&TokenType::SubtractionOperator, "", pipe);
                match &self.peek().token {
                    TokenType::IntLiteral(i) => {
                        let value = *i;
                        let int_tok = match self.eat(&TokenType::IntLiteral(0), "", pipe) {
                            Ok(t) => t,
                            Err(e) => {
                                return e;
                            },
                        };
                        let negated: i128 = if value == i128::MIN {
                            value
                        } else {
                            -value
                        };
                        AstNode::new(
                            Node::Literal(LiteralValue::Int(negated)),
                            int_tok.pos,
                            int_tok.length,
                        )
                    },
                    TokenType::FloatLiteral(f) => {
                        let mut text = "-".to_owned();
                        text.append(f.text.as_str());
                        let value = FloatLit { text, fits32: f.fits32, fits64: f.fits64 };
                        let flt = match self.eat(
                            &TokenType::FloatLiteral(
                                FloatLit { text: String::new(), fits32: true, fits64: true },
                            ),
                            "",
                            pipe,
                        ) {
                            Ok(t) => t,
                            Err(e) => {
                                return e;
                            },
                        };
                        AstNode::new(Node::Literal(LiteralValue::Float(value)), flt.pos, flt.length)
                    },
                    _ => {
                        let er = self.raise_error("expected expression after '-' token", pipe);
                        let er_pos = er.pos;
                        AstNode::new(Node::ParserError(er), er_pos, 0)
                    },
                }
            },
            _ => {
                let er = self.raise_error("expected expression", pipe);
                let er_pos = er.pos;
                AstNode::new(Node::ParserError(er), er_pos, 0)
            },
        }
    }

    /// Parse an identifier-led construct: a function call, an assignment,
    /// a method-call chain, or a bare variable reference.
    fn parse_iden(&mut self, pipe: &mut ErrorPipeline) -> (r: AstNode<Node>)
        requires
            old(self).wf(),
        ensures
            old(self).stepped(*final(self)),
            appended_with(old(pipe)@, final(pipe)@, ErrorType::SyntaxError),
            simple_ident_parse(*old(self), *final(self), r, old(pipe)@, final(pipe)@),
            old(self).cur().token is Identifier ==> final(self).at() > old(self).at(),
        decreases self.toks().len() - self.at(), 3int,
    {
        let iden_token = match self.eat(&TokenType::Identifier(String::new()), "", pipe) {
            Ok(t) => t,
            Err(e) => {
                return e;
            },
        };
        let iden = match iden_token.node {
            TokenType::Identifier(id) => id,
            _ => String::new(),
        };
        if self.expected(&TokenType::LeftParen) {
            {
                let mut func_call = FuncCall {
                    function_name: AstNode::new(iden, iden_token.pos, iden_token.length),
                    arguments: Vec::new(),
                };
                let open_p = match self.eat(&TokenType::LeftParen, "", pipe) {
                    Ok(t) => t,
                    Err(e) => {
                        return e;
                    },
                };
                while !self.expected(&TokenType::RightParen)
                    invariant
                        self.wf(),
                        self.toks() == old(self).toks(),
                        old(self).at() < self.at(),
                        appended_with(old(pipe)@, pipe@, ErrorType::SyntaxError),
                        old(self).at() + 1 < old(self).toks().len(),
                        old(self).toks()[old(self).at() + 1].token is LeftParen,
                    decreases self.toks().len() - self.at(),
                {
                    let arg_round_start = self.cursor;
                    if self.expected(&TokenType::EOF) {
                        pipe.raise_error(
                            ErrorType::SyntaxError,
                            "unclosed parenthesis",
                            open_p.pos,
                            1,
                        );
                        proof {
                            assert(pipe@.subrange(0, old(pipe)@.len() as int) =~= old(pipe)@);
                        }
                        return AstNode::new(
                            Node::ParserError(
                                ParserError::new(
                                    ErrorType::SyntaxError,
                                    "unclosed parenthesis",
                                    open_p.pos,
                                ),
                            ),
                            open_p.pos,
                            1,
                        );
                    }
                    let arg = self.parse_primary(pipe);
                    func_call.arguments.push(arg);
                    if self.expected(&TokenType::Comma) {
                        let _ = self.eat(&TokenType::Comma, "", pipe);
                    }
                    if self.cursor == arg_round_start {
                        self.advance();
                    }
                }
                match self.eat(&TokenType::RightParen, "", pipe) {
                    Ok(_) => {},
                    Err(e) => {
                        return e;
                    },
                };
                let total = Self::sat_add(iden_token.length, 3);
                AstNode::new(Node::FunctionCall(func_call), iden_token.pos, total)
            }
        } else if self.expected(&TokenType::AssignmentOperator) {
            {
                let operator = match self.eat(&TokenType::AssignmentOperator, "", pipe) {
                    Ok(t) => t,
                    Err(e) => {
                        return e;
                    },
                };
                let operator_length = operator.length;
                let right = self.parse_primary(pipe);
                let right_length = right.length;
                let out = Node::Assignment(
                    BinExp {
                        left: Box::new(
                            AstNode::new(Node::Variable(iden), iden_token.pos, iden_token.length),
                        ),
                        right: Box::new(right),
                        operator,
                    },
                );
                let total = Self::sat_add(
                    Self::sat_add(iden_token.length, operator_length),
                    right_length,
                );
                AstNode::new(out, iden_token.pos, total)
            }
        } else if self.expected(&TokenType::Dot) {
            {
                let mut caller = AstNode::new(Node::Variable(iden), iden_token.pos, iden_token.length);
                while self.expected(&TokenType::Dot)
                    invariant
                        self.wf(),
                        self.toks() == old(self).toks(),
                        old(self).at() < self.at(),
                        appended_with(old(pipe)@, pipe@, ErrorType::SyntaxError),
                        old(self).at() + 1 < old(self).toks().len(),
                        old(self).toks()[old(self).at() + 1].token is Dot,
                    decreases self.toks().len() - self.at(),
                {
                    let ghost dot_round_start = self.at();
                    let _ = self.eat(&TokenType::Dot, "", pipe);
                    let method_token = match self.eat(
                        &TokenType::Identifier(String::new()),
                        "expected field name or method",
                        pipe,
                    ) {
                        Ok(t) => t,
                        Err(e) => {
                            return e;
                        },
                    };
                    let method_iden = match method_token.node {
                        TokenType::Identifier(id) => id,
                        _ => String::new(),
                    };
                    let mut method_call = MethodCall {
                        caller: None,
                        method_name: AstNode::new(
                            method_iden,
                            method_token.pos,
                            method_token.length,
                        ),
                        arguments: Vec::new(),
                    };
                    match self.eat(&TokenType::LeftParen, "expected arguments", pipe) {
                        Ok(_) => {},
                        Err(e) => {
                            return e;
                        },
                    };
                    while !self.expected(&TokenType::RightParen)
                        invariant
                            self.wf(),
                            self.toks() == old(self).toks(),
                            old(self).at() < self.at(),
                            appended_with(old(pipe)@, pipe@, ErrorType::SyntaxError),
                            old(self).at() + 1 < old(self).toks().len(),
                            old(self).toks()[old(self).at() + 1].token is Dot,
                            dot_round_start < self.at(),
                        decreases self.toks().len() - self.at(),
                    {
                        let arg_round_start = self.cursor;
                        if self.expected(&TokenType::EOF) {
                            let _ = self.raise_error("unclosed parenthesis", pipe);
                            break ;
                        }
                        let arg = self.parse_primary(pipe);
                        method_call.arguments.push(arg);
                        if self.expected(&TokenType::Comma) {
                            let _ = self.eat(&TokenType::Comma, "", pipe);
                        }
                        if self.cursor == arg_round_start {
                            self.advance();
                        }
                    }
                    match self.eat(&TokenType::RightParen, "", pipe) {
                        Ok(_) => {},
                        Err(e) => {
                            return e;
                        },
                    };
                    method_call.caller = Some(Box::new(caller));
                    caller = AstNode::new(
                        Node::MethodCall(method_call),
                        method_token.pos,
                        method_token.length,
                    );
                }
                caller
            }
        } else {
            AstNode::new(Node::Variable(iden), iden_token.pos, iden_token.length)
        }
    }

    /// Parse a multiplicative chain: factors joined by `*`, `/`, `%`.
    fn parse_term(&mut self, pipe: &mut ErrorPipeline) -> (r: AstNode<Node>)
        requires
            old(self).wf(),
        ensures
            old(self).stepped(*final(self)),
            appended_with(old(pipe)@, final(pipe)@, ErrorType::SyntaxError),
            simple_atom_parse(*old(self), *final(self), r, old(pipe)@, final(pipe)@),
            atom_before_range(*old(self), *final(self), r, old(pipe)@, final(pipe)@),
        decreases self.toks().len() - self.at(), 5int,
    {
        let mut left = self.parse_factor(pipe);
        while self.expected(&TokenType::MultiplicationOperator) || self.expected(
            &TokenType::DivisionOperator,
        ) || self.expected(&TokenType::ModuloOperator)
            invariant
                self.wf(),
                self.toks() == old(self).toks(),
                old(self).at() <= self.at(),
                appended_with(old(pipe)@, pipe@, ErrorType::SyntaxError),
                simple_atom_parse(*old(self), *self, left, old(pipe)@, pipe@),
                atom_before_range(*old(self), *self, left, old(pipe)@, pipe@),
            decreases self.toks().len() - self.at(),
        {
            let op_token = self.peek().token.clone();
            let operator = match self.eat(&op_token, "", pipe) {
                Ok(t) => t,
                Err(e) => {
                    return e;
                },
            };
            let operator_length = operator.length;
            let right = self.parse_factor(pipe);
            let left_pos = left.pos;
            let left_length = left.length;
            let right_length = right.length;
            let total = Self::sat_add(Self::sat_add(left_length, operator_length), right_length);
            left = AstNode::new(
                Node::BinaryExpression(
                    BinExp { left: Box::new(left), right: Box::new(right), operator },
                ),
                left_pos,
                total,
            );
        }
        left
    }

    /// Parse an additive chain: terms joined by `+`, `-`, or a single
    /// `start..end` range.
    fn parse_arithmatic(&mut self, pipe: &mut ErrorPipeline) -> (r: AstNode<Node>)
        requires
            old(self).wf(),
        ensures
            old(self).stepped(*final(self)),
            appended_with(old(pipe)@, final(pipe)@, ErrorType::SyntaxError),
            simple_atom_parse(*old(self), *final(self), r, old(pipe)@, final(pipe)@),
            range_atom_parse(*old(self), *final(self), r, old(pipe)@, final(pipe)@),
            sum_atom_parse(*old(self), *final(self), r, old(pipe)@, final(pipe)@),
        decreases self.toks().len() - self.at(), 6int,
    {
        let mut left = self.parse_term(pipe);
        if self.expected(&TokenType::Range) {
            let operator = match self.eat(&TokenType::Range, "", pipe) {
                Ok(t) => t,
                Err(e) => {
                    return e;
                },
            };
            let right = self.parse_term(pipe);
            let left_pos = left.pos;
            let left_length = left.length;
            let right_length = right.length;
            let total = Self::sat_add(Self::sat_add(left_length, operator.length), right_length);
            left = AstNode::new(
                Node::Range(Range { start: Box::new(left), end: Box::new(right) }),
                left_pos,
                total,
            );
            return left;
        }
        while self.expected(&TokenType::AdditionOperator) || self.expected(
            &TokenType::SubtractionOperator,
        )
            invariant
                self.wf(),
                self.toks() == old(self).toks(),
                old(self).at() <= self.at(),
                appended_with(old(pipe)@, pipe@, ErrorType::SyntaxError),
                simple_atom_parse(*old(self), *self, left, old(pipe)@, pipe@),
                range_atom_parse(*old(self), *self, left, old(pipe)@, pipe@),
                (old(self).at() + 3 < old(self).toks().len() && old(self).cur().token
                    is IntLiteral && old(self).toks()[old(self).at() + 1].token
                    is AdditionOperator && old(self).toks()[old(self).at() + 2].token
                    is IntLiteral && expr_stop_token(old(self).toks()[old(self).at() + 3].token))
                    ==> ((self.at() == old(self).at() + 1 && pipe@ == old(pipe)@ && (old(
                    self,
                ).cur().token matches TokenType::IntLiteral(i) ==> (left.node
                    matches Node::Literal(LiteralValue::Int(j)) && j == i && left.pos == old(
                    self,
                ).cur().pos && left.length == old(self).cur().length))) || sum_atom_parse(
                    *old(self),
                    *self,
                    left,
                    old(pipe)@,
                    pipe@,
                ) && self.at() == old(self).at() + 3),
            decreases self.toks().len() - self.at(),
        {
            let op_token = self.peek().token.clone();
            let operator = match self.eat(&op_token, "", pipe) {
                Ok(t) => t,
                Err(e) => {
                    return e;
                },
            };
            let operator_length = operator.length;
            let right = self.parse_term(pipe);
            let left_pos = left.pos;
            let left_length = left.length;
            let right_length = right.length;
            let total = Self::sat_add(Self::sat_add(left_length, operator_length), right_length);
            left = AstNode::new(
                Node::BinaryExpression(
                    BinExp { left: Box::new(left), right: Box::new(right), operator },
                ),
                left_pos,
                total,
            );
        }
        left
    }

    /// Parse a comparison chain: additive expressions joined by `==`, `<`,
    /// `<=`, `>`, `>=`.
    fn parse_boolean_expression(&mut self, pipe: &mut ErrorPipeline) -> (r: AstNode<Node>)
        requires
            old(self).wf(),
        ensures
            old(self).stepped(*final(self)),
            appended_with(old(pipe)@, final(pipe)@, ErrorType::SyntaxError),
            simple_atom_parse(*old(self), *final(self), r, old(pipe)@, final(pipe)@),
            range_atom_parse(*old(self), *final(self), r, old(pipe)@, final(pipe)@),
            sum_atom_parse(*old(self), *final(self), r, old(pipe)@, final(pipe)@),
        decreases self.toks().len() - self.at(), 7int,
    {
        let mut left = self.parse_arithmatic(pipe);
        loop
            invariant
                self.wf(),
                self.toks() == old(self).toks(),
                old(self).at() <= self.at(),
                appended_with(old(pipe)@, pipe@, ErrorType::SyntaxError),
                simple_atom_parse(*old(self), *self, left, old(pipe)@, pipe@),
                range_atom_parse(*old(self), *self, left, old(pipe)@, pipe@),
                sum_atom_parse(*old(self), *self, left, old(pipe)@, pipe@),
            decreases self.toks().len() - self.at(),
        {
            let is_cmp = self.expected(&TokenType::More) || self.expected(&TokenType::MoreEqual)
                || self.expected(&TokenType::Equal) || self.expected(&TokenType::Less)
                || self.expected(&TokenType::LessEqual);
            if !is_cmp {
                break;
            }
            let op_token = self.peek().token.clone();
            let operator = match self.eat(&op_token, "", pipe) {
                Ok(t) => t,
                Err(e) => {
                    return e;
                },
            };
            let operator_length = operator.length;
            let right = self.parse_arithmatic(pipe);
            let left_pos = left.pos;
            let left_length = left.length;
            let right_length = right.length;
            let total = Self::sat_add(Self::sat_add(left_length, operator_length), right_length);
            left = AstNode::new(
                Node::BinaryExpression(
                    BinExp { left: Box::new(left), right: Box::new(right), operator },
                ),
                left_pos,
                total,
            );
        }
        left
    }

    /// Parse a logical-and chain.
    fn parse_compose(&mut self, pipe: &mut ErrorPipeline) -> (r: AstNode<Node>)
        requires
            old(self).wf(),
        ensures
            old(self).stepped(*final(self)),
            appended_with(old(pipe)@, final(pipe)@, ErrorType::SyntaxError),
            simple_atom_parse(*old(self), *final(self), r, old(pipe)@, final(pipe)@),
            range_atom_parse(*old(self), *final(self), r, old(pipe)@, final(pipe)@),
            sum_atom_parse(*old(self), *final(self), r, old(pipe)@, final(pipe)@),
        decreases self.toks().len() - self.at(), 8int,
    {
        let mut left = self.parse_boolean_expression(pipe);
        while self.expected(&TokenType::And)
            invariant
                self.wf(),
                self.toks() == old(self).toks(),
                old(self).at() <= self.at(),
                appended_with(old(pipe)@, pipe@, ErrorType::SyntaxError),
                simple_atom_parse(*old(self), *self, left, old(pipe)@, pipe@),
                range_atom_parse(*old(self), *self, left, old(pipe)@, pipe@),
                sum_atom_parse(*old(self), *self, left, old(pipe)@, pipe@),
            decreases self.toks().len() - self.at(),
        {
            let operator = match self.eat(&TokenType::And, "", pipe) {
                Ok(t) => t,
                Err(e) => {
                    return e;
                },
            };
            let operator_length = operator.length;
            let right = self.parse_boolean_expression(pipe);
            let left_pos = left.pos;
            let left_length = left.length;
            let right_length = right.length;
            let total = Self::sat_add(Self::sat_add(left_length, operator_length), right_length);
            left = AstNode::new(
                Node::BinaryExpression(
                    BinExp { left: Box::new(left), right: Box::new(right), operator },
                ),
                left_pos,
                total,
            );
        }
        left
    }

    /// Parse a full expression: a logical-or chain, the lowest-precedence
    /// level.
    fn parse_primary(&mut self, pipe: &mut ErrorPipeline) -> (r: AstNode<Node>)
        requires
            old(self).wf(),
        ensures
            old(self).stepped(*final(self)),
            appended_with(old(pipe)@, final(pipe)@, ErrorType::SyntaxError),
            simple_atom_parse(*old(self), *final(self), r, old(pipe)@, final(pipe)@),
            range_atom_parse(*old(self), *final(self), r, old(pipe)@, final(pipe)@),
            sum_atom_parse(*old(self), *final(self), r, old(pipe)@, final(pipe)@),
        decreases self.toks().len() - self.at(), 9int,
    {
        let mut left = self.parse_compose(pipe);
        while self.expected(&TokenType::Or)
            invariant
                self.wf(),
                self.toks() == old(self).toks(),
                old(self).at() <= self.at(),
                appended_with(old(pipe)@, pipe@, ErrorType::SyntaxError),
                simple_atom_parse(*old(self), *self, left, old(pipe)@, pipe@),
                range_atom_parse(*old(self), *self, left, old(pipe)@, pipe@),
                sum_atom_parse(*old(self), *self, left, old(pipe)@, pipe@),
            decreases self.toks().len() - self.at(),
        {
            let operator = match self.eat(&TokenType::Or, "", pipe) {
                Ok(t) => t,
                Err(e) => {
                    return e;
                },
            };
            let operator_length = operator.length;
            let right = self.parse_compose(pipe);
            let left_pos = left.pos;
            let left_length = left.length;
            let right_length = right.length;
            let total = Self::sat_add(Self::sat_add(left_length, operator_length), right_length);
            left = AstNode::new(
                Node::BinaryExpression(
                    BinExp { left: Box::new(left), right: Box::new(right), operator },
                ),
                left_pos,
                total,
            );
        }
        left
    }

    /// Parse a parenthesized expression list: a single expression, or a
    /// tuple of several.
    fn parse_paren(&mut self, pipe: &mut ErrorPipeline) -> (r: AstNode<Node>)
        requires
            old(self).wf(),
        ensures
            old(self).stepped(*final(self)),
            appended_with(old(pipe)@, final(pipe)@, ErrorType::SyntaxError),
            (old(self).cur().token is LeftParen && old(self).at() + 2 < old(self).toks().len()
                && old(self).toks()[old(self).at() + 1].token is Identifier && old(self).toks()[
            old(self).at() + 2].token is RightParen) ==> {
                &&& (old(self).toks()[old(self).at() + 1].token matches TokenType::Identifier(v)
                    ==> (r.node matches Node::Variable(v2) && v2@ == v@ && r.pos == old(
                    self,
                ).toks()[old(self).at() + 1].pos && r.length == old(self).toks()[old(self).at()
                    + 1].length))
                &&& final(self).at() == old(self).at() + 3
                &&& final(pipe)@ == old(pipe)@
            },
        decreases self.toks().len() - self.at(), 3int,
    {
        let open = match self.eat(&TokenType::LeftParen, "", pipe) {
            Ok(t) => t,
            Err(e) => {
                return e;
            },
        };
        let mut items: Vec<AstNode<Node>> = Vec::new();
        while !self.expected(&TokenType::RightParen)
            invariant
                self.wf(),
                self.toks() == old(self).toks(),
                old(self).at() < self.at(),
                appended_with(old(pipe)@, pipe@, ErrorType::SyntaxError),
                (old(self).cur().token is LeftParen && old(self).at() + 2 < old(
                    self,
                ).toks().len() && old(self).toks()[old(self).at() + 1].token is Identifier && old(
                    self,
                ).toks()[old(self).at() + 2].token is RightParen) ==> ((items@.len() == 0
                    && self.at() == old(self).at() + 1 && pipe@ == old(pipe)@) || {
                    &&& items@.len() == 1
                    &&& (old(self).toks()[old(self).at() + 1].token
                        matches TokenType::Identifier(v) ==> (items@[0].node
                        matches Node::Variable(v2) && v2@ == v@ && items@[0].pos == old(
                        self,
                    ).toks()[old(self).at() + 1].pos && items@[0].length == old(self).toks()[old(
                        self,
                    ).at() + 1].length))
                    &&& self.at() == old(self).at() + 2
                    &&& pipe@ == old(pipe)@
                }),
            ensures
                token_matched(self.cur(), TokenType::RightParen) || self.cur().token is EOF,
            decreases self.toks().len() - self.at(),
        {
            let item_round_start = self.cursor;
            if self.expected(&TokenType::EOF) {
                break;
            }
            let item = self.parse_primary(pipe);
            items.push(item);
            if self.expected(&TokenType::Comma) {
                let _ = self.eat(&TokenType::Comma, "", pipe);
            }
            if self.cursor == item_round_start {
                self.advance();
            }
        }
        let close = match self.eat(&TokenType::RightParen, "unclosed parenthesis", pipe) {
            Ok(t) => t,
            Err(e) => {
                return e;
            },
        };
        if items.len() == 1 {
            let single = items.remove(0);
            single
        } else {
            let first_pos = if items.len() > 0 {
                items[0].pos
            } else {
                open.pos
            };
            AstNode::new(Node::Tuple(TupleBody { members: items }), first_pos, close.length)
        }
    }

    /// Parse a type name, with any number of `[size]` suffixes building
    /// array types around it.
    fn parse_data_type(&mut self, pipe: &mut ErrorPipeline) -> (r: Result<
        AstNode<DataType>,
        AstNode<Node>,
    >)
        requires
            old(self).wf(),
        ensures
            old(self).stepped(*final(self)),
            appended_with(old(pipe)@, final(pipe)@, ErrorType::SyntaxError),
            r matches Err(e) ==> e.node is ParserError,
            (old(self).cur().token is DataType && old(self).at() + 1 < old(self).toks().len() && !(
            old(self).toks()[old(self).at() + 1].token is LeftBracket)) ==> {
                &&& (r matches Ok(a) && old(self).cur().token matches TokenType::DataType(dt)
                    && a.node == dt && a.pos == old(self).cur().pos && a.length == old(
                    self,
                ).cur().length)
                &&& final(self).at() == old(self).at() + 1
                &&& final(pipe)@ == old(pipe)@
            },
        decreases self.toks().len() - self.at(), 11int,
    {
        let data_type_t = match self.eat(&TokenType::DataType(DataType::Void), "Expected a type", pipe) {
            Ok(dt) => dt,
            Err(e) => {
                return Err(e);
            },
        };
        let mut data_type = match data_type_t.node {
            TokenType::DataType(t) => t,
            _ => DataType::Void,
        };
        if !self.expected(&TokenType::LeftBracket) {
            return Ok(AstNode::new(data_type, data_type_t.pos, data_type_t.length));
        }
        while self.expected(&TokenType::LeftBracket)
            invariant
                self.wf(),
                self.toks() == old(self).toks(),
                old(self).at() <= self.at(),
                appended_with(old(pipe)@, pipe@, ErrorType::SyntaxError),
                old(self).at() + 1 < old(self).toks().len(),
                old(self).toks()[old(self).at() + 1].token is LeftBracket,
            decreases self.toks().len() - self.at(),
        {
            let _ = self.eat(&TokenType::LeftBracket, "", pipe);
            let size: i128 = match self.eat(&TokenType::IntLiteral(0), "expected fixed array size", pipe) {
                Ok(node) => match node.node {
                    TokenType::IntLiteral(i) => i,
                    _ => 0,
                },
                Err(e) => {
                    return Err(e);
                },
            };
            match self.eat(&TokenType::RightBracket, "expected closing bracket", pipe) {
                Ok(_) => {},
                Err(e) => {
                    return Err(e);
                },
            };
            let length: u32 = #[verifier::truncate] (size as u32);
            data_type = DataType::Array(
                crate::tokens::Array { length, data_type: Box::new(data_type) },
            );
        }
        Ok(AstNode::new(data_type, data_type_t.pos, data_type_t.length))
    }

    /// Parse a `return` statement: bare, or with a returned expression.
    fn parse_return(&mut self, pipe: &mut ErrorPipeline) -> (r: AstNode<Node>)
        requires
            old(self).wf(),
        ensures
            old(self).stepped(*final(self)),
            appended_with(old(pipe)@, final(pipe)@, ErrorType::SyntaxError),
            r.node is Return || r.node is ParserError,
            token_matched(old(self).cur(), TokenType::Keyword(KeyWords::RETURN)) ==> (r.node
                matches Node::Return(_) && r.pos == old(self).cur().pos),
            token_matched(old(self).cur(), TokenType::Keyword(KeyWords::RETURN)) ==> final(self).at() > old(self).at(),
            (token_matched(old(self).cur(), TokenType::Keyword(KeyWords::RETURN)) && old(self).at()
                + 1 < old(self).toks().len() && old(self).toks()[old(self).at() + 1].token
                is SemiColon) ==> {
                &&& r.node matches Node::Return(e) && e is None
                &&& final(self).at() == old(self).at() + 1
                &&& final(pipe)@ == old(pipe)@
            },
            (token_matched(old(self).cur(), TokenType::Keyword(KeyWords::RETURN)) && old(self).at()
                + 2 < old(self).toks().len() && old(self).toks()[old(self).at() + 1].token
                is IntLiteral && old(self).toks()[old(self).at() + 2].token is SemiColon) ==> {
                &&& (r.node matches Node::Return(e) && e matches Some(ex) && (old(self).toks()[
                old(self).at() + 1].token matches TokenType::IntLiteral(i) ==> (ex.node
                    matches Node::Literal(LiteralValue::Int(j)) && j == i && ex.pos == old(
                    self,
                ).toks()[old(self).at() + 1].pos && ex.length == old(self).toks()[old(self).at()
                    + 1].length)))
                &&& final(self).at() == old(self).at() + 2
                &&& final(pipe)@ == old(pipe)@
            },
        decreases self.toks().len() - self.at(), 11int,
    {
        let ret_kw = match self.eat(&TokenType::Keyword(KeyWords::RETURN), "", pipe) {
            Ok(t) => t,
            Err(e) => {
                return e;
            },
        };
        if self.expected(&TokenType::SemiColon) {
            return AstNode::new(
                Node::Return(None),
                ret_kw.pos,
                Self::sat_add(ret_kw.length, 1),
            );
        }
        let exp = self.parse_primary(pipe);
        let exp_length = exp.length;
        let total = Self::sat_add(Self::sat_add(ret_kw.length, 1), exp_length);
        AstNode::new(Node::Return(Some(Box::new(exp))), ret_kw.pos, total)
    }

    /// Parse an `import` statement with its optional alias.
    fn parse_import(&mut self, pipe: &mut ErrorPipeline) -> (r: AstNode<Node>)
        requires
            old(self).wf(),
        ensures
            old(self).stepped(*final(self)),
            appended_with(old(pipe)@, final(pipe)@, ErrorType::SyntaxError),
            token_matched(old(self).cur(), TokenType::Keyword(KeyWords::IMPORT)) ==> final(self).at() > old(self).at(),
            r.node is Import || r.node is ParserError,
            (token_matched(old(self).cur(), TokenType::Keyword(KeyWords::IMPORT)) && old(self).at()
                + 2 < old(self).toks().len() && old(self).toks()[old(self).at() + 1].token
                is StringLiteral && !token_matched(
                old(self).toks()[old(self).at() + 2],
                TokenType::Keyword(KeyWords::AS),
            )) ==> {
                &&& (r.node matches Node::Import(imp) && imp.alias is None && (old(self).toks()[
                old(self).at() + 1].token matches TokenType::StringLiteral(sn) ==> (
                imp.import_name.node@ == sn@ && imp.import_name.pos == old(self).toks()[old(
                    self,
                ).at() + 1].pos && imp.import_name.length == old(self).toks()[old(self).at()
                    + 1].length)))
                &&& final(self).at() == old(self).at() + 2
                &&& final(pipe)@ == old(pipe)@
            },
        decreases self.toks().len() - self.at(), 11int,
    {
        let import_keyword = match self.eat(&TokenType::Keyword(KeyWords::IMPORT), "", pipe) {
            Ok(t) => t,
            Err(e) => {
                return e;
            },
        };
        let import_name = match self.eat(
            &TokenType::StringLiteral(String::new()),
            "expected import name after 'import'",
            pipe,
        ) {
            Ok(t) => t,
            Err(e) => {
                return e;
            },
        };
        let name = match import_name.node {
            TokenType::StringLiteral(s) => s,
            _ => String::new(),
        };
        if self.expected(&TokenType::Keyword(KeyWords::AS)) {
            let _ = match self.eat(&TokenType::Keyword(KeyWords::AS), "", pipe) {
                Ok(t) => t,
                Err(e) => {
                    return e;
                },
            };
            let import_alias = match self.eat(
                &TokenType::Identifier(String::new()),
                "expected identifier after 'sources'",
                pipe,
            ) {
                Ok(t) => t,
                Err(e) => {
                    return e;
                },
            };
            let alias = match import_alias.node {
                TokenType::Identifier(id) => id,
                _ => String::new(),
            };
            return AstNode::new(
                Node::Import(
                    Import {
                        import_name: AstNode::new(name, import_name.pos, import_name.length),
                        alias: Some(AstNode::new(alias, import_alias.pos, import_alias.length)),
                    },
                ),
                import_keyword.pos,
                import_keyword.length,
            );
        }
        AstNode::new(
            Node::Import(
                Import {
                    import_name: AstNode::new(name, import_name.pos, import_name.length),
                    alias: None,
                },
            ),
            import_keyword.pos,
            import_keyword.length,
        )
    }

    /// Parse a `let`/`const` declaration, with an optional initializing
    /// assignment.
    fn parse_iden_init(&mut self, is_const: bool, pipe: &mut ErrorPipeline) -> (r: AstNode<Node>)
        requires
            old(self).wf(),
        ensures
            old(self).stepped(*final(self)),
            appended_with(old(pipe)@, final(pipe)@, ErrorType::SyntaxError),
            token_matched(
                old(self).cur(),
                TokenType::Keyword(
                    if is_const {
                        KeyWords::CONST
                    } else {
                        KeyWords::LET
                    },
                ),
            ) ==> final(self).at() > old(self).at(),
            r.node is DeclareVar || r.node is Assignment || r.node is ParserError,
            ({
                &&& token_matched(
                    old(self).cur(),
                    TokenType::Keyword(
                        if is_const {
                            KeyWords::CONST
                        } else {
                            KeyWords::LET
                        },
                    ),
                )
                &&& old(self).at() + 4 < old(self).toks().len()
                &&& old(self).toks()[old(self).at() + 1].token is Identifier
                &&& old(self).toks()[old(self).at() + 2].token is Colon
                &&& old(self).toks()[old(self).at() + 3].token is DataType
                &&& !(old(self).toks()[old(self).at() + 4].token is LeftBracket)
                &&& !(old(self).toks()[old(self).at() + 4].token is AssignmentOperator)
            }) ==> {
                &&& r.node matches Node::DeclareVar(v) && {
                    &&& old(self).toks()[old(self).at() + 1].token matches TokenType::Identifier(
                        id,
                    ) && v.name.node@ == id@
                    &&& v.name.pos == old(self).toks()[old(self).at() + 1].pos
                    &&& old(self).toks()[old(self).at() + 3].token matches TokenType::DataType(dt)
                        && v.var_type.node == dt
                    &&& v.constant matches Some(c) && c.node == is_const
                }
                &&& r.pos == old(self).cur().pos
                &&& final(self).at() == old(self).at() + 4
                &&& final(pipe)@ == old(pipe)@
            },
        decreases self.toks().len() - self.at(), 11int,
    {
        let declaration_token = if is_const {
            match self.eat(&TokenType::Keyword(KeyWords::CONST), "", pipe) {
                Ok(t) => t,
                Err(e) => {
                    return e;
                },
            }
        } else {
            match self.eat(&TokenType::Keyword(KeyWords::LET), "", pipe) {
                Ok(t) => t,
                Err(e) => {
                    return e;
                },
            }
        };
        let var_name_token = match self.eat(
            &TokenType::Identifier(String::new()),
            "expected an identifier",
            pipe,
        ) {
            Ok(t) => t,
            Err(e) => {
                return e;
            },
        };
        let var_name = match var_name_token.node {
            TokenType::Identifier(id) => id,
            _ => String::new(),
        };
        match self.eat(&TokenType::Colon, "expected ':' for type declaration", pipe) {
            Ok(_) => {},
            Err(e) => {
                return e;
            },
        };
        let data_type = match self.parse_data_type(pipe) {
            Ok(t) => t,
            Err(e) => {
                return e;
            },
        };
        let c_pos = declaration_token.pos;
        let c_length = declaration_token.length;
        let v = Var {
            constant: Some(AstNode::new(is_const, declaration_token.pos, declaration_token.length)),
            name: AstNode::new(var_name, var_name_token.pos, var_name_token.length),
            var_type: data_type,
        };
        if self.expected(&TokenType::AssignmentOperator) {
            let operator = match self.eat(&TokenType::AssignmentOperator, "", pipe) {
                Ok(t) => t,
                Err(e) => {
                    return e;
                },
            };
            let right = self.parse_primary(pipe);
            let out = Node::Assignment(
                BinExp {
                    left: Box::new(AstNode::new(Node::DeclareVar(v), c_pos, c_length)),
                    right: Box::new(right),
                    operator,
                },
            );
            return AstNode::new(out, c_pos, c_length);
        }
        AstNode::new(Node::DeclareVar(v), c_pos, c_length)
    }

    /// Parse a `for` loop: a bare identifier or a parenthesized tuple as
    /// target, `in`, a range, and the body block.
    fn parse_for(&mut self, pipe: &mut ErrorPipeline) -> (r: AstNode<Node>)
        requires
            old(self).wf(),
        ensures
            old(self).stepped(*final(self)),
            appended_with(old(pipe)@, final(pipe)@, ErrorType::SyntaxError),
            token_matched(old(self).cur(), TokenType::Keyword(KeyWords::FOR)) ==> final(self).at() > old(self).at(),
            r.node is For || r.node is ParserError,
            (token_matched(old(self).cur(), TokenType::Keyword(KeyWords::FOR)) && old(self).at()
                + 2 < old(self).toks().len() && old(self).toks()[old(self).at() + 1].token
                is Identifier && token_matched(
                old(self).toks()[old(self).at() + 2],
                TokenType::Keyword(KeyWords::IN),
            )) ==> (r.node matches Node::For(fl) && fl.var matches Some(t) && (old(self).toks()[
            old(self).at() + 1].token matches TokenType::Identifier(v) ==> (t.node
                matches Node::Variable(name) && name@ == v@ && t.pos == old(self).toks()[old(
                self,
            ).at() + 1].pos && t.length == old(self).toks()[old(self).at() + 1].length))),
        decreases self.toks().len() - self.at(), 11int,
    {
        let for_kw = match self.eat(&TokenType::Keyword(KeyWords::FOR), "", pipe) {
            Ok(t) => t,
            Err(e) => {
                return e;
            },
        };
        let iden = if self.expected(&TokenType::LeftParen) {
            self.parse_paren(pipe)
        } else {
            let iden_tok = match self.eat(
                &TokenType::Identifier(String::new()),
                "expected identifier after 'for'",
                pipe,
            ) {
                Ok(t) => t,
                Err(e) => {
                    return e;
                },
            };
            let ide = match iden_tok.node {
                TokenType::Identifier(id) => id,
                _ => String::new(),
            };
            AstNode::new(Node::Variable(ide), iden_tok.pos, iden_tok.length)
        };
        match self.eat(&TokenType::Keyword(KeyWords::IN), "expected 'in' keyword", pipe) {
            Ok(_) => {},
            Err(e) => {
                return e;
            },
        };
        let range = self.parse_range(pipe);
        let for_body = self.parse_block(pipe);
        AstNode::new(
            Node::For(
                ForLoop { body: for_body, var: Some(Box::new(iden)), range: Box::new(range) },
            ),
            for_kw.pos,
            for_kw.length,
        )
    }

    /// Parse a `while` loop: condition and body block.
    fn parse_while(&mut self, pipe: &mut ErrorPipeline) -> (r: AstNode<Node>)
        requires
            old(self).wf(),
        ensures
            old(self).stepped(*final(self)),
            appended_with(old(pipe)@, final(pipe)@, ErrorType::SyntaxError),
            token_matched(old(self).cur(), TokenType::Keyword(KeyWords::WHILE)) ==> final(self).at() > old(self).at(),
            r.node is While || r.node is ParserError,
            (token_matched(old(self).cur(), TokenType::Keyword(KeyWords::WHILE)) && old(self).at()
                + 2 < old(self).toks().len() && old(self).toks()[old(self).at() + 1].token
                is BooleanLiteral && old(self).toks()[old(self).at() + 2].token is LeftBrace)
                ==> (r.node matches Node::While(w) && (old(self).toks()[old(self).at()
                + 1].token matches TokenType::BooleanLiteral(b) ==> (w.condition.node
                matches Node::Literal(LiteralValue::Bool(b2)) && b2 == b && w.condition.pos == old(
                self,
            ).toks()[old(self).at() + 1].pos && w.condition.length == old(self).toks()[old(
                self,
            ).at() + 1].length))),
        decreases self.toks().len() - self.at(), 11int,
    {
        let while_kw = match self.eat(&TokenType::Keyword(KeyWords::WHILE), "", pipe) {
            Ok(t) => t,
            Err(e) => {
                return e;
            },
        };
        let loop_condition = self.parse_primary(pipe);
        let condition_length = loop_condition.length;
        let loop_body = self.parse_block(pipe);
        let total = Self::sat_add(Self::sat_add(while_kw.length, 1), condition_length);
        AstNode::new(
            Node::While(WhileLoop { condition: Box::new(loop_condition), body: loop_body }),
            while_kw.pos,
            total,
        )
    }

    /// Parse an `if` chain: the `if` block, any `else if` blocks, and the
    /// optional `else` block.
    fn parse_condition(&mut self, pipe: &mut ErrorPipeline) -> (r: AstNode<Node>)
        requires
            old(self).wf(),
        ensures
            old(self).stepped(*final(self)),
            appended_with(old(pipe)@, final(pipe)@, ErrorType::SyntaxError),
            token_matched(old(self).cur(), TokenType::Keyword(KeyWords::IF)) ==> final(self).at() > old(self).at(),
            r.node is Conditional || r.node is ParserError,
            (token_matched(old(self).cur(), TokenType::Keyword(KeyWords::IF)) && old(self).at() + 2
                < old(self).toks().len() && old(self).toks()[old(self).at() + 1].token
                is BooleanLiteral && old(self).toks()[old(self).at() + 2].token is LeftBrace)
                ==> (r.node matches Node::Conditional(c) && (old(self).toks()[old(self).at()
                + 1].token matches TokenType::BooleanLiteral(b) ==> (c.if_block.0.node
                matches Node::Literal(LiteralValue::Bool(b2)) && b2 == b && c.if_block.0.pos
                == old(self).toks()[old(self).at() + 1].pos))),
        decreases self.toks().len() - self.at(), 11int,
    {
        let if_kw = match self.eat(&TokenType::Keyword(KeyWords::IF), "", pipe) {
            Ok(t) => t,
            Err(e) => {
                return e;
            },
        };
        let if_condition = self.parse_primary(pipe);
        let if_condition_length = if_condition.length;
        let if_body = self.parse_block(pipe);
        let mut elseif_block: Vec<(AstNode<Node>, Body)> = Vec::new();
        while self.expected(&TokenType::Keyword(KeyWords::ELSEIF))
            invariant
                self.wf(),
                self.toks() == old(self).toks(),
                old(self).at() < self.at(),
                appended_with(old(pipe)@, pipe@, ErrorType::SyntaxError),
            decreases self.toks().len() - self.at(),
        {
            match self.eat(&TokenType::Keyword(KeyWords::ELSEIF), "", pipe) {
                Ok(_) => {},
                Err(e) => {
                    return e;
                },
            };
            let elif_condition = self.parse_primary(pipe);
            let elif_body = self.parse_block(pipe);
            elseif_block.push((elif_condition, elif_body));
        }
        let else_block = if self.expected(&TokenType::Keyword(KeyWords::ELSE)) {
            match self.eat(&TokenType::Keyword(KeyWords::ELSE), "", pipe) {
                Ok(_) => {},
                Err(e) => {
                    return e;
                },
            };
            let else_body = self.parse_block(pipe);
            Some(else_body)
        } else {
            None
        };
        let total = Self::sat_add(Self::sat_add(if_kw.length, 1), if_condition_length);
        AstNode::new(
            Node::Conditional(
                ConditionalBlock {
                    if_block: (Box::new(if_condition), if_body),
                    elif_block: elseif_block,
                    else_block,
                },
            ),
            if_kw.pos,
            total,
        )
    }

    /// Parse a top-level function declaration. A malformed name or
    /// parameter list reports one diagnostic (at most two, where the
    /// skipped block is unclosed), then resynchronizes by skipping to the
    /// body block and over it, so the next declaration parses cleanly. A
    /// non-void function whose body holds no `return` anywhere in its
    /// nesting gets a semantic "missing return statement" diagnostic at
    /// the return-type token.
    fn parse_function(&mut self, pipe: &mut ErrorPipeline) -> (r: AstNode<Node>)
        requires
            old(self).wf(),
        ensures
            old(self).stepped(*final(self)),
            parser_appended(old(pipe)@, final(pipe)@),
            token_matched(old(self).cur(), TokenType::Keyword(KeyWords::FUNC)) ==> final(self).at() > old(self).at(),
            r.node is Function || r.node is ParserError,
            r.node is ParserError ==> (old(pipe)@.len() + 1 <= final(pipe)@.len() <= old(
                pipe,
            )@.len() + 2),
            r.node matches Node::Function(f) ==> ((!(f.return_type.node is Void)
                && !crate::ast::spec_body_contains(f.body, 10)) ==> {
                &&& final(pipe)@.len() > old(pipe)@.len()
                &&& final(pipe)@.last().error_type is SemanticError
                &&& final(pipe)@.last().error_message@ == "missing return statement"@
            }),
            r.node matches Node::Function(f) ==> ((f.return_type.node is Void
                || crate::ast::spec_body_contains(f.body, 10)) ==> appended_with(
                old(pipe)@,
                final(pipe)@,
                ErrorType::SyntaxError,
            )),
            starts_typed_func_header(*old(self)) ==> (r.node matches Node::Function(f) && {
                &&& pinned_func_name(*old(self), f)
                &&& (old(self).toks()[old(self).at() + 5].token matches TokenType::DataType(dt)
                    ==> (f.return_type.node == dt && (!(dt is Void)
                    && !crate::ast::spec_body_contains(f.body, 10) ==> (final(pipe)@.last().pos
                    == old(self).toks()[old(self).at() + 5].pos && final(pipe)@.last().length
                    == old(self).toks()[old(self).at() + 5].length))))
                &&& f.parameters@.len() == 0
            }),
            starts_void_func_header(*old(self)) ==> (r.node matches Node::Function(f) && {
                &&& pinned_func_name(*old(self), f)
                &&& f.return_type.node is Void
                &&& f.parameters@.len() == 0
                &&& ((old(self).at() + 5 < old(self).toks().len() && old(self).toks()[old(
                    self,
                ).at() + 5].token is RightBrace) ==> (final(self).at() == old(self).at() + 6
                    && final(pipe)@ == old(pipe)@))
            }),
            starts_broken_param_func(*old(self)) ==> broken_func_recovered(
                *old(self),
                *final(self),
                r,
                old(pipe)@,
                final(pipe)@,
            ),
            (starts_typed_func_header(*old(self)) && old(self).at() + 7 < old(self).toks().len()
                && old(self).toks()[old(self).at() + 7].token is RightBrace) ==> (old(
                self,
            ).toks()[old(self).at() + 5].token matches TokenType::DataType(dt) ==> (!(dt is Void)
                ==> pushed_diag(
                old(pipe)@,
                final(pipe)@,
                ErrorType::SemanticError,
                "missing return statement"@,
                old(self).toks()[old(self).at() + 5].pos,
                old(self).toks()[old(self).at() + 5].length,
            ))),
            (starts_typed_func_header(*old(self)) && old(self).at() + 12 < old(
                self,
            ).toks().len() && token_matched(
                old(self).toks()[old(self).at() + 7],
                TokenType::Keyword(KeyWords::LET),
            ) && old(self).toks()[old(self).at() + 8].token is Identifier && old(self).toks()[
            old(self).at() + 9].token is Colon && old(self).toks()[old(self).at() + 10].token
                is DataType && old(self).toks()[old(self).at() + 11].token is SemiColon && old(
                self,
            ).toks()[old(self).at() + 12].token is RightBrace) ==> (old(self).toks()[old(
                self,
            ).at() + 5].token matches TokenType::DataType(dt) ==> (!(dt is Void) ==> pushed_diag(
                old(pipe)@,
                final(pipe)@,
                ErrorType::SemanticError,
                "missing return statement"@,
                old(self).toks()[old(self).at() + 5].pos,
                old(self).toks()[old(self).at() + 5].length,
            ))),
            starts_one_param_func_header(*old(self)) ==> (r.node matches Node::Function(f) && {
                &&& pinned_func_name(*old(self), f)
                &&& old(self).toks()[old(self).at() + 8].token matches TokenType::DataType(dt)
                    ==> f.return_type.node == dt
                &&& f.parameters@.len() == 1
                &&& (old(self).toks()[old(self).at() + 3].token matches TokenType::Identifier(pn)
                    ==> (f.parameters@[0].node.name.node@ == pn@ && f.parameters@[0].node.name.pos
                    == old(self).toks()[old(self).at() + 3].pos))
                &&& (old(self).toks()[old(self).at() + 5].token matches TokenType::DataType(pt)
                    ==> f.parameters@[0].node.var_type.node == pt)
            }),
        decreases self.toks().len() - self.at(), 11int,
    {
        broadcast use lemma_parser_appended_refl, lemma_parser_appended_trans, lemma_syntax_is_parser_appended;

        let func_keyword = match self.eat(&TokenType::Keyword(KeyWords::FUNC), "", pipe) {
            Ok(t) => t,
            Err(e) => {
                return e;
            },
        };
        let func_name = match self.eat(
            &TokenType::Identifier(String::new()),
            "expect a function name",
            pipe,
        ) {
            Ok(t) => t,
            Err(e) => {
                self.skip_until(&TokenType::LeftBrace, pipe);
                self.skip_block(pipe);
                return e;
            },
        };
        let function_name = match func_name.node {
            TokenType::Identifier(id) => id,
            _ => String::new(),
        };
        match self.eat(&TokenType::LeftParen, "expected function parameter", pipe) {
            Ok(_) => {},
            Err(e) => {
                self.skip_until(&TokenType::LeftBrace, pipe);
                self.skip_block(pipe);
                return e;
            },
        };
        let mut parameters: Vec<AstNode<Var>> = Vec::new();
        let mut params_span: u32 = 0;
        while !self.expected(&TokenType::RightParen)
            invariant
                self.wf(),
                self.toks() == old(self).toks(),
                old(self).at() < self.at(),
                pipe@ == old(pipe)@,
                (starts_typed_func_header(*old(self)) || starts_void_func_header(*old(self)))
                    ==> (parameters@.len() == 0 && self.at() == old(self).at() + 3 && pipe@ == old(
                    pipe,
                )@),
                starts_broken_param_func(*old(self)) ==> self.at() == old(self).at() + 3,
                starts_one_param_func_header(*old(self)) ==> ((parameters@.len() == 0 && self.at()
                    == old(self).at() + 3 && pipe@ == old(pipe)@) || {
                    &&& parameters@.len() == 1
                    &&& (old(self).toks()[old(self).at() + 3].token
                        matches TokenType::Identifier(pn) ==> (parameters@[0].node.name.node@
                        == pn@ && parameters@[0].node.name.pos == old(self).toks()[old(self).at()
                        + 3].pos))
                    &&& (old(self).toks()[old(self).at() + 5].token
                        matches TokenType::DataType(pt) ==> parameters@[0].node.var_type.node
                        == pt)
                    &&& self.at() == old(self).at() + 6
                    &&& pipe@ == old(pipe)@
                }),
            decreases self.toks().len() - self.at(),
        {
            let para_name_t = match self.eat(
                &TokenType::Identifier(String::new()),
                "missing parameter name",
                pipe,
            ) {
                Ok(t) => t,
                Err(e) => {
                    self.skip_until(&TokenType::LeftBrace, pipe);
                    self.skip_block(pipe);
                    return e;
                },
            };
            let para_name = match para_name_t.node {
                TokenType::Identifier(id) => id,
                _ => String::new(),
            };
            match self.eat(&TokenType::Colon, "expected ':' for type declaration", pipe) {
                Ok(_) => {},
                Err(e) => {
                    self.skip_until(&TokenType::LeftBrace, pipe);
                    self.skip_block(pipe);
                    return e;
                },
            };
            let para_type_t = match self.eat(
                &TokenType::DataType(DataType::Void),
                "missing parameter type",
                pipe,
            ) {
                Ok(t) => t,
                Err(e) => {
                    self.skip_until(&TokenType::LeftBrace, pipe);
                    self.skip_block(pipe);
                    return e;
                },
            };
            let para_type = match para_type_t.node {
                TokenType::DataType(data_type) => data_type,
                _ => DataType::Void,
            };
            let total = Self::sat_add(Self::sat_add(para_type_t.length, 1), para_name_t.length);
            params_span = Self::sat_add(params_span, total);
            parameters.push(
                AstNode::new(
                    Var {
                        constant: None,
                        name: AstNode::new(para_name, para_name_t.pos, para_name_t.length),
                        var_type: AstNode::new(para_type, para_type_t.pos, para_type_t.length),
                    },
                    para_type_t.pos,
                    total,
                ),
            );
            if self.expected(&TokenType::Comma) {
                let _ = self.eat(&TokenType::Comma, "", pipe);
            }
        }
        let r_paren = match self.eat(&TokenType::RightParen, "", pipe) {
            Ok(t) => t,
            Err(e) => {
                return e;
            },
        };
        let mut ret_tok_pos = r_paren.pos;
        let mut ret_tok_length = r_paren.length;
        let mut return_type = DataType::Void;
        if self.expected(&TokenType::Colon) {
            let _ = self.eat(&TokenType::Colon, "", pipe);
            let ret_token = match self.eat(
                &TokenType::DataType(DataType::Void),
                "expected function return type, omit ':' if type is void",
                pipe,
            ) {
                Ok(t) => t,
                Err(e) => {
                    return e;
                },
            };
            ret_tok_pos = ret_token.pos;
            ret_tok_length = ret_token.length;
            return_type = match ret_token.node {
                TokenType::DataType(data_type) => data_type,
                _ => DataType::Void,
            };
        }
        let body = self.parse_block(pipe);
        let ret_is_void = matches!(return_type, DataType::Void);
        if !ret_is_void && !body.contains(&Node::Return(None)) {
            let ghost p_body = pipe@;
            pipe.raise_error(
                ErrorType::SemanticError,
                "missing return statement",
                ret_tok_pos,
                ret_tok_length,
            );
            proof {
                assert(pipe@.subrange(0, old(pipe)@.len() as int) =~= old(pipe)@);
                assert(pipe@.subrange(0, p_body.len() as int) =~= p_body);
                assert(parser_appended(p_body, pipe@));
            }
        }
        let printed = return_type.to_string();
        let name_len = printed.as_str().unicode_len();
        let name_len32: u32 = if name_len > u32::MAX as usize {
            u32::MAX
        } else {
            name_len as u32
        };
        let header_span = Self::sat_add(
            Self::sat_add(Self::sat_add(func_keyword.length, 1), func_name.length),
            Self::sat_add(params_span, name_len32),
        );
        AstNode::new(
            Node::Function(
                FuncDef {
                    function_name: AstNode::new(function_name, func_name.pos, func_name.length),
                    body,
                    parameters,
                    return_type: AstNode::new(return_type, r_paren.pos, name_len32),
                },
            ),
            func_keyword.pos,
            header_span,
        )
    }

    /// Parse the range of a `for` loop: `start..end`, or an expression
    /// that already is a range; anything else is a diagnostic.
    fn parse_range(&mut self, pipe: &mut ErrorPipeline) -> (r: AstNode<Node>)
        requires
            old(self).wf(),
        ensures
            old(self).stepped(*final(self)),
            appended_with(old(pipe)@, final(pipe)@, ErrorType::SyntaxError),
            range_atom_parse(*old(self), *final(self), r, old(pipe)@, final(pipe)@),
            (old(self).cur().token is IntLiteral && old(self).at() + 1 < old(self).toks().len()
                && old(self).toks()[old(self).at() + 1].token is LeftBrace) ==> {
                &&& r.node is ParserError
                &&& pushed_diag(
                    old(pipe)@,
                    final(pipe)@,
                    ErrorType::SyntaxError,
                    "expected token 'range' after 'in' keyword"@,
                    old(self).toks()[old(self).at() + 1].pos,
                    1,
                )
                &&& final(self).at() == old(self).at() + 1
            },
        decreases self.toks().len() - self.at(), 10int,
    {
        let left = self.parse_primary(pipe);
        if self.expected(&TokenType::Range) {
            match self.eat(&TokenType::Range, "expected range", pipe) {
                Ok(_) => {},
                Err(e) => {
                    return e;
                },
            };
            let right = self.parse_primary(pipe);
            let left_pos = left.pos;
            let left_length = left.length;
            let right_length = right.length;
            let total = Self::sat_add(Self::sat_add(left_length, 2), right_length);
            return AstNode::new(
                Node::Range(Range { start: Box::new(left), end: Box::new(right) }),
                left_pos,
                total,
            );
        }
        match &left.node {
            Node::Range(_) => left,
            _ => {
                let er = self.raise_error("expected token 'range' after 'in' keyword", pipe);
                let er_pos = er.pos;
                AstNode::new(Node::ParserError(er), er_pos, 0)
            },
        }
    }

    /// Parse one statement inside a block or at the top level, dispatching
    /// on the lookahead. `top_level` decides whether a `func` declaration
    /// is parsed or rejected. The lookahead is never the statement
    /// terminator the caller loops on.
    fn parse_statement(&mut self, top_level: bool, pipe: &mut ErrorPipeline) -> (r: AstNode<Node>)
        requires
            old(self).wf(),
            !(old(self).cur().token is EOF),
        ensures
            old(self).stepped(*final(self)),
            parser_appended(old(pipe)@, final(pipe)@),
            !top_level ==> appended_with(old(pipe)@, final(pipe)@, ErrorType::SyntaxError),
            final(self).at() > old(self).at(),
            token_matched(old(self).cur(), TokenType::Keyword(KeyWords::FOR)) ==> (r.node is For
                || r.node is ParserError),
            token_matched(old(self).cur(), TokenType::Keyword(KeyWords::WHILE)) ==> (r.node
                is While || r.node is ParserError),
            token_matched(old(self).cur(), TokenType::Keyword(KeyWords::IF)) ==> (r.node
                is Conditional || r.node is ParserError),
            token_matched(old(self).cur(), TokenType::Keyword(KeyWords::RETURN)) ==> (r.node
                is Return || r.node is ParserError),
            token_matched(old(self).cur(), TokenType::Keyword(KeyWords::IMPORT)) ==> (r.node
                is Import || r.node is ParserError),
            token_matched(old(self).cur(), TokenType::Keyword(KeyWords::LET)) ==> (r.node
                is DeclareVar || r.node is Assignment || r.node is ParserError),
            token_matched(old(self).cur(), TokenType::Keyword(KeyWords::CONST)) ==> (r.node
                is DeclareVar || r.node is Assignment || r.node is ParserError),
            (token_matched(old(self).cur(), TokenType::Keyword(KeyWords::FUNC)) && top_level)
                ==> (r.node is Function || r.node is ParserError),
            (starts_broken_param_func(*old(self)) && top_level) ==> broken_func_recovered(
                *old(self),
                *final(self),
                r,
                old(pipe)@,
                final(pipe)@,
            ),
            (starts_void_func_header(*old(self)) && top_level && old(self).at() + 5 < old(
                self,
            ).toks().len() && old(self).toks()[old(self).at() + 5].token is RightBrace) ==> (
            r.node matches Node::Function(f) && {
                &&& pinned_func_name(*old(self), f)
                &&& f.return_type.node is Void
                &&& f.parameters@.len() == 0
                &&& final(self).at() == old(self).at() + 6
                &&& final(pipe)@ == old(pipe)@
            }),
            (token_matched(old(self).cur(), TokenType::Keyword(KeyWords::FUNC)) && !top_level)
                ==> {
                &&& r.node is ParserError
                &&& pushed_diag(
                    old(pipe)@,
                    final(pipe)@,
                    ErrorType::SyntaxError,
                    "only top-level function declaration is allowed"@,
                    old(self).cur().pos,
                    1,
                )
                &&& final(self).at() == old(self).at() + 1
            },
            starts_var_statement(*old(self)) ==> (pinned_var_statement(*old(self), r)
                && final(self).at() == old(self).at() + 2 && final(pipe)@ == old(pipe)@),
            starts_return_statement(*old(self)) ==> (pinned_return_statement(*old(self), r)
                && final(self).at() == old(self).at() + 2 && final(pipe)@ == old(pipe)@),
            starts_let_declaration(*old(self)) ==> (pinned_let_declaration(*old(self), r)
                && final(self).at() == old(self).at() + 5 && final(pipe)@ == old(pipe)@),
        decreases self.toks().len() - self.at(), 12int,
    {
        broadcast use lemma_parser_appended_refl, lemma_parser_appended_trans, lemma_syntax_is_parser_appended;

        let look_pos = self.peek().pos;
        let look_length = self.peek().length;
        let simple: Option<Dispatch> = match &self.peek().token {
            TokenType::Keyword(keyword) => {
                match keyword {
                    KeyWords::FUNC => {
                        if top_level {
                            return self.parse_function(pipe);
                        }
                        let er = self.raise_error(
                            "only top-level function declaration is allowed",
                            pipe,
                        );
                        let er_pos = er.pos;
                        self.advance();
                        return AstNode::new(Node::ParserError(er), er_pos, 0);
                    },
                    KeyWords::IMPORT => Some(Dispatch::Import),
                    KeyWords::AS => {
                        let er = self.raise_error(
                            "expected token 'import' before 'sources' token",
                            pipe,
                        );
                        self.advance();
                        return AstNode::new(Node::ParserError(er), look_pos, look_length);
                    },
                    KeyWords::CONST => Some(Dispatch::Const),
                    KeyWords::LET => Some(Dispatch::Let),
                    KeyWords::RETURN => Some(Dispatch::Return),
                    KeyWords::FOR => {
                        return self.parse_for(pipe);
                    },
                    KeyWords::WHILE => {
                        return self.parse_while(pipe);
                    },
                    KeyWords::IF => {
                        return self.parse_condition(pipe);
                    },
                    KeyWords::ELSEIF => {
                        let er = self.raise_error(
                            "expected token 'if' before 'else if' token",
                            pipe,
                        );
                        let er_pos = er.pos;
                        self.advance();
                        return AstNode::new(Node::ParserError(er), er_pos, 0);
                    },
                    KeyWords::ELSE => {
                        let er = self.raise_error("expected token 'if' before 'else' token", pipe);
                        let er_pos = er.pos;
                        self.advance();
                        return AstNode::new(Node::ParserError(er), er_pos, 0);
                    },
                    KeyWords::IN => {
                        let er = self.raise_error(
                            "expected identifier or tuple of identifier before 'in' token",
                            pipe,
                        );
                        let er_pos = er.pos;
                        self.advance();
                        return AstNode::new(Node::ParserError(er), er_pos, 0);
                    },
                }
            },
            TokenType::Identifier(_) => Some(Dispatch::Iden),
            TokenType::And => {
                let er = self.raise_error(
                    "expected identifier or expression before '&&' token",
                    pipe,
                );
                let er_pos = er.pos;
                self.advance();
                return AstNode::new(Node::ParserError(er), er_pos, 0);
            },
            TokenType::Or => {
                let er = self.raise_error(
                    "expected identifier or expression before '||' token",
                    pipe,
                );
                let er_pos = er.pos;
                self.advance();
                return AstNode::new(Node::ParserError(er), er_pos, 0);
            },
            TokenType::RightParen => {
                let er = self.raise_error("unmatched parenthesis", pipe);
                let er_pos = er.pos;
                self.advance();
                return AstNode::new(Node::ParserError(er), er_pos, 0);
            },
            TokenType::RightBrace => {
                let er = self.raise_error("unmatched brace", pipe);
                let er_pos = er.pos;
                self.advance();
                return AstNode::new(Node::ParserError(er), er_pos, 0);
            },
            _ => None,
        };
        match simple {
            Some(Dispatch::Import) => {
                let mut res = self.parse_import(pipe);
                match self.eat(&TokenType::SemiColon, "missing semicolon", pipe) {
                    Ok(_) => {},
                    Err(e) => {
                        res = e;
                    },
                };
                res
            },
            Some(Dispatch::Const) => {
                let mut res = self.parse_iden_init(true, pipe);
                match self.eat(&TokenType::SemiColon, "missing semicolon", pipe) {
                    Ok(_) => {},
                    Err(e) => {
                        res = e;
                    },
                };
                res
            },
            Some(Dispatch::Let) => {
                let mut res = self.parse_iden_init(false, pipe);
                match self.eat(&TokenType::SemiColon, "missing semicolon", pipe) {
                    Ok(_) => {},
                    Err(e) => {
                        res = e;
                    },
                };
                res
            },
            Some(Dispatch::Return) => {
                let mut res = self.parse_return(pipe);
                match self.eat(&TokenType::SemiColon, "missing semicolon", pipe) {
                    Ok(_) => {},
                    Err(e) => {
                        res = e;
                    },
                };
                res
            },
            Some(Dispatch::Iden) => {
                let mut res = self.parse_iden(pipe);
                match self.eat(&TokenType::SemiColon, "missing semicolon", pipe) {
                    Ok(_) => {},
                    Err(e) => {
                        res = e;
                    },
                };
                res
            },
            None => {
                let er = self.raise_error("expected expression", pipe);
                let er_pos = er.pos;
                self.advance();
                AstNode::new(Node::ParserError(er), er_pos, 0)
            },
        }
    }

    /// Parse a brace-delimited statement block. Function declarations are
    /// rejected here with a targeted diagnostic; an end of input inside the
    /// block reports an unclosed brace.
    fn parse_block(&mut self, pipe: &mut ErrorPipeline) -> (r: Body)
        requires
            old(self).wf(),
        ensures
            old(self).stepped(*final(self)),
            appended_with(old(pipe)@, final(pipe)@, ErrorType::SyntaxError),
            !token_matched(old(self).cur(), TokenType::LeftBrace) ==> {
                &&& final(pipe)@.len() > old(pipe)@.len()
                &&& final(pipe)@[old(pipe)@.len() as int].error_message@ == "expected a block"@
                &&& final(pipe)@[old(pipe)@.len() as int].error_type is SyntaxError
            },
            (token_matched(old(self).cur(), TokenType::LeftBrace) && old(self).at() + 1 < old(
                self,
            ).toks().len() && old(self).toks()[old(self).at() + 1].token is RightBrace) ==> {
                &&& r.instructions@.len() == 0
                &&& final(pipe)@ == old(pipe)@
                &&& final(self).at() == old(self).at() + 2
            },
            (token_matched(old(self).cur(), TokenType::LeftBrace) && old(self).at() + 1 < old(
                self,
            ).toks().len() && !(old(self).toks()[old(self).at() + 1].token is RightBrace) && !(
            old(self).toks()[old(self).at() + 1].token is EOF)) ==> r.instructions@.len() >= 1,
            (token_matched(old(self).cur(), TokenType::LeftBrace) && old(self).at() + 3 < old(
                self,
            ).toks().len() && old(self).toks()[old(self).at() + 1].token is Identifier && old(
                self,
            ).toks()[old(self).at() + 2].token is SemiColon && old(self).toks()[old(self).at()
                + 3].token is RightBrace) ==> {
                &&& r.instructions@.len() == 1
                &&& (old(self).toks()[old(self).at() + 1].token matches TokenType::Identifier(id)
                    ==> (r.instructions@[0].node matches Node::Variable(v) && v@ == id@
                    && r.instructions@[0].pos == old(self).toks()[old(self).at() + 1].pos
                    && r.instructions@[0].length == old(self).toks()[old(self).at() + 1].length))
                &&& final(pipe)@ == old(pipe)@
                &&& final(self).at() == old(self).at() + 4
            },
            (token_matched(old(self).cur(), TokenType::LeftBrace) && old(self).at() + 6 < old(
                self,
            ).toks().len() && token_matched(
                old(self).toks()[old(self).at() + 1],
                TokenType::Keyword(KeyWords::LET),
            ) && old(self).toks()[old(self).at() + 2].token is Identifier && old(self).toks()[
            old(self).at() + 3].token is Colon && old(self).toks()[old(self).at() + 4].token
                is DataType && old(self).toks()[old(self).at() + 5].token is SemiColon && old(
                self,
            ).toks()[old(self).at() + 6].token is RightBrace) ==> {
                &&& r.instructions@.len() == 1
                &&& r.instructions@[0].node is DeclareVar
                &&& final(pipe)@ == old(pipe)@
                &&& final(self).at() == old(self).at() + 7
            },
            (token_matched(old(self).cur(), TokenType::LeftBrace) && old(self).at() + 5 < old(
                self,
            ).toks().len() && old(self).toks()[old(self).at() + 1].token is Identifier && old(
                self,
            ).toks()[old(self).at() + 2].token is SemiColon && old(self).toks()[old(self).at()
                + 3].token is Identifier && old(self).toks()[old(self).at() + 4].token
                is SemiColon && old(self).toks()[old(self).at() + 5].token is RightBrace) ==> {
                &&& r.instructions@.len() == 2
                &&& (old(self).toks()[old(self).at() + 1].token matches TokenType::Identifier(id)
                    ==> (r.instructions@[0].node matches Node::Variable(v) && v@ == id@))
                &&& (old(self).toks()[old(self).at() + 3].token matches TokenType::Identifier(id2)
                    ==> (r.instructions@[1].node matches Node::Variable(v2) && v2@ == id2@))
                &&& final(pipe)@ == old(pipe)@
                &&& final(self).at() == old(self).at() + 6
            },
            (token_matched(old(self).cur(), TokenType::LeftBrace) && old(self).at() + 4 < old(
                self,
            ).toks().len() && token_matched(
                old(self).toks()[old(self).at() + 1],
                TokenType::Keyword(KeyWords::FUNC),
            ) && old(self).toks()[old(self).at() + 2].token is Identifier && old(self).toks()[
            old(self).at() + 3].token is SemiColon && old(self).toks()[old(self).at() + 4].token
                is RightBrace) ==> {
                &&& r.instructions@.len() == 2
                &&& r.instructions@[0].node is ParserError
                &&& (old(self).toks()[old(self).at() + 2].token matches TokenType::Identifier(id)
                    ==> (r.instructions@[1].node matches Node::Variable(v) && v@ == id@))
                &&& pushed_diag(
                    old(pipe)@,
                    final(pipe)@,
                    ErrorType::SyntaxError,
                    "only top-level function declaration is allowed"@,
                    old(self).toks()[old(self).at() + 1].pos,
                    1,
                )
                &&& final(self).at() == old(self).at() + 5
            },
        decreases self.toks().len() - self.at(), 13int,
    {
        let mut scope_body = Body { instructions: Vec::new() };
        let brace_pos = self.peek().pos;
        let _ = self.eat(&TokenType::LeftBrace, "expected a block", pipe);
        let ghost p1 = pipe@;
        let ghost at1 = self.at();
        while !self.expected(&TokenType::RightBrace)
            invariant
                self.wf(),
                self.toks() == old(self).toks(),
                old(self).at() <= self.at(),
                at1 <= self.at(),
                appended_with(old(pipe)@, pipe@, ErrorType::SyntaxError),
                appended_with(p1, pipe@, ErrorType::SyntaxError),
                !token_matched(old(self).cur(), TokenType::LeftBrace) ==> pushed_diag(
                    old(pipe)@,
                    p1,
                    ErrorType::SyntaxError,
                    "expected a block"@,
                    old(self).cur().pos,
                    1,
                ),
                (token_matched(old(self).cur(), TokenType::LeftBrace) && old(self).at() + 1 < old(
                    self,
                ).toks().len() && old(self).toks()[old(self).at() + 1].token is RightBrace) ==> (
                scope_body.instructions@.len() == 0 && pipe@ == old(pipe)@ && self.at() == old(
                    self,
                ).at() + 1),
                (token_matched(old(self).cur(), TokenType::LeftBrace) && scope_body.instructions@.len()
                    == 0) ==> self.at() == old(self).at() + 1,
                (token_matched(old(self).cur(), TokenType::LeftBrace) && old(self).at() + 6 < old(
                    self,
                ).toks().len() && token_matched(
                    old(self).toks()[old(self).at() + 1],
                    TokenType::Keyword(KeyWords::LET),
                ) && old(self).toks()[old(self).at() + 2].token is Identifier && old(self).toks()[
                old(self).at() + 3].token is Colon && old(self).toks()[old(self).at() + 4].token
                    is DataType && old(self).toks()[old(self).at() + 5].token is SemiColon && old(
                    self,
                ).toks()[old(self).at() + 6].token is RightBrace) ==> ((
                scope_body.instructions@.len() == 0 && self.at() == old(self).at() + 1 && pipe@
                    == old(pipe)@) || (scope_body.instructions@.len() == 1
                    && scope_body.instructions@[0].node is DeclareVar && self.at() == old(
                    self,
                ).at() + 6 && pipe@ == old(pipe)@)),
                (token_matched(old(self).cur(), TokenType::LeftBrace) && old(self).at() + 5 < old(
                    self,
                ).toks().len() && old(self).toks()[old(self).at() + 1].token is Identifier && old(
                    self,
                ).toks()[old(self).at() + 2].token is SemiColon && old(self).toks()[old(self).at()
                    + 3].token is Identifier && old(self).toks()[old(self).at() + 4].token
                    is SemiColon && old(self).toks()[old(self).at() + 5].token is RightBrace)
                    ==> ((scope_body.instructions@.len() == 0 && self.at() == old(self).at() + 1
                    && pipe@ == old(pipe)@) || {
                    &&& scope_body.instructions@.len() >= 1
                    &&& (old(self).toks()[old(self).at() + 1].token
                        matches TokenType::Identifier(id) ==> (scope_body.instructions@[0].node
                        matches Node::Variable(v) && v@ == id@))
                    &&& pipe@ == old(pipe)@
                    &&& ((scope_body.instructions@.len() == 1 && self.at() == old(self).at() + 3)
                        || {
                        &&& scope_body.instructions@.len() == 2
                        &&& (old(self).toks()[old(self).at() + 3].token
                            matches TokenType::Identifier(id2) ==> (
                        scope_body.instructions@[1].node matches Node::Variable(v2) && v2@
                            == id2@))
                        &&& self.at() == old(self).at() + 5
                    })
                }),
                (token_matched(old(self).cur(), TokenType::LeftBrace) && old(self).at() + 4 < old(
                    self,
                ).toks().len() && token_matched(
                    old(self).toks()[old(self).at() + 1],
                    TokenType::Keyword(KeyWords::FUNC),
                ) && old(self).toks()[old(self).at() + 2].token is Identifier && old(self).toks()[
                old(self).at() + 3].token is SemiColon && old(self).toks()[old(self).at()
                    + 4].token is RightBrace) ==> ((scope_body.instructions@.len() == 0
                    && self.at() == old(self).at() + 1 && pipe@ == old(pipe)@) || {
                    &&& scope_body.instructions@.len() >= 1
                    &&& scope_body.instructions@[0].node is ParserError
                    &&& pushed_diag(
                        old(pipe)@,
                        pipe@,
                        ErrorType::SyntaxError,
                        "only top-level function declaration is allowed"@,
                        old(self).toks()[old(self).at() + 1].pos,
                        1,
                    )
                    &&& ((scope_body.instructions@.len() == 1 && self.at() == old(self).at() + 2)
                        || {
                        &&& scope_body.instructions@.len() == 2
                        &&& (old(self).toks()[old(self).at() + 2].token
                            matches TokenType::Identifier(id) ==> (
                        scope_body.instructions@[1].node matches Node::Variable(v) && v@ == id@))
                        &&& self.at() == old(self).at() + 4
                    })
                }),
                (token_matched(old(self).cur(), TokenType::LeftBrace) && old(self).at() + 3 < old(
                    self,
                ).toks().len() && old(self).toks()[old(self).at() + 1].token is Identifier && old(
                    self,
                ).toks()[old(self).at() + 2].token is SemiColon && old(self).toks()[old(self).at()
                    + 3].token is RightBrace) ==> ((scope_body.instructions@.len() == 0
                    && self.at() == old(self).at() + 1 && pipe@ == old(pipe)@) || {
                    &&& scope_body.instructions@.len() == 1
                    &&& (old(self).toks()[old(self).at() + 1].token
                        matches TokenType::Identifier(id) ==> (
                    scope_body.instructions@[0].node matches Node::Variable(v) && v@ == id@
                        && scope_body.instructions@[0].pos == old(self).toks()[old(self).at()
                        + 1].pos && scope_body.instructions@[0].length == old(self).toks()[old(
                        self,
                    ).at() + 1].length))
                    &&& pipe@ == old(pipe)@
                    &&& self.at() == old(self).at() + 3
                }),
            ensures
                token_matched(self.cur(), TokenType::RightBrace) || self.cur().token is EOF,
            decreases self.toks().len() - self.at(),
        {
            if self.expected(&TokenType::EOF) {
                pipe.raise_error(ErrorType::SyntaxError, "unclosed brace", brace_pos, 1);
                proof {
                    assert(pipe@.subrange(0, old(pipe)@.len() as int) =~= old(pipe)@);
                    assert(pipe@.subrange(0, p1.len() as int) =~= p1);
                }
                break ;
            }
            let node = self.parse_statement(false, pipe);
            scope_body.instructions.push(node);
        }
        if self.expected(&TokenType::RightBrace) {
            let _ = self.eat(&TokenType::RightBrace, "unclosed brace", pipe);
        }
        scope_body
    }

    /// Parse a statement sequence up to `stop_token`, function
    /// declarations allowed.
    fn parse_body(&mut self, stop_token: TokenType, pipe: &mut ErrorPipeline) -> (r: Body)
        requires
            old(self).wf(),
        ensures
            old(self).stepped(*final(self)),
            parser_appended(old(pipe)@, final(pipe)@),
            (token_matched(old(self).cur(), stop_token) || old(self).cur().token is EOF) ==> (
            r.instructions@.len() == 0 && final(pipe)@ == old(pipe)@ && final(self).at() == old(
                self,
            ).at()),
            (!token_matched(old(self).cur(), stop_token) && !(old(self).cur().token is EOF))
                ==> r.instructions@.len() >= 1,
            (starts_var_statement(*old(self)) && !token_matched(old(self).cur(), stop_token))
                ==> (r.instructions@.len() >= 1 && pinned_var_statement(
                *old(self),
                r.instructions@[0],
            )),
            (starts_return_statement(*old(self)) && !token_matched(old(self).cur(), stop_token))
                ==> (r.instructions@.len() >= 1 && pinned_return_statement(
                *old(self),
                r.instructions@[0],
            )),
            (starts_let_declaration(*old(self)) && !token_matched(old(self).cur(), stop_token))
                ==> (r.instructions@.len() >= 1 && pinned_let_declaration(
                *old(self),
                r.instructions@[0],
            )),
            (starts_recovery_program(*old(self)) && (forall|k: int|
                old(self).at() <= k < old(self).at() + 14 ==> !token_matched(
                    #[trigger] old(self).toks()[k],
                    stop_token,
                ))) ==> {
                &&& r.instructions@.len() == 2
                &&& r.instructions@[0].node is ParserError
                &&& (r.instructions@[1].node matches Node::Function(g) && {
                    &&& (old(self).toks()[old(self).at() + 9].token
                        matches TokenType::Identifier(id) ==> g.function_name.node@ == id@)
                    &&& g.return_type.node is Void
                    &&& g.parameters@.len() == 0
                })
                &&& pushed_diag(
                    old(pipe)@,
                    final(pipe)@,
                    ErrorType::SyntaxError,
                    "expected ':' for type declaration"@,
                    old(self).toks()[old(self).at() + 4].pos,
                    1,
                )
            },
        decreases self.toks().len() - self.at(), 13int,
    {
        broadcast use lemma_parser_appended_refl, lemma_parser_appended_trans, lemma_syntax_is_parser_appended;

        let mut scope_body = Body { instructions: Vec::new() };
        while !self.expected(&stop_token) && !self.expected(&TokenType::EOF)
            invariant
                self.wf(),
                self.toks() == old(self).toks(),
                old(self).at() <= self.at(),
                parser_appended(old(pipe)@, pipe@),
                (token_matched(old(self).cur(), stop_token) || old(self).cur().token is EOF) ==> (
                scope_body.instructions@.len() == 0 && pipe@ == old(pipe)@ && self.at() == old(
                    self,
                ).at()),
                scope_body.instructions@.len() == 0 ==> self.at() == old(self).at(),
                (starts_var_statement(*old(self)) && scope_body.instructions@.len() >= 1)
                    ==> pinned_var_statement(*old(self), scope_body.instructions@[0]),
                (starts_return_statement(*old(self)) && scope_body.instructions@.len() >= 1)
                    ==> pinned_return_statement(*old(self), scope_body.instructions@[0]),
                (starts_let_declaration(*old(self)) && scope_body.instructions@.len() >= 1)
                    ==> pinned_let_declaration(*old(self), scope_body.instructions@[0]),
                starts_recovery_program(*old(self)) ==> ((scope_body.instructions@.len() == 0
                    && self.at() == old(self).at() && pipe@ == old(pipe)@) || {
                    &&& scope_body.instructions@.len() >= 1
                    &&& scope_body.instructions@[0].node is ParserError
                    &&& pushed_diag(
                        old(pipe)@,
                        pipe@,
                        ErrorType::SyntaxError,
                        "expected ':' for type declaration"@,
                        old(self).toks()[old(self).at() + 4].pos,
                        1,
                    )
                    &&& ((scope_body.instructions@.len() == 1 && self.at() == old(self).at() + 8)
                        || {
                        &&& scope_body.instructions@.len() == 2
                        &&& (scope_body.instructions@[1].node matches Node::Function(g) && {
                            &&& (old(self).toks()[old(self).at() + 9].token
                                matches TokenType::Identifier(id) ==> g.function_name.node@
                                == id@)
                            &&& g.return_type.node is Void
                            &&& g.parameters@.len() == 0
                        })
                        &&& self.at() == old(self).at() + 14
                    })
                }),
            decreases self.toks().len() - self.at(),
        {
            let ghost p_before = pipe@;
            let node = self.parse_statement(true, pipe);
            proof {
                lemma_parser_appended_trans(old(pipe)@, p_before, pipe@);
            }
            scope_body.instructions.push(node);
        }
        scope_body
    }

    /// Parse the whole token stream into the program body. Diagnostics for
    /// malformed constructs are appended to `pipe` in source order, and the
    /// malformed constructs appear as [`ParserError`] nodes.
    pub fn parse(&mut self, pipe: &mut ErrorPipeline) -> (r: Body)
        requires
            old(self).wf(),
        ensures
            old(self).stepped(*final(self)),
            parser_appended(old(pipe)@, final(pipe)@),
            old(self).cur().token is EOF ==> (r.instructions@.len() == 0 && final(pipe)@ == old(
                pipe,
            )@),
            !(old(self).cur().token is EOF) ==> r.instructions@.len() >= 1,
            starts_var_statement(*old(self)) ==> (r.instructions@.len() >= 1
                && pinned_var_statement(*old(self), r.instructions@[0])),
            starts_return_statement(*old(self)) ==> (r.instructions@.len() >= 1
                && pinned_return_statement(*old(self), r.instructions@[0])),
            starts_let_declaration(*old(self)) ==> (r.instructions@.len() >= 1
                && pinned_let_declaration(*old(self), r.instructions@[0])),
            starts_recovery_program(*old(self)) ==> {
                &&& r.instructions@.len() == 2
                &&& r.instructions@[0].node is ParserError
                &&& (r.instructions@[1].node matches Node::Function(g) && {
                    &&& (old(self).toks()[old(self).at() + 9].token
                        matches TokenType::Identifier(id) ==> g.function_name.node@ == id@)
                    &&& g.return_type.node is Void
                    &&& g.parameters@.len() == 0
                })
                &&& pushed_diag(
                    old(pipe)@,
                    final(pipe)@,
                    ErrorType::SyntaxError,
                    "expected ':' for type declaration"@,
                    old(self).toks()[old(self).at() + 4].pos,
                    1,
                )
            },
        decreases self.toks().len() - self.at(), 14int,
    {
        self.parse_body(TokenType::EOF, pipe)
    }
}

} // verus!
