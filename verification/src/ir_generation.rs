//! The IR generator: lowers an analyzed syntax tree to flat three-address
//! text, one operation per line, using the symbol table only for
//! SSA-style version and temporary bookkeeping. A write to a name
//! allocates the next version (the counter is advanced past it) and a read
//! sees the last allocated version, so each write gets a fresh suffix and
//! each read the suffix visible at that point.

use vstd::prelude::*;
use crate::ast::{AstNode, Body, LiteralValue, Node};
use crate::semantic_analyzer::{
    is_simple_operand, lemma_shape_refl, lemma_shape_trans_b, table_shape_preserved,
};
use crate::symbol_table::{scopes_retained, SymbolTable, VarModel};
use crate::tokens::{spec_type_name, TokenType};

verus! {

broadcast use {crate::symbol_table::lemma_retained_refl, crate::symbol_table::lemma_retained_trans};

/// The decimal digit character for one digit value.
pub open spec fn spec_digit(n: int) -> char {
    if n == 0 {
        '0'
    } else if n == 1 {
        '1'
    } else if n == 2 {
        '2'
    } else if n == 3 {
        '3'
    } else if n == 4 {
        '4'
    } else if n == 5 {
        '5'
    } else if n == 6 {
        '6'
    } else if n == 7 {
        '7'
    } else if n == 8 {
        '8'
    } else {
        '9'
    }
}

/// The decimal digits of a nonnegative number, most significant first.
pub open spec fn spec_dec_digits(n: int) -> Seq<char>
    decreases n,
{
    if n < 10 {
        seq![spec_digit(n)]
    } else {
        spec_dec_digits(n / 10).push(spec_digit(n % 10))
    }
}

/// The decimal rendering of an integer, sign included.
pub open spec fn spec_dec_int(i: int) -> Seq<char> {
    if i < 0 {
        seq!['-'] + spec_dec_digits(-i)
    } else {
        spec_dec_digits(i)
    }
}

/// The three-address mnemonic of an operator token.
pub open spec fn spec_mnemonic(op: TokenType) -> Seq<char> {
    match op {
        TokenType::AdditionOperator => "add"@,
        TokenType::SubtractionOperator => "sub"@,
        TokenType::MultiplicationOperator => "mul"@,
        TokenType::DivisionOperator => "div"@,
        TokenType::ModuloOperator => "mod"@,
        TokenType::Equal => "equ"@,
        TokenType::Less => "l"@,
        TokenType::LessEqual => "le"@,
        TokenType::More => "m"@,
        TokenType::MoreEqual => "me"@,
        TokenType::And => "and"@,
        TokenType::Or => "or"@,
        TokenType::Not => "not"@,
        _ => ""@,
    }
}

/// The version counter a name holds in one scope's variable table; a
/// missing name counts as zero.
pub open spec fn cur_version(vm: Map<Seq<char>, VarModel>, name: Seq<char>) -> u32 {
    if vm.contains_key(name) {
        vm[name].current_version
    } else {
        0
    }
}

/// The version a read renders: the last allocated one.
pub open spec fn spec_read_version(vm: Map<Seq<char>, VarModel>, name: Seq<char>) -> u32 {
    let c = cur_version(vm, name);
    if c == 0 {
        0
    } else {
        (c - 1) as u32
    }
}

/// A counter advanced past a freshly allocated version, saturating at the
/// top.
pub open spec fn spec_bump(v: u32) -> u32 {
    if v < u32::MAX {
        (v + 1) as u32
    } else {
        v
    }
}

/// One scope's variable table after a write allocated a version for
/// `name`: the counter is advanced (the entry is created first where
/// missing).
pub open spec fn write_alloc_map(m: Map<Seq<char>, VarModel>, name: Seq<char>) -> Map<
    Seq<char>,
    VarModel,
> {
    let cur = if m.contains_key(name) {
        m[name]
    } else {
        crate::symbol_table::fresh_var_model()
    };
    m.insert(name, VarModel { current_version: spec_bump(cur.current_version), ..cur })
}

/// The rendering of a variable read: name plus the visible version.
pub open spec fn spec_read_text(vm: Map<Seq<char>, VarModel>, name: Seq<char>) -> Seq<char> {
    name + spec_dec_digits(spec_read_version(vm, name) as int)
}

/// The rendering of a literal operand.
pub open spec fn spec_lit_text(l: LiteralValue) -> Seq<char> {
    match l {
        LiteralValue::Int(i) => spec_dec_int(i as int),
        LiteralValue::Float(f) => f.text@,
        LiteralValue::Str(s) => s@,
        LiteralValue::Bool(b) => if b {
            "true"@
        } else {
            "false"@
        },
    }
}

/// The rendering of a leaf operand: a literal by its value, a variable by
/// its name and visible version.
pub open spec fn spec_operand_text(vm: Map<Seq<char>, VarModel>, n: AstNode<Node>) -> Seq<
    char,
> {
    match n.node {
        Node::Literal(l) => spec_lit_text(l),
        Node::Variable(v) => spec_read_text(vm, v@),
        _ => Seq::empty(),
    }
}

/// Whether a node can stand as an assignment target: a bare variable or
/// an in-place declaration.
pub open spec fn is_assign_target(n: Node) -> bool {
    n is Variable || n is DeclareVar
}

/// The name an assignment target writes.
pub open spec fn spec_assign_target(n: Node) -> Seq<char> {
    match n {
        Node::Variable(v) => v@,
        Node::DeclareVar(v) => v.name.node@,
        _ => Seq::empty(),
    }
}

/// Whether an emitted operand begins with the synthetic temporary prefix,
/// which makes the caller treat it as a nested emission.
pub open spec fn spec_starts_tac(s: Seq<char>) -> bool {
    s.len() >= 8 && s.subrange(0, 8) == "tac_temp"@
}

/// The line an assignment with a leaf right-hand side emits:
/// `nameN = operand`.
pub open spec fn spec_assign_text(
    vm: Map<Seq<char>, VarModel>,
    target: Seq<char>,
    right: AstNode<Node>,
) -> Seq<char> {
    target + spec_dec_digits(cur_version(vm, target) as int) + " = "@ + spec_operand_text(
        vm,
        right,
    ) + "\n"@
}

/// The line a binary expression over leaf operands emits:
/// `tac_tempN = mnem left, right`.
pub open spec fn spec_binexp_text(
    vm: Map<Seq<char>, VarModel>,
    op: TokenType,
    left: AstNode<Node>,
    right: AstNode<Node>,
) -> Seq<char> {
    "tac_temp"@ + spec_dec_digits(cur_version(vm, "tac_temp"@) as int) + " = "@ + spec_mnemonic(
        op,
    ) + " "@ + spec_operand_text(vm, left) + ", "@ + spec_operand_text(vm, right) + "\n"@
}

/// The lines an assignment whose right side is a binary expression over
/// leaf operands emits: the temporary's line, then `nameN = tac_tempK`.
pub open spec fn spec_assign_binexp_text(
    vm: Map<Seq<char>, VarModel>,
    target: Seq<char>,
    op: TokenType,
    left: AstNode<Node>,
    right: AstNode<Node>,
) -> Seq<char> {
    spec_binexp_text(vm, op, left, right) + target + spec_dec_digits(
        cur_version(vm, target) as int,
    ) + " = "@ + "tac_temp"@ + spec_dec_digits(cur_version(vm, "tac_temp"@) as int) + "\n"@
}

/// A statement that is an assignment with a writable target and a leaf
/// right-hand side not shaped like a synthetic temporary.
pub open spec fn lone_simple_assignment(vm: Map<Seq<char>, VarModel>, n: AstNode<Node>) -> bool {
    &&& n.node is Assignment
    &&& is_assign_target(n.node->Assignment_0.left.node)
    &&& is_simple_operand(n.node->Assignment_0.right.node)
    &&& !spec_starts_tac(spec_operand_text(vm, *n.node->Assignment_0.right))
}

/// A two-statement program exercising the versioning scheme: a leaf
/// assignment, then an assignment whose right side is a binary expression
/// over leaf operands — the shape of a declaration followed by an update.
pub open spec fn two_statement_numbering_shape(
    vm0: Map<Seq<char>, VarModel>,
    ast: Body,
) -> bool {
    let s0 = ast.instructions@[0];
    let s1 = ast.instructions@[1];
    let vm1 = write_alloc_map(vm0, spec_assign_target(s0.node->Assignment_0.left.node));
    let be1 = s1.node->Assignment_0;
    &&& ast.instructions@.len() == 2
    &&& lone_simple_assignment(vm0, s0)
    &&& s1.node is Assignment
    &&& is_assign_target(be1.left.node)
    &&& spec_assign_target(be1.left.node) != "tac_temp"@
    &&& be1.right.node is BinaryExpression
    &&& is_simple_operand(be1.right.node->BinaryExpression_0.left.node)
    &&& is_simple_operand(be1.right.node->BinaryExpression_0.right.node)
    &&& !spec_starts_tac(spec_operand_text(vm1, *be1.right.node->BinaryExpression_0.left))
    &&& !spec_starts_tac(spec_operand_text(vm1, *be1.right.node->BinaryExpression_0.right))
    &&& cur_version(vm1, "tac_temp"@) < u32::MAX
}

/// The text that program emits: the leaf assignment's line under the
/// starting versions, then the temporary's line and the second write
/// under the once-advanced versions.
pub open spec fn two_statement_numbering_text(
    vm0: Map<Seq<char>, VarModel>,
    ast: Body,
) -> Seq<char> {
    let s0 = ast.instructions@[0];
    let s1 = ast.instructions@[1];
    let vm1 = write_alloc_map(vm0, spec_assign_target(s0.node->Assignment_0.left.node));
    let be1 = s1.node->Assignment_0;
    spec_assign_text(vm0, spec_assign_target(s0.node->Assignment_0.left.node), *s0.node->Assignment_0.right)
        + spec_assign_binexp_text(
        vm1,
        spec_assign_target(be1.left.node),
        be1.right.node->BinaryExpression_0.operator.node,
        *be1.right.node->BinaryExpression_0.left,
        *be1.right.node->BinaryExpression_0.right,
    )
}

/// Whether a character is a decimal digit or the minus sign.
pub open spec fn is_number_char(c: char) -> bool {
    ||| c == '0'
    ||| c == '1'
    ||| c == '2'
    ||| c == '3'
    ||| c == '4'
    ||| c == '5'
    ||| c == '6'
    ||| c == '7'
    ||| c == '8'
    ||| c == '9'
    ||| c == '-'
}

/// A rendered number is nonempty and opens with a digit or a sign, so it
/// can never look like a synthetic temporary.
proof fn lemma_dec_int_first_char(i: int)
    ensures
        spec_dec_int(i).len() >= 1,
        is_number_char(spec_dec_int(i)[0]),
{
    if i < 0 {
        lemma_dec_digits_first(-i);
    } else {
        lemma_dec_digits_first(i);
    }
}

proof fn lemma_dec_digits_first(n: int)
    ensures
        spec_dec_digits(n).len() >= 1,
        is_number_char(spec_dec_digits(n)[0]),
    decreases n,
{
    if n >= 10 {
        lemma_dec_digits_first(n / 10);
    }
}

/// A function body holding exactly one statement: a return of an integer
/// literal, with no parameters declared.
pub open spec fn lone_return_literal(fd: crate::ast::FuncDef) -> bool {
    &&& fd.parameters@.len() == 0
    &&& fd.body.instructions@.len() == 1
    &&& fd.body.instructions@[0].node matches Node::Return(re) && re matches Some(ex)
        && ex.node matches Node::Literal(LiteralValue::Int(_))
}

/// The integer such a body returns.
pub open spec fn lone_return_value(fd: crate::ast::FuncDef) -> int {
    match fd.body.instructions@[0].node {
        Node::Return(re) => match re {
            Some(ex) => match ex.node {
                Node::Literal(LiteralValue::Int(i)) => i as int,
                _ => 0,
            },
            None => 0,
        },
        _ => 0,
    }
}

/// The digit character of one digit value.
fn digit_str(d: u128) -> (r: &'static str)
    requires
        d < 10,
    ensures
        r@ == seq![spec_digit(d as int)],
{
    proof {
        reveal_strlit("0");
        reveal_strlit("1");
        reveal_strlit("2");
        reveal_strlit("3");
        reveal_strlit("4");
        reveal_strlit("5");
        reveal_strlit("6");
        reveal_strlit("7");
        reveal_strlit("8");
        reveal_strlit("9");
    }
    let r = if d == 0 {
        "0"
    } else if d == 1 {
        "1"
    } else if d == 2 {
        "2"
    } else if d == 3 {
        "3"
    } else if d == 4 {
        "4"
    } else if d == 5 {
        "5"
    } else if d == 6 {
        "6"
    } else if d == 7 {
        "7"
    } else if d == 8 {
        "8"
    } else {
        "9"
    };
    proof {
        assert(r@ =~= seq![spec_digit(d as int)]);
    }
    r
}

/// Decimal rendering of a nonnegative number.
fn u128_to_string(n: u128) -> (s: String)
    ensures
        s@ == spec_dec_digits(n as int),
    decreases n,
{
    if n < 10 {
        digit_str(n).to_owned()
    } else {
        let mut s = u128_to_string(n / 10);
        s.append(digit_str(n % 10));
        proof {
            assert(s@ =~= spec_dec_digits(n as int));
        }
        s
    }
}

/// Decimal rendering of a version counter.
fn u32_to_string(n: u32) -> (s: String)
    ensures
        s@ == spec_dec_digits(n as int),
{
    u128_to_string(n as u128)
}

/// Decimal rendering of an integer literal, sign included.
fn i128_to_string(i: i128) -> (s: String)
    ensures
        s@ == spec_dec_int(i as int),
{
    if i < 0 {
        let magnitude: u128 = ((-(i + 1)) as u128) + 1;
        let mut s = "-".to_owned();
        s.append(u128_to_string(magnitude).as_str());
        proof {
            reveal_strlit("-");
            assert(s@ =~= spec_dec_int(i as int));
        }
        s
    } else {
        u128_to_string(i as u128)
    }
}

/// Whether an emitted operand begins with the synthetic temporary prefix.
fn starts_with_tac_temp(s: &String) -> (r: bool)
    ensures
        r == spec_starts_tac(s@),
{
    proof {
        reveal_strlit("tac_temp");
    }
    let prefix = "tac_temp";
    if s.as_str().unicode_len() < 8 {
        return false;
    }
    let mut i: usize = 0;
    while i < 8
        invariant
            i <= 8,
            s@.len() >= 8,
            prefix@ == "tac_temp"@,
            prefix@.len() == 8,
            forall|j: int| 0 <= j < i ==> s@[j] == prefix@[j],
        decreases 8 - i,
    {
        if s.as_str().get_char(i) != prefix.get_char(i) {
            proof {
                assert(s@.subrange(0, 8) != "tac_temp"@) by {
                    assert(s@.subrange(0, 8)[i as int] == s@[i as int]);
                }
            }
            return false;
        }
        i += 1;
    }
    proof {
        assert(s@.subrange(0, 8) =~= "tac_temp"@);
    }
    true
}

/// The three-address mnemonic of an operator token.
fn mnemonic(op: &TokenType) -> (r: &'static str)
    ensures
        r@ == spec_mnemonic(*op),
{
    match op {
        TokenType::AdditionOperator => "add",
        TokenType::SubtractionOperator => "sub",
        TokenType::MultiplicationOperator => "mul",
        TokenType::DivisionOperator => "div",
        TokenType::ModuloOperator => "mod",
        TokenType::Equal => "equ",
        TokenType::Less => "l",
        TokenType::LessEqual => "le",
        TokenType::More => "m",
        TokenType::MoreEqual => "me",
        TokenType::And => "and",
        TokenType::Or => "or",
        TokenType::Not => "not",
        _ => "",
    }
}

/// Read the visible version of a name in one scope.
fn read_version(t: &SymbolTable, at: usize, name: &String) -> (r: u32)
    requires
        t.wf(),
        at < t.scope_count(),
    ensures
        r == spec_read_version(t.vars_at(at as int), name@),
{
    if t.has_own_var(at, name) {
        let c = t.get_var_version(at, name);
        if c == 0 {
            0
        } else {
            c - 1
        }
    } else {
        0
    }
}

/// Allocate the next version of a name in one scope: hand back the version
/// this write gets and advance the counter past it, creating the entry
/// where missing.
fn alloc_write_version(t: &mut SymbolTable, at: usize, name: &String) -> (r: u32)
    requires
        old(t).wf(),
        at < old(t).scope_count(),
    ensures
        final(t).wf(),
        table_shape_preserved(*old(t), *final(t)),
        r == cur_version(old(t).vars_at(at as int), name@),
        final(t).vars_at(at as int) == write_alloc_map(old(t).vars_at(at as int), name@),
        forall|s: int|
            0 <= s < old(t).scope_count() && s != at ==> #[trigger] old(t).scope_unchanged(
                *final(t),
                s,
            ),
    {
        broadcast use lemma_shape_refl, lemma_shape_trans_b;

        let ghost t0 = *t;
        if !t.has_own_var(at, name) {
            t.insert_var(at, name.clone());
            proof {
                crate::semantic_analyzer::lemma_shape_from_scope_op(t0, *t, at as int);
            }
        }
        let ghost t1 = *t;
        let v = t.get_var_version(at, name);
        if v < u32::MAX {
            let _ = t.consume_var_version(at, name);
            proof {
                crate::semantic_analyzer::lemma_shape_from_scope_op(t1, *t, at as int);
            }
        }
        proof {
            assert(t.vars_at(at as int) =~= write_alloc_map(t0.vars_at(at as int), name@));
            assert forall|s: int|
                0 <= s < t0.scope_count() && s != at implies #[trigger] t0.scope_unchanged(
                *t,
                s,
            ) by {
                assert(t0.scope_unchanged(t1, s) || t0 == t1);
                assert(t1.scope_unchanged(*t, s) || t1 == *t);
            }
        }
        v
    }

/// Relies on `String::push`: appends exactly one character to the string.
#[verifier::external_body]
fn push_char(s: &mut String, c: char)
    ensures
        final(s)@ == old(s)@.push(c),
{
    s.push(c);
}

/// The pieces an indented body gains after position `i` of the emitted
/// text: each character is kept, each newline with more text behind it
/// opens a freshly indented line, and a trailing newline is dropped (the
/// caller closes the block).
pub open spec fn spec_indent_tail(s: Seq<char>, i: int) -> Seq<char>
    decreases s.len() - i,
{
    if i < 0 || i >= s.len() {
        Seq::empty()
    } else {
        (if s[i] == '\n' {
            if i + 1 < s.len() {
                "\n    "@
            } else {
                Seq::<char>::empty()
            }
        } else {
            seq![s[i]]
        }) + spec_indent_tail(s, i + 1)
    }
}

/// An instruction's emitted text placed inside a function body: each line
/// indented by four spaces, closed with a newline.
pub open spec fn spec_indent(s: Seq<char>) -> Seq<char> {
    if s.len() == 0 {
        "\n"@
    } else {
        "    "@ + spec_indent_tail(s, 0) + "\n"@
    }
}

/// Indent an instruction's emitted lines by four spaces each and close
/// with a newline, for placement inside a function body.
fn indent_lines(s: &String) -> (r: String)
    ensures
        r@ == spec_indent(s@),
{
    let mut out = String::new();
    let n = s.as_str().unicode_len();
    if n == 0 {
        out.append("\n");
        return out;
    }
    out.append("    ");
    let mut i: usize = 0;
    while i < n
        invariant
            i <= n,
            n == s@.len(),
            n > 0,
            out@ + spec_indent_tail(s@, i as int) == "    "@ + spec_indent_tail(s@, 0),
        decreases n - i,
    {
        let c = s.as_str().get_char(i);
        if c == '\n' {
            if i + 1 < n {
                out.append("\n    ");
            }
        } else {
            push_char(&mut out, c);
        }
        i += 1;
        proof {
            assert(out@ + spec_indent_tail(s@, i as int) =~= "    "@ + spec_indent_tail(s@, 0));
        }
    }
    out.append("\n");
    proof {
        assert(spec_indent_tail(s@, n as int) =~= Seq::<char>::empty());
        assert(out@ =~= spec_indent(s@));
    }
    out
}

/// Lowers an analyzed syntax tree to three-address text; the constructor
/// takes the scope tree the analyzer populated, whose version counters
/// this pass consumes.
pub struct IRGenerator {
    symbol_table: SymbolTable,
    code: String,
}

impl IRGenerator {
    /// The scope tree the generator allocates versions from.
    pub closed spec fn table(self) -> SymbolTable {
        self.symbol_table
    }

    pub fn new(symbol_table: SymbolTable) -> (r: IRGenerator)
        ensures
            r.table() == symbol_table,
    {
        IRGenerator { symbol_table, code: String::new() }
    }

    /// Lower one statement against scope `at`. Lines are emitted for
    /// assignments, binary expressions, calls, returns and function
    /// definitions; constructs with no lowering yet emit nothing.
    pub fn gen_ir(symbol_table: &mut SymbolTable, at: usize, node: &AstNode<Node>) -> (code:
        String)
        requires
            old(symbol_table).wf(),
            at < old(symbol_table).scope_count(),
        ensures
            final(symbol_table).wf(),
            table_shape_preserved(*old(symbol_table), *final(symbol_table)),
            scopes_retained(*old(symbol_table), *final(symbol_table)),
            node.node matches Node::Literal(l) ==> (code@ == spec_lit_text(l)
                && *final(symbol_table) == *old(symbol_table)),
            node.node matches Node::Variable(v) ==> (code@ == spec_read_text(
                old(symbol_table).vars_at(at as int),
                v@,
            ) && *final(symbol_table) == *old(symbol_table)),
            node.node matches Node::Return(e) ==> (e is None ==> (code@ == "ret $void"@
                && *final(symbol_table) == *old(symbol_table))),
            node.node matches Node::Return(e) ==> (e matches Some(ex) ==> ((is_simple_operand(
                ex.node,
            ) && !spec_starts_tac(
                spec_operand_text(old(symbol_table).vars_at(at as int), *ex),
            )) ==> (code@ == "ret "@ + spec_operand_text(
                old(symbol_table).vars_at(at as int),
                *ex,
            ) && *final(symbol_table) == *old(symbol_table)))),
            node.node matches Node::Function(fd) ==> (old(symbol_table).find_func_scope(
                at as int,
                fd.function_name.node@,
            ) matches Some(fscope) ==> ((lone_return_literal(fd) && old(symbol_table).funcs_at(
                fscope,
            )[fd.function_name.node@].func_table < old(symbol_table).scope_count()) ==> code@
                == "@defined "@ + spec_type_name(fd.return_type.node) + " "@
                + fd.function_name.node@ + "():\n"@ + spec_indent(
                "ret "@ + spec_dec_int(lone_return_value(fd)),
            ))),
            node.node matches Node::Assignment(be) ==> ((is_assign_target(be.left.node)
                && is_simple_operand(be.right.node) && !spec_starts_tac(
                spec_operand_text(old(symbol_table).vars_at(at as int), *be.right),
            )) ==> {
                &&& code@ == spec_assign_text(
                    old(symbol_table).vars_at(at as int),
                    spec_assign_target(be.left.node),
                    *be.right,
                )
                &&& final(symbol_table).vars_at(at as int) == write_alloc_map(
                    old(symbol_table).vars_at(at as int),
                    spec_assign_target(be.left.node),
                )
            }),
            node.node matches Node::Assignment(be) ==> (be.right.node
                matches Node::BinaryExpression(in_be) ==> ((is_assign_target(be.left.node)
                && spec_assign_target(be.left.node) != "tac_temp"@ && is_simple_operand(
                in_be.left.node,
            ) && is_simple_operand(in_be.right.node) && !spec_starts_tac(
                spec_operand_text(old(symbol_table).vars_at(at as int), *in_be.left),
            ) && !spec_starts_tac(
                spec_operand_text(old(symbol_table).vars_at(at as int), *in_be.right),
            ) && cur_version(old(symbol_table).vars_at(at as int), "tac_temp"@) < u32::MAX) ==> {
                &&& code@ == spec_assign_binexp_text(
                    old(symbol_table).vars_at(at as int),
                    spec_assign_target(be.left.node),
                    in_be.operator.node,
                    *in_be.left,
                    *in_be.right,
                )
                &&& final(symbol_table).vars_at(at as int) == write_alloc_map(
                    write_alloc_map(old(symbol_table).vars_at(at as int), "tac_temp"@),
                    spec_assign_target(be.left.node),
                )
            })),
            node.node matches Node::Function(f) ==> ((f.parameters@.len() == 0
                && f.body.instructions@.len() == 0) ==> code@ == "@defined "@ + spec_type_name(
                f.return_type.node,
            ) + " "@ + f.function_name.node@ + "():\n"@),
            node.node matches Node::BinaryExpression(be) ==> ((is_simple_operand(be.left.node)
                && is_simple_operand(be.right.node) && !spec_starts_tac(
                spec_operand_text(old(symbol_table).vars_at(at as int), *be.left),
            ) && !spec_starts_tac(
                spec_operand_text(old(symbol_table).vars_at(at as int), *be.right),
            )) ==> {
                &&& code@ == spec_binexp_text(
                    old(symbol_table).vars_at(at as int),
                    be.operator.node,
                    *be.left,
                    *be.right,
                )
                &&& final(symbol_table).vars_at(at as int) == write_alloc_map(
                    old(symbol_table).vars_at(at as int),
                    "tac_temp"@,
                )
            }),
        decreases node,
    {
        broadcast use lemma_shape_refl, lemma_shape_trans_b;

        match &node.node {
            Node::Body(_) => String::new(),
            Node::Variable(v) => {
                let mut code = v.clone();
                code.append(u32_to_string(read_version(symbol_table, at, v)).as_str());
                proof {
                    assert(code@ =~= spec_read_text(old(symbol_table).vars_at(at as int), v@));
                }
                code
            },
            Node::DeclareVar(var) => {
                let mut code = var.name.node.clone();
                code.append(
                    u32_to_string(read_version(symbol_table, at, &var.name.node)).as_str(),
                );
                code
            },
            Node::Assignment(exp) => {
                let mut code = String::new();
                let right_expression = Self::gen_ir(symbol_table, at, &exp.right);
                let right: String = if starts_with_tac_temp(&right_expression) {
                    code.append(right_expression.as_str());
                    let temp_name = "tac_temp".to_owned();
                    let mut rt = "tac_temp".to_owned();
                    rt.append(
                        u32_to_string(read_version(symbol_table, at, &temp_name)).as_str(),
                    );
                    rt
                } else {
                    right_expression
                };
                match &exp.left.node {
                    Node::Variable(v) => {
                        let ver = alloc_write_version(symbol_table, at, v);
                        code.append(v.as_str());
                        code.append(u32_to_string(ver).as_str());
                        code.append(" = ");
                        code.append(right.as_str());
                        code.append("\n");
                    },
                    Node::DeclareVar(var) => {
                        let ver = alloc_write_version(symbol_table, at, &var.name.node);
                        code.append(var.name.node.as_str());
                        code.append(u32_to_string(ver).as_str());
                        code.append(" = ");
                        code.append(right.as_str());
                        code.append("\n");
                    },
                    _ => {},
                }
                proof {
                    if is_assign_target(exp.left.node) && is_simple_operand(exp.right.node)
                        && !spec_starts_tac(
                        spec_operand_text(old(symbol_table).vars_at(at as int), *exp.right),
                    ) {
                        assert(code@ =~= spec_assign_text(
                            old(symbol_table).vars_at(at as int),
                            spec_assign_target(exp.left.node),
                            *exp.right,
                        ));
                    }
                    match &exp.right.node {
                        Node::BinaryExpression(in_be) => {
                            if is_assign_target(exp.left.node) && spec_assign_target(
                                exp.left.node,
                            ) != "tac_temp"@ && is_simple_operand(in_be.left.node)
                                && is_simple_operand(in_be.right.node) && !spec_starts_tac(
                                spec_operand_text(
                                    old(symbol_table).vars_at(at as int),
                                    *in_be.left,
                                ),
                            ) && !spec_starts_tac(
                                spec_operand_text(
                                    old(symbol_table).vars_at(at as int),
                                    *in_be.right,
                                ),
                            ) && cur_version(old(symbol_table).vars_at(at as int), "tac_temp"@)
                                < u32::MAX {
                                reveal_strlit("tac_temp");
                                assert(spec_starts_tac(
                                    spec_binexp_text(
                                        old(symbol_table).vars_at(at as int),
                                        in_be.operator.node,
                                        *in_be.left,
                                        *in_be.right,
                                    ),
                                )) by {
                                    assert(spec_binexp_text(
                                        old(symbol_table).vars_at(at as int),
                                        in_be.operator.node,
                                        *in_be.left,
                                        *in_be.right,
                                    ).subrange(0, 8) =~= "tac_temp"@);
                                }
                                assert(code@ =~= spec_assign_binexp_text(
                                    old(symbol_table).vars_at(at as int),
                                    spec_assign_target(exp.left.node),
                                    in_be.operator.node,
                                    *in_be.left,
                                    *in_be.right,
                                ));
                            }
                        },
                        _ => {},
                    }
                }
                code
            },
            Node::Literal(l) => {
                match l {
                    LiteralValue::Int(i) => i128_to_string(*i),
                    LiteralValue::Float(f) => f.text.clone(),
                    LiteralValue::Str(s) => s.clone(),
                    LiteralValue::Bool(b) => {
                        if *b {
                            "true".to_owned()
                        } else {
                            "false".to_owned()
                        }
                    },
                }
            },
            Node::BinaryExpression(binexp) => {
                let mut code = String::new();
                let left_expression = Self::gen_ir(symbol_table, at, &binexp.left);
                let left: String = if starts_with_tac_temp(&left_expression) {
                    code = left_expression;
                    let temp_name = "tac_temp".to_owned();
                    let mut lt = "tac_temp".to_owned();
                    lt.append(
                        u32_to_string(read_version(symbol_table, at, &temp_name)).as_str(),
                    );
                    lt
                } else {
                    left_expression
                };
                let right_expression = Self::gen_ir(symbol_table, at, &binexp.right);
                let right: String = if starts_with_tac_temp(&right_expression) {
                    code.append(right_expression.as_str());
                    let temp_name = "tac_temp".to_owned();
                    let mut rt = "tac_temp".to_owned();
                    rt.append(
                        u32_to_string(read_version(symbol_table, at, &temp_name)).as_str(),
                    );
                    rt
                } else {
                    right_expression
                };
                let op = mnemonic(&binexp.operator.node);
                let temp_name = "tac_temp".to_owned();
                let ver = alloc_write_version(symbol_table, at, &temp_name);
                code.append("tac_temp");
                code.append(u32_to_string(ver).as_str());
                code.append(" = ");
                code.append(op);
                code.append(" ");
                code.append(left.as_str());
                code.append(", ");
                code.append(right.as_str());
                code.append("\n");
                proof {
                    if is_simple_operand(binexp.left.node) && is_simple_operand(binexp.right.node)
                        && !spec_starts_tac(
                        spec_operand_text(old(symbol_table).vars_at(at as int), *binexp.left),
                    ) && !spec_starts_tac(
                        spec_operand_text(old(symbol_table).vars_at(at as int), *binexp.right),
                    ) {
                        assert(code@ =~= spec_binexp_text(
                            old(symbol_table).vars_at(at as int),
                            binexp.operator.node,
                            *binexp.left,
                            *binexp.right,
                        ));
                    }
                }
                code
            },
            Node::Function(func) => {
                let mut code = "@defined ".to_owned();
                code.append(func.return_type.node.to_string().as_str());
                code.append(" ");
                code.append(func.function_name.node.as_str());
                code.append("(");
                let ghost header = code@;
                let mut i: usize = 0;
                while i < func.parameters.len()
                    invariant
                        symbol_table.wf(),
                        at < symbol_table.scope_count(),
                        table_shape_preserved(*old(symbol_table), *symbol_table),
                        scopes_retained(*old(symbol_table), *symbol_table),
                        func.parameters@.len() == 0 ==> code@ == header,
                    decreases func.parameters.len() - i,
                {
                    let param = &func.parameters[i];
                    code.append(param.node.var_type.node.to_string().as_str());
                    code.append(" ");
                    code.append(param.node.name.node.as_str());
                    if i + 1 < func.parameters.len() {
                        code.append(", ");
                    }
                    i += 1;
                }
                code.append("):\n");
                let ghost full_header = code@;
                let found = symbol_table.lookup_func(at, &func.function_name.node);
                match found {
                    Some((func_att, _)) => {
                        let fs = func_att.func_table;
                        if fs < symbol_table.num_scopes() {
                            let mut j: usize = 0;
                            while j < func.body.instructions.len()
                                invariant
                                    symbol_table.wf(),
                                    fs < symbol_table.scope_count(),
                                    table_shape_preserved(*old(symbol_table), *symbol_table),
                                    scopes_retained(*old(symbol_table), *symbol_table),
                                    node.node is Function,
                                    node.node->Function_0 == *func,
                                    func.body.instructions@.len() == 0 ==> code@ == full_header,
                                    lone_return_literal(*func) ==> ((j == 0 && code@
                                        == full_header) || (j == 1 && code@ == full_header
                                        + spec_indent(
                                        "ret "@ + spec_dec_int(lone_return_value(*func)),
                                    ))),
                                decreases func.body.instructions.len() - j,
                            {
                                let instruction = &func.body.instructions[j];
                                proof {
                                    vstd::std_specs::vec::axiom_vec_index_decreases(
                                        func.body.instructions,
                                        j as int,
                                    );
                                    assert(decreases_to!(*node => node.node));
                                    assert(decreases_to!(node.node => node.node->Function_0));
                                    assert(*func == node.node->Function_0);
                                    assert(decreases_to!(*func => func.body));
                                    assert(decreases_to!(func.body => func.body.instructions));
                                }
                                let instr_code = Self::gen_ir(symbol_table, fs, instruction);
                                proof {
                                    if lone_return_literal(*func) {
                                        reveal_strlit("tac_temp");
                                        match &instruction.node {
                                            Node::Return(re) => {
                                                match re {
                                                    Some(ex) => {
                                                        match &ex.node {
                                                            Node::Literal(
                                                                LiteralValue::Int(iv),
                                                            ) => {
                                                                lemma_dec_int_first_char(
                                                                    *iv as int,
                                                                );
                                                                if spec_starts_tac(
                                                                    spec_dec_int(*iv as int),
                                                                ) {
                                                                    assert(spec_dec_int(
                                                                        *iv as int,
                                                                    ).subrange(0, 8)[0]
                                                                        == "tac_temp"@[0]);
                                                                    assert(false);
                                                                }
                                                                assert(!spec_starts_tac(
                                                                    spec_operand_text(
                                                                        symbol_table.vars_at(
                                                                            fs as int,
                                                                        ),
                                                                        **ex,
                                                                    ),
                                                                ));
                                                                assert(instr_code@ =~= "ret "@
                                                                    + spec_dec_int(*iv as int));
                                                            },
                                                            _ => {},
                                                        }
                                                    },
                                                    None => {},
                                                }
                                            },
                                            _ => {},
                                        }
                                    }
                                }
                                code.append(indent_lines(&instr_code).as_str());
                                j += 1;
                            }
                        }
                    },
                    None => {},
                }
                proof {
                    if func.parameters@.len() == 0 && func.body.instructions@.len() == 0 {
                        reveal_strlit("(");
                        reveal_strlit("):\n");
                        reveal_strlit("():\n");
                        assert(("("@ + "):\n"@) =~= "():\n"@);
                        assert(code@ =~= "@defined "@ + crate::tokens::spec_type_name(
                            func.return_type.node,
                        ) + " "@ + func.function_name.node@ + "():\n"@);
                    }
                    if lone_return_literal(*func) {
                        reveal_strlit("(");
                        reveal_strlit("):\n");
                        reveal_strlit("():\n");
                        assert(("("@ + "):\n"@) =~= "():\n"@);
                        assert(full_header =~= "@defined "@ + crate::tokens::spec_type_name(
                            func.return_type.node,
                        ) + " "@ + func.function_name.node@ + "():\n"@);
                    }
                }
                code
            },
            Node::FunctionCall(fun) => {
                let mut code = String::new();
                let mut arguments: Vec<String> = Vec::new();
                let mut i: usize = 0;
                while i < fun.arguments.len()
                    invariant
                        symbol_table.wf(),
                        at < symbol_table.scope_count(),
                        table_shape_preserved(*old(symbol_table), *symbol_table),
                        scopes_retained(*old(symbol_table), *symbol_table),
                        node.node is FunctionCall,
                        node.node->FunctionCall_0 == *fun,
                    decreases fun.arguments.len() - i,
                {
                    let arg = &fun.arguments[i];
                    proof {
                        vstd::std_specs::vec::axiom_vec_index_decreases(fun.arguments, i as int);
                        assert(decreases_to!(*node => node.node));
                        assert(decreases_to!(node.node => node.node->FunctionCall_0));
                        assert(*fun == node.node->FunctionCall_0);
                        assert(decreases_to!(*fun => fun.arguments));
                    }
                    let argument_expression = Self::gen_ir(symbol_table, at, arg);
                    let argument: String = if starts_with_tac_temp(&argument_expression) {
                        code.append(argument_expression.as_str());
                        let temp_name = "tac_temp".to_owned();
                        let mut a = "tac_temp".to_owned();
                        a.append(
                            u32_to_string(read_version(symbol_table, at, &temp_name)).as_str(),
                        );
                        a
                    } else {
                        argument_expression
                    };
                    arguments.push(argument);
                    i += 1;
                }
                let temp_name = "tac_temp".to_owned();
                let ver = alloc_write_version(symbol_table, at, &temp_name);
                code.append("tac_temp");
                code.append(u32_to_string(ver).as_str());
                code.append(" = call ");
                code.append(fun.function_name.node.as_str());
                code.append(" ");
                let mut k: usize = 0;
                while k < arguments.len()
                    decreases arguments.len() - k,
                {
                    code.append(arguments[k].as_str());
                    if k + 1 < arguments.len() {
                        code.append(", ");
                    }
                    k += 1;
                }
                code.append("\n");
                code
            },
            Node::Return(exp) => {
                match exp {
                    Some(ex) => {
                        let mut code = String::new();
                        let ret_expression = Self::gen_ir(symbol_table, at, ex);
                        proof {
                            if is_simple_operand(ex.node) && !spec_starts_tac(
                                spec_operand_text(old(symbol_table).vars_at(at as int), **ex),
                            ) {
                                assert(!spec_starts_tac(ret_expression@));
                            }
                        }
                        let ret_value: String = if starts_with_tac_temp(&ret_expression) {
                            code = ret_expression;
                            let temp_name = "tac_temp".to_owned();
                            let mut rv = "tac_temp".to_owned();
                            rv.append(
                                u32_to_string(read_version(symbol_table, at, &temp_name)).as_str(),
                            );
                            rv
                        } else {
                            ret_expression
                        };
                        code.append("ret ");
                        code.append(ret_value.as_str());
                        proof {
                            if is_simple_operand(ex.node) && !spec_starts_tac(
                                spec_operand_text(old(symbol_table).vars_at(at as int), **ex),
                            ) {
                                assert(code@ =~= "ret "@ + spec_operand_text(
                                    old(symbol_table).vars_at(at as int),
                                    **ex,
                                ));
                            }
                        }
                        code
                    },
                    None => "ret $void".to_owned(),
                }
            },
            Node::MethodCall(_) => String::new(),
            Node::Import(_) => String::new(),
            Node::Conditional(_) => String::new(),
            Node::For(_) => String::new(),
            Node::While(_) => String::new(),
            Node::BooleanNot(_) => String::new(),
            Node::Tuple(_) => String::new(),
            Node::Range(_) => String::new(),
            Node::ParserError(_) => String::new(),
        }
    }

    /// Lower a whole analyzed program against the root scope: the
    /// concatenation of each top-level statement's emitted text.
    pub fn get_intermediate_representation(&mut self, ast: &Body) -> (r: String)
        requires
            old(self).table().wf(),
            old(self).table().scope_count() >= 1,
        ensures
            final(self).table().wf(),
            table_shape_preserved(old(self).table(), final(self).table()),
            scopes_retained(old(self).table(), final(self).table()),
            ast.instructions@.len() == 0 ==> r@ == Seq::<char>::empty(),
            (ast.instructions@.len() == 1 && lone_simple_assignment(
                old(self).table().vars_at(0),
                ast.instructions@[0],
            )) ==> r@ == spec_assign_text(
                old(self).table().vars_at(0),
                spec_assign_target(ast.instructions@[0].node->Assignment_0.left.node),
                *ast.instructions@[0].node->Assignment_0.right,
            ),
            two_statement_numbering_shape(old(self).table().vars_at(0), *ast) ==> r@
                == two_statement_numbering_text(old(self).table().vars_at(0), *ast),
    {
        broadcast use lemma_shape_refl, lemma_shape_trans_b;

        let mut ir_code = String::new();
        let mut i: usize = 0;
        while i < ast.instructions.len()
            invariant
                self.table().wf(),
                self.table().scope_count() >= 1,
                table_shape_preserved(old(self).table(), self.table()),
                scopes_retained(old(self).table(), self.table()),
                ast.instructions@.len() == 0 ==> ir_code@ == Seq::<char>::empty(),
                i <= ast.instructions@.len(),
                (ast.instructions@.len() == 1 && lone_simple_assignment(
                    old(self).table().vars_at(0),
                    ast.instructions@[0],
                )) ==> {
                    &&& (i == 0 ==> ir_code@ == Seq::<char>::empty() && self.table() == old(
                        self,
                    ).table())
                    &&& (i >= 1 ==> ir_code@ == spec_assign_text(
                        old(self).table().vars_at(0),
                        spec_assign_target(ast.instructions@[0].node->Assignment_0.left.node),
                        *ast.instructions@[0].node->Assignment_0.right,
                    ))
                },
                two_statement_numbering_shape(old(self).table().vars_at(0), *ast) ==> {
                    &&& (i == 0 ==> ir_code@ == Seq::<char>::empty() && self.table() == old(
                        self,
                    ).table())
                    &&& (i == 1 ==> ir_code@ == spec_assign_text(
                        old(self).table().vars_at(0),
                        spec_assign_target(ast.instructions@[0].node->Assignment_0.left.node),
                        *ast.instructions@[0].node->Assignment_0.right,
                    ) && self.table().vars_at(0) == write_alloc_map(
                        old(self).table().vars_at(0),
                        spec_assign_target(ast.instructions@[0].node->Assignment_0.left.node),
                    ))
                    &&& (i >= 2 ==> ir_code@ == two_statement_numbering_text(
                        old(self).table().vars_at(0),
                        *ast,
                    ))
                },
            decreases ast.instructions.len() - i,
        {
            let instruction = &ast.instructions[i];
            let part = Self::gen_ir(&mut self.symbol_table, 0, instruction);
            ir_code.append(part.as_str());
            proof {
                if ast.instructions@.len() == 1 && lone_simple_assignment(
                    old(self).table().vars_at(0),
                    ast.instructions@[0],
                ) {
                    assert(ir_code@ =~= part@);
                }
                if two_statement_numbering_shape(old(self).table().vars_at(0), *ast) {
                    if i == 0 {
                        assert(ir_code@ =~= part@);
                    }
                    if i == 1 {
                        assert(ir_code@ =~= two_statement_numbering_text(
                            old(self).table().vars_at(0),
                            *ast,
                        ));
                    }
                }
            }
            i += 1;
        }
        ir_code
    }
}

} // verus!
