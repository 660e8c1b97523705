//! The semantic analyzer: a single pre-order walk that populates and
//! queries the symbol table, infers expression types, enforces the scope
//! and coercion rules, and accumulates diagnostics without ever aborting.

use vstd::prelude::*;
use crate::ast::{AstNode, Body, LiteralValue, Node};
use crate::errors::{appended_with, pushed_diag, CompilerError, ErrorPipeline, ErrorType};
use crate::symbol_table::{
    lemma_find_var_scope_congruence, scopes_retained, Scope, SymbolTable, VarModel,
};
use crate::tokens::{spec_type_name, DataType, TokenType};

verus! {

broadcast use {crate::errors::lemma_appended_refl, crate::errors::lemma_appended_trans, crate::errors::lemma_pushed_diag_appended, crate::symbol_table::lemma_retained_refl, crate::symbol_table::lemma_retained_trans};

/// The type the analyzer assigns an integer literal: the smallest signed
/// width containing the value, none beyond the 64-bit range.
pub open spec fn spec_get_int_type(value: int) -> Option<DataType> {
    if -128 <= value <= 127 {
        Some(DataType::I8)
    } else if -32768 <= value <= 32767 {
        Some(DataType::I16)
    } else if -2147483648 <= value <= 2147483647 {
        Some(DataType::I32)
    } else if -9223372036854775808 <= value <= 9223372036854775807 {
        Some(DataType::I64)
    } else {
        None
    }
}

/// The type the analyzer assigns a float literal: the narrowest floating
/// width whose range contains the value, none where even the wide one does
/// not.
pub open spec fn spec_get_float_type(f: crate::tokens::FloatLit) -> Option<DataType> {
    if f.fits32 {
        Some(DataType::F32)
    } else if f.fits64 {
        Some(DataType::F64)
    } else {
        None
    }
}

/// The widening lattice: whether a value of `from` silently widens to
/// `to`. Unsigned and signed integers widen within their own chain, the
/// narrow float widens to the wide one, a boolean widens to any integer
/// width, and a character widens to the two wide signed widths.
pub open spec fn spec_castable(from: DataType, to: DataType) -> bool {
    match from {
        DataType::Void => false,
        DataType::Char => to is I32 || to is I64,
        DataType::Str(_) => false,
        DataType::Array(_) => false,
        DataType::Boolean => {
            ||| to is U8
            ||| to is U16
            ||| to is U32
            ||| to is U64
            ||| to is I8
            ||| to is I16
            ||| to is I32
            ||| to is I64
        },
        DataType::U8 => to is U16 || to is U32 || to is U64,
        DataType::U16 => to is U32 || to is U64,
        DataType::U32 => to is U64,
        DataType::U64 => false,
        DataType::I8 => to is I16 || to is I32 || to is I64,
        DataType::I16 => to is I32 || to is I64,
        DataType::I32 => to is I64,
        DataType::I64 => false,
        DataType::F32 => to is F64,
        DataType::F64 => false,
    }
}

/// The common type two operand types coerce to: the wider of the two where
/// either widens to the other, preferring to widen the first into the
/// second.
pub open spec fn spec_coercion(first: DataType, second: DataType) -> Option<DataType> {
    if spec_castable(first, second) {
        Some(second)
    } else if spec_castable(second, first) {
        Some(first)
    } else {
        None
    }
}

/// Whether a token is one of the binary operators the analyzer validates.
pub open spec fn spec_is_binop(op: TokenType) -> bool {
    ||| op is AdditionOperator
    ||| op is SubtractionOperator
    ||| op is MultiplicationOperator
    ||| op is DivisionOperator
    ||| op is ModuloOperator
    ||| op is Equal
    ||| op is Less
    ||| op is LessEqual
    ||| op is More
    ||| op is MoreEqual
    ||| op is And
    ||| op is Or
}

/// What an operator yields on a coerced operand type: arithmetic rejects
/// arrays, booleans and characters (and strings, except `+`) and
/// propagates the operand type; comparisons reject the same and strings
/// and yield boolean; equality rejects only arrays and yields boolean; the
/// logical operators demand boolean operands.
pub open spec fn spec_operator_result(op: TokenType, t: DataType) -> Option<DataType> {
    match op {
        TokenType::AdditionOperator => if t is Array || t is Boolean || t is Char {
            None
        } else {
            Some(t)
        },
        TokenType::SubtractionOperator | TokenType::MultiplicationOperator
            | TokenType::DivisionOperator | TokenType::ModuloOperator => if t is Array || t
            is Boolean || t is Char || t is Str {
            None
        } else {
            Some(t)
        },
        TokenType::Equal => if t is Array {
            None
        } else {
            Some(DataType::Boolean)
        },
        TokenType::Less | TokenType::LessEqual | TokenType::More | TokenType::MoreEqual => if t
            is Array || t is Boolean || t is Char || t is Str {
            None
        } else {
            Some(DataType::Boolean)
        },
        TokenType::And | TokenType::Or => if t is Boolean {
            Some(t)
        } else {
            None
        },
        _ => None,
    }
}

/// The diagnostic text an operator rejection carries, word for word.
pub open spec fn spec_operator_reject_message(op: TokenType, t: DataType) -> Seq<char> {
    match op {
        TokenType::AdditionOperator => match t {
            DataType::Array(_) => "operator '+' cannot be used on Array"@,
            DataType::Boolean => "operator '+' cannot be used on bool type"@,
            DataType::Char => "operator '+' cannot be used on char type, consider making it a str type"@,
            _ => ""@,
        },
        TokenType::SubtractionOperator => match t {
            DataType::Array(_) => "operator '-' cannot be used on Array"@,
            DataType::Boolean => "operator '-' cannot be used on bool type"@,
            DataType::Char => "operator '-' cannot be used on char type"@,
            DataType::Str(_) => "operator '-' cannot be used on str type"@,
            _ => ""@,
        },
        TokenType::MultiplicationOperator => match t {
            DataType::Array(_) => "operator '*' cannot be used on Array"@,
            DataType::Boolean => "operator '*' cannot be used on bool type"@,
            DataType::Char => "operator '*' cannot be used on char type"@,
            DataType::Str(_) => "operator '*' cannot be used on str type"@,
            _ => ""@,
        },
        TokenType::DivisionOperator => match t {
            DataType::Array(_) => "operator '/' cannot be used on Array"@,
            DataType::Boolean => "operator '/' cannot be used on bool type"@,
            DataType::Char => "operator '/' cannot be used on char type"@,
            DataType::Str(_) => "operator '/' cannot be used on str type"@,
            _ => ""@,
        },
        TokenType::ModuloOperator => match t {
            DataType::Array(_) => "operator '%' cannot be used on Array"@,
            DataType::Boolean => "operator '%' cannot be used on bool type"@,
            DataType::Char => "operator '%' cannot be used on char type"@,
            DataType::Str(_) => "operator '%' cannot be used on str type"@,
            _ => ""@,
        },
        TokenType::Equal => match t {
            DataType::Array(_) => "operator '==' cannot be used on Array"@,
            _ => ""@,
        },
        TokenType::Less => match t {
            DataType::Array(_) => "operator '<' cannot be used on Array"@,
            DataType::Boolean => "operator '<' cannot be used on bool type"@,
            DataType::Char => "operator '<' cannot be used on char type"@,
            DataType::Str(_) => "operator '<' cannot be used on str type"@,
            _ => ""@,
        },
        TokenType::LessEqual => match t {
            DataType::Array(_) => "operator '<=' cannot be used on Array"@,
            DataType::Boolean => "operator '<=' cannot be used on bool type"@,
            DataType::Char => "operator '<=' cannot be used on char type"@,
            DataType::Str(_) => "operator '<=' cannot be used on str type"@,
            _ => ""@,
        },
        TokenType::More => match t {
            DataType::Array(_) => "operator '>' cannot be used on Array"@,
            DataType::Boolean => "operator '>' cannot be used on bool type"@,
            DataType::Char => "operator '>' cannot be used on char type"@,
            DataType::Str(_) => "operator '>' cannot be used on str type"@,
            _ => ""@,
        },
        TokenType::MoreEqual => match t {
            DataType::Array(_) => "operator '>=' cannot be used on Array"@,
            DataType::Boolean => "operator '>=' cannot be used on bool type"@,
            DataType::Char => "operator '>=' cannot be used on char type"@,
            DataType::Str(_) => "operator '>=' cannot be used on str type"@,
            _ => ""@,
        },
        TokenType::And => "operator '&&' can only be used on boolean expression"@,
        TokenType::Or => "operator '||' can only be used on boolean expression"@,
        _ => ""@,
    }
}

/// The type of a binary expression over already-typed operands: the
/// operator must accept each operand's own type (so arithmetic over a
/// boolean or character operand is rejected outright, whatever the other
/// operand), then equal types stand, unequal ones must coerce, and the
/// operator validates the coerced type; see [`spec_operator_result`].
pub open spec fn spec_binop_result(op: TokenType, lt: DataType, rt: DataType) -> Option<
    DataType,
> {
    if spec_operator_result(op, lt) is None {
        None
    } else if spec_operator_result(op, rt) is None {
        None
    } else {
        let coerced = if lt == rt {
            Some(lt)
        } else {
            spec_coercion(lt, rt)
        };
        match coerced {
            Some(t) => spec_operator_result(op, t),
            None => None,
        }
    }
}

/// Build a message from three pieces.
fn msg3(p1: &str, m1: &str, p2: &str) -> (r: String)
    ensures
        r@ == p1@ + m1@ + p2@,
{
    let mut s = p1.to_owned();
    s.append(m1);
    s.append(p2);
    s
}

/// Build a message from five pieces.
fn msg5(p1: &str, m1: &str, p2: &str, m2: &str, p3: &str) -> (r: String)
    ensures
        r@ == p1@ + m1@ + p2@ + m2@ + p3@,
{
    let mut s = p1.to_owned();
    s.append(m1);
    s.append(p2);
    s.append(m2);
    s.append(p3);
    s
}

/// Build a message from seven pieces.
fn msg7(p1: &str, m1: &str, p2: &str, m2: &str, p3: &str, m3: &str, p4: &str) -> (r: String)
    ensures
        r@ == p1@ + m1@ + p2@ + m2@ + p3@ + m3@ + p4@,
{
    let mut s = p1.to_owned();
    s.append(m1);
    s.append(p2);
    s.append(m2);
    s.append(p3);
    s.append(m3);
    s.append(p4);
    s
}

/// One allowed (left type, right type, operator) combination.
pub struct Operation {
    pub left: DataType,
    pub right: DataType,
    pub operation: TokenType,
}

impl Operation {
    pub fn new(left: DataType, right: DataType, operator: TokenType) -> (r: Operation)
        ensures
            r.left == left,
            r.right == right,
            crate::tokens::tt_like(r.operation, operator),
    {
        Operation { left, right, operation: operator }
    }
}

/// An explicit allow-list of operand/operator combinations.
pub struct OperationValidator {
    allow_list: Vec<Operation>,
}

impl OperationValidator {
    /// The recorded combinations.
    pub closed spec fn rules(self) -> Seq<Operation> {
        self.allow_list@
    }

    pub fn new() -> (r: OperationValidator)
        ensures
            r.rules() == Seq::<Operation>::empty(),
    {
        OperationValidator { allow_list: Vec::new() }
    }

    /// Record one allowed combination.
    pub fn add_allow(&mut self, left: DataType, right: DataType, operator: TokenType)
        ensures
            final(self).rules().len() == old(self).rules().len() + 1,
            final(self).rules().subrange(0, old(self).rules().len() as int) == old(self).rules(),
            final(self).rules().last().left == left,
            final(self).rules().last().right == right,
            crate::tokens::tt_like(final(self).rules().last().operation, operator),
    {
        self.allow_list.push(Operation::new(left, right, operator));
        proof {
            assert(self.allow_list@.subrange(0, old(self).allow_list@.len() as int)
                =~= old(self).allow_list@);
        }
    }

    /// Whether the combination is on the allow-list.
    pub fn validate(&self, left: DataType, right: DataType, operator: TokenType) -> (r: bool)
        ensures
            r == exists|i: int|
                0 <= i < self.rules().len() && {
                    let rule = #[trigger] self.rules()[i];
                    &&& crate::tokens::tt_like(rule.operation, operator)
                    &&& rule.left == left
                    &&& rule.right == right
                },
    {
        let mut i: usize = 0;
        while i < self.allow_list.len()
            invariant
                i <= self.allow_list@.len(),
                forall|j: int|
                    0 <= j < i ==> !{
                        let rule = #[trigger] self.allow_list@[j];
                        &&& crate::tokens::tt_like(rule.operation, operator)
                        &&& rule.left == left
                        &&& rule.right == right
                    },
            decreases self.allow_list@.len() - i,
        {
            let rule = &self.allow_list[i];
            if rule.operation == operator && rule.left == left && rule.right == right {
                return true;
            }
            i += 1;
        }
        false
    }
}

/// The analyzer's state: the scope tree it populates and the operation
/// allow-list.
pub struct SemanticAnalyzer {
    symbol_table: SymbolTable,
    operation_validator: OperationValidator,
}

impl SemanticAnalyzer {
    /// The scope tree as populated so far.
    pub closed spec fn table(self) -> SymbolTable {
        self.symbol_table
    }

    /// A fresh analyzer over an empty global scope.
    pub fn new() -> (r: SemanticAnalyzer)
        ensures
            r.table().wf(),
            r.table().scope_count() == 1,
            r.table().scope_at(0) is Global,
            r.table().vars_at(0) == Map::<Seq<char>, VarModel>::empty(),
            r.table().funcs_at(0) == Map::<Seq<char>, crate::symbol_table::FuncModel>::empty(),
    {
        let symbol_table = SymbolTable::new(Scope::Global);
        SemanticAnalyzer { symbol_table, operation_validator: OperationValidator::new() }
    }

    /// Hand the populated scope tree over, for IR generation or
    /// inspection.
    pub fn into_symbol_table(self) -> (r: SymbolTable)
        ensures
            r == self.table(),
    {
        self.symbol_table
    }

    /// The smallest signed width containing the value, none beyond the
    /// 64-bit range.
    pub fn get_int_type(value: i128) -> (r: Option<DataType>)
        ensures
            r == spec_get_int_type(value as int),
    {
        if value <= i8::MAX as i128 && value >= i8::MIN as i128 {
            Some(DataType::I8)
        } else if value <= i16::MAX as i128 && value >= i16::MIN as i128 {
            Some(DataType::I16)
        } else if value <= i32::MAX as i128 && value >= i32::MIN as i128 {
            Some(DataType::I32)
        } else if value <= i64::MAX as i128 && value >= i64::MIN as i128 {
            Some(DataType::I64)
        } else {
            None
        }
    }

    /// The narrowest floating width whose range holds the literal.
    pub fn get_float_type(float: &crate::tokens::FloatLit) -> (r: Option<DataType>)
        ensures
            r == spec_get_float_type(*float),
    {
        if float.fits32 {
            Some(DataType::F32)
        } else if float.fits64 {
            Some(DataType::F64)
        } else {
            None
        }
    }

    /// Whether `original_type` silently widens to `target_type`; see
    /// [`spec_castable`].
    pub fn type_castable(original_type: &DataType, target_type: &DataType) -> (r: bool)
        ensures
            r == spec_castable(*original_type, *target_type),
    {
        match original_type {
            DataType::Void => false,
            DataType::Char => {
                matches!(target_type, DataType::I32) || matches!(target_type, DataType::I64)
            },
            DataType::Str(_) => false,
            DataType::Array(_) => false,
            DataType::Boolean => {
                match target_type {
                    DataType::U8 | DataType::U16 | DataType::U32 | DataType::U64 | DataType::I8
                        | DataType::I16 | DataType::I32 | DataType::I64 => true,
                    _ => false,
                }
            },
            DataType::U8 => {
                match target_type {
                    DataType::U16 | DataType::U32 | DataType::U64 => true,
                    _ => false,
                }
            },
            DataType::U16 => {
                match target_type {
                    DataType::U32 | DataType::U64 => true,
                    _ => false,
                }
            },
            DataType::U32 => matches!(target_type, DataType::U64),
            DataType::U64 => false,
            DataType::I8 => {
                match target_type {
                    DataType::I16 | DataType::I32 | DataType::I64 => true,
                    _ => false,
                }
            },
            DataType::I16 => {
                match target_type {
                    DataType::I32 | DataType::I64 => true,
                    _ => false,
                }
            },
            DataType::I32 => matches!(target_type, DataType::I64),
            DataType::I64 => false,
            DataType::F32 => matches!(target_type, DataType::F64),
            DataType::F64 => false,
        }
    }

    /// The common type two operand types coerce to; see [`spec_coercion`].
    pub fn type_coercion(&self, first_type: &DataType, second_type: &DataType) -> (r: Option<
        DataType,
    >)
        ensures
            r == spec_coercion(*first_type, *second_type),
    {
        if Self::type_castable(first_type, second_type) {
            return Some(second_type.clone());
        }
        if Self::type_castable(second_type, first_type) {
            return Some(first_type.clone());
        }
        None
    }
}

/// The type the analyzer assigns a string literal: a string type tagged
/// with the literal's character count (wrapped into the tag's width).
pub open spec fn spec_str_lit_type(s: Seq<char>) -> DataType {
    DataType::Str((s.len() % 4294967296) as u32)
}

/// A leaf operand: a literal or a bare variable reference.
pub open spec fn is_simple_operand(node: Node) -> bool {
    node is Literal || node is Variable
}

/// The diagnostic span the analyzer uses for an identifier: its character
/// count, clamped at the counter's top.
pub open spec fn spec_name_len32(s: Seq<char>) -> u32 {
    if s.len() <= u32::MAX {
        s.len() as u32
    } else {
        u32::MAX
    }
}

/// The type a leaf operand evaluates to under a given scope tree: a
/// literal by its value, a variable by the nearest binding, with a
/// reference on a line before the recorded declaration line (or a binding
/// without a recorded declaration line or type) yielding nothing.
pub open spec fn spec_simple_operand_type(t: SymbolTable, at: int, n: AstNode<Node>) -> Option<
    DataType,
> {
    match n.node {
        Node::Literal(lit) => match lit {
            LiteralValue::Int(i) => spec_get_int_type(i as int),
            LiteralValue::Float(f) => spec_get_float_type(f),
            LiteralValue::Str(s) => Some(spec_str_lit_type(s@)),
            LiteralValue::Bool(_) => Some(DataType::Boolean),
        },
        Node::Variable(v) => match t.find_var_scope(at, v@) {
            Some(f) => {
                let m = t.vars_at(f)[v@];
                match m.line_declare {
                    Some(ld) => if n.pos.0 < ld {
                        None
                    } else {
                        m.data_type
                    },
                    None => None,
                }
            },
            None => None,
        },
        _ => None,
    }
}

/// `b` is `a` with one referencing line recorded against the binding of
/// `name` in scope `f`, and nothing else changed.
pub open spec fn var_ref_recorded(
    a: SymbolTable,
    b: SymbolTable,
    f: int,
    name: Seq<char>,
    line: u32,
) -> bool {
    &&& b.wf()
    &&& b.scope_count() == a.scope_count()
    &&& forall|s: int|
        0 <= s < a.scope_count() && s != f ==> #[trigger] a.scope_unchanged(b, s)
    &&& b.scope_at(f) == a.scope_at(f)
    &&& b.parent_of(f) == a.parent_of(f)
    &&& b.inner_at(f) == a.inner_at(f)
    &&& b.funcs_at(f) == a.funcs_at(f)
    &&& b.vars_at(f) == a.vars_at(f).insert(
        name,
        (VarModel { line_ref: a.vars_at(f)[name].line_ref.push(line), ..a.vars_at(f)[name] }),
    )
}

/// The scopes' identities, parents, child lists and function tables are
/// the same in `a` and `b`; only variable attributes may differ.
pub open spec fn table_shape_preserved(a: SymbolTable, b: SymbolTable) -> bool {
    &&& b.wf()
    &&& b.scope_count() == a.scope_count()
    &&& forall|s: int|
        0 <= s < a.scope_count() ==> #[trigger] b.scope_at(s) == a.scope_at(s) && b.parent_of(s)
            == a.parent_of(s) && b.inner_at(s) == a.inner_at(s) && b.funcs_at(s) == a.funcs_at(s)
}

/// The function tables of the scopes of `a`, apart from scope `k`, are
/// the same in `b`.
pub open spec fn funcs_preserved_except(a: SymbolTable, b: SymbolTable, k: int) -> bool {
    forall|s: int|
        0 <= s < a.scope_count() && s != k ==> #[trigger] b.funcs_at(s) == a.funcs_at(s)
}

/// Two steps that spare the function tables compose, where the second
/// step's exception is the same scope or one created after `a`.
proof fn lemma_funcs_chain(a: SymbolTable, b: SymbolTable, c: SymbolTable, k: int, k2: int)
    requires
        funcs_preserved_except(a, b, k),
        funcs_preserved_except(b, c, k2),
        a.scope_count() <= b.scope_count(),
        k2 >= a.scope_count() || k2 == k || k2 < 0,
    ensures
        funcs_preserved_except(a, c, k),
{
    assert forall|s: int|
        0 <= s < a.scope_count() && s != k implies #[trigger] c.funcs_at(s) == a.funcs_at(s) by {
        assert(b.funcs_at(s) == a.funcs_at(s));
        assert(c.funcs_at(s) == b.funcs_at(s));
    }
}

/// A change that touches one scope's tables spares every other scope's
/// function table.
proof fn lemma_funcs_from_scope_op(a: SymbolTable, b: SymbolTable, k: int)
    requires
        a.scope_count() <= b.scope_count(),
        forall|s: int|
            0 <= s < a.scope_count() && s != k ==> #[trigger] a.scope_unchanged(b, s),
    ensures
        funcs_preserved_except(a, b, k),
{
    assert forall|s: int|
        0 <= s < a.scope_count() && s != k implies #[trigger] b.funcs_at(s) == a.funcs_at(s) by {
        assert(a.scope_unchanged(b, s));
    }
}

/// A change that touches one scope's variable table alone spares every
/// function table; a negative exception index makes the claim total.
proof fn lemma_funcs_from_var_op(a: SymbolTable, b: SymbolTable, k_op: int)
    requires
        a.scope_count() <= b.scope_count(),
        forall|s: int|
            0 <= s < a.scope_count() && s != k_op ==> #[trigger] a.scope_unchanged(b, s),
        b.funcs_at(k_op) == a.funcs_at(k_op),
    ensures
        funcs_preserved_except(a, b, -1),
{
    assert forall|s: int|
        0 <= s < a.scope_count() && s != -1 implies #[trigger] b.funcs_at(s) == a.funcs_at(s) by {
        if s != k_op {
            assert(a.scope_unchanged(b, s));
        }
    }
}

/// A step that spares every function table spares them apart from any
/// chosen scope.
proof fn lemma_funcs_weaken(a: SymbolTable, b: SymbolTable, k: int)
    requires
        funcs_preserved_except(a, b, -1),
    ensures
        funcs_preserved_except(a, b, k),
{
    assert forall|s: int|
        0 <= s < a.scope_count() && s != k implies #[trigger] b.funcs_at(s) == a.funcs_at(s) by {
        assert(b.funcs_at(s) == a.funcs_at(s));
    }
}

/// A shape-preserving step spares every function table.
proof fn lemma_funcs_from_shape(a: SymbolTable, b: SymbolTable, k: int)
    requires
        table_shape_preserved(a, b),
    ensures
        funcs_preserved_except(a, b, k),
{
    assert forall|s: int|
        0 <= s < a.scope_count() && s != k implies #[trigger] b.funcs_at(s) == a.funcs_at(s) by {
        assert(b.scope_at(s) == a.scope_at(s) && b.funcs_at(s) == a.funcs_at(s));
    }
}

proof fn lemma_shape_trans(a: SymbolTable, b: SymbolTable, c: SymbolTable)
    requires
        table_shape_preserved(a, b),
        table_shape_preserved(b, c),
    ensures
        table_shape_preserved(a, c),
{
    assert forall|s: int|
        0 <= s < a.scope_count() implies #[trigger] c.scope_at(s) == a.scope_at(s) && c.parent_of(
        s,
    ) == a.parent_of(s) && c.inner_at(s) == a.inner_at(s) && c.funcs_at(s) == a.funcs_at(s) by {
        assert(b.scope_at(s) == a.scope_at(s) && b.parent_of(s) == a.parent_of(s) && b.inner_at(s)
            == a.inner_at(s) && b.funcs_at(s) == a.funcs_at(s));
    }
}

/// Recording a reference line moves neither a binding nor a type: every
/// leaf operand evaluates the same before and after.
proof fn lemma_simple_type_stable(
    a: SymbolTable,
    b: SymbolTable,
    f: int,
    name: Seq<char>,
    line: u32,
    at: int,
    n: AstNode<Node>,
)
    requires
        a.wf(),
        var_ref_recorded(a, b, f, name, line),
        0 <= at < a.scope_count(),
        0 <= f < a.scope_count(),
        a.vars_at(f).contains_key(name),
    ensures
        spec_simple_operand_type(b, at, n) == spec_simple_operand_type(a, at, n),
        table_shape_preserved(a, b),
{
    assert(b.vars_at(f).dom() =~= a.vars_at(f).dom());
    assert forall|s: int|
        0 <= s < a.scope_count() implies #[trigger] b.scope_at(s) == a.scope_at(s) && b.parent_of(
        s,
    ) == a.parent_of(s) && b.vars_at(s).dom() == a.vars_at(s).dom() by {
        if s != f {
            assert(a.scope_unchanged(b, s));
        }
    }
    assert(table_shape_preserved(a, b)) by {
        assert forall|s: int|
            0 <= s < a.scope_count() implies #[trigger] b.scope_at(s) == a.scope_at(s)
                && b.parent_of(s) == a.parent_of(s) && b.inner_at(s) == a.inner_at(s)
                && b.funcs_at(s) == a.funcs_at(s) by {
            if s != f {
                assert(a.scope_unchanged(b, s));
            }
        }
    }
    match n.node {
        Node::Variable(w) => {
            lemma_find_var_scope_congruence(a, b, at, w@);
            crate::symbol_table::lemma_lookup_resolves_on_chain(a, at, w@);
            match a.find_var_scope(at, w@) {
                Some(g) => {
                    if g == f && w@ == name {
                        assert(b.vars_at(g)[w@].line_declare == a.vars_at(g)[w@].line_declare);
                        assert(b.vars_at(g)[w@].data_type == a.vars_at(g)[w@].data_type);
                    } else if g == f {
                        assert(b.vars_at(g)[w@] == a.vars_at(g)[w@]);
                    } else {
                        assert(a.scope_unchanged(b, g));
                    }
                },
                None => {},
            }
        },
        _ => {},
    }
}

/// What checking a bare variable reference does: resolve the nearest
/// binding; an unresolved name or a reference on a line before the
/// declaration line is a diagnostic, a resolved one records the
/// referencing line and yields the declared type.
pub open spec fn spec_variable_check(
    t0: SymbolTable,
    t1: SymbolTable,
    at: int,
    pos: (u32, u32),
    v: Seq<char>,
    r: Option<DataType>,
    p0: Seq<CompilerError>,
    p1: Seq<CompilerError>,
) -> bool {
    match t0.find_var_scope(at, v) {
        Some(f) => {
            let m = t0.vars_at(f)[v];
            match m.line_declare {
                Some(ld) => {
                    &&& var_ref_recorded(t0, t1, f, v, pos.0)
                    &&& if pos.0 < ld {
                        r is None && pushed_diag(
                            p0,
                            p1,
                            ErrorType::SemanticError,
                            "use of undeclared variable '"@ + v + "'"@,
                            pos,
                            spec_name_len32(v),
                        )
                    } else {
                        r == m.data_type && p1 == p0
                    }
                },
                None => r is None && t1 == t0 && p1 == p0,
            }
        },
        None => r is None && t1 == t0 && pushed_diag(
            p0,
            p1,
            ErrorType::SemanticError,
            "use of undeclared variable '"@ + v + "'"@,
            pos,
            spec_name_len32(v),
        ),
    }
}

/// The type a literal carries: the narrowest width holding a numeric
/// value, the tagged string type, or boolean.
pub open spec fn spec_literal_type(lit: LiteralValue) -> Option<DataType> {
    match lit {
        LiteralValue::Int(i) => spec_get_int_type(i as int),
        LiteralValue::Float(f) => spec_get_float_type(f),
        LiteralValue::Str(s) => Some(spec_str_lit_type(s@)),
        LiteralValue::Bool(_) => Some(DataType::Boolean),
    }
}

/// What checking a literal does: the literal's type, with an
/// out-of-range numeric literal reported as too large.
pub open spec fn spec_literal_check(
    lit: LiteralValue,
    pos: (u32, u32),
    length: u32,
    r: Option<DataType>,
    p0: Seq<CompilerError>,
    p1: Seq<CompilerError>,
) -> bool {
    let ty = spec_literal_type(lit);
    match ty {
        Some(t) => r == Some(t) && p1 == p0,
        None => r is None && pushed_diag(
            p0,
            p1,
            ErrorType::SemanticError,
            "value is too large"@,
            pos,
            length,
        ),
    }
}

/// What checking a call does: resolve the callee by name and take its
/// declared return type; an unresolved callee is a diagnostic. Argument
/// arity and types are not checked.
pub open spec fn spec_call_check(
    t: SymbolTable,
    at: int,
    name: Seq<char>,
    name_pos: (u32, u32),
    name_length: u32,
    r: Option<DataType>,
    p0: Seq<CompilerError>,
    p1: Seq<CompilerError>,
) -> bool {
    match t.find_func_scope(at, name) {
        Some(f) => r == Some(t.funcs_at(f)[name].return_type) && p1 == p0,
        None => r is None && pushed_diag(
            p0,
            p1,
            ErrorType::SemanticError,
            "use of undeclared function '"@ + name + "'"@,
            name_pos,
            name_length,
        ),
    }
}

/// An unchanged well-formed table keeps its shape.
pub broadcast proof fn lemma_shape_refl(a: SymbolTable)
    ensures
        a.wf() ==> #[trigger] table_shape_preserved(a, a),
{
}

/// Shape preservation composes.
pub broadcast proof fn lemma_shape_trans_b(a: SymbolTable, b: SymbolTable, c: SymbolTable)
    requires
        table_shape_preserved(a, b),
        table_shape_preserved(b, c),
    ensures
        #![trigger table_shape_preserved(a, b), table_shape_preserved(b, c)]
        table_shape_preserved(a, c),
{
    lemma_shape_trans(a, b, c);
}

/// A change that touches only one scope's variable table keeps the shape.
pub proof fn lemma_shape_from_scope_op(a: SymbolTable, b: SymbolTable, at: int)
    requires
        b.wf(),
        b.scope_count() == a.scope_count(),
        0 <= at < a.scope_count(),
        forall|s: int|
            0 <= s < a.scope_count() && s != at ==> #[trigger] a.scope_unchanged(b, s),
        b.scope_at(at) == a.scope_at(at),
        b.parent_of(at) == a.parent_of(at),
        b.inner_at(at) == a.inner_at(at),
        b.funcs_at(at) == a.funcs_at(at),
    ensures
        table_shape_preserved(a, b),
{
    assert forall|s: int|
        0 <= s < a.scope_count() implies #[trigger] b.scope_at(s) == a.scope_at(s) && b.parent_of(
        s,
    ) == a.parent_of(s) && b.inner_at(s) == a.inner_at(s) && b.funcs_at(s) == a.funcs_at(s) by {
        if s != at {
            assert(a.scope_unchanged(b, s));
        }
    }
}

/// Append one semantic diagnostic.
fn report_semantic(pipe: &mut ErrorPipeline, error_message: &str, pos: (u32, u32), length: u32)
    ensures
        pushed_diag(
            old(pipe)@,
            final(pipe)@,
            ErrorType::SemanticError,
            error_message@,
            pos,
            length,
        ),
{
    pipe.report_error(CompilerError::new(ErrorType::SemanticError, error_message, pos, length));
    proof {
        assert(pipe@.subrange(0, old(pipe)@.len() as int) =~= old(pipe)@);
    }
}

/// The identifier's character count, clamped; see [`spec_name_len32`].
fn name_len32(s: &String) -> (r: u32)
    ensures
        r == spec_name_len32(s@),
{
    let n = s.as_str().unicode_len();
    if n > u32::MAX as usize {
        u32::MAX
    } else {
        n as u32
    }
}

impl SemanticAnalyzer {
    /// Validate an operator against its coerced operand type, reporting
    /// the targeted diagnostic at the operator's span on rejection; see
    /// [`spec_operator_result`].
    fn check_operator(
        operator: &AstNode<TokenType>,
        operand_type: DataType,
        pipe: &mut ErrorPipeline,
    ) -> (r: Option<DataType>)
        ensures
            r == spec_operator_result(operator.node, operand_type),
            appended_with(old(pipe)@, final(pipe)@, ErrorType::SemanticError),
            r is Some ==> final(pipe)@ == old(pipe)@,
            (r is None && !spec_is_binop(operator.node)) ==> final(pipe)@ == old(pipe)@,
            (r is None && spec_is_binop(operator.node)) ==> {
                &&& final(pipe)@.len() == old(pipe)@.len() + 1
                &&& final(pipe)@.last().error_type is SemanticError
                &&& final(pipe)@.last().error_message@ == spec_operator_reject_message(
                    operator.node,
                    operand_type,
                )
                &&& final(pipe)@.last().pos == operator.pos
                &&& final(pipe)@.last().length == operator.length
            },
    {
        let pos = operator.pos;
        let length = operator.length;
        match &operator.node {
            TokenType::AdditionOperator => {
                match operand_type {
                    DataType::Array(_) => {
                        report_semantic(pipe, "operator '+' cannot be used on Array", pos, length);
                        None
                    },
                    DataType::Boolean => {
                        report_semantic(
                            pipe,
                            "operator '+' cannot be used on bool type",
                            pos,
                            length,
                        );
                        None
                    },
                    DataType::Char => {
                        report_semantic(
                            pipe,
                            "operator '+' cannot be used on char type, consider making it a str type",
                            pos,
                            length,
                        );
                        None
                    },
                    _ => Some(operand_type),
                }
            },
            TokenType::SubtractionOperator => {
                match operand_type {
                    DataType::Array(_) => {
                        report_semantic(pipe, "operator '-' cannot be used on Array", pos, length);
                        None
                    },
                    DataType::Boolean => {
                        report_semantic(
                            pipe,
                            "operator '-' cannot be used on bool type",
                            pos,
                            length,
                        );
                        None
                    },
                    DataType::Char => {
                        report_semantic(
                            pipe,
                            "operator '-' cannot be used on char type",
                            pos,
                            length,
                        );
                        None
                    },
                    DataType::Str(_) => {
                        report_semantic(
                            pipe,
                            "operator '-' cannot be used on str type",
                            pos,
                            length,
                        );
                        None
                    },
                    _ => Some(operand_type),
                }
            },
            TokenType::MultiplicationOperator => {
                match operand_type {
                    DataType::Array(_) => {
                        report_semantic(pipe, "operator '*' cannot be used on Array", pos, length);
                        None
                    },
                    DataType::Boolean => {
                        report_semantic(
                            pipe,
                            "operator '*' cannot be used on bool type",
                            pos,
                            length,
                        );
                        None
                    },
                    DataType::Char => {
                        report_semantic(
                            pipe,
                            "operator '*' cannot be used on char type",
                            pos,
                            length,
                        );
                        None
                    },
                    DataType::Str(_) => {
                        report_semantic(
                            pipe,
                            "operator '*' cannot be used on str type",
                            pos,
                            length,
                        );
                        None
                    },
                    _ => Some(operand_type),
                }
            },
            TokenType::DivisionOperator => {
                match operand_type {
                    DataType::Array(_) => {
                        report_semantic(pipe, "operator '/' cannot be used on Array", pos, length);
                        None
                    },
                    DataType::Boolean => {
                        report_semantic(
                            pipe,
                            "operator '/' cannot be used on bool type",
                            pos,
                            length,
                        );
                        None
                    },
                    DataType::Char => {
                        report_semantic(
                            pipe,
                            "operator '/' cannot be used on char type",
                            pos,
                            length,
                        );
                        None
                    },
                    DataType::Str(_) => {
                        report_semantic(
                            pipe,
                            "operator '/' cannot be used on str type",
                            pos,
                            length,
                        );
                        None
                    },
                    _ => Some(operand_type),
                }
            },
            TokenType::ModuloOperator => {
                match operand_type {
                    DataType::Array(_) => {
                        report_semantic(pipe, "operator '%' cannot be used on Array", pos, length);
                        None
                    },
                    DataType::Boolean => {
                        report_semantic(
                            pipe,
                            "operator '%' cannot be used on bool type",
                            pos,
                            length,
                        );
                        None
                    },
                    DataType::Char => {
                        report_semantic(
                            pipe,
                            "operator '%' cannot be used on char type",
                            pos,
                            length,
                        );
                        None
                    },
                    DataType::Str(_) => {
                        report_semantic(
                            pipe,
                            "operator '%' cannot be used on str type",
                            pos,
                            length,
                        );
                        None
                    },
                    _ => Some(operand_type),
                }
            },
            TokenType::Equal => {
                match operand_type {
                    DataType::Array(_) => {
                        report_semantic(
                            pipe,
                            "operator '==' cannot be used on Array",
                            pos,
                            length,
                        );
                        None
                    },
                    _ => Some(DataType::Boolean),
                }
            },
            TokenType::Less => {
                match operand_type {
                    DataType::Array(_) => {
                        report_semantic(pipe, "operator '<' cannot be used on Array", pos, length);
                        None
                    },
                    DataType::Boolean => {
                        report_semantic(
                            pipe,
                            "operator '<' cannot be used on bool type",
                            pos,
                            length,
                        );
                        None
                    },
                    DataType::Char => {
                        report_semantic(
                            pipe,
                            "operator '<' cannot be used on char type",
                            pos,
                            length,
                        );
                        None
                    },
                    DataType::Str(_) => {
                        report_semantic(
                            pipe,
                            "operator '<' cannot be used on str type",
                            pos,
                            length,
                        );
                        None
                    },
                    _ => Some(DataType::Boolean),
                }
            },
            TokenType::LessEqual => {
                match operand_type {
                    DataType::Array(_) => {
                        report_semantic(
                            pipe,
                            "operator '<=' cannot be used on Array",
                            pos,
                            length,
                        );
                        None
                    },
                    DataType::Boolean => {
                        report_semantic(
                            pipe,
                            "operator '<=' cannot be used on bool type",
                            pos,
                            length,
                        );
                        None
                    },
                    DataType::Char => {
                        report_semantic(
                            pipe,
                            "operator '<=' cannot be used on char type",
                            pos,
                            length,
                        );
                        None
                    },
                    DataType::Str(_) => {
                        report_semantic(
                            pipe,
                            "operator '<=' cannot be used on str type",
                            pos,
                            length,
                        );
                        None
                    },
                    _ => Some(DataType::Boolean),
                }
            },
            TokenType::More => {
                match operand_type {
                    DataType::Array(_) => {
                        report_semantic(pipe, "operator '>' cannot be used on Array", pos, length);
                        None
                    },
                    DataType::Boolean => {
                        report_semantic(
                            pipe,
                            "operator '>' cannot be used on bool type",
                            pos,
                            length,
                        );
                        None
                    },
                    DataType::Char => {
                        report_semantic(
                            pipe,
                            "operator '>' cannot be used on char type",
                            pos,
                            length,
                        );
                        None
                    },
                    DataType::Str(_) => {
                        report_semantic(
                            pipe,
                            "operator '>' cannot be used on str type",
                            pos,
                            length,
                        );
                        None
                    },
                    _ => Some(DataType::Boolean),
                }
            },
            TokenType::MoreEqual => {
                match operand_type {
                    DataType::Array(_) => {
                        report_semantic(
                            pipe,
                            "operator '>=' cannot be used on Array",
                            pos,
                            length,
                        );
                        None
                    },
                    DataType::Boolean => {
                        report_semantic(
                            pipe,
                            "operator '>=' cannot be used on bool type",
                            pos,
                            length,
                        );
                        None
                    },
                    DataType::Char => {
                        report_semantic(
                            pipe,
                            "operator '>=' cannot be used on char type",
                            pos,
                            length,
                        );
                        None
                    },
                    DataType::Str(_) => {
                        report_semantic(
                            pipe,
                            "operator '>=' cannot be used on str type",
                            pos,
                            length,
                        );
                        None
                    },
                    _ => Some(DataType::Boolean),
                }
            },
            TokenType::And => {
                match operand_type {
                    DataType::Boolean => Some(operand_type),
                    _ => {
                        report_semantic(
                            pipe,
                            "operator '&&' can only be used on boolean expression",
                            pos,
                            length,
                        );
                        None
                    },
                }
            },
            TokenType::Or => {
                match operand_type {
                    DataType::Boolean => Some(operand_type),
                    _ => {
                        report_semantic(
                            pipe,
                            "operator '||' can only be used on boolean expression",
                            pos,
                            length,
                        );
                        None
                    },
                }
            },
            _ => None,
        }
    }

    /// Resolve a variable reference at a given source position: the exact
    /// behaviour is [`spec_variable_check`]. Shared by bare references and
    /// assignment targets (which use the assignment's own span).
    fn check_variable(
        &mut self,
        v: &String,
        pos: (u32, u32),
        at: usize,
        pipe: &mut ErrorPipeline,
    ) -> (r: Option<DataType>)
        requires
            old(self).table().wf(),
            at < old(self).table().scope_count(),
        ensures
            table_shape_preserved(old(self).table(), final(self).table()),
            scopes_retained(old(self).table(), final(self).table()),
            appended_with(old(pipe)@, final(pipe)@, ErrorType::SemanticError),
            spec_variable_check(
                old(self).table(),
                final(self).table(),
                at as int,
                pos,
                v@,
                r,
                old(pipe)@,
                final(pipe)@,
            ),
    {
        broadcast use lemma_shape_refl;

        let line = pos.0;
        let found = self.symbol_table.lookup_var(at, v);
        match found {
            Some((var_attr, _scope)) => {
                proof {
                    crate::symbol_table::lemma_lookup_resolves_on_chain(
                        self.symbol_table,
                        at as int,
                        v@,
                    );
                }
                let fid = match self.symbol_table.lookup_var_scope_id(at, v) {
                    Some(f) => f,
                    None => {
                        proof {
                            assert(false);
                        }
                        0
                    },
                };
                match var_attr.line_declare {
                    Some(ld) => {
                        if line < ld {
                            let msg = msg3("use of undeclared variable '", v.as_str(), "'");
                            report_semantic(pipe, msg.as_str(), pos, name_len32(v));
                            self.symbol_table.var_push_line_ref(fid, v, line);
                            proof {
                                lemma_shape_from_scope_op(
                                    old(self).table(),
                                    self.table(),
                                    fid as int,
                                );
                            }
                            None
                        } else {
                            self.symbol_table.var_push_line_ref(fid, v, line);
                            proof {
                                lemma_shape_from_scope_op(
                                    old(self).table(),
                                    self.table(),
                                    fid as int,
                                );
                            }
                            match var_attr.data_type {
                                Some(dt) => Some(dt),
                                None => None,
                            }
                        }
                    },
                    None => None,
                }
            },
            None => {
                let msg = msg3("use of undeclared variable '", v.as_str(), "'");
                report_semantic(pipe, msg.as_str(), pos, name_len32(v));
                None
            },
        }
    }

    /// Infer the type of an expression, recording variable references and
    /// in-place declarations in the symbol table, and reporting scope and
    /// type violations; an untypable expression yields nothing and
    /// dependent checks stop.
    fn check_expression_type(
        &mut self,
        node: &AstNode<Node>,
        at: usize,
        pipe: &mut ErrorPipeline,
    ) -> (r: Option<DataType>)
        requires
            old(self).table().wf(),
            at < old(self).table().scope_count(),
        ensures
            final(self).table().wf(),
            final(self).table().scope_count() == old(self).table().scope_count(),
            table_shape_preserved(old(self).table(), final(self).table()),
            scopes_retained(old(self).table(), final(self).table()),
            appended_with(old(pipe)@, final(pipe)@, ErrorType::SemanticError),
            node.node matches Node::Variable(v) ==> spec_variable_check(
                old(self).table(),
                final(self).table(),
                at as int,
                node.pos,
                v@,
                r,
                old(pipe)@,
                final(pipe)@,
            ),
            node.node matches Node::Literal(lit) ==> (spec_literal_check(
                lit,
                node.pos,
                node.length,
                r,
                old(pipe)@,
                final(pipe)@,
            ) && final(self).table() == old(self).table()),
            node.node matches Node::FunctionCall(c) ==> (spec_call_check(
                old(self).table(),
                at as int,
                c.function_name.node@,
                c.function_name.pos,
                c.function_name.length,
                r,
                old(pipe)@,
                final(pipe)@,
            ) && final(self).table() == old(self).table()),
            node.node matches Node::Assignment(be) ==> (be.left.node matches Node::DeclareVar(v)
                ==> (be.right.node matches Node::Literal(lit) ==> {
                &&& final(self).table().vars_at(at as int) == old(self).table().vars_at(
                    at as int,
                ).insert(v.name.node@, declared_var_model(v.var_type.node, v.name.pos.0))
                &&& r == (match spec_literal_type(lit) {
                    Some(rt) => if crate::tokens::spec_dt_kind(v.var_type.node)
                        == crate::tokens::spec_dt_kind(rt) || spec_castable(rt, v.var_type.node) {
                        Some(v.var_type.node)
                    } else {
                        None::<DataType>
                    },
                    None => None::<DataType>,
                })
            })),
            node.node matches Node::Assignment(be) ==> (be.left.node matches Node::Variable(lv)
                ==> (be.right.node matches Node::Literal(lit) ==> (old(
                self,
            ).table().find_var_scope(at as int, lv@) matches Some(f) ==> (old(
                self,
            ).table().vars_at(f)[lv@].line_declare matches Some(ld) ==> (node.pos.0 >= ld ==> (
            old(self).table().vars_at(f)[lv@].data_type matches Some(ltype)
                ==> match spec_literal_type(lit) {
                Some(rt) => if crate::tokens::spec_dt_kind(ltype) == crate::tokens::spec_dt_kind(
                    rt,
                ) || spec_castable(rt, ltype) {
                    r == Some(ltype) && final(pipe)@ == old(pipe)@
                } else {
                    r is None && pushed_diag(
                        old(pipe)@,
                        final(pipe)@,
                        ErrorType::SemanticError,
                        "expected '"@ + spec_type_name(ltype) + "' found '"@ + spec_type_name(rt)
                            + "'"@,
                        node.pos,
                        node.length,
                    )
                },
                None => r is None,
            })))))),
            node.node matches Node::Assignment(be) ==> ((!(be.left.node is DeclareVar) && !(
            be.left.node is Variable)) ==> (r is None && pushed_diag(
                old(pipe)@,
                final(pipe)@,
                ErrorType::SemanticError,
                "left operand can't assign to"@,
                node.pos,
                node.length,
            ) && final(self).table() == old(self).table())),
            node.node matches Node::BinaryExpression(exp) ==> ((is_simple_operand(exp.left.node)
                && is_simple_operand(exp.right.node)) ==> r == (match (
                spec_simple_operand_type(old(self).table(), at as int, *exp.left),
                spec_simple_operand_type(old(self).table(), at as int, *exp.right),
            ) {
                (Some(lt), Some(rt)) => spec_binop_result(exp.operator.node, lt, rt),
                _ => None::<DataType>,
            })),
        decreases node,
    {
        broadcast use lemma_shape_refl, lemma_shape_trans_b;

        match &node.node {
            Node::Variable(v) => {
                let r = self.check_variable(v, node.pos, at, pipe);
                r
            },
            Node::Assignment(tk) => {
                let ghost t0 = old(self).table();
                let left_type: DataType = match &tk.left.node {
                    Node::DeclareVar(v) => {
                        self.symbol_table.insert_var(at, v.name.node.clone());
                        proof {
                            lemma_shape_from_scope_op(t0, self.table(), at as int);
                        }
                        let ghost t1 = self.table();
                        self.symbol_table.update_var(
                            at,
                            &v.name.node,
                            Some(v.var_type.node.clone()),
                            Some(v.var_type.node.size_in_bytes_clamped()),
                            Some(0),
                            Some(v.name.pos.0),
                        );
                        proof {
                            lemma_shape_from_scope_op(t1, self.table(), at as int);
                            assert(self.table().vars_at(at as int) =~= t0.vars_at(at as int).insert(
                                v.name.node@,
                                declared_var_model(v.var_type.node, v.name.pos.0),
                            ));
                        }
                        v.var_type.node.clone()
                    },
                    Node::Variable(v) => {
                        match self.check_variable(v, node.pos, at, pipe) {
                            Some(dt) => dt,
                            None => {
                                return None;
                            },
                        }
                    },
                    _ => {
                        report_semantic(
                            pipe,
                            "left operand can't assign to",
                            node.pos,
                            node.length,
                        );
                        return None;
                    },
                };
                match self.check_expression_type(&tk.right, at, pipe) {
                    Some(right_type) => {
                        if left_type.same_kind(&right_type) || Self::type_castable(
                            &right_type,
                            &left_type,
                        ) {
                            Some(left_type)
                        } else {
                            let msg = msg5(
                                "expected '",
                                left_type.to_string().as_str(),
                                "' found '",
                                right_type.to_string().as_str(),
                                "'",
                            );
                            report_semantic(pipe, msg.as_str(), node.pos, node.length);
                            None
                        }
                    },
                    None => None,
                }
            },
            Node::Literal(literal) => {
                match literal {
                    LiteralValue::Int(i) => {
                        match Self::get_int_type(*i) {
                            Some(t) => Some(t),
                            None => {
                                report_semantic(pipe, "value is too large", node.pos, node.length);
                                None
                            },
                        }
                    },
                    LiteralValue::Float(f) => {
                        match Self::get_float_type(f) {
                            Some(t) => Some(t),
                            None => {
                                report_semantic(pipe, "value is too large", node.pos, node.length);
                                None
                            },
                        }
                    },
                    LiteralValue::Str(st) => {
                        let n = st.as_str().unicode_len();
                        let tag: u32 = ((n as u64) % 4294967296u64) as u32;
                        Some(DataType::Str(tag))
                    },
                    LiteralValue::Bool(_) => Some(DataType::Boolean),
                }
            },
            Node::BinaryExpression(exp) => {
                let ghost t0 = old(self).table();
                let ghost p0 = old(pipe)@;
                let left_r = self.check_expression_type(&exp.left, at, pipe);
                let ghost t1 = self.table();
                proof {
                    if is_simple_operand(exp.left.node) && is_simple_operand(exp.right.node) {
                        assert(left_r == spec_simple_operand_type(t0, at as int, *exp.left));
                        match &exp.left.node {
                            Node::Variable(v) => {
                                match t0.find_var_scope(at as int, v@) {
                                    Some(f) => {
                                        crate::symbol_table::lemma_lookup_resolves_on_chain(
                                            t0,
                                            at as int,
                                            v@,
                                        );
                                        match t0.vars_at(f)[v@].line_declare {
                                            Some(ld) => {
                                                lemma_simple_type_stable(
                                                    t0,
                                                    t1,
                                                    f,
                                                    v@,
                                                    exp.left.pos.0,
                                                    at as int,
                                                    *exp.right,
                                                );
                                            },
                                            None => {},
                                        }
                                    },
                                    None => {},
                                }
                            },
                            _ => {},
                        }
                        assert(spec_simple_operand_type(t1, at as int, *exp.right)
                            == spec_simple_operand_type(t0, at as int, *exp.right));
                    }
                }
                let left_type = match left_r {
                    Some(dt) => dt,
                    None => {
                        return None;
                    },
                };
                let right_r = self.check_expression_type(&exp.right, at, pipe);
                let right_type = match right_r {
                    Some(rt) => rt,
                    None => {
                        return None;
                    },
                };
                if Self::check_operator(&exp.operator, left_type.clone(), pipe).is_none() {
                    return None;
                }
                if Self::check_operator(&exp.operator, right_type.clone(), pipe).is_none() {
                    return None;
                }
                let operand_type = if !(left_type == right_type) {
                    match self.type_coercion(&left_type, &right_type) {
                        Some(result_type) => result_type,
                        None => {
                            let msg = msg5(
                                "operand have mismatched type '",
                                left_type.to_string().as_str(),
                                "' and '",
                                right_type.to_string().as_str(),
                                "'",
                            );
                            report_semantic(pipe, msg.as_str(), exp.operator.pos, exp.operator.length);
                            return None;
                        },
                    }
                } else {
                    left_type
                };
                Self::check_operator(&exp.operator, operand_type, pipe)
            },
            Node::FunctionCall(called) => {
                let found = self.symbol_table.lookup_func(at, &called.function_name.node);
                match found {
                    Some((func_att, _)) => Some(func_att.return_type),
                    None => {
                        let msg = msg3(
                            "use of undeclared function '",
                            called.function_name.node.as_str(),
                            "'",
                        );
                        report_semantic(
                            pipe,
                            msg.as_str(),
                            called.function_name.pos,
                            called.function_name.length,
                        );
                        None
                    },
                }
            },
            _ => None,
        }
    }

    /// Analyze one statement: populate the symbol table, recurse into
    /// nested bodies (each in a fresh scope), and report scope- and
    /// type-rule violations. Embedded parse errors are skipped.
    fn analyze_node(&mut self, node: &AstNode<Node>, at: usize, pipe: &mut ErrorPipeline)
        requires
            old(self).table().wf(),
            at < old(self).table().scope_count(),
        ensures
            final(self).table().wf(),
            final(self).table().scope_count() >= old(self).table().scope_count(),
            scopes_retained(old(self).table(), final(self).table()),
            appended_with(old(pipe)@, final(pipe)@, ErrorType::SemanticError),
            node.node matches Node::ParserError(_) ==> (*final(self) == *old(self) && final(pipe)@
                == old(pipe)@),
            node.node matches Node::DeclareVar(v) ==> {
                &&& final(self).table().scope_count() == old(self).table().scope_count()
                &&& table_shape_preserved(old(self).table(), final(self).table())
                &&& final(self).table().vars_at(at as int) == old(self).table().vars_at(
                    at as int,
                ).insert(v.name.node@, declared_var_model(v.var_type.node, v.name.pos.0))
                &&& forall|s: int|
                    0 <= s < old(self).table().scope_count() && s != at ==> #[trigger] old(
                        self,
                    ).table().scope_unchanged(final(self).table(), s)
                &&& final(pipe)@ == old(pipe)@
            },
            (node.node is Import && !(old(self).table().scope_at(at as int) is Global)) ==> (
            pushed_diag(
                old(pipe)@,
                final(pipe)@,
                ErrorType::SemanticError,
                "only top-level import is allowed"@,
                node.pos,
                node.length,
            ) && *final(self) == *old(self)),
            (node.node is Return && old(self).table().find_func_info(at as int) is None) ==> (
            pushed_diag(
                old(pipe)@,
                final(pipe)@,
                ErrorType::SemanticError,
                "top-level return is not allow"@,
                node.pos,
                node.length,
            ) && *final(self) == *old(self)),
            funcs_preserved_except(old(self).table(), final(self).table(), at as int),
            node.node matches Node::Function(fd) ==> {
                &&& final(self).table().funcs_at(at as int).contains_key(fd.function_name.node@)
                &&& final(self).table().funcs_at(at as int)[fd.function_name.node@].return_type
                    == fd.return_type.node
                &&& final(self).table().funcs_at(at as int)[fd.function_name.node@].line_declare
                    == Some(fd.function_name.pos.0)
                &&& final(self).table().funcs_at(at as int)[fd.function_name.node@].parameter.len()
                    == fd.parameters@.len()
                &&& forall|j: int|
                    0 <= j < fd.parameters@.len() ==> #[trigger] final(self).table().funcs_at(
                        at as int,
                    )[fd.function_name.node@].parameter[j] == (
                    fd.parameters@[j].node.var_type.node,
                    fd.parameters@[j].node.name.node@,
                )
                &&& final(self).table().funcs_at(at as int)[fd.function_name.node@].func_table
                    == old(self).table().scope_count()
                &&& final(self).table().scope_at(old(self).table().scope_count()) is Function
                &&& final(self).table().parent_of(old(self).table().scope_count()) == Some(at)
            },
            node.node matches Node::Function(fd) ==> ((fd.body.instructions@.len() == 0 && (
            forall|j1: int, j2: int|
                0 <= j1 < j2 < fd.parameters@.len() ==> fd.parameters@[j1].node.name.node@
                    != fd.parameters@[j2].node.name.node@)) ==> {
                &&& final(self).table().scope_count() == old(self).table().scope_count() + 1
                &&& forall|j: int|
                    0 <= j < fd.parameters@.len() ==> {
                        &&& final(self).table().vars_at(old(self).table().scope_count()).contains_key(
                            (#[trigger] fd.parameters@[j]).node.name.node@,
                        )
                        &&& final(self).table().vars_at(old(self).table().scope_count())[
                        fd.parameters@[j].node.name.node@].data_type == Some(
                            fd.parameters@[j].node.var_type.node,
                        )
                        &&& final(self).table().vars_at(old(self).table().scope_count())[
                        fd.parameters@[j].node.name.node@].line_declare == Some(1u32)
                    }
            }),
            node.node matches Node::Variable(v) ==> (old(self).table().find_var_scope(
                at as int,
                v@,
            ) is None ==> (pushed_diag(
                old(pipe)@,
                final(pipe)@,
                ErrorType::SemanticError,
                "use of undeclared variable '"@ + v@ + "'"@,
                node.pos,
                spec_name_len32(v@),
            ) && final(self).table() == old(self).table())),
            node.node matches Node::Import(imp) ==> ((old(self).table().scope_at(at as int)
                is Global && imp.alias is None) ==> (*final(self) == *old(self) && final(pipe)@
                == old(pipe)@)),
            node.node matches Node::Import(imp) ==> (old(self).table().scope_at(at as int)
                is Global ==> (imp.alias matches Some(al) ==> match old(
                self,
            ).table().find_var_scope(at as int, al.node@) {
                Some(_) => pushed_diag(
                    old(pipe)@,
                    final(pipe)@,
                    ErrorType::SemanticError,
                    "import alias overide existing identifier"@,
                    al.pos,
                    al.length,
                ) && final(self).table() == old(self).table(),
                None => final(self).table().vars_at(at as int) == old(self).table().vars_at(
                    at as int,
                ).insert(al.node@, crate::symbol_table::fresh_var_model()) && final(pipe)@ == old(
                    pipe,
                )@,
            })),
            node.node matches Node::Return(ret) ==> (old(self).table().find_func_info(at as int)
                matches Some(fm) ==> (ret matches Some(re) ==> (re.node matches Node::Literal(lit)
                ==> (spec_literal_type(lit) matches Some(rt) ==> if !spec_castable(
                rt,
                fm.return_type,
            ) && fm.return_type != rt {
                pushed_diag(
                    old(pipe)@,
                    final(pipe)@,
                    ErrorType::SemanticError,
                    "function '"@ + fm.func_name + "' expect return type '"@ + spec_type_name(
                        fm.return_type,
                    ) + "' found '"@ + spec_type_name(rt) + "'"@,
                    node.pos,
                    node.length,
                )
            } else {
                final(pipe)@ == old(pipe)@
            })))),
            node.node matches Node::BooleanNot(e) ==> (e.exp.node matches Node::Literal(lit)
                ==> (spec_literal_type(lit) matches Some(t) ==> (!(t is Boolean) ==> pushed_diag(
                old(pipe)@,
                final(pipe)@,
                ErrorType::SemanticError,
                "cannot apply ! to '"@ + spec_type_name(t) + "'"@,
                node.pos,
                node.length,
            )))),
            node.node is While ==> {
                &&& final(self).table().scope_count() > old(self).table().scope_count()
                &&& final(self).table().scope_at(old(self).table().scope_count()) is Block
                &&& final(self).table().parent_of(old(self).table().scope_count()) == Some(at)
            },
            node.node matches Node::While(w) ==> (w.condition.node matches Node::Literal(lit)
                ==> (spec_literal_type(lit) matches Some(t) ==> (t is Boolean ==> (
            w.body.instructions@.len() == 0 ==> final(pipe)@ == old(pipe)@)))),
            node.node matches Node::While(w) ==> (w.condition.node matches Node::Literal(lit)
                ==> (spec_literal_type(lit) matches Some(t) ==> (!(t is Boolean) ==> {
                &&& final(pipe)@.len() > old(pipe)@.len()
                &&& final(pipe)@[old(pipe)@.len() as int].error_message@
                    == "while loop expected boolean expression found '"@ + spec_type_name(t)
                    + "'"@
                &&& final(pipe)@[old(pipe)@.len() as int].error_type is SemanticError
                &&& final(pipe)@[old(pipe)@.len() as int].pos == w.condition.pos
                &&& final(pipe)@[old(pipe)@.len() as int].length == w.condition.length
            }))),
        decreases node, 1int,
    {
        broadcast use lemma_shape_refl, lemma_shape_trans_b;

        match &node.node {
            Node::Body(bd) => {
                let ghost ta = self.table();
                let blk = self.symbol_table.insert_block_scope(at);
                proof {
                    lemma_funcs_from_var_op(ta, self.table(), at as int);
                }
                let ghost tb = self.table();
                self.analyze_body(bd, blk, pipe);
                proof {
                    lemma_funcs_chain(ta, tb, self.table(), -1, blk as int);
                    lemma_funcs_weaken(ta, self.table(), at as int);
                }
            },
            Node::Variable(v) => {
                let line = node.pos.0;
                let found = self.symbol_table.lookup_var(at, v);
                match found {
                    Some((var_attr, _scope)) => {
                        match var_attr.line_declare {
                            Some(ld) => {
                                if line < ld {
                                    let msg = msg3(
                                        "use of undeclared variable '",
                                        v.as_str(),
                                        "'",
                                    );
                                    report_semantic(pipe, msg.as_str(), node.pos, name_len32(v));
                                }
                            },
                            None => {},
                        }
                        proof {
                            crate::symbol_table::lemma_lookup_resolves_on_chain(
                                self.symbol_table,
                                at as int,
                                v@,
                            );
                        }
                        match self.symbol_table.lookup_var_scope_id(at, v) {
                            Some(fid) => {
                                let ghost ta = self.table();
                                self.symbol_table.var_push_line_ref(fid, v, line);
                                proof {
                                    lemma_funcs_from_var_op(ta, self.table(), fid as int);
                                    lemma_funcs_weaken(ta, self.table(), at as int);
                                }
                            },
                            None => {
                                proof {
                                    assert(false);
                                }
                            },
                        }
                    },
                    None => {
                        let msg = msg3("use of undeclared variable '", v.as_str(), "'");
                        report_semantic(pipe, msg.as_str(), node.pos, name_len32(v));
                    },
                }
            },
            Node::DeclareVar(v) => {
                let ghost t0 = old(self).table();
                self.symbol_table.insert_var(at, v.name.node.clone());
                proof {
                    lemma_shape_from_scope_op(t0, self.table(), at as int);
                }
                let ghost t1 = self.table();
                self.symbol_table.update_var(
                    at,
                    &v.name.node,
                    Some(v.var_type.node.clone()),
                    Some(v.var_type.node.size_in_bytes_clamped()),
                    Some(0),
                    Some(v.name.pos.0),
                );
                proof {
                    lemma_shape_from_scope_op(t1, self.table(), at as int);
                    assert(self.table().vars_at(at as int) =~= t0.vars_at(at as int).insert(
                        v.name.node@,
                        declared_var_model(v.var_type.node, v.name.pos.0),
                    ));
                    lemma_funcs_from_var_op(t0, t1, at as int);
                    lemma_funcs_from_var_op(t1, self.table(), at as int);
                    lemma_funcs_chain(t0, t1, self.table(), -1, -1);
                    lemma_funcs_weaken(t0, self.table(), at as int);
                    assert forall|s: int|
                        0 <= s < t0.scope_count() && s != at implies #[trigger] t0.scope_unchanged(
                        self.table(),
                        s,
                    ) by {
                        assert(t0.scope_unchanged(t1, s));
                        assert(t1.scope_unchanged(self.table(), s));
                    }
                }
            },
            Node::Assignment(_) => {
                let ghost ta = self.table();
                let _ = self.check_expression_type(node, at, pipe);
                proof {
                    lemma_funcs_from_shape(ta, self.table(), at as int);
                }
            },
            Node::Literal(_) => {
                let ghost ta = self.table();
                let _ = self.check_expression_type(node, at, pipe);
                proof {
                    lemma_funcs_from_shape(ta, self.table(), at as int);
                }
            },
            Node::BinaryExpression(_) => {
                let ghost ta = self.table();
                let _ = self.check_expression_type(node, at, pipe);
                proof {
                    lemma_funcs_from_shape(ta, self.table(), at as int);
                }
            },
            Node::FunctionCall(_) => {
                let ghost ta = self.table();
                let _ = self.check_expression_type(node, at, pipe);
                proof {
                    lemma_funcs_from_shape(ta, self.table(), at as int);
                }
            },
            Node::MethodCall(_) => {
                let ghost ta = self.table();
                let _ = self.check_expression_type(node, at, pipe);
                proof {
                    lemma_funcs_from_shape(ta, self.table(), at as int);
                }
            },
            Node::Function(func) => {
                let ghost t0 = self.table();
                let func_block = self.symbol_table.insert_func(
                    at,
                    func.function_name.node.clone(),
                );
                proof {
                    lemma_funcs_from_scope_op(t0, self.table(), at as int);
                }
                let ghost t1 = self.table();
                self.symbol_table.update_func(
                    at,
                    &func.function_name.node,
                    Some(func.return_type.node.clone()),
                    Some(func.function_name.pos.0),
                );
                proof {
                    lemma_funcs_from_scope_op(t1, self.table(), at as int);
                    lemma_funcs_chain(t0, t1, self.table(), at as int, at as int);
                }
                let mut i: usize = 0;
                while i < func.parameters.len()
                    invariant
                        self.table().wf(),
                        at < self.table().scope_count(),
                        func_block < self.table().scope_count(),
                        func_block != at,
                        self.table().scope_count() >= old(self).table().scope_count(),
                        scopes_retained(old(self).table(), self.table()),
                        t0.scope_count() <= self.table().scope_count(),
                        funcs_preserved_except(t0, self.table(), at as int),
                        i <= func.parameters@.len(),
                        func_block == t0.scope_count(),
                        self.table().scope_at(func_block as int) is Function,
                        self.table().parent_of(func_block as int) == Some(at),
                        self.table().scope_count() == t0.scope_count() + 1,
                        forall|j: int|
                            0 <= j < i ==> {
                                &&& self.table().vars_at(func_block as int).contains_key(
                                    (#[trigger] func.parameters@[j]).node.name.node@,
                                )
                                &&& ((forall|j1: int, j2: int|
                                    0 <= j1 < j2 < func.parameters@.len()
                                        ==> func.parameters@[j1].node.name.node@
                                        != func.parameters@[j2].node.name.node@) ==> (
                                self.table().vars_at(func_block as int)[
                                func.parameters@[j].node.name.node@].data_type == Some(
                                    func.parameters@[j].node.var_type.node,
                                ) && self.table().vars_at(func_block as int)[
                                func.parameters@[j].node.name.node@].line_declare == Some(1u32)))
                            },
                        self.table().funcs_at(at as int).contains_key(func.function_name.node@),
                        self.table().funcs_at(at as int)[func.function_name.node@].return_type
                            == func.return_type.node,
                        self.table().funcs_at(at as int)[func.function_name.node@].line_declare
                            == Some(func.function_name.pos.0),
                        self.table().funcs_at(at as int)[func.function_name.node@].parameter.len()
                            == i,
                        self.table().funcs_at(at as int)[func.function_name.node@].func_table
                            == func_block,
                        forall|j: int|
                            0 <= j < i ==> #[trigger] self.table().funcs_at(at as int)[
                            func.function_name.node@].parameter[j] == (
                            func.parameters@[j].node.var_type.node,
                            func.parameters@[j].node.name.node@,
                        ),
                        appended_with(old(pipe)@, pipe@, ErrorType::SemanticError),
                    decreases func.parameters.len() - i,
                {
                    let param = &func.parameters[i];
                    let ghost tp = self.table();
                    self.symbol_table.func_push_param(
                        at,
                        &func.function_name.node,
                        (param.node.var_type.node.clone(), param.node.name.node.clone()),
                    );
                    proof {
                        lemma_funcs_from_scope_op(tp, self.table(), at as int);
                        lemma_funcs_chain(t0, tp, self.table(), at as int, at as int);
                        assert(tp.scope_unchanged(self.table(), func_block as int));
                    }
                    let ghost ta = self.table();
                    self.symbol_table.insert_var(func_block, param.node.name.node.clone());
                    proof {
                        assert(ta.scope_unchanged(self.table(), at as int));
                        lemma_funcs_from_var_op(ta, self.table(), func_block as int);
                        lemma_funcs_chain(t0, ta, self.table(), at as int, -1);
                    }
                    let ghost tb = self.table();
                    self.symbol_table.update_var(
                        func_block,
                        &param.node.name.node,
                        Some(param.node.var_type.node.clone()),
                        Some(param.node.var_type.node.size_in_bytes_clamped()),
                        Some(1),
                        Some(1),
                    );
                    proof {
                        assert(tb.scope_unchanged(self.table(), at as int));
                        lemma_funcs_from_var_op(tb, self.table(), func_block as int);
                        lemma_funcs_chain(t0, tb, self.table(), at as int, -1);
                    }
                    i += 1;
                }
                let ghost tloop = self.table();
                self.analyze_body(&func.body, func_block, pipe);
                proof {
                    lemma_funcs_chain(t0, tloop, self.table(), at as int, func_block as int);
                    assert(self.table().funcs_at(at as int) == tloop.funcs_at(at as int));
                    assert(self.table().funcs_at(at as int).contains_key(
                        func.function_name.node@,
                    ));
                    assert(self.table().funcs_at(at as int)[func.function_name.node@].return_type
                        == func.return_type.node);
                    assert(self.table().funcs_at(at as int)[func.function_name.node@].line_declare
                        == Some(func.function_name.pos.0));
                    assert(self.table().funcs_at(at as int)[
                    func.function_name.node@].parameter.len() == func.parameters@.len());
                    assert forall|j: int|
                        0 <= j < func.parameters@.len() implies #[trigger] self.table().funcs_at(
                        at as int,
                    )[func.function_name.node@].parameter[j] == (
                    func.parameters@[j].node.var_type.node,
                    func.parameters@[j].node.name.node@,
                    ) by {
                        assert(tloop.funcs_at(at as int)[func.function_name.node@].parameter[j]
                            == (
                        func.parameters@[j].node.var_type.node,
                        func.parameters@[j].node.name.node@,
                        ));
                    }
                }
            },
            Node::Import(imp) => {
                if !self.symbol_table.scope_at_is_global(at) {
                    report_semantic(
                        pipe,
                        "only top-level import is allowed",
                        node.pos,
                        node.length,
                    );
                    return ;
                }
                match &imp.alias {
                    Some(alias) => {
                        let found = self.symbol_table.lookup_var(at, &alias.node);
                        match found {
                            Some(_) => {
                                report_semantic(
                                    pipe,
                                    "import alias overide existing identifier",
                                    alias.pos,
                                    alias.length,
                                );
                            },
                            None => {
                                let ghost ta = self.table();
                                self.symbol_table.insert_var(at, alias.node.clone());
                                proof {
                                    lemma_funcs_from_var_op(ta, self.table(), at as int);
                                    lemma_funcs_weaken(ta, self.table(), at as int);
                                }
                            },
                        }
                    },
                    None => {},
                }
            },
            Node::Return(ret) => {
                let current_func = match self.symbol_table.get_current_func_info(at) {
                    Some(func_info) => func_info,
                    None => {
                        report_semantic(
                            pipe,
                            "top-level return is not allow",
                            node.pos,
                            node.length,
                        );
                        return ;
                    },
                };
                let ghost ta = self.table();
                let return_value_type = match ret {
                    Some(return_exp) => {
                        match self.check_expression_type(return_exp, at, pipe) {
                            Some(dt) => {
                                proof {
                                    lemma_funcs_from_shape(ta, self.table(), at as int);
                                }
                                dt
                            },
                            None => {
                                proof {
                                    lemma_funcs_from_shape(ta, self.table(), at as int);
                                }
                                return ;
                            },
                        }
                    },
                    None => DataType::Void,
                };
                let widens = Self::type_castable(&return_value_type, &current_func.return_type);
                if !widens && !(current_func.return_type == return_value_type) {
                    let msg = msg7(
                        "function '",
                        current_func.func_name.as_str(),
                        "' expect return type '",
                        current_func.return_type.to_string().as_str(),
                        "' found '",
                        return_value_type.to_string().as_str(),
                        "'",
                    );
                    report_semantic(pipe, msg.as_str(), node.pos, node.length);
                }
            },
            Node::For(f) => {
                let ghost t0 = self.table();
                let for_block = self.symbol_table.insert_block_scope(at);
                proof {
                    lemma_funcs_from_var_op(t0, self.table(), at as int);
                }
                match &f.var {
                    Some(v) => {
                        match &v.node {
                            Node::Variable(var) => {
                                let ghost ta = self.table();
                                self.symbol_table.insert_var(for_block, var.clone());
                                proof {
                                    lemma_funcs_from_var_op(ta, self.table(), for_block as int);
                                    lemma_funcs_chain(t0, ta, self.table(), -1, -1);
                                }
                            },
                            _ => {},
                        }
                    },
                    None => {},
                }
                let ghost tb = self.table();
                self.analyze_body(&f.body, for_block, pipe);
                proof {
                    lemma_funcs_chain(t0, tb, self.table(), -1, for_block as int);
                    lemma_funcs_weaken(t0, self.table(), at as int);
                }
            },
            Node::While(w) => {
                let ghost t0 = self.table();
                let while_block = self.symbol_table.insert_block_scope(at);
                proof {
                    lemma_funcs_from_var_op(t0, self.table(), at as int);
                }
                let ghost ta = self.table();
                let condition_type = match self.check_expression_type(&w.condition, at, pipe) {
                    Some(t) => {
                        proof {
                            lemma_funcs_from_shape(ta, self.table(), -1);
                            lemma_funcs_chain(t0, ta, self.table(), -1, -1);
                        }
                        t
                    },
                    None => {
                        proof {
                            lemma_funcs_from_shape(ta, self.table(), -1);
                            lemma_funcs_chain(t0, ta, self.table(), -1, -1);
                            lemma_funcs_weaken(t0, self.table(), at as int);
                        }
                        return ;
                    },
                };
                if !(condition_type == DataType::Boolean) && !Self::type_castable(
                    &condition_type,
                    &DataType::Boolean,
                ) {
                    let msg = msg3(
                        "while loop expected boolean expression found '",
                        condition_type.to_string().as_str(),
                        "'",
                    );
                    report_semantic(pipe, msg.as_str(), w.condition.pos, w.condition.length);
                }
                let ghost p_mid = pipe@;
                let ghost tb = self.table();
                self.analyze_body(&w.body, while_block, pipe);
                proof {
                    if old(pipe)@.len() < p_mid.len() {
                        assert(pipe@[old(pipe)@.len() as int] == pipe@.subrange(
                            0,
                            p_mid.len() as int,
                        )[old(pipe)@.len() as int]);
                    }
                    lemma_funcs_chain(t0, tb, self.table(), -1, while_block as int);
                    lemma_funcs_weaken(t0, self.table(), at as int);
                }
            },
            Node::BooleanNot(exp) => {
                let ghost ta = self.table();
                let exp_type = match self.check_expression_type(&exp.exp, at, pipe) {
                    Some(t) => {
                        proof {
                            lemma_funcs_from_shape(ta, self.table(), at as int);
                        }
                        t
                    },
                    None => {
                        proof {
                            lemma_funcs_from_shape(ta, self.table(), at as int);
                        }
                        return ;
                    },
                };
                if !exp_type.same_kind(&DataType::Boolean) {
                    let msg = msg3("cannot apply ! to '", exp_type.to_string().as_str(), "'");
                    report_semantic(pipe, msg.as_str(), node.pos, node.length);
                }
            },
            Node::Conditional(con) => {
                let ghost t0 = self.table();
                let if_block = self.symbol_table.insert_block_scope(at);
                proof {
                    lemma_funcs_from_var_op(t0, self.table(), at as int);
                }
                let ghost ta = self.table();
                let condition_type = match self.check_expression_type(&con.if_block.0, at, pipe) {
                    Some(dt) => {
                        proof {
                            lemma_funcs_from_shape(ta, self.table(), -1);
                            lemma_funcs_chain(t0, ta, self.table(), -1, -1);
                        }
                        dt
                    },
                    None => {
                        proof {
                            lemma_funcs_from_shape(ta, self.table(), -1);
                            lemma_funcs_chain(t0, ta, self.table(), -1, -1);
                            lemma_funcs_weaken(t0, self.table(), at as int);
                        }
                        return ;
                    },
                };
                if !(condition_type == DataType::Boolean) && !Self::type_castable(
                    &condition_type,
                    &DataType::Boolean,
                ) {
                    let msg = msg3(
                        "expected boolean expression in if statement found '",
                        condition_type.to_string().as_str(),
                        "'",
                    );
                    report_semantic(pipe, msg.as_str(), con.if_block.0.pos, con.if_block.0.length);
                }
                let ghost tb = self.table();
                self.analyze_body(&con.if_block.1, if_block, pipe);
                proof {
                    lemma_funcs_chain(t0, tb, self.table(), -1, if_block as int);
                }
                let mut i: usize = 0;
                while i < con.elif_block.len()
                    invariant
                        self.table().wf(),
                        at < self.table().scope_count(),
                        self.table().scope_count() >= old(self).table().scope_count(),
                        scopes_retained(old(self).table(), self.table()),
                        t0 == old(self).table(),
                        t0.scope_count() <= self.table().scope_count(),
                        funcs_preserved_except(t0, self.table(), -1),
                        appended_with(old(pipe)@, pipe@, ErrorType::SemanticError),
                        node.node is Conditional,
                        node.node->Conditional_0 == *con,
                    decreases con.elif_block.len() - i,
                {
                    let ghost tc = self.table();
                    let elif_block = self.symbol_table.insert_block_scope(at);
                    proof {
                        lemma_funcs_from_var_op(tc, self.table(), at as int);
                        lemma_funcs_chain(t0, tc, self.table(), -1, -1);
                    }
                    let pair = &con.elif_block[i];
                    proof {
                        vstd::std_specs::vec::axiom_vec_index_decreases(con.elif_block, i as int);
                        assert(decreases_to!(con.elif_block[i as int] => con.elif_block[i as int].1));
                        assert(decreases_to!(*node => node.node));
                        assert(decreases_to!(node.node => node.node->Conditional_0));
                        assert(*con == node.node->Conditional_0);
                        assert(decreases_to!(*con => con.elif_block));
                    }
                    let ghost td = self.table();
                    let elif_condition_type = match self.check_expression_type(&pair.0, at, pipe) {
                        Some(dt) => {
                            proof {
                                lemma_funcs_from_shape(td, self.table(), -1);
                                lemma_funcs_chain(t0, td, self.table(), -1, -1);
                            }
                            dt
                        },
                        None => {
                            proof {
                                lemma_funcs_from_shape(td, self.table(), -1);
                                lemma_funcs_chain(t0, td, self.table(), -1, -1);
                                lemma_funcs_weaken(t0, self.table(), at as int);
                            }
                            return ;
                        },
                    };
                    if !(elif_condition_type == DataType::Boolean) && !Self::type_castable(
                        &elif_condition_type,
                        &DataType::Boolean,
                    ) {
                        let msg = msg3(
                            "expected boolean expression in if statement found '",
                            elif_condition_type.to_string().as_str(),
                            "'",
                        );
                        report_semantic(
                            pipe,
                            msg.as_str(),
                            con.if_block.0.pos,
                            con.if_block.0.length,
                        );
                    }
                    let ghost te = self.table();
                    self.analyze_body(&pair.1, elif_block, pipe);
                    proof {
                        lemma_funcs_chain(t0, te, self.table(), -1, elif_block as int);
                    }
                    i += 1;
                }
                match &con.else_block {
                    Some(body) => {
                        let ghost tf = self.table();
                        let else_block = self.symbol_table.insert_block_scope(at);
                        proof {
                            lemma_funcs_from_var_op(tf, self.table(), at as int);
                            lemma_funcs_chain(t0, tf, self.table(), -1, -1);
                        }
                        let ghost tg = self.table();
                        self.analyze_body(body, else_block, pipe);
                        proof {
                            lemma_funcs_chain(t0, tg, self.table(), -1, else_block as int);
                            lemma_funcs_weaken(t0, self.table(), at as int);
                        }
                    },
                    None => {
                        proof {
                            lemma_funcs_weaken(t0, self.table(), at as int);
                        }
                        return ;
                    },
                }
            },
            Node::Tuple(_) => {},
            Node::Range(_) => {},
            Node::ParserError(_) => {},
        }
    }

    /// Analyze every statement of a body against the given scope.
    fn analyze_body(&mut self, bd: &Body, at: usize, pipe: &mut ErrorPipeline)
        requires
            old(self).table().wf(),
            at < old(self).table().scope_count(),
        ensures
            final(self).table().wf(),
            final(self).table().scope_count() >= old(self).table().scope_count(),
            scopes_retained(old(self).table(), final(self).table()),
            funcs_preserved_except(old(self).table(), final(self).table(), at as int),
            appended_with(old(pipe)@, final(pipe)@, ErrorType::SemanticError),
            bd.instructions@.len() == 0 ==> (*final(self) == *old(self) && final(pipe)@ == old(
                pipe,
            )@),
        decreases bd, 0int,
    {
        broadcast use lemma_shape_refl, lemma_shape_trans_b;

        let mut i: usize = 0;
        while i < bd.instructions.len()
            invariant
                self.table().wf(),
                at < self.table().scope_count(),
                self.table().scope_count() >= old(self).table().scope_count(),
                scopes_retained(old(self).table(), self.table()),
                funcs_preserved_except(old(self).table(), self.table(), at as int),
                appended_with(old(pipe)@, pipe@, ErrorType::SemanticError),
                bd.instructions@.len() == 0 ==> (*self == *old(self) && pipe@ == old(pipe)@),
            decreases bd.instructions.len() - i,
        {
            let instruction = &bd.instructions[i];
            let ghost tpre = self.table();
            self.analyze_node(instruction, at, pipe);
            proof {
                lemma_funcs_chain(
                    old(self).table(),
                    tpre,
                    self.table(),
                    at as int,
                    at as int,
                );
            }
            i += 1;
        }
    }

    /// Analyze a whole program against the global scope: populate the
    /// scope tree and accumulate every semantic diagnostic, never
    /// aborting.
    pub fn analyze(&mut self, ast: &Body, pipe: &mut ErrorPipeline)
        requires
            old(self).table().wf(),
            old(self).table().scope_count() >= 1,
        ensures
            final(self).table().wf(),
            final(self).table().scope_count() >= old(self).table().scope_count(),
            scopes_retained(old(self).table(), final(self).table()),
            appended_with(old(pipe)@, final(pipe)@, ErrorType::SemanticError),
            ast.instructions@.len() == 1 ==> (ast.instructions@[0].node
                matches Node::DeclareVar(v) ==> final(self).table().vars_at(0)
                == old(self).table().vars_at(0).insert(
                v.name.node@,
                declared_var_model(v.var_type.node, v.name.pos.0),
            )),
            ast.instructions@.len() == 1 ==> (ast.instructions@[0].node matches Node::Variable(v)
                ==> (old(self).table().find_var_scope(0, v@) is None ==> pushed_diag(
                old(pipe)@,
                final(pipe)@,
                ErrorType::SemanticError,
                "use of undeclared variable '"@ + v@ + "'"@,
                ast.instructions@[0].pos,
                spec_name_len32(v@),
            ))),
            ast.instructions@.len() == 2 ==> (ast.instructions@[0].node matches Node::Variable(v0)
                ==> (ast.instructions@[1].node matches Node::Variable(v1) ==> ((old(
                self,
            ).table().find_var_scope(0, v0@) is None && old(self).table().find_var_scope(0, v1@)
                is None) ==> {
                &&& final(pipe)@.len() == old(pipe)@.len() + 2
                &&& final(pipe)@.subrange(0, old(pipe)@.len() as int) == old(pipe)@
                &&& final(pipe)@[old(pipe)@.len() as int].error_message@
                    == "use of undeclared variable '"@ + v0@ + "'"@
                &&& final(pipe)@[old(pipe)@.len() as int].pos == ast.instructions@[0].pos
                &&& final(pipe)@[old(pipe)@.len() as int + 1].error_message@
                    == "use of undeclared variable '"@ + v1@ + "'"@
                &&& final(pipe)@[old(pipe)@.len() as int + 1].pos == ast.instructions@[1].pos
            }))),
    {
        broadcast use lemma_shape_refl, lemma_shape_trans_b;

        let mut i: usize = 0;
        while i < ast.instructions.len()
            invariant
                self.table().wf(),
                self.table().scope_count() >= old(self).table().scope_count(),
                self.table().scope_count() >= 1,
                scopes_retained(old(self).table(), self.table()),
                appended_with(old(pipe)@, pipe@, ErrorType::SemanticError),
                i <= ast.instructions@.len(),
                ast.instructions@.len() == 2 ==> (ast.instructions@[0].node
                    matches Node::Variable(v0) ==> (ast.instructions@[1].node
                    matches Node::Variable(v1) ==> ((old(self).table().find_var_scope(0, v0@)
                    is None && old(self).table().find_var_scope(0, v1@) is None) ==> ((i == 0
                    && *self == *old(self) && pipe@ == old(pipe)@) || (i == 1 && self.table()
                    == old(self).table() && pushed_diag(
                    old(pipe)@,
                    pipe@,
                    ErrorType::SemanticError,
                    "use of undeclared variable '"@ + v0@ + "'"@,
                    ast.instructions@[0].pos,
                    spec_name_len32(v0@),
                )) || (i >= 2 && {
                    &&& pipe@.len() == old(pipe)@.len() + 2
                    &&& pipe@.subrange(0, old(pipe)@.len() as int) == old(pipe)@
                    &&& pipe@[old(pipe)@.len() as int].error_message@
                        == "use of undeclared variable '"@ + v0@ + "'"@
                    &&& pipe@[old(pipe)@.len() as int].pos == ast.instructions@[0].pos
                    &&& pipe@[old(pipe)@.len() as int + 1].error_message@
                        == "use of undeclared variable '"@ + v1@ + "'"@
                    &&& pipe@[old(pipe)@.len() as int + 1].pos == ast.instructions@[1].pos
                }))))),
                ast.instructions@.len() == 1 ==> ((i == 0 && *self == *old(self) && pipe@ == old(
                    pipe,
                )@) || (i >= 1 && (ast.instructions@[0].node matches Node::DeclareVar(v)
                    ==> self.table().vars_at(0) == old(self).table().vars_at(0).insert(
                    v.name.node@,
                    declared_var_model(v.var_type.node, v.name.pos.0),
                )) && (ast.instructions@[0].node matches Node::Variable(v2) ==> (old(
                    self,
                ).table().find_var_scope(0, v2@) is None ==> pushed_diag(
                    old(pipe)@,
                    pipe@,
                    ErrorType::SemanticError,
                    "use of undeclared variable '"@ + v2@ + "'"@,
                    ast.instructions@[0].pos,
                    spec_name_len32(v2@),
                ))))),
            decreases ast.instructions.len() - i,
        {
            let instruction = &ast.instructions[i];
            self.analyze_node(instruction, 0, pipe);
            i += 1;
        }
    }
}

/// Declare-before-use: where the reference resolves to a binding with a
/// recorded declaration line and type, a reference on a line strictly
/// before that line is exactly one semantic diagnostic and yields no
/// type; at or after it, the reference succeeds with the declared type
/// and adds no diagnostic.
pub proof fn lemma_declare_before_use(
    t0: SymbolTable,
    t1: SymbolTable,
    at: int,
    pos: (u32, u32),
    v: Seq<char>,
    r: Option<DataType>,
    p0: Seq<CompilerError>,
    p1: Seq<CompilerError>,
    f: int,
    ld: u32,
    dt: DataType,
)
    requires
        spec_variable_check(t0, t1, at, pos, v, r, p0, p1),
        t0.find_var_scope(at, v) == Some(f),
        t0.vars_at(f)[v].line_declare == Some(ld),
        t0.vars_at(f)[v].data_type == Some(dt),
    ensures
        pos.0 < ld ==> (r is None && p1.len() == p0.len() + 1 && p1.last().error_type
            is SemanticError),
        pos.0 >= ld ==> (r == Some(dt) && p1 == p0),
{
}

/// Coercion monotonicity: where one arithmetic operand type widens into
/// the other arithmetic one, their sum takes the wider type.
pub proof fn lemma_coercion_monotonic(narrow: DataType, wide: DataType)
    requires
        spec_castable(narrow, wide),
        spec_operator_result(TokenType::AdditionOperator, narrow) is Some,
        !(wide is Array),
        !(wide is Boolean),
        !(wide is Char),
        !(wide is Str),
    ensures
        spec_binop_result(TokenType::AdditionOperator, narrow, wide) == Some(wide),
        spec_binop_result(TokenType::AdditionOperator, wide, narrow) == Some(wide),
{
}

/// The attribute a declaration statement records: the declared type, its
/// clamped size, a zero dimension, and the declaration line, with no
/// references yet and a zeroed version counter.
pub open spec fn declared_var_model(dt: DataType, line: u32) -> VarModel {
    VarModel {
        data_type: Some(dt),
        size: Some(crate::tokens::spec_size_clamped(dt) as u32),
        dimension: Some(0),
        line_declare: Some(line),
        line_ref: Seq::empty(),
        current_version: 0,
    }
}

} // verus!
