//! Token vocabulary of the language: keywords, data types, and the token
//! kinds produced by the external lexer and consumed by the parser.
//!
//! A floating-point literal is carried as [`FloatLit`]: its printed text plus
//! the two range facts the front end reads (whether the value fits the 32-bit
//! and the 64-bit floating formats). The lexer computes those at the edge;
//! no floating-point value flows through the verified core.

use vstd::prelude::*;

verus! {

/// Reserved words of the language.
#[derive(Debug, Clone, Copy, PartialEq, Eq, Structural)]
#[allow(non_camel_case_types)]
pub enum KeyWords {
    FUNC,
    IMPORT,
    AS,
    CONST,
    FOR,
    IN,
    WHILE,
    IF,
    ELSE,
    ELSEIF,
    RETURN,
    LET,
}

/// A fixed-size array type: element count and element type.
#[derive(Debug)]
pub struct Array {
    pub length: u32,
    pub data_type: Box<DataType>,
}

/// The declarable types of the language. `Str` carries the string length,
/// `Array` is recursive.
#[derive(Debug)]
pub enum DataType {
    Void,
    I8,
    I16,
    I32,
    I64,
    U8,
    U16,
    U32,
    U64,
    F32,
    F64,
    Char,
    Boolean,
    Str(u32),
    Array(Array),
}

impl Clone for Array {
    fn clone(&self) -> (r: Self)
        ensures
            r == *self,
    {
        Array { length: self.length, data_type: Box::new((*self.data_type).clone()) }
    }
}

impl Clone for DataType {
    fn clone(&self) -> (r: Self)
        ensures
            r == *self,
        decreases self,
    {
        match self {
            DataType::Void => DataType::Void,
            DataType::I8 => DataType::I8,
            DataType::I16 => DataType::I16,
            DataType::I32 => DataType::I32,
            DataType::I64 => DataType::I64,
            DataType::U8 => DataType::U8,
            DataType::U16 => DataType::U16,
            DataType::U32 => DataType::U32,
            DataType::U64 => DataType::U64,
            DataType::F32 => DataType::F32,
            DataType::F64 => DataType::F64,
            DataType::Char => DataType::Char,
            DataType::Boolean => DataType::Boolean,
            DataType::Str(n) => DataType::Str(*n),
            DataType::Array(arr) => DataType::Array(
                Array { length: arr.length, data_type: Box::new((*arr.data_type).clone()) },
            ),
        }
    }
}

impl PartialEq for DataType {
    fn eq(&self, other: &DataType) -> (r: bool)
        decreases self,
    {
        match (self, other) {
            (DataType::Void, DataType::Void) => true,
            (DataType::I8, DataType::I8) => true,
            (DataType::I16, DataType::I16) => true,
            (DataType::I32, DataType::I32) => true,
            (DataType::I64, DataType::I64) => true,
            (DataType::U8, DataType::U8) => true,
            (DataType::U16, DataType::U16) => true,
            (DataType::U32, DataType::U32) => true,
            (DataType::U64, DataType::U64) => true,
            (DataType::F32, DataType::F32) => true,
            (DataType::F64, DataType::F64) => true,
            (DataType::Char, DataType::Char) => true,
            (DataType::Boolean, DataType::Boolean) => true,
            (DataType::Str(a), DataType::Str(b)) => a == b,
            (DataType::Array(a), DataType::Array(b)) => {
                a.length == b.length && (&*a.data_type).eq(&*b.data_type)
            },
            _ => false,
        }
    }
}

impl vstd::std_specs::cmp::PartialEqSpecImpl for DataType {
    open spec fn obeys_eq_spec() -> bool {
        true
    }

    open spec fn eq_spec(&self, other: &DataType) -> bool {
        *self == *other
    }
}

/// Which constructor of `DataType` a value uses, ignoring the payload.
/// Two types are of the same shape iff their kind codes agree.
pub open spec fn spec_dt_kind(dt: DataType) -> int {
    match dt {
        DataType::Void => 0,
        DataType::I8 => 1,
        DataType::I16 => 2,
        DataType::I32 => 3,
        DataType::I64 => 4,
        DataType::U8 => 5,
        DataType::U16 => 6,
        DataType::U32 => 7,
        DataType::U64 => 8,
        DataType::F32 => 9,
        DataType::F64 => 10,
        DataType::Char => 11,
        DataType::Boolean => 12,
        DataType::Str(_) => 13,
        DataType::Array(_) => 14,
    }
}

/// The printed name of a type, as the diagnostics and the IR spell it.
pub open spec fn spec_type_name(dt: DataType) -> Seq<char>
    decreases dt,
{
    match dt {
        DataType::Void => "void"@,
        DataType::I8 => "i8"@,
        DataType::I16 => "i16"@,
        DataType::I32 => "i32"@,
        DataType::I64 => "i64"@,
        DataType::U8 => "u8"@,
        DataType::U16 => "u16"@,
        DataType::U32 => "u32"@,
        DataType::U64 => "u64"@,
        DataType::F32 => "f32"@,
        DataType::F64 => "f64"@,
        DataType::Char => "char"@,
        DataType::Boolean => "bool"@,
        DataType::Str(_) => "str"@,
        DataType::Array(arr) => "array ["@ + spec_type_name(*arr.data_type) + "]"@,
    }
}

/// The size in bytes the front end assigns to a value of this type: a
/// numeric type occupies its bit width divided by eight, a boolean one
/// byte, a character or string handle four, and an array its length times
/// its element size.
pub open spec fn spec_size_in_bytes(dt: DataType) -> int
    decreases dt,
{
    match dt {
        DataType::Void => 0,
        DataType::I8 => 1,
        DataType::I16 => 2,
        DataType::I32 => 4,
        DataType::I64 => 8,
        DataType::U8 => 1,
        DataType::U16 => 2,
        DataType::U32 => 4,
        DataType::U64 => 8,
        DataType::F32 => 4,
        DataType::F64 => 8,
        DataType::Char => 4,
        DataType::Boolean => 1,
        DataType::Str(_) => 4,
        DataType::Array(arr) => arr.length * spec_size_in_bytes(*arr.data_type),
    }
}

/// Whether every nested size product stays within `u32`, so that
/// [`DataType::get_size_in_bytes`] can compute it.
pub open spec fn size_computable(dt: DataType) -> bool
    decreases dt,
{
    match dt {
        DataType::Array(arr) => size_computable(*arr.data_type)
            && arr.length * spec_size_in_bytes(*arr.data_type) <= u32::MAX,
        _ => true,
    }
}

impl DataType {
    /// Which constructor this value uses; see [`spec_dt_kind`].
    pub fn kind_id(&self) -> (r: u32)
        ensures
            r == spec_dt_kind(*self),
    {
        match self {
            DataType::Void => 0,
            DataType::I8 => 1,
            DataType::I16 => 2,
            DataType::I32 => 3,
            DataType::I64 => 4,
            DataType::U8 => 5,
            DataType::U16 => 6,
            DataType::U32 => 7,
            DataType::U64 => 8,
            DataType::F32 => 9,
            DataType::F64 => 10,
            DataType::Char => 11,
            DataType::Boolean => 12,
            DataType::Str(_) => 13,
            DataType::Array(_) => 14,
        }
    }

    /// Whether this type and `other` use the same constructor, payloads aside.
    pub fn same_kind(&self, other: &DataType) -> (r: bool)
        ensures
            r == (spec_dt_kind(*self) == spec_dt_kind(*other)),
    {
        self.kind_id() == other.kind_id()
    }

    /// The printed name of the type.
    pub fn to_string(&self) -> (r: String)
        ensures
            r@ == spec_type_name(*self),
        decreases self,
    {
        match self {
            DataType::Void => "void".to_owned(),
            DataType::I8 => "i8".to_owned(),
            DataType::I16 => "i16".to_owned(),
            DataType::I32 => "i32".to_owned(),
            DataType::I64 => "i64".to_owned(),
            DataType::U8 => "u8".to_owned(),
            DataType::U16 => "u16".to_owned(),
            DataType::U32 => "u32".to_owned(),
            DataType::U64 => "u64".to_owned(),
            DataType::F32 => "f32".to_owned(),
            DataType::F64 => "f64".to_owned(),
            DataType::Char => "char".to_owned(),
            DataType::Boolean => "bool".to_owned(),
            DataType::Str(_) => "str".to_owned(),
            DataType::Array(arr) => {
                let mut s = "array [".to_owned();
                s.append(arr.data_type.to_string().as_str());
                s.append("]");
                s
            },
        }
    }

    /// The size in bytes assigned to a value of this type; see
    /// [`spec_size_in_bytes`].
    pub fn get_size_in_bytes(&self) -> (r: u32)
        requires
            size_computable(*self),
        ensures
            r == spec_size_in_bytes(*self),
        decreases self,
    {
        match self {
            DataType::Void => 0,
            DataType::I8 => 1,
            DataType::I16 => 2,
            DataType::I32 => 4,
            DataType::I64 => 8,
            DataType::U8 => 1,
            DataType::U16 => 2,
            DataType::U32 => 4,
            DataType::U64 => 8,
            DataType::F32 => 4,
            DataType::F64 => 8,
            DataType::Char => 4,
            DataType::Boolean => 1,
            DataType::Str(_) => 4,
            DataType::Array(arr) => arr.length * arr.data_type.get_size_in_bytes(),
        }
    }
}

/// The size the analyzer records for a declared type: the true size where
/// it fits the counter, clamped at the counter's top otherwise.
pub open spec fn spec_size_clamped(dt: DataType) -> int
    decreases dt,
{
    match dt {
        DataType::Array(arr) => {
            let inner = spec_size_clamped(*arr.data_type);
            if arr.length * inner <= u32::MAX {
                arr.length * inner
            } else {
                u32::MAX as int
            }
        },
        _ => spec_size_in_bytes(dt),
    }
}

impl DataType {
    /// The size recorded for a declared type, clamped at the counter's
    /// top; see [`spec_size_clamped`].
    pub fn size_in_bytes_clamped(&self) -> (r: u32)
        ensures
            r == spec_size_clamped(*self),
        decreases self,
    {
        match self {
            DataType::Array(arr) => {
                let inner = arr.data_type.size_in_bytes_clamped();
                if inner != 0 && arr.length > u32::MAX / inner {
                    proof {
                        assert(arr.length * inner > u32::MAX) by (nonlinear_arith)
                            requires
                                inner > 0,
                                arr.length > u32::MAX as int / inner as int,
                        ;
                    }
                    u32::MAX
                } else {
                    proof {
                        if inner != 0 {
                            assert(arr.length * inner <= u32::MAX) by (nonlinear_arith)
                                requires
                                    inner > 0,
                                    arr.length <= u32::MAX as int / inner as int,
                            ;
                        }
                    }
                    arr.length * inner
                }
            },
            _ => self.get_size_in_bytes(),
        }
    }
}

/// A floating-point literal as the verified core sees it: the text the
/// lexer matched (used verbatim when printing), and whether the parsed value
/// lies within the 32-bit and within the 64-bit floating range. The lexer
/// computes the two facts when it parses the digits.
#[derive(Debug)]
pub struct FloatLit {
    pub text: String,
    pub fits32: bool,
    pub fits64: bool,
}

/// Value-likeness for float literals: same text and same range facts.
pub open spec fn float_like(a: FloatLit, b: FloatLit) -> bool {
    a.text@ == b.text@ && a.fits32 == b.fits32 && a.fits64 == b.fits64
}

impl Clone for FloatLit {
    fn clone(&self) -> (r: Self)
        ensures
            float_like(*self, r),
    {
        FloatLit { text: self.text.clone(), fits32: self.fits32, fits64: self.fits64 }
    }
}

/// Everything the lexer can hand the parser.
#[derive(Debug)]
pub enum TokenType {
    Keyword(KeyWords),
    DataType(DataType),
    Identifier(String),
    IntLiteral(i128),
    FloatLiteral(FloatLit),
    StringLiteral(String),
    CharLiteral(char),
    BooleanLiteral(bool),
    AdditionOperator,
    SubtractionOperator,
    MultiplicationOperator,
    DivisionOperator,
    ModuloOperator,
    AssignmentOperator,
    Equal,
    Less,
    LessEqual,
    More,
    MoreEqual,
    And,
    Or,
    Not,
    LeftParen,
    RightParen,
    LeftBrace,
    RightBrace,
    LeftBracket,
    RightBracket,
    Comma,
    Range,
    Dot,
    SingleQuote,
    DoubleQuote,
    ScopeResolution,
    Colon,
    SemiColon,
    EOF,
}

/// Which constructor of `TokenType` a token uses, ignoring the payload.
pub open spec fn spec_tt_kind(t: TokenType) -> int {
    match t {
        TokenType::Keyword(_) => 0,
        TokenType::DataType(_) => 1,
        TokenType::Identifier(_) => 2,
        TokenType::IntLiteral(_) => 3,
        TokenType::FloatLiteral(_) => 4,
        TokenType::StringLiteral(_) => 5,
        TokenType::CharLiteral(_) => 6,
        TokenType::BooleanLiteral(_) => 7,
        TokenType::AdditionOperator => 8,
        TokenType::SubtractionOperator => 9,
        TokenType::MultiplicationOperator => 10,
        TokenType::DivisionOperator => 11,
        TokenType::ModuloOperator => 12,
        TokenType::AssignmentOperator => 13,
        TokenType::Equal => 14,
        TokenType::Less => 15,
        TokenType::LessEqual => 16,
        TokenType::More => 17,
        TokenType::MoreEqual => 18,
        TokenType::And => 19,
        TokenType::Or => 20,
        TokenType::Not => 21,
        TokenType::LeftParen => 22,
        TokenType::RightParen => 23,
        TokenType::LeftBrace => 24,
        TokenType::RightBrace => 25,
        TokenType::LeftBracket => 26,
        TokenType::RightBracket => 27,
        TokenType::Comma => 28,
        TokenType::Range => 29,
        TokenType::Dot => 30,
        TokenType::SingleQuote => 31,
        TokenType::DoubleQuote => 32,
        TokenType::ScopeResolution => 33,
        TokenType::Colon => 34,
        TokenType::SemiColon => 35,
        TokenType::EOF => 36,
    }
}

/// Value-likeness for tokens: same constructor and equal payloads, strings
/// compared by their character sequences.
pub open spec fn tt_like(a: TokenType, b: TokenType) -> bool {
    match (a, b) {
        (TokenType::Keyword(x), TokenType::Keyword(y)) => x == y,
        (TokenType::DataType(x), TokenType::DataType(y)) => x == y,
        (TokenType::Identifier(x), TokenType::Identifier(y)) => x@ == y@,
        (TokenType::IntLiteral(x), TokenType::IntLiteral(y)) => x == y,
        (TokenType::FloatLiteral(x), TokenType::FloatLiteral(y)) => float_like(x, y),
        (TokenType::StringLiteral(x), TokenType::StringLiteral(y)) => x@ == y@,
        (TokenType::CharLiteral(x), TokenType::CharLiteral(y)) => x == y,
        (TokenType::BooleanLiteral(x), TokenType::BooleanLiteral(y)) => x == y,
        _ => spec_tt_kind(a) == spec_tt_kind(b),
    }
}

impl TokenType {
    /// Which constructor this token uses; see [`spec_tt_kind`].
    pub fn kind_id(&self) -> (r: u32)
        ensures
            r == spec_tt_kind(*self),
    {
        match self {
            TokenType::Keyword(_) => 0,
            TokenType::DataType(_) => 1,
            TokenType::Identifier(_) => 2,
            TokenType::IntLiteral(_) => 3,
            TokenType::FloatLiteral(_) => 4,
            TokenType::StringLiteral(_) => 5,
            TokenType::CharLiteral(_) => 6,
            TokenType::BooleanLiteral(_) => 7,
            TokenType::AdditionOperator => 8,
            TokenType::SubtractionOperator => 9,
            TokenType::MultiplicationOperator => 10,
            TokenType::DivisionOperator => 11,
            TokenType::ModuloOperator => 12,
            TokenType::AssignmentOperator => 13,
            TokenType::Equal => 14,
            TokenType::Less => 15,
            TokenType::LessEqual => 16,
            TokenType::More => 17,
            TokenType::MoreEqual => 18,
            TokenType::And => 19,
            TokenType::Or => 20,
            TokenType::Not => 21,
            TokenType::LeftParen => 22,
            TokenType::RightParen => 23,
            TokenType::LeftBrace => 24,
            TokenType::RightBrace => 25,
            TokenType::LeftBracket => 26,
            TokenType::RightBracket => 27,
            TokenType::Comma => 28,
            TokenType::Range => 29,
            TokenType::Dot => 30,
            TokenType::SingleQuote => 31,
            TokenType::DoubleQuote => 32,
            TokenType::ScopeResolution => 33,
            TokenType::Colon => 34,
            TokenType::SemiColon => 35,
            TokenType::EOF => 36,
        }
    }
}

impl PartialEq for TokenType {
    fn eq(&self, other: &TokenType) -> (r: bool) {
        match (self, other) {
            (TokenType::Keyword(x), TokenType::Keyword(y)) => x == y,
            (TokenType::DataType(x), TokenType::DataType(y)) => x.eq(y),
            (TokenType::Identifier(x), TokenType::Identifier(y)) => x.eq(y),
            (TokenType::IntLiteral(x), TokenType::IntLiteral(y)) => x == y,
            (TokenType::FloatLiteral(x), TokenType::FloatLiteral(y)) => {
                x.text.eq(&y.text) && x.fits32 == y.fits32 && x.fits64 == y.fits64
            },
            (TokenType::StringLiteral(x), TokenType::StringLiteral(y)) => x.eq(y),
            (TokenType::CharLiteral(x), TokenType::CharLiteral(y)) => x == y,
            (TokenType::BooleanLiteral(x), TokenType::BooleanLiteral(y)) => x == y,
            _ => self.kind_id() == other.kind_id() && {
                let payloadless = match self {
                    TokenType::Keyword(_)
                    | TokenType::DataType(_)
                    | TokenType::Identifier(_)
                    | TokenType::IntLiteral(_)
                    | TokenType::FloatLiteral(_)
                    | TokenType::StringLiteral(_)
                    | TokenType::CharLiteral(_)
                    | TokenType::BooleanLiteral(_) => false,
                    _ => true,
                };
                payloadless
            },
        }
    }
}

impl vstd::std_specs::cmp::PartialEqSpecImpl for TokenType {
    open spec fn obeys_eq_spec() -> bool {
        true
    }

    open spec fn eq_spec(&self, other: &TokenType) -> bool {
        tt_like(*self, *other)
    }
}

impl Clone for TokenType {
    fn clone(&self) -> (r: Self)
        ensures
            tt_like(*self, r),
    {
        match self {
            TokenType::Keyword(k) => TokenType::Keyword(*k),
            TokenType::DataType(dt) => TokenType::DataType(dt.clone()),
            TokenType::Identifier(s) => TokenType::Identifier(s.clone()),
            TokenType::IntLiteral(i) => TokenType::IntLiteral(*i),
            TokenType::FloatLiteral(f) => TokenType::FloatLiteral(f.clone()),
            TokenType::StringLiteral(s) => TokenType::StringLiteral(s.clone()),
            TokenType::CharLiteral(c) => TokenType::CharLiteral(*c),
            TokenType::BooleanLiteral(b) => TokenType::BooleanLiteral(*b),
            TokenType::AdditionOperator => TokenType::AdditionOperator,
            TokenType::SubtractionOperator => TokenType::SubtractionOperator,
            TokenType::MultiplicationOperator => TokenType::MultiplicationOperator,
            TokenType::DivisionOperator => TokenType::DivisionOperator,
            TokenType::ModuloOperator => TokenType::ModuloOperator,
            TokenType::AssignmentOperator => TokenType::AssignmentOperator,
            TokenType::Equal => TokenType::Equal,
            TokenType::Less => TokenType::Less,
            TokenType::LessEqual => TokenType::LessEqual,
            TokenType::More => TokenType::More,
            TokenType::MoreEqual => TokenType::MoreEqual,
            TokenType::And => TokenType::And,
            TokenType::Or => TokenType::Or,
            TokenType::Not => TokenType::Not,
            TokenType::LeftParen => TokenType::LeftParen,
            TokenType::RightParen => TokenType::RightParen,
            TokenType::LeftBrace => TokenType::LeftBrace,
            TokenType::RightBrace => TokenType::RightBrace,
            TokenType::LeftBracket => TokenType::LeftBracket,
            TokenType::RightBracket => TokenType::RightBracket,
            TokenType::Comma => TokenType::Comma,
            TokenType::Range => TokenType::Range,
            TokenType::Dot => TokenType::Dot,
            TokenType::SingleQuote => TokenType::SingleQuote,
            TokenType::DoubleQuote => TokenType::DoubleQuote,
            TokenType::ScopeResolution => TokenType::ScopeResolution,
            TokenType::Colon => TokenType::Colon,
            TokenType::SemiColon => TokenType::SemiColon,
            TokenType::EOF => TokenType::EOF,
        }
    }
}

/// One token of input: its kind, the length of the matched text, and its
/// (line, column) source position.
#[derive(Debug)]
pub struct Token {
    pub token: TokenType,
    pub length: u32,
    pub pos: (u32, u32),
}

/// Value-likeness for whole tokens.
pub open spec fn token_like(a: Token, b: Token) -> bool {
    tt_like(a.token, b.token) && a.length == b.length && a.pos == b.pos
}

impl Clone for Token {
    fn clone(&self) -> (r: Self)
        ensures
            token_like(*self, r),
    {
        Token { token: self.token.clone(), length: self.length, pos: self.pos }
    }
}

} // verus!
