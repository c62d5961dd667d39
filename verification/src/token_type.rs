//! The kinds of tokens of the ConvCC-2025-1 language and their names in the
//! grammar files.

use vstd::prelude::*;
use crate::expression::Operator;
use crate::text::str_eq;

verus! {

/// A token kind. The name of each kind, as written in the grammar and table
/// files, is given by [`TokenType::name`].
#[derive(Clone, Copy, Debug, PartialEq, Eq, Hash, Structural)]
pub enum TokenType {
    Comma,
    ConstFloat,
    ConstInt,
    ConstNull,
    ConstString,
    Eof,
    FuncId,
    Id,
    KwBreak,
    KwDef,
    KwElse,
    KwFor,
    KwIf,
    KwNew,
    KwPrint,
    KwRead,
    KwReturn,
    Lbrace,
    Lbracket,
    Lparenthesis,
    OpAssign,
    OpDivision,
    OpEq,
    OpGe,
    OpGt,
    OpLe,
    OpLt,
    OpMinus,
    OpModular,
    OpMult,
    OpNe,
    OpPlus,
    Rbrace,
    Rbracket,
    Rparenthesis,
    Semicolon,
    VarType,
}

/// A name that denotes no token kind.
#[derive(Clone, Copy, Debug, PartialEq, Eq)]
pub struct UnknownTokenName;

/// The name of a token kind in the grammar files.
pub open spec fn token_name(t: TokenType) -> Seq<char> {
    match t {
        TokenType::Comma => "comma"@,
        TokenType::ConstFloat => "const_float"@,
        TokenType::ConstInt => "const_int"@,
        TokenType::ConstNull => "const_null"@,
        TokenType::ConstString => "const_string"@,
        TokenType::Eof => "$"@,
        TokenType::FuncId => "func_id"@,
        TokenType::Id => "id"@,
        TokenType::KwBreak => "kw_break"@,
        TokenType::KwDef => "kw_def"@,
        TokenType::KwElse => "kw_else"@,
        TokenType::KwFor => "kw_for"@,
        TokenType::KwIf => "kw_if"@,
        TokenType::KwNew => "kw_new"@,
        TokenType::KwPrint => "kw_print"@,
        TokenType::KwRead => "kw_read"@,
        TokenType::KwReturn => "kw_return"@,
        TokenType::Lbrace => "lbrace"@,
        TokenType::Lbracket => "lbracket"@,
        TokenType::Lparenthesis => "lparenthesis"@,
        TokenType::OpAssign => "op_assign"@,
        TokenType::OpDivision => "op_division"@,
        TokenType::OpEq => "op_eq"@,
        TokenType::OpGe => "op_ge"@,
        TokenType::OpGt => "op_gt"@,
        TokenType::OpLe => "op_le"@,
        TokenType::OpLt => "op_lt"@,
        TokenType::OpMinus => "op_minus"@,
        TokenType::OpModular => "op_modular"@,
        TokenType::OpMult => "op_mult"@,
        TokenType::OpNe => "op_ne"@,
        TokenType::OpPlus => "op_plus"@,
        TokenType::Rbrace => "rbrace"@,
        TokenType::Rbracket => "rbracket"@,
        TokenType::Rparenthesis => "rparenthesis"@,
        TokenType::Semicolon => "semicolon"@,
        TokenType::VarType => "var_type"@,
    }
}

/// How a token kind is written by `{:?}`: the name of its variant.
pub open spec fn token_debug(t: TokenType) -> Seq<char> {
    match t {
        TokenType::Comma => "Comma"@,
        TokenType::ConstFloat => "ConstFloat"@,
        TokenType::ConstInt => "ConstInt"@,
        TokenType::ConstNull => "ConstNull"@,
        TokenType::ConstString => "ConstString"@,
        TokenType::Eof => "Eof"@,
        TokenType::FuncId => "FuncId"@,
        TokenType::Id => "Id"@,
        TokenType::KwBreak => "KwBreak"@,
        TokenType::KwDef => "KwDef"@,
        TokenType::KwElse => "KwElse"@,
        TokenType::KwFor => "KwFor"@,
        TokenType::KwIf => "KwIf"@,
        TokenType::KwNew => "KwNew"@,
        TokenType::KwPrint => "KwPrint"@,
        TokenType::KwRead => "KwRead"@,
        TokenType::KwReturn => "KwReturn"@,
        TokenType::Lbrace => "Lbrace"@,
        TokenType::Lbracket => "Lbracket"@,
        TokenType::Lparenthesis => "Lparenthesis"@,
        TokenType::OpAssign => "OpAssign"@,
        TokenType::OpDivision => "OpDivision"@,
        TokenType::OpEq => "OpEq"@,
        TokenType::OpGe => "OpGe"@,
        TokenType::OpGt => "OpGt"@,
        TokenType::OpLe => "OpLe"@,
        TokenType::OpLt => "OpLt"@,
        TokenType::OpMinus => "OpMinus"@,
        TokenType::OpModular => "OpModular"@,
        TokenType::OpMult => "OpMult"@,
        TokenType::OpNe => "OpNe"@,
        TokenType::OpPlus => "OpPlus"@,
        TokenType::Rbrace => "Rbrace"@,
        TokenType::Rbracket => "Rbracket"@,
        TokenType::Rparenthesis => "Rparenthesis"@,
        TokenType::Semicolon => "Semicolon"@,
        TokenType::VarType => "VarType"@,
    }
}

/// The token kind that a name denotes, if any.
pub open spec fn token_of_name(s: Seq<char>) -> Option<TokenType> {
    if s == "comma"@ { Some(TokenType::Comma) }
    else if s == "const_float"@ { Some(TokenType::ConstFloat) }
    else if s == "const_int"@ { Some(TokenType::ConstInt) }
    else if s == "const_null"@ { Some(TokenType::ConstNull) }
    else if s == "const_string"@ { Some(TokenType::ConstString) }
    else if s == "$"@ { Some(TokenType::Eof) }
    else if s == "func_id"@ { Some(TokenType::FuncId) }
    else if s == "id"@ { Some(TokenType::Id) }
    else if s == "kw_break"@ { Some(TokenType::KwBreak) }
    else if s == "kw_def"@ { Some(TokenType::KwDef) }
    else if s == "kw_else"@ { Some(TokenType::KwElse) }
    else if s == "kw_for"@ { Some(TokenType::KwFor) }
    else if s == "kw_if"@ { Some(TokenType::KwIf) }
    else if s == "kw_new"@ { Some(TokenType::KwNew) }
    else if s == "kw_print"@ { Some(TokenType::KwPrint) }
    else if s == "kw_read"@ { Some(TokenType::KwRead) }
    else if s == "kw_return"@ { Some(TokenType::KwReturn) }
    else if s == "lbrace"@ { Some(TokenType::Lbrace) }
    else if s == "lbracket"@ { Some(TokenType::Lbracket) }
    else if s == "lparenthesis"@ { Some(TokenType::Lparenthesis) }
    else if s == "op_assign"@ { Some(TokenType::OpAssign) }
    else if s == "op_division"@ { Some(TokenType::OpDivision) }
    else if s == "op_eq"@ { Some(TokenType::OpEq) }
    else if s == "op_ge"@ { Some(TokenType::OpGe) }
    else if s == "op_gt"@ { Some(TokenType::OpGt) }
    else if s == "op_le"@ { Some(TokenType::OpLe) }
    else if s == "op_lt"@ { Some(TokenType::OpLt) }
    else if s == "op_minus"@ { Some(TokenType::OpMinus) }
    else if s == "op_modular"@ { Some(TokenType::OpModular) }
    else if s == "op_mult"@ { Some(TokenType::OpMult) }
    else if s == "op_ne"@ { Some(TokenType::OpNe) }
    else if s == "op_plus"@ { Some(TokenType::OpPlus) }
    else if s == "rbrace"@ { Some(TokenType::Rbrace) }
    else if s == "rbracket"@ { Some(TokenType::Rbracket) }
    else if s == "rparenthesis"@ { Some(TokenType::Rparenthesis) }
    else if s == "semicolon"@ { Some(TokenType::Semicolon) }
    else if s == "var_type"@ { Some(TokenType::VarType) }
    else { None }
}

/// The kinds whose tokens carry a value (identifiers, constants and type
/// keywords).
pub open spec fn spec_has_value(t: TokenType) -> bool {
    t == TokenType::Id || t == TokenType::FuncId || t == TokenType::ConstInt
        || t == TokenType::ConstFloat || t == TokenType::ConstString || t == TokenType::VarType
}

/// The kinds that name a variable or a function.
pub open spec fn spec_is_id(t: TokenType) -> bool {
    t == TokenType::Id || t == TokenType::FuncId
}

/// The kinds that stand for an arithmetic or comparison operator of an
/// expression tree.
pub open spec fn spec_is_operator(t: TokenType) -> bool {
    match t {
        TokenType::OpEq => true,
        TokenType::OpGt => true,
        TokenType::OpGe => true,
        TokenType::OpLt => true,
        TokenType::OpLe => true,
        TokenType::OpPlus => true,
        TokenType::OpMinus => true,
        TokenType::OpMult => true,
        TokenType::OpDivision => true,
        TokenType::OpModular => true,
        _ => false,
    }
}

/// The expression-tree operator of an operator token kind.
pub open spec fn spec_operator(t: TokenType) -> Operator
    recommends
        spec_is_operator(t),
{
    match t {
        TokenType::OpEq => Operator::Eq,
        TokenType::OpGt => Operator::Gt,
        TokenType::OpGe => Operator::Ge,
        TokenType::OpLt => Operator::Lt,
        TokenType::OpLe => Operator::Le,
        TokenType::OpPlus => Operator::Plus,
        TokenType::OpMinus => Operator::Minus,
        TokenType::OpMult => Operator::Multiply,
        TokenType::OpDivision => Operator::Division,
        TokenType::OpModular => Operator::Modular,
        _ => Operator::Eq,
    }
}

/// The position of a token kind in the declaration order.
pub open spec fn token_index(t: TokenType) -> nat {
    match t {
        TokenType::Comma => 0,
        TokenType::ConstFloat => 1,
        TokenType::ConstInt => 2,
        TokenType::ConstNull => 3,
        TokenType::ConstString => 4,
        TokenType::Eof => 5,
        TokenType::FuncId => 6,
        TokenType::Id => 7,
        TokenType::KwBreak => 8,
        TokenType::KwDef => 9,
        TokenType::KwElse => 10,
        TokenType::KwFor => 11,
        TokenType::KwIf => 12,
        TokenType::KwNew => 13,
        TokenType::KwPrint => 14,
        TokenType::KwRead => 15,
        TokenType::KwReturn => 16,
        TokenType::Lbrace => 17,
        TokenType::Lbracket => 18,
        TokenType::Lparenthesis => 19,
        TokenType::OpAssign => 20,
        TokenType::OpDivision => 21,
        TokenType::OpEq => 22,
        TokenType::OpGe => 23,
        TokenType::OpGt => 24,
        TokenType::OpLe => 25,
        TokenType::OpLt => 26,
        TokenType::OpMinus => 27,
        TokenType::OpModular => 28,
        TokenType::OpMult => 29,
        TokenType::OpNe => 30,
        TokenType::OpPlus => 31,
        TokenType::Rbrace => 32,
        TokenType::Rbracket => 33,
        TokenType::Rparenthesis => 34,
        TokenType::Semicolon => 35,
        TokenType::VarType => 36,
    }
}

impl TokenType {
    /// The name of this kind in the grammar files; it is also how a token
    /// without a value is displayed.
    pub fn name(&self) -> (r: &'static str)
        ensures
            r@ == token_name(*self),
    {
        match self {
            TokenType::Comma => "comma",
            TokenType::ConstFloat => "const_float",
            TokenType::ConstInt => "const_int",
            TokenType::ConstNull => "const_null",
            TokenType::ConstString => "const_string",
            TokenType::Eof => "$",
            TokenType::FuncId => "func_id",
            TokenType::Id => "id",
            TokenType::KwBreak => "kw_break",
            TokenType::KwDef => "kw_def",
            TokenType::KwElse => "kw_else",
            TokenType::KwFor => "kw_for",
            TokenType::KwIf => "kw_if",
            TokenType::KwNew => "kw_new",
            TokenType::KwPrint => "kw_print",
            TokenType::KwRead => "kw_read",
            TokenType::KwReturn => "kw_return",
            TokenType::Lbrace => "lbrace",
            TokenType::Lbracket => "lbracket",
            TokenType::Lparenthesis => "lparenthesis",
            TokenType::OpAssign => "op_assign",
            TokenType::OpDivision => "op_division",
            TokenType::OpEq => "op_eq",
            TokenType::OpGe => "op_ge",
            TokenType::OpGt => "op_gt",
            TokenType::OpLe => "op_le",
            TokenType::OpLt => "op_lt",
            TokenType::OpMinus => "op_minus",
            TokenType::OpModular => "op_modular",
            TokenType::OpMult => "op_mult",
            TokenType::OpNe => "op_ne",
            TokenType::OpPlus => "op_plus",
            TokenType::Rbrace => "rbrace",
            TokenType::Rbracket => "rbracket",
            TokenType::Rparenthesis => "rparenthesis",
            TokenType::Semicolon => "semicolon",
            TokenType::VarType => "var_type",
        }
    }

    /// How this kind is written by `{:?}`: the name of its variant.
    pub fn debug_name(&self) -> (r: &'static str)
        ensures
            r@ == token_debug(*self),
    {
        match self {
            TokenType::Comma => "Comma",
            TokenType::ConstFloat => "ConstFloat",
            TokenType::ConstInt => "ConstInt",
            TokenType::ConstNull => "ConstNull",
            TokenType::ConstString => "ConstString",
            TokenType::Eof => "Eof",
            TokenType::FuncId => "FuncId",
            TokenType::Id => "Id",
            TokenType::KwBreak => "KwBreak",
            TokenType::KwDef => "KwDef",
            TokenType::KwElse => "KwElse",
            TokenType::KwFor => "KwFor",
            TokenType::KwIf => "KwIf",
            TokenType::KwNew => "KwNew",
            TokenType::KwPrint => "KwPrint",
            TokenType::KwRead => "KwRead",
            TokenType::KwReturn => "KwReturn",
            TokenType::Lbrace => "Lbrace",
            TokenType::Lbracket => "Lbracket",
            TokenType::Lparenthesis => "Lparenthesis",
            TokenType::OpAssign => "OpAssign",
            TokenType::OpDivision => "OpDivision",
            TokenType::OpEq => "OpEq",
            TokenType::OpGe => "OpGe",
            TokenType::OpGt => "OpGt",
            TokenType::OpLe => "OpLe",
            TokenType::OpLt => "OpLt",
            TokenType::OpMinus => "OpMinus",
            TokenType::OpModular => "OpModular",
            TokenType::OpMult => "OpMult",
            TokenType::OpNe => "OpNe",
            TokenType::OpPlus => "OpPlus",
            TokenType::Rbrace => "Rbrace",
            TokenType::Rbracket => "Rbracket",
            TokenType::Rparenthesis => "Rparenthesis",
            TokenType::Semicolon => "Semicolon",
            TokenType::VarType => "VarType",
        }
    }

    /// Reads a token kind from its name.
    pub fn from_str(s: &str) -> (r: Result<TokenType, UnknownTokenName>)
        ensures
            r == (match token_of_name(s@) {
                Some(t) => Ok::<TokenType, UnknownTokenName>(t),
                None => Err(UnknownTokenName),
            }),
    {
        if str_eq(s, "comma") { return Ok(TokenType::Comma); }
        if str_eq(s, "const_float") { return Ok(TokenType::ConstFloat); }
        if str_eq(s, "const_int") { return Ok(TokenType::ConstInt); }
        if str_eq(s, "const_null") { return Ok(TokenType::ConstNull); }
        if str_eq(s, "const_string") { return Ok(TokenType::ConstString); }
        if str_eq(s, "$") { return Ok(TokenType::Eof); }
        if str_eq(s, "func_id") { return Ok(TokenType::FuncId); }
        if str_eq(s, "id") { return Ok(TokenType::Id); }
        if str_eq(s, "kw_break") { return Ok(TokenType::KwBreak); }
        if str_eq(s, "kw_def") { return Ok(TokenType::KwDef); }
        if str_eq(s, "kw_else") { return Ok(TokenType::KwElse); }
        if str_eq(s, "kw_for") { return Ok(TokenType::KwFor); }
        if str_eq(s, "kw_if") { return Ok(TokenType::KwIf); }
        if str_eq(s, "kw_new") { return Ok(TokenType::KwNew); }
        if str_eq(s, "kw_print") { return Ok(TokenType::KwPrint); }
        if str_eq(s, "kw_read") { return Ok(TokenType::KwRead); }
        if str_eq(s, "kw_return") { return Ok(TokenType::KwReturn); }
        if str_eq(s, "lbrace") { return Ok(TokenType::Lbrace); }
        if str_eq(s, "lbracket") { return Ok(TokenType::Lbracket); }
        if str_eq(s, "lparenthesis") { return Ok(TokenType::Lparenthesis); }
        if str_eq(s, "op_assign") { return Ok(TokenType::OpAssign); }
        if str_eq(s, "op_division") { return Ok(TokenType::OpDivision); }
        if str_eq(s, "op_eq") { return Ok(TokenType::OpEq); }
        if str_eq(s, "op_ge") { return Ok(TokenType::OpGe); }
        if str_eq(s, "op_gt") { return Ok(TokenType::OpGt); }
        if str_eq(s, "op_le") { return Ok(TokenType::OpLe); }
        if str_eq(s, "op_lt") { return Ok(TokenType::OpLt); }
        if str_eq(s, "op_minus") { return Ok(TokenType::OpMinus); }
        if str_eq(s, "op_modular") { return Ok(TokenType::OpModular); }
        if str_eq(s, "op_mult") { return Ok(TokenType::OpMult); }
        if str_eq(s, "op_ne") { return Ok(TokenType::OpNe); }
        if str_eq(s, "op_plus") { return Ok(TokenType::OpPlus); }
        if str_eq(s, "rbrace") { return Ok(TokenType::Rbrace); }
        if str_eq(s, "rbracket") { return Ok(TokenType::Rbracket); }
        if str_eq(s, "rparenthesis") { return Ok(TokenType::Rparenthesis); }
        if str_eq(s, "semicolon") { return Ok(TokenType::Semicolon); }
        if str_eq(s, "var_type") { return Ok(TokenType::VarType); }
        Err(UnknownTokenName)
    }

    /// The position of this kind in the declaration order.
    pub fn index(&self) -> (r: u64)
        ensures
            r == token_index(*self),
            r < 37,
    {
        match self {
            TokenType::Comma => 0,
            TokenType::ConstFloat => 1,
            TokenType::ConstInt => 2,
            TokenType::ConstNull => 3,
            TokenType::ConstString => 4,
            TokenType::Eof => 5,
            TokenType::FuncId => 6,
            TokenType::Id => 7,
            TokenType::KwBreak => 8,
            TokenType::KwDef => 9,
            TokenType::KwElse => 10,
            TokenType::KwFor => 11,
            TokenType::KwIf => 12,
            TokenType::KwNew => 13,
            TokenType::KwPrint => 14,
            TokenType::KwRead => 15,
            TokenType::KwReturn => 16,
            TokenType::Lbrace => 17,
            TokenType::Lbracket => 18,
            TokenType::Lparenthesis => 19,
            TokenType::OpAssign => 20,
            TokenType::OpDivision => 21,
            TokenType::OpEq => 22,
            TokenType::OpGe => 23,
            TokenType::OpGt => 24,
            TokenType::OpLe => 25,
            TokenType::OpLt => 26,
            TokenType::OpMinus => 27,
            TokenType::OpModular => 28,
            TokenType::OpMult => 29,
            TokenType::OpNe => 30,
            TokenType::OpPlus => 31,
            TokenType::Rbrace => 32,
            TokenType::Rbracket => 33,
            TokenType::Rparenthesis => 34,
            TokenType::Semicolon => 35,
            TokenType::VarType => 36,
        }
    }

    /// Whether tokens of this kind carry a value.
    pub fn has_value(&self) -> (r: bool)
        ensures
            r == spec_has_value(*self),
    {
        match self {
            TokenType::Id | TokenType::FuncId | TokenType::ConstInt | TokenType::ConstFloat
            | TokenType::ConstString | TokenType::VarType => true,
            _ => false,
        }
    }

    /// Whether this kind names a variable or a function.
    pub fn is_id(&self) -> (r: bool)
        ensures
            r == spec_is_id(*self),
    {
        match self {
            TokenType::Id | TokenType::FuncId => true,
            _ => false,
        }
    }

    /// The expression-tree operator of an operator token kind.
    pub fn get_operator_type(&self) -> (r: Operator)
        requires
            spec_is_operator(*self),
        ensures
            r == spec_operator(*self),
    {
        match self {
            TokenType::OpEq => Operator::Eq,
            TokenType::OpGt => Operator::Gt,
            TokenType::OpGe => Operator::Ge,
            TokenType::OpLt => Operator::Lt,
            TokenType::OpLe => Operator::Le,
            TokenType::OpPlus => Operator::Plus,
            TokenType::OpMinus => Operator::Minus,
            TokenType::OpMult => Operator::Multiply,
            TokenType::OpDivision => Operator::Division,
            TokenType::OpModular => Operator::Modular,
            _ => Operator::Eq,
        }
    }
}

} // verus!
