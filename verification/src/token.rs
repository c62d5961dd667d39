//! Tokens: a kind, an optional value and the position where the token
//! starts.

use vstd::prelude::*;
use crate::token_type::{TokenType, token_name, token_debug};
use crate::const_type::{ConstType, ConstValue, VarType, spec_value_display, const_debug};
use crate::text::{dec_digits, push_u64};

verus! {

/// A token of a program.
#[derive(Clone, PartialEq, Debug)]
pub struct Token {
    pub token_type: TokenType,
    pub value: Option<ConstType>,
    pub line: usize,
    pub column: usize,
}

/// The mathematical view of a token.
pub struct TokenView {
    pub token_type: TokenType,
    pub value: Option<ConstValue>,
    pub line: usize,
    pub column: usize,
}

impl View for Token {
    type V = TokenView;

    open spec fn view(&self) -> TokenView {
        TokenView {
            token_type: self.token_type,
            value: match self.value {
                Some(v) => Some(v@),
                None => None,
            },
            line: self.line,
            column: self.column,
        }
    }
}

/// Tokens whose type can be read: constants, and type keywords that carry
/// the type they name.
pub open spec fn spec_token_has_type(t: TokenView) -> bool {
    ||| t.token_type == TokenType::ConstFloat
    ||| t.token_type == TokenType::ConstInt
    ||| t.token_type == TokenType::ConstString
    ||| t.token_type == TokenType::VarType && t.value matches Some(ConstValue::VarType(_))
}

/// The type of a constant token, or the type that a type keyword names.
pub open spec fn spec_token_type(t: TokenView) -> VarType {
    match t.token_type {
        TokenType::ConstFloat => VarType::Float,
        TokenType::ConstInt => VarType::Int,
        TokenType::ConstString => VarType::String,
        _ => match t.value {
            Some(ConstValue::VarType(v)) => v,
            _ => VarType::Int,
        },
    }
}

/// How a token is displayed: its value, or the name of its kind when it
/// carries none.
pub open spec fn spec_token_display(t: TokenView) -> Seq<char> {
    match t.value {
        Some(v) => spec_value_display(v),
        None => token_name(t.token_type),
    }
}

/// How a token is written in the token list: its kind, its value where it
/// carries one, and its position.
pub open spec fn token_debug_text(t: TokenView) -> Seq<char> {
    "token: "@ + token_debug(t.token_type) + match t.value {
        None => Seq::<char>::empty(),
        Some(v) => ", value: "@ + const_debug(v),
    } + ", line: "@ + dec_digits(t.line as nat) + ", column: "@ + dec_digits(t.column as nat)
}

impl ConstType {
    /// A copy of this value.
    pub fn duplicate(&self) -> (r: ConstType)
        ensures
            r@ == self@,
    {
        match self {
            ConstType::Int(i) => ConstType::Int(*i),
            ConstType::Float(f) => ConstType::Float(f.clone()),
            ConstType::String(s) => ConstType::String(s.clone()),
            ConstType::VarType(v) => ConstType::VarType(*v),
        }
    }
}

impl Token {
    /// A copy of this token.
    pub fn duplicate(&self) -> (r: Token)
        ensures
            r@ == self@,
    {
        Token {
            token_type: self.token_type,
            value: match &self.value {
                Some(v) => Some(v.duplicate()),
                None => None,
            },
            line: self.line,
            column: self.column,
        }
    }

    /// The type of a constant token, or the type that a type keyword names.
    pub fn get_type(&self) -> (r: VarType)
        requires
            spec_token_has_type(self@),
        ensures
            r == spec_token_type(self@),
    {
        match self.token_type {
            TokenType::ConstFloat => VarType::Float,
            TokenType::ConstInt => VarType::Int,
            TokenType::ConstString => VarType::String,
            _ => match &self.value {
                Some(s) => s.get_keyword_type(),
                None => VarType::Int,
            },
        }
    }

    /// How this token is written in the token list (see
    /// [`token_debug_text`]).
    pub fn debug_string(&self) -> (s: String)
        ensures
            s@ == token_debug_text(self@),
    {
        let mut s = String::new();
        s.append("token: ");
        s.append(self.token_type.debug_name());
        match &self.value {
            None => {},
            Some(v) => {
                s.append(", value: ");
                let d = v.debug_string();
                s.append(d.as_str());
            },
        }
        s.append(", line: ");
        push_u64(&mut s, self.line as u64);
        s.append(", column: ");
        push_u64(&mut s, self.column as u64);
        assert(s@ =~= token_debug_text(self@));
        s
    }

    /// How this token is displayed.
    pub fn to_display_string(&self) -> (s: String)
        ensures
            s@ == spec_token_display(self@),
    {
        match &self.value {
            Some(v) => v.to_display_string(),
            None => String::from_str(self.token_type.name()),
        }
    }
}

} // verus!
