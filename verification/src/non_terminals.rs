//! The non-terminals of the ConvCC-2025-1 grammar, as the grammar and
//! parse-table files name them.

use vstd::prelude::*;
use crate::text::str_eq;

verus! {

/// A non-terminal of the language's LL(1) grammar. The name of each, as the
/// grammar files write it, is given by [`NonTerminal::name`].
#[derive(Debug, Clone, Copy, PartialEq, Eq, Hash, Structural)]
pub enum NonTerminal {
    Program,
    Funclist,
    FunclistRest,
    Funcdef,
    Paramlist,
    ParamlistRest,
    Statement,
    Vardecl,
    ConstIndex,
    Atribstat,
    Atribstatevalue,
    Funccall,
    Paramlistcall,
    ParamlistcallRest,
    Printstat,
    Readstat,
    Returnstat,
    Ifstat,
    Elsestat,
    Forstat,
    Statelist,
    StatelistRest,
    Allocexpression,
    VarIndex,
    Expression,
    ExpressionRest,
    OpExpression,
    Numexpression,
    NumexpressionRest,
    OpNumexpression,
    Term,
    TermRest,
    OpTerm,
    Unaryexpression,
    Factor,
    Lvalue,
    LvalueRest,
}

/// A name that denotes no non-terminal of the grammar.
#[derive(Debug, Clone, Copy, PartialEq, Eq)]
pub struct UnknownNonTerminal;

/// The number of non-terminals.
pub open spec fn non_terminal_count() -> nat {
    37
}

/// The name of a non-terminal in the grammar files.
pub open spec fn nt_name(n: NonTerminal) -> Seq<char> {
    match n {
        NonTerminal::Program => "PROGRAM"@,
        NonTerminal::Funclist => "FUNCLIST"@,
        NonTerminal::FunclistRest => "FUNCLIST_"@,
        NonTerminal::Funcdef => "FUNCDEF"@,
        NonTerminal::Paramlist => "PARAMLIST"@,
        NonTerminal::ParamlistRest => "PARAMLIST_"@,
        NonTerminal::Statement => "STATEMENT"@,
        NonTerminal::Vardecl => "VARDECL"@,
        NonTerminal::ConstIndex => "CONSTINDEX"@,
        NonTerminal::Atribstat => "ATRIBSTAT"@,
        NonTerminal::Atribstatevalue => "ATRIBSTATEVALUE"@,
        NonTerminal::Funccall => "FUNCCALL"@,
        NonTerminal::Paramlistcall => "PARAMLISTCALL"@,
        NonTerminal::ParamlistcallRest => "PARAMLISTCALL_"@,
        NonTerminal::Printstat => "PRINTSTAT"@,
        NonTerminal::Readstat => "READSTAT"@,
        NonTerminal::Returnstat => "RETURNSTAT"@,
        NonTerminal::Ifstat => "IFSTAT"@,
        NonTerminal::Elsestat => "ELSESTAT"@,
        NonTerminal::Forstat => "FORSTAT"@,
        NonTerminal::Statelist => "STATELIST"@,
        NonTerminal::StatelistRest => "STATELIST_"@,
        NonTerminal::Allocexpression => "ALLOCEXPRESSION"@,
        NonTerminal::VarIndex => "VARINDEX"@,
        NonTerminal::Expression => "EXPRESSION"@,
        NonTerminal::ExpressionRest => "EXPRESSION_"@,
        NonTerminal::OpExpression => "OP_EXPRESSION"@,
        NonTerminal::Numexpression => "NUMEXPRESSION"@,
        NonTerminal::NumexpressionRest => "NUMEXPRESSION_"@,
        NonTerminal::OpNumexpression => "OP_NUMEXPRESSION"@,
        NonTerminal::Term => "TERM"@,
        NonTerminal::TermRest => "TERM_"@,
        NonTerminal::OpTerm => "OP_TERM"@,
        NonTerminal::Unaryexpression => "UNARYEXPRESSION"@,
        NonTerminal::Factor => "FACTOR"@,
        NonTerminal::Lvalue => "LVALUE"@,
        NonTerminal::LvalueRest => "LVALUE_"@,
    }
}

/// How a non-terminal is written by `{:?}`: the name of its variant.
pub open spec fn nt_debug(n: NonTerminal) -> Seq<char> {
    match n {
        NonTerminal::Program => "Program"@,
        NonTerminal::Funclist => "Funclist"@,
        NonTerminal::FunclistRest => "FunclistRest"@,
        NonTerminal::Funcdef => "Funcdef"@,
        NonTerminal::Paramlist => "Paramlist"@,
        NonTerminal::ParamlistRest => "ParamlistRest"@,
        NonTerminal::Statement => "Statement"@,
        NonTerminal::Vardecl => "Vardecl"@,
        NonTerminal::ConstIndex => "ConstIndex"@,
        NonTerminal::Atribstat => "Atribstat"@,
        NonTerminal::Atribstatevalue => "Atribstatevalue"@,
        NonTerminal::Funccall => "Funccall"@,
        NonTerminal::Paramlistcall => "Paramlistcall"@,
        NonTerminal::ParamlistcallRest => "ParamlistcallRest"@,
        NonTerminal::Printstat => "Printstat"@,
        NonTerminal::Readstat => "Readstat"@,
        NonTerminal::Returnstat => "Returnstat"@,
        NonTerminal::Ifstat => "Ifstat"@,
        NonTerminal::Elsestat => "Elsestat"@,
        NonTerminal::Forstat => "Forstat"@,
        NonTerminal::Statelist => "Statelist"@,
        NonTerminal::StatelistRest => "StatelistRest"@,
        NonTerminal::Allocexpression => "Allocexpression"@,
        NonTerminal::VarIndex => "VarIndex"@,
        NonTerminal::Expression => "Expression"@,
        NonTerminal::ExpressionRest => "ExpressionRest"@,
        NonTerminal::OpExpression => "OpExpression"@,
        NonTerminal::Numexpression => "Numexpression"@,
        NonTerminal::NumexpressionRest => "NumexpressionRest"@,
        NonTerminal::OpNumexpression => "OpNumexpression"@,
        NonTerminal::Term => "Term"@,
        NonTerminal::TermRest => "TermRest"@,
        NonTerminal::OpTerm => "OpTerm"@,
        NonTerminal::Unaryexpression => "Unaryexpression"@,
        NonTerminal::Factor => "Factor"@,
        NonTerminal::Lvalue => "Lvalue"@,
        NonTerminal::LvalueRest => "LvalueRest"@,
    }
}

/// The position of a non-terminal in the declaration order.
pub open spec fn nt_index(n: NonTerminal) -> nat {
    match n {
        NonTerminal::Program => 0,
        NonTerminal::Funclist => 1,
        NonTerminal::FunclistRest => 2,
        NonTerminal::Funcdef => 3,
        NonTerminal::Paramlist => 4,
        NonTerminal::ParamlistRest => 5,
        NonTerminal::Statement => 6,
        NonTerminal::Vardecl => 7,
        NonTerminal::ConstIndex => 8,
        NonTerminal::Atribstat => 9,
        NonTerminal::Atribstatevalue => 10,
        NonTerminal::Funccall => 11,
        NonTerminal::Paramlistcall => 12,
        NonTerminal::ParamlistcallRest => 13,
        NonTerminal::Printstat => 14,
        NonTerminal::Readstat => 15,
        NonTerminal::Returnstat => 16,
        NonTerminal::Ifstat => 17,
        NonTerminal::Elsestat => 18,
        NonTerminal::Forstat => 19,
        NonTerminal::Statelist => 20,
        NonTerminal::StatelistRest => 21,
        NonTerminal::Allocexpression => 22,
        NonTerminal::VarIndex => 23,
        NonTerminal::Expression => 24,
        NonTerminal::ExpressionRest => 25,
        NonTerminal::OpExpression => 26,
        NonTerminal::Numexpression => 27,
        NonTerminal::NumexpressionRest => 28,
        NonTerminal::OpNumexpression => 29,
        NonTerminal::Term => 30,
        NonTerminal::TermRest => 31,
        NonTerminal::OpTerm => 32,
        NonTerminal::Unaryexpression => 33,
        NonTerminal::Factor => 34,
        NonTerminal::Lvalue => 35,
        NonTerminal::LvalueRest => 36,
    }
}

/// The non-terminal that a name denotes, if any.
pub open spec fn nt_of_name(s: Seq<char>) -> Option<NonTerminal> {
    if s == "PROGRAM"@ { Some(NonTerminal::Program) }
    else if s == "FUNCLIST"@ { Some(NonTerminal::Funclist) }
    else if s == "FUNCLIST_"@ { Some(NonTerminal::FunclistRest) }
    else if s == "FUNCDEF"@ { Some(NonTerminal::Funcdef) }
    else if s == "PARAMLIST"@ { Some(NonTerminal::Paramlist) }
    else if s == "PARAMLIST_"@ { Some(NonTerminal::ParamlistRest) }
    else if s == "STATEMENT"@ { Some(NonTerminal::Statement) }
    else if s == "VARDECL"@ { Some(NonTerminal::Vardecl) }
    else if s == "CONSTINDEX"@ { Some(NonTerminal::ConstIndex) }
    else if s == "ATRIBSTAT"@ { Some(NonTerminal::Atribstat) }
    else if s == "ATRIBSTATEVALUE"@ { Some(NonTerminal::Atribstatevalue) }
    else if s == "FUNCCALL"@ { Some(NonTerminal::Funccall) }
    else if s == "PARAMLISTCALL"@ { Some(NonTerminal::Paramlistcall) }
    else if s == "PARAMLISTCALL_"@ { Some(NonTerminal::ParamlistcallRest) }
    else if s == "PRINTSTAT"@ { Some(NonTerminal::Printstat) }
    else if s == "READSTAT"@ { Some(NonTerminal::Readstat) }
    else if s == "RETURNSTAT"@ { Some(NonTerminal::Returnstat) }
    else if s == "IFSTAT"@ { Some(NonTerminal::Ifstat) }
    else if s == "ELSESTAT"@ { Some(NonTerminal::Elsestat) }
    else if s == "FORSTAT"@ { Some(NonTerminal::Forstat) }
    else if s == "STATELIST"@ { Some(NonTerminal::Statelist) }
    else if s == "STATELIST_"@ { Some(NonTerminal::StatelistRest) }
    else if s == "ALLOCEXPRESSION"@ { Some(NonTerminal::Allocexpression) }
    else if s == "VARINDEX"@ { Some(NonTerminal::VarIndex) }
    else if s == "EXPRESSION"@ { Some(NonTerminal::Expression) }
    else if s == "EXPRESSION_"@ { Some(NonTerminal::ExpressionRest) }
    else if s == "OP_EXPRESSION"@ { Some(NonTerminal::OpExpression) }
    else if s == "NUMEXPRESSION"@ { Some(NonTerminal::Numexpression) }
    else if s == "NUMEXPRESSION_"@ { Some(NonTerminal::NumexpressionRest) }
    else if s == "OP_NUMEXPRESSION"@ { Some(NonTerminal::OpNumexpression) }
    else if s == "TERM"@ { Some(NonTerminal::Term) }
    else if s == "TERM_"@ { Some(NonTerminal::TermRest) }
    else if s == "OP_TERM"@ { Some(NonTerminal::OpTerm) }
    else if s == "UNARYEXPRESSION"@ { Some(NonTerminal::Unaryexpression) }
    else if s == "FACTOR"@ { Some(NonTerminal::Factor) }
    else if s == "LVALUE"@ { Some(NonTerminal::Lvalue) }
    else if s == "LVALUE_"@ { Some(NonTerminal::LvalueRest) }
    else { None }
}

impl NonTerminal {
    /// The name of this non-terminal in the grammar files.
    pub fn name(&self) -> (r: &'static str)
        ensures
            r@ == nt_name(*self),
    {
        match self {
            NonTerminal::Program => "PROGRAM",
            NonTerminal::Funclist => "FUNCLIST",
            NonTerminal::FunclistRest => "FUNCLIST_",
            NonTerminal::Funcdef => "FUNCDEF",
            NonTerminal::Paramlist => "PARAMLIST",
            NonTerminal::ParamlistRest => "PARAMLIST_",
            NonTerminal::Statement => "STATEMENT",
            NonTerminal::Vardecl => "VARDECL",
            NonTerminal::ConstIndex => "CONSTINDEX",
            NonTerminal::Atribstat => "ATRIBSTAT",
            NonTerminal::Atribstatevalue => "ATRIBSTATEVALUE",
            NonTerminal::Funccall => "FUNCCALL",
            NonTerminal::Paramlistcall => "PARAMLISTCALL",
            NonTerminal::ParamlistcallRest => "PARAMLISTCALL_",
            NonTerminal::Printstat => "PRINTSTAT",
            NonTerminal::Readstat => "READSTAT",
            NonTerminal::Returnstat => "RETURNSTAT",
            NonTerminal::Ifstat => "IFSTAT",
            NonTerminal::Elsestat => "ELSESTAT",
            NonTerminal::Forstat => "FORSTAT",
            NonTerminal::Statelist => "STATELIST",
            NonTerminal::StatelistRest => "STATELIST_",
            NonTerminal::Allocexpression => "ALLOCEXPRESSION",
            NonTerminal::VarIndex => "VARINDEX",
            NonTerminal::Expression => "EXPRESSION",
            NonTerminal::ExpressionRest => "EXPRESSION_",
            NonTerminal::OpExpression => "OP_EXPRESSION",
            NonTerminal::Numexpression => "NUMEXPRESSION",
            NonTerminal::NumexpressionRest => "NUMEXPRESSION_",
            NonTerminal::OpNumexpression => "OP_NUMEXPRESSION",
            NonTerminal::Term => "TERM",
            NonTerminal::TermRest => "TERM_",
            NonTerminal::OpTerm => "OP_TERM",
            NonTerminal::Unaryexpression => "UNARYEXPRESSION",
            NonTerminal::Factor => "FACTOR",
            NonTerminal::Lvalue => "LVALUE",
            NonTerminal::LvalueRest => "LVALUE_",
        }
    }

    /// How this non-terminal is written by `{:?}`: the name of its variant.
    pub fn debug_name(&self) -> (r: &'static str)
        ensures
            r@ == nt_debug(*self),
    {
        match self {
            NonTerminal::Program => "Program",
            NonTerminal::Funclist => "Funclist",
            NonTerminal::FunclistRest => "FunclistRest",
            NonTerminal::Funcdef => "Funcdef",
            NonTerminal::Paramlist => "Paramlist",
            NonTerminal::ParamlistRest => "ParamlistRest",
            NonTerminal::Statement => "Statement",
            NonTerminal::Vardecl => "Vardecl",
            NonTerminal::ConstIndex => "ConstIndex",
            NonTerminal::Atribstat => "Atribstat",
            NonTerminal::Atribstatevalue => "Atribstatevalue",
            NonTerminal::Funccall => "Funccall",
            NonTerminal::Paramlistcall => "Paramlistcall",
            NonTerminal::ParamlistcallRest => "ParamlistcallRest",
            NonTerminal::Printstat => "Printstat",
            NonTerminal::Readstat => "Readstat",
            NonTerminal::Returnstat => "Returnstat",
            NonTerminal::Ifstat => "Ifstat",
            NonTerminal::Elsestat => "Elsestat",
            NonTerminal::Forstat => "Forstat",
            NonTerminal::Statelist => "Statelist",
            NonTerminal::StatelistRest => "StatelistRest",
            NonTerminal::Allocexpression => "Allocexpression",
            NonTerminal::VarIndex => "VarIndex",
            NonTerminal::Expression => "Expression",
            NonTerminal::ExpressionRest => "ExpressionRest",
            NonTerminal::OpExpression => "OpExpression",
            NonTerminal::Numexpression => "Numexpression",
            NonTerminal::NumexpressionRest => "NumexpressionRest",
            NonTerminal::OpNumexpression => "OpNumexpression",
            NonTerminal::Term => "Term",
            NonTerminal::TermRest => "TermRest",
            NonTerminal::OpTerm => "OpTerm",
            NonTerminal::Unaryexpression => "Unaryexpression",
            NonTerminal::Factor => "Factor",
            NonTerminal::Lvalue => "Lvalue",
            NonTerminal::LvalueRest => "LvalueRest",
        }
    }

    /// The position of this non-terminal in the declaration order.
    pub fn index(&self) -> (r: u64)
        ensures
            r == nt_index(*self),
            r < non_terminal_count(),
    {
        match self {
            NonTerminal::Program => 0,
            NonTerminal::Funclist => 1,
            NonTerminal::FunclistRest => 2,
            NonTerminal::Funcdef => 3,
            NonTerminal::Paramlist => 4,
            NonTerminal::ParamlistRest => 5,
            NonTerminal::Statement => 6,
            NonTerminal::Vardecl => 7,
            NonTerminal::ConstIndex => 8,
            NonTerminal::Atribstat => 9,
            NonTerminal::Atribstatevalue => 10,
            NonTerminal::Funccall => 11,
            NonTerminal::Paramlistcall => 12,
            NonTerminal::ParamlistcallRest => 13,
            NonTerminal::Printstat => 14,
            NonTerminal::Readstat => 15,
            NonTerminal::Returnstat => 16,
            NonTerminal::Ifstat => 17,
            NonTerminal::Elsestat => 18,
            NonTerminal::Forstat => 19,
            NonTerminal::Statelist => 20,
            NonTerminal::StatelistRest => 21,
            NonTerminal::Allocexpression => 22,
            NonTerminal::VarIndex => 23,
            NonTerminal::Expression => 24,
            NonTerminal::ExpressionRest => 25,
            NonTerminal::OpExpression => 26,
            NonTerminal::Numexpression => 27,
            NonTerminal::NumexpressionRest => 28,
            NonTerminal::OpNumexpression => 29,
            NonTerminal::Term => 30,
            NonTerminal::TermRest => 31,
            NonTerminal::OpTerm => 32,
            NonTerminal::Unaryexpression => 33,
            NonTerminal::Factor => 34,
            NonTerminal::Lvalue => 35,
            NonTerminal::LvalueRest => 36,
        }
    }

    /// Reads a non-terminal from its name.
    pub fn from_str(s: &str) -> (r: Result<NonTerminal, UnknownNonTerminal>)
        ensures
            r == (match nt_of_name(s@) {
                Some(n) => Ok::<NonTerminal, UnknownNonTerminal>(n),
                None => Err(UnknownNonTerminal),
            }),
    {
        if str_eq(s, "PROGRAM") { return Ok(NonTerminal::Program); }
        if str_eq(s, "FUNCLIST") { return Ok(NonTerminal::Funclist); }
        if str_eq(s, "FUNCLIST_") { return Ok(NonTerminal::FunclistRest); }
        if str_eq(s, "FUNCDEF") { return Ok(NonTerminal::Funcdef); }
        if str_eq(s, "PARAMLIST") { return Ok(NonTerminal::Paramlist); }
        if str_eq(s, "PARAMLIST_") { return Ok(NonTerminal::ParamlistRest); }
        if str_eq(s, "STATEMENT") { return Ok(NonTerminal::Statement); }
        if str_eq(s, "VARDECL") { return Ok(NonTerminal::Vardecl); }
        if str_eq(s, "CONSTINDEX") { return Ok(NonTerminal::ConstIndex); }
        if str_eq(s, "ATRIBSTAT") { return Ok(NonTerminal::Atribstat); }
        if str_eq(s, "ATRIBSTATEVALUE") { return Ok(NonTerminal::Atribstatevalue); }
        if str_eq(s, "FUNCCALL") { return Ok(NonTerminal::Funccall); }
        if str_eq(s, "PARAMLISTCALL") { return Ok(NonTerminal::Paramlistcall); }
        if str_eq(s, "PARAMLISTCALL_") { return Ok(NonTerminal::ParamlistcallRest); }
        if str_eq(s, "PRINTSTAT") { return Ok(NonTerminal::Printstat); }
        if str_eq(s, "READSTAT") { return Ok(NonTerminal::Readstat); }
        if str_eq(s, "RETURNSTAT") { return Ok(NonTerminal::Returnstat); }
        if str_eq(s, "IFSTAT") { return Ok(NonTerminal::Ifstat); }
        if str_eq(s, "ELSESTAT") { return Ok(NonTerminal::Elsestat); }
        if str_eq(s, "FORSTAT") { return Ok(NonTerminal::Forstat); }
        if str_eq(s, "STATELIST") { return Ok(NonTerminal::Statelist); }
        if str_eq(s, "STATELIST_") { return Ok(NonTerminal::StatelistRest); }
        if str_eq(s, "ALLOCEXPRESSION") { return Ok(NonTerminal::Allocexpression); }
        if str_eq(s, "VARINDEX") { return Ok(NonTerminal::VarIndex); }
        if str_eq(s, "EXPRESSION") { return Ok(NonTerminal::Expression); }
        if str_eq(s, "EXPRESSION_") { return Ok(NonTerminal::ExpressionRest); }
        if str_eq(s, "OP_EXPRESSION") { return Ok(NonTerminal::OpExpression); }
        if str_eq(s, "NUMEXPRESSION") { return Ok(NonTerminal::Numexpression); }
        if str_eq(s, "NUMEXPRESSION_") { return Ok(NonTerminal::NumexpressionRest); }
        if str_eq(s, "OP_NUMEXPRESSION") { return Ok(NonTerminal::OpNumexpression); }
        if str_eq(s, "TERM") { return Ok(NonTerminal::Term); }
        if str_eq(s, "TERM_") { return Ok(NonTerminal::TermRest); }
        if str_eq(s, "OP_TERM") { return Ok(NonTerminal::OpTerm); }
        if str_eq(s, "UNARYEXPRESSION") { return Ok(NonTerminal::Unaryexpression); }
        if str_eq(s, "FACTOR") { return Ok(NonTerminal::Factor); }
        if str_eq(s, "LVALUE") { return Ok(NonTerminal::Lvalue); }
        if str_eq(s, "LVALUE_") { return Ok(NonTerminal::LvalueRest); }
        Err(UnknownNonTerminal)
    }
}

} // verus!
