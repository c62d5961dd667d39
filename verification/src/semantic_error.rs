//! The errors that semantic analysis reports.

use vstd::prelude::*;
use crate::const_type::{VarType, var_type_debug};
use crate::text::{dec_digits, push_u64};

verus! {

/// What went wrong.
#[derive(Clone, Copy, Debug, PartialEq, Eq, Structural)]
pub enum SemanticErrorKind {
    /// A symbol is declared twice in one scope (`name`, at `line`/`column`).
    Redefinition,
    /// A symbol is used where no scope declares it (`name`, at `line`/`column`).
    SymbolNotFound,
    /// A variable is used where no scope declares it (`name`).
    UndeclaredVariable,
    /// The value assigned to `name` (at `line`/`column`) has another type.
    IncompatibleAssignment,
    /// An index of a variable is not an `int` (the type `found`).
    NonIntIndex,
    /// The two sides of a comparison have different types.
    ExpressionTypeMismatch,
    /// A called function is not declared.
    UndefinedFunction,
    /// A function (`name`) is passed as an argument.
    FunctionAsParameter,
    /// An argument (`name`) is not declared.
    UndefinedParameter,
    /// The argument types of a call of `name` differ from its parameter types.
    IncompatibleParameters,
    /// The two sides of an addition or subtraction have different types.
    NumexpressionTypeMismatch,
    /// The two sides of a multiplication, division or remainder have
    /// different types.
    TermTypeMismatch,
    /// `read` stores into a variable of the type `found`, not `string`
    /// (at `line`/`column`).
    ReadNotString,
    /// `return` stands outside every function (at `line`/`column`).
    ReturnOutsideFunction,
    /// `break` stands outside every loop (at `line`/`column`).
    BreakOutsideLoop,
    /// The end of the input is reached inside a scope.
    UnexpectedEof,
    /// An integer constant token holds another value.
    ExpectedIntConstant,
    /// An integer constant token holds no value.
    MissingIntValue,
    /// A floating-point constant token holds another value.
    ExpectedFloatConstant,
    /// A floating-point constant token holds no value.
    MissingFloatValue,
    /// A string constant token holds another value.
    ExpectedStringConstant,
    /// A string constant token holds no value.
    MissingStringValue,
}

/// A semantic error: its kind and, where the kind has them, the symbol's
/// name, the position and the type that was found.
#[derive(Clone, Debug, PartialEq)]
pub struct SemanticError {
    pub kind: SemanticErrorKind,
    pub name: String,
    pub line: usize,
    pub column: usize,
    pub found: Option<VarType>,
}

/// The mathematical view of a semantic error.
pub struct SemanticErrorView {
    pub kind: SemanticErrorKind,
    pub name: Seq<char>,
    pub line: usize,
    pub column: usize,
    pub found: Option<VarType>,
}

impl View for SemanticError {
    type V = SemanticErrorView;

    open spec fn view(&self) -> SemanticErrorView {
        SemanticErrorView {
            kind: self.kind,
            name: self.name@,
            line: self.line,
            column: self.column,
            found: self.found,
        }
    }
}

/// An error with all its parts.
pub open spec fn error_view(
    kind: SemanticErrorKind,
    name: Seq<char>,
    line: usize,
    column: usize,
    found: Option<VarType>,
) -> SemanticErrorView {
    SemanticErrorView { kind, name, line, column, found }
}

/// An error that has only a kind.
pub open spec fn plain_error(kind: SemanticErrorKind) -> SemanticErrorView {
    error_view(kind, Seq::empty(), 0, 0, None)
}

/// The text of a type that `{:?}` writes, or nothing when there is none.
pub open spec fn found_debug(t: Option<VarType>) -> Seq<char> {
    match t {
        Some(v) => var_type_debug(v),
        None => Seq::empty(),
    }
}

/// The message with which an error is reported. A `read` into a non-string
/// names the column before the line, and `return` outside a function is
/// reported with the message of `break` outside a loop.
pub open spec fn error_message(e: SemanticErrorView) -> Seq<char> {
    let line = dec_digits(e.line as nat);
    let column = dec_digits(e.column as nat);
    match e.kind {
        SemanticErrorKind::Redefinition =>
            "Erro semântico: Redefinição de símbolo na linha "@ + line + ", coluna "@ + column + ": '"@ + e.name + "'"@,
        SemanticErrorKind::SymbolNotFound =>
            "Erro semântico: Símbolo não encontrado na linha "@ + line + ", coluna "@ + column + ": "@ + e.name,
        SemanticErrorKind::UndeclaredVariable =>
            "Erro semântico: variável '"@ + e.name + "' não declarada no escopo atual"@,
        SemanticErrorKind::IncompatibleAssignment =>
            "Erro semântico: tipo incompatível na atribuição de '"@ + e.name + "' na linha "@ + line + " coluna "@ + column,
        SemanticErrorKind::NonIntIndex =>
            "Erro semântico: índice de variável deve ser do tipo 'int', encontrado '"@ + found_debug(e.found) + "'"@,
        SemanticErrorKind::ExpressionTypeMismatch => "Type mismatch in expression"@,
        SemanticErrorKind::UndefinedFunction => "Erro Semântico: função não definida nesse escopo"@,
        SemanticErrorKind::FunctionAsParameter =>
            "Erro semântico: função '"@ + e.name + "' não pode ser passada como parâmetro de outra função"@,
        SemanticErrorKind::UndefinedParameter =>
            "Erro semântico: variável '"@ + e.name + "' não definida no escopo atual"@,
        SemanticErrorKind::IncompatibleParameters =>
            "Erro semântico: tipos de parâmetros incompatíveis na chamada da função '"@ + e.name + "'"@,
        SemanticErrorKind::NumexpressionTypeMismatch =>
            "Erro semântico: tipos incompatíveis na expressão numérica na linha coluna "@,
        SemanticErrorKind::TermTypeMismatch =>
            "Erro semântico: tipos incompatíveis na expressão numérica na linha coluna"@,
        SemanticErrorKind::ReadNotString =>
            "Erro semântico: comando Read deve atribuir valor a uma variável de tipo string, mas tipo "@
                + found_debug(e.found) + " foi encontrado na linha "@ + column + " coluna "@ + line,
        SemanticErrorKind::ReturnOutsideFunction =>
            "Erro semântico: Comando \"break\" fora de um laço de repetição na linha "@ + line + " coluna "@ + column,
        SemanticErrorKind::BreakOutsideLoop =>
            "Erro semântico: Comando \"break\" fora de um laço de repetição na linha "@ + line + " coluna "@ + column,
        SemanticErrorKind::UnexpectedEof => "Unexpected EOF without matching '}'"@,
        SemanticErrorKind::ExpectedIntConstant => "Expected integer constant"@,
        SemanticErrorKind::MissingIntValue => "Expected value for const_int"@,
        SemanticErrorKind::ExpectedFloatConstant => "Expected float constant"@,
        SemanticErrorKind::MissingFloatValue => "Expected value for const_float"@,
        SemanticErrorKind::ExpectedStringConstant => "Expected string constant"@,
        SemanticErrorKind::MissingStringValue => "Expected value for const_string"@,
    }
}

fn push_found(m: &mut String, t: Option<VarType>)
    ensures
        final(m)@ == old(m)@ + found_debug(t),
{
    match t {
        Some(v) => m.append(v.name_debug()),
        None => {
            assert(old(m)@ + found_debug(t) =~= old(m)@);
        },
    }
}

impl SemanticError {
    /// An error with all its parts.
    pub fn new(kind: SemanticErrorKind, name: String, line: usize, column: usize, found: Option<VarType>) -> (e: Self)
        ensures
            e@ == error_view(kind, name@, line, column, found),
    {
        SemanticError { kind, name, line, column, found }
    }

    /// An error that has only a kind.
    pub fn plain(kind: SemanticErrorKind) -> (e: Self)
        ensures
            e@ == plain_error(kind),
    {
        SemanticError { kind, name: String::new(), line: 0, column: 0, found: None }
    }
    /// The message with which this error is reported (see [`error_message`]).
    pub fn message(&self) -> (m: String)
        ensures
            m@ == error_message(self@),
    {
        let mut m = String::new();
        match self.kind {
            SemanticErrorKind::Redefinition => {
                m.append("Erro semântico: Redefinição de símbolo na linha ");
                push_u64(&mut m, self.line as u64);
                m.append(", coluna ");
                push_u64(&mut m, self.column as u64);
                m.append(": '");
                m.append(self.name.as_str());
                m.append("'");
            },
            SemanticErrorKind::SymbolNotFound => {
                m.append("Erro semântico: Símbolo não encontrado na linha ");
                push_u64(&mut m, self.line as u64);
                m.append(", coluna ");
                push_u64(&mut m, self.column as u64);
                m.append(": ");
                m.append(self.name.as_str());
            },
            SemanticErrorKind::UndeclaredVariable => {
                m.append("Erro semântico: variável '");
                m.append(self.name.as_str());
                m.append("' não declarada no escopo atual");
            },
            SemanticErrorKind::IncompatibleAssignment => {
                m.append("Erro semântico: tipo incompatível na atribuição de '");
                m.append(self.name.as_str());
                m.append("' na linha ");
                push_u64(&mut m, self.line as u64);
                m.append(" coluna ");
                push_u64(&mut m, self.column as u64);
            },
            SemanticErrorKind::NonIntIndex => {
                m.append("Erro semântico: índice de variável deve ser do tipo 'int', encontrado '");
                push_found(&mut m, self.found);
                m.append("'");
            },
            SemanticErrorKind::ExpressionTypeMismatch => m.append("Type mismatch in expression"),
            SemanticErrorKind::UndefinedFunction => m.append("Erro Semântico: função não definida nesse escopo"),
            SemanticErrorKind::FunctionAsParameter => {
                m.append("Erro semântico: função '");
                m.append(self.name.as_str());
                m.append("' não pode ser passada como parâmetro de outra função");
            },
            SemanticErrorKind::UndefinedParameter => {
                m.append("Erro semântico: variável '");
                m.append(self.name.as_str());
                m.append("' não definida no escopo atual");
            },
            SemanticErrorKind::IncompatibleParameters => {
                m.append("Erro semântico: tipos de parâmetros incompatíveis na chamada da função '");
                m.append(self.name.as_str());
                m.append("'");
            },
            SemanticErrorKind::NumexpressionTypeMismatch =>
                m.append("Erro semântico: tipos incompatíveis na expressão numérica na linha coluna "),
            SemanticErrorKind::TermTypeMismatch =>
                m.append("Erro semântico: tipos incompatíveis na expressão numérica na linha coluna"),
            SemanticErrorKind::ReadNotString => {
                m.append("Erro semântico: comando Read deve atribuir valor a uma variável de tipo string, mas tipo ");
                push_found(&mut m, self.found);
                m.append(" foi encontrado na linha ");
                push_u64(&mut m, self.column as u64);
                m.append(" coluna ");
                push_u64(&mut m, self.line as u64);
            },
            SemanticErrorKind::ReturnOutsideFunction | SemanticErrorKind::BreakOutsideLoop => {
                m.append("Erro semântico: Comando \"break\" fora de um laço de repetição na linha ");
                push_u64(&mut m, self.line as u64);
                m.append(" coluna ");
                push_u64(&mut m, self.column as u64);
            },
            SemanticErrorKind::UnexpectedEof => m.append("Unexpected EOF without matching '}'"),
            SemanticErrorKind::ExpectedIntConstant => m.append("Expected integer constant"),
            SemanticErrorKind::MissingIntValue => m.append("Expected value for const_int"),
            SemanticErrorKind::ExpectedFloatConstant => m.append("Expected float constant"),
            SemanticErrorKind::MissingFloatValue => m.append("Expected value for const_float"),
            SemanticErrorKind::ExpectedStringConstant => m.append("Expected string constant"),
            SemanticErrorKind::MissingStringValue => m.append("Expected value for const_string"),
        }
        assert(m@ =~= error_message(self@));
        m
    }
}

} // verus!
