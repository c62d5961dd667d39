//! The symbols of a small context-free expression grammar
//! (`E`, `E'`, `T`, `T'`, `F`).

use vstd::prelude::*;
use crate::token_type::TokenType;
use crate::text::str_eq;

verus! {

/// A grammar symbol: a non-terminal or a token kind.
#[derive(Debug, Clone, Copy, PartialEq, Eq, Structural)]
pub enum Symbol {
    NonTerminal(NonTerminal),
    Terminal(TokenType),
}

/// The non-terminals of the expression grammar.
#[allow(non_camel_case_types)]
#[derive(Debug, Eq, PartialEq, Hash, Clone, Copy, Structural)]
pub enum NonTerminal {
    E,
    E_,
    T,
    T_,
    F,
}

/// A name that denotes no non-terminal.
#[derive(Debug, Clone, Copy, PartialEq, Eq)]
pub struct InvalidNonTerminal;

/// The message with which a name that denotes no non-terminal is reported.
pub open spec fn invalid_non_terminal_message() -> Seq<char> {
    "Invalid non-terminal"@
}

impl InvalidNonTerminal {
    /// The message with which this error is reported.
    pub fn message(&self) -> (r: &'static str)
        ensures
            r@ == invalid_non_terminal_message(),
    {
        "Invalid non-terminal"
    }
}

/// The non-terminal that a name denotes, if any.
pub open spec fn non_terminal_of_name(s: Seq<char>) -> Option<NonTerminal> {
    if s == "E"@ {
        Some(NonTerminal::E)
    } else if s == "E_"@ {
        Some(NonTerminal::E_)
    } else if s == "T"@ {
        Some(NonTerminal::T)
    } else if s == "T_"@ {
        Some(NonTerminal::T_)
    } else if s == "F"@ {
        Some(NonTerminal::F)
    } else {
        None
    }
}

impl NonTerminal {
    /// Reads a non-terminal from its name.
    pub fn from_char(s: &str) -> (r: Result<Self, InvalidNonTerminal>)
        ensures
            r == (match non_terminal_of_name(s@) {
                Some(n) => Ok::<NonTerminal, InvalidNonTerminal>(n),
                None => Err(InvalidNonTerminal),
            }),
    {
        if str_eq(s, "E") {
            Ok(NonTerminal::E)
        } else if str_eq(s, "E_") {
            Ok(NonTerminal::E_)
        } else if str_eq(s, "T") {
            Ok(NonTerminal::T)
        } else if str_eq(s, "T_") {
            Ok(NonTerminal::T_)
        } else if str_eq(s, "F") {
            Ok(NonTerminal::F)
        } else {
            Err(InvalidNonTerminal)
        }
    }
}

} // verus!
