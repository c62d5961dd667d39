//! A compiler front end for the ConvCC-2025-1 language: lexical analysis
//! driven by a deterministic automaton, LL(1) syntax analysis, scoped
//! semantic analysis and expression trees, with every step specified and
//! verified.

pub mod text;
pub mod expression;
pub mod token_type;
pub mod const_type;
pub mod token;
pub mod cfg;
pub mod code_attrs;
pub mod semantic_error;
pub mod scope_stack;
pub mod semantic_node;
pub mod semantic;
pub mod semantic_exec;
pub mod expression_build;
pub mod semantic_dot;
pub mod semantic_tree;
pub mod semantic_laws;
pub mod fda;
pub mod lexer;
pub mod split;
pub mod non_terminals;
pub mod syntax;
pub mod grammar_text;
