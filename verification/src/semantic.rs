//! Semantic analysis of a program's semantic tree: declarations are entered
//! into the scope stack, every use of a symbol is recorded, types are checked
//! in assignments, expressions, calls, `read` commands and indexes, and
//! `break`/`return` must stand inside a loop or a function.

use vstd::prelude::*;
use crate::const_type::{ConstType, VarType};
use crate::token_type::TokenType;
use crate::token::Token;
use crate::semantic_node::SemanticNodeData;
use crate::semantic_error::{SemanticErrorKind, SemanticErrorView, error_view, plain_error};
use crate::scope_stack::{
    ScopesView, ScopeType, EntryView, spec_lookup, spec_count, find_from,
    not_found_error, redefinition_error, spec_contains,
};

verus! {

/// A node of the semantic tree.
#[derive(Debug, PartialEq)]
pub struct SemanticNode {
    pub children: SemanticNodeData,
}

/// What the analysis of a node yields: the type of an expression, or the
/// kind of an operator or end-of-input token.
#[derive(Debug, Clone, Copy, PartialEq, Eq, Structural)]
pub enum ReturnSem {
    Tipo(VarType),
    TT(TokenType),
}

/// How the analysis of a node ends: with a result and the scopes after it,
/// with an error and the scopes as they were when it was found, or by
/// aborting (where the analysis meets a tree or a scope state it cannot
/// handle; the scopes are then left unspecified).
pub enum Outcome {
    Done(Option<ReturnSem>, ScopesView),
    Fail(SemanticErrorView, ScopesView),
    Abort,
}

/// How the reading of the arguments of a call ends.
pub enum ArgsOutcome {
    Done(Seq<VarType>, ScopesView),
    Fail(SemanticErrorView, ScopesView),
    Abort,
}

// ---------------------------------------------------------------------------
// Operations of the scope stack on its view
// ---------------------------------------------------------------------------

/// Opens a scope.
pub open spec fn st_push(st: ScopesView, t: ScopeType) -> ScopesView {
    ScopesView { stack: st.stack.push((t, Seq::empty())), log: st.log }
}

/// Closes the innermost scope and logs it.
pub open spec fn st_pop(st: ScopesView) -> ScopesView {
    if st.stack.len() == 0 {
        ScopesView { stack: st.stack, log: st.log.push(None) }
    } else {
        ScopesView { stack: st.stack.drop_last(), log: st.log.push(Some(st.stack.last())) }
    }
}

/// Records an appearance of a symbol.
pub open spec fn st_count(st: ScopesView, name: Seq<char>, line: usize, column: usize) -> Result<ScopesView, SemanticErrorView> {
    match spec_count(st.stack, name, (line, column)) {
        Some(s) => Ok(ScopesView { stack: s, log: st.log }),
        None => Err(not_found_error(name, line, column)),
    }
}

/// Declares a symbol in the innermost scope (`None`: there is no scope).
pub open spec fn st_insert(st: ScopesView, name: Seq<char>, e: EntryView) -> Option<Result<ScopesView, SemanticErrorView>> {
    if st.stack.len() == 0 {
        None
    } else if find_from(st.stack.last().1, name, 0) is Some {
        Some(Err(redefinition_error(name, e)))
    } else {
        Some(Ok(ScopesView {
            stack: st.stack.update(st.stack.len() - 1, (st.stack.last().0, st.stack.last().1.push((name, e)))),
            log: st.log,
        }))
    }
}

/// The string that the token of a terminal node holds.
pub open spec fn token_string(t: Token) -> Option<Seq<char>> {
    match t.value {
        Some(ConstType::String(s)) => Some(s@),
        _ => None,
    }
}

/// An entry for a declaration at one position.
pub open spec fn decl_entry(pos: (usize, usize), types: Seq<VarType>, dims: Seq<u32>) -> EntryView {
    EntryView { appearances: seq![pos], var_type: types, const_index: dims }
}

// ---------------------------------------------------------------------------
// The analysis, as a function of the tree and the scopes
// ---------------------------------------------------------------------------

/// The analysis of a node.
pub open spec fn sem(n: SemanticNode, st: ScopesView) -> Outcome
    decreases n, 1int,
{
    match n.children {
        SemanticNodeData::Allocexpression { .. } => sem_alloc(n, st),
        SemanticNodeData::Atribstat { .. } => sem_atribstat(n, st),
        SemanticNodeData::Atribstatevalue { .. } => sem_atribstatevalue(n, st),
        SemanticNodeData::Constant { value } => Outcome::Done(Some(ReturnSem::Tipo(crate::const_type::spec_value_type(value@))), st),
        SemanticNodeData::ConstIndex { index } => sem_list(index@, 0, st),
        SemanticNodeData::Elsestat { .. } => sem_else(n, st),
        SemanticNodeData::Expression { .. } => sem_expression(n, st),
        SemanticNodeData::Factor { .. } => sem_factor(n, st),
        SemanticNodeData::Forstat { .. } => sem_for(n, st),
        SemanticNodeData::Funccall { .. } => sem_funccall(n, st),
        SemanticNodeData::Funcdef { .. } => sem_funcdef(n, st),
        SemanticNodeData::Funclist { funclist } => sem_list(funclist@, 0, st),
        SemanticNodeData::Ifstat { .. } => sem_if(n, st),
        SemanticNodeData::Lvalue { .. } => sem_lvalue(n, st),
        SemanticNodeData::Numexpression { .. } => sem_binary(n, st),
        SemanticNodeData::OpExpression { op } => Outcome::Done(Some(ReturnSem::TT(op)), st),
        SemanticNodeData::OpNumexpression { op } => Outcome::Done(Some(ReturnSem::TT(op)), st),
        SemanticNodeData::OpTerm { op } => Outcome::Done(Some(ReturnSem::TT(op)), st),
        SemanticNodeData::Paramlist { .. } => Outcome::Abort,
        SemanticNodeData::Paramlistcall { paramlist } => sem_list(paramlist@, 0, st),
        SemanticNodeData::Printstat { .. } => sem_print(n, st),
        SemanticNodeData::Program { .. } => sem_program(n, st),
        SemanticNodeData::Readstat { .. } => sem_read(n, st),
        SemanticNodeData::Returnstat { .. } => Outcome::Done(None, st),
        SemanticNodeData::Statelist { statelist } => sem_list(statelist@, 0, st),
        SemanticNodeData::Statement { .. } => sem_statement(n, st),
        SemanticNodeData::Term { .. } => sem_binary(n, st),
        SemanticNodeData::Unaryexpression { .. } => sem_unary(n, st),
        SemanticNodeData::Vardecl { .. } => sem_vardecl(n, st),
        SemanticNodeData::VarIndex { index } => sem_list(index@, 0, st),
        SemanticNodeData::Terminal { value } => sem_terminal(value, st),
    }
}

/// The analysis of the nodes `s[i..]`, one after the other; their results are
/// dropped and the first error ends it.
pub open spec fn sem_list(s: Seq<SemanticNode>, i: int, st: ScopesView) -> Outcome
    decreases s, s.len() - i,
{
    if i < 0 || i >= s.len() {
        Outcome::Done(None, st)
    } else {
        match sem(s[i], st) {
            Outcome::Done(_, st1) => sem_list(s, i + 1, st1),
            Outcome::Fail(e, st1) => Outcome::Fail(e, st1),
            Outcome::Abort => Outcome::Abort,
        }
    }
}

/// The analysis of the indexes `s[i..]` of an assigned variable: each must be
/// of type `int`.
pub open spec fn sem_index_list(s: Seq<SemanticNode>, i: int, st: ScopesView) -> Outcome
    decreases s, s.len() - i,
{
    if i < 0 || i >= s.len() {
        Outcome::Done(None, st)
    } else {
        match sem(s[i], st) {
            Outcome::Done(Some(ReturnSem::Tipo(t)), st1) => if t != VarType::Int {
                Outcome::Fail(error_view(SemanticErrorKind::NonIntIndex, Seq::empty(), 0, 0, Some(t)), st1)
            } else {
                sem_index_list(s, i + 1, st1)
            },
            Outcome::Done(_, _) => Outcome::Abort,
            Outcome::Fail(e, st1) => Outcome::Fail(e, st1),
            Outcome::Abort => Outcome::Abort,
        }
    }
}

/// ALLOCEXPRESSION: its type, then its dimensions.
pub open spec fn sem_alloc(n: SemanticNode, st: ScopesView) -> Outcome
    decreases n, 0int,
{
    match n.children {
        SemanticNodeData::Allocexpression { var_type, dimensions } => match sem(*var_type, st) {
            Outcome::Done(_, st1) => match sem(*dimensions, st1) {
                Outcome::Done(_, st2) => Outcome::Done(None, st2),
                Outcome::Fail(e, s) => Outcome::Fail(e, s),
                Outcome::Abort => Outcome::Abort,
            },
            Outcome::Fail(e, s) => Outcome::Fail(e, s),
            Outcome::Abort => Outcome::Abort,
        },
        _ => Outcome::Abort,
    }
}

/// ATRIBSTAT: the assigned variable must be declared, the value must have its
/// type, and its indexes must be of type `int`.
pub open spec fn sem_atribstat(n: SemanticNode, st: ScopesView) -> Outcome
    decreases n, 0int,
{
    match n.children {
        SemanticNodeData::Atribstat { lvalue, value } => match lvalue.children {
            SemanticNodeData::Lvalue { id, var_index } => match id.children {
                SemanticNodeData::Terminal { value: tok } => match token_string(tok) {
                    Some(name) => match st_count(st, name, tok.line, tok.column) {
                        Err(e) => Outcome::Fail(e, st),
                        Ok(st1) => match spec_lookup(st1.stack, name) {
                            None => Outcome::Fail(error_view(SemanticErrorKind::UndeclaredVariable, name, 0, 0, None), st1),
                            Some(entry) => match sem(*value, st1) {
                                Outcome::Done(Some(ReturnSem::Tipo(vt)), st2) => if entry.var_type.len() == 0 {
                                    Outcome::Abort
                                } else if vt != entry.var_type[0] {
                                    Outcome::Fail(error_view(SemanticErrorKind::IncompatibleAssignment, name, tok.line, tok.column, None), st2)
                                } else {
                                    match var_index {
                                        None => Outcome::Done(None, st2),
                                        Some(vi) => match vi.children {
                                            SemanticNodeData::VarIndex { index } => sem_index_list(index@, 0, st2),
                                            _ => Outcome::Abort,
                                        },
                                    }
                                },
                                Outcome::Done(_, _) => Outcome::Abort,
                                Outcome::Fail(e, s) => Outcome::Fail(e, s),
                                Outcome::Abort => Outcome::Abort,
                            },
                        },
                    },
                    None => Outcome::Abort,
                },
                _ => Outcome::Abort,
            },
            _ => Outcome::Abort,
        },
        _ => Outcome::Abort,
    }
}

/// ATRIBSTATEVALUE: the analysis of the alternative it holds.
pub open spec fn sem_atribstatevalue(n: SemanticNode, st: ScopesView) -> Outcome
    decreases n, 0int,
{
    match n.children {
        SemanticNodeData::Atribstatevalue { expression, allocexpression, funccall } => match expression {
            Some(e) => sem(*e, st),
            None => match allocexpression {
                Some(a) => sem(*a, st),
                None => match funccall {
                    Some(f) => sem(*f, st),
                    None => Outcome::Done(None, st),
                },
            },
        },
        _ => Outcome::Abort,
    }
}

/// ELSESTAT: its statement in a scope of its own, closed even on error.
pub open spec fn sem_else(n: SemanticNode, st: ScopesView) -> Outcome
    decreases n, 0int,
{
    match n.children {
        SemanticNodeData::Elsestat { statement } => match sem(*statement, st_push(st, ScopeType::Else)) {
            Outcome::Done(v, s) => Outcome::Done(v, st_pop(s)),
            Outcome::Fail(e, s) => Outcome::Fail(e, st_pop(s)),
            Outcome::Abort => Outcome::Abort,
        },
        _ => Outcome::Abort,
    }
}

/// EXPRESSION: a comparison needs operands of one type and is an `int`; the
/// first error of an operand is the error of the whole.
pub open spec fn sem_expression(n: SemanticNode, st: ScopesView) -> Outcome
    decreases n, 0int,
{
    match n.children {
        SemanticNodeData::Expression { numexpression, numexpression2, .. } => match sem(*numexpression, st) {
            Outcome::Done(Some(t1), st1) => match numexpression2 {
                Some(n2) => match sem(*n2, st1) {
                    Outcome::Done(Some(t2), st2) => if t1 != t2 {
                        Outcome::Fail(plain_error(SemanticErrorKind::ExpressionTypeMismatch), st2)
                    } else {
                        Outcome::Done(Some(ReturnSem::Tipo(VarType::Int)), st2)
                    },
                    Outcome::Fail(e, s) => Outcome::Fail(e, s),
                    _ => Outcome::Abort,
                },
                None => Outcome::Done(Some(t1), st1),
            },
            Outcome::Fail(e, s) => Outcome::Fail(e, s),
            _ => Outcome::Abort,
        },
        _ => Outcome::Abort,
    }
}

/// FACTOR: the analysis of the alternative it holds.
pub open spec fn sem_factor(n: SemanticNode, st: ScopesView) -> Outcome
    decreases n, 0int,
{
    match n.children {
        SemanticNodeData::Factor { expression, lvalue, constant } => match expression {
            Some(e) => sem(*e, st),
            None => match lvalue {
                Some(l) => sem(*l, st),
                None => match constant {
                    Some(c) => sem(*c, st),
                    None => Outcome::Abort,
                },
            },
        },
        _ => Outcome::Abort,
    }
}

/// FORSTAT: its three clauses in a `LoopInit` scope, its body in a `Loop`
/// scope inside it; on error the scopes stay open.
pub open spec fn sem_for(n: SemanticNode, st: ScopesView) -> Outcome
    decreases n, 0int,
{
    match n.children {
        SemanticNodeData::Forstat { init, condition, increment, body } => match sem(*init, st_push(st, ScopeType::LoopInit)) {
            Outcome::Done(_, s1) => match sem(*condition, s1) {
                Outcome::Done(_, s2) => match sem(*increment, s2) {
                    Outcome::Done(_, s3) => match sem(*body, st_push(s3, ScopeType::Loop)) {
                        Outcome::Done(_, s4) => Outcome::Done(None, st_pop(st_pop(s4))),
                        Outcome::Fail(e, s) => Outcome::Fail(e, s),
                        Outcome::Abort => Outcome::Abort,
                    },
                    Outcome::Fail(e, s) => Outcome::Fail(e, s),
                    Outcome::Abort => Outcome::Abort,
                },
                Outcome::Fail(e, s) => Outcome::Fail(e, s),
                Outcome::Abort => Outcome::Abort,
            },
            Outcome::Fail(e, s) => Outcome::Fail(e, s),
            Outcome::Abort => Outcome::Abort,
        },
        _ => Outcome::Abort,
    }
}

/// The arguments `s[i..]` of a call: each must be a declared variable, whose
/// type is appended to `acc` and whose appearance is recorded.
pub open spec fn call_args(s: Seq<SemanticNode>, i: int, st: ScopesView, acc: Seq<VarType>) -> ArgsOutcome
    decreases s.len() - i,
{
    if i < 0 || i >= s.len() {
        ArgsOutcome::Done(acc, st)
    } else {
        match s[i].children {
            SemanticNodeData::Terminal { value: tok } => match token_string(tok) {
                Some(p) => match spec_lookup(st.stack, p) {
                    Some(e) => if e.var_type.len() > 1 {
                        ArgsOutcome::Fail(error_view(SemanticErrorKind::FunctionAsParameter, p, 0, 0, None), st)
                    } else if e.var_type.len() == 0 {
                        ArgsOutcome::Abort
                    } else {
                        match st_count(st, p, tok.line, tok.column) {
                            Ok(st1) => call_args(s, i + 1, st1, acc.push(e.var_type[0])),
                            Err(er) => ArgsOutcome::Fail(er, st),
                        }
                    },
                    None => ArgsOutcome::Fail(error_view(SemanticErrorKind::UndefinedParameter, p, 0, 0, None), st),
                },
                None => ArgsOutcome::Abort,
            },
            _ => ArgsOutcome::Abort,
        }
    }
}

/// FUNCCALL: the function must be declared and its parameter types must be
/// the argument types; a call is an `int`.
pub open spec fn sem_funccall(n: SemanticNode, st: ScopesView) -> Outcome
    decreases n, 0int,
{
    match n.children {
        SemanticNodeData::Funccall { id, paramlistcall } => match id.children {
            SemanticNodeData::Terminal { value: tok } => match token_string(tok) {
                Some(fname) => match spec_lookup(st.stack, fname) {
                    None => Outcome::Fail(plain_error(SemanticErrorKind::UndefinedFunction), st),
                    Some(fe) => {
                        let args = match paramlistcall {
                            None => ArgsOutcome::Done(Seq::empty(), st),
                            Some(p) => match p.children {
                                SemanticNodeData::Paramlistcall { paramlist } => call_args(paramlist@, 0, st, Seq::empty()),
                                _ => ArgsOutcome::Abort,
                            },
                        };
                        match args {
                            ArgsOutcome::Done(types, s1) => if fe.var_type != types {
                                Outcome::Fail(error_view(SemanticErrorKind::IncompatibleParameters, fname, 0, 0, None), s1)
                            } else {
                                match st_count(s1, fname, tok.line, tok.column) {
                                    Ok(s2) => Outcome::Done(Some(ReturnSem::Tipo(VarType::Int)), s2),
                                    Err(e) => Outcome::Fail(e, s1),
                                }
                            },
                            ArgsOutcome::Fail(e, s) => Outcome::Fail(e, s),
                            ArgsOutcome::Abort => Outcome::Abort,
                        }
                    },
                },
                None => Outcome::Abort,
            },
            _ => Outcome::Abort,
        },
        _ => Outcome::Abort,
    }
}

/// The parameters `s[i..]` of a function definition: type keywords, each
/// followed by names of that type. Gives the parameter types and the
/// parameters (type, name, position); `None` aborts.
pub open spec fn read_params(
    s: Seq<SemanticNode>,
    i: int,
    prev: Option<VarType>,
    types: Seq<VarType>,
    params: Seq<(VarType, Seq<char>, (usize, usize))>,
) -> Option<(Seq<VarType>, Seq<(VarType, Seq<char>, (usize, usize))>)>
    decreases s.len() - i,
{
    if i < 0 || i >= s.len() {
        Some((types, params))
    } else {
        match s[i].children {
            SemanticNodeData::Terminal { value: tok } => match tok.token_type {
                TokenType::VarType => match tok.value {
                    Some(ConstType::VarType(v)) => read_params(s, i + 1, Some(v), types.push(v), params),
                    _ => None,
                },
                TokenType::Id => match token_string(tok) {
                    Some(pn) => match prev {
                        Some(pt) => read_params(s, i + 1, prev, types, params.push((pt, pn, (tok.line, tok.column)))),
                        None => None,
                    },
                    None => None,
                },
                _ => None,
            },
            _ => None,
        }
    }
}

/// Declares the parameters `ps[i..]` in the innermost scope.
pub open spec fn insert_params(ps: Seq<(VarType, Seq<char>, (usize, usize))>, i: int, st: ScopesView) -> Outcome
    decreases ps.len() - i,
{
    if i < 0 || i >= ps.len() {
        Outcome::Done(None, st)
    } else {
        match st_insert(st, ps[i].1, decl_entry(ps[i].2, seq![ps[i].0], Seq::empty())) {
            Some(Ok(st1)) => insert_params(ps, i + 1, st1),
            Some(Err(e)) => Outcome::Fail(e, st),
            None => Outcome::Abort,
        }
    }
}

/// FUNCDEF: the function is declared with its parameter types; its body is
/// analysed in a `Function` scope where its parameters are declared.
pub open spec fn sem_funcdef(n: SemanticNode, st: ScopesView) -> Outcome
    decreases n, 0int,
{
    match n.children {
        SemanticNodeData::Funcdef { func_id, paramlist, statelist } => match func_id.children {
            SemanticNodeData::Terminal { value: tok } => match token_string(tok) {
                Some(fname) => {
                    let rp = match paramlist {
                        None => Some((Seq::<VarType>::empty(), Seq::<(VarType, Seq<char>, (usize, usize))>::empty())),
                        Some(p) => match p.children {
                            SemanticNodeData::Paramlist { paramlist } => read_params(paramlist@, 0, None, Seq::empty(), Seq::empty()),
                            _ => None,
                        },
                    };
                    match rp {
                        None => Outcome::Abort,
                        Some((types, params)) => match st_insert(st, fname, decl_entry((tok.line, tok.column), types, Seq::empty())) {
                            None => Outcome::Abort,
                            Some(Err(e)) => Outcome::Fail(e, st),
                            Some(Ok(s1)) => match insert_params(params, 0, st_push(s1, ScopeType::Function)) {
                                Outcome::Done(_, s3) => match sem(*statelist, s3) {
                                    Outcome::Done(_, s4) => Outcome::Done(None, st_pop(s4)),
                                    Outcome::Fail(e, s) => Outcome::Fail(e, s),
                                    Outcome::Abort => Outcome::Abort,
                                },
                                Outcome::Fail(e, s) => Outcome::Fail(e, s),
                                Outcome::Abort => Outcome::Abort,
                            },
                        },
                    }
                },
                None => Outcome::Abort,
            },
            _ => Outcome::Abort,
        },
        _ => Outcome::Abort,
    }
}

/// IFSTAT: the condition, the then-branch in an `If` scope, then the
/// else-branch.
pub open spec fn sem_if(n: SemanticNode, st: ScopesView) -> Outcome
    decreases n, 0int,
{
    match n.children {
        SemanticNodeData::Ifstat { condition, then_branch, else_branch } => match sem(*condition, st) {
            Outcome::Done(_, s1) => match sem(*then_branch, st_push(s1, ScopeType::If)) {
                Outcome::Done(_, s2) => match else_branch {
                    Some(eb) => match sem(*eb, st_pop(s2)) {
                        Outcome::Done(_, s3) => Outcome::Done(None, s3),
                        Outcome::Fail(e, s) => Outcome::Fail(e, s),
                        Outcome::Abort => Outcome::Abort,
                    },
                    None => Outcome::Done(None, st_pop(s2)),
                },
                Outcome::Fail(e, s) => Outcome::Fail(e, s),
                Outcome::Abort => Outcome::Abort,
            },
            Outcome::Fail(e, s) => Outcome::Fail(e, s),
            Outcome::Abort => Outcome::Abort,
        },
        _ => Outcome::Abort,
    }
}

/// LVALUE: the type of its identifier, after the analysis of its indexes.
pub open spec fn sem_lvalue(n: SemanticNode, st: ScopesView) -> Outcome
    decreases n, 0int,
{
    match n.children {
        SemanticNodeData::Lvalue { id, var_index } => match sem(*id, st) {
            Outcome::Done(Some(t), s1) => match var_index {
                Some(vi) => match sem(*vi, s1) {
                    Outcome::Done(_, s2) => Outcome::Done(Some(t), s2),
                    Outcome::Fail(e, s) => Outcome::Fail(e, s),
                    Outcome::Abort => Outcome::Abort,
                },
                None => Outcome::Done(Some(t), s1),
            },
            Outcome::Done(None, _) => Outcome::Abort,
            Outcome::Fail(e, s) => Outcome::Fail(e, s),
            Outcome::Abort => Outcome::Abort,
        },
        _ => Outcome::Abort,
    }
}

/// NUMEXPRESSION and TERM: both operands must have one type, which is the
/// type of the whole (the operator of a NUMEXPRESSION is analysed between
/// them; that of a TERM is not).
pub open spec fn sem_binary(n: SemanticNode, st: ScopesView) -> Outcome
    decreases n, 0int,
{
    match n.children {
        SemanticNodeData::Numexpression { term, op_numexpression, term2 } => match sem(*term, st) {
            Outcome::Done(Some(t1), s1) => {
                let so = match op_numexpression {
                    Some(op) => sem(*op, s1),
                    None => Outcome::Done(None, s1),
                };
                match so {
                    Outcome::Done(_, s2) => match term2 {
                        Some(t) => match sem(*t, s2) {
                            Outcome::Done(Some(t2), s3) => if t1 != t2 {
                                Outcome::Fail(plain_error(SemanticErrorKind::NumexpressionTypeMismatch), s3)
                            } else {
                                Outcome::Done(Some(t1), s3)
                            },
                            Outcome::Done(None, _) => Outcome::Abort,
                            Outcome::Fail(e, s) => Outcome::Fail(e, s),
                            Outcome::Abort => Outcome::Abort,
                        },
                        None => Outcome::Done(Some(t1), s2),
                    },
                    Outcome::Fail(e, s) => Outcome::Fail(e, s),
                    Outcome::Abort => Outcome::Abort,
                }
            },
            Outcome::Done(None, _) => Outcome::Abort,
            Outcome::Fail(e, s) => Outcome::Fail(e, s),
            Outcome::Abort => Outcome::Abort,
        },
        SemanticNodeData::Term { unaryexpression, unaryexpression2, .. } => match sem(*unaryexpression, st) {
            Outcome::Done(Some(t1), s1) => match unaryexpression2 {
                Some(u) => match sem(*u, s1) {
                    Outcome::Done(Some(t2), s2) => if t1 != t2 {
                        Outcome::Fail(plain_error(SemanticErrorKind::TermTypeMismatch), s2)
                    } else {
                        Outcome::Done(Some(t1), s2)
                    },
                    Outcome::Done(None, _) => Outcome::Abort,
                    Outcome::Fail(e, s) => Outcome::Fail(e, s),
                    Outcome::Abort => Outcome::Abort,
                },
                None => Outcome::Done(Some(t1), s1),
            },
            Outcome::Done(None, _) => Outcome::Abort,
            Outcome::Fail(e, s) => Outcome::Fail(e, s),
            Outcome::Abort => Outcome::Abort,
        },
        _ => Outcome::Abort,
    }
}

/// PRINTSTAT: the analysis of its expression.
pub open spec fn sem_print(n: SemanticNode, st: ScopesView) -> Outcome
    decreases n, 0int,
{
    match n.children {
        SemanticNodeData::Printstat { expression } => sem(*expression, st),
        _ => Outcome::Abort,
    }
}

/// PROGRAM: the analysis of its function list, or else of its statement.
pub open spec fn sem_program(n: SemanticNode, st: ScopesView) -> Outcome
    decreases n, 0int,
{
    match n.children {
        SemanticNodeData::Program { funclist, statement } => match funclist {
            Some(f) => sem(*f, st),
            None => match statement {
                Some(s) => sem(*s, st),
                None => Outcome::Abort,
            },
        },
        _ => Outcome::Abort,
    }
}

/// READSTAT: the variable read into must be declared and be a `string`.
pub open spec fn sem_read(n: SemanticNode, st: ScopesView) -> Outcome
    decreases n, 0int,
{
    match n.children {
        SemanticNodeData::Readstat { lvalue } => match lvalue.children {
            SemanticNodeData::Lvalue { id, .. } => match id.children {
                SemanticNodeData::Terminal { value: tok } => match token_string(tok) {
                    Some(name) => match st_count(st, name, tok.line, tok.column) {
                        Err(e) => Outcome::Fail(e, st),
                        Ok(st1) => match spec_lookup(st1.stack, name) {
                            None => Outcome::Fail(error_view(SemanticErrorKind::UndeclaredVariable, name, 0, 0, None), st1),
                            Some(entry) => if entry.var_type.len() == 0 {
                                Outcome::Abort
                            } else if entry.var_type[0] != VarType::String {
                                Outcome::Fail(error_view(SemanticErrorKind::ReadNotString, Seq::empty(), tok.line, tok.column, Some(entry.var_type[0])), st1)
                            } else {
                                Outcome::Done(None, st1)
                            },
                        },
                    },
                    None => Outcome::Abort,
                },
                _ => Outcome::Abort,
            },
            _ => Outcome::Abort,
        },
        _ => Outcome::Abort,
    }
}

/// STATEMENT: the analysis of the alternative it holds; a statement list
/// gets a scope of its own (left open on error); `return` must stand in a
/// function and `break` in a loop.
pub open spec fn sem_statement(n: SemanticNode, st: ScopesView) -> Outcome
    decreases n, 0int,
{
    match n.children {
        SemanticNodeData::Statement { vardecl, atribstat, ifstat, forstat, statelist, commandstat } => {
            if vardecl is Some {
                sem(*vardecl->Some_0, st)
            } else if atribstat is Some {
                sem(*atribstat->Some_0, st)
            } else if ifstat is Some {
                sem(*ifstat->Some_0, st)
            } else if forstat is Some {
                sem(*forstat->Some_0, st)
            } else if statelist is Some {
                match sem(*statelist->Some_0, st_push(st, ScopeType::Any)) {
                    Outcome::Done(_, s1) => Outcome::Done(None, st_pop(s1)),
                    Outcome::Fail(e, s) => Outcome::Fail(e, s),
                    Outcome::Abort => Outcome::Abort,
                }
            } else if commandstat is Some {
                let c = *commandstat->Some_0;
                match c.children {
                    SemanticNodeData::Returnstat { token } => if !spec_contains(st.stack, ScopeType::Function) {
                        Outcome::Fail(error_view(SemanticErrorKind::ReturnOutsideFunction, Seq::empty(), token.line, token.column, None), st)
                    } else {
                        sem(c, st)
                    },
                    SemanticNodeData::Terminal { value } => if value.token_type == TokenType::KwBreak
                        && !spec_contains(st.stack, ScopeType::Loop) {
                        Outcome::Fail(error_view(SemanticErrorKind::BreakOutsideLoop, Seq::empty(), value.line, value.column, None), st)
                    } else {
                        sem(c, st)
                    },
                    _ => sem(c, st),
                }
            } else {
                Outcome::Done(None, st)
            }
        },
        _ => Outcome::Abort,
    }
}

/// UNARYEXPRESSION: the type of its factor, after the analysis of its
/// operator.
pub open spec fn sem_unary(n: SemanticNode, st: ScopesView) -> Outcome
    decreases n, 0int,
{
    match n.children {
        SemanticNodeData::Unaryexpression { op, factor } => {
            let so = match op {
                Some(o) => sem(*o, st),
                None => Outcome::Done(None, st),
            };
            match so {
                Outcome::Done(_, s1) => match sem(*factor, s1) {
                    Outcome::Done(Some(t), s2) => Outcome::Done(Some(t), s2),
                    Outcome::Done(None, _) => Outcome::Abort,
                    Outcome::Fail(e, s) => Outcome::Fail(e, s),
                    Outcome::Abort => Outcome::Abort,
                },
                Outcome::Fail(e, s) => Outcome::Fail(e, s),
                Outcome::Abort => Outcome::Abort,
            }
        },
        _ => Outcome::Abort,
    }
}

/// The dimensions `s[i..]` of a declared array: integer constants, each cut
/// to 32 bits; `None` aborts.
pub open spec fn read_dims(s: Seq<SemanticNode>, i: int, acc: Seq<u32>) -> Option<Seq<u32>>
    decreases s.len() - i,
{
    if i < 0 || i >= s.len() {
        Some(acc)
    } else {
        match s[i].children {
            SemanticNodeData::Terminal { value: tok } => match tok.value {
                Some(ConstType::Int(v)) => read_dims(s, i + 1, acc.push(v as u32)),
                _ => None,
            },
            _ => None,
        }
    }
}

/// VARDECL: the variable is declared in the innermost scope with its type
/// and dimensions.
pub open spec fn sem_vardecl(n: SemanticNode, st: ScopesView) -> Outcome
    decreases n, 0int,
{
    match n.children {
        SemanticNodeData::Vardecl { var_type, id, const_index } => match var_type.children {
            SemanticNodeData::Terminal { value: vt } => match vt.value {
                Some(ConstType::VarType(v)) => match id.children {
                    SemanticNodeData::Terminal { value: tok } => match token_string(tok) {
                        Some(name) => {
                            let dims = match const_index {
                                None => Some(Seq::<u32>::empty()),
                                Some(ci) => match ci.children {
                                    SemanticNodeData::ConstIndex { index } => read_dims(index@, 0, Seq::empty()),
                                    _ => None,
                                },
                            };
                            match dims {
                                None => Outcome::Abort,
                                Some(d) => match st_insert(st, name, decl_entry((tok.line, tok.column), seq![v], d)) {
                                    None => Outcome::Abort,
                                    Some(Err(e)) => Outcome::Fail(e, st),
                                    Some(Ok(s1)) => Outcome::Done(None, s1),
                                },
                            }
                        },
                        None => Outcome::Abort,
                    },
                    _ => Outcome::Abort,
                },
                _ => Outcome::Abort,
            },
            _ => Outcome::Abort,
        },
        _ => Outcome::Abort,
    }
}

/// A terminal: the end of input closes the global scope; a constant is of
/// its type; an identifier must be declared, its appearance is recorded, and
/// it is of its declared type; other tokens yield nothing.
pub open spec fn sem_terminal(tok: Token, st: ScopesView) -> Outcome {
    match tok.token_type {
        TokenType::Eof => if st.stack.len() == 1 {
            Outcome::Done(Some(ReturnSem::TT(TokenType::Eof)), st_pop(st))
        } else {
            Outcome::Fail(plain_error(SemanticErrorKind::UnexpectedEof), st)
        },
        TokenType::ConstInt => match tok.value {
            Some(ConstType::Int(_)) => Outcome::Done(Some(ReturnSem::Tipo(VarType::Int)), st),
            Some(_) => Outcome::Fail(plain_error(SemanticErrorKind::ExpectedIntConstant), st),
            None => Outcome::Fail(plain_error(SemanticErrorKind::MissingIntValue), st),
        },
        TokenType::ConstFloat => match tok.value {
            Some(ConstType::Float(_)) => Outcome::Done(Some(ReturnSem::Tipo(VarType::Float)), st),
            Some(_) => Outcome::Fail(plain_error(SemanticErrorKind::ExpectedFloatConstant), st),
            None => Outcome::Fail(plain_error(SemanticErrorKind::MissingFloatValue), st),
        },
        TokenType::ConstString => match tok.value {
            Some(ConstType::String(_)) => Outcome::Done(Some(ReturnSem::Tipo(VarType::String)), st),
            Some(_) => Outcome::Fail(plain_error(SemanticErrorKind::ExpectedStringConstant), st),
            None => Outcome::Fail(plain_error(SemanticErrorKind::MissingStringValue), st),
        },
        TokenType::Id => match token_string(tok) {
            Some(name) => match st_count(st, name, tok.line, tok.column) {
                Err(e) => Outcome::Fail(e, st),
                Ok(st1) => match spec_lookup(st1.stack, name) {
                    None => Outcome::Fail(error_view(SemanticErrorKind::UndeclaredVariable, name, 0, 0, None), st1),
                    Some(entry) => if entry.var_type.len() == 0 {
                        Outcome::Abort
                    } else {
                        Outcome::Done(Some(ReturnSem::Tipo(entry.var_type[0])), st1)
                    },
                },
            },
            None => Outcome::Abort,
        },
        _ => Outcome::Done(None, st),
    }
}

} // verus!
