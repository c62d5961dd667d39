//! The executable semantic analysis, proved to follow [`crate::semantic::sem`].

use vstd::prelude::*;
use crate::const_type::{ConstType, VarType};
use crate::token_type::TokenType;
use crate::semantic_node::SemanticNodeData;
use crate::semantic_error::{SemanticError, SemanticErrorKind, error_view};
use crate::scope_stack::{ScopeStack, ScopesView, ScopeType, SymbolEntry};
use crate::semantic::{
    SemanticNode, ReturnSem, Outcome, ArgsOutcome, sem, sem_list, sem_index_list, sem_alloc, sem_atribstat,
    sem_atribstatevalue, sem_else, sem_expression, sem_factor, sem_for, call_args, sem_funccall, read_params,
    insert_params, sem_funcdef, sem_if, sem_lvalue, sem_binary, sem_print, sem_program, sem_read,
    sem_statement, sem_unary, read_dims, sem_vardecl, sem_terminal, st_push, st_pop, st_count, st_insert,
    decl_entry,
};

verus! {

/// How the analysis of a node ended: with a result, with an error, or by
/// aborting where the analysis cannot go on.
pub enum Analysis {
    Done(Option<ReturnSem>),
    Fail(SemanticError),
    Abort,
}

/// `a` (with the scopes `st` after it) is what the outcome `o` describes.
pub open spec fn analysis_matches(a: Analysis, o: Outcome, st: ScopesView) -> bool {
    match o {
        Outcome::Done(v, s) => a is Done && a->Done_0 == v && st == s,
        Outcome::Fail(e, s) => a is Fail && a->Fail_0@ == e && st == s,
        Outcome::Abort => a is Abort,
    }
}

fn push(scopes: &mut ScopeStack, t: ScopeType)
    ensures
        final(scopes)@ == st_push(old(scopes)@, t),
{
    scopes.push_scope(t);
}

fn pop(scopes: &mut ScopeStack)
    ensures
        final(scopes)@ == st_pop(old(scopes)@),
{
    let _ = scopes.pop_scope();
}

fn count(scopes: &mut ScopeStack, name: &String, line: usize, column: usize) -> (r: Result<(), SemanticError>)
    ensures
        match st_count(old(scopes)@, name@, line, column) {
            Ok(s) => r is Ok && final(scopes)@ == s,
            Err(e) => r is Err && r->Err_0@ == e && final(scopes)@ == old(scopes)@,
        },
{
    scopes.count_appearance(name.as_str(), line, column)
}

fn insert(scopes: &mut ScopeStack, name: String, entry: SymbolEntry) -> (r: Option<Result<(), SemanticError>>)
    ensures
        match st_insert(old(scopes)@, name@, entry@) {
            None => r is None,
            Some(Ok(s)) => r is Some && r->Some_0 is Ok && final(scopes)@ == s,
            Some(Err(e)) => r is Some && r->Some_0 is Err && r->Some_0->Err_0@ == e && final(scopes)@ == old(scopes)@,
        },
{
    if scopes.stack.len() == 0 {
        return None;
    }
    Some(scopes.insert_symbol(name, entry))
}

fn single_entry(pos: (usize, usize), types: Vec<VarType>, dims: Vec<u32>) -> (e: SymbolEntry)
    ensures
        e@ == decl_entry(pos, types@, dims@),
{
    let mut appearances: Vec<(usize, usize)> = Vec::new();
    appearances.push(pos);
    let e = SymbolEntry { appearances, var_type: types, const_index: dims };
    assert(e@.appearances =~= seq![pos]);
    e
}

fn undeclared(name: &String) -> (e: SemanticError)
    ensures
        e@ == error_view(SemanticErrorKind::UndeclaredVariable, name@, 0, 0, None),
{
    SemanticError::new(SemanticErrorKind::UndeclaredVariable, name.clone(), 0, 0, None)
}

impl SemanticNode {
    /// Analyses this node against the scopes (see [`sem`]).
    pub fn analyze(&self, scopes: &mut ScopeStack) -> (r: Analysis)
        ensures
            analysis_matches(r, sem(*self, old(scopes)@), final(scopes)@),
        decreases self, 1int,
    {
        match &self.children {
            SemanticNodeData::Allocexpression { .. } => self.analyze_alloc(scopes),
            SemanticNodeData::Atribstat { .. } => self.analyze_atribstat(scopes),
            SemanticNodeData::Atribstatevalue { .. } => self.analyze_atribstatevalue(scopes),
            SemanticNodeData::Constant { value } => Analysis::Done(Some(ReturnSem::Tipo(value.get_type()))),
            SemanticNodeData::ConstIndex { index } => analyze_list(index, scopes),
            SemanticNodeData::Elsestat { .. } => self.analyze_else(scopes),
            SemanticNodeData::Expression { .. } => self.analyze_expression(scopes),
            SemanticNodeData::Factor { .. } => self.analyze_factor(scopes),
            SemanticNodeData::Forstat { .. } => self.analyze_for(scopes),
            SemanticNodeData::Funccall { .. } => self.analyze_funccall(scopes),
            SemanticNodeData::Funcdef { .. } => self.analyze_funcdef(scopes),
            SemanticNodeData::Funclist { funclist } => analyze_list(funclist, scopes),
            SemanticNodeData::Ifstat { .. } => self.analyze_if(scopes),
            SemanticNodeData::Lvalue { .. } => self.analyze_lvalue(scopes),
            SemanticNodeData::Numexpression { .. } => self.analyze_binary(scopes),
            SemanticNodeData::OpExpression { op } => Analysis::Done(Some(ReturnSem::TT(*op))),
            SemanticNodeData::OpNumexpression { op } => Analysis::Done(Some(ReturnSem::TT(*op))),
            SemanticNodeData::OpTerm { op } => Analysis::Done(Some(ReturnSem::TT(*op))),
            SemanticNodeData::Paramlist { .. } => Analysis::Abort,
            SemanticNodeData::Paramlistcall { paramlist } => analyze_list(paramlist, scopes),
            SemanticNodeData::Printstat { .. } => self.analyze_print(scopes),
            SemanticNodeData::Program { .. } => self.analyze_program(scopes),
            SemanticNodeData::Readstat { .. } => self.analyze_read(scopes),
            SemanticNodeData::Returnstat { .. } => Analysis::Done(None),
            SemanticNodeData::Statelist { statelist } => analyze_list(statelist, scopes),
            SemanticNodeData::Statement { .. } => self.analyze_statement(scopes),
            SemanticNodeData::Term { .. } => self.analyze_binary(scopes),
            SemanticNodeData::Unaryexpression { .. } => self.analyze_unary(scopes),
            SemanticNodeData::Vardecl { .. } => self.analyze_vardecl(scopes),
            SemanticNodeData::VarIndex { index } => analyze_list(index, scopes),
            SemanticNodeData::Terminal { value } => analyze_terminal(value, scopes),
        }
    }

    fn analyze_alloc(&self, scopes: &mut ScopeStack) -> (r: Analysis)
        ensures
            analysis_matches(r, sem_alloc(*self, old(scopes)@), final(scopes)@),
        decreases self, 0int,
    {
        match &self.children {
            SemanticNodeData::Allocexpression { var_type, dimensions } => {
                match var_type.analyze(scopes) {
                    Analysis::Done(_) => {},
                    Analysis::Fail(e) => return Analysis::Fail(e),
                    Analysis::Abort => return Analysis::Abort,
                }
                match dimensions.analyze(scopes) {
                    Analysis::Done(_) => Analysis::Done(None),
                    Analysis::Fail(e) => Analysis::Fail(e),
                    Analysis::Abort => Analysis::Abort,
                }
            },
            _ => Analysis::Abort,
        }
    }

    fn analyze_atribstat(&self, scopes: &mut ScopeStack) -> (r: Analysis)
        ensures
            analysis_matches(r, sem_atribstat(*self, old(scopes)@), final(scopes)@),
        decreases self, 0int,
    {
        match &self.children {
            SemanticNodeData::Atribstat { lvalue, value } => match &lvalue.children {
                SemanticNodeData::Lvalue { id, var_index } => match &id.children {
                    SemanticNodeData::Terminal { value: tok } => match &tok.value {
                        Some(ConstType::String(name)) => {
                            match count(scopes, name, tok.line, tok.column) {
                                Err(e) => return Analysis::Fail(e),
                                Ok(()) => {},
                            }
                            let entry = match scopes.get_symbol(name.as_str()) {
                                None => return Analysis::Fail(undeclared(name)),
                                Some(e) => e,
                            };
                            let vt = match value.analyze(scopes) {
                                Analysis::Done(Some(ReturnSem::Tipo(vt))) => vt,
                                Analysis::Done(_) => return Analysis::Abort,
                                Analysis::Fail(e) => return Analysis::Fail(e),
                                Analysis::Abort => return Analysis::Abort,
                            };
                            if entry.var_type.len() == 0 {
                                return Analysis::Abort;
                            }
                            if vt != entry.var_type[0] {
                                return Analysis::Fail(SemanticError::new(
                                    SemanticErrorKind::IncompatibleAssignment,
                                    name.clone(),
                                    tok.line,
                                    tok.column,
                                    None,
                                ));
                            }
                            match var_index {
                                None => Analysis::Done(None),
                                Some(vi) => match &vi.children {
                                    SemanticNodeData::VarIndex { index } => analyze_index_list(index, scopes),
                                    _ => Analysis::Abort,
                                },
                            }
                        },
                        _ => Analysis::Abort,
                    },
                    _ => Analysis::Abort,
                },
                _ => Analysis::Abort,
            },
            _ => Analysis::Abort,
        }
    }

    fn analyze_atribstatevalue(&self, scopes: &mut ScopeStack) -> (r: Analysis)
        ensures
            analysis_matches(r, sem_atribstatevalue(*self, old(scopes)@), final(scopes)@),
        decreases self, 0int,
    {
        match &self.children {
            SemanticNodeData::Atribstatevalue { expression, allocexpression, funccall } => {
                if let Some(e) = expression {
                    return e.analyze(scopes);
                }
                if let Some(a) = allocexpression {
                    return a.analyze(scopes);
                }
                if let Some(f) = funccall {
                    return f.analyze(scopes);
                }
                Analysis::Done(None)
            },
            _ => Analysis::Abort,
        }
    }

    fn analyze_else(&self, scopes: &mut ScopeStack) -> (r: Analysis)
        ensures
            analysis_matches(r, sem_else(*self, old(scopes)@), final(scopes)@),
        decreases self, 0int,
    {
        match &self.children {
            SemanticNodeData::Elsestat { statement } => {
                push(scopes, ScopeType::Else);
                let result = statement.analyze(scopes);
                match result {
                    Analysis::Abort => Analysis::Abort,
                    _ => {
                        pop(scopes);
                        result
                    },
                }
            },
            _ => Analysis::Abort,
        }
    }

    fn analyze_expression(&self, scopes: &mut ScopeStack) -> (r: Analysis)
        ensures
            analysis_matches(r, sem_expression(*self, old(scopes)@), final(scopes)@),
        decreases self, 0int,
    {
        match &self.children {
            SemanticNodeData::Expression { numexpression, numexpression2, .. } => {
                let t1 = match numexpression.analyze(scopes) {
                    Analysis::Done(Some(t)) => t,
                    Analysis::Fail(e) => return Analysis::Fail(e),
                    _ => return Analysis::Abort,
                };
                match numexpression2 {
                    Some(n2) => match n2.analyze(scopes) {
                        Analysis::Done(Some(t2)) => if t1 != t2 {
                            Analysis::Fail(SemanticError::plain(SemanticErrorKind::ExpressionTypeMismatch))
                        } else {
                            Analysis::Done(Some(ReturnSem::Tipo(VarType::Int)))
                        },
                        Analysis::Fail(e) => Analysis::Fail(e),
                        _ => Analysis::Abort,
                    },
                    None => Analysis::Done(Some(t1)),
                }
            },
            _ => Analysis::Abort,
        }
    }

    fn analyze_factor(&self, scopes: &mut ScopeStack) -> (r: Analysis)
        ensures
            analysis_matches(r, sem_factor(*self, old(scopes)@), final(scopes)@),
        decreases self, 0int,
    {
        match &self.children {
            SemanticNodeData::Factor { expression, lvalue, constant } => {
                if let Some(e) = expression {
                    return e.analyze(scopes);
                }
                if let Some(l) = lvalue {
                    return l.analyze(scopes);
                }
                if let Some(c) = constant {
                    return c.analyze(scopes);
                }
                Analysis::Abort
            },
            _ => Analysis::Abort,
        }
    }

    fn analyze_for(&self, scopes: &mut ScopeStack) -> (r: Analysis)
        ensures
            analysis_matches(r, sem_for(*self, old(scopes)@), final(scopes)@),
        decreases self, 0int,
    {
        match &self.children {
            SemanticNodeData::Forstat { init, condition, increment, body } => {
                push(scopes, ScopeType::LoopInit);
                match init.analyze(scopes) {
                    Analysis::Done(_) => {},
                    Analysis::Fail(e) => return Analysis::Fail(e),
                    Analysis::Abort => return Analysis::Abort,
                }
                match condition.analyze(scopes) {
                    Analysis::Done(_) => {},
                    Analysis::Fail(e) => return Analysis::Fail(e),
                    Analysis::Abort => return Analysis::Abort,
                }
                match increment.analyze(scopes) {
                    Analysis::Done(_) => {},
                    Analysis::Fail(e) => return Analysis::Fail(e),
                    Analysis::Abort => return Analysis::Abort,
                }
                push(scopes, ScopeType::Loop);
                match body.analyze(scopes) {
                    Analysis::Done(_) => {},
                    Analysis::Fail(e) => return Analysis::Fail(e),
                    Analysis::Abort => return Analysis::Abort,
                }
                pop(scopes);
                pop(scopes);
                Analysis::Done(None)
            },
            _ => Analysis::Abort,
        }
    }

    fn analyze_funccall(&self, scopes: &mut ScopeStack) -> (r: Analysis)
        ensures
            analysis_matches(r, sem_funccall(*self, old(scopes)@), final(scopes)@),
        decreases self, 0int,
    {
        match &self.children {
            SemanticNodeData::Funccall { id, paramlistcall } => match &id.children {
                SemanticNodeData::Terminal { value: tok } => match &tok.value {
                    Some(ConstType::String(fname)) => {
                        let fe = match scopes.get_symbol(fname.as_str()) {
                            None => return Analysis::Fail(SemanticError::plain(SemanticErrorKind::UndefinedFunction)),
                            Some(e) => e,
                        };
                        let types = match paramlistcall {
                            None => Vec::new(),
                            Some(p) => match &p.children {
                                SemanticNodeData::Paramlistcall { paramlist } => match read_args(paramlist, scopes) {
                                    ArgsResult::Done(t) => t,
                                    ArgsResult::Fail(e) => return Analysis::Fail(e),
                                    ArgsResult::Abort => return Analysis::Abort,
                                },
                                _ => return Analysis::Abort,
                            },
                        };
                        if !same_types(&fe.var_type, &types) {
                            return Analysis::Fail(SemanticError::new(
                                SemanticErrorKind::IncompatibleParameters,
                                fname.clone(),
                                0,
                                0,
                                None,
                            ));
                        }
                        match count(scopes, fname, tok.line, tok.column) {
                            Ok(()) => Analysis::Done(Some(ReturnSem::Tipo(VarType::Int))),
                            Err(e) => Analysis::Fail(e),
                        }
                    },
                    _ => Analysis::Abort,
                },
                _ => Analysis::Abort,
            },
            _ => Analysis::Abort,
        }
    }

    fn analyze_funcdef(&self, scopes: &mut ScopeStack) -> (r: Analysis)
        ensures
            analysis_matches(r, sem_funcdef(*self, old(scopes)@), final(scopes)@),
        decreases self, 0int,
    {
        match &self.children {
            SemanticNodeData::Funcdef { func_id, paramlist, statelist } => match &func_id.children {
                SemanticNodeData::Terminal { value: tok } => match &tok.value {
                    Some(ConstType::String(fname)) => {
                        let (types, params) = match paramlist {
                            None => (Vec::new(), Vec::new()),
                            Some(p) => match &p.children {
                                SemanticNodeData::Paramlist { paramlist } => match read_param_list(paramlist) {
                                    Some(tp) => tp,
                                    None => return Analysis::Abort,
                                },
                                _ => return Analysis::Abort,
                            },
                        };
                        proof {
                            if paramlist is None {
                                assert(types@ =~= Seq::<VarType>::empty());
                                assert(params_view(params@) =~= Seq::<(VarType, Seq<char>, (usize, usize))>::empty());
                            }
                        }
                        let entry = single_entry((tok.line, tok.column), types, Vec::new());
                        match insert(scopes, fname.clone(), entry) {
                            None => return Analysis::Abort,
                            Some(Err(e)) => return Analysis::Fail(e),
                            Some(Ok(())) => {},
                        }
                        push(scopes, ScopeType::Function);
                        match insert_param_list(&params, scopes) {
                            Analysis::Done(_) => {},
                            Analysis::Fail(e) => return Analysis::Fail(e),
                            Analysis::Abort => return Analysis::Abort,
                        }
                        match statelist.analyze(scopes) {
                            Analysis::Done(_) => {},
                            Analysis::Fail(e) => return Analysis::Fail(e),
                            Analysis::Abort => return Analysis::Abort,
                        }
                        pop(scopes);
                        Analysis::Done(None)
                    },
                    _ => Analysis::Abort,
                },
                _ => Analysis::Abort,
            },
            _ => Analysis::Abort,
        }
    }

    fn analyze_if(&self, scopes: &mut ScopeStack) -> (r: Analysis)
        ensures
            analysis_matches(r, sem_if(*self, old(scopes)@), final(scopes)@),
        decreases self, 0int,
    {
        match &self.children {
            SemanticNodeData::Ifstat { condition, then_branch, else_branch } => {
                match condition.analyze(scopes) {
                    Analysis::Done(_) => {},
                    Analysis::Fail(e) => return Analysis::Fail(e),
                    Analysis::Abort => return Analysis::Abort,
                }
                push(scopes, ScopeType::If);
                match then_branch.analyze(scopes) {
                    Analysis::Done(_) => {},
                    Analysis::Fail(e) => return Analysis::Fail(e),
                    Analysis::Abort => return Analysis::Abort,
                }
                pop(scopes);
                if let Some(eb) = else_branch {
                    match eb.analyze(scopes) {
                        Analysis::Done(_) => {},
                        Analysis::Fail(e) => return Analysis::Fail(e),
                        Analysis::Abort => return Analysis::Abort,
                    }
                }
                Analysis::Done(None)
            },
            _ => Analysis::Abort,
        }
    }

    fn analyze_lvalue(&self, scopes: &mut ScopeStack) -> (r: Analysis)
        ensures
            analysis_matches(r, sem_lvalue(*self, old(scopes)@), final(scopes)@),
        decreases self, 0int,
    {
        match &self.children {
            SemanticNodeData::Lvalue { id, var_index } => {
                let t = match id.analyze(scopes) {
                    Analysis::Done(Some(t)) => t,
                    Analysis::Done(None) => return Analysis::Abort,
                    Analysis::Fail(e) => return Analysis::Fail(e),
                    Analysis::Abort => return Analysis::Abort,
                };
                if let Some(vi) = var_index {
                    match vi.analyze(scopes) {
                        Analysis::Done(_) => {},
                        Analysis::Fail(e) => return Analysis::Fail(e),
                        Analysis::Abort => return Analysis::Abort,
                    }
                }
                Analysis::Done(Some(t))
            },
            _ => Analysis::Abort,
        }
    }

    fn analyze_binary(&self, scopes: &mut ScopeStack) -> (r: Analysis)
        ensures
            analysis_matches(r, sem_binary(*self, old(scopes)@), final(scopes)@),
        decreases self, 0int,
    {
        match &self.children {
            SemanticNodeData::Numexpression { term, op_numexpression, term2 } => {
                let t1 = match term.analyze(scopes) {
                    Analysis::Done(Some(t)) => t,
                    Analysis::Done(None) => return Analysis::Abort,
                    Analysis::Fail(e) => return Analysis::Fail(e),
                    Analysis::Abort => return Analysis::Abort,
                };
                if let Some(op) = op_numexpression {
                    match op.analyze(scopes) {
                        Analysis::Done(_) => {},
                        Analysis::Fail(e) => return Analysis::Fail(e),
                        Analysis::Abort => return Analysis::Abort,
                    }
                }
                if let Some(t) = term2 {
                    let t2 = match t.analyze(scopes) {
                        Analysis::Done(Some(t2)) => t2,
                        Analysis::Done(None) => return Analysis::Abort,
                        Analysis::Fail(e) => return Analysis::Fail(e),
                        Analysis::Abort => return Analysis::Abort,
                    };
                    if t1 != t2 {
                        return Analysis::Fail(SemanticError::plain(SemanticErrorKind::NumexpressionTypeMismatch));
                    }
                }
                Analysis::Done(Some(t1))
            },
            SemanticNodeData::Term { unaryexpression, unaryexpression2, .. } => {
                let t1 = match unaryexpression.analyze(scopes) {
                    Analysis::Done(Some(t)) => t,
                    Analysis::Done(None) => return Analysis::Abort,
                    Analysis::Fail(e) => return Analysis::Fail(e),
                    Analysis::Abort => return Analysis::Abort,
                };
                if let Some(u) = unaryexpression2 {
                    let t2 = match u.analyze(scopes) {
                        Analysis::Done(Some(t2)) => t2,
                        Analysis::Done(None) => return Analysis::Abort,
                        Analysis::Fail(e) => return Analysis::Fail(e),
                        Analysis::Abort => return Analysis::Abort,
                    };
                    if t1 != t2 {
                        return Analysis::Fail(SemanticError::plain(SemanticErrorKind::TermTypeMismatch));
                    }
                }
                Analysis::Done(Some(t1))
            },
            _ => Analysis::Abort,
        }
    }

    fn analyze_print(&self, scopes: &mut ScopeStack) -> (r: Analysis)
        ensures
            analysis_matches(r, sem_print(*self, old(scopes)@), final(scopes)@),
        decreases self, 0int,
    {
        match &self.children {
            SemanticNodeData::Printstat { expression } => expression.analyze(scopes),
            _ => Analysis::Abort,
        }
    }

    fn analyze_program(&self, scopes: &mut ScopeStack) -> (r: Analysis)
        ensures
            analysis_matches(r, sem_program(*self, old(scopes)@), final(scopes)@),
        decreases self, 0int,
    {
        match &self.children {
            SemanticNodeData::Program { funclist, statement } => {
                if let Some(f) = funclist {
                    return f.analyze(scopes);
                }
                if let Some(s) = statement {
                    return s.analyze(scopes);
                }
                Analysis::Abort
            },
            _ => Analysis::Abort,
        }
    }

    fn analyze_read(&self, scopes: &mut ScopeStack) -> (r: Analysis)
        ensures
            analysis_matches(r, sem_read(*self, old(scopes)@), final(scopes)@),
        decreases self, 0int,
    {
        match &self.children {
            SemanticNodeData::Readstat { lvalue } => match &lvalue.children {
                SemanticNodeData::Lvalue { id, .. } => match &id.children {
                    SemanticNodeData::Terminal { value: tok } => match &tok.value {
                        Some(ConstType::String(name)) => {
                            match count(scopes, name, tok.line, tok.column) {
                                Err(e) => return Analysis::Fail(e),
                                Ok(()) => {},
                            }
                            let entry = match scopes.get_symbol(name.as_str()) {
                                None => return Analysis::Fail(undeclared(name)),
                                Some(e) => e,
                            };
                            if entry.var_type.len() == 0 {
                                return Analysis::Abort;
                            }
                            if entry.var_type[0] != VarType::String {
                                return Analysis::Fail(SemanticError::new(
                                    SemanticErrorKind::ReadNotString,
                                    String::new(),
                                    tok.line,
                                    tok.column,
                                    Some(entry.var_type[0]),
                                ));
                            }
                            Analysis::Done(None)
                        },
                        _ => Analysis::Abort,
                    },
                    _ => Analysis::Abort,
                },
                _ => Analysis::Abort,
            },
            _ => Analysis::Abort,
        }
    }

    fn analyze_statement(&self, scopes: &mut ScopeStack) -> (r: Analysis)
        ensures
            analysis_matches(r, sem_statement(*self, old(scopes)@), final(scopes)@),
        decreases self, 0int,
    {
        match &self.children {
            SemanticNodeData::Statement { vardecl, atribstat, ifstat, forstat, statelist, commandstat } => {
                if let Some(v) = vardecl {
                    return v.analyze(scopes);
                }
                if let Some(a) = atribstat {
                    return a.analyze(scopes);
                }
                if let Some(i) = ifstat {
                    return i.analyze(scopes);
                }
                if let Some(f) = forstat {
                    return f.analyze(scopes);
                }
                if let Some(sl) = statelist {
                    push(scopes, ScopeType::Any);
                    match sl.analyze(scopes) {
                        Analysis::Done(_) => {},
                        Analysis::Fail(e) => return Analysis::Fail(e),
                        Analysis::Abort => return Analysis::Abort,
                    }
                    pop(scopes);
                    return Analysis::Done(None);
                }
                if let Some(c) = commandstat {
                    match &c.children {
                        SemanticNodeData::Returnstat { token } => {
                            if !scopes.contains(ScopeType::Function) {
                                return Analysis::Fail(SemanticError::new(
                                    SemanticErrorKind::ReturnOutsideFunction,
                                    String::new(),
                                    token.line,
                                    token.column,
                                    None,
                                ));
                            }
                        },
                        SemanticNodeData::Terminal { value } => {
                            if value.token_type == TokenType::KwBreak {
                                if !scopes.contains(ScopeType::Loop) {
                                    return Analysis::Fail(SemanticError::new(
                                        SemanticErrorKind::BreakOutsideLoop,
                                        String::new(),
                                        value.line,
                                        value.column,
                                        None,
                                    ));
                                }
                            }
                        },
                        _ => {},
                    }
                    return c.analyze(scopes);
                }
                Analysis::Done(None)
            },
            _ => Analysis::Abort,
        }
    }

    fn analyze_unary(&self, scopes: &mut ScopeStack) -> (r: Analysis)
        ensures
            analysis_matches(r, sem_unary(*self, old(scopes)@), final(scopes)@),
        decreases self, 0int,
    {
        match &self.children {
            SemanticNodeData::Unaryexpression { op, factor } => {
                if let Some(o) = op {
                    match o.analyze(scopes) {
                        Analysis::Done(_) => {},
                        Analysis::Fail(e) => return Analysis::Fail(e),
                        Analysis::Abort => return Analysis::Abort,
                    }
                }
                match factor.analyze(scopes) {
                    Analysis::Done(Some(t)) => Analysis::Done(Some(t)),
                    Analysis::Done(None) => Analysis::Abort,
                    Analysis::Fail(e) => Analysis::Fail(e),
                    Analysis::Abort => Analysis::Abort,
                }
            },
            _ => Analysis::Abort,
        }
    }

    fn analyze_vardecl(&self, scopes: &mut ScopeStack) -> (r: Analysis)
        ensures
            analysis_matches(r, sem_vardecl(*self, old(scopes)@), final(scopes)@),
        decreases self, 0int,
    {
        match &self.children {
            SemanticNodeData::Vardecl { var_type, id, const_index } => match &var_type.children {
                SemanticNodeData::Terminal { value: vt } => match &vt.value {
                    Some(ConstType::VarType(v)) => match &id.children {
                        SemanticNodeData::Terminal { value: tok } => match &tok.value {
                            Some(ConstType::String(name)) => {
                                let dims = match const_index {
                                    None => Vec::new(),
                                    Some(ci) => match &ci.children {
                                        SemanticNodeData::ConstIndex { index } => match read_dim_list(index) {
                                            Some(d) => d,
                                            None => return Analysis::Abort,
                                        },
                                        _ => return Analysis::Abort,
                                    },
                                };
                                let mut types: Vec<VarType> = Vec::new();
                                types.push(*v);
                                proof {
                                    assert(types@ =~= seq![*v]);
                                    if const_index is None {
                                        assert(dims@ =~= Seq::<u32>::empty());
                                    }
                                }
                                let entry = single_entry((tok.line, tok.column), types, dims);
                                match insert(scopes, name.clone(), entry) {
                                    None => Analysis::Abort,
                                    Some(Err(e)) => Analysis::Fail(e),
                                    Some(Ok(())) => Analysis::Done(None),
                                }
                            },
                            _ => Analysis::Abort,
                        },
                        _ => Analysis::Abort,
                    },
                    _ => Analysis::Abort,
                },
                _ => Analysis::Abort,
            },
            _ => Analysis::Abort,
        }
    }
}

/// Analyses the nodes of a list one after the other (see [`sem_list`]).
fn analyze_list(v: &Vec<SemanticNode>, scopes: &mut ScopeStack) -> (r: Analysis)
    ensures
        analysis_matches(r, sem_list(v@, 0, old(scopes)@), final(scopes)@),
    decreases v, 0int,
{
    let mut i: usize = 0;
    while i < v.len()
        invariant
            i <= v@.len(),
            sem_list(v@, 0, old(scopes)@) == sem_list(v@, i as int, scopes@),
        decreases v.len() - i,
    {
        match v[i].analyze(scopes) {
            Analysis::Done(_) => {},
            Analysis::Fail(e) => return Analysis::Fail(e),
            Analysis::Abort => return Analysis::Abort,
        }
        i = i + 1;
    }
    Analysis::Done(None)
}

/// Analyses the indexes of an assigned variable (see [`sem_index_list`]).
fn analyze_index_list(v: &Vec<SemanticNode>, scopes: &mut ScopeStack) -> (r: Analysis)
    ensures
        analysis_matches(r, sem_index_list(v@, 0, old(scopes)@), final(scopes)@),
    decreases v, 0int,
{
    let mut i: usize = 0;
    while i < v.len()
        invariant
            i <= v@.len(),
            sem_index_list(v@, 0, old(scopes)@) == sem_index_list(v@, i as int, scopes@),
        decreases v.len() - i,
    {
        match v[i].analyze(scopes) {
            Analysis::Done(Some(ReturnSem::Tipo(t))) => {
                if t != VarType::Int {
                    return Analysis::Fail(SemanticError::new(SemanticErrorKind::NonIntIndex, String::new(), 0, 0, Some(t)));
                }
            },
            Analysis::Done(_) => return Analysis::Abort,
            Analysis::Fail(e) => return Analysis::Fail(e),
            Analysis::Abort => return Analysis::Abort,
        }
        i = i + 1;
    }
    Analysis::Done(None)
}

/// How the reading of the arguments of a call ended.
enum ArgsResult {
    Done(Vec<VarType>),
    Fail(SemanticError),
    Abort,
}

/// Reads the arguments of a call (see [`call_args`]).
fn read_args(v: &Vec<SemanticNode>, scopes: &mut ScopeStack) -> (r: ArgsResult)
    ensures
        match call_args(v@, 0, old(scopes)@, Seq::empty()) {
            ArgsOutcome::Done(t, s) => r is Done && r->Done_0@ == t && final(scopes)@ == s,
            ArgsOutcome::Fail(e, s) => r is Fail && r->Fail_0@ == e && final(scopes)@ == s,
            ArgsOutcome::Abort => r is Abort,
        },
{
    let mut types: Vec<VarType> = Vec::new();
    let mut i: usize = 0;
    while i < v.len()
        invariant
            i <= v@.len(),
            call_args(v@, 0, old(scopes)@, Seq::empty()) == call_args(v@, i as int, scopes@, types@),
        decreases v.len() - i,
    {
        match &v[i].children {
            SemanticNodeData::Terminal { value: tok } => match &tok.value {
                Some(ConstType::String(p)) => {
                    match scopes.get_symbol(p.as_str()) {
                        Some(e) => {
                            if e.var_type.len() > 1 {
                                return ArgsResult::Fail(SemanticError::new(
                                    SemanticErrorKind::FunctionAsParameter,
                                    p.clone(),
                                    0,
                                    0,
                                    None,
                                ));
                            }
                            if e.var_type.len() == 0 {
                                return ArgsResult::Abort;
                            }
                            types.push(e.var_type[0]);
                        },
                        None => return ArgsResult::Fail(SemanticError::new(
                            SemanticErrorKind::UndefinedParameter,
                            p.clone(),
                            0,
                            0,
                            None,
                        )),
                    }
                    match count(scopes, p, tok.line, tok.column) {
                        Ok(()) => {},
                        Err(e) => return ArgsResult::Fail(e),
                    }
                },
                _ => return ArgsResult::Abort,
            },
            _ => return ArgsResult::Abort,
        }
        i = i + 1;
    }
    ArgsResult::Done(types)
}

/// Whether two type lists are equal.
fn same_types(a: &Vec<VarType>, b: &Vec<VarType>) -> (r: bool)
    ensures
        r == (a@ == b@),
{
    if a.len() != b.len() {
        return false;
    }
    let mut i: usize = 0;
    while i < a.len()
        invariant
            a@.len() == b@.len(),
            i <= a@.len(),
            forall|j: int| 0 <= j < i ==> a@[j] == b@[j],
        decreases a.len() - i,
    {
        if a[i] != b[i] {
            return false;
        }
        i = i + 1;
    }
    assert(a@ =~= b@);
    true
}

/// The view of a parameter list.
pub open spec fn params_view(p: Seq<(VarType, String, (usize, usize))>) -> Seq<(VarType, Seq<char>, (usize, usize))> {
    p.map_values(|x: (VarType, String, (usize, usize))| (x.0, x.1@, x.2))
}

/// Reads the parameters of a function definition (see [`read_params`]).
fn read_param_list(v: &Vec<SemanticNode>) -> (r: Option<(Vec<VarType>, Vec<(VarType, String, (usize, usize))>)>)
    ensures
        match read_params(v@, 0, None, Seq::empty(), Seq::empty()) {
            Some((t, p)) => r is Some && r->Some_0.0@ == t && params_view(r->Some_0.1@) == p,
            None => r is None,
        },
{
    let mut types: Vec<VarType> = Vec::new();
    let mut params: Vec<(VarType, String, (usize, usize))> = Vec::new();
    let mut prev: Option<VarType> = None;
    let mut i: usize = 0;
    assert(params_view(params@) =~= Seq::<(VarType, Seq<char>, (usize, usize))>::empty());
    assert(types@ =~= Seq::<VarType>::empty());
    while i < v.len()
        invariant
            i <= v@.len(),
            read_params(v@, 0, None, Seq::empty(), Seq::empty())
                == read_params(v@, i as int, prev, types@, params_view(params@)),
        decreases v.len() - i,
    {
        match &v[i].children {
            SemanticNodeData::Terminal { value: tok } => match tok.token_type {
                TokenType::VarType => match &tok.value {
                    Some(ConstType::VarType(t)) => {
                        types.push(*t);
                        prev = Some(*t);
                    },
                    _ => return None,
                },
                TokenType::Id => match &tok.value {
                    Some(ConstType::String(pn)) => match prev {
                        Some(pt) => {
                            let ghost old_params = params@;
                            params.push((pt, pn.clone(), (tok.line, tok.column)));
                            assert(params_view(params@) =~= params_view(old_params).push((pt, pn@, (tok.line, tok.column))));
                        },
                        None => return None,
                    },
                    _ => return None,
                },
                _ => return None,
            },
            _ => return None,
        }
        i = i + 1;
    }
    Some((types, params))
}

/// Declares the parameters of a function (see [`insert_params`]).
fn insert_param_list(ps: &Vec<(VarType, String, (usize, usize))>, scopes: &mut ScopeStack) -> (r: Analysis)
    ensures
        analysis_matches(r, insert_params(params_view(ps@), 0, old(scopes)@), final(scopes)@),
{
    let ghost pv = params_view(ps@);
    let mut i: usize = 0;
    while i < ps.len()
        invariant
            i <= ps@.len(),
            pv == params_view(ps@),
            insert_params(pv, 0, old(scopes)@) == insert_params(pv, i as int, scopes@),
        decreases ps.len() - i,
    {
        let mut types: Vec<VarType> = Vec::new();
        types.push(ps[i].0);
        assert(types@ =~= seq![pv[i as int].0]);
        let entry = single_entry(ps[i].2, types, Vec::new());
        assert(entry@ == decl_entry(pv[i as int].2, seq![pv[i as int].0], Seq::empty()));
        match insert(scopes, ps[i].1.clone(), entry) {
            None => return Analysis::Abort,
            Some(Err(e)) => return Analysis::Fail(e),
            Some(Ok(())) => {},
        }
        i = i + 1;
    }
    Analysis::Done(None)
}

/// Reads the dimensions of a declared array (see [`read_dims`]).
fn read_dim_list(v: &Vec<SemanticNode>) -> (r: Option<Vec<u32>>)
    ensures
        match read_dims(v@, 0, Seq::empty()) {
            Some(d) => r is Some && r->Some_0@ == d,
            None => r is None,
        },
{
    let mut dims: Vec<u32> = Vec::new();
    let mut i: usize = 0;
    assert(dims@ =~= Seq::<u32>::empty());
    while i < v.len()
        invariant
            i <= v@.len(),
            read_dims(v@, 0, Seq::empty()) == read_dims(v@, i as int, dims@),
        decreases v.len() - i,
    {
        match &v[i].children {
            SemanticNodeData::Terminal { value: tok } => match &tok.value {
                Some(ConstType::Int(x)) => {
                    dims.push(*x as u32);
                },
                _ => return None,
            },
            _ => return None,
        }
        i = i + 1;
    }
    Some(dims)
}

/// Analyses a terminal (see [`sem_terminal`]).
fn analyze_terminal(tok: &crate::token::Token, scopes: &mut ScopeStack) -> (r: Analysis)
    ensures
        analysis_matches(r, sem_terminal(*tok, old(scopes)@), final(scopes)@),
{
    match tok.token_type {
        TokenType::Eof => {
            if scopes.stack.len() == 1 {
                pop(scopes);
                Analysis::Done(Some(ReturnSem::TT(TokenType::Eof)))
            } else {
                Analysis::Fail(SemanticError::plain(SemanticErrorKind::UnexpectedEof))
            }
        },
        TokenType::ConstInt => match &tok.value {
            Some(ConstType::Int(_)) => Analysis::Done(Some(ReturnSem::Tipo(VarType::Int))),
            Some(_) => Analysis::Fail(SemanticError::plain(SemanticErrorKind::ExpectedIntConstant)),
            None => Analysis::Fail(SemanticError::plain(SemanticErrorKind::MissingIntValue)),
        },
        TokenType::ConstFloat => match &tok.value {
            Some(ConstType::Float(_)) => Analysis::Done(Some(ReturnSem::Tipo(VarType::Float))),
            Some(_) => Analysis::Fail(SemanticError::plain(SemanticErrorKind::ExpectedFloatConstant)),
            None => Analysis::Fail(SemanticError::plain(SemanticErrorKind::MissingFloatValue)),
        },
        TokenType::ConstString => match &tok.value {
            Some(ConstType::String(_)) => Analysis::Done(Some(ReturnSem::Tipo(VarType::String))),
            Some(_) => Analysis::Fail(SemanticError::plain(SemanticErrorKind::ExpectedStringConstant)),
            None => Analysis::Fail(SemanticError::plain(SemanticErrorKind::MissingStringValue)),
        },
        TokenType::Id => match &tok.value {
            Some(ConstType::String(name)) => {
                match count(scopes, name, tok.line, tok.column) {
                    Err(e) => return Analysis::Fail(e),
                    Ok(()) => {},
                }
                match scopes.get_symbol(name.as_str()) {
                    None => Analysis::Fail(undeclared(name)),
                    Some(entry) => {
                        if entry.var_type.len() == 0 {
                            Analysis::Abort
                        } else {
                            Analysis::Done(Some(ReturnSem::Tipo(entry.var_type[0])))
                        }
                    },
                }
            },
            _ => Analysis::Abort,
        },
        _ => Analysis::Done(None),
    }
}

} // verus!
