//! Laws of the semantic tree. What every successful analysis keeps: the
//! scopes that it opens are closed again, so the stack of scopes ends with
//! the scopes it began with, whose symbols only gain appearances, and only
//! the innermost of which gains symbols. How if and for statements depend on
//! the parts they hold; how expression trees keep the order of operands; and
//! how the drawing of a tree draws each of its nodes.

use vstd::prelude::*;
use crate::semantic::{
    SemanticNode, Outcome, ArgsOutcome, sem, sem_list, sem_index_list, call_args, insert_params, st_push, st_pop,
    st_count, st_insert, token_string, decl_entry, read_params, sem_alloc, sem_atribstat, sem_atribstatevalue,
    sem_else, sem_expression, sem_factor, sem_for, sem_funccall, sem_funcdef, sem_if, sem_lvalue, sem_binary,
    sem_print, sem_program, sem_read, sem_statement, sem_unary, sem_vardecl, sem_terminal,
};
use crate::const_type::VarType;
use crate::semantic_node::SemanticNodeData;
use crate::scope_stack::{ScopesView, ScopeView, ScopeType, EntryView, TableView, spec_lookup, stack_find, lemma_stack_find_bounds};
use crate::token_type::{TokenType, spec_is_operator, spec_operator};
use crate::expression::ExprView;
use crate::semantic_dot::{children_of, opt_seq, is_leaf_node, node_edges, edges_from, lemma_child_decreases, dot_text, dot_from, edge_line, label_line, node_label};
use crate::expression_build::{Built, build, build_binary, build_expression, build_unary};

verus! {

/// The types of the scopes of the stack, outermost first.
pub open spec fn scope_types(st: ScopesView) -> Seq<ScopeType> {
    st.stack.map_values(|s: ScopeView| s.0)
}

/// An entry grows when it keeps its type and dimensions and only gains
/// appearances, after those it had.
pub open spec fn entry_grows(a: EntryView, b: EntryView) -> bool {
    &&& b.var_type == a.var_type
    &&& b.const_index == a.const_index
    &&& a.appearances.len() <= b.appearances.len()
    &&& forall|i: int| 0 <= i < a.appearances.len() ==> #[trigger] b.appearances[i] == a.appearances[i]
}

/// A table grows when it keeps its symbols, in their order, each entry
/// growing; the table of the innermost scope (`innermost`) may also gain
/// symbols after them.
pub open spec fn table_grows(a: TableView, b: TableView, innermost: bool) -> bool {
    &&& if innermost { a.len() <= b.len() } else { a.len() == b.len() }
    &&& forall|j: int| #![trigger b[j]] 0 <= j < a.len() ==> b[j].0 == a[j].0 && entry_grows(a[j].1, b[j].1)
}

/// The scopes grow from `a` to `b`: as many scopes, of the same types, each
/// table growing, and only the innermost one gaining symbols.
pub open spec fn scopes_grow(a: ScopesView, b: ScopesView) -> bool {
    &&& b.stack.len() == a.stack.len()
    &&& forall|k: int| #![trigger b.stack[k]] 0 <= k < a.stack.len() ==> b.stack[k].0 == a.stack[k].0
        && table_grows(a.stack[k].1, b.stack[k].1, k == a.stack.len() - 1)
}

/// Whether an optional part holds no end-of-input token.
pub open spec fn opt_free_of_eof(o: Option<Box<SemanticNode>>) -> bool
    decreases o, 0int,
{
    match o {
        Some(b) => free_of_eof(*b),
        None => true,
    }
}

/// Whether the subtree `n` holds no end-of-input token (the one token whose
/// analysis closes a scope it did not open).
pub open spec fn free_of_eof(n: SemanticNode) -> bool
    decreases n, 1int,
{
    match n.children {
        SemanticNodeData::Allocexpression { var_type, dimensions } => free_of_eof(*var_type) && free_of_eof(*dimensions),
        SemanticNodeData::Atribstat { lvalue, value } => free_of_eof(*lvalue) && free_of_eof(*value),
        SemanticNodeData::Atribstatevalue { expression, allocexpression, funccall } =>
            opt_free_of_eof(expression) && opt_free_of_eof(allocexpression) && opt_free_of_eof(funccall),
        SemanticNodeData::Constant { .. } => true,
        SemanticNodeData::ConstIndex { index } => list_free_of_eof(index@, 0),
        SemanticNodeData::Elsestat { statement } => free_of_eof(*statement),
        SemanticNodeData::Expression { numexpression, op_expression, numexpression2 } =>
            free_of_eof(*numexpression) && opt_free_of_eof(op_expression) && opt_free_of_eof(numexpression2),
        SemanticNodeData::Factor { expression, lvalue, constant } =>
            opt_free_of_eof(expression) && opt_free_of_eof(lvalue) && opt_free_of_eof(constant),
        SemanticNodeData::Forstat { init, condition, increment, body } =>
            free_of_eof(*init) && free_of_eof(*condition) && free_of_eof(*increment) && free_of_eof(*body),
        SemanticNodeData::Funccall { id, paramlistcall } => free_of_eof(*id) && opt_free_of_eof(paramlistcall),
        SemanticNodeData::Funcdef { func_id, paramlist, statelist } =>
            free_of_eof(*func_id) && opt_free_of_eof(paramlist) && free_of_eof(*statelist),
        SemanticNodeData::Funclist { funclist } => list_free_of_eof(funclist@, 0),
        SemanticNodeData::Ifstat { condition, then_branch, else_branch } =>
            free_of_eof(*condition) && free_of_eof(*then_branch) && opt_free_of_eof(else_branch),
        SemanticNodeData::Lvalue { id, var_index } => free_of_eof(*id) && opt_free_of_eof(var_index),
        SemanticNodeData::Numexpression { term, op_numexpression, term2 } =>
            free_of_eof(*term) && opt_free_of_eof(op_numexpression) && opt_free_of_eof(term2),
        SemanticNodeData::OpExpression { .. } => true,
        SemanticNodeData::OpNumexpression { .. } => true,
        SemanticNodeData::OpTerm { .. } => true,
        SemanticNodeData::Paramlist { paramlist } => list_free_of_eof(paramlist@, 0),
        SemanticNodeData::Paramlistcall { paramlist } => list_free_of_eof(paramlist@, 0),
        SemanticNodeData::Printstat { expression } => free_of_eof(*expression),
        SemanticNodeData::Program { funclist, statement } => opt_free_of_eof(funclist) && opt_free_of_eof(statement),
        SemanticNodeData::Readstat { lvalue } => free_of_eof(*lvalue),
        SemanticNodeData::Returnstat { .. } => true,
        SemanticNodeData::Statelist { statelist } => list_free_of_eof(statelist@, 0),
        SemanticNodeData::Statement { vardecl, atribstat, ifstat, forstat, statelist, commandstat } =>
            opt_free_of_eof(vardecl) && opt_free_of_eof(atribstat) && opt_free_of_eof(ifstat)
                && opt_free_of_eof(forstat) && opt_free_of_eof(statelist) && opt_free_of_eof(commandstat),
        SemanticNodeData::Term { unaryexpression, op_term, unaryexpression2 } =>
            free_of_eof(*unaryexpression) && opt_free_of_eof(op_term) && opt_free_of_eof(unaryexpression2),
        SemanticNodeData::Unaryexpression { op, factor } => opt_free_of_eof(op) && free_of_eof(*factor),
        SemanticNodeData::Vardecl { var_type, id, const_index } =>
            free_of_eof(*var_type) && free_of_eof(*id) && opt_free_of_eof(const_index),
        SemanticNodeData::VarIndex { index } => list_free_of_eof(index@, 0),
        SemanticNodeData::Terminal { value } => value.token_type != TokenType::Eof,
    }
}

/// The number of nodes of the subtree `n`: the node and the nodes of each
/// of its parts.
pub open spec fn node_count(n: SemanticNode) -> nat
    decreases n, 1int,
{
    match n.children {
        SemanticNodeData::Allocexpression { var_type, dimensions } => 1 + node_count(*var_type) + node_count(*dimensions),
        SemanticNodeData::Atribstat { lvalue, value } => 1 + node_count(*lvalue) + node_count(*value),
        SemanticNodeData::Atribstatevalue { expression, allocexpression, funccall } =>
            1 + opt_count(expression) + opt_count(allocexpression) + opt_count(funccall),
        SemanticNodeData::Constant { .. } => 1,
        SemanticNodeData::ConstIndex { index } => 1 + list_count(index@, 0),
        SemanticNodeData::Elsestat { statement } => 1 + node_count(*statement),
        SemanticNodeData::Expression { numexpression, op_expression, numexpression2 } =>
            1 + node_count(*numexpression) + opt_count(op_expression) + opt_count(numexpression2),
        SemanticNodeData::Factor { expression, lvalue, constant } =>
            1 + opt_count(expression) + opt_count(lvalue) + opt_count(constant),
        SemanticNodeData::Forstat { init, condition, increment, body } =>
            1 + node_count(*init) + node_count(*condition) + node_count(*increment) + node_count(*body),
        SemanticNodeData::Funccall { id, paramlistcall } => 1 + node_count(*id) + opt_count(paramlistcall),
        SemanticNodeData::Funcdef { func_id, paramlist, statelist } =>
            1 + node_count(*func_id) + opt_count(paramlist) + node_count(*statelist),
        SemanticNodeData::Funclist { funclist } => 1 + list_count(funclist@, 0),
        SemanticNodeData::Ifstat { condition, then_branch, else_branch } =>
            1 + node_count(*condition) + node_count(*then_branch) + opt_count(else_branch),
        SemanticNodeData::Lvalue { id, var_index } => 1 + node_count(*id) + opt_count(var_index),
        SemanticNodeData::Numexpression { term, op_numexpression, term2 } =>
            1 + node_count(*term) + opt_count(op_numexpression) + opt_count(term2),
        SemanticNodeData::OpExpression { .. } => 1,
        SemanticNodeData::OpNumexpression { .. } => 1,
        SemanticNodeData::OpTerm { .. } => 1,
        SemanticNodeData::Paramlist { paramlist } => 1 + list_count(paramlist@, 0),
        SemanticNodeData::Paramlistcall { paramlist } => 1 + list_count(paramlist@, 0),
        SemanticNodeData::Printstat { expression } => 1 + node_count(*expression),
        SemanticNodeData::Program { funclist, statement } => 1 + opt_count(funclist) + opt_count(statement),
        SemanticNodeData::Readstat { lvalue } => 1 + node_count(*lvalue),
        SemanticNodeData::Returnstat { .. } => 1,
        SemanticNodeData::Statelist { statelist } => 1 + list_count(statelist@, 0),
        SemanticNodeData::Statement { vardecl, atribstat, ifstat, forstat, statelist, commandstat } =>
            1 + opt_count(vardecl) + opt_count(atribstat) + opt_count(ifstat)
                + opt_count(forstat) + opt_count(statelist) + opt_count(commandstat),
        SemanticNodeData::Term { unaryexpression, op_term, unaryexpression2 } =>
            1 + node_count(*unaryexpression) + opt_count(op_term) + opt_count(unaryexpression2),
        SemanticNodeData::Unaryexpression { op, factor } => 1 + opt_count(op) + node_count(*factor),
        SemanticNodeData::Vardecl { var_type, id, const_index } =>
            1 + node_count(*var_type) + node_count(*id) + opt_count(const_index),
        SemanticNodeData::VarIndex { index } => 1 + list_count(index@, 0),
        SemanticNodeData::Terminal { .. } => 1,
    }
}


/// The number of nodes of an optional part.
pub open spec fn opt_count(o: Option<Box<SemanticNode>>) -> nat
    decreases o, 0int,
{
    match o {
        Some(b) => node_count(*b),
        None => 0,
    }
}

/// The number of nodes of the subtrees `s[i..]`.
pub open spec fn list_count(s: Seq<SemanticNode>, i: int) -> nat
    decreases s, s.len() - i,
{
    if i < 0 || i >= s.len() {
        0
    } else {
        node_count(s[i]) + list_count(s, i + 1)
    }
}

/// Whether the nodes `s[i..]` hold no end-of-input token.
pub open spec fn list_free_of_eof(s: Seq<SemanticNode>, i: int) -> bool
    decreases s, s.len() - i,
{
    if i < 0 || i >= s.len() {
        true
    } else {
        free_of_eof(s[i]) && list_free_of_eof(s, i + 1)
    }
}

proof fn lemma_count_grows(st: ScopesView, name: Seq<char>, line: usize, column: usize)
    ensures
        st_count(st, name, line, column) matches Ok(s1) ==> scopes_grow(st, s1),
{
    lemma_stack_find_bounds(st.stack, name);
    if let Ok(s1) = st_count(st, name, line, column) {
        let (k, j) = stack_find(st.stack, name)->Some_0;
        assert forall|k2: int| #![trigger s1.stack[k2]] 0 <= k2 < st.stack.len() implies s1.stack[k2].0 == st.stack[k2].0
            && table_grows(st.stack[k2].1, s1.stack[k2].1, k2 == st.stack.len() - 1) by {
            if k2 == k {
                let a = st.stack[k2].1;
                let b = s1.stack[k2].1;
                assert forall|j2: int| #![trigger b[j2]] 0 <= j2 < a.len() implies b[j2].0 == a[j2].0 && entry_grows(a[j2].1, b[j2].1) by {
                    if j2 == j {
                        assert forall|i: int| 0 <= i < a[j2].1.appearances.len() implies
                            #[trigger] b[j2].1.appearances[i] == a[j2].1.appearances[i] by {}
                    }
                }
            }
        }
    }
}

proof fn lemma_insert_grows(st: ScopesView, name: Seq<char>, e: EntryView)
    ensures
        st_insert(st, name, e) matches Some(Ok(s1)) ==> scopes_grow(st, s1),
{
    if let Some(Ok(s1)) = st_insert(st, name, e) {
        assert forall|k2: int| #![trigger s1.stack[k2]] 0 <= k2 < st.stack.len() implies s1.stack[k2].0 == st.stack[k2].0
            && table_grows(st.stack[k2].1, s1.stack[k2].1, k2 == st.stack.len() - 1) by {
            let a = st.stack[k2].1;
            let b = s1.stack[k2].1;
            assert forall|j2: int| #![trigger b[j2]] 0 <= j2 < a.len() implies b[j2].0 == a[j2].0 && entry_grows(a[j2].1, b[j2].1) by {
                assert forall|i: int| 0 <= i < a[j2].1.appearances.len() implies
                    #[trigger] b[j2].1.appearances[i] == a[j2].1.appearances[i] by {}
            }
        }
    }
}

proof fn lemma_grows_trans(a: ScopesView, b: ScopesView, c: ScopesView)
    requires
        scopes_grow(a, b),
        scopes_grow(b, c),
    ensures
        scopes_grow(a, c),
{
    assert forall|k: int| #![trigger c.stack[k]] 0 <= k < a.stack.len() implies c.stack[k].0 == a.stack[k].0
        && table_grows(a.stack[k].1, c.stack[k].1, k == a.stack.len() - 1) by {
        assert(b.stack[k].0 == a.stack[k].0);
        let (ta, tb, tc) = (a.stack[k].1, b.stack[k].1, c.stack[k].1);
        assert forall|j: int| #![trigger tc[j]] 0 <= j < ta.len() implies tc[j].0 == ta[j].0 && entry_grows(ta[j].1, tc[j].1) by {
            assert(tb[j].0 == ta[j].0);
            assert(entry_grows(ta[j].1, tb[j].1));
            assert(entry_grows(tb[j].1, tc[j].1));
            assert forall|i: int| 0 <= i < ta[j].1.appearances.len() implies
                #[trigger] tc[j].1.appearances[i] == ta[j].1.appearances[i] by {
                assert(tb[j].1.appearances[i] == ta[j].1.appearances[i]);
            }
        }
    }
}

proof fn lemma_grows_pop(a: ScopesView, t: ScopeType, b: ScopesView)
    requires
        scopes_grow(st_push(a, t), b),
    ensures
        scopes_grow(a, st_pop(b)),
{
    let p = st_push(a, t);
    let c = st_pop(b);
    assert forall|k: int| #![trigger c.stack[k]] 0 <= k < a.stack.len() implies c.stack[k].0 == a.stack[k].0
        && table_grows(a.stack[k].1, c.stack[k].1, k == a.stack.len() - 1) by {
        assert(p.stack[k] == a.stack[k]);
        assert(b.stack[k].0 == p.stack[k].0);
        assert(table_grows(p.stack[k].1, b.stack[k].1, k == p.stack.len() - 1));
        assert(c.stack[k] == b.stack[k]);
    }
}

proof fn lemma_grows_refl(a: ScopesView)
    ensures
        scopes_grow(a, a),
{
    assert forall|k: int| #![trigger a.stack[k]] 0 <= k < a.stack.len() implies a.stack[k].0 == a.stack[k].0
        && table_grows(a.stack[k].1, a.stack[k].1, k == a.stack.len() - 1) by {
        let t = a.stack[k].1;
        assert forall|j: int| #![trigger t[j]] 0 <= j < t.len() implies t[j].0 == t[j].0 && entry_grows(t[j].1, t[j].1) by {}
    }
}

proof fn lemma_scope_ops()
    ensures
        forall|a: ScopesView| #[trigger] scopes_grow(a, a),
        forall|a: ScopesView, b: ScopesView, c: ScopesView|
            #[trigger] scopes_grow(a, b) && #[trigger] scopes_grow(b, c) ==> scopes_grow(a, c),
        forall|a: ScopesView, t: ScopeType, b: ScopesView|
            #[trigger] scopes_grow(st_push(a, t), b) ==> scopes_grow(a, st_pop(b)),
        forall|st: ScopesView, name: Seq<char>, line: usize, column: usize|
            (#[trigger] st_count(st, name, line, column)) matches Ok(s1) ==> scopes_grow(st, s1),
        forall|st: ScopesView, name: Seq<char>, e: EntryView|
            (#[trigger] st_insert(st, name, e)) matches Some(Ok(s1)) ==> scopes_grow(st, s1),
{
    assert forall|a: ScopesView| #[trigger] scopes_grow(a, a) by {
        lemma_grows_refl(a);
    }
    assert forall|a: ScopesView, b: ScopesView, c: ScopesView|
        #[trigger] scopes_grow(a, b) && #[trigger] scopes_grow(b, c) implies scopes_grow(a, c) by {
        lemma_grows_trans(a, b, c);
    }
    assert forall|a: ScopesView, t: ScopeType, b: ScopesView|
        #[trigger] scopes_grow(st_push(a, t), b) implies scopes_grow(a, st_pop(b)) by {
        lemma_grows_pop(a, t, b);
    }
    assert forall|st: ScopesView, name: Seq<char>, line: usize, column: usize|
        (#[trigger] st_count(st, name, line, column)) is Ok implies
            scopes_grow(st, st_count(st, name, line, column)->Ok_0) by {
        lemma_count_grows(st, name, line, column);
    }
    assert forall|st: ScopesView, name: Seq<char>, e: EntryView|
        (#[trigger] st_insert(st, name, e)) matches Some(Ok(_)) implies
            scopes_grow(st, st_insert(st, name, e)->Some_0->Ok_0) by {
        lemma_insert_grows(st, name, e);
    }
}

proof fn lemma_call_args_types(s: Seq<SemanticNode>, i: int, st: ScopesView, acc: Seq<VarType>)
    ensures
        call_args(s, i, st, acc) matches ArgsOutcome::Done(_, s1) ==> scopes_grow(st, s1),
    decreases s.len() - i,
{
    lemma_scope_ops();
    if 0 <= i < s.len() {
        match s[i].children {
            SemanticNodeData::Terminal { value: tok } => match token_string(tok) {
                Some(p) => match spec_lookup(st.stack, p) {
                    Some(e) => if e.var_type.len() == 1 {
                        match st_count(st, p, tok.line, tok.column) {
                            Ok(st1) => lemma_call_args_types(s, i + 1, st1, acc.push(e.var_type[0])),
                            Err(_) => {},
                        }
                    },
                    None => {},
                },
                None => {},
            },
            _ => {},
        }
    }
}

proof fn lemma_insert_params_types(ps: Seq<(VarType, Seq<char>, (usize, usize))>, i: int, st: ScopesView)
    ensures
        insert_params(ps, i, st) matches Outcome::Done(_, s1) ==> scopes_grow(st, s1),
    decreases ps.len() - i,
{
    lemma_scope_ops();
    if 0 <= i < ps.len() {
        match st_insert(st, ps[i].1, decl_entry(ps[i].2, seq![ps[i].0], Seq::empty())) {
            Some(Ok(st1)) => lemma_insert_params_types(ps, i + 1, st1),
            _ => {},
        }
    }
}

proof fn lemma_opt_types(o: Option<Box<SemanticNode>>, st: ScopesView)
    requires
        opt_free_of_eof(o),
    ensures
        o matches Some(b) ==> (sem(*b, st) matches Outcome::Done(_, s2) ==> scopes_grow(st, s2)),
    decreases o, 1int,
{
    match o {
        Some(b) => lemma_sem_types(*b, st),
        None => {},
    }
}

proof fn lemma_list_types(s: Seq<SemanticNode>, i: int, st: ScopesView)
    requires
        list_free_of_eof(s, i),
    ensures
        sem_list(s, i, st) matches Outcome::Done(_, s2) ==> scopes_grow(st, s2),
        sem_index_list(s, i, st) matches Outcome::Done(_, s2) ==> scopes_grow(st, s2),
    decreases s, s.len() - i,
{
    if 0 <= i < s.len() {
        assert(free_of_eof(s[i]) && list_free_of_eof(s, i + 1));
        lemma_sem_types(s[i], st);
        match sem(s[i], st) {
            Outcome::Done(_, st1) => lemma_list_types(s, i + 1, st1),
            _ => {},
        }
    }
}

proof fn lemma_sem_types(n: SemanticNode, st: ScopesView)
    requires
        free_of_eof(n),
    ensures
        sem(n, st) matches Outcome::Done(_, s2) ==> scopes_grow(st, s2),
    decreases n, 2int,
{
    match n.children {
        SemanticNodeData::Allocexpression { .. } => lemma_allocexpression_types(n, st),
        SemanticNodeData::Atribstat { .. } => lemma_atribstat_types(n, st),
        SemanticNodeData::Atribstatevalue { .. } => lemma_atribstatevalue_types(n, st),
        SemanticNodeData::ConstIndex { index } => lemma_list_types(index@, 0, st),
        SemanticNodeData::Elsestat { statement } => {
            assert(sem(n, st) == sem_else(n, st));
            lemma_scope_ops();
            lemma_sem_types(*statement, st_push(st, ScopeType::Else));
            match sem(*statement, st_push(st, ScopeType::Else)) {
                Outcome::Done(_, s1) => lemma_grows_pop(st, ScopeType::Else, s1),
                _ => {},
            }
        },
        SemanticNodeData::Expression { .. } => lemma_expression_types(n, st),
        SemanticNodeData::Factor { .. } => lemma_factor_types(n, st),
        SemanticNodeData::Forstat { .. } => lemma_forstat_types(n, st),
        SemanticNodeData::Funccall { .. } => lemma_funccall_types(n, st),
        SemanticNodeData::Funcdef { .. } => lemma_funcdef_types(n, st),
        SemanticNodeData::Funclist { funclist } => lemma_list_types(funclist@, 0, st),
        SemanticNodeData::Ifstat { .. } => lemma_ifstat_types(n, st),
        SemanticNodeData::Lvalue { .. } => lemma_lvalue_types(n, st),
        SemanticNodeData::Numexpression { .. } => lemma_numexpression_types(n, st),
        SemanticNodeData::Paramlistcall { paramlist } => lemma_list_types(paramlist@, 0, st),
        SemanticNodeData::Printstat { expression } => {
            assert(sem(n, st) == sem_print(n, st));
            lemma_sem_types(*expression, st);
        },
        SemanticNodeData::Program { .. } => lemma_program_types(n, st),
        SemanticNodeData::Readstat { .. } => lemma_leaf_types(n, st),
        SemanticNodeData::Statelist { statelist } => lemma_list_types(statelist@, 0, st),
        SemanticNodeData::Statement { .. } => lemma_statement_types(n, st),
        SemanticNodeData::Term { .. } => lemma_term_types(n, st),
        SemanticNodeData::Unaryexpression { .. } => lemma_unaryexpression_types(n, st),
        SemanticNodeData::Vardecl { .. } => lemma_leaf_types(n, st),
        SemanticNodeData::VarIndex { index } => lemma_list_types(index@, 0, st),
        SemanticNodeData::Terminal { .. } => lemma_leaf_types(n, st),
        _ => {},
    }
}

proof fn lemma_leaf_types(n: SemanticNode, st: ScopesView)
    requires
        free_of_eof(n),
        n.children is Readstat || n.children is Vardecl || n.children is Terminal,
    ensures
        sem(n, st) matches Outcome::Done(_, s2) ==> scopes_grow(st, s2),
{
    lemma_scope_ops();
    match n.children {
        SemanticNodeData::Readstat { .. } => assert(sem(n, st) == sem_read(n, st)),
        SemanticNodeData::Vardecl { .. } => assert(sem(n, st) == sem_vardecl(n, st)),
        SemanticNodeData::Terminal { value } => assert(sem(n, st) == sem_terminal(value, st)),
        _ => {},
    }
}

proof fn lemma_allocexpression_types(n: SemanticNode, st: ScopesView)
    requires
        free_of_eof(n),
        n.children is Allocexpression,
    ensures
        sem(n, st) matches Outcome::Done(_, s2) ==> scopes_grow(st, s2),
    decreases n, 1int,
{
    lemma_scope_ops();
    match n.children {
        SemanticNodeData::Allocexpression { var_type, dimensions } => {
            assert(sem(n, st) == sem_alloc(n, st));
            lemma_sem_types(*var_type, st);
            match sem(*var_type, st) {
                Outcome::Done(_, st1) => lemma_sem_types(*dimensions, st1),
                _ => {},
            }
        },
        _ => {},
    }
}

proof fn lemma_atribstat_types(n: SemanticNode, st: ScopesView)
    requires
        free_of_eof(n),
        n.children is Atribstat,
    ensures
        sem(n, st) matches Outcome::Done(_, s2) ==> scopes_grow(st, s2),
    decreases n, 1int,
{
    lemma_scope_ops();
    match n.children {
        SemanticNodeData::Atribstat { lvalue, value } => {
            assert(sem(n, st) == sem_atribstat(n, st));
            match lvalue.children {
                SemanticNodeData::Lvalue { id, var_index } => match id.children {
                    SemanticNodeData::Terminal { value: tok } => match token_string(tok) {
                        Some(name) => match st_count(st, name, tok.line, tok.column) {
                            Ok(st1) => {
                                lemma_sem_types(*value, st1);
                                match sem(*value, st1) {
                                    Outcome::Done(_, st2) => match var_index {
                                        Some(vi) => {
                                            assert(free_of_eof(*lvalue));
                                            assert(opt_free_of_eof(var_index));
                                            assert(free_of_eof(*vi));
                                            match vi.children {
                                                SemanticNodeData::VarIndex { index } => lemma_list_types(index@, 0, st2),
                                                _ => {},
                                            }
                                        },
                                        None => {},
                                    },
                                    _ => {},
                                }
                            },
                            Err(_) => {},
                        },
                        None => {},
                    },
                    _ => {},
                },
                _ => {},
            }
        },
        _ => {},
    }
}

proof fn lemma_atribstatevalue_types(n: SemanticNode, st: ScopesView)
    requires
        free_of_eof(n),
        n.children is Atribstatevalue,
    ensures
        sem(n, st) matches Outcome::Done(_, s2) ==> scopes_grow(st, s2),
    decreases n, 1int,
{
    lemma_scope_ops();
    match n.children {
        SemanticNodeData::Atribstatevalue { expression, allocexpression, funccall } => {
            assert(sem(n, st) == sem_atribstatevalue(n, st));
            lemma_opt_types(expression, st);
            lemma_opt_types(allocexpression, st);
            lemma_opt_types(funccall, st);
        },
        _ => {},
    }
}

proof fn lemma_expression_types(n: SemanticNode, st: ScopesView)
    requires
        free_of_eof(n),
        n.children is Expression,
    ensures
        sem(n, st) matches Outcome::Done(_, s2) ==> scopes_grow(st, s2),
    decreases n, 1int,
{
    lemma_scope_ops();
    match n.children {
        SemanticNodeData::Expression { numexpression, op_expression, numexpression2 } => {
            assert(sem(n, st) == sem_expression(n, st));
            lemma_sem_types(*numexpression, st);
            match sem(*numexpression, st) {
                Outcome::Done(_, st1) => lemma_opt_types(numexpression2, st1),
                _ => {},
            }
        },
        _ => {},
    }
}

proof fn lemma_factor_types(n: SemanticNode, st: ScopesView)
    requires
        free_of_eof(n),
        n.children is Factor,
    ensures
        sem(n, st) matches Outcome::Done(_, s2) ==> scopes_grow(st, s2),
    decreases n, 1int,
{
    lemma_scope_ops();
    match n.children {
        SemanticNodeData::Factor { expression, lvalue, constant } => {
            assert(sem(n, st) == sem_factor(n, st));
            lemma_opt_types(expression, st);
            lemma_opt_types(lvalue, st);
            lemma_opt_types(constant, st);
        },
        _ => {},
    }
}

proof fn lemma_forstat_types(n: SemanticNode, st: ScopesView)
    requires
        free_of_eof(n),
        n.children is Forstat,
    ensures
        sem(n, st) matches Outcome::Done(_, s2) ==> scopes_grow(st, s2),
    decreases n, 1int,
{
    lemma_scope_ops();
    match n.children {
        SemanticNodeData::Forstat { init, condition, increment, body } => {
            assert(sem(n, st) == sem_for(n, st));
            let s0 = st_push(st, ScopeType::LoopInit);
            lemma_sem_types(*init, s0);
            match sem(*init, s0) {
                Outcome::Done(_, s1) => {
                    lemma_sem_types(*condition, s1);
                    match sem(*condition, s1) {
                        Outcome::Done(_, s2) => {
                            lemma_sem_types(*increment, s2);
                            match sem(*increment, s2) {
                                Outcome::Done(_, s3) => {
                                    lemma_sem_types(*body, st_push(s3, ScopeType::Loop));
                                    match sem(*body, st_push(s3, ScopeType::Loop)) {
                                        Outcome::Done(_, s4) => {
                                            lemma_grows_trans(s0, s1, s2);
                                            lemma_grows_trans(s0, s2, s3);
                                            lemma_grows_pop(s3, ScopeType::Loop, s4);
                                            lemma_grows_trans(s0, s3, st_pop(s4));
                                            lemma_grows_pop(st, ScopeType::LoopInit, st_pop(s4));
                                        },
                                        _ => {},
                                    }
                                },
                                _ => {},
                            }
                        },
                        _ => {},
                    }
                },
                _ => {},
            }
        },
        _ => {},
    }
}

proof fn lemma_funccall_types(n: SemanticNode, st: ScopesView)
    requires
        free_of_eof(n),
        n.children is Funccall,
    ensures
        sem(n, st) matches Outcome::Done(_, s2) ==> scopes_grow(st, s2),
    decreases n, 1int,
{
    lemma_scope_ops();
    match n.children {
        SemanticNodeData::Funccall { id, paramlistcall } => {
            assert(sem(n, st) == sem_funccall(n, st));
            match paramlistcall {
                Some(p) => match p.children {
                    SemanticNodeData::Paramlistcall { paramlist } => lemma_call_args_types(paramlist@, 0, st, Seq::empty()),
                    _ => {},
                },
                None => {},
            }
        },
        _ => {},
    }
}

proof fn lemma_funcdef_types(n: SemanticNode, st: ScopesView)
    requires
        free_of_eof(n),
        n.children is Funcdef,
    ensures
        sem(n, st) matches Outcome::Done(_, s2) ==> scopes_grow(st, s2),
    decreases n, 1int,
{
    lemma_scope_ops();
    match n.children {
        SemanticNodeData::Funcdef { func_id, paramlist, statelist } => {
            assert(sem(n, st) == sem_funcdef(n, st));
            match func_id.children {
                SemanticNodeData::Terminal { value: tok } => match token_string(tok) {
                    Some(fname) => {
                        let rp = match paramlist {
                            None => Some((Seq::<VarType>::empty(), Seq::<(VarType, Seq<char>, (usize, usize))>::empty())),
                            Some(p) => match p.children {
                                SemanticNodeData::Paramlist { paramlist } => read_params(paramlist@, 0, None, Seq::empty(), Seq::empty()),
                                _ => None,
                            },
                        };
                        match rp {
                            Some((types, params)) => match st_insert(st, fname, decl_entry((tok.line, tok.column), types, Seq::empty())) {
                                Some(Ok(s1)) => {
                                    let s2 = st_push(s1, ScopeType::Function);
                                    lemma_insert_params_types(params, 0, s2);
                                    match insert_params(params, 0, s2) {
                                        Outcome::Done(_, s3) => lemma_sem_types(*statelist, s3),
                                        _ => {},
                                    }
                                },
                                _ => {},
                            },
                            None => {},
                        }
                    },
                    None => {},
                },
                _ => {},
            }
        },
        _ => {},
    }
}

proof fn lemma_ifstat_types(n: SemanticNode, st: ScopesView)
    requires
        free_of_eof(n),
        n.children is Ifstat,
    ensures
        sem(n, st) matches Outcome::Done(_, s2) ==> scopes_grow(st, s2),
    decreases n, 1int,
{
    lemma_scope_ops();
    match n.children {
        SemanticNodeData::Ifstat { condition, then_branch, else_branch } => {
            assert(sem(n, st) == sem_if(n, st));
            lemma_sem_types(*condition, st);
            match sem(*condition, st) {
                Outcome::Done(_, s1) => {
                    lemma_sem_types(*then_branch, st_push(s1, ScopeType::If));
                    match sem(*then_branch, st_push(s1, ScopeType::If)) {
                        Outcome::Done(_, s2) => lemma_opt_types(else_branch, st_pop(s2)),
                        _ => {},
                    }
                },
                _ => {},
            }
        },
        _ => {},
    }
}

proof fn lemma_lvalue_types(n: SemanticNode, st: ScopesView)
    requires
        free_of_eof(n),
        n.children is Lvalue,
    ensures
        sem(n, st) matches Outcome::Done(_, s2) ==> scopes_grow(st, s2),
    decreases n, 1int,
{
    lemma_scope_ops();
    match n.children {
        SemanticNodeData::Lvalue { id, var_index } => {
            assert(sem(n, st) == sem_lvalue(n, st));
            lemma_sem_types(*id, st);
            match sem(*id, st) {
                Outcome::Done(_, s1) => lemma_opt_types(var_index, s1),
                _ => {},
            }
        },
        _ => {},
    }
}

proof fn lemma_numexpression_types(n: SemanticNode, st: ScopesView)
    requires
        free_of_eof(n),
        n.children is Numexpression,
    ensures
        sem(n, st) matches Outcome::Done(_, s2) ==> scopes_grow(st, s2),
    decreases n, 1int,
{
    lemma_scope_ops();
    match n.children {
        SemanticNodeData::Numexpression { term, op_numexpression, term2 } => {
            assert(sem(n, st) == sem_binary(n, st));
            lemma_sem_types(*term, st);
            match sem(*term, st) {
                Outcome::Done(_, s1) => {
                    lemma_opt_types(op_numexpression, s1);
                    let so = match op_numexpression {
                        Some(op) => sem(*op, s1),
                        None => Outcome::Done(None, s1),
                    };
                    match so {
                        Outcome::Done(_, s2) => lemma_opt_types(term2, s2),
                        _ => {},
                    }
                },
                _ => {},
            }
        },
        _ => {},
    }
}

proof fn lemma_program_types(n: SemanticNode, st: ScopesView)
    requires
        free_of_eof(n),
        n.children is Program,
    ensures
        sem(n, st) matches Outcome::Done(_, s2) ==> scopes_grow(st, s2),
    decreases n, 1int,
{
    lemma_scope_ops();
    match n.children {
        SemanticNodeData::Program { funclist, statement } => {
            assert(sem(n, st) == sem_program(n, st));
            lemma_opt_types(funclist, st);
            lemma_opt_types(statement, st);
        },
        _ => {},
    }
}

proof fn lemma_statement_types(n: SemanticNode, st: ScopesView)
    requires
        free_of_eof(n),
        n.children is Statement,
    ensures
        sem(n, st) matches Outcome::Done(_, s2) ==> scopes_grow(st, s2),
    decreases n, 1int,
{
    lemma_scope_ops();
    match n.children {
        SemanticNodeData::Statement { vardecl, atribstat, ifstat, forstat, statelist, commandstat } => {
            assert(sem(n, st) == sem_statement(n, st));
            lemma_opt_types(vardecl, st);
            lemma_opt_types(atribstat, st);
            lemma_opt_types(ifstat, st);
            lemma_opt_types(forstat, st);
            lemma_opt_types(statelist, st_push(st, ScopeType::Any));
            lemma_opt_types(commandstat, st);
        },
        _ => {},
    }
}

proof fn lemma_term_types(n: SemanticNode, st: ScopesView)
    requires
        free_of_eof(n),
        n.children is Term,
    ensures
        sem(n, st) matches Outcome::Done(_, s2) ==> scopes_grow(st, s2),
    decreases n, 1int,
{
    lemma_scope_ops();
    match n.children {
        SemanticNodeData::Term { unaryexpression, op_term, unaryexpression2 } => {
            assert(sem(n, st) == sem_binary(n, st));
            lemma_sem_types(*unaryexpression, st);
            match sem(*unaryexpression, st) {
                Outcome::Done(_, s1) => lemma_opt_types(unaryexpression2, s1),
                _ => {},
            }
        },
        _ => {},
    }
}

proof fn lemma_unaryexpression_types(n: SemanticNode, st: ScopesView)
    requires
        free_of_eof(n),
        n.children is Unaryexpression,
    ensures
        sem(n, st) matches Outcome::Done(_, s2) ==> scopes_grow(st, s2),
    decreases n, 1int,
{
    lemma_scope_ops();
    match n.children {
        SemanticNodeData::Unaryexpression { op, factor } => {
            assert(sem(n, st) == sem_unary(n, st));
            lemma_opt_types(op, st);
            let so = match op {
                Some(o) => sem(*o, st),
                None => Outcome::Done(None, st),
            };
            match so {
                Outcome::Done(_, s1) => lemma_sem_types(*factor, s1),
                _ => {},
            }
        },
        _ => {},
    }
}

/// A successful analysis ([`sem`], which `SemanticNode::semantic_analysis`
/// computes on the view of its scopes) of a node whose subtree holds no
/// end-of-input token closes every scope it opens: afterwards the stack has as many
/// scopes as before, of the same types, so what was declared in the scopes
/// it opened is no longer visible. Only the innermost scope can have gained
/// symbols, and the symbols that were there keep their order, types and
/// dimensions, and only gain appearances.
pub proof fn law_analysis_closes_its_scopes(n: SemanticNode, st: ScopesView)
    requires
        free_of_eof(n),
    ensures
        sem(n, st) matches Outcome::Done(_, s2) ==> scope_types(s2) == scope_types(st) && scopes_grow(st, s2),
{
    lemma_sem_types(n, st);
    if let Outcome::Done(_, s2) = sem(n, st) {
        assert(scope_types(s2) =~= scope_types(st));
    }
}

/// An if statement with an else branch, whose condition and then-branch (in
/// an `If` scope) succeed, ends as its else branch does when analysed once
/// the `If` scope is closed: it succeeds exactly when the else branch does,
/// with the scopes that the else branch leaves, and an error of the else
/// branch is the error of the statement. It succeeds only where its
/// condition and its then-branch do.
pub proof fn law_if_analyses_its_else_branch(
    n: SemanticNode,
    c: Box<SemanticNode>,
    t: Box<SemanticNode>,
    e: Box<SemanticNode>,
    st: ScopesView,
)
    requires
        n.children == (SemanticNodeData::Ifstat { condition: c, then_branch: t, else_branch: Some(e) }),
    ensures
        sem(n, st) is Done ==> sem(*c, st) is Done && sem(*t, st_push(sem(*c, st)->Done_1, ScopeType::If)) is Done,
        sem(*c, st) is Done && sem(*t, st_push(sem(*c, st)->Done_1, ScopeType::If)) is Done ==> {
            let r = sem(*e, st_pop(sem(*t, st_push(sem(*c, st)->Done_1, ScopeType::If))->Done_1));
            &&& (sem(n, st) is Done <==> r is Done)
            &&& (r is Done ==> sem(n, st)->Done_1 == r->Done_1)
            &&& (r is Fail ==> sem(n, st) == r)
        },
{
    assert(sem(n, st) == sem_if(n, st));
}

/// The expression tree of a binary NUMEXPRESSION or TERM `a op b` whose
/// operands both yield trees is the operator over them, in their order: the
/// left child is the tree of the first operand `a`, built first, and the
/// right child that of the second operand `b`, built after it.
pub proof fn law_binary_tree_keeps_operand_order(
    n: SemanticNode,
    a: Box<SemanticNode>,
    op: Box<SemanticNode>,
    b: Box<SemanticNode>,
    o: TokenType,
    trees: Seq<ExprView>,
)
    requires
        (n.children == (SemanticNodeData::Numexpression { term: a, op_numexpression: Some(op), term2: Some(b) })
            && op.children == (SemanticNodeData::OpNumexpression { op: o }))
        || (n.children == (SemanticNodeData::Term { unaryexpression: a, op_term: Some(op), unaryexpression2: Some(b) })
            && op.children == (SemanticNodeData::OpTerm { op: o })),
        spec_is_operator(o),
    ensures
        build(*a, trees) matches Built::Done(Some(x), t1) ==> (build(*b, t1) matches Built::Done(Some(y), t2) ==>
            build(n, trees) == Built::Done(Some(ExprView::Binary(spec_operator(o), Box::new(x), Box::new(y))), t2)),
{
    assert(build(n, trees) == build_binary(n, trees));
}

proof fn lemma_list_count_shift(a: Seq<SemanticNode>, b: Seq<SemanticNode>, j: int)
    requires
        0 <= j,
    ensures
        list_count(a + b, a.len() + j) == list_count(b, j),
    decreases b.len() - j,
{
    if j < b.len() {
        assert((a + b)[a.len() + j] == b[j]);
        lemma_list_count_shift(a, b, j + 1);
    }
}

proof fn lemma_list_count_concat(a: Seq<SemanticNode>, b: Seq<SemanticNode>, i: int)
    requires
        0 <= i <= a.len(),
    ensures
        list_count(a + b, i) == list_count(a, i) + list_count(b, 0),
    decreases a.len() - i,
{
    if i < a.len() {
        assert((a + b)[i] == a[i]);
        lemma_list_count_concat(a, b, i + 1);
    } else {
        lemma_list_count_shift(a, b, 0);
    }
}

proof fn lemma_count_facts()
    ensures
        forall|a: Seq<SemanticNode>, b: Seq<SemanticNode>|
            #[trigger] list_count(a + b, 0) == list_count(a, 0) + list_count(b, 0),
        forall|o: Option<Box<SemanticNode>>| #[trigger] list_count(opt_seq(o), 0) == opt_count(o),
{
    assert forall|a: Seq<SemanticNode>, b: Seq<SemanticNode>|
        #[trigger] list_count(a + b, 0) == list_count(a, 0) + list_count(b, 0) by {
        lemma_list_count_concat(a, b, 0);
    }
    assert forall|o: Option<Box<SemanticNode>>| #[trigger] list_count(opt_seq(o), 0) == opt_count(o) by {
        match o {
            Some(b) => {
                let s = opt_seq(o);
                assert(list_count(s, 1) == 0);
                assert(s[0] == *b);
            },
            None => {},
        }
    }
}

proof fn lemma_count_one(x: SemanticNode)
    ensures
        list_count(seq![x], 0) == node_count(x),
{
    let s = seq![x];
    assert(list_count(s, 1) == 0);
    assert(s[0] == x);
}

proof fn lemma_count_two(x: SemanticNode, y: SemanticNode)
    ensures
        list_count(seq![x, y], 0) == node_count(x) + node_count(y),
{
    let s = seq![x, y];
    assert(list_count(s, 2) == 0);
    assert(list_count(s, 1) == node_count(y));
    assert(s[0] == x);
}

proof fn lemma_count_four(x: SemanticNode, y: SemanticNode, z: SemanticNode, w: SemanticNode)
    ensures
        list_count(seq![x, y, z, w], 0) == node_count(x) + node_count(y) + node_count(z) + node_count(w),
{
    let s = seq![x, y, z, w];
    assert(list_count(s, 4) == 0);
    assert(list_count(s, 3) == node_count(w));
    assert(list_count(s, 2) == node_count(z) + node_count(w));
    assert(list_count(s, 1) == node_count(y) + node_count(z) + node_count(w));
    assert(s[0] == x);
}

proof fn lemma_children_count(n: SemanticNode)
    requires
        !is_leaf_node(n),
    ensures
        list_count(children_of(n), 0) + 1 == node_count(n),
{
    lemma_count_facts();
    match n.children {
        SemanticNodeData::Allocexpression { var_type, dimensions } => lemma_count_two(*var_type, *dimensions),
        SemanticNodeData::Atribstat { lvalue, value } => lemma_count_two(*lvalue, *value),
        SemanticNodeData::Atribstatevalue { expression, allocexpression, funccall } => {
            assert(list_count(opt_seq(expression) + opt_seq(allocexpression), 0)
                == opt_count(expression) + opt_count(allocexpression));
        },
        SemanticNodeData::Elsestat { statement } => lemma_count_one(*statement),
        SemanticNodeData::Expression { numexpression, op_expression, numexpression2 } => {
            lemma_count_one(*numexpression);
            assert(list_count(seq![*numexpression] + opt_seq(op_expression), 0)
                == node_count(*numexpression) + opt_count(op_expression));
        },
        SemanticNodeData::Factor { expression, lvalue, constant } => {
            assert(list_count(opt_seq(expression) + opt_seq(lvalue), 0) == opt_count(expression) + opt_count(lvalue));
        },
        SemanticNodeData::Forstat { init, condition, increment, body } =>
            lemma_count_four(*init, *condition, *increment, *body),
        SemanticNodeData::Funccall { id, paramlistcall } => lemma_count_one(*id),
        SemanticNodeData::Funcdef { func_id, paramlist, statelist } => {
            lemma_count_one(*func_id);
            lemma_count_one(*statelist);
            assert(list_count(seq![*func_id] + opt_seq(paramlist), 0) == node_count(*func_id) + opt_count(paramlist));
        },
        SemanticNodeData::Ifstat { condition, then_branch, else_branch } => lemma_count_two(*condition, *then_branch),
        SemanticNodeData::Lvalue { id, var_index } => lemma_count_one(*id),
        SemanticNodeData::Numexpression { term, op_numexpression, term2 } => {
            lemma_count_one(*term);
            assert(list_count(seq![*term] + opt_seq(op_numexpression), 0) == node_count(*term) + opt_count(op_numexpression));
        },
        SemanticNodeData::Printstat { expression } => lemma_count_one(*expression),
        SemanticNodeData::Program { funclist, statement } => {},
        SemanticNodeData::Readstat { lvalue } => lemma_count_one(*lvalue),
        SemanticNodeData::Statement { vardecl, atribstat, ifstat, forstat, statelist, commandstat } => {
            let a1 = opt_seq(vardecl) + opt_seq(atribstat);
            let a2 = a1 + opt_seq(ifstat);
            let a3 = a2 + opt_seq(forstat);
            let a4 = a3 + opt_seq(statelist);
            assert(list_count(a1, 0) == opt_count(vardecl) + opt_count(atribstat));
            assert(list_count(a2, 0) == list_count(a1, 0) + opt_count(ifstat));
            assert(list_count(a3, 0) == list_count(a2, 0) + opt_count(forstat));
            assert(list_count(a4, 0) == list_count(a3, 0) + opt_count(statelist));
            assert(list_count(a4 + opt_seq(commandstat), 0) == list_count(a4, 0) + opt_count(commandstat));
        },
        SemanticNodeData::Term { unaryexpression, op_term, unaryexpression2 } => {
            lemma_count_one(*unaryexpression);
            assert(list_count(seq![*unaryexpression] + opt_seq(op_term), 0) == node_count(*unaryexpression) + opt_count(op_term));
        },
        SemanticNodeData::Unaryexpression { op, factor } => lemma_count_one(*factor),
        SemanticNodeData::Vardecl { var_type, id, const_index } => lemma_count_two(*var_type, *id),
        _ => {},
    }
}

proof fn lemma_edges_from(n: SemanticNode, i: int)
    requires
        0 <= i,
    ensures
        edges_from(n, i) == list_count(children_of(n), i),
    decreases n, children_of(n).len() - i,
{
    if i < children_of(n).len() {
        lemma_child_decreases(n, i);
        law_drawing_numbers_every_node(children_of(n)[i]);
        lemma_edges_from(n, i + 1);
    }
}

/// The drawing of a tree gives every node of the tree a graph node of its
/// own: drawing the subtree `n` from graph node `c` numbers the graph nodes
/// `c` to `c + node_edges(n)`, one for each of the `node_count(n)` nodes of
/// the subtree, so that every part of every node, an else branch among
/// them, is drawn under it.
pub proof fn law_drawing_numbers_every_node(n: SemanticNode)
    ensures
        node_edges(n) + 1 == node_count(n),
    decreases n, children_of(n).len() + 1,
{
    if !is_leaf_node(n) {
        lemma_edges_from(n, 0);
        lemma_children_count(n);
    }
}

/// Whether `piece` occurs in `text`, as consecutive characters.
pub open spec fn occurs_in(piece: Seq<char>, text: Seq<char>) -> bool {
    exists|p: int| 0 <= p && p + piece.len() <= text.len() && #[trigger] text.subrange(p, p + piece.len()) == piece
}

proof fn lemma_occurs_at_start(a: Seq<char>, b: Seq<char>)
    ensures
        occurs_in(a, a + b),
{
    let p: int = 0;
    assert((a + b).subrange(p, p + a.len()) =~= a);
}

proof fn lemma_occurs_after(a: Seq<char>, b: Seq<char>, piece: Seq<char>)
    requires
        occurs_in(piece, b),
    ensures
        occurs_in(piece, a + b),
{
    let p = choose|p: int| 0 <= p && p + piece.len() <= b.len() && #[trigger] b.subrange(p, p + piece.len()) == piece;
    let q = a.len() + p;
    assert((a + b).subrange(q, q + piece.len()) =~= b.subrange(p, p + piece.len()));
}

proof fn lemma_dot_from_has_part(n: SemanticNode, i: int, name: nat, c: nat, k: int) -> (m: nat)
    requires
        0 <= i <= k < children_of(n).len(),
    ensures
        occurs_in(edge_line(name, m) + dot_text(children_of(n)[k], m), dot_from(n, i, name, c)),
    decreases k - i,
{
    let ch = children_of(n)[i];
    let first = edge_line(name, c + 1) + dot_text(ch, c + 1);
    let rest = dot_from(n, i + 1, name, c + 1 + node_edges(ch));
    assert(dot_from(n, i, name, c) == edge_line(name, c + 1) + dot_text(ch, c + 1) + rest);
    assert(dot_from(n, i, name, c) =~= first + rest);
    if k == i {
        lemma_occurs_at_start(first, rest);
        c + 1
    } else {
        let m = lemma_dot_from_has_part(n, i + 1, name, c + 1 + node_edges(ch), k);
        lemma_occurs_after(first, rest, edge_line(name, m) + dot_text(children_of(n)[k], m));
        m
    }
}

/// The drawing of a node with parts draws each of its parts below it: for
/// every part there is an edge from the node's graph node `c` to a graph
/// node `m`, followed by the whole drawing of that part from `m`.
pub proof fn law_drawing_draws_every_part(n: SemanticNode, c: nat, k: int)
    requires
        !is_leaf_node(n),
        0 <= k < children_of(n).len(),
    ensures
        exists|m: nat| #[trigger] occurs_in(edge_line(c, m) + dot_text(children_of(n)[k], m), dot_text(n, c)),
{
    let m = lemma_dot_from_has_part(n, 0, c, c, k);
    assert(dot_text(n, c) == label_line(c, node_label(n)) + dot_from(n, 0, c, c));
    lemma_occurs_after(label_line(c, node_label(n)), dot_from(n, 0, c, c), edge_line(c, m) + dot_text(children_of(n)[k], m));
}

/// A comparison `a op b` appends to the finished trees the operator over
/// the trees of its operands, in their order (the first operand on the
/// left), after the trees that its operands appended.
pub proof fn law_comparison_tree_keeps_operand_order(
    n: SemanticNode,
    a: Box<SemanticNode>,
    op: Box<SemanticNode>,
    b: Box<SemanticNode>,
    o: TokenType,
    trees: Seq<ExprView>,
)
    requires
        n.children == (SemanticNodeData::Expression { numexpression: a, op_expression: Some(op), numexpression2: Some(b) }),
        op.children == (SemanticNodeData::OpExpression { op: o }),
        spec_is_operator(o),
    ensures
        build(*a, trees) matches Built::Done(Some(x), t1) ==> (build(*b, t1) matches Built::Done(Some(y), t2) ==>
            build(n, trees) == Built::Done(None, t2.push(ExprView::Binary(spec_operator(o), Box::new(x), Box::new(y))))),
{
    assert(build(n, trees) == build_expression(n, trees));
}

/// A unary expression `op f` is the operator over the tree of its factor,
/// and one without an operator is the tree of its factor.
pub proof fn law_unary_tree_is_over_its_factor(
    n: SemanticNode,
    op: Option<Box<SemanticNode>>,
    f: Box<SemanticNode>,
    trees: Seq<ExprView>,
)
    requires
        n.children == (SemanticNodeData::Unaryexpression { op, factor: f }),
    ensures
        op is None ==> build(n, trees) == build(*f, trees),
        op matches Some(ob) ==> (ob.children matches SemanticNodeData::OpNumexpression { op: t } ==> (spec_is_operator(t) ==>
            (build(*f, trees) matches Built::Done(Some(x), t1) ==>
                build(n, trees) == Built::Done(Some(ExprView::Unary(spec_operator(t), Box::new(x))), t1)))),
{
    assert(build(n, trees) == build_unary(n, trees));
}

/// A for statement whose three clauses succeed (in a `LoopInit` scope) ends
/// as its body does when analysed in a `Loop` scope inside it: it succeeds
/// exactly when the body does, closing both scopes, and an error of the
/// body is the error of the statement.
pub proof fn law_for_analyses_its_body(
    n: SemanticNode,
    init: Box<SemanticNode>,
    cond: Box<SemanticNode>,
    inc: Box<SemanticNode>,
    body: Box<SemanticNode>,
    st: ScopesView,
)
    requires
        n.children == (SemanticNodeData::Forstat { init, condition: cond, increment: inc, body }),
        sem(*init, st_push(st, ScopeType::LoopInit)) is Done,
        sem(*cond, sem(*init, st_push(st, ScopeType::LoopInit))->Done_1) is Done,
        sem(*inc, sem(*cond, sem(*init, st_push(st, ScopeType::LoopInit))->Done_1)->Done_1) is Done,
    ensures ({
        let s3 = sem(*inc, sem(*cond, sem(*init, st_push(st, ScopeType::LoopInit))->Done_1)->Done_1)->Done_1;
        let r = sem(*body, st_push(s3, ScopeType::Loop));
        &&& (sem(n, st) is Done <==> r is Done)
        &&& (r is Done ==> sem(n, st)->Done_1 == st_pop(st_pop(r->Done_1)))
        &&& (r is Fail ==> sem(n, st) == r)
    }),
{
    assert(sem(n, st) == sem_for(n, st));
}

} // verus!
