use trabalho_final::const_type::VarType;
use trabalho_final::scope_stack::{scope_log_text_of, ScopeStack, ScopeType, SymbolEntry};
use trabalho_final::semantic_error::{SemanticError, SemanticErrorKind};

fn entry(appearances: Vec<(usize, usize)>, var_type: Vec<VarType>, const_index: Vec<u32>) -> SymbolEntry {
    SymbolEntry { appearances, var_type, const_index }
}

#[test]
fn new_stack_has_one_global_scope() {
    let s = ScopeStack::new();
    assert_eq!(s.stack.len(), 1);
    assert_eq!(s.stack[0].0, ScopeType::Any);
    assert!(s.stack[0].1.is_empty());
    assert!(s.log.is_empty());
}

#[test]
fn inserted_symbol_is_found() {
    let mut s = ScopeStack::new();
    let e = entry(vec![(1, 2)], vec![VarType::Int], vec![]);
    assert_eq!(s.insert_symbol("x".to_string(), e.clone()), Ok(()));
    assert_eq!(s.get_symbol("x"), Some(e));
    assert_eq!(s.get_symbol("y"), None);
}

#[test]
fn inner_declaration_shadows_outer() {
    let mut s = ScopeStack::new();
    let outer = entry(vec![(1, 2)], vec![VarType::Int], vec![]);
    let inner = entry(vec![(3, 4)], vec![VarType::String], vec![]);
    s.insert_symbol("x".to_string(), outer.clone()).unwrap();
    s.push_scope(ScopeType::Loop);
    assert_eq!(s.get_symbol("x"), Some(outer.clone()));
    assert_eq!(s.insert_symbol("x".to_string(), inner.clone()), Ok(()));
    assert_eq!(s.get_symbol("x"), Some(inner));
    assert!(s.contains(ScopeType::Loop));
    assert!(!s.contains(ScopeType::Function));
    let closed = s.pop_scope().unwrap();
    assert_eq!(closed.0, ScopeType::Loop);
    assert_eq!(s.get_symbol("x"), Some(outer));
    assert_eq!(s.log.len(), 1);
    assert!(!s.contains(ScopeType::Loop));
}

#[test]
fn redefinition_reports_the_last_appearance() {
    let mut s = ScopeStack::new();
    s.insert_symbol("x".to_string(), entry(vec![(1, 2)], vec![VarType::Int], vec![])).unwrap();
    assert_eq!(
        s.insert_symbol("x".to_string(), entry(vec![(5, 6), (7, 8)], vec![VarType::Float], vec![])),
        Err(SemanticError { kind: SemanticErrorKind::Redefinition, name: "x".to_string(), line: 7, column: 8, found: None })
    );
    assert_eq!(
        s.insert_symbol("x".to_string(), entry(vec![], vec![VarType::Float], vec![])),
        Err(SemanticError { kind: SemanticErrorKind::Redefinition, name: "x".to_string(), line: 0, column: 0, found: None })
    );
}

#[test]
fn appearances_are_counted_in_the_innermost_declaration() {
    let mut s = ScopeStack::new();
    s.insert_symbol("x".to_string(), entry(vec![(1, 2)], vec![VarType::Int], vec![])).unwrap();
    s.push_scope(ScopeType::If);
    assert_eq!(s.count_appearance("x", 4, 5), Ok(()));
    assert_eq!(s.get_symbol("x").unwrap().appearances, vec![(1, 2), (4, 5)]);
    assert_eq!(
        s.count_appearance("z", 6, 7),
        Err(SemanticError { kind: SemanticErrorKind::SymbolNotFound, name: "z".to_string(), line: 6, column: 7, found: None })
    );
}

#[test]
fn popping_an_empty_stack_logs_nothing_found() {
    let mut s = ScopeStack::new();
    assert!(s.pop_scope().is_some());
    assert!(s.pop_scope().is_none());
    assert_eq!(s.log.len(), 2);
    assert!(s.log[1].is_none());
}

#[test]
fn scope_log_text() {
    let scope = Some((
        ScopeType::Function,
        vec![
            ("x".to_string(), entry(vec![(1, 2), (3, 4)], vec![VarType::Int], vec![3, 4])),
            ("@f".to_string(), entry(vec![(5, 6)], vec![VarType::Int, VarType::String], vec![])),
        ],
    ));
    assert_eq!(
        scope_log_text_of(&scope),
        "Escopo: Function\n  Símbolo: x, Tipo: Int, Índices: [3, 4], Aparições: [(1, 2), (3, 4)]\
\n  Símbolo: @f, Tipo: [Int, String], Índices: [], Aparições: [(5, 6)]\n\n"
    );
    assert_eq!(scope_log_text_of(&None), "\n\n");
    assert_eq!(scope_log_text_of(&Some((ScopeType::Else, vec![]))), "Escopo: Else\n\n");
}
