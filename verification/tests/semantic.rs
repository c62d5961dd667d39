use trabalho_final::code_attrs::CodeAttrs;
use trabalho_final::const_type::{ConstType, VarType};
use trabalho_final::expression::{ExpressionTree, ExpressionTreeNode, Operand, Operator};
use trabalho_final::scope_stack::{ScopeStack, ScopeType, SymbolEntry};
use trabalho_final::semantic::{ReturnSem, SemanticNode};
use trabalho_final::semantic_error::{SemanticError, SemanticErrorKind};
use trabalho_final::semantic_node::SemanticNodeData;
use trabalho_final::semantic_tree::SemanticTree;
use trabalho_final::token::Token;
use trabalho_final::token_type::TokenType;

fn node(children: SemanticNodeData) -> SemanticNode {
    SemanticNode { children }
}

fn terminal(token_type: TokenType, value: Option<ConstType>, line: usize, column: usize) -> SemanticNode {
    node(SemanticNodeData::Terminal { value: Token { token_type, value, line, column } })
}

fn ident(name: &str, line: usize, column: usize) -> SemanticNode {
    terminal(TokenType::Id, Some(ConstType::String(name.to_string())), line, column)
}

fn declaration(t: VarType, name: &str, line: usize, column: usize) -> SemanticNode {
    let decl = node(SemanticNodeData::Vardecl {
        var_type: Box::new(terminal(TokenType::VarType, Some(ConstType::VarType(t)), line, 0)),
        id: Box::new(ident(name, line, column)),
        const_index: None,
    });
    node(SemanticNodeData::Statement {
        vardecl: Some(Box::new(decl)),
        atribstat: None,
        ifstat: None,
        forstat: None,
        statelist: None,
        commandstat: None,
    })
}

fn command(c: SemanticNode) -> SemanticNode {
    node(SemanticNodeData::Statement {
        vardecl: None,
        atribstat: None,
        ifstat: None,
        forstat: None,
        statelist: None,
        commandstat: Some(Box::new(c)),
    })
}

fn read(name: &str, line: usize, column: usize) -> SemanticNode {
    command(node(SemanticNodeData::Readstat {
        lvalue: Box::new(node(SemanticNodeData::Lvalue { id: Box::new(ident(name, line, column)), var_index: None })),
    }))
}

fn block(statements: Vec<SemanticNode>) -> SemanticNode {
    node(SemanticNodeData::Statement {
        vardecl: None,
        atribstat: None,
        ifstat: None,
        forstat: None,
        statelist: Some(Box::new(node(SemanticNodeData::Statelist { statelist: statements }))),
        commandstat: None,
    })
}

fn program(statement: SemanticNode) -> SemanticTree {
    SemanticTree {
        root: node(SemanticNodeData::Program { funclist: None, statement: Some(Box::new(statement)) }),
        scopes: ScopeStack::new(),
    }
}

#[test]
fn read_into_a_string_is_accepted() {
    let mut tree = program(block(vec![declaration(VarType::String, "s", 1, 7), read("s", 2, 5)]));
    assert_eq!(tree.semantic_analysis(), Ok(()));
    assert_eq!(tree.scopes.stack.len(), 1);
    assert_eq!(tree.scopes.log.len(), 1);
    let closed = tree.scopes.log[0].as_ref().unwrap();
    assert_eq!(closed.0, ScopeType::Any);
    assert_eq!(closed.1[0].0, "s");
    assert_eq!(closed.1[0].1.appearances, vec![(1, 7), (2, 5)]);
}

#[test]
fn read_into_a_non_string_is_an_error() {
    let mut tree = program(block(vec![declaration(VarType::Int, "x", 1, 4), read("x", 2, 5)]));
    assert_eq!(
        tree.semantic_analysis(),
        Err(SemanticError {
            kind: SemanticErrorKind::ReadNotString,
            name: String::new(),
            line: 2,
            column: 5,
            found: Some(VarType::Int),
        })
    );
}

#[test]
fn redeclaration_in_one_scope_is_an_error() {
    let mut tree = program(block(vec![declaration(VarType::Int, "x", 1, 4), declaration(VarType::Float, "x", 2, 6)]));
    assert_eq!(
        tree.semantic_analysis(),
        Err(SemanticError { kind: SemanticErrorKind::Redefinition, name: "x".to_string(), line: 2, column: 6, found: None })
    );
}

#[test]
fn undeclared_symbol_is_an_error() {
    let mut tree = program(block(vec![read("y", 3, 9)]));
    assert_eq!(
        tree.semantic_analysis(),
        Err(SemanticError { kind: SemanticErrorKind::SymbolNotFound, name: "y".to_string(), line: 3, column: 9, found: None })
    );
}

#[test]
fn break_outside_a_loop_is_an_error() {
    let mut tree = program(command(terminal(TokenType::KwBreak, None, 3, 4)));
    assert_eq!(
        tree.semantic_analysis(),
        Err(SemanticError { kind: SemanticErrorKind::BreakOutsideLoop, name: String::new(), line: 3, column: 4, found: None })
    );
}

#[test]
fn empty_program_aborts_the_analysis() {
    let mut tree = SemanticTree {
        root: node(SemanticNodeData::Program { funclist: None, statement: None }),
        scopes: ScopeStack::new(),
    };
    assert_eq!(tree.try_semantic_analysis(), None);
}

#[test]
fn semantic_tree_in_dot() {
    let tree = program(declaration(VarType::Int, "x", 1, 4));
    let (text, warnings) = tree.save();
    assert_eq!(
        text,
        "digraph G {\n  0 [label=\"Program\"]\n  0 -> 1\n  1 [label=\"Statement\"]\n  1 -> 2\n  2 [label=\"Vardecl\"]\n  2 -> 3\n  3 [label=\"VarType(Int)\"]\n  2 -> 4\n  4 [label=\"String(\\\"x\\\")\"]\n}\n"
    );
    assert!(warnings.is_empty());
}

#[test]
fn terminal_without_value_is_not_drawn() {
    let tree = program(command(terminal(TokenType::KwBreak, None, 3, 4)));
    let (text, warnings) = tree.save();
    assert_eq!(text, "digraph G {\n  0 [label=\"Program\"]\n  0 -> 1\n  1 [label=\"Statement\"]\n  1 -> 2\n}\n");
    assert_eq!(warnings, vec![Token { token_type: TokenType::KwBreak, value: None, line: 3, column: 4 }]);
}

#[test]
fn code_generation_of_an_empty_program() {
    let tree = SemanticTree {
        root: node(SemanticNodeData::Program { funclist: None, statement: None }),
        scopes: ScopeStack::new(),
    };
    assert_eq!(tree.try_generate_code(), Some(String::new()));
    let tree = program(declaration(VarType::Int, "x", 1, 4));
    assert_eq!(tree.try_generate_code(), None);
}

#[test]
fn fresh_temporaries_and_labels() {
    let mut attrs = CodeAttrs::new();
    assert_eq!(attrs.create_temp(), "t1");
    assert_eq!(attrs.create_temp(), "t2");
    assert_eq!(attrs.create_label(), "L1");
    assert_eq!(attrs.get_scope_label(), "");
    attrs.set_scope_end("L1".to_string());
    assert_eq!(attrs.get_scope_label(), "L1");
    assert_eq!(attrs.create_temp(), "t3");
    assert_eq!(attrs.into_code(), "");
}

#[test]
fn expression_tree_in_dot() {
    let tree = ExpressionTree {
        root: ExpressionTreeNode::BinaryOperator {
            operator: Operator::Plus,
            left: Box::new(ExpressionTreeNode::Operand { value: Operand::Integer(1) }),
            right: Box::new(ExpressionTreeNode::Operand { value: Operand::Identifier("x".to_string()) }),
        },
    };
    assert_eq!(
        tree.save(),
        "digraph ExpressionTree {\n  0 [label=\"+\"];\n  0 -> 1;\n  1 [label=\"1\"];\n  0 -> 3;\n  3 [label=\"Variável x\"];\n}\n"
    );
}

#[test]
fn operands_and_operators_display() {
    assert_eq!(Operand::Integer(-42).to_display_string(), "-42");
    assert_eq!(Operand::Identifier("@f".to_string()).to_display_string(), "Função @f");
    assert_eq!(Operand::String("a\"b".to_string()).to_display_string(), "a\\\"b");
    assert_eq!(Operand::Float("2.5".to_string()).to_display_string(), "2.5");
    assert_eq!(Operator::Le.symbol(), "<=");
    assert_eq!(TokenType::OpModular.get_operator_type(), Operator::Modular);
}

#[test]
fn unary_expression_tree_in_dot() {
    let tree = ExpressionTree {
        root: ExpressionTreeNode::UnaryOperator {
            operator: Operator::Minus,
            operand: Box::new(ExpressionTreeNode::Operand { value: Operand::String("s".to_string()) }),
        },
    };
    assert_eq!(tree.save(), "digraph ExpressionTree {\n  0 [label=\"-\"];\n  0 -> 1;\n  1 [label=\"s\"];\n}\n");
}

fn analyse(n: &SemanticNode, scopes: &mut ScopeStack) -> Result<Option<ReturnSem>, SemanticError> {
    n.semantic_analysis(scopes)
}

fn plain(kind: SemanticErrorKind) -> SemanticError {
    SemanticError::plain(kind)
}

fn int_const(i: i64) -> SemanticNode {
    terminal(TokenType::ConstInt, Some(ConstType::Int(i)), 1, 0)
}

fn string_const(s: &str) -> SemanticNode {
    terminal(TokenType::ConstString, Some(ConstType::String(s.to_string())), 1, 0)
}

fn declare(scopes: &mut ScopeStack, name: &str, types: Vec<VarType>) {
    let entry = SymbolEntry { appearances: vec![(1, 1)], var_type: types, const_index: vec![] };
    scopes.insert_symbol(name.to_string(), entry).unwrap();
}

#[test]
fn constant_tokens_must_hold_their_values() {
    let mut s = ScopeStack::new();
    assert_eq!(analyse(&int_const(3), &mut s), Ok(Some(ReturnSem::Tipo(VarType::Int))));
    let cases = [
        (TokenType::ConstInt, None, SemanticErrorKind::MissingIntValue),
        (TokenType::ConstInt, Some(ConstType::String("a".to_string())), SemanticErrorKind::ExpectedIntConstant),
        (TokenType::ConstFloat, None, SemanticErrorKind::MissingFloatValue),
        (TokenType::ConstFloat, Some(ConstType::Int(1)), SemanticErrorKind::ExpectedFloatConstant),
        (TokenType::ConstString, None, SemanticErrorKind::MissingStringValue),
        (TokenType::ConstString, Some(ConstType::Int(1)), SemanticErrorKind::ExpectedStringConstant),
    ];
    for (t, v, kind) in cases {
        assert_eq!(analyse(&terminal(t, v, 1, 0), &mut s), Err(plain(kind)));
    }
}

#[test]
fn end_of_input_closes_the_global_scope() {
    let mut s = ScopeStack::new();
    s.push_scope(ScopeType::If);
    assert_eq!(analyse(&terminal(TokenType::Eof, None, 9, 0), &mut s), Err(plain(SemanticErrorKind::UnexpectedEof)));
    s.pop_scope();
    assert_eq!(analyse(&terminal(TokenType::Eof, None, 9, 0), &mut s), Ok(Some(ReturnSem::TT(TokenType::Eof))));
    assert!(s.stack.is_empty());
}

#[test]
fn comparison_sides_must_have_one_type() {
    let mut s = ScopeStack::new();
    let e = node(SemanticNodeData::Expression {
        numexpression: Box::new(int_const(1)),
        op_expression: None,
        numexpression2: Some(Box::new(string_const("a"))),
    });
    assert_eq!(analyse(&e, &mut s), Err(plain(SemanticErrorKind::ExpressionTypeMismatch)));
    let e = node(SemanticNodeData::Expression {
        numexpression: Box::new(string_const("b")),
        op_expression: None,
        numexpression2: Some(Box::new(string_const("a"))),
    });
    assert_eq!(analyse(&e, &mut s), Ok(Some(ReturnSem::Tipo(VarType::Int))));
}

#[test]
fn arithmetic_sides_must_have_one_type() {
    let mut s = ScopeStack::new();
    let sum = node(SemanticNodeData::Numexpression {
        term: Box::new(int_const(1)),
        op_numexpression: Some(Box::new(node(SemanticNodeData::OpNumexpression { op: TokenType::OpPlus }))),
        term2: Some(Box::new(string_const("a"))),
    });
    assert_eq!(analyse(&sum, &mut s), Err(plain(SemanticErrorKind::NumexpressionTypeMismatch)));
    let product = node(SemanticNodeData::Term {
        unaryexpression: Box::new(string_const("a")),
        op_term: Some(Box::new(node(SemanticNodeData::OpTerm { op: TokenType::OpMult }))),
        unaryexpression2: Some(Box::new(int_const(2))),
    });
    assert_eq!(analyse(&product, &mut s), Err(plain(SemanticErrorKind::TermTypeMismatch)));
}

fn call(f: &str, args: Vec<SemanticNode>) -> SemanticNode {
    node(SemanticNodeData::Funccall {
        id: Box::new(terminal(TokenType::FuncId, Some(ConstType::String(f.to_string())), 5, 2)),
        paramlistcall: Some(Box::new(node(SemanticNodeData::Paramlistcall { paramlist: args }))),
    })
}

#[test]
fn calls_are_checked_against_the_declaration() {
    let mut s = ScopeStack::new();
    assert_eq!(analyse(&call("@f", vec![]), &mut s), Err(plain(SemanticErrorKind::UndefinedFunction)));
    declare(&mut s, "@f", vec![VarType::Int, VarType::String]);
    declare(&mut s, "n", vec![VarType::Int]);
    declare(&mut s, "t", vec![VarType::String]);
    assert_eq!(
        analyse(&call("@f", vec![ident("n", 5, 5), ident("t", 5, 8)]), &mut s),
        Ok(Some(ReturnSem::Tipo(VarType::Int)))
    );
    assert_eq!(s.get_symbol("@f").unwrap().appearances, vec![(1, 1), (5, 2)]);
    assert_eq!(
        analyse(&call("@f", vec![ident("t", 5, 5), ident("n", 5, 8)]), &mut s),
        Err(SemanticError { kind: SemanticErrorKind::IncompatibleParameters, name: "@f".to_string(), line: 0, column: 0, found: None })
    );
    assert_eq!(
        analyse(&call("@f", vec![ident("@f", 5, 5)]), &mut s),
        Err(SemanticError { kind: SemanticErrorKind::FunctionAsParameter, name: "@f".to_string(), line: 0, column: 0, found: None })
    );
    assert_eq!(
        analyse(&call("@f", vec![ident("zz", 5, 5)]), &mut s),
        Err(SemanticError { kind: SemanticErrorKind::UndefinedParameter, name: "zz".to_string(), line: 0, column: 0, found: None })
    );
}

fn assignment(name: &str, index: Option<Vec<SemanticNode>>, value: SemanticNode) -> SemanticNode {
    node(SemanticNodeData::Atribstat {
        lvalue: Box::new(node(SemanticNodeData::Lvalue {
            id: Box::new(ident(name, 7, 1)),
            var_index: index.map(|i| Box::new(node(SemanticNodeData::VarIndex { index: i }))),
        })),
        value: Box::new(value),
    })
}

#[test]
fn assignments_are_type_checked() {
    let mut s = ScopeStack::new();
    declare(&mut s, "x", vec![VarType::Int]);
    assert_eq!(analyse(&assignment("x", None, int_const(4)), &mut s), Ok(None));
    assert_eq!(
        analyse(&assignment("x", None, string_const("a")), &mut s),
        Err(SemanticError { kind: SemanticErrorKind::IncompatibleAssignment, name: "x".to_string(), line: 7, column: 1, found: None })
    );
    assert_eq!(
        analyse(&assignment("x", Some(vec![string_const("a")]), int_const(4)), &mut s),
        Err(SemanticError { kind: SemanticErrorKind::NonIntIndex, name: String::new(), line: 0, column: 0, found: Some(VarType::String) })
    );
    assert_eq!(analyse(&assignment("x", Some(vec![int_const(0)]), int_const(4)), &mut s), Ok(None));
}

#[test]
fn return_outside_a_function_is_an_error() {
    let ret = node(SemanticNodeData::Returnstat { token: Token { token_type: TokenType::KwReturn, value: None, line: 8, column: 3 } });
    let mut tree = program(command(ret));
    assert_eq!(
        tree.semantic_analysis(),
        Err(SemanticError { kind: SemanticErrorKind::ReturnOutsideFunction, name: String::new(), line: 8, column: 3, found: None })
    );
}

#[test]
fn every_expression_yields_a_tree() {
    let comparison = node(SemanticNodeData::Expression {
        numexpression: Box::new(int_const(1)),
        op_expression: Some(Box::new(node(SemanticNodeData::OpExpression { op: TokenType::OpLt }))),
        numexpression2: Some(Box::new(ident("x", 1, 4))),
    });
    let single = node(SemanticNodeData::Expression {
        numexpression: Box::new(string_const("s")),
        op_expression: None,
        numexpression2: None,
    });
    let tree = SemanticTree {
        root: node(SemanticNodeData::Statelist { statelist: vec![comparison, single] }),
        scopes: ScopeStack::new(),
    };
    let trees = tree.create_expression_trees();
    assert_eq!(
        trees,
        vec![
            ExpressionTree {
                root: ExpressionTreeNode::BinaryOperator {
                    operator: Operator::Lt,
                    left: Box::new(ExpressionTreeNode::Operand { value: Operand::Integer(1) }),
                    right: Box::new(ExpressionTreeNode::Operand { value: Operand::Identifier("x".to_string()) }),
                },
            },
            ExpressionTree { root: ExpressionTreeNode::Operand { value: Operand::String("s".to_string()) } },
        ]
    );
    let bad = SemanticTree {
        root: node(SemanticNodeData::Expression {
            numexpression: Box::new(terminal(TokenType::ConstInt, None, 1, 0)),
            op_expression: None,
            numexpression2: None,
        }),
        scopes: ScopeStack::new(),
    };
    assert!(bad.try_create_expression_trees().is_none());
}

#[test]
fn semantic_error_messages() {
    let e = |kind, name: &str, line, column, found| SemanticError { kind, name: name.to_string(), line, column, found };
    assert_eq!(
        e(SemanticErrorKind::Redefinition, "x", 2, 6, None).message(),
        "Erro semântico: Redefinição de símbolo na linha 2, coluna 6: 'x'"
    );
    assert_eq!(
        e(SemanticErrorKind::SymbolNotFound, "y", 3, 9, None).message(),
        "Erro semântico: Símbolo não encontrado na linha 3, coluna 9: y"
    );
    assert_eq!(
        e(SemanticErrorKind::ReadNotString, "", 2, 5, Some(VarType::Int)).message(),
        "Erro semântico: comando Read deve atribuir valor a uma variável de tipo string, mas tipo Int foi encontrado na linha 5 coluna 2"
    );
    assert_eq!(
        e(SemanticErrorKind::ReturnOutsideFunction, "", 8, 3, None).message(),
        "Erro semântico: Comando \"break\" fora de um laço de repetição na linha 8 coluna 3"
    );
    assert_eq!(
        e(SemanticErrorKind::NonIntIndex, "", 0, 0, Some(VarType::String)).message(),
        "Erro semântico: índice de variável deve ser do tipo 'int', encontrado 'String'"
    );
    assert_eq!(SemanticError::plain(SemanticErrorKind::UnexpectedEof).message(), "Unexpected EOF without matching '}'");
    assert_eq!(
        SemanticError::plain(SemanticErrorKind::NumexpressionTypeMismatch).message(),
        "Erro semântico: tipos incompatíveis na expressão numérica na linha coluna "
    );
    assert_eq!(
        SemanticError::plain(SemanticErrorKind::TermTypeMismatch).message(),
        "Erro semântico: tipos incompatíveis na expressão numérica na linha coluna"
    );
}

#[test]
fn expression_node_returns_its_tree_part() {
    let factor = node(SemanticNodeData::Factor { expression: None, lvalue: None, constant: Some(Box::new(int_const(8))) });
    let mut trees = Vec::new();
    assert_eq!(factor.create_expression_tree(&mut trees), Some(ExpressionTreeNode::Operand { value: Operand::Integer(8) }));
    assert!(trees.is_empty());
    let expression = node(SemanticNodeData::Expression { numexpression: Box::new(factor), op_expression: None, numexpression2: None });
    assert_eq!(expression.create_expression_tree(&mut trees), None);
    assert_eq!(trees, vec![ExpressionTree { root: ExpressionTreeNode::Operand { value: Operand::Integer(8) } }]);
}

#[test]
fn function_call_can_only_be_assigned_to_an_int() {
    let mut s = ScopeStack::new();
    declare(&mut s, "@f", vec![]);
    declare(&mut s, "n", vec![VarType::Int]);
    declare(&mut s, "t", vec![VarType::String]);
    let call_f = || node(SemanticNodeData::Funccall {
        id: Box::new(terminal(TokenType::FuncId, Some(ConstType::String("@f".to_string())), 7, 5)),
        paramlistcall: None,
    });
    assert_eq!(analyse(&assignment("n", None, call_f()), &mut s), Ok(None));
    assert_eq!(
        analyse(&assignment("t", None, call_f()), &mut s),
        Err(SemanticError { kind: SemanticErrorKind::IncompatibleAssignment, name: "t".to_string(), line: 7, column: 1, found: None })
    );
}

#[test]
fn operand_error_is_the_error_of_the_expression() {
    let mut s = ScopeStack::new();
    let e = node(SemanticNodeData::Expression {
        numexpression: Box::new(ident("nope", 4, 2)),
        op_expression: None,
        numexpression2: None,
    });
    assert_eq!(
        analyse(&e, &mut s),
        Err(SemanticError { kind: SemanticErrorKind::SymbolNotFound, name: "nope".to_string(), line: 4, column: 2, found: None })
    );
    let e = node(SemanticNodeData::Expression {
        numexpression: Box::new(int_const(1)),
        op_expression: None,
        numexpression2: Some(Box::new(terminal(TokenType::ConstInt, None, 1, 0))),
    });
    assert_eq!(analyse(&e, &mut s), Err(plain(SemanticErrorKind::MissingIntValue)));
}

#[test]
fn analysis_closes_the_scopes_it_opens() {
    let mut s = ScopeStack::new();
    declare(&mut s, "g", vec![VarType::String]);
    let inner = block(vec![declaration(VarType::Int, "x", 2, 5), read("g", 3, 6)]);
    let outer = block(vec![declaration(VarType::Float, "z", 1, 7), inner]);
    assert_eq!(analyse(&outer, &mut s), Ok(None));
    assert_eq!(s.stack.len(), 1);
    assert_eq!(s.stack[0].0, ScopeType::Any);
    assert_eq!(s.stack[0].1.len(), 1);
    assert_eq!(s.stack[0].1[0].0, "g");
    assert_eq!(s.stack[0].1[0].1.appearances, vec![(1, 1), (3, 6)]);
    assert_eq!(s.stack[0].1[0].1.var_type, vec![VarType::String]);
    assert!(s.get_symbol("x").is_none());
    assert!(s.get_symbol("z").is_none());
    assert_eq!(s.log.len(), 2);
}
