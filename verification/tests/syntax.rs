use trabalho_final::grammar_text::GrammarError;
use trabalho_final::non_terminals::{NonTerminal, UnknownNonTerminal};
use trabalho_final::syntax::{key_of, Node, Symbol, SyntaxError, SyntaxTree};
use trabalho_final::token::Token;
use trabalho_final::token_type::{TokenType, UnknownTokenName};

const RULES: &str = "PROGRAM,STATEMENT\n\
STATEMENT,id op_assign EXPRESSION semicolon\n\
EXPRESSION,const_int\n\
EXPRESSION,id\n\
STATELIST,''\n\
a line without the right number of fields\n";

const TABLE: &str = "PROGRAM,id,0\n\
STATEMENT,id,1\n\
EXPRESSION,const_int,2\n\
EXPRESSION,id,3\n";

fn t(token_type: TokenType, line: usize, column: usize) -> Token {
    Token { token_type, value: None, line, column }
}

fn assignment_tokens() -> Vec<Token> {
    vec![
        t(TokenType::Id, 1, 1),
        t(TokenType::OpAssign, 1, 3),
        t(TokenType::ConstInt, 1, 5),
        t(TokenType::Semicolon, 1, 6),
        t(TokenType::Eof, 1, 7),
    ]
}

#[test]
fn grammar_is_read_from_text() {
    let tree = SyntaxTree::new(RULES, TABLE).unwrap();
    assert_eq!(tree.grammar.rules.len(), 5);
    assert_eq!(tree.grammar.rules[0].0, NonTerminal::Program);
    assert_eq!(tree.grammar.rules[0].1, Some(vec![Symbol::NonTerminal(NonTerminal::Statement)]));
    assert_eq!(
        tree.grammar.rules[1].1,
        Some(vec![
            Symbol::Terminal(TokenType::Id),
            Symbol::Terminal(TokenType::OpAssign),
            Symbol::NonTerminal(NonTerminal::Expression),
            Symbol::Terminal(TokenType::Semicolon),
        ])
    );
    assert_eq!(tree.grammar.rules[4], (NonTerminal::Statelist, None));
    assert_eq!(tree.grammar.parse_table.len(), 4);
    assert_eq!(tree.grammar.parse_table.get(&key_of(NonTerminal::Expression, TokenType::Id)), Some(&3));
    assert_eq!(tree.root.value, Symbol::NonTerminal(NonTerminal::Program));
    assert!(tree.root.children.is_empty());
}

#[test]
fn parses_an_assignment() {
    let mut tree = SyntaxTree::new(RULES, TABLE).unwrap();
    assert_eq!(tree.parse(&assignment_tokens()), Ok(()));
    let root = &tree.root;
    assert_eq!(root.children.len(), 1);
    let statement = &root.children[0];
    assert_eq!(statement.value, Symbol::NonTerminal(NonTerminal::Statement));
    let kinds: Vec<Symbol> = statement.children.iter().map(|c| c.value).collect();
    assert_eq!(
        kinds,
        vec![
            Symbol::Terminal(TokenType::Id),
            Symbol::Terminal(TokenType::OpAssign),
            Symbol::NonTerminal(NonTerminal::Expression),
            Symbol::Terminal(TokenType::Semicolon),
        ]
    );
    assert_eq!(statement.children[2].children.len(), 1);
    assert_eq!(statement.children[2].children[0].value, Symbol::Terminal(TokenType::ConstInt));
}

#[test]
fn parse_tree_in_dot() {
    let mut tree = SyntaxTree::new(RULES, TABLE).unwrap();
    assert_eq!(tree.parse(&assignment_tokens()), Ok(()));
    let expected = [
        "// Visualize a árvore colando este arquivo em https://dreampuf.github.io/GraphvizOnline/?engine=dot",
        "digraph G {",
        "  Program_0 [label=\"Program\" color=\"green\"]",
        "  Program_0 -> Statement_1",
        "  Statement_1 [label=\"Statement\" color=\"green\"]",
        "  Statement_1 -> Id_2",
        "  Id_2 [label=\"Id\" color=\"blue\"]",
        "  Statement_1 -> OpAssign_3",
        "  OpAssign_3 [label=\"OpAssign\" color=\"blue\"]",
        "  Statement_1 -> Expression_4",
        "  Expression_4 [label=\"Expression\" color=\"green\"]",
        "  Expression_4 -> ConstInt_5",
        "  ConstInt_5 [label=\"ConstInt\" color=\"blue\"]",
        "  Statement_1 -> Semicolon_6",
        "  Semicolon_6 [label=\"Semicolon\" color=\"blue\"]",
        "",
        "}",
        "",
    ]
    .join("\n");
    assert_eq!(tree.save(), expected);
}

#[test]
fn empty_production_is_drawn_as_epsilon() {
    let mut tree = SyntaxTree::new("PROGRAM,STATELIST\nSTATELIST,''\n", "PROGRAM,$,0\nSTATELIST,$,1\n").unwrap();
    assert_eq!(tree.parse(&vec![t(TokenType::Eof, 1, 0)]), Ok(()));
    let mut count: u32 = 0;
    let text = tree.root.to_string(&mut count);
    let expected = [
        "  Program_0 [label=\"Program\" color=\"green\"]",
        "  Program_0 -> Statelist_1",
        "  Statelist_1 [label=\"Statelist\" color=\"green\"]",
        "  Empty_2 [label=\"ε\" color=\"gray\"]",
        "  Statelist_1 -> Empty_2",
        "",
    ]
    .join("\n");
    assert_eq!(text, expected);
    assert_eq!(count, 3);
}

#[test]
fn unexpected_token_is_a_syntax_error() {
    let mut tree = SyntaxTree::new(RULES, TABLE).unwrap();
    let tokens = vec![t(TokenType::Id, 2, 1), t(TokenType::Semicolon, 2, 2), t(TokenType::Eof, 2, 3)];
    assert_eq!(
        tree.parse(&tokens),
        Err(SyntaxError::Unexpected { expected: TokenType::OpAssign, found: TokenType::Semicolon, line: 2, column: 2 })
    );
    assert!(tree.root.children.is_empty());
}

#[test]
fn missing_table_entry_is_a_syntax_error() {
    let mut tree = SyntaxTree::new(RULES, TABLE).unwrap();
    let tokens = vec![t(TokenType::ConstInt, 4, 7), t(TokenType::Eof, 4, 8)];
    assert_eq!(
        tree.parse(&tokens),
        Err(SyntaxError::NoRule { non_terminal: NonTerminal::Program, found: TokenType::ConstInt, line: 4, column: 7 })
    );
}

#[test]
fn running_out_of_tokens_aborts() {
    let mut tree = SyntaxTree::new(RULES, TABLE).unwrap();
    assert_eq!(tree.try_parse(&vec![]), None);
    let mut tree = SyntaxTree::new(RULES, TABLE).unwrap();
    assert_eq!(tree.try_parse(&vec![t(TokenType::Id, 1, 1), t(TokenType::OpAssign, 1, 2)]), None);
}

#[test]
fn rule_index_past_the_rules_aborts() {
    let mut tree = SyntaxTree::new(RULES, "PROGRAM,id,9\n").unwrap();
    assert_eq!(tree.try_parse(&assignment_tokens()), None);
}

#[test]
fn left_recursion_aborts() {
    let mut tree = SyntaxTree::new("PROGRAM,PROGRAM id\n", "PROGRAM,id,0\n").unwrap();
    assert_eq!(tree.try_parse(&vec![t(TokenType::Id, 1, 1), t(TokenType::Eof, 1, 2)]), None);
}

#[test]
fn grammar_errors() {
    assert_eq!(SyntaxTree::new("FOO,id\n", "").err(), Some(GrammarError::UnknownNonTerminal));
    assert_eq!(SyntaxTree::new(RULES, "PROGRAM,foo,0\n").err(), Some(GrammarError::UnknownToken));
    assert_eq!(SyntaxTree::new(RULES, "NOPE,id,0\n").err(), Some(GrammarError::UnknownNonTerminal));
    assert_eq!(SyntaxTree::new(RULES, "PROGRAM,id,x\n").err(), Some(GrammarError::InvalidRuleIndex));
    assert_eq!(SyntaxTree::new(RULES, "PROGRAM,id,4294967296\n").err(), Some(GrammarError::InvalidRuleIndex));
}

#[test]
fn unknown_symbol_in_a_body_stops_reading() {
    assert!(SyntaxTree::try_new("PROGRAM,id bogus\n", "").is_none());
    assert!(SyntaxTree::try_new("BOGUS,bogus\n", "").unwrap().is_err());
}

#[test]
fn later_table_entry_replaces_earlier() {
    let tree = SyntaxTree::new(RULES, "PROGRAM,id,0\nPROGRAM,id,3\n").unwrap();
    assert_eq!(tree.grammar.parse_table.len(), 1);
    assert_eq!(tree.grammar.parse_table.get(&key_of(NonTerminal::Program, TokenType::Id)), Some(&3));
}

#[test]
fn names_read_back() {
    assert_eq!(NonTerminal::from_str("FUNCLIST_"), Ok(NonTerminal::FunclistRest));
    assert_eq!(NonTerminal::from_str(NonTerminal::OpTerm.name()), Ok(NonTerminal::OpTerm));
    assert_eq!(NonTerminal::from_str("program"), Err(UnknownNonTerminal));
    assert_eq!(TokenType::from_str(TokenType::KwReturn.name()), Ok(TokenType::KwReturn));
    assert_eq!(TokenType::from_str("$"), Ok(TokenType::Eof));
    assert_eq!(TokenType::from_str("ID"), Err(UnknownTokenName));
    assert_eq!(Symbol::Terminal(TokenType::OpPlus).debug_name(), "OpPlus");
    assert_eq!(Symbol::NonTerminal(NonTerminal::Term).debug_name(), "Term");
}

#[test]
fn node_parse_moves_the_index() {
    let tree = SyntaxTree::new(RULES, TABLE).unwrap();
    let mut node = Node::new(Symbol::NonTerminal(NonTerminal::Expression));
    let tokens = vec![t(TokenType::Id, 1, 1), t(TokenType::Eof, 1, 2)];
    let mut index: usize = 0;
    let mut path: Vec<u128> = Vec::new();
    assert_eq!(node.parse(&tree.grammar, &tokens, &mut index, &mut path), Some(Ok(())));
    assert!(path.is_empty());
    assert_eq!(index, 1);
    assert_eq!(node.children.len(), 1);
}

#[test]
fn every_name_reads_back_to_its_kind() {
    let kinds = [
        TokenType::Comma,
        TokenType::ConstFloat,
        TokenType::ConstInt,
        TokenType::ConstNull,
        TokenType::ConstString,
        TokenType::Eof,
        TokenType::FuncId,
        TokenType::Id,
        TokenType::KwBreak,
        TokenType::KwDef,
        TokenType::KwElse,
        TokenType::KwFor,
        TokenType::KwIf,
        TokenType::KwNew,
        TokenType::KwPrint,
        TokenType::KwRead,
        TokenType::KwReturn,
        TokenType::Lbrace,
        TokenType::Lbracket,
        TokenType::Lparenthesis,
        TokenType::OpAssign,
        TokenType::OpDivision,
        TokenType::OpEq,
        TokenType::OpGe,
        TokenType::OpGt,
        TokenType::OpLe,
        TokenType::OpLt,
        TokenType::OpMinus,
        TokenType::OpModular,
        TokenType::OpMult,
        TokenType::OpNe,
        TokenType::OpPlus,
        TokenType::Rbrace,
        TokenType::Rbracket,
        TokenType::Rparenthesis,
        TokenType::Semicolon,
        TokenType::VarType,
    ];
    for (i, k) in kinds.iter().enumerate() {
        assert_eq!(TokenType::from_str(k.name()), Ok(*k));
        assert_eq!(k.index(), i as u64);
    }
    let non_terminals = [
        NonTerminal::Program,
        NonTerminal::Funclist,
        NonTerminal::FunclistRest,
        NonTerminal::Funcdef,
        NonTerminal::Paramlist,
        NonTerminal::ParamlistRest,
        NonTerminal::Statement,
        NonTerminal::Vardecl,
        NonTerminal::ConstIndex,
        NonTerminal::Atribstat,
        NonTerminal::Atribstatevalue,
        NonTerminal::Funccall,
        NonTerminal::Paramlistcall,
        NonTerminal::ParamlistcallRest,
        NonTerminal::Printstat,
        NonTerminal::Readstat,
        NonTerminal::Returnstat,
        NonTerminal::Ifstat,
        NonTerminal::Elsestat,
        NonTerminal::Forstat,
        NonTerminal::Statelist,
        NonTerminal::StatelistRest,
        NonTerminal::Allocexpression,
        NonTerminal::VarIndex,
        NonTerminal::Expression,
        NonTerminal::ExpressionRest,
        NonTerminal::OpExpression,
        NonTerminal::Numexpression,
        NonTerminal::NumexpressionRest,
        NonTerminal::OpNumexpression,
        NonTerminal::Term,
        NonTerminal::TermRest,
        NonTerminal::OpTerm,
        NonTerminal::Unaryexpression,
        NonTerminal::Factor,
        NonTerminal::Lvalue,
        NonTerminal::LvalueRest,
    ];
    for (i, n) in non_terminals.iter().enumerate() {
        assert_eq!(NonTerminal::from_str(n.name()), Ok(*n));
        assert_eq!(n.index(), i as u64);
        assert_eq!(n.debug_name(), format!("{:?}", n));
    }
    for k in kinds.iter() {
        assert_eq!(k.debug_name(), format!("{:?}", k));
    }
}

fn leaves(node: &Node, out: &mut Vec<TokenType>) {
    match node.value {
        Symbol::Terminal(t) => out.push(t),
        Symbol::NonTerminal(_) => {
            for c in &node.children {
                leaves(c, out);
            }
        }
    }
}

#[test]
fn leaves_of_the_tree_are_the_tokens_read() {
    let tree = SyntaxTree::new(RULES, TABLE).unwrap();
    let tokens = assignment_tokens();
    let mut node = Node::new(Symbol::NonTerminal(NonTerminal::Statement));
    let mut index: usize = 0;
    assert_eq!(node.parse(&tree.grammar, &tokens, &mut index, &mut Vec::new()), Some(Ok(())));
    assert_eq!(index, 4);
    let mut read = Vec::new();
    leaves(&node, &mut read);
    let kinds: Vec<TokenType> = tokens[..index].iter().map(|t| t.token_type).collect();
    assert_eq!(read, kinds);
}

#[test]
fn expansion_in_progress_is_not_repeated() {
    let tree = SyntaxTree::new("PROGRAM,PROGRAM id\nSTATEMENT,id\n", "PROGRAM,id,0\nSTATEMENT,id,1\n").unwrap();
    let tokens = vec![t(TokenType::Id, 1, 1), t(TokenType::Eof, 1, 2)];
    let mut node = Node::new(Symbol::NonTerminal(NonTerminal::Program));
    let mut index = 0usize;
    let mut path: Vec<u128> = vec![7];
    assert_eq!(node.parse(&tree.grammar, &tokens, &mut index, &mut path), None);
    assert_eq!(path, vec![7]);
    let mut statement = Node::new(Symbol::NonTerminal(NonTerminal::Statement));
    let mut index = 0usize;
    assert_eq!(statement.parse(&tree.grammar, &tokens, &mut index, &mut path), Some(Ok(())));
    assert_eq!(path, vec![7]);
    assert_eq!(index, 1);
}

#[test]
fn failed_parse_leaves_the_index_at_the_error() {
    let tree = SyntaxTree::new(RULES, TABLE).unwrap();
    let tokens = vec![t(TokenType::Id, 1, 1), t(TokenType::Semicolon, 1, 2), t(TokenType::Eof, 1, 3)];
    let mut node = Node::new(Symbol::Terminal(TokenType::OpAssign));
    let mut index: usize = 1;
    assert!(matches!(node.parse(&tree.grammar, &tokens, &mut index, &mut Vec::new()), Some(Err(_))));
    assert_eq!(index, 1);
    let mut node = Node::new(Symbol::NonTerminal(NonTerminal::Expression));
    let mut index: usize = 1;
    assert!(matches!(node.parse(&tree.grammar, &tokens, &mut index, &mut Vec::new()), Some(Err(SyntaxError::NoRule { .. }))));
    assert_eq!(index, 1);
    let mut node = Node::new(Symbol::NonTerminal(NonTerminal::Statement));
    let mut index: usize = 0;
    assert!(matches!(node.parse(&tree.grammar, &tokens, &mut index, &mut Vec::new()), Some(Err(SyntaxError::Unexpected { .. }))));
    assert_eq!(index, 1);
}
