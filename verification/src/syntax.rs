//! LL(1) syntax analysis: the parse tree that a grammar (its rules and its
//! parse table) builds from a token list, and the tree's rendering in the
//! DOT graph language.

use vstd::prelude::*;
use std::collections::HashMap;
use crate::token::Token;
use crate::token_type::{TokenType, token_debug, token_index};
use crate::non_terminals::{NonTerminal, nt_debug, nt_index, non_terminal_count};
use crate::scope_stack::ScopeStack;
use crate::text::{dec_digits, push_u64};
use vstd::set_lib::{set_int_range, lemma_int_range, lemma_len_subset};

verus! {

broadcast use vstd::std_specs::hash::group_hash_axioms;

/// A grammar symbol: a non-terminal or a token kind.
#[derive(Clone, Copy, Debug, PartialEq, Eq, Structural)]
pub enum Symbol {
    NonTerminal(NonTerminal),
    Terminal(TokenType),
}

/// A production: its head, and its body (`None` for the empty body).
pub type Rule = (NonTerminal, Option<Vec<Symbol>>);

/// The view of a production.
pub type RuleView = (NonTerminal, Option<Seq<Symbol>>);

/// The LL(1) table: for a non-terminal and a token kind (see
/// [`parse_key`]), the index of the production to apply.
pub type ParseTable = HashMap<u64, u32>;

/// The key under which the table stores the entry of a non-terminal and a
/// token kind.
pub open spec fn parse_key(n: NonTerminal, t: TokenType) -> u64 {
    (nt_index(n) * 64 + token_index(t)) as u64
}

/// The key of the table entry for `n` and `t`.
pub fn key_of(n: NonTerminal, t: TokenType) -> (k: u64)
    ensures
        k == parse_key(n, t),
{
    n.index() * 64 + t.index()
}

/// The view of a production.
pub open spec fn rule_view(r: Rule) -> RuleView {
    (r.0, match r.1 {
        Some(b) => Some(b@),
        None => None,
    })
}

/// The view of a list of productions.
pub open spec fn rules_view(s: Seq<Rule>) -> Seq<RuleView> {
    s.map_values(|r: Rule| rule_view(r))
}

/// A grammar: its productions, in order, and its LL(1) table.
pub struct Grammar {
    pub rules: Vec<Rule>,
    pub parse_table: ParseTable,
}

/// The view of a grammar.
pub struct GrammarView {
    pub rules: Seq<RuleView>,
    pub table: Map<u64, u32>,
}

impl View for Grammar {
    type V = GrammarView;

    open spec fn view(&self) -> GrammarView {
        GrammarView { rules: rules_view(self.rules@), table: self.parse_table@ }
    }
}

/// A node of the parse tree: a symbol and the subtrees of the production
/// applied to it.
pub struct Node {
    pub value: Symbol,
    pub children: Vec<Node>,
}

/// The view of a parse tree.
pub struct TreeView {
    pub value: Symbol,
    pub children: Seq<TreeView>,
}

/// The view of a node.
pub open spec fn tree_of(n: Node) -> TreeView
    decreases n,
{
    TreeView { value: n.value, children: trees_of(n.children@) }
}

/// The views of a sequence of nodes.
pub open spec fn trees_of(s: Seq<Node>) -> Seq<TreeView>
    decreases s,
{
    if s.len() == 0 {
        Seq::empty()
    } else {
        trees_of(s.subrange(0, s.len() - 1)).push(tree_of(s[s.len() - 1]))
    }
}

proof fn lemma_trees_push(s: Seq<Node>, n: Node)
    ensures
        trees_of(s.push(n)) == trees_of(s).push(tree_of(n)),
{
    assert(s.push(n).subrange(0, s.len() as int) =~= s);
}

proof fn lemma_trees_index(s: Seq<Node>, i: int)
    requires
        0 <= i < s.len(),
    ensures
        trees_of(s).len() == s.len(),
        trees_of(s)[i] == tree_of(s[i]),
    decreases s.len(),
{
    let p = s.subrange(0, s.len() - 1);
    lemma_trees_len(p);
    if i < s.len() - 1 {
        lemma_trees_index(p, i);
    }
}

proof fn lemma_trees_len(s: Seq<Node>)
    ensures
        trees_of(s).len() == s.len(),
    decreases s.len(),
{
    if s.len() > 0 {
        lemma_trees_len(s.subrange(0, s.len() - 1));
    }
}

/// A syntax error: a token other than the one expected, or a token for
/// which the table has no production of the non-terminal being expanded.
/// Each gives the kind and position of the token found.
#[derive(Clone, Copy, Debug, PartialEq, Eq, Structural)]
pub enum SyntaxError {
    Unexpected { expected: TokenType, found: TokenType, line: usize, column: usize },
    NoRule { non_terminal: NonTerminal, found: TokenType, line: usize, column: usize },
}

/// The message with which a syntax error is reported.
pub open spec fn syntax_message(e: SyntaxError) -> Seq<char> {
    match e {
        SyntaxError::Unexpected { expected, found, line, column } =>
            "Erro sintático: esperava "@ + token_debug(expected) + ", mas encontrou "@ + token_debug(found)
                + " na linha "@ + dec_digits(line as nat) + ", coluna "@ + dec_digits(column as nat),
        SyntaxError::NoRule { non_terminal, found, line, column } =>
            "Erro sintático: não há regra para "@ + nt_debug(non_terminal) + " com o token "@ + token_debug(found)
                + " na linha "@ + dec_digits(line as nat) + ", coluna "@ + dec_digits(column as nat),
    }
}

impl SyntaxError {
    /// The message with which this error is reported (see
    /// [`syntax_message`]).
    pub fn message(&self) -> (m: String)
        ensures
            m@ == syntax_message(*self),
    {
        let mut m = String::new();
        match *self {
            SyntaxError::Unexpected { expected, found, line, column } => {
                m.append("Erro sintático: esperava ");
                m.append(expected.debug_name());
                m.append(", mas encontrou ");
                m.append(found.debug_name());
                m.append(" na linha ");
                push_u64(&mut m, line as u64);
                m.append(", coluna ");
                push_u64(&mut m, column as u64);
            },
            SyntaxError::NoRule { non_terminal, found, line, column } => {
                m.append("Erro sintático: não há regra para ");
                m.append(non_terminal.debug_name());
                m.append(" com o token ");
                m.append(found.debug_name());
                m.append(" na linha ");
                push_u64(&mut m, line as u64);
                m.append(", coluna ");
                push_u64(&mut m, column as u64);
            },
        }
        assert(m@ =~= syntax_message(*self));
        m
    }
}

/// How parsing a node ends: with the node's tree and the position of the
/// next token, with a syntax error, the node as it stands and the position
/// of the token at which the error was found, or by
/// aborting (a position past the tokens, a production index past the
/// rules, or a non-terminal expanded again at a token where its expansion
/// is already in progress).
pub enum ParseOutcome {
    Done(TreeView, int),
    Fail(TreeView, SyntaxError, int),
    Abort,
}

/// The key that marks the expansion of `n` at the token `i` as in progress.
pub open spec fn expansion_key(n: NonTerminal, i: int) -> int {
    i * non_terminal_count() + nt_index(n)
}

/// The expansions in progress for a list of `len` tokens: distinct keys,
/// each that of a non-terminal at one of the tokens.
pub open spec fn path_ok(path: Seq<int>, len: nat) -> bool {
    &&& path.no_duplicates()
    &&& forall|k: int| 0 <= k < path.len() ==> 0 <= #[trigger] path[k] < non_terminal_count() * len
}

/// The position of a non-terminal is below the number of non-terminals.
pub proof fn lemma_nt_index_bound(n: NonTerminal)
    ensures
        nt_index(n) < non_terminal_count(),
{
}

/// There are no more expansions in progress than pairs of a non-terminal
/// and a token.
pub proof fn lemma_path_len(path: Seq<int>, len: nat)
    requires
        path_ok(path, len),
    ensures
        path.len() <= non_terminal_count() * len,
{
    let bound = non_terminal_count() * len;
    let r = set_int_range(0, bound as int);
    lemma_int_range(0, bound as int);
    path.unique_seq_to_set();
    assert forall|x: int| path.to_set().contains(x) implies r.contains(x) by {
        let k = choose|k: int| 0 <= k < path.len() && path[k] == x;
        assert(0 <= path[k] < bound);
    }
    lemma_len_subset(path.to_set(), r);
}

/// Starting a new expansion at one of the tokens keeps the expansions in
/// progress well formed.
pub proof fn lemma_path_push(path: Seq<int>, len: nat, n: NonTerminal, i: int)
    requires
        path_ok(path, len),
        0 <= i < len,
        !path.contains(expansion_key(n, i)),
    ensures
        path_ok(path.push(expansion_key(n, i)), len),
        path.push(expansion_key(n, i)).len() <= non_terminal_count() * len,
{
    let key = expansion_key(n, i);
    lemma_nt_index_bound(n);
    assert(key < non_terminal_count() * len) by (nonlinear_arith)
        requires
            key == i * non_terminal_count() + nt_index(n),
            nt_index(n) < non_terminal_count(),
            0 <= i < len,
    ;
    assert(0 <= key) by (nonlinear_arith)
        requires
            key == i * non_terminal_count() + nt_index(n),
            0 <= i,
    ;
    let p2 = path.push(key);
    assert forall|a: int, b: int| 0 <= a < p2.len() && 0 <= b < p2.len() && a != b implies p2[a] != p2[b] by {
        if a == path.len() {
            assert(path[b] == p2[b]);
        } else if b == path.len() {
            assert(path[a] == p2[a]);
        }
    }
    assert forall|k: int| 0 <= k < p2.len() implies 0 <= #[trigger] p2[k] < non_terminal_count() * len by {
        if k < path.len() {
            assert(p2[k] == path[k]);
        }
    }
    lemma_path_len(p2, len);
}

/// Parses the node `t` from the token at `i`, with the expansions `path` in
/// progress: a terminal must match the token; a non-terminal is expanded by
/// the production that the table gives for it and the token, whose symbols
/// are parsed in turn as new children. Expanding a non-terminal at a token
/// where its expansion is already in progress would repeat that expansion
/// without end, and aborts.
pub open spec fn parse_node(g: GrammarView, t: TreeView, toks: Seq<Token>, i: int, path: Seq<int>) -> ParseOutcome
    decreases non_terminal_count() * toks.len() - path.len(), 0nat,
{
    if i < 0 || i >= toks.len() || !path_ok(path, toks.len()) {
        ParseOutcome::Abort
    } else {
        let cur = toks[i];
        match t.value {
            Symbol::Terminal(tt) => if tt != cur.token_type {
                ParseOutcome::Fail(t, SyntaxError::Unexpected {
                    expected: tt, found: cur.token_type, line: cur.line, column: cur.column,
                }, i)
            } else {
                ParseOutcome::Done(t, i + 1)
            },
            Symbol::NonTerminal(n) => {
                let k = parse_key(n, cur.token_type);
                if !g.table.contains_key(k) {
                    ParseOutcome::Fail(t, SyntaxError::NoRule {
                        non_terminal: n, found: cur.token_type, line: cur.line, column: cur.column,
                    }, i)
                } else if g.table[k] >= g.rules.len() {
                    ParseOutcome::Abort
                } else {
                    match g.rules[g.table[k] as int].1 {
                        None => ParseOutcome::Done(t, i),
                        Some(body) => if path.contains(expansion_key(n, i)) {
                            ParseOutcome::Abort
                        } else {
                            proof {
                                lemma_path_push(path, toks.len(), n, i);
                            }
                            parse_body(g, t, body, 0, toks, i, path.push(expansion_key(n, i)))
                        },
                    }
                }
            },
        }
    }
}

/// Parses the symbols `body[k..]` from the token at `i`, each as a new child
/// of `t`; a child that fails is not kept.
pub open spec fn parse_body(
    g: GrammarView,
    t: TreeView,
    body: Seq<Symbol>,
    k: int,
    toks: Seq<Token>,
    i: int,
    path: Seq<int>,
) -> ParseOutcome
    decreases non_terminal_count() * toks.len() - path.len(), body.len() - k + 1,
{
    if k < 0 || k >= body.len() {
        ParseOutcome::Done(t, i)
    } else {
        match parse_node(g, TreeView { value: body[k], children: Seq::empty() }, toks, i, path) {
            ParseOutcome::Done(c, j) => parse_body(
                g,
                TreeView { value: t.value, children: t.children.push(c) },
                body,
                k + 1,
                toks,
                j,
                path,
            ),
            ParseOutcome::Fail(_, e, j) => ParseOutcome::Fail(t, e, j),
            ParseOutcome::Abort => ParseOutcome::Abort,
        }
    }
}

/// The keys of a list of expansions in progress.
pub open spec fn keys_view(v: Seq<u128>) -> Seq<int> {
    v.map_values(|k: u128| k as int)
}

/// The kinds of a sequence of tokens.
pub open spec fn token_kinds(toks: Seq<Token>) -> Seq<TokenType> {
    toks.map_values(|x: Token| x.token_type)
}

/// The terminals at the leaves of a tree, left to right.
pub open spec fn leaves(t: TreeView) -> Seq<TokenType>
    decreases t,
{
    match t.value {
        Symbol::Terminal(tt) => seq![tt],
        Symbol::NonTerminal(_) => leaves_seq(t.children),
    }
}

/// The terminals at the leaves of a sequence of trees, left to right.
pub open spec fn leaves_seq(cs: Seq<TreeView>) -> Seq<TokenType>
    decreases cs,
{
    if cs.len() == 0 {
        Seq::empty()
    } else {
        leaves_seq(cs.subrange(0, cs.len() - 1)) + leaves(cs[cs.len() - 1])
    }
}

proof fn lemma_leaves_push(cs: Seq<TreeView>, c: TreeView)
    ensures
        leaves_seq(cs.push(c)) == leaves_seq(cs) + leaves(c),
{
    assert(cs.push(c).subrange(0, cs.len() as int) =~= cs);
}

proof fn lemma_kinds_concat(toks: Seq<Token>, i: int, j: int, k: int)
    requires
        0 <= i <= j <= k <= toks.len(),
    ensures
        token_kinds(toks.subrange(i, j)) + token_kinds(toks.subrange(j, k)) == token_kinds(toks.subrange(i, k)),
{
    assert(token_kinds(toks.subrange(i, j)) + token_kinds(toks.subrange(j, k)) =~= token_kinds(toks.subrange(i, k)));
}

/// A node without children that parses from the token at `i` reads the
/// tokens `i..j`, and the leaves of its tree, left to right, are exactly the
/// kinds of those tokens.
pub proof fn law_parse_reads_tokens(g: GrammarView, t: TreeView, toks: Seq<Token>, i: int, path: Seq<int>)
    requires
        t.children.len() == 0,
    ensures
        parse_node(g, t, toks, i, path) matches ParseOutcome::Done(t2, j) ==> {
            &&& 0 <= i <= j <= toks.len()
            &&& t2.value == t.value
            &&& leaves(t2) == token_kinds(toks.subrange(i, j))
        },
    decreases non_terminal_count() * toks.len() - path.len(), 0nat,
{
    if 0 <= i < toks.len() && path_ok(path, toks.len()) {
        let cur = toks[i];
        match t.value {
            Symbol::Terminal(tt) => {
                assert(token_kinds(toks.subrange(i, i + 1)) =~= seq![cur.token_type]);
            },
            Symbol::NonTerminal(n) => {
                let k = parse_key(n, cur.token_type);
                if g.table.contains_key(k) && g.table[k] < g.rules.len() {
                    match g.rules[g.table[k] as int].1 {
                        None => {
                            assert(t.children =~= Seq::<TreeView>::empty());
                            assert(token_kinds(toks.subrange(i, i)) =~= Seq::<TokenType>::empty());
                        },
                        Some(body) => if !path.contains(expansion_key(n, i)) {
                            lemma_path_push(path, toks.len(), n, i);
                            lemma_body_reads_tokens(g, t, body, 0, toks, i, path.push(expansion_key(n, i)));
                            assert(leaves_seq(t.children) =~= Seq::<TokenType>::empty());
                        },
                    }
                }
            },
        }
    }
}

proof fn lemma_body_reads_tokens(
    g: GrammarView,
    t: TreeView,
    body: Seq<Symbol>,
    k: int,
    toks: Seq<Token>,
    i: int,
    path: Seq<int>,
)
    requires
        t.value is NonTerminal,
        0 <= i <= toks.len(),
    ensures
        parse_body(g, t, body, k, toks, i, path) matches ParseOutcome::Done(t2, j) ==> {
            &&& i <= j <= toks.len()
            &&& t2.value == t.value
            &&& leaves_seq(t2.children) == leaves_seq(t.children) + token_kinds(toks.subrange(i, j))
        },
    decreases non_terminal_count() * toks.len() - path.len(), body.len() - k + 1,
{
    if 0 <= k < body.len() {
        let c0 = TreeView { value: body[k], children: Seq::empty() };
        law_parse_reads_tokens(g, c0, toks, i, path);
        match parse_node(g, c0, toks, i, path) {
            ParseOutcome::Done(c, j) => {
                let t1 = TreeView { value: t.value, children: t.children.push(c) };
                lemma_body_reads_tokens(g, t1, body, k + 1, toks, j, path);
                lemma_leaves_push(t.children, c);
                match parse_body(g, t1, body, k + 1, toks, j, path) {
                    ParseOutcome::Done(t2, j2) => {
                        lemma_kinds_concat(toks, i, j, j2);
                    },
                    _ => {},
                }
            },
            _ => {},
        }
    } else {
        assert(token_kinds(toks.subrange(i, i)) =~= Seq::<TokenType>::empty());
        assert(leaves_seq(t.children) + Seq::<TokenType>::empty() =~= leaves_seq(t.children));
    }
}

/// Where `t`, as a derivation by the table's productions that reads the
/// tokens from `i`, ends: a terminal reads one token of its kind; a
/// non-terminal is expanded by the production that the table gives for it
/// and the token at `i`, and its children are the symbols of that
/// production, each a derivation that reads on from where the one before
/// it ended (no children for an empty production). `None` where `t` is no
/// such derivation.
pub open spec fn derivation_end(g: GrammarView, t: TreeView, toks: Seq<Token>, i: int) -> Option<int>
    decreases t,
{
    if i < 0 || i >= toks.len() {
        None
    } else {
        match t.value {
            Symbol::Terminal(tt) => if t.children.len() == 0 && toks[i].token_type == tt {
                Some(i + 1)
            } else {
                None
            },
            Symbol::NonTerminal(n) => {
                let k = parse_key(n, toks[i].token_type);
                if !g.table.contains_key(k) || g.table[k] >= g.rules.len() {
                    None
                } else {
                    match g.rules[g.table[k] as int].1 {
                        None => if t.children.len() == 0 { Some(i) } else { None },
                        Some(body) => if t.children.len() == body.len()
                            && forall|m: int| 0 <= m < body.len() ==> #[trigger] t.children[m].value == body[m] {
                            derivation_seq_end(g, t.children, toks, i)
                        } else {
                            None
                        },
                    }
                }
            },
        }
    }
}

/// Where the derivations `cs`, one after the other from the token at `i`,
/// end; `None` where one of them is no derivation.
pub open spec fn derivation_seq_end(g: GrammarView, cs: Seq<TreeView>, toks: Seq<Token>, i: int) -> Option<int>
    decreases cs,
{
    if cs.len() == 0 {
        Some(i)
    } else {
        match derivation_seq_end(g, cs.subrange(0, cs.len() - 1), toks, i) {
            Some(p) => derivation_end(g, cs[cs.len() - 1], toks, p),
            None => None,
        }
    }
}

proof fn lemma_derivation_seq_push(g: GrammarView, cs: Seq<TreeView>, c: TreeView, toks: Seq<Token>, i: int)
    ensures
        derivation_seq_end(g, cs.push(c), toks, i) == match derivation_seq_end(g, cs, toks, i) {
            Some(p) => derivation_end(g, c, toks, p),
            None => None,
        },
{
    assert(cs.push(c).subrange(0, cs.len() as int) =~= cs);
}

/// A parse that succeeds builds a derivation by the table's productions: a
/// node without children that parses from the token at `i` up to `j` gives
/// a tree each of whose non-terminals is expanded by the production that the
/// table gives for it and its current token, and that reads exactly the
/// tokens `i..j`. A non-terminal with no table entry for its token is never
/// part of a successful parse.
pub proof fn law_parse_builds_derivation(g: GrammarView, t: TreeView, toks: Seq<Token>, i: int, path: Seq<int>)
    requires
        t.children.len() == 0,
    ensures
        parse_node(g, t, toks, i, path) matches ParseOutcome::Done(t2, j) ==> derivation_end(g, t2, toks, i) == Some(j),
    decreases non_terminal_count() * toks.len() - path.len(), 0nat,
{
    if 0 <= i < toks.len() && path_ok(path, toks.len()) {
        let cur = toks[i];
        match t.value {
            Symbol::Terminal(tt) => {},
            Symbol::NonTerminal(n) => {
                let k = parse_key(n, cur.token_type);
                if g.table.contains_key(k) && g.table[k] < g.rules.len() {
                    match g.rules[g.table[k] as int].1 {
                        None => {},
                        Some(body) => if !path.contains(expansion_key(n, i)) {
                            lemma_path_push(path, toks.len(), n, i);
                            lemma_body_builds_derivation(g, t, body, 0, toks, i, i, path.push(expansion_key(n, i)));
                        },
                    }
                }
            },
        }
    }
}

/// A non-terminal with no table entry for the token at `i` fails to parse
/// with the error that names it and that token, at `i`, whatever expansions
/// are in progress.
pub proof fn law_missing_entry_is_no_rule(g: GrammarView, t: TreeView, n: NonTerminal, toks: Seq<Token>, i: int, path: Seq<int>)
    requires
        t.value == Symbol::NonTerminal(n),
        0 <= i < toks.len(),
        path_ok(path, toks.len()),
        !g.table.contains_key(parse_key(n, toks[i].token_type)),
    ensures
        parse_node(g, t, toks, i, path) == ParseOutcome::Fail(t, SyntaxError::NoRule {
            non_terminal: n, found: toks[i].token_type, line: toks[i].line, column: toks[i].column,
        }, i),
{
}

proof fn lemma_body_builds_derivation(
    g: GrammarView,
    t: TreeView,
    body: Seq<Symbol>,
    k: int,
    toks: Seq<Token>,
    i0: int,
    i: int,
    path: Seq<int>,
)
    requires
        0 <= k <= body.len(),
        t.children.len() == k,
        forall|m: int| 0 <= m < k ==> #[trigger] t.children[m].value == body[m],
        derivation_seq_end(g, t.children, toks, i0) == Some(i),
    ensures
        parse_body(g, t, body, k, toks, i, path) matches ParseOutcome::Done(t2, j) ==> {
            &&& t2.value == t.value
            &&& t2.children.len() == body.len()
            &&& forall|m: int| 0 <= m < body.len() ==> #[trigger] t2.children[m].value == body[m]
            &&& derivation_seq_end(g, t2.children, toks, i0) == Some(j)
        },
    decreases non_terminal_count() * toks.len() - path.len(), body.len() - k + 1,
{
    if k < body.len() {
        let c0 = TreeView { value: body[k], children: Seq::empty() };
        law_parse_builds_derivation(g, c0, toks, i, path);
        law_parse_reads_tokens(g, c0, toks, i, path);
        match parse_node(g, c0, toks, i, path) {
            ParseOutcome::Done(c, j) => {
                let t1 = TreeView { value: t.value, children: t.children.push(c) };
                lemma_derivation_seq_push(g, t.children, c, toks, i0);
                assert forall|m: int| 0 <= m < k + 1 implies #[trigger] t1.children[m].value == body[m] by {
                    if m < k {
                        assert(t1.children[m] == t.children[m]);
                    }
                }
                lemma_body_builds_derivation(g, t1, body, k + 1, toks, i0, j, path);
            },
            _ => {},
        }
    }
}

/// How a symbol is written by `{:?}`.
pub open spec fn symbol_debug(s: Symbol) -> Seq<char> {
    match s {
        Symbol::NonTerminal(n) => nt_debug(n),
        Symbol::Terminal(t) => token_debug(t),
    }
}

/// The name of the graph node of a symbol numbered `c`.
pub open spec fn node_name(s: Symbol, c: nat) -> Seq<char> {
    symbol_debug(s) + "_"@ + dec_digits(c)
}

/// A DOT line that declares the graph node `name`.
pub open spec fn label_line(name: Seq<char>, label: Seq<char>, color: Seq<char>) -> Seq<char> {
    "  "@ + name + " [label=\""@ + label + "\" color=\""@ + color + "\"]\n"@
}

/// A DOT line that draws an edge from `a` to `b`.
pub open spec fn edge_line(a: Seq<char>, b: Seq<char>) -> Seq<char> {
    "  "@ + a + " -> "@ + b + "\n"@
}

/// How many numbers the rendering of `t` uses: one per node, and one more
/// for the empty-production mark under a non-terminal without children.
pub open spec fn tree_size(t: TreeView) -> nat
    decreases t, t.children.len() + 1,
{
    match t.value {
        Symbol::Terminal(_) => 1,
        Symbol::NonTerminal(_) => if t.children.len() == 0 {
            2
        } else {
            1 + sizes_from(t, 0)
        },
    }
}

/// The numbers used by the children `i..` of `t`.
pub open spec fn sizes_from(t: TreeView, i: int) -> nat
    decreases t, t.children.len() - i,
{
    if i < 0 || i >= t.children.len() {
        0
    } else {
        tree_size(t.children[i]) + sizes_from(t, i + 1)
    }
}

/// The DOT lines of the tree `t` whose root is numbered `c`: a terminal in
/// blue, a non-terminal in green with an edge to each child (or to an `ε`
/// mark, in gray, when it has none).
pub open spec fn tree_dot(t: TreeView, c: nat) -> Seq<char>
    decreases t, t.children.len() + 1,
{
    let name = node_name(t.value, c);
    match t.value {
        Symbol::Terminal(tt) => label_line(name, token_debug(tt), "blue"@),
        Symbol::NonTerminal(n) => label_line(name, nt_debug(n), "green"@) + if t.children.len() == 0 {
            label_line("Empty_"@ + dec_digits(c + 1), "ε"@, "gray"@)
                + edge_line(name, "Empty_"@ + dec_digits(c + 1))
        } else {
            dot_from(t, 0, c, c + 1)
        },
    }
}

/// The DOT lines of the children `i..` of `t` (numbered `parent`), the first
/// of them numbered `c`.
pub open spec fn dot_from(t: TreeView, i: int, parent: nat, c: nat) -> Seq<char>
    decreases t, t.children.len() - i,
{
    if i < 0 || i >= t.children.len() {
        Seq::empty()
    } else {
        let ch = t.children[i];
        edge_line(node_name(t.value, parent), node_name(ch.value, c)) + tree_dot(ch, c)
            + dot_from(t, i + 1, parent, c + tree_size(ch))
    }
}

/// The first line of a saved tree.
pub open spec fn dot_header() -> Seq<char> {
    "// Visualize a árvore colando este arquivo em https://dreampuf.github.io/GraphvizOnline/?engine=dot\n"@
}

/// The DOT file of a parse tree.
pub open spec fn tree_file(t: TreeView) -> Seq<char> {
    dot_header() + "digraph G {\n"@ + tree_dot(t, 0) + "\n}\n"@
}

impl Symbol {
    /// How this symbol is written by `{:?}`.
    pub fn debug_name(&self) -> (r: &'static str)
        ensures
            r@ == symbol_debug(*self),
    {
        match self {
            Symbol::NonTerminal(n) => n.debug_name(),
            Symbol::Terminal(t) => t.debug_name(),
        }
    }
}

fn push_node_name(out: &mut String, s: Symbol, c: u32)
    ensures
        final(out)@ == old(out)@ + node_name(s, c as nat),
{
    out.append(s.debug_name());
    out.append("_");
    push_u64(out, c as u64);
    assert(final(out)@ =~= old(out)@ + node_name(s, c as nat));
}

fn path_has(path: &Vec<u128>, key: u128) -> (r: bool)
    ensures
        r == keys_view(path@).contains(key as int),
{
    let mut i: usize = 0;
    while i < path.len()
        invariant
            i <= path@.len(),
            forall|j: int| 0 <= j < i ==> path@[j] != key,
        decreases path.len() - i,
    {
        if path[i] == key {
            assert(keys_view(path@)[i as int] == key as int);
            return true;
        }
        i = i + 1;
    }
    assert forall|j: int| 0 <= j < keys_view(path@).len() implies keys_view(path@)[j] != key as int by {
        assert(path@[j] != key);
    }
    false
}

impl Node {
    /// A node of `value` without children.
    pub fn new(value: Symbol) -> (r: Node)
        ensures
            r.value == value,
            r.children@.len() == 0,
            tree_of(r) == (TreeView { value, children: Seq::empty() }),
    {
        let r = Node { value, children: Vec::new() };
        assert(tree_of(r).children =~= Seq::<TreeView>::empty());
        r
    }

    /// Parses this node from `tokens[*index]` (see [`parse_node`]), moving
    /// `*index` past the tokens read, with the expansions `path` in progress
    /// (given back as it was); `None` where parsing aborts.
    pub fn parse(&mut self, g: &Grammar, tokens: &Vec<Token>, index: &mut usize, path: &mut Vec<u128>)
        -> (r: Option<Result<(), SyntaxError>>)
        requires
            path_ok(keys_view(old(path)@), tokens@.len()),
        ensures
            final(path)@ == old(path)@,
            match parse_node(g@, tree_of(*old(self)), tokens@, *old(index) as int, keys_view(old(path)@)) {
                ParseOutcome::Done(t, j) => r == Some(Ok::<(), SyntaxError>(()))
                    && tree_of(*final(self)) == t && *final(index) == j,
                ParseOutcome::Fail(t, e, j) => r == Some(Err::<(), SyntaxError>(e)) && tree_of(*final(self)) == t
                    && *final(index) == j,
                ParseOutcome::Abort => r is None,
            },
        decreases non_terminal_count() * tokens@.len() - old(path)@.len(),
    {
        if *index >= tokens.len() {
            return None;
        }
        let found = tokens[*index].token_type;
        let line = tokens[*index].line;
        let column = tokens[*index].column;
        match self.value {
            Symbol::Terminal(tt) => {
                if tt != found {
                    return Some(Err(SyntaxError::Unexpected { expected: tt, found, line, column }));
                }
                *index = *index + 1;
                Some(Ok(()))
            },
            Symbol::NonTerminal(n) => {
                let key = key_of(n, found);
                let rule_index = match g.parse_table.get(&key) {
                    Some(ri) => *ri,
                    None => {
                        return Some(Err(SyntaxError::NoRule { non_terminal: n, found, line, column }));
                    },
                };
                if rule_index as usize >= g.rules.len() {
                    return None;
                }
                let ghost rv = rules_view(g.rules@);
                assert(rv[rule_index as int] == rule_view(g.rules@[rule_index as int]));
                match &g.rules[rule_index as usize].1 {
                    None => Some(Ok(())),
                    Some(body) => {
                        let expansion = (*index as u128) * 37 + (n.index() as u128);
                        assert(expansion as int == expansion_key(n, *index as int));
                        if path_has(path, expansion) {
                            return None;
                        }
                        let ghost p0 = keys_view(path@);
                        proof {
                            lemma_path_push(p0, tokens@.len(), n, *index as int);
                        }
                        path.push(expansion);
                        assert(keys_view(path@) =~= p0.push(expansion_key(n, *index as int)));
                        let ghost t0 = tree_of(*self);
                        let mut k: usize = 0;
                        while k < body.len()
                            invariant
                                k <= body@.len(),
                                path@ == old(path)@.push(expansion),
                                keys_view(path@) == p0.push(expansion_key(n, *old(index) as int)),
                                p0 == keys_view(old(path)@),
                                path_ok(keys_view(path@), tokens@.len()),
                                keys_view(path@).len() <= non_terminal_count() * tokens@.len(),
                                self.value == old(self).value,
                                tree_of(*self).value == t0.value,
                                parse_node(g@, tree_of(*old(self)), tokens@, *old(index) as int, keys_view(old(path)@))
                                    == parse_body(g@, tree_of(*self), body@, k as int, tokens@, *index as int, keys_view(path@)),
                            decreases body.len() - k,
                        {
                            let mut child = Node::new(body[k]);
                            let r = child.parse(g, tokens, index, path);
                            match r {
                                None => {
                                    path.pop();
                                    return None;
                                },
                                Some(Err(e)) => {
                                    path.pop();
                                    return Some(Err(e));
                                },
                                Some(Ok(())) => {},
                            }
                            proof {
                                lemma_trees_push(self.children@, child);
                            }
                            self.children.push(child);
                            k = k + 1;
                        }
                        path.pop();
                        Some(Ok(()))
                    },
                }
            },
        }
    }

    /// Appends the DOT lines of this tree, its root numbered `*count`, and
    /// advances `*count` past the numbers used (see [`tree_dot`]).
    pub fn to_string(&self, count: &mut u32) -> (r: String)
        requires
            *old(count) + tree_size(tree_of(*self)) <= u32::MAX,
        ensures
            r@ == tree_dot(tree_of(*self), *old(count) as nat),
            *final(count) == *old(count) + tree_size(tree_of(*self)),
        decreases self,
    {
        let ghost t = tree_of(*self);
        let c = *count;
        let mut result = String::new();
        result.append("  ");
        push_node_name(&mut result, self.value, c);
        result.append(" [label=\"");
        match self.value {
            Symbol::Terminal(tt) => {
                result.append(tt.debug_name());
                result.append("\" color=\"");
                result.append("blue");
                result.append("\"]\n");
            },
            Symbol::NonTerminal(n) => {
                result.append(n.debug_name());
                result.append("\" color=\"");
                result.append("green");
                result.append("\"]\n");
            },
        }
        *count = c + 1;
        proof { lemma_trees_len(self.children@); }
        match self.value {
            Symbol::Terminal(_) => {
                assert(result@ =~= tree_dot(t, c as nat));
                return result;
            },
            Symbol::NonTerminal(_) => {},
        }
        if self.children.len() == 0 {
            let e = *count;
            result.append("  ");
            result.append("Empty_");
            push_u64(&mut result, e as u64);
            result.append(" [label=\"");
            result.append("ε");
            result.append("\" color=\"");
            result.append("gray");
            result.append("\"]\n");
            result.append("  ");
            push_node_name(&mut result, self.value, c);
            result.append(" -> ");
            result.append("Empty_");
            push_u64(&mut result, e as u64);
            result.append("\n");
            *count = e + 1;
            assert(result@ =~= tree_dot(t, c as nat));
            return result;
        }
        let ghost head = result@;
        assert(head =~= label_line(node_name(t.value, c as nat), match t.value {
            Symbol::NonTerminal(n) => nt_debug(n),
            Symbol::Terminal(tt) => token_debug(tt),
        }, "green"@));
        let mut i: usize = 0;
        while i < self.children.len()
            invariant
                t == tree_of(*self),
                t.children.len() == self.children@.len(),
                i <= self.children@.len(),
                self.children@.len() > 0,
                t.value is NonTerminal,
                tree_size(t) == 1 + sizes_from(t, 0),
                c + tree_size(t) <= u32::MAX,
                *count == c + 1 + sizes_from(t, 0) - sizes_from(t, i as int),
                head + dot_from(t, 0, c as nat, (c + 1) as nat)
                    == result@ + dot_from(t, i as int, c as nat, *count as nat),
            decreases self.children.len() - i,
        {
            proof {
                lemma_trees_index(self.children@, i as int);
            }
            let child = &self.children[i];
            let cc = *count;
            let ghost pre = result@;
            result.append("  ");
            push_node_name(&mut result, self.value, c);
            result.append(" -> ");
            push_node_name(&mut result, child.value, cc);
            result.append("\n");
            assert(result@ =~= pre + edge_line(node_name(t.value, c as nat), node_name(child.value, cc as nat)));
            let sub = child.to_string(count);
            result.append(sub.as_str());
            assert(pre + dot_from(t, i as int, c as nat, cc as nat) =~= result@ + dot_from(t, i + 1, c as nat, *count as nat));
            i = i + 1;
        }
        assert(result@ =~= tree_dot(t, c as nat));
        result
    }
}

/// A syntax tree: the grammar that builds it, its root (the program
/// non-terminal before parsing) and a scope stack for the analyses that
/// follow.
pub struct SyntaxTree {
    pub root: Node,
    pub grammar: Grammar,
    pub scopes: ScopeStack,
}

impl SyntaxTree {
    /// Parses the token list from its first token, with no expansion in
    /// progress (see [`parse_node`]); `None` where parsing aborts.
    pub fn try_parse(&mut self, tokens: &Vec<Token>) -> (r: Option<Result<(), SyntaxError>>)
        ensures
            final(self).grammar == old(self).grammar,
            final(self).scopes == old(self).scopes,
            match parse_node(old(self).grammar@, tree_of(old(self).root), tokens@, 0, Seq::empty()) {
                ParseOutcome::Done(t, _) => r == Some(Ok::<(), SyntaxError>(())) && tree_of(final(self).root) == t,
                ParseOutcome::Fail(t, e, _) => r == Some(Err::<(), SyntaxError>(e)) && tree_of(final(self).root) == t,
                ParseOutcome::Abort => r is None,
            },
    {
        let mut index: usize = 0;
        let mut path: Vec<u128> = Vec::new();
        assert(keys_view(path@) =~= Seq::<int>::empty());
        self.root.parse(&self.grammar, tokens, &mut index, &mut path)
    }

    /// Parses the token list, where parsing does not abort.
    pub fn parse(&mut self, tokens: &Vec<Token>) -> (r: Result<(), SyntaxError>)
        requires
            !(parse_node(old(self).grammar@, tree_of(old(self).root), tokens@, 0, Seq::empty()) is Abort),
        ensures
            final(self).grammar == old(self).grammar,
            final(self).scopes == old(self).scopes,
            match parse_node(old(self).grammar@, tree_of(old(self).root), tokens@, 0, Seq::empty()) {
                ParseOutcome::Done(t, _) => r is Ok && tree_of(final(self).root) == t,
                ParseOutcome::Fail(t, e, _) => r == Err::<(), SyntaxError>(e) && tree_of(final(self).root) == t,
                ParseOutcome::Abort => false,
            },
    {
        match self.try_parse(tokens) {
            Some(r) => r,
            None => Ok(()),
        }
    }

    /// The DOT file that saving the tree writes (see [`tree_file`]).
    pub fn save(&self) -> (r: String)
        requires
            tree_size(tree_of(self.root)) <= u32::MAX,
        ensures
            r@ == tree_file(tree_of(self.root)),
    {
        let mut out = String::new();
        out.append("// Visualize a árvore colando este arquivo em https://dreampuf.github.io/GraphvizOnline/?engine=dot\n");
        out.append("digraph G {\n");
        let mut count: u32 = 0;
        let body = self.root.to_string(&mut count);
        out.append(body.as_str());
        out.append("\n}\n");
        assert(out@ =~= tree_file(tree_of(self.root)));
        out
    }
}

} // verus!
