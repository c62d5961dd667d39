//! Reading a grammar from text. The rules file has one production per line,
//! `HEAD,BODY`, where `BODY` is `''` for the empty body or the names of its
//! symbols separated by whitespace; the table file has one entry per line,
//! `HEAD,TOKEN,INDEX`. Lines with another number of fields are skipped.

use vstd::prelude::*;
use std::collections::HashMap;
use crate::token_type::{TokenType, token_of_name};
use crate::non_terminals::{NonTerminal, nt_of_name};
use crate::syntax::{Symbol, Rule, RuleView, Grammar, GrammarView, ParseTable, SyntaxTree, Node, TreeView, parse_key, key_of, rules_view, rule_view, tree_of};
use crate::scope_stack::{ScopeStack, ScopeType, EntryView, ScopeView};
use crate::split::{strings_view, spec_split, spec_lines, spec_words, spec_parse_u32, split_on, lines_of, words_of, parse_u32};
use crate::text::str_eq;

verus! {

broadcast use vstd::std_specs::hash::group_hash_axioms;

/// Why a grammar cannot be read: a head that names no non-terminal, a table
/// entry whose token names no token kind, or a table entry whose production
/// index is not a `u32`.
#[derive(Clone, Copy, Debug, PartialEq, Eq, Structural)]
pub enum GrammarError {
    UnknownNonTerminal,
    UnknownToken,
    InvalidRuleIndex,
}

/// The symbol that a name denotes: a token kind if it names one, else a
/// non-terminal.
pub open spec fn symbol_of_name(w: Seq<char>) -> Option<Symbol> {
    match token_of_name(w) {
        Some(t) => Some(Symbol::Terminal(t)),
        None => match nt_of_name(w) {
            Some(n) => Some(Symbol::NonTerminal(n)),
            None => None,
        },
    }
}

/// The symbols that the names `ws[..k]` denote, if each denotes one.
pub open spec fn symbols_of(ws: Seq<Seq<char>>, k: int) -> Option<Seq<Symbol>>
    decreases k,
{
    if k <= 0 {
        Some(Seq::empty())
    } else {
        match symbols_of(ws, k - 1) {
            Some(s) => match symbol_of_name(ws[k - 1]) {
                Some(x) => Some(s.push(x)),
                None => None,
            },
            None => None,
        }
    }
}

/// What a line of the rules file gives: `None` where a body names an
/// unknown symbol (the reader stops there), an error for an unknown head,
/// `Ok(None)` for a skipped line and `Ok(Some(rule))` for a production.
pub open spec fn rule_line(line: Seq<char>) -> Option<Result<Option<RuleView>, GrammarError>> {
    let parts = spec_split(line, ',');
    if parts.len() != 2 {
        Some(Ok(None))
    } else {
        match nt_of_name(parts[0]) {
            None => Some(Err(GrammarError::UnknownNonTerminal)),
            Some(h) => if parts[1] == "''"@ {
                Some(Ok(Some((h, None))))
            } else {
                let ws = spec_words(parts[1]);
                match symbols_of(ws, ws.len() as int) {
                    Some(b) => Some(Ok(Some((h, Some(b))))),
                    None => None,
                }
            },
        }
    }
}

/// The productions of the lines `ls[..k]`, in order, or how reading them
/// stops.
pub open spec fn rules_upto(ls: Seq<Seq<char>>, k: int) -> Option<Result<Seq<RuleView>, GrammarError>>
    decreases k,
{
    if k <= 0 {
        Some(Ok(Seq::empty()))
    } else {
        match rules_upto(ls, k - 1) {
            Some(Ok(rs)) => match rule_line(ls[k - 1]) {
                Some(Ok(Some(r))) => Some(Ok(rs.push(r))),
                Some(Ok(None)) => Some(Ok(rs)),
                Some(Err(e)) => Some(Err(e)),
                None => None,
            },
            other => other,
        }
    }
}

/// What a line of the table file gives: an error, `None` for a skipped line,
/// or the key and production index of an entry.
pub open spec fn table_line(line: Seq<char>) -> Result<Option<(u64, u32)>, GrammarError> {
    let parts = spec_split(line, ',');
    if parts.len() != 3 {
        Ok(None)
    } else {
        match nt_of_name(parts[0]) {
            None => Err(GrammarError::UnknownNonTerminal),
            Some(h) => match token_of_name(parts[1]) {
                None => Err(GrammarError::UnknownToken),
                Some(t) => match spec_parse_u32(parts[2]) {
                    None => Err(GrammarError::InvalidRuleIndex),
                    Some(i) => Ok(Some((parse_key(h, t), i))),
                },
            },
        }
    }
}

/// The table of the lines `ls[..k]`, a later entry for the same key
/// replacing an earlier one, or the first error.
pub open spec fn table_upto(ls: Seq<Seq<char>>, k: int) -> Result<Map<u64, u32>, GrammarError>
    decreases k,
{
    if k <= 0 {
        Ok(Map::empty())
    } else {
        match table_upto(ls, k - 1) {
            Ok(m) => match table_line(ls[k - 1]) {
                Ok(Some(e)) => Ok(m.insert(e.0, e.1)),
                Ok(None) => Ok(m),
                Err(e) => Err(e),
            },
            Err(e) => Err(e),
        }
    }
}

/// The grammar that the two texts describe: the rules are read first, then
/// the table; `None` where a body names an unknown symbol.
pub open spec fn grammar_of_text(rules: Seq<char>, table: Seq<char>) -> Option<Result<GrammarView, GrammarError>> {
    let rl = spec_lines(rules);
    let tl = spec_lines(table);
    match rules_upto(rl, rl.len() as int) {
        None => None,
        Some(Err(e)) => Some(Err(e)),
        Some(Ok(rs)) => match table_upto(tl, tl.len() as int) {
            Err(e) => Some(Err(e)),
            Ok(m) => Some(Ok(GrammarView { rules: rs, table: m })),
        },
    }
}

proof fn lemma_symbols_stop(ws: Seq<Seq<char>>, k: int, n: int)
    requires
        0 <= k <= n,
        symbols_of(ws, k) is None,
    ensures
        symbols_of(ws, n) is None,
    decreases n - k,
{
    if n > k {
        lemma_symbols_stop(ws, k, n - 1);
    }
}

proof fn lemma_rules_stop(ls: Seq<Seq<char>>, k: int, n: int)
    requires
        0 <= k <= n,
        !(rules_upto(ls, k) matches Some(Ok(_))),
    ensures
        rules_upto(ls, n) == rules_upto(ls, k),
    decreases n - k,
{
    if n > k {
        lemma_rules_stop(ls, k, n - 1);
    }
}

proof fn lemma_table_stop(ls: Seq<Seq<char>>, k: int, n: int)
    requires
        0 <= k <= n,
        table_upto(ls, k) is Err,
    ensures
        table_upto(ls, n) == table_upto(ls, k),
    decreases n - k,
{
    if n > k {
        lemma_table_stop(ls, k, n - 1);
    }
}

fn symbol_from_name(w: &str) -> (r: Option<Symbol>)
    ensures
        r == symbol_of_name(w@),
{
    match TokenType::from_str(w) {
        Ok(t) => Some(Symbol::Terminal(t)),
        Err(_) => match NonTerminal::from_str(w) {
            Ok(n) => Some(Symbol::NonTerminal(n)),
            Err(_) => None,
        },
    }
}

fn rule_from_line(line: &str) -> (r: Option<Result<Option<Rule>, GrammarError>>)
    ensures
        match rule_line(line@) {
            None => r is None,
            Some(Err(e)) => r == Some(Err::<Option<Rule>, GrammarError>(e)),
            Some(Ok(None)) => r matches Some(Ok(None)),
            Some(Ok(Some(v))) => r matches Some(Ok(Some(x))) && rule_view(x) == v,
        },
{
    let parts = split_on(line, ',');
    proof {
        assert(strings_view(parts@).len() == parts@.len());
    }
    if parts.len() != 2 {
        return Some(Ok(None));
    }
    assert(strings_view(parts@)[0] == parts@[0]@);
    assert(strings_view(parts@)[1] == parts@[1]@);
    let head = match NonTerminal::from_str(parts[0].as_str()) {
        Ok(h) => h,
        Err(_) => return Some(Err(GrammarError::UnknownNonTerminal)),
    };
    if str_eq(parts[1].as_str(), "''") {
        return Some(Ok(Some((head, None))));
    }
    let ws = words_of(parts[1].as_str());
    let ghost wv = strings_view(ws@);
    let mut body: Vec<Symbol> = Vec::new();
    let mut k: usize = 0;
    while k < ws.len()
        invariant
            wv == strings_view(ws@),
            wv.len() == ws@.len(),
            strings_view(parts@) == spec_split(line@, ','),
            parts@.len() == 2,
            nt_of_name(parts@[0]@) == Some(head),
            parts@[1]@ != "''"@,
            wv == spec_words(parts@[1]@),
            k <= ws@.len(),
            symbols_of(wv, k as int) == Some(body@),
        decreases ws.len() - k,
    {
        assert(wv[k as int] == ws@[k as int]@);
        match symbol_from_name(ws[k].as_str()) {
            Some(x) => body.push(x),
            None => {
                proof { lemma_symbols_stop(wv, k + 1, wv.len() as int); }
                return None;
            },
        }
        k = k + 1;
    }
    Some(Ok(Some((head, Some(body)))))
}

fn table_from_line(line: &str) -> (r: Result<Option<(u64, u32)>, GrammarError>)
    ensures
        r == table_line(line@),
{
    let parts = split_on(line, ',');
    proof {
        assert(strings_view(parts@).len() == parts@.len());
    }
    if parts.len() != 3 {
        return Ok(None);
    }
    assert(strings_view(parts@)[0] == parts@[0]@);
    assert(strings_view(parts@)[1] == parts@[1]@);
    assert(strings_view(parts@)[2] == parts@[2]@);
    let head = match NonTerminal::from_str(parts[0].as_str()) {
        Ok(h) => h,
        Err(_) => return Err(GrammarError::UnknownNonTerminal),
    };
    let token = match TokenType::from_str(parts[1].as_str()) {
        Ok(t) => t,
        Err(_) => return Err(GrammarError::UnknownToken),
    };
    let index = match parse_u32(parts[2].as_str()) {
        Some(i) => i,
        None => return Err(GrammarError::InvalidRuleIndex),
    };
    Ok(Some((key_of(head, token), index)))
}

impl Grammar {
    /// Reads a grammar from the text of its rules and of its table (see
    /// [`grammar_of_text`]); `None` where a body names an unknown symbol.
    pub fn try_from_text(rules: &str, table: &str) -> (r: Option<Result<Grammar, GrammarError>>)
        ensures
            match grammar_of_text(rules@, table@) {
                None => r is None,
                Some(Err(e)) => r matches Some(Err(x)) && x == e,
                Some(Ok(g)) => r matches Some(Ok(x)) && x@ == g,
            },
    {
        let rl = lines_of(rules);
        let ghost rv = strings_view(rl@);
        let mut rs: Vec<Rule> = Vec::new();
        let mut k: usize = 0;
        assert(rules_view(rs@) =~= Seq::<RuleView>::empty());
        while k < rl.len()
            invariant
                rv == strings_view(rl@),
                rv.len() == rl@.len(),
                rv == spec_lines(rules@),
                k <= rl@.len(),
                rules_upto(rv, k as int) == Some(Ok::<Seq<RuleView>, GrammarError>(rules_view(rs@))),
            decreases rl.len() - k,
        {
            assert(rv[k as int] == rl@[k as int]@);
            match rule_from_line(rl[k].as_str()) {
                None => {
                    proof { lemma_rules_stop(rv, k + 1, rv.len() as int); }
                    return None;
                },
                Some(Err(e)) => {
                    proof { lemma_rules_stop(rv, k + 1, rv.len() as int); }
                    return Some(Err(e));
                },
                Some(Ok(None)) => {},
                Some(Ok(Some(x))) => {
                    let ghost before = rs@;
                    rs.push(x);
                    assert(rules_view(rs@) =~= rules_view(before).push(rule_view(x)));
                },
            }
            k = k + 1;
        }
        let tl = lines_of(table);
        let ghost tv = strings_view(tl@);
        let mut m: ParseTable = HashMap::new();
        let mut j: usize = 0;
        while j < tl.len()
            invariant
                tv == strings_view(tl@),
                tv.len() == tl@.len(),
                tv == spec_lines(table@),
                rules_upto(spec_lines(rules@), spec_lines(rules@).len() as int)
                    == Some(Ok::<Seq<RuleView>, GrammarError>(rules_view(rs@))),
                j <= tl@.len(),
                table_upto(tv, j as int) == Ok::<Map<u64, u32>, GrammarError>(m@),
            decreases tl.len() - j,
        {
            assert(tv[j as int] == tl@[j as int]@);
            match table_from_line(tl[j].as_str()) {
                Err(e) => {
                    proof { lemma_table_stop(tv, j + 1, tv.len() as int); }
                    return Some(Err(e));
                },
                Ok(None) => {},
                Ok(Some(entry)) => {
                    m.insert(entry.0, entry.1);
                },
            }
            j = j + 1;
        }
        let g = Grammar { rules: rs, parse_table: m };
        Some(Ok(g))
    }
}

impl SyntaxTree {
    /// A syntax tree for the grammar that the two texts describe (see
    /// [`grammar_of_text`]), whose root is the program non-terminal without
    /// children, with a fresh scope stack; `None` where a body names an
    /// unknown symbol.
    pub fn try_new(rules: &str, table: &str) -> (r: Option<Result<SyntaxTree, GrammarError>>)
        ensures
            match grammar_of_text(rules@, table@) {
                None => r is None,
                Some(Err(e)) => r matches Some(Err(x)) && x == e,
                Some(Ok(g)) => r matches Some(Ok(x)) && x.grammar@ == g
                    && tree_of(x.root) == (TreeView { value: Symbol::NonTerminal(NonTerminal::Program), children: Seq::empty() })
                    && x.scopes@.stack == seq![(ScopeType::Any, Seq::<(Seq<char>, EntryView)>::empty())]
                    && x.scopes@.log == Seq::<Option<ScopeView>>::empty(),
            },
    {
        let grammar = match Grammar::try_from_text(rules, table) {
            None => return None,
            Some(Err(e)) => return Some(Err(e)),
            Some(Ok(g)) => g,
        };
        let root = Node::new(Symbol::NonTerminal(NonTerminal::Program));
        let scopes = ScopeStack::new();
        Some(Ok(SyntaxTree { root, grammar, scopes }))
    }

    /// A syntax tree for the grammar that the two texts describe, where
    /// every production body names known symbols (see [`SyntaxTree::try_new`]).
    pub fn new(rules: &str, table: &str) -> (r: Result<SyntaxTree, GrammarError>)
        requires
            grammar_of_text(rules@, table@) is Some,
        ensures
            match grammar_of_text(rules@, table@) {
                None => false,
                Some(Err(e)) => r matches Err(x) && x == e,
                Some(Ok(g)) => r matches Ok(x) && x.grammar@ == g
                    && tree_of(x.root) == (TreeView { value: Symbol::NonTerminal(NonTerminal::Program), children: Seq::empty() })
                    && x.scopes@.stack == seq![(ScopeType::Any, Seq::<(Seq<char>, EntryView)>::empty())]
                    && x.scopes@.log == Seq::<Option<ScopeView>>::empty(),
            },
    {
        match SyntaxTree::try_new(rules, table) {
            Some(r) => r,
            None => Err(GrammarError::UnknownNonTerminal),
        }
    }
}

} // verus!
