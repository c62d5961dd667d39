//! Lexical analysis: the input is read character by character through the
//! automaton; a token ends where the automaton has no transition, and is kept
//! when the state reached is final. Identifiers are recorded in a table of
//! the positions where they appear.

use vstd::prelude::*;
use crate::fda::{FDA, FdaView, State, spec_step, spec_accepts};
use crate::token::{Token, TokenView, token_debug_text};
use crate::token_type::{TokenType, spec_has_value, spec_is_id};
use crate::const_type::{ConstType, ascii_lower, spec_const_from_str, lower_char};
use crate::text::{str_chars, str_eq, string_push, is_white_space, is_alphabetic_char, char_is_whitespace, char_is_alphabetic};
use crate::semantic_dot::tokens_view;
use crate::text::{dec_digits, push_u64};

verus! {

/// The positions (line, column) where an identifier appears.
pub type TokenEntry = Vec<(u32, u32)>;

/// The identifiers of the input, in the order of their first appearance,
/// each with the positions where it appears.
pub type TokenTable = Vec<(String, TokenEntry)>;

/// A lexical error: the position reached and the text of the token being
/// read.
#[derive(Debug, Clone, PartialEq)]
pub struct LexicalError {
    pub line: usize,
    pub column: usize,
    pub value: String,
}

/// The message with which a lexical error is reported.
pub open spec fn lexical_message(line: usize, column: usize, value: Seq<char>) -> Seq<char> {
    "Erro léxico: Caracter inválido na linha "@ + dec_digits(line as nat) + ", coluna "@
        + dec_digits(column as nat) + ": '"@ + value + "'"@
}

impl LexicalError {
    /// The message with which this error is reported (see
    /// [`lexical_message`]).
    pub fn message(&self) -> (m: String)
        ensures
            m@ == lexical_message(self.line, self.column, self.value@),
    {
        let mut m = String::new();
        m.append("Erro léxico: Caracter inválido na linha ");
        push_u64(&mut m, self.line as u64);
        m.append(", coluna ");
        push_u64(&mut m, self.column as u64);
        m.append(": '");
        m.append(self.value.as_str());
        m.append("'");
        assert(m@ =~= lexical_message(self.line, self.column, self.value@));
        m
    }
}

/// The lexer.
pub struct Lexer {
    pub fda: FDA,
    pub token_list: Vec<Token>,
    pub token_table: TokenTable,
    pub line_count: usize,
    pub column_count: usize,
    pub token_value: String,
    pub string: bool,
    pub current_state: State,
}

/// The view of an identifier table.
pub type SymtabView = Seq<(Seq<char>, Seq<(u32, u32)>)>;

/// The mathematical view of the lexer's state.
pub struct LexView {
    pub line: usize,
    pub column: usize,
    pub value: Seq<char>,
    pub string: bool,
    pub current: State,
    pub tokens: Seq<TokenView>,
    pub table: SymtabView,
}

/// How lexing ends: with the state reached, with a lexical error in the
/// state where it was found, or by aborting (where a token's column would be
/// negative).
pub enum LexOutcome {
    Lexed(LexView),
    Failed(LexView),
    Abort,
}

/// The view of an identifier table.
pub open spec fn symtab_view(t: Seq<(String, TokenEntry)>) -> SymtabView {
    t.map_values(|p: (String, TokenEntry)| (p.0@, p.1@))
}

/// The first position, from `i` on, of the identifier `key` in a table.
pub open spec fn symtab_find(t: SymtabView, key: Seq<char>, i: int) -> Option<int>
    decreases t.len() - i,
{
    if i < 0 || i >= t.len() {
        None
    } else if t[i].0 == key {
        Some(i)
    } else {
        symtab_find(t, key, i + 1)
    }
}

/// The table after an appearance of `key` at `pos`.
pub open spec fn symtab_add(t: SymtabView, key: Seq<char>, pos: (u32, u32)) -> SymtabView {
    match symtab_find(t, key, 0) {
        Some(j) => t.update(j, (t[j].0, t[j].1.push(pos))),
        None => t.push((key, seq![pos])),
    }
}

/// The state with a new value being read.
pub open spec fn with_value(st: LexView, v: Seq<char>) -> LexView {
    LexView { line: st.line, column: st.column, value: v, string: st.string, current: st.current, tokens: st.tokens, table: st.table }
}

/// Ends the token being read: where the state reached is final, the token is
/// kept (an identifier also in the table); else a non-empty token is an
/// error. A token's column is the column, counted in characters from 1, of
/// its first character: the character that ends a token has already been
/// counted, the end of the input has not. A token longer than the column
/// count (one that spans a line break) aborts.
pub open spec fn spec_valid_token(fda: FdaView, st: LexView, at_end: bool) -> LexOutcome {
    match spec_accepts(fda.token_table, st.current) {
        Some(tt) => {
            let n = st.value.len();
            if n > st.column {
                LexOutcome::Abort
            } else {
                let col = (st.column - n + (if at_end { 1int } else { 0int })) as usize;
                let tok = TokenView {
                    token_type: tt,
                    value: if spec_has_value(tt) { Some(spec_const_from_str(st.value)) } else { None },
                    line: st.line,
                    column: col,
                };
                let table = if spec_is_id(tt) { symtab_add(st.table, st.value, (st.line as u32, col as u32)) } else { st.table };
                LexOutcome::Lexed(LexView {
                    line: st.line, column: st.column, value: st.value, string: st.string, current: st.current,
                    tokens: st.tokens.push(tok), table,
                })
            }
        },
        None => if st.value.len() > 0 {
            LexOutcome::Failed(st)
        } else {
            LexOutcome::Lexed(st)
        },
    }
}

/// Moves from `state` on `c`, keeping `c` in the token's text unless it is
/// whitespace that leads back to the initial state.
pub open spec fn spec_transition(fda: FdaView, st: LexView, state: State, c: char) -> Option<LexView> {
    match spec_step(fda.transitions, state, c) {
        Some(next) => Some(LexView {
            line: st.line, column: st.column, string: st.string, current: next, tokens: st.tokens, table: st.table,
            value: if !is_white_space(c) || next != fda.initial { st.value.push(c) } else { st.value },
        }),
        None => None,
    }
}

/// The position after the character `ch`.
pub open spec fn after_newline(st: LexView, ch: char) -> LexView {
    if ch == '\n' {
        LexView { line: (st.line + 1) as usize, column: 0, value: st.value, string: st.string, current: st.current, tokens: st.tokens, table: st.table }
    } else {
        st
    }
}

/// Reads the character `ch` (already counted in the column): outside
/// strings letters are lowercased; where the automaton cannot go on, the
/// token read so far ends and `ch` must start a new one.
pub open spec fn spec_feed(fda: FdaView, st: LexView, ch: char) -> LexOutcome {
    let c = if !st.string && is_alphabetic_char(ch) { ascii_lower(ch) } else { ch };
    match spec_transition(fda, st, st.current, c) {
        Some(s) => LexOutcome::Lexed(after_newline(s, ch)),
        None => match spec_valid_token(fda, st, false) {
            LexOutcome::Lexed(s1) => {
                let s2 = with_value(s1, Seq::empty());
                match spec_transition(fda, s2, fda.initial, c) {
                    Some(s3) => LexOutcome::Lexed(after_newline(s3, ch)),
                    None => LexOutcome::Failed(s2),
                }
            },
            other => other,
        },
    }
}

/// Reads one character of the input: a double quote opens or closes a
/// string; whitespace between tokens is skipped (a newline moves to the next
/// line).
pub open spec fn spec_lex_char(fda: FdaView, st: LexView, ch: char) -> LexOutcome {
    let st1 = LexView { column: (st.column + 1) as usize, ..st };
    if ch == '"' {
        spec_feed(fda, LexView { string: !st1.string, ..st1 }, ch)
    } else if st1.current == fda.initial && is_white_space(ch) {
        LexOutcome::Lexed(after_newline(st1, ch))
    } else {
        spec_feed(fda, st1, ch)
    }
}

/// Reads the characters `input[i..]`, then ends the last token and appends
/// the end-of-input token.
pub open spec fn spec_lex(fda: FdaView, st: LexView, input: Seq<char>, i: int) -> LexOutcome
    decreases input.len() - i,
{
    if i < 0 || i >= input.len() {
        match spec_valid_token(fda, st, true) {
            LexOutcome::Lexed(s) => LexOutcome::Lexed(LexView {
                tokens: s.tokens.push(TokenView { token_type: TokenType::Eof, value: None, line: s.line, column: s.column }),
                ..s
            }),
            other => other,
        }
    } else {
        match spec_lex_char(fda, st, input[i]) {
            LexOutcome::Lexed(s) => spec_lex(fda, s, input, i + 1),
            other => other,
        }
    }
}

/// No character is lost from a token's text: a transition appends the
/// character it reads to the text, except whitespace that leads back to the
/// initial state (whitespace between tokens), which leaves it as it was.
/// Where the transition leads to any other state, the character is kept.
pub proof fn law_transition_keeps_text(fda: FdaView, st: LexView, state: State, c: char)
    ensures
        spec_transition(fda, st, state, c) matches Some(s) ==> {
            &&& s.value == st.value.push(c) || (is_white_space(c) && s.current == fda.initial && s.value == st.value)
            &&& s.current != fda.initial ==> s.value == st.value.push(c)
            &&& !is_white_space(c) ==> s.value == st.value.push(c)
        },
{
}

/// Inside a string, in the middle of a token, a character other than a
/// double quote that the automaton reads into a state other than the
/// initial one is kept in the token's text as written: not lowercased, and
/// kept where it is whitespace.
pub proof fn law_strings_keep_their_text(fda: FdaView, st: LexView, ch: char)
    requires
        st.string,
        st.current != fda.initial,
        ch != '"',
        spec_step(fda.transitions, st.current, ch) matches Some(next) && next != fda.initial,
    ensures
        spec_lex_char(fda, st, ch) matches LexOutcome::Lexed(s) && s.value == st.value.push(ch) && s.string,
{
}

/// Every identifier token of the list has its position in some entry of
/// the identifier table.
pub open spec fn ids_recorded(tokens: Seq<TokenView>, table: SymtabView) -> bool {
    forall|k: int| #![trigger tokens[k]]
        0 <= k < tokens.len() && spec_is_id(tokens[k].token_type) ==> exists|j: int|
            0 <= j < table.len() && #[trigger] table[j].1.contains((tokens[k].line as u32, tokens[k].column as u32))
}

proof fn lemma_find_bounds(t: SymtabView, key: Seq<char>, i: int)
    ensures
        symtab_find(t, key, i) matches Some(j) ==> 0 <= j < t.len(),
    decreases t.len() - i,
{
    if 0 <= i < t.len() && t[i].0 != key {
        lemma_find_bounds(t, key, i + 1);
    }
}

proof fn lemma_add_keeps(t: SymtabView, key: Seq<char>, pos: (u32, u32), p: (u32, u32), j: int)
    requires
        0 <= j < t.len(),
        t[j].1.contains(p),
    ensures
        exists|j2: int| 0 <= j2 < symtab_add(t, key, pos).len() && #[trigger] symtab_add(t, key, pos)[j2].1.contains(p),
{
    let t2 = symtab_add(t, key, pos);
    lemma_find_bounds(t, key, 0);
    match symtab_find(t, key, 0) {
        Some(i) => {
            if i == j {
                let w = t[j].1;
                let idx = choose|x: int| 0 <= x < w.len() && w[x] == p;
                assert(t2[j].1[idx] == p);
                assert(t2[j].1.contains(p));
            } else {
                assert(t2[j] == t[j]);
            }
        },
        None => {
            assert(t2[j] == t[j]);
        },
    }
    assert(t2[j].1.contains(p));
}

proof fn lemma_add_records(t: SymtabView, key: Seq<char>, pos: (u32, u32))
    ensures
        exists|j2: int| 0 <= j2 < symtab_add(t, key, pos).len() && #[trigger] symtab_add(t, key, pos)[j2].1.contains(pos),
{
    let t2 = symtab_add(t, key, pos);
    lemma_find_bounds(t, key, 0);
    match symtab_find(t, key, 0) {
        Some(i) => {
            assert(t2[i].1.last() == pos);
            assert(t2[i].1.contains(pos));
        },
        None => {
            assert(t2[t.len() as int].1[0] == pos);
            assert(t2[t.len() as int].1.contains(pos));
        },
    }
}

#[verifier::spinoff_prover]
proof fn lemma_valid_token_keeps(fda: FdaView, st: LexView, at_end: bool)
    requires
        ids_recorded(st.tokens, st.table),
    ensures
        spec_valid_token(fda, st, at_end) matches LexOutcome::Lexed(s) ==> {
            &&& ids_recorded(s.tokens, s.table)
            &&& s.tokens.len() >= st.tokens.len()
            &&& s.tokens.subrange(0, st.tokens.len() as int) == st.tokens
        },
{
    match spec_valid_token(fda, st, at_end) {
        LexOutcome::Lexed(s) => {
            if s.tokens.len() > st.tokens.len() {
                let tt = s.tokens.last().token_type;
                let n = st.tokens.len() as int;
                assert(s.tokens.subrange(0, n) =~= st.tokens);
                assert forall|k: int| #![trigger s.tokens[k]]
                    0 <= k < s.tokens.len() && spec_is_id(s.tokens[k].token_type) implies exists|j: int|
                        0 <= j < s.table.len() && #[trigger] s.table[j].1.contains((s.tokens[k].line as u32, s.tokens[k].column as u32)) by {
                    let p = (s.tokens[k].line as u32, s.tokens[k].column as u32);
                    let pos = (s.tokens.last().line as u32, s.tokens.last().column as u32);
                    if k < n {
                        assert(s.tokens[k] == st.tokens[k]);
                        let j = choose|j: int| 0 <= j < st.table.len() && #[trigger] st.table[j].1.contains(p);
                        if spec_is_id(tt) {
                            assert(s.table == symtab_add(st.table, st.value, pos));
                            lemma_add_keeps(st.table, st.value, pos, p, j);
                        } else {
                            assert(s.table == st.table);
                            assert(s.table[j].1.contains(p));
                        }
                    } else {
                        assert(spec_is_id(tt));
                        assert(p == pos);
                        assert(s.table == symtab_add(st.table, st.value, pos));
                        lemma_add_records(st.table, st.value, p);
                    }
                }
            } else {
                assert(s.tokens.subrange(0, st.tokens.len() as int) =~= st.tokens);
            }
        },
        _ => {},
    }
}

proof fn lemma_lex_char_keeps(fda: FdaView, st: LexView, ch: char)
    requires
        ids_recorded(st.tokens, st.table),
    ensures
        spec_lex_char(fda, st, ch) matches LexOutcome::Lexed(s) ==> {
            &&& ids_recorded(s.tokens, s.table)
            &&& s.tokens.len() >= st.tokens.len()
            &&& s.tokens.subrange(0, st.tokens.len() as int) == st.tokens
        },
{
    let st1 = LexView { column: (st.column + 1) as usize, ..st };
    let st2 = if ch == '"' { LexView { string: !st1.string, ..st1 } } else { st1 };
    assert(st.tokens.subrange(0, st.tokens.len() as int) =~= st.tokens);
    lemma_valid_token_keeps(fda, st2, false);
    match spec_valid_token(fda, st2, false) {
        LexOutcome::Lexed(s1) => {
            lemma_valid_token_keeps(fda, s1, false);
        },
        _ => {},
    }
}

/// Lexing that succeeds keeps the tokens read before, ends the list with
/// the end-of-input token, and leaves the position of every identifier
/// token in the identifier table (when it held for the tokens before).
pub proof fn law_lex_records_ids(fda: FdaView, st: LexView, input: Seq<char>, i: int)
    requires
        ids_recorded(st.tokens, st.table),
    ensures
        spec_lex(fda, st, input, i) matches LexOutcome::Lexed(s) ==> {
            &&& ids_recorded(s.tokens, s.table)
            &&& s.tokens.len() > st.tokens.len()
            &&& s.tokens.subrange(0, st.tokens.len() as int) == st.tokens
            &&& s.tokens.last().token_type == TokenType::Eof
        },
    decreases input.len() - i,
{
    if i < 0 || i >= input.len() {
        lemma_valid_token_keeps(fda, st, true);
        match spec_valid_token(fda, st, true) {
            LexOutcome::Lexed(s) => {
                let s2 = LexView {
                    tokens: s.tokens.push(TokenView { token_type: TokenType::Eof, value: None, line: s.line, column: s.column }),
                    ..s
                };
                assert(s2.tokens.subrange(0, st.tokens.len() as int) =~= s.tokens.subrange(0, st.tokens.len() as int));
                assert forall|k: int| #![trigger s2.tokens[k]]
                    0 <= k < s2.tokens.len() && spec_is_id(s2.tokens[k].token_type) implies exists|j: int|
                        0 <= j < s2.table.len() && #[trigger] s2.table[j].1.contains((s2.tokens[k].line as u32, s2.tokens[k].column as u32)) by {
                    assert(k < s.tokens.len());
                    assert(s2.tokens[k] == s.tokens[k]);
                }
            },
            _ => {},
        }
    } else {
        lemma_lex_char_keeps(fda, st, input[i]);
        match spec_lex_char(fda, st, input[i]) {
            LexOutcome::Lexed(s) => {
                law_lex_records_ids(fda, s, input, i + 1);
                match spec_lex(fda, s, input, i + 1) {
                    LexOutcome::Lexed(s3) => {
                        assert(s3.tokens.subrange(0, st.tokens.len() as int)
                            =~= s3.tokens.subrange(0, s.tokens.len() as int).subrange(0, st.tokens.len() as int));
                    },
                    _ => {},
                }
            },
            _ => {},
        }
    }
}

/// Two characters that read alike outside strings: the same character, or
/// two letters (alphabetic, not whitespace, not a newline) with the same
/// ASCII lowercase; neither is a double quote.
pub open spec fn same_outside_strings(x: char, y: char) -> bool {
    &&& x != '"'
    &&& y != '"'
    &&& (x == y || {
        &&& is_alphabetic_char(x)
        &&& is_alphabetic_char(y)
        &&& !is_white_space(x)
        &&& !is_white_space(y)
        &&& x != '\n'
        &&& y != '\n'
        &&& ascii_lower(x) == ascii_lower(y)
    })
}

proof fn lemma_lex_char_case(fda: FdaView, st: LexView, x: char, y: char)
    requires
        !st.string,
        same_outside_strings(x, y),
    ensures
        spec_lex_char(fda, st, x) == spec_lex_char(fda, st, y),
        spec_lex_char(fda, st, x) matches LexOutcome::Lexed(s) ==> !s.string,
{
}

/// Outside strings the language ignores the case of letters: from a state
/// outside a string, two inputs without double quotes that differ only in
/// the case of letters lex alike.
pub proof fn law_case_insensitive(fda: FdaView, st: LexView, a: Seq<char>, b: Seq<char>, i: int)
    requires
        !st.string,
        a.len() == b.len(),
        0 <= i,
        forall|k: int| 0 <= k < a.len() ==> same_outside_strings(#[trigger] a[k], b[k]),
    ensures
        spec_lex(fda, st, a, i) == spec_lex(fda, st, b, i),
    decreases a.len() - i,
{
    if i < a.len() {
        assert(same_outside_strings(a[i], b[i]));
        lemma_lex_char_case(fda, st, a[i], b[i]);
        match spec_lex_char(fda, st, a[i]) {
            LexOutcome::Lexed(s) => {
                law_case_insensitive(fda, s, a, b, i + 1);
            },
            _ => {},
        }
    }
}

proof fn lemma_ascii_case(x: char, y: char)
    requires
        x != '"',
        y != '"',
        ascii_lower(x) == ascii_lower(y),
    ensures
        same_outside_strings(x, y),
{
    if x != y {
        assert(('A' <= x <= 'Z') || ('A' <= y <= 'Z'));
        assert((x as u32) < 128 && (y as u32) < 128);
    }
}

/// Outside strings letters of any case lex alike: from a state outside a
/// string, two inputs without double quotes that agree once their ASCII
/// letters are lowercased lex alike.
pub proof fn law_ascii_case_insensitive(fda: FdaView, st: LexView, a: Seq<char>, b: Seq<char>)
    requires
        !st.string,
        a.len() == b.len(),
        forall|k: int| 0 <= k < a.len() ==> #[trigger] a[k] != '"' && b[k] != '"'
            && ascii_lower(a[k]) == ascii_lower(b[k]),
    ensures
        spec_lex(fda, st, a, 0) == spec_lex(fda, st, b, 0),
{
    assert forall|k: int| 0 <= k < a.len() implies same_outside_strings(#[trigger] a[k], b[k]) by {
        lemma_ascii_case(a[k], b[k]);
    }
    law_case_insensitive(fda, st, a, b, 0);
}

/// Whether `lx` holds a text for each token of `ts` from which the token can
/// have been read: the value of each token that carries one is the value of
/// its text.
pub open spec fn lexemes_fit(ts: Seq<TokenView>, lx: Seq<Seq<char>>) -> bool {
    &&& lx.len() == ts.len()
    &&& forall|k: int| 0 <= k < ts.len() && spec_has_value(#[trigger] ts[k].token_type)
        ==> ts[k].value == Some(spec_const_from_str(lx[k]))
}

/// The identifier table of a token list whose tokens were read from the
/// texts `lx`: the text of each identifier once, in the order of its first
/// appearance, with the positions of its tokens in the order of the list.
pub open spec fn ids_table(ts: Seq<TokenView>, lx: Seq<Seq<char>>) -> SymtabView
    decreases ts.len(),
{
    if ts.len() == 0 || lx.len() == 0 {
        Seq::empty()
    } else {
        let t = ids_table(ts.drop_last(), lx.drop_last());
        let last = ts.last();
        if spec_is_id(last.token_type) {
            symtab_add(t, lx.last(), (last.line as u32, last.column as u32))
        } else {
            t
        }
    }
}

proof fn lemma_valid_token_table(fda: FdaView, st: LexView, at_end: bool, lx: Seq<Seq<char>>) -> (lx2: Seq<Seq<char>>)
    requires
        lexemes_fit(st.tokens, lx),
        st.table == ids_table(st.tokens, lx),
    ensures
        spec_valid_token(fda, st, at_end) matches LexOutcome::Lexed(s) ==> {
            &&& lexemes_fit(s.tokens, lx2)
            &&& lx.len() <= lx2.len()
            &&& lx2.subrange(0, lx.len() as int) == lx
            &&& s.table == ids_table(s.tokens, lx2)
        },
{
    assert(lx.subrange(0, lx.len() as int) =~= lx);
    match spec_valid_token(fda, st, at_end) {
        LexOutcome::Lexed(s) => {
            if s.tokens.len() > st.tokens.len() {
                let lx2 = lx.push(st.value);
                assert(lx2.subrange(0, lx.len() as int) =~= lx);
                assert(s.tokens.drop_last() =~= st.tokens);
                assert(lx2.drop_last() =~= lx);
                assert forall|k: int| 0 <= k < s.tokens.len() && spec_has_value(#[trigger] s.tokens[k].token_type)
                    implies s.tokens[k].value == Some(spec_const_from_str(lx2[k])) by {
                    if k < st.tokens.len() {
                        assert(s.tokens[k] == st.tokens[k]);
                    }
                }
                lx2
            } else {
                lx
            }
        },
        _ => lx,
    }
}

proof fn lemma_lex_char_table(fda: FdaView, st: LexView, ch: char, lx: Seq<Seq<char>>) -> (lx2: Seq<Seq<char>>)
    requires
        lexemes_fit(st.tokens, lx),
        st.table == ids_table(st.tokens, lx),
    ensures
        spec_lex_char(fda, st, ch) matches LexOutcome::Lexed(s) ==> {
            &&& lexemes_fit(s.tokens, lx2)
            &&& lx.len() <= lx2.len()
            &&& lx2.subrange(0, lx.len() as int) == lx
            &&& s.table == ids_table(s.tokens, lx2)
        },
{
    assert(lx.subrange(0, lx.len() as int) =~= lx);
    let st1 = LexView { column: (st.column + 1) as usize, ..st };
    if ch != '"' && st1.current == fda.initial && is_white_space(ch) {
        lx
    } else {
        let st2 = if ch == '"' { LexView { string: !st1.string, ..st1 } } else { st1 };
        let c = if !st2.string && is_alphabetic_char(ch) { ascii_lower(ch) } else { ch };
        if spec_transition(fda, st2, st2.current, c) is Some {
            lx
        } else {
            lemma_valid_token_table(fda, st2, false, lx)
        }
    }
}

/// Lexing that succeeds leaves in the identifier table exactly the
/// identifiers of the token list: given texts `lx` from which the tokens
/// before were read, and their table, it gives texts `lx2` that extend them,
/// from which the tokens after can have been read, and whose identifier
/// table, each text once in the order of its first appearance with the
/// positions of its tokens in the order of the list, is the table after.
pub proof fn law_lex_table_of_ids(fda: FdaView, st: LexView, input: Seq<char>, i: int, lx: Seq<Seq<char>>) -> (lx2: Seq<Seq<char>>)
    requires
        lexemes_fit(st.tokens, lx),
        st.table == ids_table(st.tokens, lx),
    ensures
        spec_lex(fda, st, input, i) matches LexOutcome::Lexed(s) ==> {
            &&& lexemes_fit(s.tokens, lx2)
            &&& lx.len() <= lx2.len()
            &&& lx2.subrange(0, lx.len() as int) == lx
            &&& s.table == ids_table(s.tokens, lx2)
        },
    decreases input.len() - i,
{
    if i < 0 || i >= input.len() {
        let lx1 = lemma_valid_token_table(fda, st, true, lx);
        match spec_valid_token(fda, st, true) {
            LexOutcome::Lexed(s) => {
                let s2 = LexView {
                    tokens: s.tokens.push(TokenView { token_type: TokenType::Eof, value: None, line: s.line, column: s.column }),
                    ..s
                };
                let lx3 = lx1.push(Seq::<char>::empty());
                assert(s2.tokens.drop_last() =~= s.tokens);
                assert(lx3.drop_last() =~= lx1);
                assert(lx3.subrange(0, lx.len() as int) =~= lx1.subrange(0, lx.len() as int));
                assert forall|k: int| 0 <= k < s2.tokens.len() && spec_has_value(#[trigger] s2.tokens[k].token_type)
                    implies s2.tokens[k].value == Some(spec_const_from_str(lx3[k])) by {
                    if k < s.tokens.len() {
                        assert(s2.tokens[k] == s.tokens[k]);
                    }
                }
                lx3
            },
            _ => lx,
        }
    } else {
        let lx1 = lemma_lex_char_table(fda, st, input[i], lx);
        match spec_lex_char(fda, st, input[i]) {
            LexOutcome::Lexed(s) => {
                let lx3 = law_lex_table_of_ids(fda, s, input, i + 1, lx1);
                if spec_lex(fda, s, input, i + 1) is Lexed {
                    assert(lx3.subrange(0, lx.len() as int) =~= lx3.subrange(0, lx1.len() as int).subrange(0, lx.len() as int));
                }
                lx3
            },
            _ => lx,
        }
    }
}

/// The text of a token list: each token as [`token_debug_text`] writes it, on a line of
/// its own.
pub open spec fn token_list_text(ts: Seq<TokenView>) -> Seq<char>
    decreases ts.len(),
{
    if ts.len() == 0 {
        Seq::empty()
    } else {
        token_list_text(ts.drop_last()) + token_debug_text(ts.last()) + "\n"@
    }
}

/// How `{:?}` writes a position: `(line, column)`.
pub open spec fn position_text(p: (u32, u32)) -> Seq<char> {
    "("@ + dec_digits(p.0 as nat) + ", "@ + dec_digits(p.1 as nat) + ")"@
}

/// The positions `ps[..k]`, separated by `", "`.
pub open spec fn positions_upto(ps: Seq<(u32, u32)>, k: int) -> Seq<char>
    decreases k,
{
    if k <= 0 {
        Seq::empty()
    } else if k == 1 {
        position_text(ps[0])
    } else {
        positions_upto(ps, k - 1) + ", "@ + position_text(ps[k - 1])
    }
}

/// The text of an identifier table: for each identifier, `name: ` and its
/// list of positions as `{:?}` writes it, on a line of its own.
pub open spec fn token_table_text(t: SymtabView) -> Seq<char>
    decreases t.len(),
{
    if t.len() == 0 {
        Seq::empty()
    } else {
        token_table_text(t.drop_last()) + t.last().0 + ": ["@
            + positions_upto(t.last().1, t.last().1.len() as int) + "]\n"@
    }
}

fn push_positions(out: &mut String, ps: &Vec<(u32, u32)>)
    ensures
        final(out)@ == old(out)@ + positions_upto(ps@, ps@.len() as int),
{
    let mut i: usize = 0;
    while i < ps.len()
        invariant
            i <= ps@.len(),
            out@ == old(out)@ + positions_upto(ps@, i as int),
        decreases ps.len() - i,
    {
        let ghost pre = out@;
        if i > 0 {
            out.append(", ");
        }
        out.append("(");
        push_u64(out, ps[i].0 as u64);
        out.append(", ");
        push_u64(out, ps[i].1 as u64);
        out.append(")");
        if i > 0 {
            assert(out@ =~= pre + ", "@ + position_text(ps@[i as int]));
        } else {
            assert(out@ =~= pre + position_text(ps@[i as int]));
        }
        i = i + 1;
    }
}

impl Lexer {
    /// The token list as it is saved: each token as [`token_debug_text`] writes it, on a
    /// line of its own.
    pub fn save_token_list(&self) -> (s: String)
        ensures
            s@ == token_list_text(self.lex_view().tokens),
    {
        let mut s = String::new();
        let mut i: usize = 0;
        let ghost ts = tokens_view(self.token_list@);
        while i < self.token_list.len()
            invariant
                ts == tokens_view(self.token_list@),
                ts == self.lex_view().tokens,
                i <= self.token_list@.len(),
                s@ == token_list_text(ts.subrange(0, i as int)),
            decreases self.token_list.len() - i,
        {
            let d = self.token_list[i].debug_string();
            s.append(d.as_str());
            s.append("\n");
            assert(ts.subrange(0, i + 1).drop_last() =~= ts.subrange(0, i as int));
            i = i + 1;
        }
        assert(ts.subrange(0, ts.len() as int) =~= ts);
        s
    }

    /// The identifier table as it is saved: for each identifier, in the
    /// order of first appearance, its name and its positions.
    pub fn save_token_table(&self) -> (s: String)
        ensures
            s@ == token_table_text(self.lex_view().table),
    {
        let mut s = String::new();
        let mut i: usize = 0;
        let ghost tv = symtab_view(self.token_table@);
        while i < self.token_table.len()
            invariant
                tv == symtab_view(self.token_table@),
                tv == self.lex_view().table,
                i <= self.token_table@.len(),
                s@ == token_table_text(tv.subrange(0, i as int)),
            decreases self.token_table.len() - i,
        {
            let ghost pre = s@;
            s.append(self.token_table[i].0.as_str());
            s.append(": [");
            push_positions(&mut s, &self.token_table[i].1);
            s.append("]\n");
            assert(tv.subrange(0, i + 1).drop_last() =~= tv.subrange(0, i as int));
            assert(s@ =~= pre + tv[i as int].0 + ": ["@ + positions_upto(tv[i as int].1, tv[i as int].1.len() as int) + "]\n"@);
            i = i + 1;
        }
        assert(tv.subrange(0, tv.len() as int) =~= tv);
        s
    }

    /// The automaton that the lexer runs.
    pub open spec fn automaton(&self) -> FDA {
        self.fda
    }

    /// The state of the lexer.
    pub open spec fn lex_view(&self) -> LexView {
        LexView {
            line: self.line_count,
            column: self.column_count,
            value: self.token_value@,
            string: self.string,
            current: self.current_state,
            tokens: tokens_view(self.token_list@),
            table: symtab_view(self.token_table@),
        }
    }

    /// A lexer at the start of the input: line 1, column 0, in state 0, with
    /// no token read.
    pub fn new(fda: FDA) -> (r: Lexer)
        ensures
            r.automaton() == fda,
            r.lex_view() == (LexView {
                line: 1, column: 0, value: Seq::empty(), string: false, current: 0,
                tokens: Seq::empty(), table: Seq::empty(),
            }),
    {
        let r = Lexer {
            fda,
            token_list: Vec::new(),
            token_table: Vec::new(),
            line_count: 1,
            column_count: 0,
            token_value: String::new(),
            string: false,
            current_state: 0,
        };
        assert(r.lex_view().tokens =~= Seq::<TokenView>::empty());
        assert(r.lex_view().table =~= Seq::<(Seq<char>, Seq<(u32, u32)>)>::empty());
        r
    }

    fn lexical_error(&self) -> (e: LexicalError)
        ensures
            e.line == self.lex_view().line,
            e.column == self.lex_view().column,
            e.value@ == self.lex_view().value,
    {
        LexicalError { line: self.line_count, column: self.column_count, value: self.token_value.clone() }
    }

    fn find_entry(&self, key: &str) -> (r: Option<usize>)
        ensures
            match r {
                Some(j) => symtab_find(symtab_view(self.token_table@), key@, 0) == Some(j as int) && j < self.token_table@.len(),
                None => symtab_find(symtab_view(self.token_table@), key@, 0) is None,
            },
    {
        let ghost tv = symtab_view(self.token_table@);
        let mut i: usize = 0;
        while i < self.token_table.len()
            invariant
                i <= self.token_table@.len(),
                tv == symtab_view(self.token_table@),
                symtab_find(tv, key@, 0) == symtab_find(tv, key@, i as int),
            decreases self.token_table.len() - i,
        {
            if str_eq(self.token_table[i].0.as_str(), key) {
                return Some(i);
            }
            i = i + 1;
        }
        None
    }

    /// Ends the token being read (see [`spec_valid_token`]); `None` aborts.
    fn is_valid_token(&mut self, at_end: bool) -> (r: Option<Result<(), LexicalError>>)
        requires
            at_end ==> old(self).lex_view().column < usize::MAX,
        ensures
            final(self).automaton() == old(self).automaton(),
            match spec_valid_token(old(self).automaton()@, old(self).lex_view(), at_end) {
                LexOutcome::Lexed(s) => r == Some(Ok::<(), LexicalError>(())) && final(self).lex_view() == s,
                LexOutcome::Failed(s) => r is Some && r->Some_0 is Err && final(self).lex_view() == s
                    && r->Some_0->Err_0.line == s.line && r->Some_0->Err_0.column == s.column
                    && r->Some_0->Err_0.value@ == s.value,
                LexOutcome::Abort => r is None,
            },
    {
        let ghost st = self.lex_view();
        match self.fda.accepts(self.current_state) {
            Some(token_type) => {
                let n = self.token_value.as_str().unicode_len();
                if n > self.column_count {
                    return None;
                }
                let column = if at_end { self.column_count - n + 1 } else { self.column_count - n };
                let value = if token_type.has_value() {
                    Some(ConstType::from_str(self.token_value.as_str()))
                } else {
                    None
                };
                let token = Token { token_type, value, line: self.line_count, column };
                if token_type.is_id() {
                    let pos = (token.line as u32, token.column as u32);
                    match self.find_entry(self.token_value.as_str()) {
                        Some(j) => {
                            let ghost t0 = symtab_view(self.token_table@);
                            self.token_table[j].1.push(pos);
                            assert(symtab_view(self.token_table@) =~~= t0.update(j as int, (t0[j as int].0, t0[j as int].1.push(pos))));
                        },
                        None => {
                            let ghost t0 = symtab_view(self.token_table@);
                            let mut entry: TokenEntry = Vec::new();
                            entry.push(pos);
                            self.token_table.push((self.token_value.clone(), entry));
                            assert(entry@ =~= seq![pos]);
                            assert(symtab_view(self.token_table@) =~~= t0.push((st.value, seq![pos])));
                        },
                    }
                }
                let ghost l0 = self.token_list@;
                self.token_list.push(token);
                assert(tokens_view(self.token_list@) =~= tokens_view(l0).push(token@));
                Some(Ok(()))
            },
            None => {
                if self.token_value.as_str().unicode_len() > 0 {
                    return Some(Err(self.lexical_error()));
                }
                Some(Ok(()))
            },
        }
    }

    /// Moves from `state` on `character` (see [`spec_transition`]).
    fn transition(&mut self, state: State, character: char) -> (r: bool)
        ensures
            final(self).automaton() == old(self).automaton(),
            match spec_transition(old(self).automaton()@, old(self).lex_view(), state, character) {
                Some(s) => r && final(self).lex_view() == s,
                None => !r && final(self).lex_view() == old(self).lex_view(),
            },
    {
        let next = match self.fda.transtion(state, character) {
            Some(n) => *n,
            None => return false,
        };
        self.current_state = next;
        if !char_is_whitespace(character) || self.current_state != self.fda.initial_state {
            string_push(&mut self.token_value, character);
        }
        true
    }

    fn newline(&mut self, ch: char)
        requires
            old(self).lex_view().line < usize::MAX,
        ensures
            final(self).automaton() == old(self).automaton(),
            final(self).lex_view() == after_newline(old(self).lex_view(), ch),
    {
        if ch == '\n' {
            self.line_count += 1;
            self.column_count = 0;
        }
    }

    /// Reads one character (see [`spec_lex_char`]); `None` aborts.
    fn lex_char(&mut self, ch: char) -> (r: Option<Result<(), LexicalError>>)
        requires
            old(self).lex_view().line < usize::MAX,
            old(self).lex_view().column < usize::MAX,
        ensures
            final(self).automaton() == old(self).automaton(),
            match spec_lex_char(old(self).automaton()@, old(self).lex_view(), ch) {
                LexOutcome::Lexed(s) => r == Some(Ok::<(), LexicalError>(())) && final(self).lex_view() == s,
                LexOutcome::Failed(s) => r is Some && r->Some_0 is Err && final(self).lex_view() == s
                    && r->Some_0->Err_0.line == s.line && r->Some_0->Err_0.column == s.column
                    && r->Some_0->Err_0.value@ == s.value,
                LexOutcome::Abort => r is None,
            },
    {
        self.column_count += 1;
        if ch == '"' {
            self.string = !self.string;
        } else if self.current_state == self.fda.initial_state && char_is_whitespace(ch) {
            self.newline(ch);
            return Some(Ok(()));
        }
        let character = if !self.string && char_is_alphabetic(ch) { lower_char(ch) } else { ch };
        if !self.transition(self.current_state, character) {
            match self.is_valid_token(false) {
                None => return None,
                Some(Err(e)) => return Some(Err(e)),
                Some(Ok(())) => {},
            }
            self.token_value = String::new();
            if !self.transition(self.fda.initial_state, character) {
                return Some(Err(self.lexical_error()));
            }
        }
        self.newline(ch);
        Some(Ok(()))
    }

    /// Reads the whole input (see [`spec_lex`]); `None` where lexing aborts.
    pub fn try_parse(&mut self, input: &str) -> (r: Option<Result<(), LexicalError>>)
        requires
            old(self).lex_view().line + input@.len() < usize::MAX,
            old(self).lex_view().column + input@.len() < usize::MAX,
        ensures
            final(self).automaton() == old(self).automaton(),
            match spec_lex(old(self).automaton()@, old(self).lex_view(), input@, 0) {
                LexOutcome::Lexed(s) => r == Some(Ok::<(), LexicalError>(())) && final(self).lex_view() == s,
                LexOutcome::Failed(s) => r is Some && r->Some_0 is Err && final(self).lex_view() == s
                    && r->Some_0->Err_0.line == s.line && r->Some_0->Err_0.column == s.column
                    && r->Some_0->Err_0.value@ == s.value,
                LexOutcome::Abort => r is None,
            },
    {
        let chars = str_chars(input);
        let ghost l0 = self.lex_view().line;
        let ghost c0 = self.lex_view().column;
        let mut i: usize = 0;
        while i < chars.len()
            invariant
                chars@ == input@,
                i <= chars@.len(),
                self.automaton() == old(self).automaton(),
                self.lex_view().line <= l0 + i,
                self.lex_view().column <= c0 + i,
                l0 + input@.len() < usize::MAX,
                c0 + input@.len() < usize::MAX,
                spec_lex(old(self).automaton()@, old(self).lex_view(), input@, 0) == spec_lex(self.automaton()@, self.lex_view(), input@, i as int),
            decreases chars.len() - i,
        {
            match self.lex_char(chars[i]) {
                None => return None,
                Some(Err(e)) => return Some(Err(e)),
                Some(Ok(())) => {},
            }
            i = i + 1;
        }
        match self.is_valid_token(true) {
            None => return None,
            Some(Err(e)) => return Some(Err(e)),
            Some(Ok(())) => {},
        }
        let ghost l0 = self.token_list@;
        self.token_list.push(Token { token_type: TokenType::Eof, value: None, line: self.line_count, column: self.column_count });
        assert(tokens_view(self.token_list@) =~= tokens_view(l0).push(TokenView {
            token_type: TokenType::Eof, value: None, line: self.line_count, column: self.column_count,
        }));
        Some(Ok(()))
    }

    /// Reads the whole input, where lexing does not abort (see [`spec_lex`]).
    pub fn parse(&mut self, input: &str) -> (r: Result<(), LexicalError>)
        requires
            old(self).lex_view().line + input@.len() < usize::MAX,
            old(self).lex_view().column + input@.len() < usize::MAX,
            !(spec_lex(old(self).automaton()@, old(self).lex_view(), input@, 0) is Abort),
        ensures
            final(self).automaton() == old(self).automaton(),
            match spec_lex(old(self).automaton()@, old(self).lex_view(), input@, 0) {
                LexOutcome::Lexed(s) => r is Ok && final(self).lex_view() == s,
                LexOutcome::Failed(s) => r is Err && final(self).lex_view() == s
                    && r->Err_0.line == s.line && r->Err_0.column == s.column && r->Err_0.value@ == s.value,
                LexOutcome::Abort => false,
            },
    {
        match self.try_parse(input) {
            Some(r) => r,
            None => Ok(()),
        }
    }
}

} // verus!
