//! The deterministic finite automaton that recognises the tokens of the
//! language: transitions on characters, with a wildcard transition on the
//! character `'\0'`, and the token kind that each final state accepts.

use vstd::prelude::*;
use std::collections::HashMap;
use crate::token_type::{TokenType, token_of_name};
use crate::split::{strings_view, spec_split, spec_lines, spec_parse_u32, split_on, lines_of, parse_u32};

verus! {

broadcast use vstd::std_specs::hash::group_hash_axioms;

/// A state of the automaton.
pub type State = u32;

/// A symbol that the automaton reads.
pub type Symbol = char;

/// The number that a big-endian sequence of bytes denotes.
pub open spec fn bytes_value(s: Seq<u8>) -> nat
    decreases s.len(),
{
    if s.len() == 0 {
        0
    } else {
        bytes_value(s.drop_last()) * 256 + (s.last() as nat)
    }
}

proof fn lemma_bytes_value_prefix(s: Seq<u8>, k: int)
    requires
        0 <= k <= s.len(),
    ensures
        bytes_value(s.subrange(0, k)) <= bytes_value(s),
    decreases s.len() - k,
{
    if k < s.len() {
        lemma_bytes_value_prefix(s, k + 1);
        assert(s.subrange(0, k + 1).drop_last() =~= s.subrange(0, k));
    } else {
        assert(s.subrange(0, k) =~= s);
    }
}

/// Reads a big-endian unsigned integer from bytes.
pub fn byte_vec_into_u32(vec: &[u8]) -> (r: u32)
    requires
        bytes_value(vec@) <= u32::MAX,
    ensures
        r == bytes_value(vec@),
{
    let mut result: u32 = 0;
    let mut i: usize = 0;
    while i < vec.len()
        invariant
            i <= vec@.len(),
            bytes_value(vec@) <= u32::MAX,
            result == bytes_value(vec@.subrange(0, i as int)),
        decreases vec.len() - i,
    {
        proof {
            lemma_bytes_value_prefix(vec@, i + 1);
            assert(vec@.subrange(0, i + 1).drop_last() =~= vec@.subrange(0, i as int));
        }
        result = result * 256;
        result = result + vec[i] as u32;
        i = i + 1;
    }
    assert(vec@.subrange(0, vec@.len() as int) =~= vec@);
    result
}

/// The key under which a transition is stored: the state in the high 32
/// bits, the symbol's code point in the low ones.
pub open spec fn transition_key(state: State, symbol: Symbol) -> u64 {
    (state as int * 0x1_0000_0000 + symbol as int) as u64
}

fn key_of(state: State, symbol: Symbol) -> (k: u64)
    ensures
        k == transition_key(state, symbol),
{
    let c = symbol as u32;
    (state as u64) * 0x1_0000_0000u64 + (c as u64)
}

/// The automaton.
pub struct FDA {
    pub initial_state: State,
    pub transitions: HashMap<u64, State>,
    pub token_table: HashMap<State, TokenType>,
}

/// The mathematical view of the automaton.
pub struct FdaView {
    pub initial: State,
    pub transitions: Map<u64, State>,
    pub token_table: Map<State, TokenType>,
}

impl View for FDA {
    type V = FdaView;

    open spec fn view(&self) -> FdaView {
        FdaView { initial: self.initial_state, transitions: self.transitions@, token_table: self.token_table@ }
    }
}

/// The state reached from `state` on `symbol`: by the transition on that
/// symbol, else by the wildcard transition (on `'\0'`), else none.
pub open spec fn spec_step(t: Map<u64, State>, state: State, symbol: Symbol) -> Option<State> {
    if t.contains_key(transition_key(state, symbol)) {
        Some(t[transition_key(state, symbol)])
    } else if t.contains_key(transition_key(state, '\0')) {
        Some(t[transition_key(state, '\0')])
    } else {
        None
    }
}

/// The token kind that a state accepts, if it is final.
pub open spec fn spec_accepts(t: Map<State, TokenType>, state: State) -> Option<TokenType> {
    if t.contains_key(state) {
        Some(t[state])
    } else {
        None
    }
}

impl FDA {
    /// The state reached from `state` on `symbol` (see [`spec_step`]).
    pub fn transtion(&self, state: State, symbol: Symbol) -> (r: Option<&State>)
        ensures
            match spec_step(self.transitions@, state, symbol) {
                Some(s) => r is Some && *r->Some_0 == s,
                None => r is None,
            },
    {
        let k = key_of(state, symbol);
        if self.transitions.contains_key(&k) {
            self.transitions.get(&k)
        } else {
            let w = key_of(state, '\0');
            if self.transitions.contains_key(&w) {
                self.transitions.get(&w)
            } else {
                None
            }
        }
    }

    /// The token kind that `state` accepts, if it is final.
    pub fn accepts(&self, state: State) -> (r: Option<TokenType>)
        ensures
            r == spec_accepts(self.token_table@, state),
    {
        match self.token_table.get(&state) {
            Some(t) => Some(*t),
            None => None,
        }
    }
}

/// Why automaton data cannot be read: no bytes at all, a state that does
/// not fit in a `u32`, a token-table line without exactly one `:`, a state
/// that is not a `u32`, or a name that denotes no token kind.
#[derive(Clone, Copy, Debug, PartialEq, Eq, Structural)]
pub enum FdaError {
    Empty,
    StateTooLarge,
    InvalidLine,
    InvalidState,
    InvalidToken,
}

/// The transitions stored in `raw[i..]`, each `2 * size + 1` bytes long: the
/// state (`size` bytes, big-endian), the symbol (one byte, read as the
/// character of that code point) and the next state; an incomplete last
/// group is ignored and a later transition for the same key replaces an
/// earlier one. `None` where a state does not fit in a `u32`.
pub open spec fn transitions_from(raw: Seq<u8>, size: nat, i: nat, m: Map<u64, State>) -> Option<Map<u64, State>>
    decreases raw.len() - i,
{
    if i >= raw.len() || i + 2 * size + 1 > raw.len() {
        Some(m)
    } else {
        let a = i as int;
        let z = size as int;
        let st = bytes_value(raw.subrange(a, a + z));
        let next = bytes_value(raw.subrange(a + z + 1, a + 2 * z + 1));
        if st > u32::MAX || next > u32::MAX {
            None
        } else {
            transitions_from(
                raw,
                size,
                i + 2 * size + 1,
                m.insert(transition_key(st as State, raw[a + z] as char), next as State),
            )
        }
    }
}

/// What a line of the token table gives: `STATE:TOKEN`.
pub open spec fn token_table_line(line: Seq<char>) -> Result<(State, TokenType), FdaError> {
    let parts = spec_split(line, ':');
    if parts.len() != 2 {
        Err(FdaError::InvalidLine)
    } else {
        match spec_parse_u32(parts[0]) {
            None => Err(FdaError::InvalidState),
            Some(st) => match token_of_name(parts[1]) {
                None => Err(FdaError::InvalidToken),
                Some(t) => Ok((st, t)),
            },
        }
    }
}

/// The token table of the lines `ls[..k]`, or the first error.
pub open spec fn token_table_upto(ls: Seq<Seq<char>>, k: int) -> Result<Map<State, TokenType>, FdaError>
    decreases k,
{
    if k <= 0 {
        Ok(Map::empty())
    } else {
        match token_table_upto(ls, k - 1) {
            Ok(m) => match token_table_line(ls[k - 1]) {
                Ok(e) => Ok(m.insert(e.0, e.1)),
                Err(e) => Err(e),
            },
            Err(e) => Err(e),
        }
    }
}

/// The automaton that the data describe: the first byte of `raw` is the
/// size of a state, the transitions follow; the table text gives the token
/// kind of each final state. The initial state is 0.
pub open spec fn fda_of_data(raw: Seq<u8>, table: Seq<char>) -> Result<FdaView, FdaError> {
    if raw.len() == 0 {
        Err(FdaError::Empty)
    } else {
        match transitions_from(raw, raw[0] as nat, 1, Map::empty()) {
            None => Err(FdaError::StateTooLarge),
            Some(t) => {
                let ls = spec_lines(table);
                match token_table_upto(ls, ls.len() as int) {
                    Err(e) => Err(e),
                    Ok(tt) => Ok(FdaView { initial: 0, transitions: t, token_table: tt }),
                }
            },
        }
    }
}

proof fn lemma_token_table_stop(ls: Seq<Seq<char>>, k: int, n: int)
    requires
        0 <= k <= n,
        token_table_upto(ls, k) is Err,
    ensures
        token_table_upto(ls, n) == token_table_upto(ls, k),
    decreases n - k,
{
    if n > k {
        lemma_token_table_stop(ls, k, n - 1);
    }
}

/// `256` to the power `n`.
pub open spec fn pow256(n: nat) -> nat
    decreases n,
{
    if n == 0 {
        1
    } else {
        256 * pow256((n - 1) as nat)
    }
}

proof fn lemma_bytes_value_lt(s: Seq<u8>)
    ensures
        bytes_value(s) < pow256(s.len()),
    decreases s.len(),
{
    if s.len() > 0 {
        lemma_bytes_value_lt(s.drop_last());
    }
}

proof fn lemma_bytes_value_bound(s: Seq<u8>)
    ensures
        s.len() <= 4 ==> bytes_value(s) <= u32::MAX,
{
    lemma_bytes_value_lt(s);
    reveal_with_fuel(pow256, 5);
}

fn token_entry(line: &str) -> (r: Result<(State, TokenType), FdaError>)
    ensures
        r == token_table_line(line@),
{
    let parts = split_on(line, ':');
    proof {
        assert(strings_view(parts@).len() == parts@.len());
    }
    if parts.len() != 2 {
        return Err(FdaError::InvalidLine);
    }
    assert(strings_view(parts@)[0] == parts@[0]@);
    assert(strings_view(parts@)[1] == parts@[1]@);
    let st = match parse_u32(parts[0].as_str()) {
        Some(v) => v,
        None => return Err(FdaError::InvalidState),
    };
    match TokenType::from_str(parts[1].as_str()) {
        Ok(t) => Ok((st, t)),
        Err(_) => Err(FdaError::InvalidToken),
    }
}

impl FDA {
    /// Reads an automaton from its transition bytes and its token table (see
    /// [`fda_of_data`]).
    pub fn from_data(raw: &[u8], table: &str) -> (r: Result<FDA, FdaError>)
        ensures
            match fda_of_data(raw@, table@) {
                Ok(v) => r matches Ok(x) && x@ == v,
                Err(e) => r matches Err(x) && x == e,
            },
    {
        if raw.len() == 0 {
            return Err(FdaError::Empty);
        }
        let size = raw[0] as usize;
        let ghost sz = raw@[0] as nat;
        let mut transitions: HashMap<u64, State> = HashMap::new();
        let mut i: usize = 1;
        while i < raw.len() && raw.len() - i >= 2 * size + 1
            invariant
                size == sz,
                sz == raw@[0] as nat,
                sz < 256,
                1 <= i,
                transitions_from(raw@, sz, 1, Map::empty()) == transitions_from(raw@, sz, i as nat, transitions@),
            decreases raw.len() - i,
        {
            let state_bytes = vstd::slice::slice_subrange(raw, i, i + size);
            let next_bytes = vstd::slice::slice_subrange(raw, i + size + 1, i + 2 * size + 1);
            if size > 4 {
                if !fits_u32(state_bytes) || !fits_u32(next_bytes) {
                    return Err(FdaError::StateTooLarge);
                }
            }
            proof {
                lemma_bytes_value_bound(state_bytes@);
                lemma_bytes_value_bound(next_bytes@);
            }
            let state = byte_vec_into_u32(state_bytes);
            let symbol = raw[i + size] as char;
            let next = byte_vec_into_u32(next_bytes);
            let k = key_of(state, symbol);
            transitions.insert(k, next);
            i = i + 2 * size + 1;
        }
        let ghost tr = transitions@;
        let ls = lines_of(table);
        let ghost lv = strings_view(ls@);
        let mut token_table: HashMap<State, TokenType> = HashMap::new();
        let mut j: usize = 0;
        while j < ls.len()
            invariant
                lv == strings_view(ls@),
                lv.len() == ls@.len(),
                lv == spec_lines(table@),
                j <= ls@.len(),
                transitions_from(raw@, raw@[0] as nat, 1, Map::empty()) == Some(tr),
                transitions@ == tr,
                raw@.len() > 0,
                token_table_upto(lv, j as int) == Ok::<Map<State, TokenType>, FdaError>(token_table@),
            decreases ls.len() - j,
        {
            assert(lv[j as int] == ls@[j as int]@);
            match token_entry(ls[j].as_str()) {
                Ok(e) => {
                    token_table.insert(e.0, e.1);
                },
                Err(e) => {
                    proof { lemma_token_table_stop(lv, j + 1, lv.len() as int); }
                    return Err(e);
                },
            }
            j = j + 1;
        }
        Ok(FDA { initial_state: 0, transitions, token_table })
    }
}

/// Whether a big-endian byte sequence denotes a number that fits in a `u32`.
fn fits_u32(v: &[u8]) -> (r: bool)
    ensures
        r == (bytes_value(v@) <= u32::MAX),
{
    let mut i: usize = 0;
    let mut acc: u64 = 0;
    while i < v.len()
        invariant
            i <= v@.len(),
            acc == bytes_value(v@.subrange(0, i as int)),
            acc <= u32::MAX,
        decreases v.len() - i,
    {
        assert(v@.subrange(0, i + 1).drop_last() =~= v@.subrange(0, i as int));
        let nacc = acc * 256 + v[i] as u64;
        if nacc > 0xffff_ffffu64 {
            proof { lemma_bytes_value_prefix(v@, i + 1); }
            return false;
        }
        acc = nacc;
        i = i + 1;
    }
    assert(v@.subrange(0, v@.len() as int) =~= v@);
    true
}

} // verus!
