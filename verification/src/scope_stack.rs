//! The stack of scopes of semantic analysis. Each scope has a type and a
//! table of the symbols declared in it, in the order of their declaration.

use vstd::prelude::*;
use crate::const_type::{VarType, var_type_debug};
use crate::text::{str_eq, dec_digits, push_u64};
use crate::semantic_error::{SemanticError, SemanticErrorKind, SemanticErrorView, error_view};

verus! {

/// What opened a scope.
#[derive(Debug, Clone, Copy, PartialEq, Eq, Hash, Structural)]
pub enum ScopeType {
    Function,
    Loop,
    LoopInit,
    If,
    Else,
    Any,
}

/// What a scope knows of a symbol: where it appears (line, column), its type
/// (for a function, the types of its parameters) and, for an array, its
/// dimensions.
#[derive(Debug, Clone, PartialEq)]
pub struct SymbolEntry {
    pub appearances: Vec<(usize, usize)>,
    pub var_type: Vec<VarType>,
    pub const_index: Vec<u32>,
}

/// The mathematical view of a symbol entry.
pub struct EntryView {
    pub appearances: Seq<(usize, usize)>,
    pub var_type: Seq<VarType>,
    pub const_index: Seq<u32>,
}

impl View for SymbolEntry {
    type V = EntryView;

    open spec fn view(&self) -> EntryView {
        EntryView {
            appearances: self.appearances@,
            var_type: self.var_type@,
            const_index: self.const_index@,
        }
    }
}

/// The symbols of one scope, in the order of their declaration.
pub type SymbolTable = Vec<(String, SymbolEntry)>;

/// A scope: its type and its symbols.
pub type Scope = (ScopeType, SymbolTable);

/// The view of a symbol table.
pub type TableView = Seq<(Seq<char>, EntryView)>;

/// The view of a scope.
pub type ScopeView = (ScopeType, TableView);

/// The view of a symbol table.
pub open spec fn table_view(t: Seq<(String, SymbolEntry)>) -> TableView {
    t.map_values(|p: (String, SymbolEntry)| (p.0@, p.1@))
}

/// The view of a scope.
pub open spec fn scope_view(s: Scope) -> ScopeView {
    (s.0, table_view(s.1@))
}

/// The stack of scopes, innermost last, and the log of the scopes that were
/// closed, in the order of closing (`None` where a close found no scope).
pub struct ScopeStack {
    pub stack: Vec<Scope>,
    pub log: Vec<Option<Scope>>,
}

/// The mathematical view of a scope stack.
pub struct ScopesView {
    pub stack: Seq<ScopeView>,
    pub log: Seq<Option<ScopeView>>,
}

impl View for ScopeStack {
    type V = ScopesView;

    open spec fn view(&self) -> ScopesView {
        ScopesView {
            stack: self.stack@.map_values(|s: Scope| scope_view(s)),
            log: self.log@.map_values(|o: Option<Scope>| match o {
                Some(s) => Some(scope_view(s)),
                None => None,
            }),
        }
    }
}

/// The first position, from `i` on, of a symbol named `name` in a table.
pub open spec fn find_from(t: TableView, name: Seq<char>, i: int) -> Option<int>
    decreases t.len() - i,
{
    if i < 0 || i >= t.len() {
        None
    } else if t[i].0 == name {
        Some(i)
    } else {
        find_from(t, name, i + 1)
    }
}

/// The innermost scope that declares `name`, and the position of `name` in
/// its table.
pub open spec fn stack_find(s: Seq<ScopeView>, name: Seq<char>) -> Option<(int, int)>
    decreases s.len(),
{
    if s.len() == 0 {
        None
    } else {
        match find_from(s.last().1, name, 0) {
            Some(j) => Some(((s.len() - 1) as int, j)),
            None => stack_find(s.drop_last(), name),
        }
    }
}

/// What the innermost scope that declares `name` knows of it.
pub open spec fn spec_lookup(s: Seq<ScopeView>, name: Seq<char>) -> Option<EntryView> {
    match stack_find(s, name) {
        Some((k, j)) => Some(s[k].1[j].1),
        None => None,
    }
}

/// The stack after recording an appearance of `name` at `pos`, in the
/// innermost scope that declares it; `None` when no scope declares it.
pub open spec fn spec_count(s: Seq<ScopeView>, name: Seq<char>, pos: (usize, usize)) -> Option<Seq<ScopeView>> {
    match stack_find(s, name) {
        Some((k, j)) => {
            let e = s[k].1[j].1;
            let e2 = EntryView { appearances: e.appearances.push(pos), var_type: e.var_type, const_index: e.const_index };
            Some(s.update(k, (s[k].0, s[k].1.update(j, (s[k].1[j].0, e2)))))
        },
        None => None,
    }
}

/// The error for an appearance of an undeclared symbol.
pub open spec fn not_found_error(name: Seq<char>, line: usize, column: usize) -> SemanticErrorView {
    error_view(SemanticErrorKind::SymbolNotFound, name, line, column, None)
}

/// The position reported for a redefinition: the last appearance in the new
/// entry, or (0, 0) when it has none.
pub open spec fn redefinition_pos(e: EntryView) -> (usize, usize) {
    if e.appearances.len() == 0 {
        (0, 0)
    } else {
        e.appearances.last()
    }
}

/// The error for declaring `name` twice in one scope.
pub open spec fn redefinition_error(name: Seq<char>, e: EntryView) -> SemanticErrorView {
    error_view(SemanticErrorKind::Redefinition, name, redefinition_pos(e).0, redefinition_pos(e).1, None)
}

/// Whether some scope of the stack has the given type.
pub open spec fn spec_contains(s: Seq<ScopeView>, t: ScopeType) -> bool {
    exists|i: int| 0 <= i < s.len() && #[trigger] s[i].0 == t
}

fn copy_vec<T: Copy>(v: &Vec<T>) -> (r: Vec<T>)
    ensures
        r@ == v@,
{
    let mut r: Vec<T> = Vec::new();
    let mut i: usize = 0;
    while i < v.len()
        invariant
            i <= v@.len(),
            r@ == v@.subrange(0, i as int),
        decreases v.len() - i,
    {
        r.push(v[i]);
        assert(r@ =~= v@.subrange(0, i + 1));
        i = i + 1;
    }
    assert(r@ =~= v@);
    r
}

impl SymbolEntry {
    /// A copy of this entry.
    pub fn duplicate(&self) -> (r: SymbolEntry)
        ensures
            r@ == self@,
    {
        SymbolEntry {
            appearances: copy_vec(&self.appearances),
            var_type: copy_vec(&self.var_type),
            const_index: copy_vec(&self.const_index),
        }
    }
}

/// A copy of a scope.
pub fn duplicate_scope(s: &Scope) -> (r: Scope)
    ensures
        scope_view(r) == scope_view(*s),
{
    let mut t: SymbolTable = Vec::new();
    let mut i: usize = 0;
    while i < s.1.len()
        invariant
            i <= s.1@.len(),
            t@.len() == i,
            table_view(t@) == table_view(s.1@.subrange(0, i as int)),
        decreases s.1.len() - i,
    {
        let name = s.1[i].0.clone();
        let entry = s.1[i].1.duplicate();
        let ghost t0 = t@;
        t.push((name, entry));
        proof {
            let a = table_view(t@);
            let b = table_view(s.1@.subrange(0, i + 1));
            let c = table_view(s.1@.subrange(0, i as int));
            assert(a.len() == b.len());
            assert forall|j: int| 0 <= j < a.len() implies a[j] == b[j] by {
                if j < i {
                    assert(a[j] == table_view(t0)[j]);
                    assert(b[j] == c[j]);
                } else {
                    assert(t@[j] == (name, entry));
                }
            }
            assert(a =~= b);
        }
        i = i + 1;
    }
    assert(s.1@.subrange(0, s.1@.len() as int) =~= s.1@);
    (s.0, t)
}

/// The first position of a symbol named `name` in a table.
fn find_in_table(t: &SymbolTable, name: &str) -> (r: Option<usize>)
    ensures
        match r {
            Some(j) => find_from(table_view(t@), name@, 0) == Some(j as int),
            None => find_from(table_view(t@), name@, 0) is None,
        },
{
    let ghost tv = table_view(t@);
    let mut i: usize = 0;
    while i < t.len()
        invariant
            i <= t@.len(),
            tv == table_view(t@),
            find_from(tv, name@, 0) == find_from(tv, name@, i as int),
        decreases t.len() - i,
    {
        if str_eq(t[i].0.as_str(), name) {
            return Some(i);
        }
        i = i + 1;
    }
    None
}

impl ScopeStack {
    /// A stack with one scope, of type `Any`, and an empty log.
    pub fn new() -> (r: Self)
        ensures
            r@.stack == seq![(ScopeType::Any, Seq::<(Seq<char>, EntryView)>::empty())],
            r@.log == Seq::<Option<ScopeView>>::empty(),
    {
        let mut stack: Vec<Scope> = Vec::new();
        stack.push((ScopeType::Any, Vec::new()));
        let r = ScopeStack { stack, log: Vec::new() };
        assert(r@.stack =~~= seq![(ScopeType::Any, Seq::<(Seq<char>, EntryView)>::empty())]);
        assert(r@.log =~= Seq::<Option<ScopeView>>::empty());
        r
    }

    /// Opens a scope of the given type.
    pub fn push_scope(&mut self, scope_type: ScopeType)
        ensures
            final(self)@.stack == old(self)@.stack.push((scope_type, Seq::<(Seq<char>, EntryView)>::empty())),
            final(self)@.log == old(self)@.log,
    {
        self.stack.push((scope_type, Vec::new()));
        assert(self@.stack =~~= old(self)@.stack.push((scope_type, Seq::<(Seq<char>, EntryView)>::empty())));
        assert(self@.log =~= old(self)@.log);
    }

    /// Closes the innermost scope, records it in the log, and returns it.
    pub fn pop_scope(&mut self) -> (r: Option<Scope>)
        ensures
            old(self)@.stack.len() == 0 ==> r is None && final(self)@.stack == old(self)@.stack
                && final(self)@.log == old(self)@.log.push(None),
            old(self)@.stack.len() > 0 ==> r is Some && scope_view(r->Some_0) == old(self)@.stack.last()
                && final(self)@.stack == old(self)@.stack.drop_last()
                && final(self)@.log == old(self)@.log.push(Some(old(self)@.stack.last())),
    {
        let x = self.stack.pop();
        match &x {
            Some(s) => {
                let copy = duplicate_scope(s);
                self.log.push(Some(copy));
            },
            None => {
                self.log.push(None);
            },
        }
        proof {
            if old(self)@.stack.len() > 0 {
                assert(self@.stack =~~= old(self)@.stack.drop_last());
                assert(self@.log =~= old(self)@.log.push(Some(old(self)@.stack.last())));
            } else {
                assert(self@.log =~= old(self)@.log.push(None));
            }
        }
        x
    }

    /// Declares a symbol in the innermost scope; a symbol of that name
    /// already declared there is an error.
    pub fn insert_symbol(&mut self, name: String, entry: SymbolEntry) -> (r: Result<(), SemanticError>)
        requires
            old(self)@.stack.len() > 0,
        ensures
            final(self)@.log == old(self)@.log,
            find_from(old(self)@.stack.last().1, name@, 0) is Some ==> r is Err
                && r->Err_0@ == redefinition_error(name@, entry@) && final(self)@.stack == old(self)@.stack,
            find_from(old(self)@.stack.last().1, name@, 0) is None ==> r is Ok
                && final(self)@.stack == old(self)@.stack.update(
                    old(self)@.stack.len() - 1,
                    (old(self)@.stack.last().0, old(self)@.stack.last().1.push((name@, entry@))),
                ),
    {
        let last = self.stack.len() - 1;
        assert(table_view(self.stack@[last as int].1@) == old(self)@.stack.last().1);
        if find_in_table(&self.stack[last].1, name.as_str()).is_some() {
            let n = entry.appearances.len();
            let (line, column) = if n == 0 { (0, 0) } else { entry.appearances[n - 1] };
            return Err(SemanticError::new(SemanticErrorKind::Redefinition, name, line, column, None));
        }
        self.stack[last].1.push((name, entry));
        proof {
            let s0 = old(self)@.stack;
            assert(self@.stack =~~= s0.update(s0.len() - 1, (s0.last().0, s0.last().1.push((name@, entry@)))));
        }
        Ok(())
    }

    /// Locates the innermost scope that declares `name`.
    fn locate(&self, name: &str) -> (r: Option<(usize, usize)>)
        ensures
            match r {
                Some((k, j)) => stack_find(self@.stack, name@) == Some((k as int, j as int))
                    && k < self.stack@.len() && j < self.stack@[k as int].1@.len(),
                None => stack_find(self@.stack, name@) is None,
            },
    {
        let ghost sv = self@.stack;
        let mut k = self.stack.len();
        assert(sv.subrange(0, k as int) =~= sv);
        while k > 0
            invariant
                k <= self.stack@.len(),
                sv == self@.stack,
                stack_find(sv, name@) == stack_find(sv.subrange(0, k as int), name@),
            decreases k,
        {
            k = k - 1;
            let ghost pre = sv.subrange(0, k + 1);
            assert(pre.last() == sv[k as int]);
            assert(pre.drop_last() =~= sv.subrange(0, k as int));
            assert(sv[k as int].1 == table_view(self.stack@[k as int].1@));
            match find_in_table(&self.stack[k].1, name) {
                Some(j) => {
                    proof {
                        if (find_from(sv[k as int].1, name@, 0) matches Some(jj)) {
                            lemma_find_from_bounds(sv[k as int].1, name@, 0);
                        }
                    }
                    return Some((k, j));
                },
                None => {},
            }
        }
        assert(sv.subrange(0, 0) =~= Seq::<ScopeView>::empty());
        None
    }

    /// What the innermost scope that declares `name` knows of it.
    pub fn get_symbol(&self, name: &str) -> (r: Option<SymbolEntry>)
        ensures
            match r {
                Some(e) => spec_lookup(self@.stack, name@) == Some(e@),
                None => spec_lookup(self@.stack, name@) is None,
            },
    {
        match self.locate(name) {
            Some((k, j)) => {
                assert(self@.stack[k as int].1[j as int].1 == self.stack@[k as int].1@[j as int].1@);
                Some(self.stack[k].1[j].1.duplicate())
            },
            None => None,
        }
    }

    /// Records an appearance of `name` at (`line`, `column`) in the innermost
    /// scope that declares it; an undeclared name is an error.
    pub fn count_appearance(&mut self, name: &str, line: usize, column: usize) -> (r: Result<(), SemanticError>)
        ensures
            final(self)@.log == old(self)@.log,
            match spec_count(old(self)@.stack, name@, (line, column)) {
                Some(s) => r is Ok && final(self)@.stack == s,
                None => r is Err && r->Err_0@ == not_found_error(name@, line, column)
                    && final(self)@.stack == old(self)@.stack,
            },
    {
        match self.locate(name) {
            Some((k, j)) => {
                self.stack[k].1[j].1.appearances.push((line, column));
                proof {
                    let s0 = old(self)@.stack;
                    let e = s0[k as int].1[j as int].1;
                    let e2 = EntryView { appearances: e.appearances.push((line, column)), var_type: e.var_type, const_index: e.const_index };
                    assert(self@.stack[k as int].1 =~~= s0[k as int].1.update(j as int, (s0[k as int].1[j as int].0, e2)));
                    assert(self@.stack =~~= s0.update(k as int, (s0[k as int].0, s0[k as int].1.update(j as int, (s0[k as int].1[j as int].0, e2)))));
                    assert(self@.log =~= old(self)@.log);
                }
                Ok(())
            },
            None => Err(SemanticError::new(SemanticErrorKind::SymbolNotFound, String::from_str(name), line, column, None)),
        }
    }

    /// Whether some open scope has the given type.
    pub fn contains(&self, scope_type: ScopeType) -> (r: bool)
        ensures
            r == spec_contains(self@.stack, scope_type),
    {
        let mut k = self.stack.len();
        while k > 0
            invariant
                k <= self.stack@.len(),
                forall|i: int| k <= i < self.stack@.len() ==> self@.stack[i].0 != scope_type,
            decreases k,
        {
            k = k - 1;
            if self.stack[k].0 == scope_type {
                assert(self@.stack[k as int].0 == scope_type);
                return true;
            }
        }
        false
    }
}

proof fn lemma_find_from_bounds(t: TableView, name: Seq<char>, i: int)
    ensures
        find_from(t, name, i) matches Some(j) ==> 0 <= i <= j < t.len() && t[j].0 == name,
    decreases t.len() - i,
{
    if 0 <= i < t.len() && t[i].0 != name {
        lemma_find_from_bounds(t, name, i + 1);
    }
}

/// How `{:?}` writes a scope type: the name of its variant.
pub open spec fn scope_type_debug(t: ScopeType) -> Seq<char> {
    match t {
        ScopeType::Function => "Function"@,
        ScopeType::Loop => "Loop"@,
        ScopeType::LoopInit => "LoopInit"@,
        ScopeType::If => "If"@,
        ScopeType::Else => "Else"@,
        ScopeType::Any => "Any"@,
    }
}

/// The texts `items[..k]`, separated by `", "`.
pub open spec fn joined(items: Seq<Seq<char>>, k: int) -> Seq<char>
    decreases k,
{
    if k <= 0 {
        Seq::empty()
    } else if k == 1 {
        items[0]
    } else {
        joined(items, k - 1) + ", "@ + items[k - 1]
    }
}

/// How `{:?}` writes a list whose items it writes as `items`.
pub open spec fn list_debug(items: Seq<Seq<char>>) -> Seq<char> {
    "["@ + joined(items, items.len() as int) + "]"@
}

/// How `{:?}` writes a position: `(line, column)`.
pub open spec fn pair_debug(p: (usize, usize)) -> Seq<char> {
    "("@ + dec_digits(p.0 as nat) + ", "@ + dec_digits(p.1 as nat) + ")"@
}

/// The log line of a symbol: its name, its type (a list of types for a
/// function), its dimensions and its appearances.
pub open spec fn entry_log_line(name: Seq<char>, e: EntryView) -> Seq<char> {
    "\n  Símbolo: "@ + name + ", Tipo: "@ + (if e.var_type.len() == 1 {
        var_type_debug(e.var_type[0])
    } else {
        list_debug(e.var_type.map_values(|v: VarType| var_type_debug(v)))
    }) + ", Índices: "@ + list_debug(e.const_index.map_values(|d: u32| dec_digits(d as nat)))
        + ", Aparições: "@ + list_debug(e.appearances.map_values(|p: (usize, usize)| pair_debug(p)))
}

/// The log lines of the symbols `t[..k]`.
pub open spec fn entries_log(t: TableView, k: int) -> Seq<char>
    decreases k,
{
    if k <= 0 {
        Seq::empty()
    } else {
        entries_log(t, k - 1) + entry_log_line(t[k - 1].0, t[k - 1].1)
    }
}

/// What closing a scope writes to the scope log: the scope's type and its
/// symbols in the order of declaration (nothing where no scope was open),
/// then an empty line.
pub open spec fn scope_log_text(o: Option<ScopeView>) -> Seq<char> {
    match o {
        Some(sc) => "Escopo: "@ + scope_type_debug(sc.0) + entries_log(sc.1, sc.1.len() as int) + "\n\n"@,
        None => "\n\n"@,
    }
}

fn push_list_sep(out: &mut String, i: usize, Ghost(pre): Ghost<Seq<char>>, Ghost(items): Ghost<Seq<Seq<char>>>)
    requires
        i < items.len(),
        old(out)@ == pre + joined(items, i as int),
    ensures
        final(out)@ + items[i as int] == pre + joined(items, i + 1),
{
    if i > 0 {
        out.append(", ");
        assert(out@ + items[i as int] =~= pre + joined(items, i + 1));
    } else {
        assert(out@ + items[i as int] =~= pre + joined(items, i + 1));
    }
}

fn push_types(out: &mut String, v: &Vec<VarType>)
    ensures
        final(out)@ == old(out)@ + list_debug(v@.map_values(|x: VarType| var_type_debug(x))),
{
    let ghost items = v@.map_values(|x: VarType| var_type_debug(x));
    let ghost pre = out@ + "["@;
    out.append("[");
    let mut i: usize = 0;
    while i < v.len()
        invariant
            i <= v@.len(),
            items == v@.map_values(|x: VarType| var_type_debug(x)),
            out@ == pre + joined(items, i as int),
        decreases v.len() - i,
    {
        push_list_sep(out, i, Ghost(pre), Ghost(items));
        out.append(v[i].name_debug());
        i = i + 1;
    }
    out.append("]");
    assert(out@ =~= old(out)@ + list_debug(items));
}

fn push_dims(out: &mut String, v: &Vec<u32>)
    ensures
        final(out)@ == old(out)@ + list_debug(v@.map_values(|d: u32| dec_digits(d as nat))),
{
    let ghost items = v@.map_values(|d: u32| dec_digits(d as nat));
    let ghost pre = out@ + "["@;
    out.append("[");
    let mut i: usize = 0;
    while i < v.len()
        invariant
            i <= v@.len(),
            items == v@.map_values(|d: u32| dec_digits(d as nat)),
            out@ == pre + joined(items, i as int),
        decreases v.len() - i,
    {
        push_list_sep(out, i, Ghost(pre), Ghost(items));
        push_u64(out, v[i] as u64);
        i = i + 1;
    }
    out.append("]");
    assert(out@ =~= old(out)@ + list_debug(items));
}

fn push_pairs(out: &mut String, v: &Vec<(usize, usize)>)
    ensures
        final(out)@ == old(out)@ + list_debug(v@.map_values(|p: (usize, usize)| pair_debug(p))),
{
    let ghost items = v@.map_values(|p: (usize, usize)| pair_debug(p));
    let ghost pre = out@ + "["@;
    out.append("[");
    let mut i: usize = 0;
    while i < v.len()
        invariant
            i <= v@.len(),
            items == v@.map_values(|p: (usize, usize)| pair_debug(p)),
            out@ == pre + joined(items, i as int),
        decreases v.len() - i,
    {
        let ghost before = out@;
        push_list_sep(out, i, Ghost(pre), Ghost(items));
        let ghost mid = out@;
        out.append("(");
        push_u64(out, v[i].0 as u64);
        out.append(", ");
        push_u64(out, v[i].1 as u64);
        out.append(")");
        assert(out@ =~= mid + pair_debug(v@[i as int]));
        i = i + 1;
    }
    out.append("]");
    assert(out@ =~= old(out)@ + list_debug(items));
}

/// What closing the scope `o` writes to the scope log (see
/// [`scope_log_text`]).
pub fn scope_log_text_of(o: &Option<Scope>) -> (r: String)
    ensures
        r@ == scope_log_text(match o {
            Some(sc) => Some(scope_view(*sc)),
            None => None,
        }),
{
    let mut out = String::new();
    match o {
        Some(sc) => {
            out.append("Escopo: ");
            out.append(match sc.0 {
                ScopeType::Function => "Function",
                ScopeType::Loop => "Loop",
                ScopeType::LoopInit => "LoopInit",
                ScopeType::If => "If",
                ScopeType::Else => "Else",
                ScopeType::Any => "Any",
            });
            let ghost head = out@;
            let ghost tv = table_view(sc.1@);
            let mut k: usize = 0;
            while k < sc.1.len()
                invariant
                    k <= sc.1@.len(),
                    tv == table_view(sc.1@),
                    tv.len() == sc.1@.len(),
                    out@ == head + entries_log(tv, k as int),
                decreases sc.1.len() - k,
            {
                let ghost before = out@;
                let e = &sc.1[k].1;
                assert(tv[k as int] == (sc.1@[k as int].0@, e@));
                out.append("\n  Símbolo: ");
                out.append(sc.1[k].0.as_str());
                out.append(", Tipo: ");
                if e.var_type.len() == 1 {
                    out.append(e.var_type[0].name_debug());
                } else {
                    push_types(&mut out, &e.var_type);
                }
                out.append(", Índices: ");
                push_dims(&mut out, &e.const_index);
                out.append(", Aparições: ");
                push_pairs(&mut out, &e.appearances);
                assert(out@ =~= before + entry_log_line(tv[k as int].0, tv[k as int].1));
                k = k + 1;
            }
            out.append("\n\n");
            assert(out@ =~= scope_log_text(Some(scope_view(*sc))));
        },
        None => {
            out.append("\n\n");
            assert(out@ =~= scope_log_text(None));
        },
    }
    out
}

proof fn lemma_find_push(t: TableView, x: (Seq<char>, EntryView), name: Seq<char>, i: int)
    requires
        0 <= i <= t.len(),
    ensures
        find_from(t.push(x), name, i) == (match find_from(t, name, i) {
            Some(j) => Some(j),
            None => if x.0 == name { Some(t.len() as int) } else { None },
        }),
    decreases t.len() - i,
{
    let t2 = t.push(x);
    if i < t.len() {
        assert(t2[i] == t[i]);
        if t[i].0 != name {
            lemma_find_push(t, x, name, i + 1);
        }
    } else {
        assert(t2[i] == x);
        assert(find_from(t2, name, i + 1) is None);
        assert(find_from(t, name, i) is None);
    }
}

proof fn lemma_stack_find_last(s: Seq<ScopeView>, name: Seq<char>)
    requires
        s.len() > 0,
    ensures
        stack_find(s, name) == (match find_from(s.last().1, name, 0) {
            Some(j) => Some(((s.len() - 1) as int, j)),
            None => stack_find(s.drop_last(), name),
        }),
{
}

/// Declaring `name` in the innermost scope, where that scope does not
/// declare it yet, makes every lookup of `name` give the new entry, and
/// leaves every lookup of another name as it was.
pub proof fn law_insert_then_lookup(s: Seq<ScopeView>, name: Seq<char>, e: EntryView, other: Seq<char>)
    requires
        s.len() > 0,
        find_from(s.last().1, name, 0) is None,
    ensures
        ({
            let s2 = s.update(s.len() - 1, (s.last().0, s.last().1.push((name, e))));
            &&& spec_lookup(s2, name) == Some(e)
            &&& other != name ==> spec_lookup(s2, other) == spec_lookup(s, other)
        }),
{
    let t = s.last().1;
    let t2 = t.push((name, e));
    let s2 = s.update(s.len() - 1, (s.last().0, t2));
    assert(s2.last() == (s.last().0, t2));
    lemma_find_push(t, (name, e), name, 0);
    lemma_find_push(t, (name, e), other, 0);
    assert(s2.drop_last() =~= s.drop_last());
    lemma_stack_find_last(s2, name);
    lemma_stack_find_last(s2, other);
    lemma_stack_find_last(s, other);
    assert(stack_find(s2, name) == Some(((s.len() - 1) as int, t.len() as int)));
    assert(t2[t.len() as int] == (name, e));
    assert(spec_lookup(s2, name) == Some(e));
    if other != name {
        lemma_find_from_bounds(t, other, 0);
        match find_from(t, other, 0) {
            Some(j) => {
                assert(t2[j] == t[j]);
                assert(s2[s.len() - 1] == (s.last().0, t2));
            },
            None => {
                lemma_stack_find_bounds(s.drop_last(), other);
                match stack_find(s.drop_last(), other) {
                    Some((k, j)) => {
                        assert(s2[k] == s[k]);
                        assert(s.drop_last()[k] == s[k]);
                    },
                    None => {},
                }
            },
        }
    }
}

/// Opening a scope and closing it again gives back the stack; the new scope
/// hides no symbol while it is open.
pub proof fn law_push_then_pop(s: Seq<ScopeView>, t: ScopeType, name: Seq<char>)
    ensures
        s.push((t, Seq::empty())).drop_last() == s,
        spec_lookup(s.push((t, Seq::empty())), name) == spec_lookup(s, name),
{
    let s2 = s.push((t, Seq::<(Seq<char>, EntryView)>::empty()));
    assert(s2.drop_last() =~= s);
    lemma_stack_find_last(s2, name);
    assert(find_from(s2.last().1, name, 0) is None);
    match stack_find(s, name) {
        Some((k, j)) => {
            lemma_stack_find_bounds(s, name);
            assert(s2[k] == s[k]);
        },
        None => {},
    }
}

pub proof fn lemma_stack_find_bounds(s: Seq<ScopeView>, name: Seq<char>)
    ensures
        stack_find(s, name) matches Some((k, j)) ==> 0 <= k < s.len() && 0 <= j < s[k].1.len() && s[k].1[j].0 == name,
    decreases s.len(),
{
    if s.len() > 0 {
        lemma_find_from_bounds(s.last().1, name, 0);
        lemma_stack_find_bounds(s.drop_last(), name);
        match stack_find(s.drop_last(), name) {
            Some((k, j)) => {
                assert(s.drop_last()[k] == s[k]);
            },
            None => {},
        }
    }
}

/// Recording an appearance of a declared symbol adds the position to the
/// appearances of the entry that lookups give, and changes nothing else of
/// that entry; an undeclared symbol is reported as not found.
pub proof fn law_count_then_lookup(s: Seq<ScopeView>, name: Seq<char>, pos: (usize, usize))
    ensures
        match spec_lookup(s, name) {
            Some(e) => spec_count(s, name, pos) matches Some(s2) && spec_lookup(s2, name) == Some(EntryView {
                appearances: e.appearances.push(pos),
                var_type: e.var_type,
                const_index: e.const_index,
            }),
            None => spec_count(s, name, pos) is None,
        },
{
    lemma_stack_find_bounds(s, name);
    match stack_find(s, name) {
        Some((k, j)) => {
            let s2 = spec_count(s, name, pos)->Some_0;
            lemma_stack_find_update(s, name, k, j, s2[k].1[j].1);
        },
        None => {},
    }
}

proof fn lemma_find_from_update(t: TableView, name: Seq<char>, j: int, e: EntryView, i: int)
    requires
        0 <= j < t.len(),
    ensures
        find_from(t.update(j, (t[j].0, e)), name, i) == find_from(t, name, i),
    decreases t.len() - i,
{
    if 0 <= i < t.len() {
        lemma_find_from_update(t, name, j, e, i + 1);
    }
}

proof fn lemma_stack_find_update(s: Seq<ScopeView>, name: Seq<char>, k: int, j: int, e: EntryView)
    requires
        0 <= k < s.len(),
        0 <= j < s[k].1.len(),
    ensures
        stack_find(s.update(k, (s[k].0, s[k].1.update(j, (s[k].1[j].0, e)))), name) == stack_find(s, name),
    decreases s.len(),
{
    let s2 = s.update(k, (s[k].0, s[k].1.update(j, (s[k].1[j].0, e))));
    if k == s.len() - 1 {
        lemma_find_from_update(s[k].1, name, j, e, 0);
        assert(s2.drop_last() =~= s.drop_last());
    } else {
        assert(s2.last() == s.last());
        lemma_stack_find_update(s.drop_last(), name, k, j, e);
        assert(s2.drop_last() =~= s.drop_last().update(k, (s[k].0, s[k].1.update(j, (s[k].1[j].0, e)))));
    }
}

} // verus!
