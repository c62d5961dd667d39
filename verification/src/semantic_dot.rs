//! The DOT rendering of a semantic tree: one graph node per tree node,
//! labelled with its construct (or, for a leaf, its token or value), and an
//! edge to each of its parts in order.

use vstd::prelude::*;
use crate::semantic_node::SemanticNodeData;
use crate::semantic::SemanticNode;
use crate::token::{Token, TokenView};
use crate::token_type::token_debug;
use crate::const_type::const_debug;
use crate::text::{dec_digits, escape_quotes, push_u64, push_escaped_quotes};

verus! {

/// The node of an optional part, if present.
pub open spec fn opt_seq(o: Option<Box<SemanticNode>>) -> Seq<SemanticNode> {
    match o {
        Some(b) => seq![*b],
        None => Seq::empty(),
    }
}

/// The parts of a node, in the order in which they are drawn.
pub open spec fn children_of(n: SemanticNode) -> Seq<SemanticNode> {
    match n.children {
        SemanticNodeData::Allocexpression { var_type, dimensions } => seq![*var_type, *dimensions],
        SemanticNodeData::Atribstat { lvalue, value } => seq![*lvalue, *value],
        SemanticNodeData::Atribstatevalue { expression, allocexpression, funccall } =>
            opt_seq(expression) + opt_seq(allocexpression) + opt_seq(funccall),
        SemanticNodeData::ConstIndex { index } => index@,
        SemanticNodeData::Elsestat { statement } => seq![*statement],
        SemanticNodeData::Expression { numexpression, op_expression, numexpression2 } =>
            seq![*numexpression] + opt_seq(op_expression) + opt_seq(numexpression2),
        SemanticNodeData::Factor { expression, lvalue, constant } =>
            opt_seq(expression) + opt_seq(lvalue) + opt_seq(constant),
        SemanticNodeData::Forstat { init, condition, increment, body } => seq![*init, *condition, *increment, *body],
        SemanticNodeData::Funccall { id, paramlistcall } => seq![*id] + opt_seq(paramlistcall),
        SemanticNodeData::Funcdef { func_id, paramlist, statelist } => seq![*func_id] + opt_seq(paramlist) + seq![*statelist],
        SemanticNodeData::Funclist { funclist } => funclist@,
        SemanticNodeData::Ifstat { condition, then_branch, else_branch } => seq![*condition, *then_branch] + opt_seq(else_branch),
        SemanticNodeData::Lvalue { id, var_index } => seq![*id] + opt_seq(var_index),
        SemanticNodeData::Numexpression { term, op_numexpression, term2 } =>
            seq![*term] + opt_seq(op_numexpression) + opt_seq(term2),
        SemanticNodeData::Paramlist { paramlist } => paramlist@,
        SemanticNodeData::Paramlistcall { paramlist } => paramlist@,
        SemanticNodeData::Printstat { expression } => seq![*expression],
        SemanticNodeData::Program { funclist, statement } => opt_seq(funclist) + opt_seq(statement),
        SemanticNodeData::Readstat { lvalue } => seq![*lvalue],
        SemanticNodeData::Statelist { statelist } => statelist@,
        SemanticNodeData::Statement { vardecl, atribstat, ifstat, forstat, statelist, commandstat } =>
            opt_seq(vardecl) + opt_seq(atribstat) + opt_seq(ifstat) + opt_seq(forstat) + opt_seq(statelist) + opt_seq(commandstat),
        SemanticNodeData::Term { unaryexpression, op_term, unaryexpression2 } =>
            seq![*unaryexpression] + opt_seq(op_term) + opt_seq(unaryexpression2),
        SemanticNodeData::Unaryexpression { op, factor } => opt_seq(op) + seq![*factor],
        SemanticNodeData::Vardecl { var_type, id, const_index } => seq![*var_type, *id] + opt_seq(const_index),
        SemanticNodeData::VarIndex { index } => index@,
        _ => Seq::empty(),
    }
}

proof fn lemma_opt_seq_decreases(o: Option<Box<SemanticNode>>, i: int)
    requires
        0 <= i < opt_seq(o).len(),
    ensures
        decreases_to!(o => opt_seq(o)[i]),
{
    match o {
        Some(b) => {
            assert(opt_seq(o)[i] == *b);
        },
        None => {},
    }
}

/// Each part of a node is smaller than the node.
pub proof fn lemma_child_decreases(n: SemanticNode, i: int)
    requires
        0 <= i < children_of(n).len(),
    ensures
        decreases_to!(n => children_of(n)[i]),
{
    let c = children_of(n);
    match n.children {
        SemanticNodeData::Allocexpression { var_type, dimensions } => {},
        SemanticNodeData::Atribstat { lvalue, value } => {},
        SemanticNodeData::Atribstatevalue { expression, allocexpression, funccall } => {
            let a = opt_seq(expression);
            let b = opt_seq(allocexpression);
            if i < a.len() {
                lemma_opt_seq_decreases(expression, i);
            } else if i < a.len() + b.len() {
                lemma_opt_seq_decreases(allocexpression, i - a.len());
            } else {
                lemma_opt_seq_decreases(funccall, i - a.len() - b.len());
            }
        },
        SemanticNodeData::ConstIndex { index } => {
            assert(c[i] == index@[i]);
        },
        SemanticNodeData::Elsestat { statement } => {},
        SemanticNodeData::Expression { numexpression, op_expression, numexpression2 } => {
            let b = opt_seq(op_expression);
            if i == 0 {
            } else if i < 1 + b.len() {
                lemma_opt_seq_decreases(op_expression, i - 1);
            } else {
                lemma_opt_seq_decreases(numexpression2, i - 1 - b.len());
            }
        },
        SemanticNodeData::Factor { expression, lvalue, constant } => {
            let a = opt_seq(expression);
            let b = opt_seq(lvalue);
            if i < a.len() {
                lemma_opt_seq_decreases(expression, i);
            } else if i < a.len() + b.len() {
                lemma_opt_seq_decreases(lvalue, i - a.len());
            } else {
                lemma_opt_seq_decreases(constant, i - a.len() - b.len());
            }
        },
        SemanticNodeData::Forstat { init, condition, increment, body } => {},
        SemanticNodeData::Funccall { id, paramlistcall } => {
            if i > 0 {
                lemma_opt_seq_decreases(paramlistcall, i - 1);
            }
        },
        SemanticNodeData::Funcdef { func_id, paramlist, statelist } => {
            let b = opt_seq(paramlist);
            if i > 0 && i < 1 + b.len() {
                lemma_opt_seq_decreases(paramlist, i - 1);
            }
        },
        SemanticNodeData::Funclist { funclist } => {
            assert(c[i] == funclist@[i]);
        },
        SemanticNodeData::Ifstat { condition, then_branch, else_branch } => {
            if i > 1 {
                lemma_opt_seq_decreases(else_branch, i - 2);
            }
        },
        SemanticNodeData::Lvalue { id, var_index } => {
            if i > 0 {
                lemma_opt_seq_decreases(var_index, i - 1);
            }
        },
        SemanticNodeData::Numexpression { term, op_numexpression, term2 } => {
            let b = opt_seq(op_numexpression);
            if i == 0 {
            } else if i < 1 + b.len() {
                lemma_opt_seq_decreases(op_numexpression, i - 1);
            } else {
                lemma_opt_seq_decreases(term2, i - 1 - b.len());
            }
        },
        SemanticNodeData::Paramlist { paramlist } => {
            assert(c[i] == paramlist@[i]);
        },
        SemanticNodeData::Paramlistcall { paramlist } => {
            assert(c[i] == paramlist@[i]);
        },
        SemanticNodeData::Printstat { expression } => {},
        SemanticNodeData::Program { funclist, statement } => {
            let a = opt_seq(funclist);
            if i < a.len() {
                lemma_opt_seq_decreases(funclist, i);
            } else {
                lemma_opt_seq_decreases(statement, i - a.len());
            }
        },
        SemanticNodeData::Readstat { lvalue } => {},
        SemanticNodeData::Statelist { statelist } => {
            assert(c[i] == statelist@[i]);
        },
        SemanticNodeData::Statement { vardecl, atribstat, ifstat, forstat, statelist, commandstat } => {
            let a = opt_seq(vardecl);
            let b = opt_seq(atribstat);
            let d = opt_seq(ifstat);
            let e = opt_seq(forstat);
            let f = opt_seq(statelist);
            if i < a.len() {
                lemma_opt_seq_decreases(vardecl, i);
            } else if i < a.len() + b.len() {
                lemma_opt_seq_decreases(atribstat, i - a.len());
            } else if i < a.len() + b.len() + d.len() {
                lemma_opt_seq_decreases(ifstat, i - a.len() - b.len());
            } else if i < a.len() + b.len() + d.len() + e.len() {
                lemma_opt_seq_decreases(forstat, i - a.len() - b.len() - d.len());
            } else if i < a.len() + b.len() + d.len() + e.len() + f.len() {
                lemma_opt_seq_decreases(statelist, i - a.len() - b.len() - d.len() - e.len());
            } else {
                lemma_opt_seq_decreases(commandstat, i - a.len() - b.len() - d.len() - e.len() - f.len());
            }
        },
        SemanticNodeData::Term { unaryexpression, op_term, unaryexpression2 } => {
            let b = opt_seq(op_term);
            if i == 0 {
            } else if i < 1 + b.len() {
                lemma_opt_seq_decreases(op_term, i - 1);
            } else {
                lemma_opt_seq_decreases(unaryexpression2, i - 1 - b.len());
            }
        },
        SemanticNodeData::Unaryexpression { op, factor } => {
            let a = opt_seq(op);
            if i < a.len() {
                lemma_opt_seq_decreases(op, i);
            }
        },
        SemanticNodeData::Vardecl { var_type, id, const_index } => {
            if i > 1 {
                lemma_opt_seq_decreases(const_index, i - 2);
            }
        },
        SemanticNodeData::VarIndex { index } => {
            assert(c[i] == index@[i]);
        },
        _ => {},
    }
}

/// The nodes drawn as leaves: constants, operators, `return` and terminals.
pub open spec fn is_leaf_node(n: SemanticNode) -> bool {
    match n.children {
        SemanticNodeData::Constant { .. } => true,
        SemanticNodeData::OpExpression { .. } => true,
        SemanticNodeData::OpNumexpression { .. } => true,
        SemanticNodeData::OpTerm { .. } => true,
        SemanticNodeData::Returnstat { .. } => true,
        SemanticNodeData::Terminal { .. } => true,
        _ => false,
    }
}

/// The label of a node that has parts.
pub open spec fn node_label(n: SemanticNode) -> Seq<char> {
    match n.children {
        SemanticNodeData::Allocexpression { .. } => "AllocExpression"@,
        SemanticNodeData::Atribstat { .. } => "AtribStatement"@,
        SemanticNodeData::Atribstatevalue { .. } => "AtribStatementValue"@,
        SemanticNodeData::ConstIndex { .. } => "ConstIndex"@,
        SemanticNodeData::Elsestat { .. } => "ElseStatement"@,
        SemanticNodeData::Expression { .. } => "Expression"@,
        SemanticNodeData::Factor { .. } => "Factor"@,
        SemanticNodeData::Forstat { .. } => "ForStatement"@,
        SemanticNodeData::Funccall { .. } => "FuncCall"@,
        SemanticNodeData::Funcdef { .. } => "FuncDef"@,
        SemanticNodeData::Funclist { .. } => "FuncList"@,
        SemanticNodeData::Ifstat { .. } => "IfStatement"@,
        SemanticNodeData::Lvalue { .. } => "LValue"@,
        SemanticNodeData::Numexpression { .. } => "Numexpression"@,
        SemanticNodeData::Paramlist { .. } => "ParamList"@,
        SemanticNodeData::Paramlistcall { .. } => "ParamListCall"@,
        SemanticNodeData::Printstat { .. } => "PrintStatement"@,
        SemanticNodeData::Program { .. } => "Program"@,
        SemanticNodeData::Readstat { .. } => "ReadStatement"@,
        SemanticNodeData::Statelist { .. } => "StateList"@,
        SemanticNodeData::Statement { .. } => "Statement"@,
        SemanticNodeData::Term { .. } => "Term"@,
        SemanticNodeData::Unaryexpression { .. } => "Unaryexpression"@,
        SemanticNodeData::Vardecl { .. } => "Vardecl"@,
        SemanticNodeData::VarIndex { .. } => "VarIndex"@,
        _ => ""@,
    }
}

/// The DOT line that declares graph node `id` with a label.
pub open spec fn label_line(id: nat, label: Seq<char>) -> Seq<char> {
    "  "@ + dec_digits(id) + " [label=\""@ + label + "\"]\n"@
}

/// The DOT line of an edge.
pub open spec fn edge_line(a: nat, b: nat) -> Seq<char> {
    "  "@ + dec_digits(a) + " -> "@ + dec_digits(b) + "\n"@
}

/// The line of a leaf numbered `c`: constants by their `{:?}` text,
/// operators by the name of their token kind, terminals that hold a value by
/// the `{:?}` text of the value with its double quotes escaped; a terminal
/// without a value draws nothing.
pub open spec fn leaf_text(n: SemanticNode, c: nat) -> Seq<char> {
    match n.children {
        SemanticNodeData::Constant { value } => label_line(c, const_debug(value@)),
        SemanticNodeData::OpExpression { op } => label_line(c, token_debug(op)),
        SemanticNodeData::OpNumexpression { op } => label_line(c, token_debug(op)),
        SemanticNodeData::OpTerm { op } => label_line(c, token_debug(op)),
        SemanticNodeData::Returnstat { .. } => label_line(c, "ReturnStatement"@),
        SemanticNodeData::Terminal { value } => match value.value {
            Some(v) => label_line(c, escape_quotes(const_debug(v@))),
            None => Seq::empty(),
        },
        _ => Seq::empty(),
    }
}

/// The number of edges of the subtree `n` (by which it advances the graph
/// node counter).
pub open spec fn node_edges(n: SemanticNode) -> nat
    decreases n, children_of(n).len() + 1,
{
    if is_leaf_node(n) {
        0
    } else {
        edges_from(n, 0)
    }
}

/// The number of edges drawn for the parts `i..` of `n`, and below them.
pub open spec fn edges_from(n: SemanticNode, i: int) -> nat
    decreases n, children_of(n).len() - i,
{
    if i < 0 || i >= children_of(n).len() {
        0
    } else {
        proof {
            lemma_child_decreases(n, i);
        }
        1 + node_edges(children_of(n)[i]) + edges_from(n, i + 1)
    }
}

/// The DOT lines of the subtree `n` whose root is graph node `c`.
pub open spec fn dot_text(n: SemanticNode, c: nat) -> Seq<char>
    decreases n, children_of(n).len() + 1,
{
    if is_leaf_node(n) {
        leaf_text(n, c)
    } else {
        label_line(c, node_label(n)) + dot_from(n, 0, c, c)
    }
}

/// The DOT lines of the parts `i..` of `n` (graph node `name`), the counter
/// being `c` before them.
pub open spec fn dot_from(n: SemanticNode, i: int, name: nat, c: nat) -> Seq<char>
    decreases n, children_of(n).len() - i,
{
    if i < 0 || i >= children_of(n).len() {
        Seq::empty()
    } else {
        proof {
            lemma_child_decreases(n, i);
        }
        let k = children_of(n)[i];
        edge_line(name, c + 1) + dot_text(k, c + 1) + dot_from(n, i + 1, name, c + 1 + node_edges(k))
    }
}

/// The terminals without a value in the subtree `n`, in drawing order.
pub open spec fn dot_warnings(n: SemanticNode) -> Seq<TokenView>
    decreases n, children_of(n).len() + 1,
{
    if is_leaf_node(n) {
        match n.children {
            SemanticNodeData::Terminal { value } => if value.value is None { seq![value@] } else { Seq::empty() },
            _ => Seq::empty(),
        }
    } else {
        warnings_from(n, 0)
    }
}

/// The terminals without a value below the parts `i..` of `n`.
pub open spec fn warnings_from(n: SemanticNode, i: int) -> Seq<TokenView>
    decreases n, children_of(n).len() - i,
{
    if i < 0 || i >= children_of(n).len() {
        Seq::empty()
    } else {
        proof {
            lemma_child_decreases(n, i);
        }
        dot_warnings(children_of(n)[i]) + warnings_from(n, i + 1)
    }
}

/// The views of a list of tokens.
pub open spec fn tokens_view(v: Seq<Token>) -> Seq<TokenView> {
    v.map_values(|t: Token| t@)
}

impl SemanticNode {
    /// The label of a node that has parts.
    fn label(&self) -> (r: &'static str)
        ensures
            r@ == node_label(*self),
    {
        match &self.children {
            SemanticNodeData::Allocexpression { .. } => "AllocExpression",
            SemanticNodeData::Atribstat { .. } => "AtribStatement",
            SemanticNodeData::Atribstatevalue { .. } => "AtribStatementValue",
            SemanticNodeData::ConstIndex { .. } => "ConstIndex",
            SemanticNodeData::Elsestat { .. } => "ElseStatement",
            SemanticNodeData::Expression { .. } => "Expression",
            SemanticNodeData::Factor { .. } => "Factor",
            SemanticNodeData::Forstat { .. } => "ForStatement",
            SemanticNodeData::Funccall { .. } => "FuncCall",
            SemanticNodeData::Funcdef { .. } => "FuncDef",
            SemanticNodeData::Funclist { .. } => "FuncList",
            SemanticNodeData::Ifstat { .. } => "IfStatement",
            SemanticNodeData::Lvalue { .. } => "LValue",
            SemanticNodeData::Numexpression { .. } => "Numexpression",
            SemanticNodeData::Paramlist { .. } => "ParamList",
            SemanticNodeData::Paramlistcall { .. } => "ParamListCall",
            SemanticNodeData::Printstat { .. } => "PrintStatement",
            SemanticNodeData::Program { .. } => "Program",
            SemanticNodeData::Readstat { .. } => "ReadStatement",
            SemanticNodeData::Statelist { .. } => "StateList",
            SemanticNodeData::Statement { .. } => "Statement",
            SemanticNodeData::Term { .. } => "Term",
            SemanticNodeData::Unaryexpression { .. } => "Unaryexpression",
            SemanticNodeData::Vardecl { .. } => "Vardecl",
            SemanticNodeData::VarIndex { .. } => "VarIndex",
            _ => "",
        }
    }
}

/// `r` refers to the nodes of `s`, in order.
pub open spec fn refs_match(r: Seq<&SemanticNode>, s: Seq<SemanticNode>) -> bool {
    r.len() == s.len() && forall|i: int| 0 <= i < r.len() ==> *r[i] == s[i]
}

fn push_opt<'a>(v: &mut Vec<&'a SemanticNode>, o: &'a Option<Box<SemanticNode>>, Ghost(a): Ghost<Seq<SemanticNode>>)
    requires
        refs_match(old(v)@, a),
    ensures
        refs_match(final(v)@, a + opt_seq(*o)),
{
    match o {
        Some(b) => v.push(&**b),
        None => {},
    }
    assert(refs_match(v@, a + opt_seq(*o)));
}

fn push_all<'a>(v: &mut Vec<&'a SemanticNode>, w: &'a Vec<SemanticNode>, Ghost(a): Ghost<Seq<SemanticNode>>)
    requires
        refs_match(old(v)@, a),
    ensures
        refs_match(final(v)@, a + w@),
{
    let mut j: usize = 0;
    while j < w.len()
        invariant
            j <= w@.len(),
            refs_match(v@, a + w@.subrange(0, j as int)),
        decreases w.len() - j,
    {
        v.push(&w[j]);
        assert(a + w@.subrange(0, j + 1) =~= (a + w@.subrange(0, j as int)).push(w@[j as int]));
        j = j + 1;
    }
    assert(w@.subrange(0, w@.len() as int) =~= w@);
}

fn push_one<'a>(v: &mut Vec<&'a SemanticNode>, b: &'a Box<SemanticNode>, Ghost(a): Ghost<Seq<SemanticNode>>)
    requires
        refs_match(old(v)@, a),
    ensures
        refs_match(final(v)@, a.push(**b)),
{
    v.push(&**b);
}

impl SemanticNode {
    /// The parts of this node, in drawing order.
    fn parts(&self) -> (r: Vec<&SemanticNode>)
        ensures
            refs_match(r@, children_of(*self)),
    {
        let mut r: Vec<&SemanticNode> = Vec::new();
        let ghost mut acc: Seq<SemanticNode> = Seq::empty();
        match &self.children {
            SemanticNodeData::Allocexpression { var_type, dimensions } => {
                push_one(&mut r, var_type, Ghost(acc));
                proof { acc = acc.push(**var_type); }
                push_one(&mut r, dimensions, Ghost(acc));
                proof { acc = acc.push(**dimensions); }
                assert(acc =~= children_of(*self));
            },
            SemanticNodeData::Atribstat { lvalue, value } => {
                push_one(&mut r, lvalue, Ghost(acc));
                proof { acc = acc.push(**lvalue); }
                push_one(&mut r, value, Ghost(acc));
                proof { acc = acc.push(**value); }
                assert(acc =~= children_of(*self));
            },
            SemanticNodeData::Atribstatevalue { expression, allocexpression, funccall } => {
                push_opt(&mut r, expression, Ghost(acc));
                proof { acc = acc + opt_seq(*expression); }
                push_opt(&mut r, allocexpression, Ghost(acc));
                proof { acc = acc + opt_seq(*allocexpression); }
                push_opt(&mut r, funccall, Ghost(acc));
                proof { acc = acc + opt_seq(*funccall); }
                assert(acc =~= children_of(*self));
            },
            SemanticNodeData::ConstIndex { index } => {
                push_all(&mut r, index, Ghost(acc));
                proof { acc = acc + index@; }
                assert(acc =~= children_of(*self));
            },
            SemanticNodeData::Elsestat { statement } => {
                push_one(&mut r, statement, Ghost(acc));
                proof { acc = acc.push(**statement); }
                assert(acc =~= children_of(*self));
            },
            SemanticNodeData::Expression { numexpression, op_expression, numexpression2 } => {
                push_one(&mut r, numexpression, Ghost(acc));
                proof { acc = acc.push(**numexpression); }
                push_opt(&mut r, op_expression, Ghost(acc));
                proof { acc = acc + opt_seq(*op_expression); }
                push_opt(&mut r, numexpression2, Ghost(acc));
                proof { acc = acc + opt_seq(*numexpression2); }
                assert(acc =~= children_of(*self));
            },
            SemanticNodeData::Factor { expression, lvalue, constant } => {
                push_opt(&mut r, expression, Ghost(acc));
                proof { acc = acc + opt_seq(*expression); }
                push_opt(&mut r, lvalue, Ghost(acc));
                proof { acc = acc + opt_seq(*lvalue); }
                push_opt(&mut r, constant, Ghost(acc));
                proof { acc = acc + opt_seq(*constant); }
                assert(acc =~= children_of(*self));
            },
            SemanticNodeData::Forstat { init, condition, increment, body } => {
                push_one(&mut r, init, Ghost(acc));
                proof { acc = acc.push(**init); }
                push_one(&mut r, condition, Ghost(acc));
                proof { acc = acc.push(**condition); }
                push_one(&mut r, increment, Ghost(acc));
                proof { acc = acc.push(**increment); }
                push_one(&mut r, body, Ghost(acc));
                proof { acc = acc.push(**body); }
                assert(acc =~= children_of(*self));
            },
            SemanticNodeData::Funccall { id, paramlistcall } => {
                push_one(&mut r, id, Ghost(acc));
                proof { acc = acc.push(**id); }
                push_opt(&mut r, paramlistcall, Ghost(acc));
                proof { acc = acc + opt_seq(*paramlistcall); }
                assert(acc =~= children_of(*self));
            },
            SemanticNodeData::Funcdef { func_id, paramlist, statelist } => {
                push_one(&mut r, func_id, Ghost(acc));
                proof { acc = acc.push(**func_id); }
                push_opt(&mut r, paramlist, Ghost(acc));
                proof { acc = acc + opt_seq(*paramlist); }
                push_one(&mut r, statelist, Ghost(acc));
                proof { acc = acc.push(**statelist); }
                assert(acc =~= children_of(*self));
            },
            SemanticNodeData::Funclist { funclist } => {
                push_all(&mut r, funclist, Ghost(acc));
                proof { acc = acc + funclist@; }
                assert(acc =~= children_of(*self));
            },
            SemanticNodeData::Ifstat { condition, then_branch, else_branch } => {
                push_one(&mut r, condition, Ghost(acc));
                proof { acc = acc.push(**condition); }
                push_one(&mut r, then_branch, Ghost(acc));
                proof { acc = acc.push(**then_branch); }
                push_opt(&mut r, else_branch, Ghost(acc));
                proof { acc = acc + opt_seq(*else_branch); }
                assert(acc =~= children_of(*self));
            },
            SemanticNodeData::Lvalue { id, var_index } => {
                push_one(&mut r, id, Ghost(acc));
                proof { acc = acc.push(**id); }
                push_opt(&mut r, var_index, Ghost(acc));
                proof { acc = acc + opt_seq(*var_index); }
                assert(acc =~= children_of(*self));
            },
            SemanticNodeData::Numexpression { term, op_numexpression, term2 } => {
                push_one(&mut r, term, Ghost(acc));
                proof { acc = acc.push(**term); }
                push_opt(&mut r, op_numexpression, Ghost(acc));
                proof { acc = acc + opt_seq(*op_numexpression); }
                push_opt(&mut r, term2, Ghost(acc));
                proof { acc = acc + opt_seq(*term2); }
                assert(acc =~= children_of(*self));
            },
            SemanticNodeData::Paramlist { paramlist } => {
                push_all(&mut r, paramlist, Ghost(acc));
                proof { acc = acc + paramlist@; }
                assert(acc =~= children_of(*self));
            },
            SemanticNodeData::Paramlistcall { paramlist } => {
                push_all(&mut r, paramlist, Ghost(acc));
                proof { acc = acc + paramlist@; }
                assert(acc =~= children_of(*self));
            },
            SemanticNodeData::Printstat { expression } => {
                push_one(&mut r, expression, Ghost(acc));
                proof { acc = acc.push(**expression); }
                assert(acc =~= children_of(*self));
            },
            SemanticNodeData::Program { funclist, statement } => {
                push_opt(&mut r, funclist, Ghost(acc));
                proof { acc = acc + opt_seq(*funclist); }
                push_opt(&mut r, statement, Ghost(acc));
                proof { acc = acc + opt_seq(*statement); }
                assert(acc =~= children_of(*self));
            },
            SemanticNodeData::Readstat { lvalue } => {
                push_one(&mut r, lvalue, Ghost(acc));
                proof { acc = acc.push(**lvalue); }
                assert(acc =~= children_of(*self));
            },
            SemanticNodeData::Statelist { statelist } => {
                push_all(&mut r, statelist, Ghost(acc));
                proof { acc = acc + statelist@; }
                assert(acc =~= children_of(*self));
            },
            SemanticNodeData::Statement { vardecl, atribstat, ifstat, forstat, statelist, commandstat } => {
                push_opt(&mut r, vardecl, Ghost(acc));
                proof { acc = acc + opt_seq(*vardecl); }
                push_opt(&mut r, atribstat, Ghost(acc));
                proof { acc = acc + opt_seq(*atribstat); }
                push_opt(&mut r, ifstat, Ghost(acc));
                proof { acc = acc + opt_seq(*ifstat); }
                push_opt(&mut r, forstat, Ghost(acc));
                proof { acc = acc + opt_seq(*forstat); }
                push_opt(&mut r, statelist, Ghost(acc));
                proof { acc = acc + opt_seq(*statelist); }
                push_opt(&mut r, commandstat, Ghost(acc));
                proof { acc = acc + opt_seq(*commandstat); }
                assert(acc =~= children_of(*self));
            },
            SemanticNodeData::Term { unaryexpression, op_term, unaryexpression2 } => {
                push_one(&mut r, unaryexpression, Ghost(acc));
                proof { acc = acc.push(**unaryexpression); }
                push_opt(&mut r, op_term, Ghost(acc));
                proof { acc = acc + opt_seq(*op_term); }
                push_opt(&mut r, unaryexpression2, Ghost(acc));
                proof { acc = acc + opt_seq(*unaryexpression2); }
                assert(acc =~= children_of(*self));
            },
            SemanticNodeData::Unaryexpression { op, factor } => {
                push_opt(&mut r, op, Ghost(acc));
                proof { acc = acc + opt_seq(*op); }
                push_one(&mut r, factor, Ghost(acc));
                proof { acc = acc.push(**factor); }
                assert(acc =~= children_of(*self));
            },
            SemanticNodeData::Vardecl { var_type, id, const_index } => {
                push_one(&mut r, var_type, Ghost(acc));
                proof { acc = acc.push(**var_type); }
                push_one(&mut r, id, Ghost(acc));
                proof { acc = acc.push(**id); }
                push_opt(&mut r, const_index, Ghost(acc));
                proof { acc = acc + opt_seq(*const_index); }
                assert(acc =~= children_of(*self));
            },
            SemanticNodeData::VarIndex { index } => {
                push_all(&mut r, index, Ghost(acc));
                proof { acc = acc + index@; }
                assert(acc =~= children_of(*self));
            },
            _ => {
                assert(acc =~= children_of(*self));
            },
        }
        proof {
            if is_leaf_node(*self) {
                assert(acc =~= children_of(*self));
            }
        }
        r
    }
}

impl SemanticNode {
    fn save_leaf(&self, output: &mut String, count: u32, warnings: &mut Vec<Token>)
        requires
            is_leaf_node(*self),
        ensures
            final(output)@ == old(output)@ + leaf_text(*self, count as nat),
            tokens_view(final(warnings)@) == tokens_view(old(warnings)@) + dot_warnings(*self),
    {
        let ghost o0 = output@;
        let ghost w0 = tokens_view(warnings@);
        let mut label = String::new();
        let draw = match &self.children {
            SemanticNodeData::Constant { value } => {
                label = value.debug_string();
                true
            },
            SemanticNodeData::OpExpression { op } => {
                label.append(op.debug_name());
                true
            },
            SemanticNodeData::OpNumexpression { op } => {
                label.append(op.debug_name());
                true
            },
            SemanticNodeData::OpTerm { op } => {
                label.append(op.debug_name());
                true
            },
            SemanticNodeData::Returnstat { .. } => {
                label.append("ReturnStatement");
                true
            },
            SemanticNodeData::Terminal { value: token } => match &token.value {
                Some(v) => {
                    let d = v.debug_string();
                    push_escaped_quotes(&mut label, d.as_str());
                    true
                },
                None => {
                    let ghost wv = warnings@;
                    warnings.push(token.duplicate());
                    assert(tokens_view(warnings@) =~= tokens_view(wv).push(token@));
                    false
                },
            },
            _ => false,
        };
        if draw {
            output.append("  ");
            push_u64(output, count as u64);
            output.append(" [label=\"");
            output.append(label.as_str());
            output.append("\"]\n");
        }
        proof {
            let lt = leaf_text(*self, count as nat);
            match &self.children {
                SemanticNodeData::Terminal { value } => {
                    if value.value is None {
                        assert(output@ =~= o0 + lt);
                    } else {
                        assert(output@ =~= o0 + lt);
                        assert(tokens_view(warnings@) =~= w0 + dot_warnings(*self));
                    }
                },
                _ => {
                    assert(output@ =~= o0 + lt);
                    assert(tokens_view(warnings@) =~= w0 + dot_warnings(*self));
                },
            }
        }
    }

    /// Appends the DOT lines of this subtree to `output`, with its root as
    /// graph node `*count`; the counter advances by one per edge, and the
    /// terminals without a value are collected in `warnings`.
    pub fn save(&self, output: &mut String, count: &mut u32, warnings: &mut Vec<Token>)
        requires
            *old(count) + node_edges(*self) <= u32::MAX,
        ensures
            final(output)@ == old(output)@ + dot_text(*self, *old(count) as nat),
            *final(count) == *old(count) + node_edges(*self),
            tokens_view(final(warnings)@) == tokens_view(old(warnings)@) + dot_warnings(*self),
        decreases self, children_of(*self).len() + 1,
    {
        if self.is_leaf() {
            self.save_leaf(output, *count, warnings);
            return;
        }
        let ghost o0 = output@;
        let ghost w0 = tokens_view(warnings@);
        let ghost c0 = *count as nat;
        let name = *count;
        output.append("  ");
        push_u64(output, name as u64);
        output.append(" [label=\"");
        output.append(self.label());
        output.append("\"]\n");
        let ghost total = o0 + label_line(c0, node_label(*self)) + dot_from(*self, 0, c0, c0);
        assert(output@ + dot_from(*self, 0, c0, c0) =~= total);
        assert(tokens_view(warnings@) + warnings_from(*self, 0) =~= w0 + warnings_from(*self, 0));
        let kids = self.parts();
        let mut i: usize = 0;
        while i < kids.len()
            invariant
                refs_match(kids@, children_of(*self)),
                i <= kids@.len(),
                name as nat == c0,
                !is_leaf_node(*self),
                output@ + dot_from(*self, i as int, c0, *count as nat) == total,
                c0 + edges_from(*self, 0) == *count + edges_from(*self, i as int),
                c0 + node_edges(*self) <= u32::MAX,
                tokens_view(warnings@) + warnings_from(*self, i as int) == w0 + warnings_from(*self, 0),
            decreases kids.len() - i,
        {
            let ghost ci = *count as nat;
            let ghost k = children_of(*self)[i as int];
            proof {
                lemma_child_decreases(*self, i as int);
            }
            let ghost oi = output@;
            output.append("  ");
            push_u64(output, name as u64);
            output.append(" -> ");
            push_u64(output, (*count + 1) as u64);
            output.append("\n");
            assert(output@ =~= oi + edge_line(c0, ci + 1));
            *count += 1;
            let ghost wi = tokens_view(warnings@);
            kids[i].save(output, count, warnings);
            proof {
                let rest = dot_from(*self, i + 1, c0, ci + 1 + node_edges(k));
                assert(dot_from(*self, i as int, c0, ci) == edge_line(c0, ci + 1) + dot_text(k, ci + 1) + rest);
                assert(oi + (edge_line(c0, ci + 1) + dot_text(k, ci + 1) + rest)
                    =~= oi + edge_line(c0, ci + 1) + dot_text(k, ci + 1) + rest);
                assert(warnings_from(*self, i as int) == dot_warnings(k) + warnings_from(*self, i + 1));
                assert(wi + (dot_warnings(k) + warnings_from(*self, i + 1)) =~= wi + dot_warnings(k) + warnings_from(*self, i + 1));
            }
            i = i + 1;
        }
        proof {
            assert(output@ + Seq::<char>::empty() =~= output@);
            assert(tokens_view(warnings@) + Seq::<TokenView>::empty() =~= tokens_view(warnings@));
        }
    }

    fn is_leaf(&self) -> (r: bool)
        ensures
            r == is_leaf_node(*self),
    {
        match &self.children {
            SemanticNodeData::Constant { .. } | SemanticNodeData::OpExpression { .. }
            | SemanticNodeData::OpNumexpression { .. } | SemanticNodeData::OpTerm { .. }
            | SemanticNodeData::Returnstat { .. } | SemanticNodeData::Terminal { .. } => true,
            _ => false,
        }
    }
}

} // verus!
