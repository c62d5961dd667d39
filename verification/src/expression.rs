//! Expression trees: operators applied to operands, built from the
//! expressions of a program and rendered in the DOT graph language.

use vstd::prelude::*;
use crate::text::{dec_digits, int_text, escape_quotes, push_i64, push_u64, push_escaped_quotes, str_chars};

verus! {

/// The operators of arithmetic and comparison expressions.
#[derive(Clone, Copy, Debug, PartialEq, Eq, Structural)]
pub enum Operator {
    Eq,
    Gt,
    Ge,
    Lt,
    Le,
    Plus,
    Minus,
    Multiply,
    Division,
    Modular,
}

/// The symbol with which an operator is displayed.
pub open spec fn operator_symbol(op: Operator) -> Seq<char> {
    match op {
        Operator::Eq => "=="@,
        Operator::Gt => ">"@,
        Operator::Ge => ">="@,
        Operator::Lt => "<"@,
        Operator::Le => "<="@,
        Operator::Plus => "+"@,
        Operator::Minus => "-"@,
        Operator::Multiply => "*"@,
        Operator::Division => "/"@,
        Operator::Modular => "%"@,
    }
}

impl Operator {
    /// The symbol with which this operator is displayed.
    pub fn symbol(&self) -> (r: &'static str)
        ensures
            r@ == operator_symbol(*self),
    {
        match self {
            Operator::Eq => "==",
            Operator::Gt => ">",
            Operator::Ge => ">=",
            Operator::Lt => "<",
            Operator::Le => "<=",
            Operator::Plus => "+",
            Operator::Minus => "-",
            Operator::Multiply => "*",
            Operator::Division => "/",
            Operator::Modular => "%",
        }
    }
}

/// A leaf of an expression tree. A floating-point constant is held as the
/// text with which it was written.
#[derive(Debug, PartialEq)]
pub enum Operand {
    Integer(i64),
    Float(String),
    String(String),
    Identifier(String),
}

/// How an operand is displayed: integers in decimal, floating-point constants
/// as written, strings with their double quotes escaped, and identifiers as
/// a function (names that start with `@`) or a variable.
pub open spec fn operand_text(o: Operand) -> Seq<char> {
    match o {
        Operand::Integer(i) => int_text(i as int),
        Operand::Float(f) => f@,
        Operand::String(s) => escape_quotes(s@),
        Operand::Identifier(id) => if id@.len() > 0 && id@[0] == '@' {
            "Função "@ + id@
        } else {
            "Variável "@ + id@
        },
    }
}

impl Operand {
    /// Appends the displayed text of this operand to `out`.
    pub fn push_text(&self, out: &mut String)
        ensures
            final(out)@ == old(out)@ + operand_text(*self),
    {
        match self {
            Operand::Integer(i) => push_i64(out, *i),
            Operand::Float(f) => out.append(f.as_str()),
            Operand::String(s) => push_escaped_quotes(out, s.as_str()),
            Operand::Identifier(id) => {
                let cs = str_chars(id.as_str());
                if cs.len() > 0 && cs[0] == '@' {
                    out.append("Função ");
                } else {
                    out.append("Variável ");
                }
                out.append(id.as_str());
                assert(final(out)@ =~= old(out)@ + operand_text(*self));
            },
        }
    }

    /// The displayed text of this operand.
    pub fn to_display_string(&self) -> (s: String)
        ensures
            s@ == operand_text(*self),
    {
        let mut s = String::new();
        self.push_text(&mut s);
        assert(s@ =~= operand_text(*self));
        s
    }
}

/// A node of an expression tree.
#[derive(Debug, PartialEq)]
pub enum ExpressionTreeNode {
    BinaryOperator { operator: Operator, left: Box<ExpressionTreeNode>, right: Box<ExpressionTreeNode> },
    UnaryOperator { operator: Operator, operand: Box<ExpressionTreeNode> },
    Operand { value: Operand },
}

/// An expression tree.
#[derive(Debug, PartialEq)]
pub struct ExpressionTree {
    pub root: ExpressionTreeNode,
}

/// The number of graph nodes that the DOT rendering of `n` numbers.
pub open spec fn dot_count(n: ExpressionTreeNode) -> nat
    decreases n,
{
    match n {
        ExpressionTreeNode::BinaryOperator { left, right, .. } => 2 + dot_count(*left) + dot_count(*right),
        ExpressionTreeNode::UnaryOperator { operand, .. } => 1 + dot_count(*operand),
        ExpressionTreeNode::Operand { .. } => 1,
    }
}

/// The DOT line that declares graph node `id` with a label.
pub open spec fn dot_label_line(id: nat, label: Seq<char>) -> Seq<char> {
    "  "@ + dec_digits(id) + " [label=\""@ + label + "\"];\n"@
}

/// The DOT line of an edge from graph node `a` to graph node `b`.
pub open spec fn dot_edge_line(a: nat, b: nat) -> Seq<char> {
    "  "@ + dec_digits(a) + " -> "@ + dec_digits(b) + ";\n"@
}

/// The DOT lines of the subtree `n`, whose graph nodes are numbered from
/// `c` in preorder.
pub open spec fn node_dot(n: ExpressionTreeNode, c: nat) -> Seq<char>
    decreases n,
{
    match n {
        ExpressionTreeNode::BinaryOperator { operator, left, right } => {
            let c2 = c + 1 + dot_count(*left);
            dot_label_line(c, operator_symbol(operator)) + dot_edge_line(c, c + 1)
                + node_dot(*left, c + 1) + dot_edge_line(c, c2 + 1) + node_dot(*right, c2 + 1)
        },
        ExpressionTreeNode::UnaryOperator { operator, operand } => {
            dot_label_line(c, operator_symbol(operator)) + dot_edge_line(c, c + 1)
                + node_dot(*operand, c + 1)
        },
        ExpressionTreeNode::Operand { value } => dot_label_line(c, operand_text(value)),
    }
}

/// The DOT document of an expression tree.
pub open spec fn tree_dot(t: ExpressionTree) -> Seq<char> {
    "digraph ExpressionTree {\n"@ + node_dot(t.root, 0) + "}\n"@
}

fn push_label_line(out: &mut String, id: usize)
    ensures
        final(out)@ == old(out)@ + "  "@ + dec_digits(id as nat) + " [label=\""@,
{
    out.append("  ");
    push_u64(out, id as u64);
    out.append(" [label=\"");
}

fn push_edge_line(out: &mut String, a: usize, b: usize)
    ensures
        final(out)@ == old(out)@ + dot_edge_line(a as nat, b as nat),
{
    out.append("  ");
    push_u64(out, a as u64);
    out.append(" -> ");
    push_u64(out, b as u64);
    out.append(";\n");
    assert(final(out)@ =~= old(out)@ + dot_edge_line(a as nat, b as nat));
}

impl ExpressionTreeNode {
    #[verifier::spinoff_prover]
    #[verifier::rlimit(40)]
    /// Appends the DOT lines of this subtree to `output`, numbering its graph
    /// nodes from `*counter`, and advances the counter past them.
    pub fn save(&self, output: &mut String, counter: &mut usize)
        requires
            *old(counter) + dot_count(*self) <= usize::MAX,
        ensures
            final(output)@ == old(output)@ + node_dot(*self, *old(counter) as nat),
            *final(counter) == *old(counter) + dot_count(*self),
        decreases self,
    {
        let ghost o0 = output@;
        let ghost c0 = *counter as nat;
        match self {
            ExpressionTreeNode::BinaryOperator { operator, left, right } => {
                let name = *counter;
                push_label_line(output, name);
                output.append(operator.symbol());
                output.append("\"];\n");
                assert(output@ =~= o0 + dot_label_line(c0, operator_symbol(*operator)));
                push_edge_line(output, name, *counter + 1);
                *counter += 1;
                let ghost o1 = output@;
                left.save(output, counter);
                let ghost c2 = *counter as nat;
                assert(c2 == c0 + 1 + dot_count(**left));
                push_edge_line(output, name, *counter + 1);
                *counter += 1;
                let ghost o2 = output@;
                assert(o2 == o1 + node_dot(**left, c0 + 1) + dot_edge_line(c0, c2 + 1));
                right.save(output, counter);
                proof {
                    let a = dot_label_line(c0, operator_symbol(*operator));
                    let b = dot_edge_line(c0, c0 + 1);
                    let l = node_dot(**left, c0 + 1);
                    let e = dot_edge_line(c0, c2 + 1);
                    let r = node_dot(**right, c2 + 1);
                    assert(o1 == o0 + a + b);
                    assert(output@ == o0 + a + b + l + e + r);
                    assert(node_dot(*self, c0) == a + b + l + e + r);
                    assert(o0 + a + b + l + e + r =~= o0 + (a + b + l + e + r));
                }
            },
            ExpressionTreeNode::UnaryOperator { operator, operand } => {
                let name = *counter;
                push_label_line(output, name);
                output.append(operator.symbol());
                output.append("\"];\n");
                assert(output@ =~= o0 + dot_label_line(c0, operator_symbol(*operator)));
                push_edge_line(output, name, *counter + 1);
                *counter += 1;
                operand.save(output, counter);
                proof {
                    let a = dot_label_line(c0, operator_symbol(*operator));
                    let b = dot_edge_line(c0, c0 + 1);
                    let l = node_dot(**operand, c0 + 1);
                    assert(output@ == o0 + a + b + l);
                    assert(o0 + a + b + l =~= o0 + (a + b + l));
                }
            },
            ExpressionTreeNode::Operand { value } => {
                push_label_line(output, *counter);
                value.push_text(output);
                output.append("\"];\n");
                *counter += 1;
                assert(output@ =~= o0 + node_dot(*self, c0));
            },
        }
    }
}

impl ExpressionTree {
    /// The DOT document that saving this tree writes.
    pub fn save(&self) -> (s: String)
        requires
            dot_count(self.root) <= usize::MAX,
        ensures
            s@ == tree_dot(*self),
    {
        let mut output = String::new();
        output.append("digraph ExpressionTree {\n");
        let mut counter: usize = 0;
        self.root.save(&mut output, &mut counter);
        output.append("}\n");
        assert(output@ =~= tree_dot(*self));
        output
    }
}

/// The mathematical view of an operand.
pub enum OperandView {
    Integer(i64),
    Float(Seq<char>),
    Str(Seq<char>),
    Identifier(Seq<char>),
}

/// The mathematical view of an expression tree.
pub enum ExprView {
    Binary(Operator, Box<ExprView>, Box<ExprView>),
    Unary(Operator, Box<ExprView>),
    Leaf(OperandView),
}

/// The view of an operand.
pub open spec fn operand_view(o: Operand) -> OperandView {
    match o {
        Operand::Integer(i) => OperandView::Integer(i),
        Operand::Float(f) => OperandView::Float(f@),
        Operand::String(s) => OperandView::Str(s@),
        Operand::Identifier(id) => OperandView::Identifier(id@),
    }
}

/// The view of an expression tree node.
pub open spec fn expr_view(n: ExpressionTreeNode) -> ExprView
    decreases n,
{
    match n {
        ExpressionTreeNode::BinaryOperator { operator, left, right } =>
            ExprView::Binary(operator, Box::new(expr_view(*left)), Box::new(expr_view(*right))),
        ExpressionTreeNode::UnaryOperator { operator, operand } => ExprView::Unary(operator, Box::new(expr_view(*operand))),
        ExpressionTreeNode::Operand { value } => ExprView::Leaf(operand_view(value)),
    }
}

/// The views of the roots of a list of expression trees.
pub open spec fn trees_view(t: Seq<ExpressionTree>) -> Seq<ExprView> {
    t.map_values(|x: ExpressionTree| expr_view(x.root))
}

} // verus!
