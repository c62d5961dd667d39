//! Building the expression trees of a program from its semantic tree: every
//! EXPRESSION yields one tree, in the order in which the tree is walked.

use vstd::prelude::*;
use crate::const_type::ConstType;
use crate::token::Token;
use crate::token_type::{TokenType, spec_is_operator, spec_operator};
use crate::semantic_node::SemanticNodeData;
use crate::semantic::SemanticNode;
use crate::expression::{
    ExpressionTree, ExpressionTreeNode, Operand, OperandView, ExprView, expr_view, trees_view,
};

verus! {

/// How building the tree of a node ends: with the node built for it (if
/// any) and the list of finished trees, or by aborting where the walk meets
/// a shape it cannot handle.
pub enum Built {
    Done(Option<ExprView>, Seq<ExprView>),
    Abort,
}

/// The outcome with its node dropped.
pub open spec fn dropped(b: Built) -> Built {
    match b {
        Built::Done(_, t) => Built::Done(None, t),
        Built::Abort => Built::Abort,
    }
}

/// Walks a node: the expression trees that it and its descendants yield
/// are appended to `trees`, and the node built for an expression part is
/// returned.
pub open spec fn build(n: SemanticNode, trees: Seq<ExprView>) -> Built
    decreases n, 1int,
{
    match n.children {
        SemanticNodeData::Atribstat { value, .. } => dropped(build(*value, trees)),
        SemanticNodeData::Atribstatevalue { expression, .. } => build_opt(expression, trees),
        SemanticNodeData::Constant { value } => match value {
            ConstType::Int(i) => Built::Done(Some(ExprView::Leaf(OperandView::Integer(i))), trees),
            ConstType::Float(f) => Built::Done(Some(ExprView::Leaf(OperandView::Float(f@))), trees),
            ConstType::String(s) => Built::Done(Some(ExprView::Leaf(OperandView::Str(s@))), trees),
            ConstType::VarType(_) => Built::Abort,
        },
        SemanticNodeData::Elsestat { statement } => dropped(build(*statement, trees)),
        SemanticNodeData::Expression { .. } => build_expression(n, trees),
        SemanticNodeData::Factor { .. } => build_factor(n, trees),
        SemanticNodeData::Forstat { .. } => build_for(n, trees),
        SemanticNodeData::Funcdef { statelist, .. } => dropped(build(*statelist, trees)),
        SemanticNodeData::Funclist { funclist } => build_list(funclist@, 0, trees),
        SemanticNodeData::Ifstat { .. } => build_if(n, trees),
        SemanticNodeData::Lvalue { .. } => build_lvalue(n, trees),
        SemanticNodeData::Numexpression { .. } => build_binary(n, trees),
        SemanticNodeData::Printstat { expression } => dropped(build(*expression, trees)),
        SemanticNodeData::Program { .. } => build_program(n, trees),
        SemanticNodeData::Statelist { statelist } => build_list(statelist@, 0, trees),
        SemanticNodeData::Statement { .. } => build_statement(n, trees),
        SemanticNodeData::Term { .. } => build_binary(n, trees),
        SemanticNodeData::Terminal { value } => build_terminal(value, trees),
        SemanticNodeData::Unaryexpression { .. } => build_unary(n, trees),
        SemanticNodeData::VarIndex { index } => build_list(index@, 0, trees),
        _ => Built::Done(None, trees),
    }
}

/// Walks an optional node, dropping what it builds.
pub open spec fn build_opt(o: Option<Box<SemanticNode>>, trees: Seq<ExprView>) -> Built
    decreases o, 0int,
{
    match o {
        Some(x) => dropped(build(*x, trees)),
        None => Built::Done(None, trees),
    }
}

/// Walks the nodes `s[i..]`, dropping what they build.
pub open spec fn build_list(s: Seq<SemanticNode>, i: int, trees: Seq<ExprView>) -> Built
    decreases s, s.len() - i,
{
    if i < 0 || i >= s.len() {
        Built::Done(None, trees)
    } else {
        match build(s[i], trees) {
            Built::Done(_, t) => build_list(s, i + 1, t),
            Built::Abort => Built::Abort,
        }
    }
}

/// EXPRESSION: its tree (a comparison node over its two operands, or its
/// only operand) is appended to the finished trees.
pub open spec fn build_expression(n: SemanticNode, trees: Seq<ExprView>) -> Built
    decreases n, 0int,
{
    match n.children {
        SemanticNodeData::Expression { numexpression, op_expression, numexpression2 } => match op_expression {
            Some(op) => match build(*numexpression, trees) {
                Built::Done(Some(n1), t1) => match numexpression2 {
                    Some(m) => match build(*m, t1) {
                        Built::Done(Some(n2), t2) => match op.children {
                            SemanticNodeData::OpExpression { op: o } => if spec_is_operator(o) {
                                Built::Done(None, t2.push(ExprView::Binary(spec_operator(o), Box::new(n1), Box::new(n2))))
                            } else {
                                Built::Abort
                            },
                            _ => Built::Abort,
                        },
                        _ => Built::Abort,
                    },
                    None => Built::Abort,
                },
                _ => Built::Abort,
            },
            None => match build(*numexpression, trees) {
                Built::Done(Some(r), t1) => Built::Done(None, t1.push(r)),
                _ => Built::Abort,
            },
        },
        _ => Built::Abort,
    }
}

/// FACTOR: the node of the alternative it holds.
pub open spec fn build_factor(n: SemanticNode, trees: Seq<ExprView>) -> Built
    decreases n, 0int,
{
    match n.children {
        SemanticNodeData::Factor { expression, lvalue, constant } => match expression {
            Some(e) => build(*e, trees),
            None => match lvalue {
                Some(l) => build(*l, trees),
                None => match constant {
                    Some(c) => build(*c, trees),
                    None => Built::Abort,
                },
            },
        },
        _ => Built::Abort,
    }
}

/// FORSTAT: its clauses, then its body.
pub open spec fn build_for(n: SemanticNode, trees: Seq<ExprView>) -> Built
    decreases n, 0int,
{
    match n.children {
        SemanticNodeData::Forstat { init, condition, increment, body } => match build(*init, trees) {
            Built::Done(_, t1) => match build(*condition, t1) {
                Built::Done(_, t2) => match build(*increment, t2) {
                    Built::Done(_, t3) => dropped(build(*body, t3)),
                    Built::Abort => Built::Abort,
                },
                Built::Abort => Built::Abort,
            },
            Built::Abort => Built::Abort,
        },
        _ => Built::Abort,
    }
}

/// IFSTAT: its condition, then its branches.
pub open spec fn build_if(n: SemanticNode, trees: Seq<ExprView>) -> Built
    decreases n, 0int,
{
    match n.children {
        SemanticNodeData::Ifstat { condition, then_branch, else_branch } => match build(*condition, trees) {
            Built::Done(_, t1) => match build(*then_branch, t1) {
                Built::Done(_, t2) => build_opt(else_branch, t2),
                Built::Abort => Built::Abort,
            },
            Built::Abort => Built::Abort,
        },
        _ => Built::Abort,
    }
}

/// LVALUE: its indexes are walked, and it is a leaf naming its identifier.
pub open spec fn build_lvalue(n: SemanticNode, trees: Seq<ExprView>) -> Built
    decreases n, 0int,
{
    match n.children {
        SemanticNodeData::Lvalue { id, var_index } => match build_opt(var_index, trees) {
            Built::Done(_, t1) => match id.children {
                SemanticNodeData::Terminal { value: tok } => match tok.value {
                    Some(ConstType::String(s)) => Built::Done(Some(ExprView::Leaf(OperandView::Identifier(s@))), t1),
                    _ => Built::Abort,
                },
                _ => Built::Abort,
            },
            Built::Abort => Built::Abort,
        },
        _ => Built::Abort,
    }
}

/// NUMEXPRESSION and TERM: an operator node over the two operands, or the
/// only operand.
pub open spec fn build_binary(n: SemanticNode, trees: Seq<ExprView>) -> Built
    decreases n, 0int,
{
    match n.children {
        SemanticNodeData::Numexpression { term, op_numexpression, term2 } => match op_numexpression {
            Some(op) => match build(*term, trees) {
                Built::Done(Some(n1), t1) => match term2 {
                    Some(m) => match build(*m, t1) {
                        Built::Done(Some(n2), t2) => match op.children {
                            SemanticNodeData::OpNumexpression { op: o } => if spec_is_operator(o) {
                                Built::Done(Some(ExprView::Binary(spec_operator(o), Box::new(n1), Box::new(n2))), t2)
                            } else {
                                Built::Abort
                            },
                            _ => Built::Abort,
                        },
                        _ => Built::Abort,
                    },
                    None => Built::Abort,
                },
                _ => Built::Abort,
            },
            None => match build(*term, trees) {
                Built::Done(Some(r), t1) => Built::Done(Some(r), t1),
                _ => Built::Abort,
            },
        },
        SemanticNodeData::Term { unaryexpression, op_term, unaryexpression2 } => match op_term {
            Some(op) => match build(*unaryexpression, trees) {
                Built::Done(Some(n1), t1) => match unaryexpression2 {
                    Some(m) => match build(*m, t1) {
                        Built::Done(Some(n2), t2) => match op.children {
                            SemanticNodeData::OpTerm { op: o } => if spec_is_operator(o) {
                                Built::Done(Some(ExprView::Binary(spec_operator(o), Box::new(n1), Box::new(n2))), t2)
                            } else {
                                Built::Abort
                            },
                            _ => Built::Abort,
                        },
                        _ => Built::Abort,
                    },
                    None => Built::Abort,
                },
                _ => Built::Abort,
            },
            None => match build(*unaryexpression, trees) {
                Built::Done(Some(r), t1) => Built::Done(Some(r), t1),
                _ => Built::Abort,
            },
        },
        _ => Built::Abort,
    }
}

/// PROGRAM: its function list, then its statement.
pub open spec fn build_program(n: SemanticNode, trees: Seq<ExprView>) -> Built
    decreases n, 0int,
{
    match n.children {
        SemanticNodeData::Program { funclist, statement } => match build_opt(funclist, trees) {
            Built::Done(_, t1) => build_opt(statement, t1),
            Built::Abort => Built::Abort,
        },
        _ => Built::Abort,
    }
}

/// STATEMENT: each alternative it holds other than a declaration, in order.
pub open spec fn build_statement(n: SemanticNode, trees: Seq<ExprView>) -> Built
    decreases n, 0int,
{
    match n.children {
        SemanticNodeData::Statement { atribstat, ifstat, forstat, statelist, commandstat, .. } => match build_opt(atribstat, trees) {
            Built::Done(_, t1) => match build_opt(ifstat, t1) {
                Built::Done(_, t2) => match build_opt(forstat, t2) {
                    Built::Done(_, t3) => match build_opt(statelist, t3) {
                        Built::Done(_, t4) => build_opt(commandstat, t4),
                        Built::Abort => Built::Abort,
                    },
                    Built::Abort => Built::Abort,
                },
                Built::Abort => Built::Abort,
            },
            Built::Abort => Built::Abort,
        },
        _ => Built::Abort,
    }
}

/// UNARYEXPRESSION: an operator node over its factor, or its factor.
pub open spec fn build_unary(n: SemanticNode, trees: Seq<ExprView>) -> Built
    decreases n, 0int,
{
    match n.children {
        SemanticNodeData::Unaryexpression { op, factor } => match op {
            Some(o) => match o.children {
                SemanticNodeData::OpNumexpression { op: t } => if spec_is_operator(t) {
                    match build(*factor, trees) {
                        Built::Done(Some(x), t1) => Built::Done(Some(ExprView::Unary(spec_operator(t), Box::new(x))), t1),
                        _ => Built::Abort,
                    }
                } else {
                    Built::Abort
                },
                _ => Built::Abort,
            },
            None => build(*factor, trees),
        },
        _ => Built::Abort,
    }
}

/// A terminal: a constant or identifier is a leaf; other tokens build
/// nothing.
pub open spec fn build_terminal(tok: Token, trees: Seq<ExprView>) -> Built {
    match tok.token_type {
        TokenType::ConstInt => match tok.value {
            Some(ConstType::Int(i)) => Built::Done(Some(ExprView::Leaf(OperandView::Integer(i))), trees),
            _ => Built::Abort,
        },
        TokenType::ConstFloat => match tok.value {
            Some(ConstType::Float(f)) => Built::Done(Some(ExprView::Leaf(OperandView::Float(f@))), trees),
            _ => Built::Abort,
        },
        TokenType::ConstString => match tok.value {
            Some(ConstType::String(s)) => Built::Done(Some(ExprView::Leaf(OperandView::Str(s@))), trees),
            _ => Built::Abort,
        },
        TokenType::Id => match tok.value {
            Some(ConstType::String(s)) => Built::Done(Some(ExprView::Leaf(OperandView::Identifier(s@))), trees),
            _ => Built::Abort,
        },
        _ => Built::Done(None, trees),
    }
}

/// How building ended.
pub enum BuildResult {
    Done(Option<ExpressionTreeNode>),
    Abort,
}

/// The view of an optional node.
pub open spec fn opt_view(o: Option<ExpressionTreeNode>) -> Option<ExprView> {
    match o {
        Some(x) => Some(expr_view(x)),
        None => None,
    }
}

/// `r` (with the finished trees `t` after it) is what `b` describes.
pub open spec fn built_matches(r: BuildResult, b: Built, t: Seq<ExprView>) -> bool {
    match b {
        Built::Done(v, t2) => r is Done && opt_view(r->Done_0) == v && t == t2,
        Built::Abort => r is Abort,
    }
}

fn push_tree(trees: &mut Vec<ExpressionTree>, root: ExpressionTreeNode)
    ensures
        trees_view(final(trees)@) == trees_view(old(trees)@).push(expr_view(root)),
{
    let ghost r = expr_view(root);
    trees.push(ExpressionTree { root });
    assert(trees_view(trees@) =~= trees_view(old(trees)@).push(r));
}

fn drop_node(r: BuildResult) -> (d: BuildResult)
    ensures
        r is Done ==> d is Done && d->Done_0 is None,
        r is Abort ==> d is Abort,
{
    match r {
        BuildResult::Done(_) => BuildResult::Done(None),
        BuildResult::Abort => BuildResult::Abort,
    }
}

/// Walks an optional node (see [`build_opt`]).
fn build_opt_exec(o: &Option<Box<SemanticNode>>, trees: &mut Vec<ExpressionTree>) -> (r: BuildResult)
    ensures
        built_matches(r, build_opt(*o, trees_view(old(trees)@)), trees_view(final(trees)@)),
    decreases o, 0int,
{
    match o {
        Some(x) => drop_node(x.create_tree(trees)),
        None => BuildResult::Done(None),
    }
}

/// Walks a list of nodes (see [`build_list`]).
fn build_list_exec(v: &Vec<SemanticNode>, trees: &mut Vec<ExpressionTree>) -> (r: BuildResult)
    ensures
        built_matches(r, build_list(v@, 0, trees_view(old(trees)@)), trees_view(final(trees)@)),
    decreases v, 0int,
{
    let mut i: usize = 0;
    while i < v.len()
        invariant
            i <= v@.len(),
            build_list(v@, 0, trees_view(old(trees)@)) == build_list(v@, i as int, trees_view(trees@)),
        decreases v.len() - i,
    {
        match v[i].create_tree(trees) {
            BuildResult::Done(_) => {},
            BuildResult::Abort => return BuildResult::Abort,
        }
        i = i + 1;
    }
    BuildResult::Done(None)
}

fn leaf(o: Operand) -> (n: ExpressionTreeNode)
    ensures
        expr_view(n) == ExprView::Leaf(crate::expression::operand_view(o)),
{
    ExpressionTreeNode::Operand { value: o }
}

impl SemanticNode {
    /// Walks this node, appending the expression trees it yields to `trees`
    /// (see [`build`]).
    pub fn create_tree(&self, trees: &mut Vec<ExpressionTree>) -> (r: BuildResult)
        ensures
            built_matches(r, build(*self, trees_view(old(trees)@)), trees_view(final(trees)@)),
        decreases self, 1int,
    {
        match &self.children {
            SemanticNodeData::Atribstat { value, .. } => drop_node(value.create_tree(trees)),
            SemanticNodeData::Atribstatevalue { expression, .. } => build_opt_exec(expression, trees),
            SemanticNodeData::Constant { value } => match value {
                ConstType::Int(i) => BuildResult::Done(Some(leaf(Operand::Integer(*i)))),
                ConstType::Float(f) => BuildResult::Done(Some(leaf(Operand::Float(f.clone())))),
                ConstType::String(s) => BuildResult::Done(Some(leaf(Operand::String(s.clone())))),
                ConstType::VarType(_) => BuildResult::Abort,
            },
            SemanticNodeData::Elsestat { statement } => drop_node(statement.create_tree(trees)),
            SemanticNodeData::Expression { .. } => self.create_expression(trees),
            SemanticNodeData::Factor { .. } => self.create_factor(trees),
            SemanticNodeData::Forstat { .. } => self.create_for(trees),
            SemanticNodeData::Funcdef { statelist, .. } => drop_node(statelist.create_tree(trees)),
            SemanticNodeData::Funclist { funclist } => build_list_exec(funclist, trees),
            SemanticNodeData::Ifstat { .. } => self.create_if(trees),
            SemanticNodeData::Lvalue { .. } => self.create_lvalue(trees),
            SemanticNodeData::Numexpression { .. } => self.create_binary(trees),
            SemanticNodeData::Printstat { expression } => drop_node(expression.create_tree(trees)),
            SemanticNodeData::Program { .. } => self.create_program(trees),
            SemanticNodeData::Statelist { statelist } => build_list_exec(statelist, trees),
            SemanticNodeData::Statement { .. } => self.create_statement(trees),
            SemanticNodeData::Term { .. } => self.create_binary(trees),
            SemanticNodeData::Terminal { value } => build_terminal_exec(value),
            SemanticNodeData::Unaryexpression { .. } => self.create_unary(trees),
            SemanticNodeData::VarIndex { index } => build_list_exec(index, trees),
            _ => BuildResult::Done(None),
        }
    }

    fn create_expression(&self, trees: &mut Vec<ExpressionTree>) -> (r: BuildResult)
        ensures
            built_matches(r, build_expression(*self, trees_view(old(trees)@)), trees_view(final(trees)@)),
        decreases self, 0int,
    {
        match &self.children {
            SemanticNodeData::Expression { numexpression, op_expression, numexpression2 } => {
                match op_expression {
                    Some(op) => {
                        let n1 = match numexpression.create_tree(trees) {
                            BuildResult::Done(Some(x)) => x,
                            _ => return BuildResult::Abort,
                        };
                        let n2 = match numexpression2 {
                            Some(m) => match m.create_tree(trees) {
                                BuildResult::Done(Some(x)) => x,
                                _ => return BuildResult::Abort,
                            },
                            None => return BuildResult::Abort,
                        };
                        match &op.children {
                            SemanticNodeData::OpExpression { op: o } => {
                                if !is_operator_token(*o) {
                                    return BuildResult::Abort;
                                }
                                let root = ExpressionTreeNode::BinaryOperator {
                                    operator: o.get_operator_type(),
                                    left: Box::new(n1),
                                    right: Box::new(n2),
                                };
                                push_tree(trees, root);
                                BuildResult::Done(None)
                            },
                            _ => BuildResult::Abort,
                        }
                    },
                    None => {
                        let root = match numexpression.create_tree(trees) {
                            BuildResult::Done(Some(x)) => x,
                            _ => return BuildResult::Abort,
                        };
                        push_tree(trees, root);
                        BuildResult::Done(None)
                    },
                }
                        },
            _ => BuildResult::Abort,
        }
    }

    fn create_factor(&self, trees: &mut Vec<ExpressionTree>) -> (r: BuildResult)
        ensures
            built_matches(r, build_factor(*self, trees_view(old(trees)@)), trees_view(final(trees)@)),
        decreases self, 0int,
    {
        match &self.children {
            SemanticNodeData::Factor { expression, lvalue, constant } => {
                if let Some(e) = expression {
                    return e.create_tree(trees);
                }
                if let Some(l) = lvalue {
                    return l.create_tree(trees);
                }
                if let Some(c) = constant {
                    return c.create_tree(trees);
                }
                BuildResult::Abort
            },
            _ => BuildResult::Abort,
        }
    }

    fn create_for(&self, trees: &mut Vec<ExpressionTree>) -> (r: BuildResult)
        ensures
            built_matches(r, build_for(*self, trees_view(old(trees)@)), trees_view(final(trees)@)),
        decreases self, 0int,
    {
        match &self.children {
            SemanticNodeData::Forstat { init, condition, increment, body } => {
                if let BuildResult::Abort = init.create_tree(trees) {
                    return BuildResult::Abort;
                }
                if let BuildResult::Abort = condition.create_tree(trees) {
                    return BuildResult::Abort;
                }
                if let BuildResult::Abort = increment.create_tree(trees) {
                    return BuildResult::Abort;
                }
                drop_node(body.create_tree(trees))
            },
            _ => BuildResult::Abort,
        }
    }

    fn create_if(&self, trees: &mut Vec<ExpressionTree>) -> (r: BuildResult)
        ensures
            built_matches(r, build_if(*self, trees_view(old(trees)@)), trees_view(final(trees)@)),
        decreases self, 0int,
    {
        match &self.children {
            SemanticNodeData::Ifstat { condition, then_branch, else_branch } => {
                if let BuildResult::Abort = condition.create_tree(trees) {
                    return BuildResult::Abort;
                }
                if let BuildResult::Abort = then_branch.create_tree(trees) {
                    return BuildResult::Abort;
                }
                build_opt_exec(else_branch, trees)
            },
            _ => BuildResult::Abort,
        }
    }

    fn create_lvalue(&self, trees: &mut Vec<ExpressionTree>) -> (r: BuildResult)
        ensures
            built_matches(r, build_lvalue(*self, trees_view(old(trees)@)), trees_view(final(trees)@)),
        decreases self, 0int,
    {
        match &self.children {
            SemanticNodeData::Lvalue { id, var_index } => {
                if let BuildResult::Abort = build_opt_exec(var_index, trees) {
                    return BuildResult::Abort;
                }
                match &id.children {
                    SemanticNodeData::Terminal { value: tok } => match &tok.value {
                        Some(ConstType::String(s)) => BuildResult::Done(Some(leaf(Operand::Identifier(s.clone())))),
                        _ => BuildResult::Abort,
                    },
                    _ => BuildResult::Abort,
                }
            },
            _ => BuildResult::Abort,
        }
    }

    fn create_program(&self, trees: &mut Vec<ExpressionTree>) -> (r: BuildResult)
        ensures
            built_matches(r, build_program(*self, trees_view(old(trees)@)), trees_view(final(trees)@)),
        decreases self, 0int,
    {
        match &self.children {
            SemanticNodeData::Program { funclist, statement } => {
                if let BuildResult::Abort = build_opt_exec(funclist, trees) {
                    return BuildResult::Abort;
                }
                build_opt_exec(statement, trees)
            },
            _ => BuildResult::Abort,
        }
    }

    fn create_statement(&self, trees: &mut Vec<ExpressionTree>) -> (r: BuildResult)
        ensures
            built_matches(r, build_statement(*self, trees_view(old(trees)@)), trees_view(final(trees)@)),
        decreases self, 0int,
    {
        match &self.children {
            SemanticNodeData::Statement { atribstat, ifstat, forstat, statelist, commandstat, .. } => {
                if let BuildResult::Abort = build_opt_exec(atribstat, trees) {
                    return BuildResult::Abort;
                }
                if let BuildResult::Abort = build_opt_exec(ifstat, trees) {
                    return BuildResult::Abort;
                }
                if let BuildResult::Abort = build_opt_exec(forstat, trees) {
                    return BuildResult::Abort;
                }
                if let BuildResult::Abort = build_opt_exec(statelist, trees) {
                    return BuildResult::Abort;
                }
                build_opt_exec(commandstat, trees)
            },
            _ => BuildResult::Abort,
        }
    }

    fn create_unary(&self, trees: &mut Vec<ExpressionTree>) -> (r: BuildResult)
        ensures
            built_matches(r, build_unary(*self, trees_view(old(trees)@)), trees_view(final(trees)@)),
        decreases self, 0int,
    {
        match &self.children {
            SemanticNodeData::Unaryexpression { op, factor } => match op {
                Some(o) => match &o.children {
                    SemanticNodeData::OpNumexpression { op: t } => {
                        if !is_operator_token(*t) {
                            return BuildResult::Abort;
                        }
                        let operator = t.get_operator_type();
                        match factor.create_tree(trees) {
                            BuildResult::Done(Some(x)) => BuildResult::Done(Some(
                                ExpressionTreeNode::UnaryOperator { operator, operand: Box::new(x) },
                            )),
                            _ => BuildResult::Abort,
                        }
                    },
                    _ => BuildResult::Abort,
                },
                None => factor.create_tree(trees),
            },
            _ => BuildResult::Abort,
        }
    }

    fn create_binary(&self, trees: &mut Vec<ExpressionTree>) -> (r: BuildResult)
        ensures
            built_matches(r, build_binary(*self, trees_view(old(trees)@)), trees_view(final(trees)@)),
        decreases self, 0int,
    {
        let (first, op, second) = match &self.children {
            SemanticNodeData::Numexpression { term, op_numexpression, term2 } => (term, op_numexpression, term2),
            SemanticNodeData::Term { unaryexpression, op_term, unaryexpression2 } => (unaryexpression, op_term, unaryexpression2),
            _ => return BuildResult::Abort,
        };
        match op {
            Some(op) => {
                let n1 = match first.create_tree(trees) {
                    BuildResult::Done(Some(x)) => x,
                    _ => return BuildResult::Abort,
                };
                let n2 = match second {
                    Some(m) => match m.create_tree(trees) {
                        BuildResult::Done(Some(x)) => x,
                        _ => return BuildResult::Abort,
                    },
                    None => return BuildResult::Abort,
                };
                let o = match (&self.children, &op.children) {
                    (SemanticNodeData::Numexpression { .. }, SemanticNodeData::OpNumexpression { op: o }) => *o,
                    (SemanticNodeData::Term { .. }, SemanticNodeData::OpTerm { op: o }) => *o,
                    _ => return BuildResult::Abort,
                };
                if !is_operator_token(o) {
                    return BuildResult::Abort;
                }
                BuildResult::Done(Some(ExpressionTreeNode::BinaryOperator {
                    operator: o.get_operator_type(),
                    left: Box::new(n1),
                    right: Box::new(n2),
                }))
            },
            None => match first.create_tree(trees) {
                BuildResult::Done(Some(x)) => BuildResult::Done(Some(x)),
                _ => BuildResult::Abort,
            },
        }
    }
}

fn is_operator_token(t: TokenType) -> (r: bool)
    ensures
        r == spec_is_operator(t),
{
    match t {
        TokenType::OpEq | TokenType::OpGt | TokenType::OpGe | TokenType::OpLt | TokenType::OpLe
        | TokenType::OpPlus | TokenType::OpMinus | TokenType::OpMult | TokenType::OpDivision
        | TokenType::OpModular => true,
        _ => false,
    }
}

fn build_terminal_exec(tok: &Token) -> (r: BuildResult)
    ensures
        forall|t: Seq<ExprView>| built_matches(r, build_terminal(*tok, t), t),
{
    match tok.token_type {
        TokenType::ConstInt => match &tok.value {
            Some(ConstType::Int(i)) => BuildResult::Done(Some(leaf(Operand::Integer(*i)))),
            _ => BuildResult::Abort,
        },
        TokenType::ConstFloat => match &tok.value {
            Some(ConstType::Float(f)) => BuildResult::Done(Some(leaf(Operand::Float(f.clone())))),
            _ => BuildResult::Abort,
        },
        TokenType::ConstString => match &tok.value {
            Some(ConstType::String(s)) => BuildResult::Done(Some(leaf(Operand::String(s.clone())))),
            _ => BuildResult::Abort,
        },
        TokenType::Id => match &tok.value {
            Some(ConstType::String(s)) => BuildResult::Done(Some(leaf(Operand::Identifier(s.clone())))),
            _ => BuildResult::Abort,
        },
        _ => BuildResult::Done(None),
    }
}

} // verus!
