//! A program's semantic tree with the scopes it is analysed against.

use vstd::prelude::*;
use crate::semantic::{SemanticNode, ReturnSem, Outcome, sem};
use crate::semantic_exec::Analysis;
use crate::semantic_error::SemanticError;
use crate::scope_stack::ScopeStack;
use crate::expression::{ExpressionTree, ExpressionTreeNode, ExprView, trees_view, expr_view};
use crate::expression_build::{Built, BuildResult, build};
use crate::semantic_dot::{dot_text, dot_warnings, node_edges, tokens_view};
use crate::token::Token;
use crate::semantic_node::SemanticNodeData;
use crate::code_attrs::CodeAttrs;

verus! {

/// Whether intermediate code can be generated for `n`: only a program node
/// is handled, through its function list if it has one, else through its
/// statement; generation stops at any other node.
pub open spec fn code_generates(n: SemanticNode) -> bool
    decreases n,
{
    match n.children {
        SemanticNodeData::Program { funclist, statement } => match funclist {
            Some(f) => code_generates(*f),
            None => match statement {
                Some(st) => code_generates(*st),
                None => true,
            },
        },
        _ => false,
    }
}

impl SemanticNode {
    /// Generates the intermediate code of this node into `inh`, where
    /// generation does not stop (see [`code_generates`]); no node that it
    /// reaches appends code.
    pub fn generate_code(&self, inh: &mut CodeAttrs)
        requires
            code_generates(*self),
        ensures
            *final(inh) == *old(inh),
        decreases self,
    {
        match &self.children {
            SemanticNodeData::Program { funclist, statement } => {
                if let Some(f) = funclist {
                    f.generate_code(inh);
                } else if let Some(st) = statement {
                    st.generate_code(inh);
                }
            },
            _ => {},
        }
    }

    /// Analyses this node against the scopes, where the analysis does not
    /// abort (see [`sem`]).
    pub fn semantic_analysis(&self, scopes: &mut ScopeStack) -> (r: Result<Option<ReturnSem>, SemanticError>)
        requires
            !(sem(*self, old(scopes)@) is Abort),
        ensures
            match sem(*self, old(scopes)@) {
                Outcome::Done(v, s) => r is Ok && r->Ok_0 == v && final(scopes)@ == s,
                Outcome::Fail(e, s) => r is Err && r->Err_0@ == e && final(scopes)@ == s,
                Outcome::Abort => false,
            },
    {
        match self.analyze(scopes) {
            Analysis::Done(v) => Ok(v),
            Analysis::Fail(e) => Err(e),
            Analysis::Abort => Ok(None),
        }
    }

    /// Walks this node, appending the expression trees it yields to `trees`,
    /// where the walk does not abort (see [`build`]).
    pub fn create_expression_tree(&self, trees: &mut Vec<ExpressionTree>) -> (r: Option<ExpressionTreeNode>)
        requires
            !(build(*self, trees_view(old(trees)@)) is Abort),
        ensures
            match build(*self, trees_view(old(trees)@)) {
                Built::Done(v, t) => trees_view(final(trees)@) == t && match r {
                    Some(x) => v == Some(expr_view(x)),
                    None => v is None,
                },
                Built::Abort => false,
            },
    {
        match self.create_tree(trees) {
            BuildResult::Done(v) => v,
            BuildResult::Abort => None,
        }
    }
}

fn generates(n: &SemanticNode) -> (r: bool)
    ensures
        r == code_generates(*n),
    decreases n,
{
    match &n.children {
        SemanticNodeData::Program { funclist, statement } => match funclist {
            Some(f) => generates(f),
            None => match statement {
                Some(st) => generates(st),
                None => true,
            },
        },
        _ => false,
    }
}

/// A program's semantic tree and the scopes it is analysed against.
pub struct SemanticTree {
    pub root: SemanticNode,
    pub scopes: ScopeStack,
}

/// The DOT document of a semantic tree.
pub open spec fn semantic_dot(root: SemanticNode) -> Seq<char> {
    "digraph G {\n"@ + dot_text(root, 0) + "}\n"@
}

impl SemanticTree {
    /// Analyses the tree against its scopes; `None` where the analysis aborts
    /// (see [`sem`]).
    pub fn try_semantic_analysis(&mut self) -> (r: Option<Result<(), SemanticError>>)
        ensures
            final(self).root == old(self).root,
            match sem(old(self).root, old(self).scopes@) {
                Outcome::Done(_, s) => r == Some(Ok::<(), SemanticError>(())) && final(self).scopes@ == s,
                Outcome::Fail(e, s) => r is Some && r->Some_0 is Err && r->Some_0->Err_0@ == e && final(self).scopes@ == s,
                Outcome::Abort => r is None,
            },
    {
        match self.root.analyze(&mut self.scopes) {
            Analysis::Done(_) => Some(Ok(())),
            Analysis::Fail(e) => Some(Err(e)),
            Analysis::Abort => None,
        }
    }

    /// Analyses the tree against its scopes, where the analysis does not
    /// abort.
    pub fn semantic_analysis(&mut self) -> (r: Result<(), SemanticError>)
        requires
            !(sem(old(self).root, old(self).scopes@) is Abort),
        ensures
            final(self).root == old(self).root,
            match sem(old(self).root, old(self).scopes@) {
                Outcome::Done(_, s) => r is Ok && final(self).scopes@ == s,
                Outcome::Fail(e, s) => r is Err && r->Err_0@ == e && final(self).scopes@ == s,
                Outcome::Abort => false,
            },
    {
        match self.try_semantic_analysis() {
            Some(r) => r,
            None => Ok(()),
        }
    }

    /// The expression trees of the program, in the order in which the tree
    /// is walked; `None` where the walk aborts (see [`build`]).
    pub fn try_create_expression_trees(&self) -> (r: Option<Vec<ExpressionTree>>)
        ensures
            match build(self.root, Seq::empty()) {
                Built::Done(_, t) => r is Some && trees_view(r->Some_0@) == t,
                Built::Abort => r is None,
            },
    {
        let mut trees: Vec<ExpressionTree> = Vec::new();
        assert(trees_view(trees@) =~= Seq::<ExprView>::empty());
        match self.root.create_tree(&mut trees) {
            BuildResult::Done(_) => Some(trees),
            BuildResult::Abort => None,
        }
    }

    /// The expression trees of the program, where the walk does not abort.
    pub fn create_expression_trees(&self) -> (r: Vec<ExpressionTree>)
        requires
            !(build(self.root, Seq::empty()) is Abort),
        ensures
            match build(self.root, Seq::empty()) {
                Built::Done(_, t) => trees_view(r@) == t,
                Built::Abort => false,
            },
    {
        match self.try_create_expression_trees() {
            Some(t) => t,
            None => Vec::new(),
        }
    }

    /// The intermediate code of the program, where generation does not stop
    /// (see [`code_generates`]): the code of fresh attributes.
    pub fn generate_code(&self) -> (r: String)
        requires
            code_generates(self.root),
        ensures
            r@ == Seq::<char>::empty(),
    {
        let mut attrs = CodeAttrs::new();
        self.root.generate_code(&mut attrs);
        attrs.into_code()
    }

    /// The intermediate code of the program; `None` where generation stops
    /// (see [`code_generates`]).
    pub fn try_generate_code(&self) -> (r: Option<String>)
        ensures
            code_generates(self.root) ==> (r matches Some(c) && c@ == Seq::<char>::empty()),
            !code_generates(self.root) ==> r is None,
    {
        if generates(&self.root) {
            Some(self.generate_code())
        } else {
            None
        }
    }

    /// The DOT document that saving the tree writes, and the terminals
    /// without a value, which are not drawn.
    pub fn save(&self) -> (r: (String, Vec<Token>))
        requires
            node_edges(self.root) <= u32::MAX,
        ensures
            r.0@ == semantic_dot(self.root),
            tokens_view(r.1@) == dot_warnings(self.root),
    {
        let mut output = String::new();
        output.append("digraph G {\n");
        let mut count: u32 = 0;
        let mut warnings: Vec<Token> = Vec::new();
        assert(tokens_view(warnings@) =~= Seq::empty());
        self.root.save(&mut output, &mut count, &mut warnings);
        output.append("}\n");
        assert(output@ =~= semantic_dot(self.root));
        assert(tokens_view(warnings@) =~= dot_warnings(self.root));
        (output, warnings)
    }
}

} // verus!
