//! Expressions as trees.
use crate::ast::{
    Assignment, Call, Expression, ExpressionInner, Match, SingleExpression, SingleExpressionInner,
    Statement,
};
use crate::list::List;
use crate::parse::Either;
use std::sync::Arc;
use vstd::prelude::*;

verus! {

/// A node of a tree, with children of type `T`. Many children are of type `Many`.
#[derive(Debug)]
pub enum Tree<T, Many = Vec<T>> {
    /// A node without children.
    Nullary,
    /// A node with one child.
    Unary(T),
    /// A node with any number of children.
    Nary(Many),
}

/// What a contract says of a node.
pub type TreeView<T> = Tree<T, Seq<T>>;

impl<T> View for Tree<T> {
    type V = TreeView<T>;

    open spec fn view(&self) -> TreeView<T> {
        match *self {
            Tree::Nullary => Tree::Nullary,
            Tree::Unary(child) => Tree::Unary(child),
            Tree::Nary(children) => Tree::Nary(children@),
        }
    }
}

/// A part of an expression.
#[derive(Clone, Copy, Debug)]
pub enum ExprTree<'a> {
    Expression(&'a Expression),
    Block(&'a List<Statement>, &'a Option<Arc<Expression>>),
    Statement(&'a Statement),
    Assignment(&'a Assignment),
    Single(&'a SingleExpression),
    Call(&'a Call),
    Match(&'a Match),
}

/// Each expression of a list as a tree.
pub open spec fn expression_trees<'a>(expressions: Seq<Expression>) -> Seq<ExprTree<'a>> {
    Seq::new(expressions.len(), |i: int| ExprTree::Expression(&expressions[i]))
}

/// Each statement of a list as a tree.
pub open spec fn statement_trees<'a>(statements: Seq<Statement>) -> Seq<ExprTree<'a>> {
    Seq::new(statements.len(), |i: int| ExprTree::Statement(&statements[i]))
}

/// The node at the root of a tree.
pub open spec fn node<'a>(tree: ExprTree<'a>) -> TreeView<ExprTree<'a>> {
    match tree {
        ExprTree::Expression(e) => match e.inner {
            ExpressionInner::Block(statements, last) => Tree::Unary(
                ExprTree::Block(&statements, &last),
            ),
            ExpressionInner::Single(single) => Tree::Unary(ExprTree::Single(&single)),
        },
        ExprTree::Block(statements, last) => Tree::Nary(
            match last {
                Some(e) => statement_trees(statements@).push(ExprTree::Expression(&**e)),
                None => statement_trees(statements@),
            },
        ),
        ExprTree::Statement(Statement::Assignment(a)) => Tree::Unary(ExprTree::Assignment(a)),
        ExprTree::Statement(Statement::Expression(e)) => Tree::Unary(ExprTree::Expression(e)),
        ExprTree::Assignment(a) => Tree::Unary(ExprTree::Expression(&a.expression)),
        ExprTree::Single(single) => match single.inner {
            SingleExpressionInner::Constant(_) => Tree::Nullary,
            SingleExpressionInner::Witness(_) => Tree::Nullary,
            SingleExpressionInner::Parameter(_) => Tree::Nullary,
            SingleExpressionInner::Variable(_) => Tree::Nullary,
            SingleExpressionInner::Option(None) => Tree::Nullary,
            SingleExpressionInner::Expression(e) => Tree::Unary(ExprTree::Expression(&*e)),
            SingleExpressionInner::Either(Either::Left(e)) => Tree::Unary(
                ExprTree::Expression(&*e),
            ),
            SingleExpressionInner::Either(Either::Right(e)) => Tree::Unary(
                ExprTree::Expression(&*e),
            ),
            SingleExpressionInner::Option(Some(e)) => Tree::Unary(ExprTree::Expression(&*e)),
            SingleExpressionInner::Tuple(es) => Tree::Nary(expression_trees(es@)),
            SingleExpressionInner::Array(es) => Tree::Nary(expression_trees(es@)),
            SingleExpressionInner::List(es) => Tree::Nary(expression_trees(es@)),
            SingleExpressionInner::Call(call) => Tree::Unary(ExprTree::Call(&call)),
            SingleExpressionInner::Match(m) => Tree::Unary(ExprTree::Match(&m)),
        },
        ExprTree::Call(call) => Tree::Nary(expression_trees(call.args@)),
        ExprTree::Match(m) => Tree::Nary(
            seq![
                ExprTree::Expression(&*m.scrutinee),
                ExprTree::Expression(&*m.left.expression),
                ExprTree::Expression(&*m.right.expression),
            ],
        ),
    }
}

/// Collect each expression of a list as a tree.
fn collect_expressions(expressions: &List<Expression>) -> (trees: Vec<ExprTree<'_>>)
    ensures
        trees@ == expression_trees(expressions@),
{
    let elements = expressions.to_vec();
    let mut trees: Vec<ExprTree<'_>> = Vec::new();
    let mut i: usize = 0;
    while i < elements.len()
        invariant
            i <= elements.len(),
            trees.len() == i,
            elements.len() == expressions@.len(),
            forall|j: int| 0 <= j < elements.len() ==> *#[trigger] elements@[j] == expressions@[j],
            forall|j: int|
                0 <= j < i ==> #[trigger] trees@[j] == ExprTree::Expression(&expressions@[j]),
        decreases elements.len() - i,
    {
        trees.push(ExprTree::Expression(elements[i]));
        i = i + 1;
    }
    assert(trees@ =~= expression_trees(expressions@));
    trees
}

/// Collect each statement of a list as a tree.
fn collect_statements(statements: &List<Statement>) -> (trees: Vec<ExprTree<'_>>)
    ensures
        trees@ == statement_trees(statements@),
{
    let elements = statements.to_vec();
    let mut trees: Vec<ExprTree<'_>> = Vec::new();
    let mut i: usize = 0;
    while i < elements.len()
        invariant
            i <= elements.len(),
            trees.len() == i,
            elements.len() == statements@.len(),
            forall|j: int| 0 <= j < elements.len() ==> *#[trigger] elements@[j] == statements@[j],
            forall|j: int|
                0 <= j < i ==> #[trigger] trees@[j] == ExprTree::Statement(&statements@[j]),
        decreases elements.len() - i,
    {
        trees.push(ExprTree::Statement(elements[i]));
        i = i + 1;
    }
    assert(trees@ =~= statement_trees(statements@));
    trees
}

impl<'a> ExprTree<'a> {
    /// Get the node at the root of the tree.
    pub fn as_node(&self) -> (result: Tree<ExprTree<'a>>)
        ensures
            result@ == node(*self),
    {
        match *self {
            ExprTree::Expression(expr) => match &expr.inner {
                ExpressionInner::Block(statements, maybe_expr) => Tree::Unary(
                    ExprTree::Block(statements, maybe_expr),
                ),
                ExpressionInner::Single(single) => Tree::Unary(ExprTree::Single(single)),
            },
            ExprTree::Block(statements, maybe_expr) => {
                let mut children = collect_statements(statements);
                if let Some(expr) = maybe_expr {
                    children.push(ExprTree::Expression(expr));
                }
                Tree::Nary(children)
            },
            ExprTree::Statement(statement) => match statement {
                Statement::Assignment(assignment) => Tree::Unary(ExprTree::Assignment(assignment)),
                Statement::Expression(expression) => Tree::Unary(ExprTree::Expression(expression)),
            },
            ExprTree::Assignment(assignment) => Tree::Unary(
                ExprTree::Expression(&assignment.expression),
            ),
            ExprTree::Single(single) => match &single.inner {
                SingleExpressionInner::Constant(_) | SingleExpressionInner::Witness(_)
                | SingleExpressionInner::Parameter(_) | SingleExpressionInner::Variable(_)
                | SingleExpressionInner::Option(None) => Tree::Nullary,
                SingleExpressionInner::Expression(l) | SingleExpressionInner::Either(
                    Either::Left(l),
                ) | SingleExpressionInner::Either(Either::Right(l))
                | SingleExpressionInner::Option(Some(l)) => Tree::Unary(ExprTree::Expression(l)),
                SingleExpressionInner::Tuple(elements) | SingleExpressionInner::Array(elements)
                | SingleExpressionInner::List(elements) => Tree::Nary(
                    collect_expressions(elements),
                ),
                SingleExpressionInner::Call(call) => Tree::Unary(ExprTree::Call(call)),
                SingleExpressionInner::Match(m) => Tree::Unary(ExprTree::Match(m)),
            },
            ExprTree::Call(call) => Tree::Nary(collect_expressions(&call.args)),
            ExprTree::Match(m) => {
                let children: Vec<ExprTree<'a>> = vec![
                    ExprTree::Expression(&m.scrutinee),
                    ExprTree::Expression(&m.left.expression),
                    ExprTree::Expression(&m.right.expression),
                ];
                assert(children@ =~= node(*self)->Nary_0);
                Tree::Nary(children)
            },
        }
    }
}

} // verus!
