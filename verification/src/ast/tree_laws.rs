//! What the nodes of expressions are.
use crate::ast::tree::{node, ExprTree, Tree, TreeView};
use crate::ast::{
    Call, Expression, ExpressionInner, Match, SingleExpression, SingleExpressionInner, Statement,
};
use crate::parse::Either;
use vstd::prelude::*;

verus! {

/// The children of a node, first to last.
pub open spec fn children<'a>(tree: TreeView<ExprTree<'a>>) -> Seq<ExprTree<'a>> {
    match tree {
        Tree::Nullary => Seq::empty(),
        Tree::Unary(child) => seq![child],
        Tree::Nary(children) => children,
    }
}

/// Whether the children of a tree are expressions, in their order.
pub open spec fn has_expressions(tree: ExprTree<'_>, expressions: Seq<Expression>) -> bool {
    &&& children(node(tree)).len() == expressions.len()
    &&& forall|i: int|
        0 <= i < expressions.len() ==> #[trigger] children(node(tree))[i] == ExprTree::Expression(
            &expressions[i],
        )
}

/// The children of a call are its arguments, and those of a match are the value that is matched and
/// the expressions of the arms.
pub proof fn arguments_are_children(call: Call, m: Match)
    ensures
        has_expressions(ExprTree::Call(&call), call.args@),
        has_expressions(
            ExprTree::Match(&m),
            seq![*m.scrutinee, *m.left.expression, *m.right.expression],
        ),
{
}

/// The children of a tuple, an array or a list are its elements. The child of a wrapped value is
/// this value. What has no parts has no children.
pub proof fn elements_are_children(single: SingleExpression)
    ensures
        match single.inner {
            SingleExpressionInner::Tuple(es) => has_expressions(ExprTree::Single(&single), es@),
            SingleExpressionInner::Array(es) => has_expressions(ExprTree::Single(&single), es@),
            SingleExpressionInner::List(es) => has_expressions(ExprTree::Single(&single), es@),
            SingleExpressionInner::Expression(e) => has_expressions(
                ExprTree::Single(&single),
                seq![*e],
            ),
            SingleExpressionInner::Either(Either::Left(e)) => has_expressions(
                ExprTree::Single(&single),
                seq![*e],
            ),
            SingleExpressionInner::Either(Either::Right(e)) => has_expressions(
                ExprTree::Single(&single),
                seq![*e],
            ),
            SingleExpressionInner::Option(Some(e)) => has_expressions(
                ExprTree::Single(&single),
                seq![*e],
            ),
            SingleExpressionInner::Call(call) => children(node(ExprTree::Single(&single))) == seq![
                ExprTree::Call(&call),
            ],
            SingleExpressionInner::Match(m) => children(node(ExprTree::Single(&single))) == seq![
                ExprTree::Match(&m),
            ],
            _ => children(node(ExprTree::Single(&single))).len() == 0,
        },
{
}

/// Two steps below a block are its statements, first to last, and its final expression behind them.
/// The expression of a statement is below it.
pub proof fn statements_are_children(e: Expression, i: int)
    ensures
        e.inner matches ExpressionInner::Block(list, last) ==> {
            let below = children(node(children(node(ExprTree::Expression(&e)))[0]));
            &&& below.len() == list@.len() + (if last is Some {
                1int
            } else {
                0int
            })
            &&& 0 <= i < list@.len() ==> below[i] == ExprTree::Statement(&list@[i])
            &&& 0 <= i < list@.len() ==> match list@[i] {
                Statement::Expression(inner) => has_expressions(below[i], seq![inner]),
                Statement::Assignment(a) => has_expressions(
                    children(node(below[i]))[0],
                    seq![a.expression],
                ),
            }
            &&& last matches Some(f) ==> below.last() == ExprTree::Expression(&*f)
        },
{
}

} // verus!
