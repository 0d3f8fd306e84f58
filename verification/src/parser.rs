//! A stand-in for a parser: builds the tree of one fixed program the way a
//! parser would, children before parents, patching each child's parent tag as
//! soon as the parent has a handle.

use crate::arena::Nodes;
use crate::ast::{
    AsAstRef, AstKind, AstType, BinaryExpression, BinaryOperator, Expression, ExpressionParent,
    IdentifierReference, NodeId, Statement, StringLiteral, UnaryExpression, UnaryOperator,
};
use crate::tree::{entry_linked, has_type, well_formed};
use vstd::prelude::*;

verus! {

/// The arena of `typeof foo === 'object'`, entry by entry.
pub open spec fn typeof_foo_is_object() -> Seq<AstKind<'static>> {
    seq![
        AstKind::Ident(
            IdentifierReference {
                name: "foo",
                parent: ExpressionParent::UnaryExpression(NodeId(2)),
            },
        ),
        AstKind::Expr(Expression::Identifier(NodeId(0))),
        AstKind::Unary(
            UnaryExpression {
                operator: UnaryOperator::Typeof,
                argument: NodeId(1),
                parent: ExpressionParent::BinaryExpressionLeft(NodeId(6)),
            },
        ),
        AstKind::Expr(Expression::UnaryExpression(NodeId(2))),
        AstKind::Str(
            StringLiteral {
                value: "object",
                parent: ExpressionParent::BinaryExpressionRight(NodeId(6)),
            },
        ),
        AstKind::Expr(Expression::StringLiteral(NodeId(4))),
        AstKind::Binary(
            BinaryExpression {
                left: NodeId(3),
                operator: BinaryOperator::StrictEquality,
                right: NodeId(5),
                parent: ExpressionParent::ExpressionStatement(NodeId(8)),
            },
        ),
        AstKind::Expr(Expression::BinaryExpression(NodeId(6))),
        AstKind::Stmt(Statement::ExpressionStatement(NodeId(7))),
    ]
}

/// The tree of [`typeof_foo_is_object`] is consistent.
pub proof fn lemma_typeof_foo_is_object_well_formed()
    ensures
        well_formed(typeof_foo_is_object()),
{
    let nodes = typeof_foo_is_object();
    assert forall|id: NodeId| id.0 < nodes.len() implies #[trigger] entry_linked(nodes, id) by {
        if id.0 == 0 {
        } else if id.0 == 1 {
        } else if id.0 == 2 {
        } else if id.0 == 3 {
        } else if id.0 == 4 {
        } else if id.0 == 5 {
        } else if id.0 == 6 {
        } else if id.0 == 7 {
        } else {
            assert(id.0 == 8);
        }
    }
}

/// Creates the tree of `typeof foo === 'object'` in `alloc` and returns the
/// arena with the handle of the statement.
pub fn parse<'a>(alloc: &'a bumpalo::Bump) -> (tree: (Nodes<'a>, NodeId))
    ensures
        tree.0@ == typeof_foo_is_object(),
        tree.1 == NodeId(8),
        well_formed(tree.0@),
        has_type(tree.0@, tree.1, AstType::Stmt),
{
    let mut nodes = Nodes::with_capacity_in(5, alloc);

    // `foo`
    let ident = IdentifierReference { name: "foo", parent: ExpressionParent::Root };
    let ident_id = nodes.push(ident.as_ast_ref());
    let ident_expr_id = nodes.push(Expression::Identifier(ident_id).as_ast_ref());

    // `typeof foo`
    let unary_expr = UnaryExpression {
        operator: UnaryOperator::Typeof,
        argument: ident_expr_id,
        parent: ExpressionParent::Root,
    };
    let unary_id = nodes.push(unary_expr.as_ast_ref());
    let unary_expr_id = nodes.push(Expression::UnaryExpression(unary_id).as_ast_ref());
    nodes.get_node_mut(ident_id).as_ident_mut_unchecked().parent =
        ExpressionParent::UnaryExpression(unary_id);

    // `'object'`
    let str_lit = StringLiteral { value: "object", parent: ExpressionParent::Root };
    let str_id = nodes.push(str_lit.as_ast_ref());
    let str_expr_id = nodes.push(Expression::StringLiteral(str_id).as_ast_ref());

    // `typeof foo === 'object'` (as expression)
    let binary_expr = BinaryExpression {
        left: unary_expr_id,
        operator: BinaryOperator::StrictEquality,
        right: str_expr_id,
        parent: ExpressionParent::Root,
    };
    let binary_id = nodes.push(binary_expr.as_ast_ref());
    nodes.get_node_mut(unary_id).as_unary_mut_unchecked().parent =
        ExpressionParent::BinaryExpressionLeft(binary_id);
    nodes.get_node_mut(str_id).as_str_mut_unchecked().parent =
        ExpressionParent::BinaryExpressionRight(binary_id);
    let expr_id = nodes.push(Expression::BinaryExpression(binary_id).as_ast_ref());

    // `typeof foo === 'object'` (as statement)
    let stmt_id = nodes.push(Statement::ExpressionStatement(expr_id).as_ast_ref());
    nodes.get_node_mut(binary_id).as_binary_mut_unchecked().parent =
        ExpressionParent::ExpressionStatement(stmt_id);

    proof {
        assert(nodes@ =~= typeof_foo_is_object());
        lemma_typeof_foo_is_object_well_formed();
    }
    (nodes, stmt_id)
}

} // verus!
