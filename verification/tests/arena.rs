use traversable_ast::arena::Nodes;
use traversable_ast::ast::{
    AsAstRef, AstType, BinaryOperator, Expression, ExpressionParent, IdentifierReference, NodeId,
    Statement, UnaryExpression, UnaryOperator,
};
use traversable_ast::cell::GCell;
use traversable_ast::parser::parse;
use traversable_ast::print::Printer;
use traversable_ast::traverse::{transform, try_transform, TransformError};
use traversable_ast::transform_typeof::TransformTypeof;

#[test]
fn parsed_tree_has_the_expected_entries() {
    let bump = bumpalo::Bump::new();
    let (nodes, stmt) = parse(&bump);
    assert_eq!(nodes.len(), 9);
    assert_eq!(stmt, NodeId::new(8));
    let kinds: Vec<AstType> =
        (0..9).map(|index| nodes.get_node(NodeId::new(index)).ast_type()).collect();
    assert_eq!(
        kinds,
        vec![
            AstType::Ident,
            AstType::Expr,
            AstType::Unary,
            AstType::Expr,
            AstType::Str,
            AstType::Expr,
            AstType::Binary,
            AstType::Expr,
            AstType::Stmt,
        ]
    );
    assert_eq!(nodes.get_node(NodeId::new(0)).as_ident_unchecked().name, "foo");
    assert_eq!(nodes.get_node(NodeId::new(4)).as_str_unchecked().value, "object");
    let binary = nodes.get_node(NodeId::new(6)).as_binary_unchecked();
    assert_eq!(binary.operator, BinaryOperator::StrictEquality);
    assert_eq!(binary.left, NodeId::new(3));
    assert_eq!(binary.right, NodeId::new(5));
    assert_eq!(binary.parent, ExpressionParent::ExpressionStatement(NodeId::new(8)));
    assert_eq!(nodes.first_unlinked(), None);
}

#[test]
fn every_parent_tag_leads_back_to_its_node() {
    let bump = bumpalo::Bump::new();
    let (nodes, _) = parse(&bump);
    let unary = nodes.get_node(NodeId::new(2)).as_unary_unchecked();
    assert_eq!(unary.parent, ExpressionParent::BinaryExpressionLeft(NodeId::new(6)));
    let field = nodes.get_node(NodeId::new(6)).as_binary_unchecked().left;
    assert_eq!(nodes.expression(field).target(), NodeId::new(2));
    let ident = nodes.get_node(NodeId::new(0)).as_ident_unchecked();
    assert_eq!(ident.parent, ExpressionParent::UnaryExpression(NodeId::new(2)));
    assert_eq!(nodes.expression(nodes.argument(NodeId::new(2))).target(), NodeId::new(0));
}

#[test]
fn walking_getters_read_the_children() {
    let bump = bumpalo::Bump::new();
    let (nodes, stmt) = parse(&bump);
    assert!(nodes.holds(stmt, AstType::Stmt));
    assert!(!nodes.holds(stmt, AstType::Expr));
    assert!(!nodes.holds(NodeId::new(9), AstType::Stmt));
    assert_eq!(nodes.statement_expression(stmt), NodeId::new(7));
    assert_eq!(nodes.expression(NodeId::new(7)), Expression::BinaryExpression(NodeId::new(6)));
    assert_eq!(nodes.operands(NodeId::new(6)), (NodeId::new(3), NodeId::new(5)));
    assert_eq!(nodes.argument(NodeId::new(2)), NodeId::new(1));
}

#[test]
fn swapping_operands_rewrites_both_tags() {
    let bump = bumpalo::Bump::new();
    let (mut nodes, _) = parse(&bump);
    nodes.swap_operands(NodeId::new(6));
    let binary = nodes.get_node(NodeId::new(6)).as_binary_unchecked();
    assert_eq!(binary.left, NodeId::new(5));
    assert_eq!(binary.right, NodeId::new(3));
    assert_eq!(binary.operator, BinaryOperator::StrictEquality);
    assert_eq!(binary.parent, ExpressionParent::ExpressionStatement(NodeId::new(8)));
    assert_eq!(
        nodes.get_node(NodeId::new(2)).parent(),
        Some(ExpressionParent::BinaryExpressionRight(NodeId::new(6)))
    );
    assert_eq!(
        nodes.get_node(NodeId::new(4)).parent(),
        Some(ExpressionParent::BinaryExpressionLeft(NodeId::new(6)))
    );
    assert_eq!(nodes.len(), 9);
    assert_eq!(nodes.first_unlinked(), None);
    nodes.swap_operands(NodeId::new(6));
    assert_eq!(nodes.operands(NodeId::new(6)), (NodeId::new(3), NodeId::new(5)));
    assert_eq!(nodes.first_unlinked(), None);
}

#[test]
fn stale_parent_tag_is_found() {
    let bump = bumpalo::Bump::new();
    let (mut nodes, _) = parse(&bump);
    nodes
        .get_node_mut(NodeId::new(4))
        .set_parent(ExpressionParent::BinaryExpressionLeft(NodeId::new(6)));
    assert_eq!(nodes.first_unlinked(), Some(NodeId::new(4)));
}

#[test]
fn exchange_without_tags_is_found() {
    let bump = bumpalo::Bump::new();
    let (mut nodes, _) = parse(&bump);
    let binary = nodes.get_node_mut(NodeId::new(6)).as_binary_mut_unchecked();
    std::mem::swap(&mut binary.left, &mut binary.right);
    assert_eq!(nodes.first_unlinked(), Some(NodeId::new(2)));
}

#[test]
fn unpatched_child_is_found() {
    let bump = bumpalo::Bump::new();
    let mut nodes = Nodes::with_capacity_in(0, &bump);
    let ident =
        nodes.push(IdentifierReference { name: "x", parent: ExpressionParent::Root }.as_ast_ref());
    let ident_expr = nodes.push(Expression::Identifier(ident).as_ast_ref());
    assert_eq!(nodes.first_unlinked(), None);
    let unary = nodes.push(
        UnaryExpression {
            operator: UnaryOperator::LogicalNot,
            argument: ident_expr,
            parent: ExpressionParent::Root,
        }
        .as_ast_ref(),
    );
    assert_eq!(nodes.first_unlinked(), Some(unary));
    nodes.get_node_mut(ident).set_parent(ExpressionParent::UnaryExpression(unary));
    assert_eq!(nodes.first_unlinked(), None);
}

#[test]
fn wrong_kind_and_forward_link_are_found() {
    let bump = bumpalo::Bump::new();
    let mut nodes = Nodes::with_capacity_in(4, &bump);
    let ident =
        nodes.push(IdentifierReference { name: "x", parent: ExpressionParent::Root }.as_ast_ref());
    let wrong = nodes.push(Expression::StringLiteral(ident).as_ast_ref());
    assert_eq!(nodes.first_unlinked(), Some(wrong));
    *nodes.get_node_mut(wrong).as_expr_mut_unchecked() = Expression::Identifier(NodeId::new(5));
    assert_eq!(nodes.first_unlinked(), Some(wrong));
    *nodes.get_node_mut(wrong).as_expr_mut_unchecked() = Expression::Identifier(ident);
    assert_eq!(nodes.first_unlinked(), None);
    let stmt = nodes.push(Statement::ExpressionStatement(NodeId::new(2)).as_ast_ref());
    assert_eq!(nodes.first_unlinked(), Some(stmt));
}

#[test]
fn checked_driver_refuses_what_is_no_tree() {
    let bump = bumpalo::Bump::new();
    let (mut nodes, stmt) = parse(&bump);
    let mut transformer = TransformTypeof;
    assert_eq!(
        try_transform(&mut transformer, NodeId::new(6), &mut nodes),
        Err(TransformError::NotAStatement(NodeId::new(6)))
    );
    assert_eq!(
        try_transform(&mut transformer, NodeId::new(40), &mut nodes),
        Err(TransformError::NotAStatement(NodeId::new(40)))
    );
    nodes.get_node_mut(NodeId::new(0)).set_parent(ExpressionParent::Root);
    assert_eq!(
        try_transform(&mut transformer, stmt, &mut nodes),
        Err(TransformError::BrokenLink(NodeId::new(2)))
    );
    assert_eq!(nodes.operands(NodeId::new(6)), (NodeId::new(3), NodeId::new(5)));
    nodes
        .get_node_mut(NodeId::new(0))
        .set_parent(ExpressionParent::UnaryExpression(NodeId::new(2)));
    assert_eq!(try_transform(&mut transformer, stmt, &mut nodes), Ok(()));
    assert_eq!(Printer::print(stmt, &mut nodes), "'object' === typeof foo");
}

#[test]
fn driver_keeps_the_tree_consistent() {
    let bump = bumpalo::Bump::new();
    let (mut nodes, stmt) = parse(&bump);
    let mut transformer = TransformTypeof;
    transform(&mut transformer, stmt, &mut nodes);
    assert_eq!(nodes.len(), 9);
    assert_eq!(nodes.first_unlinked(), None);
    assert_eq!(nodes.operands(NodeId::new(6)), (NodeId::new(5), NodeId::new(3)));
}

#[test]
fn view_round_trip_gives_the_value_back() {
    let cell = GCell::new(17u32);
    assert_eq!(cell.into_inner(), 17);
    let mut cell = GCell::from(String::from("abc"));
    cell.get_mut().push('d');
    assert_eq!(cell.into_inner(), "abcd");
    let mut cell: GCell<u8> = GCell::default();
    *cell.as_mut() += 3;
    assert_eq!(cell.into_inner(), 3);

    let bump = bumpalo::Bump::new();
    let (nodes, stmt) = parse(&bump);
    let mut nodes = GCell::new(nodes).into_inner();
    assert_eq!(nodes.len(), 9);
    assert_eq!(nodes.first_unlinked(), None);
    assert_eq!(Printer::print(stmt, &mut nodes), "typeof foo === 'object'");
}
